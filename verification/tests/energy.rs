use mcphoton::Simulation;
use mcphoton::engine::roulette;
use mcphoton::photon::PhotonPacket;

fn fx(x: f64) -> i64 {
    (x * 4294967296.0).round() as i64
}

const ONE: i64 = 0x1_0000_0000;

fn sum(v: &Vec<i64>) -> i128 {
    v.iter().map(|&x| x as i128).sum()
}

#[test]
fn fully_absorbing_layer_captures_every_photon() {
    // Matched-index ambients and a purely absorbing slab: every photon
    // deposits its entire weight in the absorption grid; nothing is
    // reflected or transmitted.
    let mut sim = Simulation::new();
    sim.configure_run(fx(0.5), fx(0.1), fx(0.1), 20, 10, 10, 0, fx(0.0001), fx(0.1), 0);
    sim.add_layer(fx(1.0), 0, 0, 0, 0);
    sim.add_layer(fx(1.0), fx(1.0), 0, 0, fx(1000.0));
    sim.add_layer(fx(1.0), 0, 0, 0, 0);
    sim.initialize();
    sim.set_seed(2024);
    assert_eq!(sim.get_r_specular(), 0);
    let n: usize = 100_000;
    sim.launch_photons(n);
    let absorbed = sum(sim.get_a_rz());
    assert_eq!(absorbed, (n as i128) * (ONE as i128));
    assert_eq!(sum(sim.get_rd_ra()), 0);
    assert_eq!(sum(sim.get_tt_ra()), 0);
    assert_eq!(sim.get_rd_unscattered(), 0);
    assert_eq!(sim.get_tt_unscattered(), 0);
}

#[test]
fn scattering_slab_conserves_energy() {
    // A turbid slab between matched ambients: over the ensemble the
    // absorbed, reflected and transmitted weights add up to what was
    // launched, up to roulette variance.
    let mut sim = Simulation::new();
    sim.configure_run(fx(0.1), fx(0.1), fx(0.157), 50, 50, 10, 0, fx(0.001), fx(0.1), 0);
    sim.add_layer(fx(1.0), 0, 0, 0, 0);
    sim.add_layer(fx(1.0), fx(1.0), fx(9.0), fx(0.75), fx(0.5));
    sim.add_layer(fx(1.0), 0, 0, 0, 0);
    sim.initialize();
    sim.set_seed(99);
    let n: usize = 5_000;
    sim.launch_photons(n);
    let total = sum(sim.get_a_rz())
        + sum(sim.get_rd_ra())
        + sum(sim.get_tt_ra())
        + sim.get_rd_unscattered() as i128
        + sim.get_tt_unscattered() as i128;
    let launched = (n as i128) * (ONE as i128);
    let ratio = total as f64 / launched as f64;
    assert!((ratio - 1.0).abs() < 0.03, "energy ratio {}", ratio);
    // The slab both absorbs and transmits a real share of the light.
    assert!(sum(sim.get_a_rz()) > launched / 20);
    assert!(sum(sim.get_tt_ra()) + sim.get_tt_unscattered() as i128 > launched / 20);
}

#[test]
fn roulette_preserves_expected_weight() {
    // Photons of fixed small weight: survivors are boosted by 1/chance,
    // so the mean surviving weight equals the entry weight.
    let mut sim = Simulation::new();
    sim.configure_run(fx(0.1), fx(0.1), fx(0.1), 5, 5, 5, 0, fx(0.01), fx(0.25), 0);
    sim.add_layer(fx(1.0), 0, 0, 0, 0);
    sim.add_layer(fx(1.0), fx(1.0), 0, 0, fx(1.0));
    sim.add_layer(fx(1.0), 0, 0, 0, 0);
    sim.initialize();
    sim.set_seed(7);
    let w = fx(0.004);
    let trials: usize = 200_000;
    let mut total: i128 = 0;
    let mut survivors: usize = 0;
    for _ in 0..trials {
        let mut p = PhotonPacket::new();
        p.weight = w;
        roulette(&mut sim, &mut p);
        if !p.dead {
            assert_eq!(p.weight, w * 4);
            survivors += 1;
            total += p.weight as i128;
        } else {
            assert_eq!(p.weight, w);
        }
    }
    let mean = total as f64 / trials as f64;
    assert!((mean / w as f64 - 1.0).abs() < 0.02, "mean ratio {}", mean / w as f64);
    let frac = survivors as f64 / trials as f64;
    assert!((frac - 0.25).abs() < 0.01, "survival {}", frac);
}

#[test]
fn zero_weight_photon_dies_outright() {
    let mut sim = Simulation::new();
    sim.configure_run(fx(0.1), fx(0.1), fx(0.1), 5, 5, 5, 0, fx(0.01), fx(0.5), 0);
    sim.add_layer(fx(1.0), 0, 0, 0, 0);
    sim.add_layer(fx(1.0), fx(1.0), 0, 0, fx(1.0));
    sim.add_layer(fx(1.0), 0, 0, 0, 0);
    sim.initialize();
    let mut p = PhotonPacket::new();
    p.weight = 0;
    roulette(&mut sim, &mut p);
    assert!(p.dead);
    assert_eq!(p.weight, 0);
}
