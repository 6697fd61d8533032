use mcphoton::Simulation;

fn fx(x: f64) -> i64 {
    (x * 4294967296.0).round() as i64
}

fn scattering_sim(seed: u64, nt: usize) -> Simulation {
    let mut sim = Simulation::new();
    sim.configure_run(fx(0.1), fx(0.1), fx(0.157), 20, 20, 10, nt, fx(0.001), fx(0.1), 0);
    sim.add_layer(fx(1.0), 0, 0, 0, 0);
    sim.add_layer(fx(1.37), fx(1.0), fx(10.0), fx(0.9), fx(1.0));
    sim.add_layer(fx(1.0), 0, 0, 0, 0);
    sim.initialize();
    sim.set_seed(seed);
    sim
}

#[test]
fn accumulators_match_the_configured_grids() {
    let sim = scattering_sim(1, 4);
    assert_eq!(sim.get_a_rz().len(), 20 * 20);
    assert_eq!(sim.get_rd_ra().len(), 10 * 20);
    assert_eq!(sim.get_tt_ra().len(), 10 * 20);
    assert_eq!(sim.get_rd_x().len(), 40);
    assert_eq!(sim.get_w_txz().len(), 20 * 20 * 2 * 4);
    assert!(sim.get_a_rz().iter().all(|&v| v == 0));
}

#[test]
fn live_photons_fill_the_time_resolved_grid() {
    let mut sim = scattering_sim(5, 8);
    sim.launch_photons(200);
    let total: i128 = sim.get_w_txz().iter().map(|&v| v as i128).sum();
    assert!(total > 0);
}

#[test]
fn same_seed_reproduces_the_run() {
    let mut a = scattering_sim(123, 2);
    let mut b = scattering_sim(123, 2);
    a.launch_photons(500);
    b.launch_photons(500);
    assert_eq!(a.get_a_rz(), b.get_a_rz());
    assert_eq!(a.get_rd_ra(), b.get_rd_ra());
    assert_eq!(a.get_tt_ra(), b.get_tt_ra());
    assert_eq!(a.get_rd_unscattered(), b.get_rd_unscattered());
    assert_eq!(a.get_tt_unscattered(), b.get_tt_unscattered());

    let mut c = scattering_sim(124, 2);
    c.launch_photons(500);
    assert_ne!(a.get_a_rz(), c.get_a_rz());
}

#[test]
fn reconfiguring_clears_the_accumulators() {
    let mut sim = scattering_sim(9, 0);
    sim.launch_photons(100);
    let absorbed: i128 = sim.get_a_rz().iter().map(|&v| v as i128).sum();
    assert!(absorbed > 0);
    sim.initialize();
    assert!(sim.get_a_rz().iter().all(|&v| v == 0));
    assert_eq!(sim.get_rd_unscattered(), 0);
    assert_eq!(sim.get_tt_unscattered(), 0);
}
