use mcphoton::Simulation;
use mcphoton::engine::{
    hop, step_size_in_glass, step_size_in_tissue, hit_boundary, update_layer, launch_photon,
    cross_dn_or_not, record_r,
};
use mcphoton::photon::PhotonPacket;

fn fx(x: f64) -> i64 {
    (x * 4294967296.0).round() as i64
}

fn to_f(v: i64) -> f64 {
    v as f64 / 4294967296.0
}

const ONE: i64 = 0x1_0000_0000;

fn slab(n_mid: f64, mua: f64, mus: f64, g: f64, alpha: f64) -> Simulation {
    let mut sim = Simulation::new();
    sim.configure_run(fx(0.1), fx(0.1), fx(0.1), 8, 8, 8, 0, fx(0.0001), fx(0.1), fx(alpha));
    sim.add_layer(fx(1.0), 0, 0, 0, 0);
    sim.add_layer(fx(n_mid), fx(mua), fx(mus), fx(g), fx(1.0));
    sim.add_layer(fx(1.0), 0, 0, 0, 0);
    sim.initialize();
    sim
}

#[test]
fn hop_moves_along_the_direction() {
    let mut p = PhotonPacket::new();
    p.step_size = fx(2.0);
    p.ux = fx(0.5);
    p.uy = fx(0.5);
    p.uz = 0;
    hop(&mut p);
    assert_eq!(p.x, fx(1.0));
    assert_eq!(p.y, fx(1.0));
    assert_eq!(p.z, 0);
    assert!((to_f(p.r) - 2.0f64.sqrt()).abs() < 1e-8);
}

#[test]
fn glass_step_reaches_the_boundary() {
    let mut p = PhotonPacket::new();
    p.uz = fx(0.5);
    p.z = fx(0.25);
    p.layer_z1 = fx(1.0);
    step_size_in_glass(&mut p);
    assert_eq!(p.step_size, fx(1.5));

    p.uz = -fx(0.5);
    p.z = fx(1.0);
    p.layer_z0 = fx(0.25);
    step_size_in_glass(&mut p);
    assert_eq!(p.step_size, fx(1.5));

    p.uz = 0;
    step_size_in_glass(&mut p);
    assert_eq!(p.step_size, 0);
}

#[test]
fn boundary_split_keeps_the_optical_depth() {
    let mut sim = slab(1.0, 2.0, 0.0, 0.0, 0.0);
    let mut p = PhotonPacket::new();
    p.uz = ONE;
    p.z = 0;
    p.layer_z1 = fx(1.0);
    p.layer_mua = fx(2.0);
    p.layer_mus = 0;
    p.step_size = fx(2.5);
    assert!(hit_boundary(&mut p));
    assert_eq!(p.step_size, fx(1.0));
    assert_eq!(p.step_size_left, fx(3.0));
    // The carried depth converts back to length in the same medium.
    step_size_in_tissue(&mut sim, &mut p);
    assert_eq!(p.step_size, fx(1.5));
    assert_eq!(p.step_size_left, 0);
}

#[test]
fn short_step_does_not_split() {
    let mut p = PhotonPacket::new();
    p.uz = ONE;
    p.z = 0;
    p.layer_z1 = fx(1.0);
    p.layer_mua = fx(2.0);
    p.step_size = fx(0.5);
    assert!(!hit_boundary(&mut p));
    assert_eq!(p.step_size, fx(0.5));
    assert_eq!(p.step_size_left, 0);
}

#[test]
fn tissue_steps_have_the_exponential_mean() {
    // Fresh steps are -ln(U)/(mua+mus): their mean is the mean free
    // path 1/(mua+mus).
    let mut sim = slab(1.0, 2.0, 0.0, 0.0, 0.0);
    sim.set_seed(31);
    let mut p = PhotonPacket::new();
    p.layer_mua = fx(2.0);
    p.layer_mus = 0;
    let n = 50_000usize;
    let mut total = 0.0f64;
    for _ in 0..n {
        p.step_size_left = 0;
        step_size_in_tissue(&mut sim, &mut p);
        total += to_f(p.step_size);
    }
    let mean = total / n as f64;
    assert!((mean - 0.5).abs() < 0.01, "mean step {}", mean);
}

#[test]
fn exit_angles_land_in_the_right_bin() {
    // A transmitted photon at a known angle falls in the angular bin of
    // acos(uz): with da = 0.1 rad, an exit cosine of cos(0.35) lands in
    // bin 3.
    let mut sim = slab(1.0, 1.0, 0.0, 0.0, 0.0);
    let na = sim.run_config.na;
    let mut p = PhotonPacket::new();
    p.scatters = 1;
    p.weight = ONE;
    p.uz = fx(0.35f64.cos());
    mcphoton::engine::record_t(&mut sim, 0, &mut p);
    assert_eq!(sim.get_tt_ra()[3], ONE);
    let occupied: usize = (0..na).filter(|&i| sim.get_tt_ra()[i] != 0).count();
    assert_eq!(occupied, 1);
}

#[test]
fn launch_refracts_by_snell() {
    let sim = slab(1.5, 1.0, 1.0, 0.0, 30.0);
    let mut p = PhotonPacket::new();
    launch_photon(&sim, &mut p);
    assert_eq!(p.layer, 1);
    let sint = (30.0f64.to_radians()).sin() / 1.5;
    assert!((to_f(p.ux) - sint).abs() < 1e-4, "ux {}", to_f(p.ux));
    assert!((to_f(p.uz) - (1.0 - sint * sint).sqrt()).abs() < 1e-4);
    assert_eq!(p.weight, ONE - sim.get_r_specular());
    assert_eq!(p.layer_mua, sim.run_config.layers[1].mua);
    assert_eq!(p.layer_g, sim.run_config.layers[1].g);
}

#[test]
fn normal_launch_is_exactly_vertical() {
    let sim = slab(1.0, 1.0, 0.0, 0.0, 0.0);
    let mut p = PhotonPacket::new();
    launch_photon(&sim, &mut p);
    assert_eq!(p.ux, 0);
    assert_eq!(p.uz, ONE);
    assert_eq!(p.weight, ONE);
}

#[test]
fn below_critical_cosine_reflects_without_randomness() {
    // Downward at a shallow angle against a rarer medium: total
    // internal reflection just flips the vertical cosine.
    let mut sim = slab(1.5, 1.0, 1.0, 0.0, 0.0);
    let mut p = PhotonPacket::new();
    p.layer = 1;
    update_layer(&sim, &mut p);
    p.uz = fx(0.5);
    p.weight = ONE;
    cross_dn_or_not(&mut sim, &mut p);
    assert_eq!(p.uz, -fx(0.5));
    assert_eq!(p.layer, 1);
    assert!(!p.dead);
    assert_eq!(p.weight, ONE);
}

#[test]
fn adversarial_positions_clamp_into_the_grids() {
    // Enormous radius and axial position: the recorded weight lands in
    // the last radial bin, the zero angular bin (normal exit), and the
    // last axial profile bin -- never out of range.
    let mut sim = slab(1.0, 1.0, 0.0, 0.0, 0.0);
    let nr = sim.run_config.nr;
    let na = sim.run_config.na;
    let nz = sim.run_config.nz;
    let mut p = PhotonPacket::new();
    p.scatters = 1;
    p.weight = ONE;
    p.uz = -ONE;
    p.r = i64::MAX;
    p.x = i64::MAX;
    record_r(&mut sim, 0, &mut p);
    assert_eq!(p.weight, 0);
    assert_eq!(sim.get_rd_ra()[(nr - 1) * na], ONE);
    assert_eq!(sim.get_rd_x()[2 * nr - 1], ONE);

    // Absorption from a photon far outside the grid lands in the last
    // radius and depth bins.
    let mut q = PhotonPacket::new();
    q.layer = 1;
    update_layer(&sim, &mut q);
    q.weight = ONE;
    q.r = i64::MAX;
    q.z = i64::MAX;
    mcphoton::engine::drop(&mut sim, &mut q);
    assert_eq!(q.weight, 0);
    assert_eq!(sim.get_a_rz()[(nr - 1) * nz + nz - 1], ONE);
}
