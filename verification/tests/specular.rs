use mcphoton::Simulation;

fn fx(x: f64) -> i64 {
    (x * 4294967296.0).round() as i64
}

fn to_f(v: i64) -> f64 {
    v as f64 / 4294967296.0
}

fn configured(layers: &[(f64, f64, f64, f64, f64)]) -> Simulation {
    let mut sim = Simulation::new();
    sim.configure_run(fx(0.01), fx(0.01), fx(0.01), 10, 10, 10, 0, fx(0.0001), fx(0.1), 0);
    for &(n, mua, mus, g, d) in layers {
        sim.add_layer(fx(n), fx(mua), fx(mus), fx(g), fx(d));
    }
    sim.initialize();
    sim
}

#[test]
fn specular_air_glass_air_multi_bounce() {
    // The middle layer is glass-like, so the specular reflectance folds
    // the two interface reflectances through the multi-bounce closed
    // form r1 + (1-r1)^2 r2 / (1 - r1 r2).
    let sim = configured(&[
        (1.0, 0.0, 0.0, 0.0, 0.0),
        (1.5, 0.0, 0.0, 0.0, 0.1),
        (1.0, 0.0, 0.0, 0.0, 0.0),
    ]);
    let r1 = ((1.0f64 - 1.5) / (1.0 + 1.5)).powi(2);
    let r2 = ((1.5f64 - 1.0) / (1.5 + 1.0)).powi(2);
    let expected = r1 + (1.0 - r1) * (1.0 - r1) * r2 / (1.0 - r1 * r2);
    let got = to_f(sim.get_r_specular());
    assert!((got - expected).abs() < 1e-5, "{} vs {}", got, expected);
}

#[test]
fn specular_turbid_first_layer_single_interface() {
    let sim = configured(&[
        (1.0, 0.0, 0.0, 0.0, 0.0),
        (1.4, 1.0, 10.0, 0.9, 1.0),
        (1.0, 0.0, 0.0, 0.0, 0.0),
    ]);
    let expected = ((1.0f64 - 1.4) / (1.0 + 1.4)).powi(2);
    let got = to_f(sim.get_r_specular());
    assert!((got - expected).abs() < 1e-5, "{} vs {}", got, expected);
}

#[test]
fn specular_matched_indices_is_zero() {
    let sim = configured(&[
        (1.0, 0.0, 0.0, 0.0, 0.0),
        (1.0, 1.0, 0.0, 0.0, 10.0),
        (1.0, 0.0, 0.0, 0.0, 0.0),
    ]);
    assert_eq!(sim.get_r_specular(), 0);
}

#[test]
fn layer_boundaries_accumulate_thickness() {
    let sim = configured(&[
        (1.0, 0.0, 0.0, 0.0, 0.0),
        (1.4, 1.0, 1.0, 0.0, 2.0),
        (1.5, 1.0, 1.0, 0.0, 3.0),
        (1.0, 0.0, 0.0, 0.0, 0.0),
    ]);
    let l = &sim.run_config.layers;
    assert_eq!(l[0].z0, 0);
    assert_eq!(l[0].z1, 0);
    assert_eq!(l[1].z0, 0);
    assert_eq!(l[1].z1, fx(2.0));
    assert_eq!(l[2].z0, fx(2.0));
    assert_eq!(l[2].z1, fx(5.0));
    assert_eq!(l[3].z0, fx(5.0));
}

#[test]
fn ambient_thickness_does_not_shift_the_stack() {
    // The ambient entry layer's thickness is conventional: the first
    // internal layer still starts at depth zero.
    let sim = configured(&[
        (1.0, 0.0, 0.0, 0.0, 5.0),
        (1.4, 1.0, 1.0, 0.0, 2.0),
        (1.0, 0.0, 0.0, 0.0, 7.0),
    ]);
    let l = &sim.run_config.layers;
    assert_eq!(l[1].z0, 0);
    assert_eq!(l[1].z1, fx(2.0));
    assert_eq!(l[2].z0, fx(2.0));
}

#[test]
fn critical_cosines_follow_index_contrast() {
    let sim = configured(&[
        (1.0, 0.0, 0.0, 0.0, 0.0),
        (1.5, 1.0, 1.0, 0.0, 1.0),
        (2.0, 1.0, 1.0, 0.0, 1.0),
        (1.0, 0.0, 0.0, 0.0, 0.0),
    ]);
    let l = &sim.run_config.layers;
    // Layer 1 against air above: TIR possible.
    let cc = (1.0f64 - (1.0 / 1.5f64).powi(2)).sqrt();
    assert!((to_f(l[1].cos_crit0) - cc).abs() < 1e-4);
    // Layer 1 against the denser layer below: no critical angle.
    assert_eq!(l[1].cos_crit1, 0);
    // Layer 2 against layer 1 above and air below.
    let cc0 = (1.0f64 - (1.5 / 2.0f64).powi(2)).sqrt();
    let cc1 = (1.0f64 - (1.0 / 2.0f64).powi(2)).sqrt();
    assert!((to_f(l[2].cos_crit0) - cc0).abs() < 1e-4);
    assert!((to_f(l[2].cos_crit1) - cc1).abs() < 1e-4);
}
