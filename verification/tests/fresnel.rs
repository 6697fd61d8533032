use mcphoton::engine::rfresnel;
use mcphoton::fixed::FX_ONE;

fn fx(x: f64) -> i64 {
    (x * 4294967296.0).round() as i64
}

fn to_f(v: i64) -> f64 {
    v as f64 / 4294967296.0
}

#[test]
fn matched_indices_reflect_nothing() {
    // Identical indices mean no interface: r = 0 and the cosine passes
    // through unchanged, for any incidence cosine.
    for &ca in &[1, 4295, fx(0.1), fx(0.5), fx(0.99), FX_ONE] {
        let (r, ca2) = rfresnel(fx(1.5), fx(1.5), ca);
        assert_eq!(r, 0);
        assert_eq!(ca2, ca);
    }
    let (r, ca2) = rfresnel(FX_ONE, FX_ONE, fx(0.7));
    assert_eq!(r, 0);
    assert_eq!(ca2, fx(0.7));
}

#[test]
fn normal_incidence_matches_closed_form() {
    let n1 = fx(1.0);
    let n2 = fx(1.5);
    let (r, ca2) = rfresnel(n1, n2, FX_ONE);
    let expected = ((1.5f64 - 1.0) / (1.5 + 1.0)).powi(2);
    assert!((to_f(r) - expected).abs() < 1e-6, "r = {}", to_f(r));
    assert_eq!(ca2, FX_ONE);

    let (r2, _) = rfresnel(fx(1.33), fx(1.0), FX_ONE);
    let expected2 = ((1.0f64 - 1.33) / (1.0 + 1.33)).powi(2);
    assert!((to_f(r2) - expected2).abs() < 1e-6);
}

#[test]
fn total_internal_reflection() {
    // From glass (1.5) into air (1.0) the critical cosine is
    // sqrt(1 - (1/1.5)^2) ~ 0.745: any smaller incidence cosine gives
    // total reflection.
    let (r, ca2) = rfresnel(fx(1.5), fx(1.0), fx(0.3));
    assert_eq!(r, FX_ONE);
    assert_eq!(ca2, 0);
    let (r, _) = rfresnel(fx(1.5), fx(1.0), fx(0.7));
    assert_eq!(r, FX_ONE);
}

#[test]
fn grazing_incidence_reflects_totally() {
    let (r, ca2) = rfresnel(fx(1.0), fx(1.5), 4294);
    assert_eq!(r, FX_ONE);
    assert_eq!(ca2, 0);
}

#[test]
fn oblique_incidence_matches_airy_formula() {
    // 45 degrees from air into glass: compare against the exact
    // unpolarized Fresnel average computed in floating point.
    let ca1 = (std::f64::consts::FRAC_PI_4).cos();
    let (r, ca2) = rfresnel(fx(1.0), fx(1.5), fx(ca1));
    let sa1 = (1.0f64 - ca1 * ca1).sqrt();
    let sa2 = sa1 / 1.5;
    let ca2f = (1.0f64 - sa2 * sa2).sqrt();
    let cap = ca1 * ca2f - sa1 * sa2;
    let cam = ca1 * ca2f + sa1 * sa2;
    let sap = sa1 * ca2f + ca1 * sa2;
    let sam = sa1 * ca2f - ca1 * sa2;
    let expected = 0.5 * sam * sam * (cam * cam + cap * cap) / (sap * sap * cam * cam);
    assert!((to_f(r) - expected).abs() < 1e-4, "r = {} vs {}", to_f(r), expected);
    assert!((to_f(ca2) - ca2f).abs() < 1e-4);
}
