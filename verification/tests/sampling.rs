use mcphoton::Simulation;
use mcphoton::engine::spin_theta;

fn fx(x: f64) -> i64 {
    (x * 4294967296.0).round() as i64
}

fn to_f(v: i64) -> f64 {
    v as f64 / 4294967296.0
}

fn seeded(seed: u64) -> Simulation {
    let mut sim = Simulation::new();
    sim.set_seed(seed);
    sim
}

#[test]
fn isotropic_cosines_are_uniform() {
    // With zero anisotropy the deflection cosine is uniform in [-1, 1]:
    // a Kolmogorov-Smirnov distance test over many samples.
    let mut sim = seeded(12345);
    let n = 100_000usize;
    let mut xs: Vec<f64> = Vec::with_capacity(n);
    for _ in 0..n {
        let c = to_f(spin_theta(&mut sim, 0));
        assert!((-1.0..=1.0).contains(&c));
        xs.push(c);
    }
    xs.sort_by(|a, b| a.partial_cmp(b).unwrap());
    let mut d: f64 = 0.0;
    for (i, x) in xs.iter().enumerate() {
        let cdf = (x + 1.0) / 2.0;
        let emp_hi = (i + 1) as f64 / n as f64;
        let emp_lo = i as f64 / n as f64;
        d = d.max((emp_hi - cdf).abs()).max((cdf - emp_lo).abs());
    }
    assert!(d < 0.01, "KS distance {}", d);
}

fn hg_cdf(g: f64, c: f64) -> f64 {
    // The Henyey-Greenstein distribution function of the cosine.
    (1.0 - g * g) / (2.0 * g) * (1.0 / (1.0 + g * g - 2.0 * g * c).sqrt() - 1.0 / (1.0 + g))
}

#[test]
fn henyey_greenstein_cosines_match_density() {
    for &g in &[0.5f64, 0.9, -0.4] {
        let mut sim = seeded(777);
        let n = 100_000usize;
        let mut xs: Vec<f64> = Vec::with_capacity(n);
        let mut mean = 0.0f64;
        for _ in 0..n {
            let c = to_f(spin_theta(&mut sim, fx(g)));
            assert!((-1.0..=1.0).contains(&c));
            mean += c;
            xs.push(c);
        }
        mean /= n as f64;
        // The mean scattering cosine of Henyey-Greenstein is g itself.
        assert!((mean - g).abs() < 0.01, "g = {}: mean {}", g, mean);
        // Distribution check at a few interior points.
        for &c0 in &[-0.5f64, 0.0, 0.5, 0.9] {
            let frac = xs.iter().filter(|&&x| x <= c0).count() as f64 / n as f64;
            let cdf = hg_cdf(g, c0);
            assert!((frac - cdf).abs() < 0.01, "g = {}, c0 = {}: {} vs {}", g, c0, frac, cdf);
        }
    }
}

#[test]
fn reseeding_reproduces_the_stream() {
    let mut a = seeded(42);
    let mut b = seeded(42);
    for _ in 0..100 {
        assert_eq!(spin_theta(&mut a, fx(0.7)), spin_theta(&mut b, fx(0.7)));
    }
    let mut c = seeded(43);
    let mut differs = false;
    for _ in 0..100 {
        if spin_theta(&mut a, fx(0.7)) != spin_theta(&mut c, fx(0.7)) {
            differs = true;
        }
    }
    assert!(differs);
}
