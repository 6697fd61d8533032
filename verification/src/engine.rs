use vstd::prelude::*;
use crate::fixed::{
    FX_ONE, FX_HALF, FX_MAX, fx_mul, fx_add, fx_sub, fx_div, fx_div_pos, fx_clamp, fx_sqrt, fx_radius,
    fx_mul_s, fx_add_s, fx_sub_s, fx_div_s, fx_clamp_s, fx_sqrt_s, fx_abs_int, sat64, sqrt_s,
    lemma_fx_mul_unit_bound, lemma_fx_mul_unit_unit, lemma_fx_mul_nonneg,
    lemma_fx_div_unit, lemma_fx_div_nonneg, lemma_fx_square_unit, lemma_fx_square_mono,
    lemma_sqrt_le, lemma_sqrt_ge, lemma_grid_index, lemma_fx_mul_comm,
};
use crate::config::{Layer, RunConfig};
use crate::photon::{PhotonPacket, photon_wf};
use crate::{Simulation, Results, sim_wf};

verus! {

/// Incidence cosines closer to grazing than this are treated as fully
/// reflected.
pub const FX_GRAZE: i64 = 4295;

/// A uniform fixed-point draw in [0, 1) from the simulation's stream:
/// one generator word over 2^32. Only the configuration, accumulators
/// and specular reflectance are promised unchanged; the bounds hold of
/// every outcome.
pub fn gen_rand_float(main: &mut Simulation) -> (r: i64)
    ensures
        0 <= r < FX_ONE,
        final(main).run_config == old(main).run_config,
        final(main).r_specular == old(main).r_specular,
        final(main).results == old(main).results,
{
    let rand: u32 = main.rng.next_u32();
    rand as i64
}

/// Snapshot the optical constants of the photon's current layer into
/// the packet.
pub fn update_layer(main: &Simulation, photon: &mut PhotonPacket)
    requires
        old(photon).layer < main.run_config.layers.len(),
    ensures
        final(photon).layer_mua == main.run_config.layers[old(photon).layer as int].mua,
        final(photon).layer_mus == main.run_config.layers[old(photon).layer as int].mus,
        final(photon).layer_z0 == main.run_config.layers[old(photon).layer as int].z0,
        final(photon).layer_z1 == main.run_config.layers[old(photon).layer as int].z1,
        final(photon).layer_g == main.run_config.layers[old(photon).layer as int].g,
        final(photon).x == old(photon).x,
        final(photon).y == old(photon).y,
        final(photon).z == old(photon).z,
        final(photon).r == old(photon).r,
        final(photon).ux == old(photon).ux,
        final(photon).uy == old(photon).uy,
        final(photon).uz == old(photon).uz,
        final(photon).weight == old(photon).weight,
        final(photon).step_size == old(photon).step_size,
        final(photon).step_size_left == old(photon).step_size_left,
        final(photon).layer == old(photon).layer,
        final(photon).dead == old(photon).dead,
        final(photon).scatters == old(photon).scatters,
{
    let layer: Layer = main.run_config.layers[photon.layer];
    photon.layer_mua = layer.mua;
    photon.layer_mus = layer.mus;
    photon.layer_z0 = layer.z0;
    photon.layer_z1 = layer.z1;
    photon.layer_g = layer.g;
}

/// The specular reflectance of the stack's entry: the normal-incidence
/// Fresnel reflectance of the outer interface, folded with the second
/// interface through the closed form for multiple bounces when the
/// first internal layer is glass-like.
pub open spec fn r_specular_s(l0: Layer, l1: Layer, l2: Layer) -> int {
    let t = fx_div_s(fx_sub_s(l0.n as int, l1.n as int), fx_add_s(l0.n as int, l1.n as int));
    let r1 = fx_mul_s(t, t);
    if l1.mua == 0 && l1.mus == 0 {
        let t2 = fx_div_s(fx_sub_s(l1.n as int, l2.n as int), fx_add_s(l1.n as int, l2.n as int));
        let r2 = fx_mul_s(t2, t2);
        let den = fx_sub_s(FX_ONE as int, fx_mul_s(r1, r2));
        if den == 0 {
            FX_ONE as int
        } else {
            fx_clamp_s(
                fx_add_s(
                    r1,
                    fx_div_s(
                        fx_mul_s(
                            fx_mul_s(fx_sub_s(FX_ONE as int, r1), fx_sub_s(FX_ONE as int, r1)),
                            r2,
                        ),
                        den,
                    ),
                ),
                0,
                FX_ONE as int,
            )
        }
    } else {
        r1
    }
}

/// Compute the specular reflectance of the configured stack.
pub fn calculate_r_specular(run_config: &RunConfig) -> (r: i64)
    requires
        run_config.layers.len() >= 3,
        run_config.layers[0].n >= 1,
        run_config.layers[1].n >= 1,
        run_config.layers[2].n >= 1,
    ensures
        r as int == r_specular_s(
            run_config.layers[0],
            run_config.layers[1],
            run_config.layers[2],
        ),
        0 <= r <= FX_ONE,
{
    let l0: Layer = run_config.layers[0];
    let l1: Layer = run_config.layers[1];
    let l2: Layer = run_config.layers[2];
    let dn: i64 = fx_sub(l0.n, l1.n);
    let sn: i64 = fx_add(l0.n, l1.n);
    let t: i64 = fx_div(dn, sn);
    proof {
        lemma_fx_div_unit(dn as int, sn as int);
        lemma_fx_square_unit(t as int);
    }
    let r1: i64 = fx_mul(t, t);
    if l1.mua == 0 && l1.mus == 0 {
        let dn2: i64 = fx_sub(l1.n, l2.n);
        let sn2: i64 = fx_add(l1.n, l2.n);
        let t2: i64 = fx_div(dn2, sn2);
        proof {
            lemma_fx_div_unit(dn2 as int, sn2 as int);
            lemma_fx_square_unit(t2 as int);
        }
        let r2: i64 = fx_mul(t2, t2);
        proof {
            lemma_fx_mul_unit_bound(r1 as int, r2 as int, FX_ONE as int);
        }
        let den: i64 = fx_sub(FX_ONE, fx_mul(r1, r2));
        if den == 0 {
            FX_ONE
        } else {
            let a: i64 = fx_sub(FX_ONE, r1);
            proof {
                lemma_fx_mul_unit_bound(a as int, a as int, FX_ONE as int);
            }
            let num: i64 = fx_mul(fx_mul(a, a), r2);
            proof {
                lemma_fx_mul_nonneg(fx_mul_s(a as int, a as int), r2 as int);
                lemma_fx_div_nonneg(num as int, den as int);
            }
            let extra: i64 = fx_div(num, den);
            fx_clamp(fx_add(r1, extra), 0, FX_ONE)
        }
    } else {
        r1
    }
}

/// Everything of a simulation except the random stream.
pub open spec fn same_sim_but_rng(a: Simulation, b: Simulation) -> bool {
    &&& a.run_config == b.run_config
    &&& a.r_specular == b.r_specular
    &&& a.results == b.results
}

/// The unpolarized Fresnel reflectance at normal incidence.
pub open spec fn normal_reflectance_s(n1: int, n2: int) -> int {
    let t = fx_div_s(fx_sub_s(n2, n1), fx_add_s(n2, n1));
    fx_mul_s(t, t)
}

/// The unpolarized Fresnel reflectance and transmission cosine for an
/// interface between indices `n1` (incident side) and `n2`, at incidence
/// cosine `ca1`: no interface when the indices agree, the closed normal
/// form at exactly normal incidence, total reflection at grazing
/// incidence or past the critical angle, and otherwise the exact
/// amplitude formula over sine and cosine sums and differences.
pub open spec fn rfresnel_s(n1: int, n2: int, ca1: int) -> (int, int) {
    if n1 == n2 {
        (0, ca1)
    } else if ca1 >= FX_ONE as int {
        (normal_reflectance_s(n1, n2), ca1)
    } else if ca1 < FX_GRAZE as int {
        (FX_ONE as int, 0)
    } else {
        let sa1 = fx_sqrt_s(fx_sub_s(FX_ONE as int, fx_mul_s(ca1, ca1)));
        let sa2 = fx_div_s(fx_mul_s(n1, sa1), n2);
        if sa2 >= FX_ONE as int {
            (FX_ONE as int, 0)
        } else {
            let ca2 = fx_sqrt_s(fx_sub_s(FX_ONE as int, fx_mul_s(sa2, sa2)));
            let cap = fx_sub_s(fx_mul_s(ca1, ca2), fx_mul_s(sa1, sa2));
            let cam = fx_add_s(fx_mul_s(ca1, ca2), fx_mul_s(sa1, sa2));
            let sap = fx_add_s(fx_mul_s(sa1, ca2), fx_mul_s(ca1, sa2));
            let sam = fx_sub_s(fx_mul_s(sa1, ca2), fx_mul_s(ca1, sa2));
            let den2 = fx_mul_s(cam, cam);
            if sap == 0 || den2 == 0 {
                (FX_ONE as int, ca2)
            } else {
                let t2 = fx_mul_s(fx_div_s(sam, sap), fx_div_s(sam, sap));
                let num2 = fx_add_s(den2, fx_mul_s(cap, cap));
                (
                    fx_clamp_s(
                        fx_mul_s(t2, fx_div_s(num2, fx_add_s(den2, den2))),
                        0,
                        FX_ONE as int,
                    ),
                    ca2,
                )
            }
        }
    }
}

/// Compute the Fresnel reflectance and the transmission cosine.
pub fn rfresnel(n1: i64, n2: i64, ca1: i64) -> (res: (i64, i64))
    requires
        n1 >= 1,
        n2 >= 1,
        0 < ca1 <= FX_ONE,
    ensures
        res.0 as int == rfresnel_s(n1 as int, n2 as int, ca1 as int).0,
        res.1 as int == rfresnel_s(n1 as int, n2 as int, ca1 as int).1,
        0 <= res.0 <= FX_ONE,
        0 <= res.1 <= FX_ONE,
        n1 == n2 ==> res.0 == 0 && res.1 == ca1,
        n1 != n2 && ca1 == FX_ONE ==> res.0 as int == normal_reflectance_s(n1 as int, n2 as int)
            && res.1 == ca1,
{
    if n1 == n2 {
        (0, ca1)
    } else if ca1 >= FX_ONE {
        let dn: i64 = fx_sub(n2, n1);
        let sn: i64 = fx_add(n2, n1);
        let t: i64 = fx_div(dn, sn);
        proof {
            lemma_fx_div_unit(dn as int, sn as int);
            lemma_fx_square_unit(t as int);
        }
        (fx_mul(t, t), ca1)
    } else if ca1 < FX_GRAZE {
        (FX_ONE, 0)
    } else {
        proof {
            lemma_fx_square_unit(ca1 as int);
        }
        let sa1: i64 = fx_sqrt(fx_sub(FX_ONE, fx_mul(ca1, ca1)));
        proof {
            lemma_sqrt_le(
                fx_sub_s(FX_ONE as int, fx_mul_s(ca1 as int, ca1 as int)) * (FX_ONE as int),
                sa1 as int,
                FX_ONE as int,
            );
            lemma_fx_mul_nonneg(n1 as int, sa1 as int);
            lemma_fx_div_nonneg(fx_mul_s(n1 as int, sa1 as int), n2 as int);
        }
        let sa2: i64 = fx_div(fx_mul(n1, sa1), n2);
        if sa2 >= FX_ONE {
            (FX_ONE, 0)
        } else {
            proof {
                lemma_fx_square_unit(sa2 as int);
            }
            let ca2: i64 = fx_sqrt(fx_sub(FX_ONE, fx_mul(sa2, sa2)));
            proof {
                lemma_sqrt_le(
                    fx_sub_s(FX_ONE as int, fx_mul_s(sa2 as int, sa2 as int)) * (FX_ONE as int),
                    ca2 as int,
                    FX_ONE as int,
                );
                lemma_fx_mul_unit_bound(ca1 as int, ca2 as int, FX_ONE as int);
                lemma_fx_mul_unit_bound(sa1 as int, sa2 as int, FX_ONE as int);
                lemma_fx_mul_unit_bound(sa1 as int, ca2 as int, FX_ONE as int);
                lemma_fx_mul_unit_bound(ca1 as int, sa2 as int, FX_ONE as int);
            }
            let m1: i64 = fx_mul(ca1, ca2);
            let m2: i64 = fx_mul(sa1, sa2);
            let m3: i64 = fx_mul(sa1, ca2);
            let m4: i64 = fx_mul(ca1, sa2);
            let cap: i64 = fx_sub(m1, m2);
            let cam: i64 = fx_add(m1, m2);
            let sap: i64 = fx_add(m3, m4);
            let sam: i64 = fx_sub(m3, m4);
            let den2: i64 = fx_mul(cam, cam);
            proof {
                lemma_fx_mul_nonneg(cam as int, cam as int);
            }
            if sap == 0 || den2 == 0 {
                (FX_ONE, ca2)
            } else {
                proof {
                    lemma_fx_div_unit(sam as int, sap as int);
                }
                let t1: i64 = fx_div(sam, sap);
                proof {
                    lemma_fx_square_unit(t1 as int);
                }
                let t2: i64 = fx_mul(t1, t1);
                proof {
                    assert(fx_mul_s(cap as int, cap as int) == fx_mul_s(
                        fx_abs_int(cap as int),
                        fx_abs_int(cap as int),
                    ));
                    lemma_fx_square_mono(fx_abs_int(cap as int), cam as int);
                }
                let capsq: i64 = fx_mul(cap, cap);
                let num2: i64 = fx_add(den2, capsq);
                let dd: i64 = fx_add(den2, den2);
                proof {
                    lemma_fx_div_unit(num2 as int, dd as int);
                    lemma_fx_div_nonneg(num2 as int, dd as int);
                    lemma_fx_mul_unit_bound(
                        t2 as int,
                        fx_div_s(num2 as int, dd as int),
                        FX_ONE as int,
                    );
                }
                let q: i64 = fx_div(num2, dd);
                (fx_clamp(fx_mul(t2, q), 0, FX_ONE), ca2)
            }
        }
    }
}

/// Past the critical angle the interface reflects totally: whenever the
/// Snell sine ratio reaches one, the reflectance is one and the
/// transmission cosine zero.
pub proof fn lemma_rfresnel_total_internal(n1: int, n2: int, ca1: int)
    requires
        n1 != n2,
        FX_GRAZE as int <= ca1 < FX_ONE as int,
        fx_div_s(
            fx_mul_s(n1, fx_sqrt_s(fx_sub_s(FX_ONE as int, fx_mul_s(ca1, ca1)))),
            n2,
        ) >= FX_ONE as int,
    ensures
        rfresnel_s(n1, n2, ca1).0 == FX_ONE as int,
        rfresnel_s(n1, n2, ca1).1 == 0,
{
}

/// The Henyey-Greenstein deflection cosine for anisotropy `g` and a
/// uniform draw `u`; uniform in [-1, 1] when `g` is zero, and otherwise
/// the inverse-distribution sample clamped into [-1, 1].
pub open spec fn hg_cos_s(g: int, u: int) -> int {
    if g == 0 {
        2 * u - FX_ONE as int
    } else {
        let gu = fx_mul_s(g, u);
        let den = fx_add_s(fx_sub_s(FX_ONE as int, g), fx_add_s(gu, gu));
        if den == 0 {
            -(FX_ONE as int)
        } else {
            let temp = fx_div_s(fx_sub_s(FX_ONE as int, fx_mul_s(g, g)), den);
            fx_clamp_s(
                fx_div_s(
                    fx_sub_s(fx_add_s(FX_ONE as int, fx_mul_s(g, g)), fx_mul_s(temp, temp)),
                    fx_add_s(g, g),
                ),
                -(FX_ONE as int),
                FX_ONE as int,
            )
        }
    }
}

/// Sample the polar deflection cosine for the given anisotropy: the
/// result is the Henyey-Greenstein map applied to some uniform draw.
pub fn spin_theta(main: &mut Simulation, g: i64) -> (cost: i64)
    requires
        -FX_ONE <= g <= FX_ONE,
    ensures
        -FX_ONE <= cost <= FX_ONE,
        exists|u: int| 0 <= u <= FX_ONE as int && cost as int == hg_cos_s(g as int, u),
        same_sim_but_rng(*final(main), *old(main)),
{
    let random: i64 = gen_rand_float(main);
    if g == 0 {
        let cost: i64 = 2 * random - FX_ONE;
        proof {
            assert(0 <= random as int <= FX_ONE as int && cost as int == hg_cos_s(
                g as int,
                random as int,
            ));
        }
        cost
    } else {
        let gu: i64 = fx_mul(g, random);
        let den: i64 = fx_add(fx_sub(FX_ONE, g), fx_add(gu, gu));
        if den == 0 {
            proof {
                assert(0 <= random as int <= FX_ONE as int && (-FX_ONE) as int == hg_cos_s(
                    g as int,
                    random as int,
                ));
            }
            -FX_ONE
        } else {
            let temp: i64 = fx_div(fx_sub(FX_ONE, fx_mul(g, g)), den);
            let cost: i64 = fx_clamp(
                fx_div(fx_sub(fx_add(FX_ONE, fx_mul(g, g)), fx_mul(temp, temp)), fx_add(g, g)),
                -FX_ONE,
                FX_ONE,
            );
            proof {
                assert(0 <= random as int <= FX_ONE as int && cost as int == hg_cos_s(
                    g as int,
                    random as int,
                ));
            }
            cost
        }
    }
}

/// The new propagation direction after a scattering event, given the
/// old direction, the polar deflection cosine and the azimuthal draw (a
/// whole-turn fraction): the simplified form at normal incidence, and
/// otherwise the rotation through the orthonormal frame built from the
/// old direction, with the vertical cosine clamped into one.
pub open spec fn spin_dir_s(ux: int, uy: int, uz: int, cost: int, upsi: int) -> (int, int, int) {
    let sint = fx_sqrt_s(fx_sub_s(FX_ONE as int, fx_mul_s(cost, cost)));
    let cosp = crate::approx::cos_turns_s(upsi);
    let sm = fx_sqrt_s(fx_sub_s(FX_ONE as int, fx_mul_s(cosp, cosp)));
    let sinp = if upsi < FX_HALF as int {
        sm
    } else {
        -sm
    };
    if uz >= FX_ONE as int || uz <= -(FX_ONE as int) {
        (
            fx_mul_s(sint, cosp),
            fx_mul_s(sint, sinp),
            if uz > 0 {
                cost
            } else {
                -cost
            },
        )
    } else {
        let temp = fx_sqrt_s(fx_sub_s(FX_ONE as int, fx_mul_s(uz, uz)));
        (
            fx_add_s(
                fx_div_s(
                    fx_mul_s(
                        sint,
                        fx_sub_s(fx_mul_s(fx_mul_s(ux, uz), cosp), fx_mul_s(uy, sinp)),
                    ),
                    temp,
                ),
                fx_mul_s(ux, cost),
            ),
            fx_add_s(
                fx_div_s(
                    fx_mul_s(
                        sint,
                        fx_add_s(fx_mul_s(fx_mul_s(uy, uz), cosp), fx_mul_s(ux, sinp)),
                    ),
                    temp,
                ),
                fx_mul_s(uy, cost),
            ),
            fx_clamp_s(
                fx_add_s(-fx_mul_s(fx_mul_s(sint, cosp), temp), fx_mul_s(uz, cost)),
                -(FX_ONE as int),
                FX_ONE as int,
            ),
        )
    }
}

/// Sample a new propagation direction from the polar deflection for the
/// given anisotropy and a uniform azimuth, and count the scattering.
pub fn spin(main: &mut Simulation, g: i64, photon: &mut PhotonPacket)
    requires
        -FX_ONE <= g <= FX_ONE,
        -FX_ONE <= old(photon).uz <= FX_ONE,
    ensures
        same_sim_but_rng(*final(main), *old(main)),
        -FX_ONE <= final(photon).uz <= FX_ONE,
        exists|cost: int, upsi: int|
            {
                &&& -(FX_ONE as int) <= cost <= FX_ONE as int
                &&& (exists|u: int| 0 <= u <= FX_ONE as int && cost == hg_cos_s(g as int, u))
                &&& 0 <= upsi <= FX_ONE as int
                &&& (
                final(photon).ux as int,
                final(photon).uy as int,
                final(photon).uz as int,
                ) == spin_dir_s(
                    old(photon).ux as int,
                    old(photon).uy as int,
                    old(photon).uz as int,
                    cost,
                    upsi,
                )
            },
        final(photon).scatters as int == if old(photon).scatters < u64::MAX {
            old(photon).scatters + 1
        } else {
            old(photon).scatters as int
        },
        final(photon).x == old(photon).x,
        final(photon).y == old(photon).y,
        final(photon).z == old(photon).z,
        final(photon).r == old(photon).r,
        final(photon).weight == old(photon).weight,
        final(photon).step_size == old(photon).step_size,
        final(photon).step_size_left == old(photon).step_size_left,
        final(photon).layer == old(photon).layer,
        final(photon).dead == old(photon).dead,
        final(photon).layer_mua == old(photon).layer_mua,
        final(photon).layer_mus == old(photon).layer_mus,
        final(photon).layer_z0 == old(photon).layer_z0,
        final(photon).layer_z1 == old(photon).layer_z1,
        final(photon).layer_g == old(photon).layer_g,
{
    let ux: i64 = photon.ux;
    let uy: i64 = photon.uy;
    let uz: i64 = photon.uz;
    let cost: i64 = spin_theta(main, g);
    proof {
        lemma_fx_square_unit(cost as int);
    }
    let sint: i64 = fx_sqrt(fx_sub(FX_ONE, fx_mul(cost, cost)));
    proof {
        lemma_sqrt_le(
            fx_sub_s(FX_ONE as int, fx_mul_s(cost as int, cost as int)) * (FX_ONE as int),
            sint as int,
            FX_ONE as int,
        );
    }
    let upsi: i64 = gen_rand_float(main);
    let cosp: i64 = crate::approx::cos_turns(upsi);
    proof {
        lemma_fx_square_unit(cosp as int);
    }
    let sm: i64 = fx_sqrt(fx_sub(FX_ONE, fx_mul(cosp, cosp)));
    proof {
        lemma_sqrt_le(
            fx_sub_s(FX_ONE as int, fx_mul_s(cosp as int, cosp as int)) * (FX_ONE as int),
            sm as int,
            FX_ONE as int,
        );
    }
    let sinp: i64 = if upsi < FX_HALF {
        sm
    } else {
        -sm
    };
    if uz >= FX_ONE || uz <= -FX_ONE {
        proof {
            lemma_fx_mul_unit_unit(sint as int, cosp as int);
            lemma_fx_mul_unit_unit(sint as int, sinp as int);
        }
        photon.ux = fx_mul(sint, cosp);
        photon.uy = fx_mul(sint, sinp);
        photon.uz = if uz > 0 {
            cost
        } else {
            -cost
        };
    } else {
        proof {
            lemma_fx_square_mono(fx_abs_int(uz as int), (FX_ONE - 1) as int);
            assert((0x1_0000_0000 - 1) * (0x1_0000_0000 - 1) / 0x1_0000_0000 == 0x1_0000_0000 - 2)
                by (nonlinear_arith);
            lemma_fx_square_unit(uz as int);
        }
        let t2: i64 = fx_mul(uz, uz);
        let arg: i64 = fx_sub(FX_ONE, t2);
        let temp: i64 = fx_sqrt(arg);
        proof {
            lemma_sqrt_ge((arg as int) * (FX_ONE as int), temp as int, 1);
        }
        photon.ux = fx_add(
            fx_div(fx_mul(sint, fx_sub(fx_mul(fx_mul(ux, uz), cosp), fx_mul(uy, sinp))), temp),
            fx_mul(ux, cost),
        );
        photon.uy = fx_add(
            fx_div(fx_mul(sint, fx_add(fx_mul(fx_mul(uy, uz), cosp), fx_mul(ux, sinp))), temp),
            fx_mul(uy, cost),
        );
        photon.uz = fx_clamp(
            fx_add(-fx_mul(fx_mul(sint, cosp), temp), fx_mul(uz, cost)),
            -FX_ONE,
            FX_ONE,
        );
    }
    if photon.scatters < u64::MAX {
        photon.scatters = photon.scatters + 1;
    }
    proof {
        assert((photon.ux as int, photon.uy as int, photon.uz as int) == spin_dir_s(
            ux as int,
            uy as int,
            uz as int,
            cost as int,
            upsi as int,
        ));
    }
}

/// Advance the photon by its current step along its direction and
/// refresh the cached radial distance.
pub fn hop(photon: &mut PhotonPacket)
    ensures
        final(photon).x as int == fx_add_s(
            old(photon).x as int,
            fx_mul_s(old(photon).step_size as int, old(photon).ux as int),
        ),
        final(photon).y as int == fx_add_s(
            old(photon).y as int,
            fx_mul_s(old(photon).step_size as int, old(photon).uy as int),
        ),
        final(photon).z as int == fx_add_s(
            old(photon).z as int,
            fx_mul_s(old(photon).step_size as int, old(photon).uz as int),
        ),
        final(photon).r as int == sat64(
            sqrt_s(
                (final(photon).x as int) * (final(photon).x as int) + (final(photon).y as int)
                    * (final(photon).y as int),
            ),
        ),
        final(photon).r >= 0,
        final(photon).ux == old(photon).ux,
        final(photon).uy == old(photon).uy,
        final(photon).uz == old(photon).uz,
        final(photon).weight == old(photon).weight,
        final(photon).step_size == old(photon).step_size,
        final(photon).step_size_left == old(photon).step_size_left,
        final(photon).layer == old(photon).layer,
        final(photon).dead == old(photon).dead,
        final(photon).scatters == old(photon).scatters,
        final(photon).layer_mua == old(photon).layer_mua,
        final(photon).layer_mus == old(photon).layer_mus,
        final(photon).layer_z0 == old(photon).layer_z0,
        final(photon).layer_z1 == old(photon).layer_z1,
        final(photon).layer_g == old(photon).layer_g,
{
    let s: i64 = photon.step_size;
    photon.x = fx_add(photon.x, fx_mul(s, photon.ux));
    photon.y = fx_add(photon.y, fx_mul(s, photon.uy));
    photon.z = fx_add(photon.z, fx_mul(s, photon.uz));
    photon.r = fx_radius(photon.x, photon.y);
}

/// The signed distance, along the vertical direction cosine, from the
/// photon's position to the boundary it is heading for; zero for a
/// horizontal photon.
pub open spec fn boundary_dist_s(p: PhotonPacket) -> int {
    if p.uz > 0 {
        fx_div_s(fx_sub_s(p.layer_z1 as int, p.z as int), p.uz as int)
    } else if p.uz < 0 {
        fx_div_s(fx_sub_s(p.layer_z0 as int, p.z as int), p.uz as int)
    } else {
        0
    }
}

/// In glass nothing absorbs or scatters: the step is the exact distance
/// to the boundary ahead.
pub fn step_size_in_glass(photon: &mut PhotonPacket)
    ensures
        final(photon).step_size as int == boundary_dist_s(*old(photon)),
        final(photon).x == old(photon).x,
        final(photon).y == old(photon).y,
        final(photon).z == old(photon).z,
        final(photon).r == old(photon).r,
        final(photon).ux == old(photon).ux,
        final(photon).uy == old(photon).uy,
        final(photon).uz == old(photon).uz,
        final(photon).weight == old(photon).weight,
        final(photon).step_size_left == old(photon).step_size_left,
        final(photon).layer == old(photon).layer,
        final(photon).dead == old(photon).dead,
        final(photon).scatters == old(photon).scatters,
        final(photon).layer_mua == old(photon).layer_mua,
        final(photon).layer_mus == old(photon).layer_mus,
        final(photon).layer_z0 == old(photon).layer_z0,
        final(photon).layer_z1 == old(photon).layer_z1,
        final(photon).layer_g == old(photon).layer_g,
{
    let uz: i64 = photon.uz;
    let dl_b: i64 = if uz > 0 {
        fx_div(fx_sub(photon.layer_z1, photon.z), uz)
    } else if uz < 0 {
        fx_div(fx_sub(photon.layer_z0, photon.z), uz)
    } else {
        0
    };
    photon.step_size = dl_b;
}

/// In a turbid medium the step is a fresh exponential sample, or the
/// optical depth carried over from a boundary split, converted back to
/// length by the interaction coefficient.
pub fn step_size_in_tissue(main: &mut Simulation, photon: &mut PhotonPacket)
    requires
        old(photon).layer_mua >= 0,
        old(photon).layer_mus >= 0,
        old(photon).layer_mua + old(photon).layer_mus > 0,
        old(photon).step_size_left >= 0,
    ensures
        same_sim_but_rng(*final(main), *old(main)),
        final(photon).step_size_left == 0,
        final(photon).step_size >= 0,
        old(photon).step_size_left > 0 ==> final(photon).step_size as int == fx_div_s(
            old(photon).step_size_left as int,
            fx_add_s(old(photon).layer_mua as int, old(photon).layer_mus as int),
        ),
        old(photon).step_size_left == 0 ==> exists|u: int|
            1 <= u <= FX_ONE as int && final(photon).step_size as int == fx_div_s(
                crate::approx::neg_ln_s(u),
                fx_add_s(old(photon).layer_mua as int, old(photon).layer_mus as int),
            ),
        final(photon).x == old(photon).x,
        final(photon).y == old(photon).y,
        final(photon).z == old(photon).z,
        final(photon).r == old(photon).r,
        final(photon).ux == old(photon).ux,
        final(photon).uy == old(photon).uy,
        final(photon).uz == old(photon).uz,
        final(photon).weight == old(photon).weight,
        final(photon).layer == old(photon).layer,
        final(photon).dead == old(photon).dead,
        final(photon).scatters == old(photon).scatters,
        final(photon).layer_mua == old(photon).layer_mua,
        final(photon).layer_mus == old(photon).layer_mus,
        final(photon).layer_z0 == old(photon).layer_z0,
        final(photon).layer_z1 == old(photon).layer_z1,
        final(photon).layer_g == old(photon).layer_g,
{
    let mut_: i64 = fx_add(photon.layer_mua, photon.layer_mus);
    if photon.step_size_left == 0 {
        let mut rnd: i64 = gen_rand_float(main);
        let mut tries: u64 = 0;
        while rnd < 1 && tries < 64
            invariant
                0 <= rnd <= FX_ONE,
                tries <= 64,
                same_sim_but_rng(*main, *old(main)),
            decreases 64 - tries,
        {
            rnd = gen_rand_float(main);
            tries = tries + 1;
        }
        if rnd < 1 {
            rnd = 1;
        }
        let nl: i64 = crate::approx::neg_ln(rnd);
        proof {
            lemma_fx_div_nonneg(crate::approx::neg_ln_s(rnd as int), mut_ as int);
        }
        photon.step_size = fx_div(nl, mut_);
        proof {
            assert(1 <= rnd as int <= FX_ONE as int && photon.step_size as int == fx_div_s(
                crate::approx::neg_ln_s(rnd as int),
                fx_add_s(old(photon).layer_mua as int, old(photon).layer_mus as int),
            ));
        }
    } else {
        proof {
            lemma_fx_div_nonneg(photon.step_size_left as int, mut_ as int);
        }
        photon.step_size = fx_div(photon.step_size_left, mut_);
        photon.step_size_left = 0;
    }
}

/// Truncate a step that would cross the boundary ahead: the step becomes
/// the distance to the boundary and the unconsumed remainder is kept as
/// a dimensionless optical depth. Reports whether a crossing happened.
pub fn hit_boundary(photon: &mut PhotonPacket) -> (hit: bool)
    requires
        old(photon).layer_mua >= 0,
        old(photon).layer_mus >= 0,
    ensures
        hit == (old(photon).uz != 0 && old(photon).step_size as int > boundary_dist_s(
            *old(photon),
        )),
        !hit ==> *final(photon) == *old(photon),
        hit ==> final(photon).step_size as int == boundary_dist_s(*old(photon)),
        hit ==> final(photon).step_size_left as int == fx_mul_s(
            fx_sub_s(old(photon).step_size as int, boundary_dist_s(*old(photon))),
            fx_add_s(old(photon).layer_mua as int, old(photon).layer_mus as int),
        ),
        hit ==> final(photon).step_size_left >= 0,
        final(photon).x == old(photon).x,
        final(photon).y == old(photon).y,
        final(photon).z == old(photon).z,
        final(photon).r == old(photon).r,
        final(photon).ux == old(photon).ux,
        final(photon).uy == old(photon).uy,
        final(photon).uz == old(photon).uz,
        final(photon).weight == old(photon).weight,
        final(photon).layer == old(photon).layer,
        final(photon).dead == old(photon).dead,
        final(photon).scatters == old(photon).scatters,
        final(photon).layer_mua == old(photon).layer_mua,
        final(photon).layer_mus == old(photon).layer_mus,
        final(photon).layer_z0 == old(photon).layer_z0,
        final(photon).layer_z1 == old(photon).layer_z1,
        final(photon).layer_g == old(photon).layer_g,
{
    let uz: i64 = photon.uz;
    let dl_b: i64 = if uz > 0 {
        fx_div(fx_sub(photon.layer_z1, photon.z), uz)
    } else if uz < 0 {
        fx_div(fx_sub(photon.layer_z0, photon.z), uz)
    } else {
        0
    };
    if uz != 0 && photon.step_size > dl_b {
        let mut_: i64 = fx_add(photon.layer_mua, photon.layer_mus);
        let excess: i64 = fx_sub(photon.step_size, dl_b);
        proof {
            lemma_fx_mul_nonneg(excess as int, mut_ as int);
        }
        photon.step_size_left = fx_mul(excess, mut_);
        photon.step_size = dl_b;
        true
    } else {
        false
    }
}

/// A nonnegative position divided by a grid step, clamped into the last
/// bin: energy beyond the grid accumulates at its edge.
pub open spec fn bin_clamp_s(pos: int, step: int, n: int) -> int {
    if pos <= 0 {
        0
    } else if pos / step > n - 1 {
        n - 1
    } else {
        pos / step
    }
}

/// The clamped grid bin of a position.
pub fn bin_clamp(pos: i64, step: i64, n: usize) -> (b: usize)
    requires
        step > 0,
        1 <= n <= 0x7fff_ffff,
    ensures
        b as int == bin_clamp_s(pos as int, step as int, n as int),
        b < n,
{
    if pos <= 0 {
        0
    } else {
        let q: u64 = (pos as u64) / (step as u64);
        let cap: u64 = (n as u64) - 1;
        if q > cap {
            n - 1
        } else {
            q as usize
        }
    }
}

/// A ratio of fixed-point values rounded to the nearest integer, halves
/// away from zero, saturated.
pub open spec fn round_ratio_s(x: int, d: int) -> int {
    if x >= 0 {
        sat64((2 * x + d) / (2 * d))
    } else {
        sat64(-((2 * (-x) + d) / (2 * d)))
    }
}

/// Round a fixed-point ratio to the nearest signed integer.
pub fn round_ratio(x: i64, d: i64) -> (r: i64)
    requires
        d > 0,
    ensures
        r as int == round_ratio_s(x as int, d as int),
{
    let ax: u128 = crate::fixed::fx_abs_u64(x) as u128;
    let num: u128 = 2 * ax + (d as u128);
    let den: u128 = 2 * (d as u128);
    let q: u128 = num / den;
    let qs: i64 = if q > 0x7fff_ffff_ffff_ffffu128 {
        FX_MAX
    } else {
        q as i64
    };
    if x >= 0 {
        qs
    } else {
        -qs
    }
}

/// The weight a photon gives up to absorption in one interaction: its
/// weight scaled by the absorption share of the interaction coefficient.
pub open spec fn drop_dw_s(w: int, mua: int, mus: int) -> int {
    w * mua / fx_add_s(mua, mus)
}

/// Deposit the absorbed share of the photon's weight into the
/// absorption grid at the clamped radius and depth bins.
pub fn drop(main: &mut Simulation, photon: &mut PhotonPacket)
    requires
        sim_wf(*old(main)),
        photon_wf(*old(photon), old(main).run_config),
        old(photon).layer_mua + old(photon).layer_mus > 0,
    ensures
        sim_wf(*final(main)),
        final(main).run_config == old(main).run_config,
        final(main).r_specular == old(main).r_specular,
        final(main).rng == old(main).rng,
        final(photon).weight as int == old(photon).weight - drop_dw_s(
            old(photon).weight as int,
            old(photon).layer_mua as int,
            old(photon).layer_mus as int,
        ),
        0 <= final(photon).weight <= old(photon).weight,
        ({
            let ir = bin_clamp_s(
                old(photon).r as int,
                old(main).run_config.dr as int,
                old(main).run_config.nr as int,
            );
            let iz = bin_clamp_s(
                old(photon).z as int,
                old(main).run_config.dz as int,
                old(main).run_config.nz as int,
            );
            let dw = drop_dw_s(
                old(photon).weight as int,
                old(photon).layer_mua as int,
                old(photon).layer_mus as int,
            );
            let idx = ir * old(main).run_config.nz + iz;
            &&& 0 <= ir < old(main).run_config.nr
            &&& 0 <= iz < old(main).run_config.nz
            &&& final(main).results.a_rz.len() == old(main).results.a_rz.len()
            &&& final(main).results.a_rz[idx] as int == fx_add_s(
                old(main).results.a_rz[idx] as int,
                dw,
            )
            &&& forall|j: int|
                0 <= j < old(main).results.a_rz.len() && j != idx
                    ==> final(main).results.a_rz[j] == old(main).results.a_rz[j]
        }),
        final(main).results.tt_ra == old(main).results.tt_ra,
        final(main).results.rd_ra == old(main).results.rd_ra,
        final(main).results.rd_x == old(main).results.rd_x,
        final(main).results.w_txz == old(main).results.w_txz,
        final(main).results.rd_unscattered == old(main).results.rd_unscattered,
        final(main).results.tt_unscattered == old(main).results.tt_unscattered,
        results_grew_s(old(main).results, final(main).results),
        final(photon).x == old(photon).x,
        final(photon).y == old(photon).y,
        final(photon).z == old(photon).z,
        final(photon).r == old(photon).r,
        final(photon).ux == old(photon).ux,
        final(photon).uy == old(photon).uy,
        final(photon).uz == old(photon).uz,
        final(photon).step_size == old(photon).step_size,
        final(photon).step_size_left == old(photon).step_size_left,
        final(photon).layer == old(photon).layer,
        final(photon).dead == old(photon).dead,
        final(photon).scatters == old(photon).scatters,
        final(photon).layer_mua == old(photon).layer_mua,
        final(photon).layer_mus == old(photon).layer_mus,
        final(photon).layer_z0 == old(photon).layer_z0,
        final(photon).layer_z1 == old(photon).layer_z1,
        final(photon).layer_g == old(photon).layer_g,
{
    let iz: usize = bin_clamp(photon.z, main.run_config.dz, main.run_config.nz);
    let ir: usize = bin_clamp(photon.r, main.run_config.dr, main.run_config.nr);
    let mua: i64 = photon.layer_mua;
    let mut_: i64 = fx_add(mua, photon.layer_mus);
    let wu: u128 = photon.weight as u128;
    let muau: u128 = mua as u128;
    proof {
        assert((wu as int) * (muau as int) <= 0x8000_0000_0000_0000 * 0x8000_0000_0000_0000)
            by (nonlinear_arith)
            requires
                wu <= 0x8000_0000_0000_0000u128,
                muau <= 0x8000_0000_0000_0000u128;
    }
    let num: u128 = wu * muau;
    let den: u128 = mut_ as u128;
    let dwa128: u128 = num / den;
    proof {
        vstd::arithmetic::div_mod::lemma_div_pos_is_pos(num as int, den as int);
        assert((num as int) <= (wu as int) * (den as int)) by (nonlinear_arith)
            requires
                num as int == (wu as int) * (muau as int),
                muau as int <= den as int,
                wu >= 0;
        vstd::arithmetic::div_mod::lemma_div_is_ordered(
            num as int,
            (wu as int) * (den as int),
            den as int,
        );
        vstd::arithmetic::div_mod::lemma_div_multiples_vanish(wu as int, den as int);
        assert(((wu as int) * (den as int)) == ((den as int) * (wu as int))) by (nonlinear_arith);
    }
    let dwa: i64 = dwa128 as i64;
    photon.weight = photon.weight - dwa;
    proof {
        lemma_grid_index(
            ir as int,
            iz as int,
            main.run_config.nr as int,
            main.run_config.nz as int,
        );
        assert((main.run_config.nr as int) * (main.run_config.nz as int) == (
        main.run_config.nz as int) * (main.run_config.nr as int)) by (nonlinear_arith);
        assert((ir as int) * (main.run_config.nz as int) + (iz as int)
            < main.results.a_rz.len());
    }
    let idx: usize = ir * main.run_config.nz + iz;
    let v: i64 = main.results.a_rz[idx];
    let nv: i64 = fx_add(v, dwa);
    main.results.a_rz.set(idx, nv);
}

/// Record the weight of a photon leaving through the top surface into
/// the reflection accumulators, binned by radius and exit angle (and,
/// for the axial profile, by the signed axial position), scaled by the
/// share the residual reflectance lets through. Ballistic photons go to
/// the unscattered tally instead.
pub fn record_r(main: &mut Simulation, refl: i64, photon: &mut PhotonPacket)
    requires
        sim_wf(*old(main)),
        -FX_ONE <= old(photon).uz <= 0,
        0 <= refl <= FX_ONE,
        old(photon).weight >= 0,
        old(photon).r >= 0,
    ensures
        sim_wf(*final(main)),
        final(main).run_config == old(main).run_config,
        final(main).r_specular == old(main).r_specular,
        final(main).rng == old(main).rng,
        final(photon).weight as int == fx_mul_s(old(photon).weight as int, refl as int),
        0 <= final(photon).weight <= old(photon).weight,
        refl == 0 ==> final(photon).weight == 0,
        ({
            let c = old(main).run_config;
            let ir = bin_clamp_s(old(photon).r as int, c.dr as int, c.nr as int);
            let ia = bin_clamp_s(
                crate::approx::acos_s(-(old(photon).uz as int)),
                c.da as int,
                c.na as int,
            );
            let ix = fx_clamp_s(
                fx_add_s(round_ratio_s(old(photon).x as int, c.dr as int), c.nr as int),
                0,
                2 * (c.nr as int) - 1,
            );
            let dw = fx_mul_s(old(photon).weight as int, fx_sub_s(FX_ONE as int, refl as int));
            let idx = ir * (c.na as int) + ia;
            &&& 0 <= ir < c.nr
            &&& 0 <= ia < c.na
            &&& 0 <= ix < 2 * (c.nr as int)
            &&& final(main).results.rd_ra.len() == old(main).results.rd_ra.len()
            &&& final(main).results.rd_x.len() == old(main).results.rd_x.len()
            &&& (old(photon).scatters > 0 ==> {
                &&& final(main).results.rd_ra[idx] as int == fx_add_s(
                    old(main).results.rd_ra[idx] as int,
                    dw,
                )
                &&& forall|j: int|
                    0 <= j < old(main).results.rd_ra.len() && j != idx
                        ==> final(main).results.rd_ra[j] == old(main).results.rd_ra[j]
                &&& final(main).results.rd_x[ix] as int == fx_add_s(
                    old(main).results.rd_x[ix] as int,
                    dw,
                )
                &&& forall|j: int|
                    0 <= j < old(main).results.rd_x.len() && j != ix
                        ==> final(main).results.rd_x[j] == old(main).results.rd_x[j]
                &&& final(main).results.rd_unscattered == old(main).results.rd_unscattered
            })
            &&& (old(photon).scatters == 0 ==> {
                &&& final(main).results.rd_ra == old(main).results.rd_ra
                &&& final(main).results.rd_x == old(main).results.rd_x
                &&& final(main).results.rd_unscattered as int == fx_add_s(
                    old(main).results.rd_unscattered as int,
                    dw,
                )
            })
        }),
        final(main).results.tt_ra == old(main).results.tt_ra,
        final(main).results.a_rz == old(main).results.a_rz,
        final(main).results.w_txz == old(main).results.w_txz,
        final(main).results.tt_unscattered == old(main).results.tt_unscattered,
        results_grew_s(old(main).results, final(main).results),
        final(photon).x == old(photon).x,
        final(photon).y == old(photon).y,
        final(photon).z == old(photon).z,
        final(photon).r == old(photon).r,
        final(photon).ux == old(photon).ux,
        final(photon).uy == old(photon).uy,
        final(photon).uz == old(photon).uz,
        final(photon).step_size == old(photon).step_size,
        final(photon).step_size_left == old(photon).step_size_left,
        final(photon).layer == old(photon).layer,
        final(photon).dead == old(photon).dead,
        final(photon).scatters == old(photon).scatters,
        final(photon).layer_mua == old(photon).layer_mua,
        final(photon).layer_mus == old(photon).layer_mus,
        final(photon).layer_z0 == old(photon).layer_z0,
        final(photon).layer_z1 == old(photon).layer_z1,
        final(photon).layer_g == old(photon).layer_g,
{
    let ir: usize = bin_clamp(photon.r, main.run_config.dr, main.run_config.nr);
    let av: i64 = crate::approx::acos_fx(-photon.uz);
    let ia: usize = bin_clamp(av, main.run_config.da, main.run_config.na);
    let ro: i64 = round_ratio(photon.x, main.run_config.dr);
    let nr_i: i64 = main.run_config.nr as i64;
    let ix_c: i64 = fx_clamp(fx_add(ro, nr_i), 0, 2 * nr_i - 1);
    let ix: usize = ix_c as usize;
    proof {
        lemma_fx_mul_unit_bound(
            fx_sub_s(FX_ONE as int, refl as int),
            old(photon).weight as int,
            old(photon).weight as int,
        );
        lemma_fx_mul_comm(
            old(photon).weight as int,
            fx_sub_s(FX_ONE as int, refl as int),
        );
    }
    let dw: i64 = fx_mul(photon.weight, fx_sub(FX_ONE, refl));
    if photon.scatters > 0 {
        proof {
            lemma_grid_index(
                ir as int,
                ia as int,
                main.run_config.nr as int,
                main.run_config.na as int,
            );
            assert((main.run_config.nr as int) * (main.run_config.na as int) == (
            main.run_config.na as int) * (main.run_config.nr as int)) by (nonlinear_arith);
            assert((ir as int) * (main.run_config.na as int) + (ia as int)
                < main.results.rd_ra.len());
        }
        let idx: usize = ir * main.run_config.na + ia;
        let v: i64 = main.results.rd_ra[idx];
        main.results.rd_ra.set(idx, fx_add(v, dw));
        let vx: i64 = main.results.rd_x[ix];
        main.results.rd_x.set(ix, fx_add(vx, dw));
    } else {
        main.results.rd_unscattered = fx_add(main.results.rd_unscattered, dw);
    }
    proof {
        lemma_fx_mul_unit_bound(refl as int, old(photon).weight as int, old(photon).weight as int);
        lemma_fx_mul_comm(old(photon).weight as int, refl as int);
        if refl == 0 {
            let w = old(photon).weight as int;
            assert(fx_abs_int(w) * fx_abs_int(0) == 0) by (nonlinear_arith);
            assert(0int / (FX_ONE as int) == 0) by (nonlinear_arith);
            assert(fx_mul_s(w, 0) == 0);
        }
    }
    photon.weight = fx_mul(photon.weight, refl);
}

/// Record the weight of a photon leaving through the bottom surface
/// into the transmission accumulators, binned by radius and exit angle,
/// scaled by the share the residual reflectance lets through. Ballistic
/// photons go to the unscattered tally instead.
pub fn record_t(main: &mut Simulation, refl: i64, photon: &mut PhotonPacket)
    requires
        sim_wf(*old(main)),
        0 <= old(photon).uz <= FX_ONE,
        0 <= refl <= FX_ONE,
        old(photon).weight >= 0,
        old(photon).r >= 0,
    ensures
        sim_wf(*final(main)),
        final(main).run_config == old(main).run_config,
        final(main).r_specular == old(main).r_specular,
        final(main).rng == old(main).rng,
        final(photon).weight as int == fx_mul_s(old(photon).weight as int, refl as int),
        0 <= final(photon).weight <= old(photon).weight,
        refl == 0 ==> final(photon).weight == 0,
        ({
            let c = old(main).run_config;
            let ir = bin_clamp_s(old(photon).r as int, c.dr as int, c.nr as int);
            let ia = bin_clamp_s(
                crate::approx::acos_s(old(photon).uz as int),
                c.da as int,
                c.na as int,
            );
            let dw = fx_mul_s(old(photon).weight as int, fx_sub_s(FX_ONE as int, refl as int));
            let idx = ir * (c.na as int) + ia;
            &&& 0 <= ir < c.nr
            &&& 0 <= ia < c.na
            &&& final(main).results.tt_ra.len() == old(main).results.tt_ra.len()
            &&& (old(photon).scatters > 0 ==> {
                &&& final(main).results.tt_ra[idx] as int == fx_add_s(
                    old(main).results.tt_ra[idx] as int,
                    dw,
                )
                &&& forall|j: int|
                    0 <= j < old(main).results.tt_ra.len() && j != idx
                        ==> final(main).results.tt_ra[j] == old(main).results.tt_ra[j]
                &&& final(main).results.tt_unscattered == old(main).results.tt_unscattered
            })
            &&& (old(photon).scatters == 0 ==> {
                &&& final(main).results.tt_ra == old(main).results.tt_ra
                &&& final(main).results.tt_unscattered as int == fx_add_s(
                    old(main).results.tt_unscattered as int,
                    dw,
                )
            })
        }),
        final(main).results.rd_ra == old(main).results.rd_ra,
        final(main).results.rd_x == old(main).results.rd_x,
        final(main).results.a_rz == old(main).results.a_rz,
        final(main).results.w_txz == old(main).results.w_txz,
        final(main).results.rd_unscattered == old(main).results.rd_unscattered,
        results_grew_s(old(main).results, final(main).results),
        final(photon).x == old(photon).x,
        final(photon).y == old(photon).y,
        final(photon).z == old(photon).z,
        final(photon).r == old(photon).r,
        final(photon).ux == old(photon).ux,
        final(photon).uy == old(photon).uy,
        final(photon).uz == old(photon).uz,
        final(photon).step_size == old(photon).step_size,
        final(photon).step_size_left == old(photon).step_size_left,
        final(photon).layer == old(photon).layer,
        final(photon).dead == old(photon).dead,
        final(photon).scatters == old(photon).scatters,
        final(photon).layer_mua == old(photon).layer_mua,
        final(photon).layer_mus == old(photon).layer_mus,
        final(photon).layer_z0 == old(photon).layer_z0,
        final(photon).layer_z1 == old(photon).layer_z1,
        final(photon).layer_g == old(photon).layer_g,
{
    let ir: usize = bin_clamp(photon.r, main.run_config.dr, main.run_config.nr);
    let av: i64 = crate::approx::acos_fx(photon.uz);
    let ia: usize = bin_clamp(av, main.run_config.da, main.run_config.na);
    proof {
        lemma_fx_mul_unit_bound(
            fx_sub_s(FX_ONE as int, refl as int),
            old(photon).weight as int,
            old(photon).weight as int,
        );
        lemma_fx_mul_comm(
            old(photon).weight as int,
            fx_sub_s(FX_ONE as int, refl as int),
        );
    }
    let dw: i64 = fx_mul(photon.weight, fx_sub(FX_ONE, refl));
    if photon.scatters > 0 {
        proof {
            lemma_grid_index(
                ir as int,
                ia as int,
                main.run_config.nr as int,
                main.run_config.na as int,
            );
            assert((main.run_config.nr as int) * (main.run_config.na as int) == (
            main.run_config.na as int) * (main.run_config.nr as int)) by (nonlinear_arith);
            assert((ir as int) * (main.run_config.na as int) + (ia as int)
                < main.results.tt_ra.len());
        }
        let idx: usize = ir * main.run_config.na + ia;
        let v: i64 = main.results.tt_ra[idx];
        main.results.tt_ra.set(idx, fx_add(v, dw));
    } else {
        main.results.tt_unscattered = fx_add(main.results.tt_unscattered, dw);
    }
    proof {
        lemma_fx_mul_unit_bound(refl as int, old(photon).weight as int, old(photon).weight as int);
        lemma_fx_mul_comm(old(photon).weight as int, refl as int);
        if refl == 0 {
            let w = old(photon).weight as int;
            assert(fx_abs_int(w) * fx_abs_int(0) == 0) by (nonlinear_arith);
            assert(0int / (FX_ONE as int) == 0) by (nonlinear_arith);
            assert(fx_mul_s(w, 0) == 0);
        }
    }
    photon.weight = fx_mul(photon.weight, refl);
}


/// Every accumulator cell is at least its old value: deposits only add
/// nonnegative weight, so the grids grow monotonically.
pub open spec fn results_grew_s(before: Results, after: Results) -> bool {
    &&& after.tt_ra.len() == before.tt_ra.len()
    &&& after.rd_ra.len() == before.rd_ra.len()
    &&& after.a_rz.len() == before.a_rz.len()
    &&& after.rd_x.len() == before.rd_x.len()
    &&& after.w_txz.len() == before.w_txz.len()
    &&& forall|i: int| 0 <= i < before.tt_ra.len() ==> #[trigger] after.tt_ra[i] >= before.tt_ra[i]
    &&& forall|i: int| 0 <= i < before.rd_ra.len() ==> #[trigger] after.rd_ra[i] >= before.rd_ra[i]
    &&& forall|i: int| 0 <= i < before.a_rz.len() ==> #[trigger] after.a_rz[i] >= before.a_rz[i]
    &&& forall|i: int| 0 <= i < before.rd_x.len() ==> #[trigger] after.rd_x[i] >= before.rd_x[i]
    &&& forall|i: int| 0 <= i < before.w_txz.len() ==> #[trigger] after.w_txz[i] >= before.w_txz[i]
    &&& after.rd_unscattered >= before.rd_unscattered
    &&& after.tt_unscattered >= before.tt_unscattered
}

/// A photon's whole weight folded into the reflection accumulators: the
/// diffuse grid and the axial profile for a scattered photon, the
/// ballistic tally otherwise; every other accumulator untouched. The
/// bins come from the photon's radius `pr`, axial position `px` and the
/// magnitude `exit_ca` of its exit cosine.
pub open spec fn full_weight_reflected_s(
    c: RunConfig,
    before: Results,
    after: Results,
    pr: int,
    px: int,
    exit_ca: int,
    w: int,
    sc: u64,
) -> bool {
    let ir = bin_clamp_s(pr, c.dr as int, c.nr as int);
    let ia = bin_clamp_s(crate::approx::acos_s(exit_ca), c.da as int, c.na as int);
    let ix = fx_clamp_s(
        fx_add_s(round_ratio_s(px, c.dr as int), c.nr as int),
        0,
        2 * (c.nr as int) - 1,
    );
    let idx = ir * (c.na as int) + ia;
    &&& after.rd_ra.len() == before.rd_ra.len()
    &&& after.rd_x.len() == before.rd_x.len()
    &&& (sc > 0 ==> {
        &&& after.rd_ra[idx] as int == fx_add_s(before.rd_ra[idx] as int, w)
        &&& (forall|j: int|
            0 <= j < before.rd_ra.len() && j != idx ==> after.rd_ra[j] == #[trigger] before.rd_ra[j])
        &&& after.rd_x[ix] as int == fx_add_s(before.rd_x[ix] as int, w)
        &&& (forall|j: int|
            0 <= j < before.rd_x.len() && j != ix ==> after.rd_x[j] == #[trigger] before.rd_x[j])
        &&& after.rd_unscattered == before.rd_unscattered
    })
    &&& (sc == 0 ==> {
        &&& after.rd_ra == before.rd_ra
        &&& after.rd_x == before.rd_x
        &&& after.rd_unscattered as int == fx_add_s(before.rd_unscattered as int, w)
    })
    &&& after.tt_ra == before.tt_ra
    &&& after.a_rz == before.a_rz
    &&& after.w_txz == before.w_txz
    &&& after.tt_unscattered == before.tt_unscattered
}

/// A photon's whole weight folded into the transmission accumulators:
/// the diffuse grid for a scattered photon, the ballistic tally
/// otherwise; every other accumulator untouched.
pub open spec fn full_weight_transmitted_s(
    c: RunConfig,
    before: Results,
    after: Results,
    pr: int,
    exit_ca: int,
    w: int,
    sc: u64,
) -> bool {
    let ir = bin_clamp_s(pr, c.dr as int, c.nr as int);
    let ia = bin_clamp_s(crate::approx::acos_s(exit_ca), c.da as int, c.na as int);
    let idx = ir * (c.na as int) + ia;
    &&& after.tt_ra.len() == before.tt_ra.len()
    &&& (sc > 0 ==> {
        &&& after.tt_ra[idx] as int == fx_add_s(before.tt_ra[idx] as int, w)
        &&& (forall|j: int|
            0 <= j < before.tt_ra.len() && j != idx ==> after.tt_ra[j] == #[trigger] before.tt_ra[j])
        &&& after.tt_unscattered == before.tt_unscattered
    })
    &&& (sc == 0 ==> {
        &&& after.tt_ra == before.tt_ra
        &&& after.tt_unscattered as int == fx_add_s(before.tt_unscattered as int, w)
    })
    &&& after.rd_ra == before.rd_ra
    &&& after.rd_x == before.rd_x
    &&& after.a_rz == before.a_rz
    &&& after.w_txz == before.w_txz
    &&& after.rd_unscattered == before.rd_unscattered
}

/// The upward boundary decision, from pre-crossing photon `p` to
/// post-crossing photon `q`. Within the critical cosine the photon
/// always reflects (no randomness decides); otherwise it either
/// reflects, or refracts by the Fresnel data of the interface: from the
/// first internal layer it exits dead with its whole weight recorded as
/// reflection, deeper down it moves one layer up with the tangential
/// direction rescaled by the index ratio.
pub open spec fn crossed_up_s(
    c: RunConfig,
    p: PhotonPacket,
    q: PhotonPacket,
    before: Results,
    after: Results,
) -> bool {
    let lay = p.layer as int;
    let ni = c.layers[lay].n as int;
    let nup = c.layers[lay - 1].n as int;
    let fr = rfresnel_s(ni, nup, -(p.uz as int));
    let reflected = q == (PhotonPacket { uz: ((-(p.uz as int)) as i64), ..p }) && after == before;
    &&& q.x == p.x
    &&& q.y == p.y
    &&& q.z == p.z
    &&& q.r == p.r
    &&& q.step_size == p.step_size
    &&& q.step_size_left == p.step_size_left
    &&& q.scatters == p.scatters
    &&& {
        ||| reflected
        ||| {
            &&& lay == 1
            &&& q.dead
            &&& q.layer == p.layer
            &&& q.uz as int == -fr.1
            &&& q.weight == 0
            &&& full_weight_reflected_s(
                c,
                before,
                after,
                p.r as int,
                p.x as int,
                fr.1,
                p.weight as int,
                p.scatters,
            )
        }
        ||| {
            &&& lay > 1
            &&& !q.dead
            &&& q.layer as int == lay - 1
            &&& q.uz as int == -fr.1
            &&& q.ux as int == fx_mul_s(p.ux as int, fx_div_s(ni, nup))
            &&& q.uy as int == fx_mul_s(p.uy as int, fx_div_s(ni, nup))
            &&& q.weight == p.weight
            &&& after == before
        }
    }
    &&& (-(p.uz as int) <= c.layers[lay].cos_crit0 ==> reflected)
}

/// The downward boundary decision, the mirror image of the upward one:
/// forced reflection within the critical cosine, and otherwise
/// reflection, an exit through the bottom ambient interface with the
/// whole weight recorded as transmission, or a move one layer down.
pub open spec fn crossed_dn_s(
    c: RunConfig,
    p: PhotonPacket,
    q: PhotonPacket,
    before: Results,
    after: Results,
) -> bool {
    let lay = p.layer as int;
    let ni = c.layers[lay].n as int;
    let ndn = c.layers[lay + 1].n as int;
    let fr = rfresnel_s(ni, ndn, p.uz as int);
    let reflected = q == (PhotonPacket { uz: ((-(p.uz as int)) as i64), ..p }) && after == before;
    &&& q.x == p.x
    &&& q.y == p.y
    &&& q.z == p.z
    &&& q.r == p.r
    &&& q.step_size == p.step_size
    &&& q.step_size_left == p.step_size_left
    &&& q.scatters == p.scatters
    &&& {
        ||| reflected
        ||| {
            &&& lay == c.layers.len() - 2
            &&& q.dead
            &&& q.layer == p.layer
            &&& q.uz as int == fr.1
            &&& q.weight == 0
            &&& full_weight_transmitted_s(
                c,
                before,
                after,
                p.r as int,
                fr.1,
                p.weight as int,
                p.scatters,
            )
        }
        ||| {
            &&& lay < c.layers.len() - 2
            &&& !q.dead
            &&& q.layer as int == lay + 1
            &&& q.uz as int == fr.1
            &&& q.ux as int == fx_mul_s(p.ux as int, fx_div_s(ni, ndn))
            &&& q.uy as int == fx_mul_s(p.uy as int, fx_div_s(ni, ndn))
            &&& q.weight == p.weight
            &&& after == before
        }
    }
    &&& (p.uz as int <= c.layers[lay].cos_crit1 ==> reflected)
}

/// The boundary decision at whichever interface the photon heads for.
pub open spec fn cross_outcome_s(
    c: RunConfig,
    p: PhotonPacket,
    q: PhotonPacket,
    before: Results,
    after: Results,
) -> bool {
    if p.uz < 0 {
        crossed_up_s(c, p, q, before, after)
    } else {
        crossed_dn_s(c, p, q, before, after)
    }
}

/// Decide transmission or reflection at the top interface of the
/// current layer (the photon heads upward). Within the critical cosine
/// the photon reflects with no randomness; otherwise a uniform draw
/// against the Fresnel reflectance either reflects it, moves it into
/// the layer above with the tangential direction rescaled by the index
/// ratio, or, from the first internal layer, records it as reflection
/// and kills it.
pub fn cross_up_or_not(main: &mut Simulation, photon: &mut PhotonPacket)
    requires
        sim_wf(*old(main)),
        photon_wf(*old(photon), old(main).run_config),
        old(photon).uz < 0,
        !old(photon).dead,
    ensures
        sim_wf(*final(main)),
        final(main).run_config == old(main).run_config,
        final(main).r_specular == old(main).r_specular,
        photon_wf(*final(photon), final(main).run_config),
        final(photon).dead ==> old(photon).layer == 1,
        0 <= final(photon).weight <= old(photon).weight,
        crossed_up_s(
            old(main).run_config,
            *old(photon),
            *final(photon),
            old(main).results,
            final(main).results,
        ),
        results_grew_s(old(main).results, final(main).results),
        -(old(photon).uz as int) <= old(main).run_config.layers[old(photon).layer as int].cos_crit0
            ==> final(main).rng == old(main).rng,
{
    let uz: i64 = photon.uz;
    let layer: usize = photon.layer;
    let ni: i64 = main.run_config.layers[layer].n;
    let nt: i64 = main.run_config.layers[layer - 1].n;
    proof {
        assert(crate::config::layer_valid(old(main).run_config.layers[layer as int]));
        assert(crate::config::layer_valid(old(main).run_config.layers[layer as int - 1]));
    }
    if -uz <= main.run_config.layers[layer].cos_crit0 {
        photon.uz = -uz;
        proof {
            assert(*photon == (PhotonPacket { uz: ((-(uz as int)) as i64), ..*old(photon) }));
        }
    } else {
        let res: (i64, i64) = rfresnel(ni, nt, -uz);
        let u: i64 = gen_rand_float(main);
        if u > res.0 {
            if layer == 1 {
                photon.uz = -res.1;
                record_r(main, 0, photon);
                photon.dead = true;
                proof {
                    let w = old(photon).weight as int;
                    assert(fx_abs_int(w) * fx_abs_int(0) == 0) by (nonlinear_arith);
                    assert(0int / (FX_ONE as int) == 0) by (nonlinear_arith);
                    assert(fx_mul_s(w, 0) == 0);
                    lemma_full_exit_deposits_all(w);
                    assert(full_weight_reflected_s(
                        old(main).run_config,
                        old(main).results,
                        main.results,
                        old(photon).r as int,
                        old(photon).x as int,
                        res.1 as int,
                        w,
                        old(photon).scatters,
                    ));
                }
            } else {
                photon.layer = layer - 1;
                update_layer(main, photon);
                let ratio: i64 = fx_div(ni, nt);
                photon.ux = fx_mul(photon.ux, ratio);
                photon.uy = fx_mul(photon.uy, ratio);
                photon.uz = -res.1;
            }
        } else {
            photon.uz = -uz;
            proof {
                assert(*photon == (PhotonPacket { uz: ((-(uz as int)) as i64), ..*old(photon) }));
            }
        }
    }
}

/// Decide transmission or reflection at the bottom interface of the
/// current layer (the photon heads downward, or lies horizontal and
/// reflects trivially). The mirror image of the upward decision: a
/// transmitted photon moves into the layer below, or, from the last
/// internal layer, is recorded as transmission and killed.
pub fn cross_dn_or_not(main: &mut Simulation, photon: &mut PhotonPacket)
    requires
        sim_wf(*old(main)),
        photon_wf(*old(photon), old(main).run_config),
        old(photon).uz >= 0,
        !old(photon).dead,
    ensures
        sim_wf(*final(main)),
        final(main).run_config == old(main).run_config,
        final(main).r_specular == old(main).r_specular,
        photon_wf(*final(photon), final(main).run_config),
        final(photon).dead ==> old(photon).layer == old(main).run_config.layers.len() - 2,
        0 <= final(photon).weight <= old(photon).weight,
        crossed_dn_s(
            old(main).run_config,
            *old(photon),
            *final(photon),
            old(main).results,
            final(main).results,
        ),
        results_grew_s(old(main).results, final(main).results),
        old(photon).uz as int <= old(main).run_config.layers[old(photon).layer as int].cos_crit1
            ==> final(main).rng == old(main).rng,
{
    let uz: i64 = photon.uz;
    let layer: usize = photon.layer;
    let ni: i64 = main.run_config.layers[layer].n;
    let nt: i64 = main.run_config.layers[layer + 1].n;
    proof {
        assert(crate::config::layer_valid(old(main).run_config.layers[layer as int]));
        assert(crate::config::layer_valid(old(main).run_config.layers[layer as int + 1]));
    }
    if uz <= main.run_config.layers[layer].cos_crit1 {
        photon.uz = -uz;
        proof {
            assert(*photon == (PhotonPacket { uz: ((-(uz as int)) as i64), ..*old(photon) }));
        }
    } else {
        let res: (i64, i64) = rfresnel(ni, nt, uz);
        let u: i64 = gen_rand_float(main);
        if u > res.0 {
            if layer == main.run_config.layers.len() - 2 {
                photon.uz = res.1;
                record_t(main, 0, photon);
                photon.dead = true;
                proof {
                    let w = old(photon).weight as int;
                    assert(fx_abs_int(w) * fx_abs_int(0) == 0) by (nonlinear_arith);
                    assert(0int / (FX_ONE as int) == 0) by (nonlinear_arith);
                    assert(fx_mul_s(w, 0) == 0);
                    lemma_full_exit_deposits_all(w);
                    assert(full_weight_transmitted_s(
                        old(main).run_config,
                        old(main).results,
                        main.results,
                        old(photon).r as int,
                        res.1 as int,
                        w,
                        old(photon).scatters,
                    ));
                }
            } else {
                photon.layer = layer + 1;
                update_layer(main, photon);
                let ratio: i64 = fx_div(ni, nt);
                photon.ux = fx_mul(photon.ux, ratio);
                photon.uy = fx_mul(photon.uy, ratio);
                photon.uz = res.1;
            }
        } else {
            photon.uz = -uz;
            proof {
                assert(*photon == (PhotonPacket { uz: ((-(uz as int)) as i64), ..*old(photon) }));
            }
        }
    }
}

/// Dispatch the boundary decision to the interface the photon heads
/// for. A live photon stays in an internal layer, and dies only by
/// leaving through one of the two ambient interfaces.
pub fn cross_or_not(main: &mut Simulation, photon: &mut PhotonPacket)
    requires
        sim_wf(*old(main)),
        photon_wf(*old(photon), old(main).run_config),
        !old(photon).dead,
    ensures
        sim_wf(*final(main)),
        final(main).run_config == old(main).run_config,
        final(main).r_specular == old(main).r_specular,
        photon_wf(*final(photon), final(main).run_config),
        final(photon).dead ==> old(photon).layer == 1 || old(photon).layer == old(
            main,
        ).run_config.layers.len() - 2,
        0 <= final(photon).weight <= old(photon).weight,
        cross_outcome_s(
            old(main).run_config,
            *old(photon),
            *final(photon),
            old(main).results,
            final(main).results,
        ),
        results_grew_s(old(main).results, final(main).results),
{
    if photon.uz < 0 {
        cross_up_or_not(main, photon);
    } else {
        cross_dn_or_not(main, photon);
    }
}

/// The photon's weight is small: kill it outright at zero weight, and
/// otherwise let it survive with the configured chance, boosted to keep
/// the expectation of its weight unchanged.
pub fn roulette(main: &mut Simulation, photon: &mut PhotonPacket)
    requires
        old(main).run_config.chance > 0,
        old(photon).weight >= 0,
        !old(photon).dead,
    ensures
        same_sim_but_rng(*final(main), *old(main)),
        old(photon).weight == 0 ==> final(photon).dead && final(main).rng == old(main).rng,
        final(photon).dead ==> final(photon).weight == old(photon).weight,
        !final(photon).dead ==> old(photon).weight > 0 && final(photon).weight as int == fx_div_s(
            old(photon).weight as int,
            old(main).run_config.chance as int,
        ),
        final(photon).weight >= 0,
        final(photon).x == old(photon).x,
        final(photon).y == old(photon).y,
        final(photon).z == old(photon).z,
        final(photon).r == old(photon).r,
        final(photon).ux == old(photon).ux,
        final(photon).uy == old(photon).uy,
        final(photon).uz == old(photon).uz,
        final(photon).step_size == old(photon).step_size,
        final(photon).step_size_left == old(photon).step_size_left,
        final(photon).layer == old(photon).layer,
        final(photon).scatters == old(photon).scatters,
        final(photon).layer_mua == old(photon).layer_mua,
        final(photon).layer_mus == old(photon).layer_mus,
        final(photon).layer_z0 == old(photon).layer_z0,
        final(photon).layer_z1 == old(photon).layer_z1,
        final(photon).layer_g == old(photon).layer_g,
{
    if photon.weight == 0 {
        photon.dead = true;
    } else {
        let u: i64 = gen_rand_float(main);
        if u < main.run_config.chance {
            proof {
                lemma_fx_div_nonneg(photon.weight as int, main.run_config.chance as int);
            }
            photon.weight = fx_div(photon.weight, main.run_config.chance);
        } else {
            photon.dead = true;
        }
    }
}


/// The photon after flying a step of length `s` along its direction:
/// the position advances, the cached radial distance is refreshed, and
/// the step field holds the distance flown.
pub open spec fn moved_s(p: PhotonPacket, s: int) -> PhotonPacket {
    let nx = fx_add_s(p.x as int, fx_mul_s(s, p.ux as int));
    let ny = fx_add_s(p.y as int, fx_mul_s(s, p.uy as int));
    let zz = fx_add_s(p.z as int, fx_mul_s(s, p.uz as int));
    PhotonPacket {
        x: nx as i64,
        y: ny as i64,
        z: zz as i64,
        r: (sat64(sqrt_s(nx * nx + ny * ny))) as i64,
        step_size: s as i64,
        ..p
    }
}

/// One full move through a glass-like layer: a horizontal photon dies
/// in place with nothing recorded, any other flies exactly to the face
/// it heads for and takes the crossing decision there.
pub open spec fn glass_step_s(
    c: RunConfig,
    p: PhotonPacket,
    q: PhotonPacket,
    before: Results,
    after: Results,
) -> bool {
    if p.uz == 0 {
        q == (PhotonPacket { dead: true, ..p }) && after == before
    } else {
        cross_outcome_s(c, moved_s(p, boundary_dist_s(p)), q, before, after)
    }
}

/// How a turbid step was chosen: a banked optical depth converts back
/// to length, else a fresh exponential sample of some uniform draw,
/// scaled by the interaction coefficient.
pub open spec fn step_choice_s(p: PhotonPacket, s: int) -> bool {
    let mt = fx_add_s(p.layer_mua as int, p.layer_mus as int);
    &&& s >= 0
    &&& (p.step_size_left > 0 ==> s == fx_div_s(p.step_size_left as int, mt))
    &&& (p.step_size_left == 0 ==> exists|u: int|
        1 <= u <= FX_ONE as int && s == fx_div_s(crate::approx::neg_ln_s(u), mt))
}

/// One full interaction step in a turbid layer, for some chosen step: a
/// step that would cross the face ahead is truncated to it with the
/// remainder banked as dimensionless depth and the crossing decided
/// there; a shorter step advances in full, deposits the absorbed share
/// of the weight at the new position's bins, and scatters into a new
/// direction sampled for the layer's anisotropy.
pub open spec fn tissue_step_s(
    c: RunConfig,
    p: PhotonPacket,
    q: PhotonPacket,
    before: Results,
    after: Results,
) -> bool {
    exists|s: int|
        #[trigger] step_choice_s(p, s) && {
            let mt = fx_add_s(p.layer_mua as int, p.layer_mus as int);
            let bd = boundary_dist_s(p);
            if p.uz != 0 && s > bd {
                let banked = fx_mul_s(fx_sub_s(s, bd), mt);
                cross_outcome_s(
                    c,
                    (PhotonPacket { step_size_left: (banked as i64), ..moved_s(p, bd) }),
                    q,
                    before,
                    after,
                )
            } else {
                let m = moved_s(p, s);
                let dw = drop_dw_s(p.weight as int, p.layer_mua as int, p.layer_mus as int);
                let ir = bin_clamp_s(m.r as int, c.dr as int, c.nr as int);
                let iz = bin_clamp_s(m.z as int, c.dz as int, c.nz as int);
                let idx = ir * (c.nz as int) + iz;
                &&& q.x == m.x
                &&& q.y == m.y
                &&& q.z == m.z
                &&& q.r == m.r
                &&& q.step_size == m.step_size
                &&& q.step_size_left == 0
                &&& q.weight as int == p.weight - dw
                &&& q.layer == p.layer
                &&& q.dead == p.dead
                &&& q.layer_mua == p.layer_mua
                &&& q.layer_mus == p.layer_mus
                &&& q.layer_z0 == p.layer_z0
                &&& q.layer_z1 == p.layer_z1
                &&& q.layer_g == p.layer_g
                &&& q.scatters as int == (if p.scatters < u64::MAX {
                    p.scatters as int + 1
                } else {
                    p.scatters as int
                })
                &&& (exists|cost: int, upsi: int|
                    {
                        &&& -(FX_ONE as int) <= cost <= FX_ONE as int
                        &&& (exists|u: int|
                            0 <= u <= FX_ONE as int && cost == hg_cos_s(p.layer_g as int, u))
                        &&& 0 <= upsi <= FX_ONE as int
                        &&& (q.ux as int, q.uy as int, q.uz as int) == spin_dir_s(
                            p.ux as int,
                            p.uy as int,
                            p.uz as int,
                            cost,
                            upsi,
                        )
                    })
                &&& after.a_rz.len() == before.a_rz.len()
                &&& after.a_rz[idx] as int == fx_add_s(before.a_rz[idx] as int, dw)
                &&& (forall|j: int|
                    0 <= j < before.a_rz.len() && j != idx ==> after.a_rz[j] == #[trigger] before.a_rz[j])
                &&& after.tt_ra == before.tt_ra
                &&& after.rd_ra == before.rd_ra
                &&& after.rd_x == before.rd_x
                &&& after.w_txz == before.w_txz
                &&& after.rd_unscattered == before.rd_unscattered
                &&& after.tt_unscattered == before.tt_unscattered
            }
        }
}

/// The step stage dispatch: a layer with both coefficients zero is
/// glass-like and flown through; any other interacts as turbid matter.
pub open spec fn step_stage_s(
    c: RunConfig,
    p: PhotonPacket,
    q: PhotonPacket,
    before: Results,
    after: Results,
) -> bool {
    if p.layer_mua == 0 && p.layer_mus == 0 {
        glass_step_s(c, p, q, before, after)
    } else {
        tissue_step_s(c, p, q, before, after)
    }
}

/// The roulette decision from p to q: zero weight dies, a killed photon
/// keeps its weight, a survivor is boosted by the reciprocal chance;
/// nothing else of the packet changes.
pub open spec fn roulette_outcome_s(chance: int, p: PhotonPacket, q: PhotonPacket) -> bool {
    &&& (p.weight == 0 ==> q.dead)
    &&& (q.dead ==> q.weight == p.weight)
    &&& (!q.dead ==> p.weight > 0 && q.weight as int == fx_div_s(p.weight as int, chance))
    &&& q.x == p.x
    &&& q.y == p.y
    &&& q.z == p.z
    &&& q.r == p.r
    &&& q.ux == p.ux
    &&& q.uy == p.uy
    &&& q.uz == p.uz
    &&& q.step_size == p.step_size
    &&& q.step_size_left == p.step_size_left
    &&& q.layer == p.layer
    &&& q.scatters == p.scatters
    &&& q.layer_mua == p.layer_mua
    &&& q.layer_mus == p.layer_mus
    &&& q.layer_z0 == p.layer_z0
    &&& q.layer_z1 == p.layer_z1
    &&& q.layer_g == p.layer_g
}

/// The refracted launch direction into the first internal layer: the
/// incident sine bent by Snell's law (clamped into one against an
/// evanescent configuration) and the matching vertical cosine.
pub open spec fn launch_dir_s(c: RunConfig) -> (int, int) {
    let n1 = c.layers[0].n as int;
    let n2 = c.layers[1].n as int;
    let turns = (c.alpha as int) / 360;
    let sina = crate::approx::sin_turns_s(turns);
    let sint = fx_clamp_s(
        fx_div_s(fx_mul_s(sina, n1), n2),
        -(FX_ONE as int),
        FX_ONE as int,
    );
    (sint, fx_sqrt_s(fx_sub_s(FX_ONE as int, fx_mul_s(sint, sint))))
}

/// Initialize a freshly created packet: weight one less the specular
/// loss, the first internal layer, the Snell-refracted direction from
/// the configured incident angle, and the layer snapshot.
pub fn launch_photon(main: &Simulation, photon: &mut PhotonPacket)
    requires
        sim_wf(*main),
        old(photon).r >= 0,
        old(photon).step_size_left >= 0,
    ensures
        photon_wf(*final(photon), main.run_config),
        final(photon).weight as int == fx_sub_s(FX_ONE as int, main.r_specular as int),
        final(photon).layer == 1,
        final(photon).ux as int == launch_dir_s(main.run_config).0,
        final(photon).uz as int == launch_dir_s(main.run_config).1,
        0 <= final(photon).uz <= FX_ONE,
        final(photon).layer_mua == main.run_config.layers[1].mua,
        final(photon).layer_mus == main.run_config.layers[1].mus,
        final(photon).layer_z0 == main.run_config.layers[1].z0,
        final(photon).layer_z1 == main.run_config.layers[1].z1,
        final(photon).layer_g == main.run_config.layers[1].g,
        final(photon).x == old(photon).x,
        final(photon).y == old(photon).y,
        final(photon).z == old(photon).z,
        final(photon).r == old(photon).r,
        final(photon).uy == old(photon).uy,
        final(photon).step_size == old(photon).step_size,
        final(photon).step_size_left == old(photon).step_size_left,
        final(photon).dead == old(photon).dead,
        final(photon).scatters == old(photon).scatters,
{
    photon.weight = fx_sub(FX_ONE, main.r_specular);
    photon.layer = 1;
    proof {
        assert(crate::config::layer_valid(main.run_config.layers[0]));
        assert(crate::config::layer_valid(main.run_config.layers[1]));
    }
    let n1: i64 = main.run_config.layers[0].n;
    let n2: i64 = main.run_config.layers[1].n;
    let turns: i64 = fx_div_pos(main.run_config.alpha, 360);
    proof {
        vstd::arithmetic::div_mod::lemma_div_is_ordered(
            main.run_config.alpha as int,
            crate::config::FX_DEG90 as int,
            360,
        );
        vstd::arithmetic::div_mod::lemma_div_multiples_vanish(0x4000_0000, 360);
    }
    let sina: i64 = crate::approx::sin_turns(turns);
    let sint: i64 = fx_clamp(fx_div(fx_mul(sina, n1), n2), -FX_ONE, FX_ONE);
    proof {
        lemma_fx_square_unit(sint as int);
    }
    let ca: i64 = fx_sqrt(fx_sub(FX_ONE, fx_mul(sint, sint)));
    proof {
        lemma_sqrt_le(
            fx_sub_s(FX_ONE as int, fx_mul_s(sint as int, sint as int)) * (FX_ONE as int),
            ca as int,
            FX_ONE as int,
        );
    }
    photon.ux = sint;
    photon.uz = ca;
    update_layer(main, photon);
}

/// Move the photon through a glass-like layer: a horizontal photon can
/// never interact again and is killed; any other flies straight to the
/// boundary and faces the crossing decision there.
pub fn hop_in_glass(main: &mut Simulation, photon: &mut PhotonPacket)
    requires
        sim_wf(*old(main)),
        photon_wf(*old(photon), old(main).run_config),
        !old(photon).dead,
    ensures
        sim_wf(*final(main)),
        final(main).run_config == old(main).run_config,
        final(main).r_specular == old(main).r_specular,
        photon_wf(*final(photon), final(main).run_config),
        0 <= final(photon).weight <= old(photon).weight,
        final(photon).scatters == old(photon).scatters,
        glass_step_s(
            old(main).run_config,
            *old(photon),
            *final(photon),
            old(main).results,
            final(main).results,
        ),
        results_grew_s(old(main).results, final(main).results),
        old(photon).uz == 0 ==> final(photon).dead && final(main).results == old(main).results
            && final(main).rng == old(main).rng,
        final(photon).dead ==> old(photon).uz == 0 || old(photon).layer == 1 || old(
            photon,
        ).layer == old(main).run_config.layers.len() - 2,
{
    if photon.uz == 0 {
        photon.dead = true;
        proof {
            assert(*photon == (PhotonPacket { dead: true, ..*old(photon) }));
        }
    } else {
        step_size_in_glass(photon);
        hop(photon);
        proof {
            assert(*photon == moved_s(*old(photon), boundary_dist_s(*old(photon))));
        }
        cross_or_not(main, photon);
    }
}

/// One full interaction step in a turbid layer: pick the step, split it
/// at the boundary if it would cross (and decide the crossing there),
/// or else move, deposit the absorbed share, and scatter into a new
/// direction.
pub fn hop_drop_spin_in_tissue(main: &mut Simulation, photon: &mut PhotonPacket)
    requires
        sim_wf(*old(main)),
        photon_wf(*old(photon), old(main).run_config),
        !old(photon).dead,
        old(photon).layer_mua + old(photon).layer_mus > 0,
    ensures
        sim_wf(*final(main)),
        final(main).run_config == old(main).run_config,
        final(main).r_specular == old(main).r_specular,
        photon_wf(*final(photon), final(main).run_config),
        0 <= final(photon).weight <= old(photon).weight,
        tissue_step_s(
            old(main).run_config,
            *old(photon),
            *final(photon),
            old(main).results,
            final(main).results,
        ),
        results_grew_s(old(main).results, final(main).results),
        final(photon).dead ==> old(photon).layer == 1 || old(photon).layer == old(
            main,
        ).run_config.layers.len() - 2,
{
    proof {
        assert(crate::config::layer_valid(
            old(main).run_config.layers[old(photon).layer as int],
        ));
    }
    step_size_in_tissue(main, photon);
    let ghost s_w: int = photon.step_size as int;
    proof {
        assert(step_choice_s(*old(photon), s_w));
    }
    if hit_boundary(photon) {
        hop(photon);
        proof {
            let p0 = *old(photon);
            let bd = boundary_dist_s(p0);
            let mt = fx_add_s(p0.layer_mua as int, p0.layer_mus as int);
            let banked = fx_mul_s(fx_sub_s(s_w, bd), mt);
            assert(*photon == (PhotonPacket {
                step_size_left: (banked as i64),
                ..moved_s(p0, bd)
            }));
        }
        cross_or_not(main, photon);
        proof {
            assert(tissue_step_s(
                old(main).run_config,
                *old(photon),
                *photon,
                old(main).results,
                main.results,
            ));
        }
    } else {
        hop(photon);
        drop(main, photon);
        let g: i64 = photon.layer_g;
        spin(main, g, photon);
        proof {
            assert(tissue_step_s(
                old(main).run_config,
                *old(photon),
                *photon,
                old(main).results,
                main.results,
            ));
        }
    }
}

/// One step of the trajectory: glass-like layers are flown through,
/// turbid ones interact; afterwards a surviving photon below the weight
/// threshold faces the roulette.
pub fn hop_drop_spin(main: &mut Simulation, photon: &mut PhotonPacket)
    requires
        sim_wf(*old(main)),
        photon_wf(*old(photon), old(main).run_config),
        !old(photon).dead,
    ensures
        sim_wf(*final(main)),
        final(main).run_config == old(main).run_config,
        final(main).r_specular == old(main).r_specular,
        photon_wf(*final(photon), final(main).run_config),
        final(photon).weight >= 0,
        exists|mid: PhotonPacket, midr: Results|
            {
                &&& #[trigger] step_stage_s(
                    old(main).run_config,
                    *old(photon),
                    mid,
                    old(main).results,
                    midr,
                )
                &&& if !mid.dead && mid.weight < old(main).run_config.wth {
                    roulette_outcome_s(old(main).run_config.chance as int, mid, *final(photon))
                        && final(main).results == midr
                } else {
                    *final(photon) == mid && final(main).results == midr
                }
            },
        results_grew_s(old(main).results, final(main).results),
        final(photon).dead ==> old(photon).uz == 0 || old(photon).layer == 1 || old(
            photon,
        ).layer == old(main).run_config.layers.len() - 2 || final(photon).weight < old(
            main,
        ).run_config.wth,
{
    if photon.layer_mua == 0 && photon.layer_mus == 0 {
        hop_in_glass(main, photon);
    } else {
        proof {
            assert(crate::config::layer_valid(
                old(main).run_config.layers[old(photon).layer as int],
            ));
        }
        hop_drop_spin_in_tissue(main, photon);
    }
    let ghost mid: PhotonPacket = *photon;
    let ghost midr: Results = main.results;
    proof {
        assert(step_stage_s(old(main).run_config, *old(photon), mid, old(main).results, midr));
    }
    if photon.weight < main.run_config.wth && !photon.dead {
        roulette(main, photon);
        proof {
            assert(roulette_outcome_s(old(main).run_config.chance as int, mid, *photon));
        }
    }
}

/// Recording an exit with no residual reflectance conserves energy
/// exactly: the deposited share is the photon's whole weight and the
/// photon keeps none.
pub proof fn lemma_full_exit_deposits_all(w: int)
    requires
        0 <= w <= FX_MAX as int,
    ensures
        fx_mul_s(w, fx_sub_s(FX_ONE as int, 0)) == w,
        fx_mul_s(w, 0) == 0,
{
    let one = FX_ONE as int;
    assert(w * one == one * w) by (nonlinear_arith);
    vstd::arithmetic::div_mod::lemma_div_multiples_vanish(w, one);
    assert(fx_abs_int(w) * fx_abs_int(0) == 0) by (nonlinear_arith);
    assert(0int / (FX_ONE as int) == 0) by (nonlinear_arith);
}

/// Growth of the accumulators composes across successive stages.
pub proof fn lemma_results_grew_trans(a: Results, b: Results, c: Results)
    requires
        results_grew_s(a, b),
        results_grew_s(b, c),
    ensures
        results_grew_s(a, c),
{
    assert forall|i: int| 0 <= i < a.tt_ra.len() implies #[trigger] c.tt_ra[i] >= a.tt_ra[i] by {
        assert(b.tt_ra[i] >= a.tt_ra[i]);
    }
    assert forall|i: int| 0 <= i < a.rd_ra.len() implies #[trigger] c.rd_ra[i] >= a.rd_ra[i] by {
        assert(b.rd_ra[i] >= a.rd_ra[i]);
    }
    assert forall|i: int| 0 <= i < a.a_rz.len() implies #[trigger] c.a_rz[i] >= a.a_rz[i] by {
        assert(b.a_rz[i] >= a.a_rz[i]);
    }
    assert forall|i: int| 0 <= i < a.rd_x.len() implies #[trigger] c.rd_x[i] >= a.rd_x[i] by {
        assert(b.rd_x[i] >= a.rd_x[i]);
    }
    assert forall|i: int| 0 <= i < a.w_txz.len() implies #[trigger] c.w_txz[i] >= a.w_txz[i] by {
        assert(b.w_txz[i] >= a.w_txz[i]);
    }
}

} // verus!
