pub mod approx;
pub mod config;
pub mod engine;
pub mod fixed;
pub mod photon;
pub mod rng;

use vstd::prelude::*;
use crate::config::{RunConfig, config_valid};
use crate::fixed::FX_ONE;

verus! {

/// The shared numeric accumulators of one run, all Q32.32 fixed point:
/// absorbed weight by radius and depth (`a_rz`), diffuse reflected and
/// transmitted weight by radius and exit angle (`rd_ra`, `tt_ra`), the
/// ballistic exits (`rd_unscattered`, `tt_unscattered`), the 1-D axial
/// reflection profile (`rd_x`), and the time-resolved weight grid
/// (`w_txz`).
pub struct Results {
    pub tt_ra: Vec<i64>,
    pub rd_ra: Vec<i64>,
    pub a_rz: Vec<i64>,
    pub rd_x: Vec<i64>,
    pub w_txz: Vec<i64>,
    pub rd_unscattered: i64,
    pub tt_unscattered: i64,
}

/// The accumulators are sized to the configured grids.
pub open spec fn results_sized(res: Results, c: RunConfig) -> bool {
    &&& res.tt_ra.len() == c.na * c.nr
    &&& res.rd_ra.len() == c.na * c.nr
    &&& res.a_rz.len() == c.nz * c.nr
    &&& res.rd_x.len() == 2 * c.nr
    &&& res.w_txz.len() == c.nz * c.nr * 2 * c.nt
}

/// One run: the configuration, the specular reflectance computed at
/// initialization, the pseudo-random stream, and the accumulators.
pub struct Simulation {
    pub run_config: RunConfig,
    pub r_specular: i64,
    pub rng: rand_mt::Mt64,
    pub results: Results,
}

/// A simulation ready to trace photons: validated configuration, sized
/// accumulators, and a specular reflectance within one.
pub open spec fn sim_wf(s: Simulation) -> bool {
    &&& config_valid(s.run_config)
    &&& results_sized(s.results, s.run_config)
    &&& 0 <= s.r_specular <= FX_ONE
}

/// A zeroed accumulator of the given length.
fn zeros(n: usize) -> (v: Vec<i64>)
    ensures
        v.len() == n,
        forall|i: int| 0 <= i < n ==> v[i] == 0,
{
    let mut v: Vec<i64> = Vec::new();
    let mut i: usize = 0;
    while i < n
        invariant
            i <= n,
            v.len() == i,
            forall|j: int| 0 <= j < i ==> v[j] == 0,
        decreases n - i,
    {
        v.push(0);
        i = i + 1;
    }
    v
}

impl Simulation {
    /// Allocate zeroed accumulators matching the configured grids.
    fn initialize_results(&mut self)
        requires
            old(self).run_config.na * old(self).run_config.nr <= usize::MAX,
            old(self).run_config.nz * old(self).run_config.nr <= usize::MAX,
            2 * old(self).run_config.nr <= usize::MAX,
            old(self).run_config.nz * old(self).run_config.nr * 2 <= usize::MAX,
            old(self).run_config.nz * old(self).run_config.nr * 2 * old(self).run_config.nt
                <= usize::MAX,
        ensures
            results_sized(final(self).results, final(self).run_config),
            final(self).run_config == old(self).run_config,
            final(self).r_specular == old(self).r_specular,
            final(self).rng == old(self).rng,
            final(self).results.rd_unscattered == 0,
            final(self).results.tt_unscattered == 0,
            forall|i: int|
                0 <= i < final(self).results.tt_ra.len() ==> final(self).results.tt_ra[i] == 0,
            forall|i: int|
                0 <= i < final(self).results.rd_ra.len() ==> final(self).results.rd_ra[i] == 0,
            forall|i: int|
                0 <= i < final(self).results.a_rz.len() ==> final(self).results.a_rz[i] == 0,
            forall|i: int|
                0 <= i < final(self).results.rd_x.len() ==> final(self).results.rd_x[i] == 0,
            forall|i: int|
                0 <= i < final(self).results.w_txz.len() ==> final(self).results.w_txz[i] == 0,
    {
        let na_nr: usize = self.run_config.na * self.run_config.nr;
        let nz_nr: usize = self.run_config.nz * self.run_config.nr;
        let txz: usize = self.run_config.nz * self.run_config.nr * 2 * self.run_config.nt;
        self.results.tt_ra = zeros(na_nr);
        self.results.rd_ra = zeros(na_nr);
        self.results.a_rz = zeros(nz_nr);
        self.results.rd_x = zeros(2 * self.run_config.nr);
        self.results.w_txz = zeros(txz);
        self.results.rd_unscattered = 0;
        self.results.tt_unscattered = 0;
    }

    /// A fresh simulation with an empty configuration, a default-seeded
    /// generator and empty accumulators.
    pub fn new() -> (s: Simulation)
        ensures
            s.run_config.layers.len() == 0,
            s.r_specular == 0,
            s.results.tt_ra.len() == 0,
            s.results.rd_ra.len() == 0,
            s.results.a_rz.len() == 0,
            s.results.rd_x.len() == 0,
            s.results.w_txz.len() == 0,
            s.results.rd_unscattered == 0,
            s.results.tt_unscattered == 0,
    {
        Simulation {
            run_config: RunConfig::new(),
            r_specular: 0,
            rng: rand_mt::Mt64::new(0),
            results: Results {
                tt_ra: Vec::new(),
                rd_ra: Vec::new(),
                a_rz: Vec::new(),
                rd_x: Vec::new(),
                w_txz: Vec::new(),
                rd_unscattered: 0,
                tt_unscattered: 0,
            },
        }
    }

    /// Set the grid geometry, roulette parameters and incident angle,
    /// and allocate zeroed accumulators of the matching sizes.
    pub fn configure_run(
        &mut self,
        dz: i64,
        dr: i64,
        da: i64,
        nz: usize,
        nr: usize,
        na: usize,
        nt: usize,
        wth: i64,
        chance: i64,
        alpha: i64,
    )
        requires
            na * nr <= usize::MAX,
            nz * nr <= usize::MAX,
            2 * nr <= usize::MAX,
            nz * nr * 2 <= usize::MAX,
            nz * nr * 2 * nt <= usize::MAX,
        ensures
            final(self).run_config.dz == dz,
            final(self).run_config.dr == dr,
            final(self).run_config.da == da,
            final(self).run_config.nz == nz,
            final(self).run_config.nr == nr,
            final(self).run_config.na == na,
            final(self).run_config.nt == nt,
            final(self).run_config.wth == wth,
            final(self).run_config.chance == chance,
            final(self).run_config.alpha == alpha,
            final(self).run_config.layers == old(self).run_config.layers,
            final(self).r_specular == old(self).r_specular,
            final(self).rng == old(self).rng,
            results_sized(final(self).results, final(self).run_config),
            final(self).results.rd_unscattered == 0,
            final(self).results.tt_unscattered == 0,
            forall|i: int|
                0 <= i < final(self).results.tt_ra.len() ==> final(self).results.tt_ra[i] == 0,
            forall|i: int|
                0 <= i < final(self).results.rd_ra.len() ==> final(self).results.rd_ra[i] == 0,
            forall|i: int|
                0 <= i < final(self).results.a_rz.len() ==> final(self).results.a_rz[i] == 0,
            forall|i: int|
                0 <= i < final(self).results.rd_x.len() ==> final(self).results.rd_x[i] == 0,
            forall|i: int|
                0 <= i < final(self).results.w_txz.len() ==> final(self).results.w_txz[i] == 0,
    {
        self.run_config.dz = dz;
        self.run_config.dr = dr;
        self.run_config.da = da;
        self.run_config.nz = nz;
        self.run_config.nr = nr;
        self.run_config.na = na;
        self.run_config.nt = nt;
        self.run_config.wth = wth;
        self.run_config.chance = chance;
        self.run_config.alpha = alpha;
        self.initialize_results();
    }

    /// Reseed the pseudo-random stream for a reproducible run.
    pub fn set_seed(&mut self, seed: u64)
        ensures
            final(self).run_config == old(self).run_config,
            final(self).r_specular == old(self).r_specular,
            final(self).results == old(self).results,
    {
        self.rng = rand_mt::Mt64::new(seed);
    }

    /// Remove every layer.
    pub fn clear_layers(&mut self)
        ensures
            final(self).run_config.layers.len() == 0,
            final(self).run_config.dz == old(self).run_config.dz,
            final(self).run_config.dr == old(self).run_config.dr,
            final(self).run_config.da == old(self).run_config.da,
            final(self).run_config.nz == old(self).run_config.nz,
            final(self).run_config.nr == old(self).run_config.nr,
            final(self).run_config.na == old(self).run_config.na,
            final(self).run_config.nt == old(self).run_config.nt,
            final(self).run_config.wth == old(self).run_config.wth,
            final(self).run_config.chance == old(self).run_config.chance,
            final(self).run_config.alpha == old(self).run_config.alpha,
            final(self).r_specular == old(self).r_specular,
            final(self).rng == old(self).rng,
            final(self).results == old(self).results,
    {
        self.run_config.layers.clear();
    }

    /// Append one layer with the given optical constants.
    pub fn add_layer(&mut self, n: i64, mua: i64, mus: i64, g: i64, d: i64)
        ensures
            final(self).run_config.layers.len() == old(self).run_config.layers.len() + 1,
            final(self).run_config.layers[final(self).run_config.layers.len() - 1]
                == (crate::config::Layer {
                n,
                mua,
                mus,
                g,
                d,
                z0: 0,
                z1: 0,
                cos_crit0: 0,
                cos_crit1: 0,
            }),
            forall|i: int|
                0 <= i < old(self).run_config.layers.len() ==> final(self).run_config.layers[i]
                    == old(self).run_config.layers[i],
            final(self).run_config.dz == old(self).run_config.dz,
            final(self).run_config.dr == old(self).run_config.dr,
            final(self).run_config.da == old(self).run_config.da,
            final(self).run_config.nz == old(self).run_config.nz,
            final(self).run_config.nr == old(self).run_config.nr,
            final(self).run_config.na == old(self).run_config.na,
            final(self).run_config.nt == old(self).run_config.nt,
            final(self).run_config.wth == old(self).run_config.wth,
            final(self).run_config.chance == old(self).run_config.chance,
            final(self).run_config.alpha == old(self).run_config.alpha,
            final(self).r_specular == old(self).r_specular,
            final(self).rng == old(self).rng,
            final(self).results == old(self).results,
    {
        self.run_config.add_layer(n, mua, mus, g, d);
    }

    /// Derive the stack geometry, the critical cosines and the specular
    /// reflectance, and zero the accumulators. Must be called after any
    /// layer mutation and before launching photons.
    pub fn initialize(&mut self)
        requires
            config_valid(old(self).run_config),
            old(self).run_config.na * old(self).run_config.nr <= usize::MAX,
            old(self).run_config.nz * old(self).run_config.nr <= usize::MAX,
            2 * old(self).run_config.nr <= usize::MAX,
            old(self).run_config.nz * old(self).run_config.nr * 2 <= usize::MAX,
            old(self).run_config.nz * old(self).run_config.nr * 2 * old(self).run_config.nt
                <= usize::MAX,
        ensures
            sim_wf(*final(self)),
            final(self).run_config.layers.len() == old(self).run_config.layers.len(),
            final(self).run_config.dz == old(self).run_config.dz,
            final(self).run_config.dr == old(self).run_config.dr,
            final(self).run_config.da == old(self).run_config.da,
            final(self).run_config.nz == old(self).run_config.nz,
            final(self).run_config.nr == old(self).run_config.nr,
            final(self).run_config.na == old(self).run_config.na,
            final(self).run_config.nt == old(self).run_config.nt,
            final(self).run_config.wth == old(self).run_config.wth,
            final(self).run_config.chance == old(self).run_config.chance,
            final(self).run_config.alpha == old(self).run_config.alpha,
            forall|i: int|
                0 <= i < old(self).run_config.layers.len() ==> {
                    &&& (#[trigger] final(self).run_config.layers[i]).n == old(
                        self,
                    ).run_config.layers[i].n
                    &&& final(self).run_config.layers[i].mua == old(self).run_config.layers[i].mua
                    &&& final(self).run_config.layers[i].mus == old(self).run_config.layers[i].mus
                    &&& final(self).run_config.layers[i].g == old(self).run_config.layers[i].g
                    &&& final(self).run_config.layers[i].d == old(self).run_config.layers[i].d
                    &&& final(self).run_config.layers[i].z0 as int == crate::config::zacc(
                        old(self).run_config.layers@,
                        i,
                    )
                    &&& final(self).run_config.layers[i].z1 as int == crate::fixed::fx_add_s(
                        crate::config::zacc(old(self).run_config.layers@, i),
                        old(self).run_config.layers[i].d as int,
                    )
                },
            forall|i: int|
                1 <= i < old(self).run_config.layers.len() - 1 ==> {
                    &&& (#[trigger] final(self).run_config.layers[i]).cos_crit0 as int
                        == crate::config::cos_crit_s(
                        old(self).run_config.layers[i].n as int,
                        old(self).run_config.layers[i - 1].n as int,
                    )
                    &&& final(self).run_config.layers[i].cos_crit1 as int
                        == crate::config::cos_crit_s(
                        old(self).run_config.layers[i].n as int,
                        old(self).run_config.layers[i + 1].n as int,
                    )
                },
            final(self).rng == old(self).rng,
            final(self).r_specular as int == crate::engine::r_specular_s(
                final(self).run_config.layers[0],
                final(self).run_config.layers[1],
                final(self).run_config.layers[2],
            ),
            final(self).results.rd_unscattered == 0,
            final(self).results.tt_unscattered == 0,
            forall|i: int|
                0 <= i < final(self).results.a_rz.len() ==> final(self).results.a_rz[i] == 0,
            forall|i: int|
                0 <= i < final(self).results.rd_ra.len() ==> final(self).results.rd_ra[i] == 0,
            forall|i: int|
                0 <= i < final(self).results.tt_ra.len() ==> final(self).results.tt_ra[i] == 0,
            forall|i: int|
                0 <= i < final(self).results.rd_x.len() ==> final(self).results.rd_x[i] == 0,
            forall|i: int|
                0 <= i < final(self).results.w_txz.len() ==> final(self).results.w_txz[i] == 0,
    {
        proof {
            assert forall|i: int|
                0 <= i < old(self).run_config.layers.len() implies (#[trigger] old(
                self,
            ).run_config.layers[i].n) >= 1 by {
                assert(crate::config::layer_valid(old(self).run_config.layers[i]));
            }
        }
        self.run_config.update_layer_boundaries();
        self.run_config.update_cos_crit();
        proof {
            let c = self.run_config;
            let oc = old(self).run_config;
            assert forall|i: int|
                0 <= i < c.layers.len() implies crate::config::layer_valid(
                #[trigger] c.layers[i],
            ) by {
                assert(crate::config::layer_valid(oc.layers[i]));
            }
            assert(config_valid(c));
        }
        self.initialize_results();
        let rs: i64 = crate::engine::calculate_r_specular(&self.run_config);
        self.r_specular = rs;
    }

    /// Run one photon from launch to death, folding its time-resolved
    /// trace into the accumulators while it lives. A step budget keeps
    /// every trajectory finite; it is far beyond any physical path.
    pub fn launch_photon(&mut self)
        requires
            sim_wf(*old(self)),
        ensures
            sim_wf(*final(self)),
            final(self).run_config == old(self).run_config,
            final(self).r_specular == old(self).r_specular,
            crate::engine::results_grew_s(old(self).results, final(self).results),
    {
        let mut photon = crate::photon::PhotonPacket::new();
        crate::engine::launch_photon(self, &mut photon);
        let mut tick: usize = 0;
        let mut steps: u64 = 0;
        while !photon.dead && steps < 100_000_000
            invariant
                sim_wf(*self),
                crate::photon::photon_wf(photon, self.run_config),
                self.run_config == old(self).run_config,
                self.r_specular == old(self).r_specular,
                crate::engine::results_grew_s(old(self).results, self.results),
                steps <= 100_000_000,
                tick <= steps,
            decreases 100_000_000 - steps,
        {
            let ghost res0: Results = self.results;
            crate::engine::hop_drop_spin(self, &mut photon);
            let ghost res1: Results = self.results;
            if tick < self.run_config.nt {
                let nz: usize = self.run_config.nz;
                let nr: usize = self.run_config.nr;
                proof {
                    assert((nz * nr * 2) as int * 1 <= (nz * nr * 2) as int * (
                    self.run_config.nt as int)) by (nonlinear_arith)
                        requires self.run_config.nt >= 1;
                    assert((nz * nr * 2) as int * (self.run_config.nt as int) == (nz as int) * (
                    nr as int) * 2 * (self.run_config.nt as int)) by (nonlinear_arith);
                }
                let plane: usize = nz * nr * 2;
                let ro: i64 = crate::engine::round_ratio(photon.x, self.run_config.dr);
                let ix_i: i64 = crate::fixed::fx_add(ro, nr as i64);
                let izq: u64 = if photon.z <= 0 {
                    0
                } else {
                    (photon.z as u64) / (self.run_config.dz as u64)
                };
                if ix_i >= 0 && ix_i < 2 * (nr as i64) && izq < nz as u64 {
                    let ix: usize = ix_i as usize;
                    let iz: usize = izq as usize;
                    proof {
                        crate::fixed::lemma_grid_index(ix as int, iz as int, 2 * (nr as int), nz as int);
                        assert(2 * (nr as int) * (nz as int) == (nz as int) * (nr as int) * 2)
                            by (nonlinear_arith);
                        crate::fixed::lemma_grid_index(
                            tick as int,
                            (ix as int) * (nz as int) + (iz as int),
                            self.run_config.nt as int,
                            plane as int,
                        );
                        assert((self.run_config.nt as int) * (plane as int) == (nz as int) * (
                        nr as int) * 2 * (self.run_config.nt as int)) by (nonlinear_arith)
                            requires plane as int == (nz as int) * (nr as int) * 2;
                    }
                    let idx: usize = tick * plane + ix * nz + iz;
                    let v: i64 = self.results.w_txz[idx];
                    let nv: i64 = crate::fixed::fx_add(v, photon.weight);
                    self.results.w_txz.set(idx, nv);
                }
            }
            proof {
                assert(crate::engine::results_grew_s(res1, self.results));
                crate::engine::lemma_results_grew_trans(res0, res1, self.results);
                crate::engine::lemma_results_grew_trans(
                    old(self).results,
                    res0,
                    self.results,
                );
            }
            tick = tick + 1;
            steps = steps + 1;
        }
    }

    /// Run a batch of photons to completion.
    pub fn launch_photons(&mut self, n: usize)
        requires
            sim_wf(*old(self)),
        ensures
            sim_wf(*final(self)),
            final(self).run_config == old(self).run_config,
            final(self).r_specular == old(self).r_specular,
            crate::engine::results_grew_s(old(self).results, final(self).results),
    {
        let mut i: usize = 0;
        while i < n
            invariant
                sim_wf(*self),
                self.run_config == old(self).run_config,
                self.r_specular == old(self).r_specular,
                crate::engine::results_grew_s(old(self).results, self.results),
            decreases n - i,
        {
            let ghost res0: Results = self.results;
            self.launch_photon();
            proof {
                crate::engine::lemma_results_grew_trans(
                    old(self).results,
                    res0,
                    self.results,
                );
            }
            i = i + 1;
        }
    }

    /// The transmittance grid by radius and exit angle.
    pub fn get_tt_ra(&self) -> (r: &Vec<i64>)
        ensures
            r@ == self.results.tt_ra@,
    {
        &self.results.tt_ra
    }

    /// The diffuse reflectance grid by radius and exit angle.
    pub fn get_rd_ra(&self) -> (r: &Vec<i64>)
        ensures
            r@ == self.results.rd_ra@,
    {
        &self.results.rd_ra
    }

    /// The absorption grid by radius and depth.
    pub fn get_a_rz(&self) -> (r: &Vec<i64>)
        ensures
            r@ == self.results.a_rz@,
    {
        &self.results.a_rz
    }

    /// The axial reflection profile.
    pub fn get_rd_x(&self) -> (r: &Vec<i64>)
        ensures
            r@ == self.results.rd_x@,
    {
        &self.results.rd_x
    }

    /// The time-resolved weight grid.
    pub fn get_w_txz(&self) -> (r: &Vec<i64>)
        ensures
            r@ == self.results.w_txz@,
    {
        &self.results.w_txz
    }

    /// The specular reflectance computed at initialization.
    pub fn get_r_specular(&self) -> (r: i64)
        ensures
            r == self.r_specular,
    {
        self.r_specular
    }

    /// The weight reflected without ever scattering.
    pub fn get_rd_unscattered(&self) -> (r: i64)
        ensures
            r == self.results.rd_unscattered,
    {
        self.results.rd_unscattered
    }

    /// The weight transmitted without ever scattering.
    pub fn get_tt_unscattered(&self) -> (r: i64)
        ensures
            r == self.results.tt_unscattered,
    {
        self.results.tt_unscattered
    }
}

} // verus!
