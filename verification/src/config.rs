use vstd::prelude::*;
use crate::fixed::{
    FX_ONE, fx_mul, fx_add, fx_sub, fx_div, fx_sqrt,
    fx_mul_s, fx_add_s, fx_sub_s, fx_div_s, fx_sqrt_s, fx_abs_int,
    lemma_fx_div_unit, lemma_fx_div_nonneg, lemma_fx_mul_unit_unit, lemma_fx_mul_nonneg,
    lemma_sqrt_le,
};

verus! {

/// Incident angles are stated in fixed-point degrees; a right angle.
pub const FX_DEG90: i64 = 386547056640;

/// One optical slab. All quantities are Q32.32 fixed point: refractive
/// index `n`, absorption `mua` and scattering `mus` coefficients,
/// anisotropy `g`, thickness `d`, the derived vertical extent `z0..z1`,
/// and the derived critical cosines against the neighbour above
/// (`cos_crit0`) and below (`cos_crit1`).
#[derive(Clone, Copy)]
pub struct Layer {
    pub n: i64,
    pub mua: i64,
    pub mus: i64,
    pub g: i64,
    pub d: i64,
    pub z0: i64,
    pub z1: i64,
    pub cos_crit0: i64,
    pub cos_crit1: i64,
}

/// A physically admissible layer: positive index, nonnegative
/// coefficients, anisotropy and critical cosines within one, nonnegative
/// thickness.
pub open spec fn layer_valid(l: Layer) -> bool {
    &&& l.n >= 1
    &&& l.mua >= 0
    &&& l.mus >= 0
    &&& -FX_ONE <= l.g <= FX_ONE
    &&& l.d >= 0
    &&& 0 <= l.cos_crit0 <= FX_ONE
    &&& 0 <= l.cos_crit1 <= FX_ONE
}

impl Layer {
    /// A fresh layer with the given optical constants and no derived
    /// geometry yet.
    pub fn new(n: i64, mua: i64, mus: i64, g: i64, d: i64) -> (l: Layer)
        ensures
            l.n == n,
            l.mua == mua,
            l.mus == mus,
            l.g == g,
            l.d == d,
            l.z0 == 0,
            l.z1 == 0,
            l.cos_crit0 == 0,
            l.cos_crit1 == 0,
    {
        Layer { n, mua, mus, g, d, z0: 0, z1: 0, cos_crit0: 0, cos_crit1: 0 }
    }
}

/// The read-only description of one run: grid steps `dz, dr, da`, grid
/// extents `nz, nr, na`, time ticks `nt`, the roulette threshold `wth`
/// and survival chance, the incident angle `alpha` in fixed-point
/// degrees, and the layer stack.
pub struct RunConfig {
    pub dz: i64,
    pub dr: i64,
    pub da: i64,
    pub nz: usize,
    pub nr: usize,
    pub na: usize,
    pub nt: usize,
    pub wth: i64,
    pub chance: i64,
    pub alpha: i64,
    pub layers: Vec<Layer>,
}

/// A validated configuration: at least three layers with glass-like
/// (non-turbid) ambient layers at both ends, positive grid steps, grid
/// extents that fit comfortably in index arithmetic, a usable roulette
/// chance, and an incident angle within a quarter turn.
pub open spec fn config_valid(c: RunConfig) -> bool {
    &&& c.layers.len() >= 3
    &&& forall|i: int| 0 <= i < c.layers.len() ==> layer_valid(#[trigger] c.layers[i])
    &&& c.layers[0].mua == 0
    &&& c.layers[0].mus == 0
    &&& c.layers[c.layers.len() - 1].mua == 0
    &&& c.layers[c.layers.len() - 1].mus == 0
    &&& c.dz > 0
    &&& c.dr > 0
    &&& c.da > 0
    &&& 1 <= c.nz <= 0x7fff_ffff
    &&& 1 <= c.nr <= 0x7fff_ffff
    &&& 1 <= c.na <= 0x7fff_ffff
    &&& c.nt <= 0x7fff_ffff
    &&& 0 < c.chance <= FX_ONE
    &&& c.wth >= 0
    &&& 0 <= c.alpha <= FX_DEG90
}

/// Accumulated depth of the internal layers above layer i, with the
/// saturating addition the boundary walk uses. The ambient entry
/// layer's thickness is conventional and never shifts the stack.
pub open spec fn zacc(layers: Seq<Layer>, i: int) -> int
    decreases i,
{
    if i <= 1 {
        0
    } else {
        fx_add_s(zacc(layers, i - 1), layers[i - 1].d as int)
    }
}

/// The critical cosine of a layer of index `nl` against a neighbour of
/// index `nn`: zero when no total internal reflection is possible.
pub open spec fn cos_crit_s(nl: int, nn: int) -> int {
    if nl > nn {
        fx_sqrt_s(fx_sub_s(FX_ONE as int, fx_mul_s(fx_div_s(nn, nl), fx_div_s(nn, nl))))
    } else {
        0
    }
}

/// All fields of a layer except the derived vertical extent.
pub open spec fn same_but_z(a: Layer, b: Layer) -> bool {
    &&& a.n == b.n
    &&& a.mua == b.mua
    &&& a.mus == b.mus
    &&& a.g == b.g
    &&& a.d == b.d
    &&& a.cos_crit0 == b.cos_crit0
    &&& a.cos_crit1 == b.cos_crit1
}

/// All fields of a layer except the derived critical cosines.
pub open spec fn same_but_crit(a: Layer, b: Layer) -> bool {
    &&& a.n == b.n
    &&& a.mua == b.mua
    &&& a.mus == b.mus
    &&& a.g == b.g
    &&& a.d == b.d
    &&& a.z0 == b.z0
    &&& a.z1 == b.z1
}

/// The critical cosine against one neighbour, computed and bounded.
fn cos_crit_of(nl: i64, nn: i64) -> (r: i64)
    requires
        nl >= 1,
        nn >= 1,
    ensures
        r as int == cos_crit_s(nl as int, nn as int),
        0 <= r <= FX_ONE,
{
    if nl > nn {
        let rat: i64 = fx_div(nn, nl);
        proof {
            lemma_fx_div_unit(nn as int, nl as int);
            lemma_fx_div_nonneg(nn as int, nl as int);
            lemma_fx_mul_unit_unit(rat as int, rat as int);
            lemma_fx_mul_nonneg(rat as int, rat as int);
        }
        let t: i64 = fx_mul(rat, rat);
        let arg: i64 = fx_sub(FX_ONE, t);
        let r: i64 = fx_sqrt(arg);
        proof {
            lemma_sqrt_le(arg as int * (FX_ONE as int), r as int, FX_ONE as int);
        }
        r
    } else {
        0
    }
}

impl RunConfig {
    /// An empty configuration; every quantity still to be set.
    pub fn new() -> (c: RunConfig)
        ensures
            c.dz == 0,
            c.dr == 0,
            c.da == 0,
            c.nz == 0,
            c.nr == 0,
            c.na == 0,
            c.nt == 0,
            c.wth == 0,
            c.chance == 0,
            c.alpha == 0,
            c.layers.len() == 0,
    {
        RunConfig {
            dz: 0,
            dr: 0,
            da: 0,
            nz: 0,
            nr: 0,
            na: 0,
            nt: 0,
            wth: 0,
            chance: 0,
            alpha: 0,
            layers: Vec::new(),
        }
    }

    /// Append one layer with the given optical constants.
    pub fn add_layer(&mut self, n: i64, mua: i64, mus: i64, g: i64, d: i64)
        ensures
            final(self).layers.len() == old(self).layers.len() + 1,
            final(self).layers[final(self).layers.len() - 1] == (Layer {
                n,
                mua,
                mus,
                g,
                d,
                z0: 0,
                z1: 0,
                cos_crit0: 0,
                cos_crit1: 0,
            }),
            forall|i: int|
                0 <= i < old(self).layers.len() ==> final(self).layers[i] == old(self).layers[i],
            final(self).dz == old(self).dz,
            final(self).dr == old(self).dr,
            final(self).da == old(self).da,
            final(self).nz == old(self).nz,
            final(self).nr == old(self).nr,
            final(self).na == old(self).na,
            final(self).nt == old(self).nt,
            final(self).wth == old(self).wth,
            final(self).chance == old(self).chance,
            final(self).alpha == old(self).alpha,
    {
        let layer = Layer::new(n, mua, mus, g, d);
        self.layers.push(layer);
    }

    /// Walk the stack accumulating thickness: each internal layer's
    /// vertical extent starts where the previous one ended, and the two
    /// ambient layers' thicknesses stay out of the running sum.
    pub fn update_layer_boundaries(&mut self)
        ensures
            final(self).layers.len() == old(self).layers.len(),
            forall|i: int|
                0 <= i < old(self).layers.len() ==> {
                    &&& same_but_z(#[trigger] final(self).layers[i], old(self).layers[i])
                    &&& final(self).layers[i].z0 as int == zacc(old(self).layers@, i)
                    &&& final(self).layers[i].z1 as int == fx_add_s(
                        zacc(old(self).layers@, i),
                        old(self).layers[i].d as int,
                    )
                },
            final(self).dz == old(self).dz,
            final(self).dr == old(self).dr,
            final(self).da == old(self).da,
            final(self).nz == old(self).nz,
            final(self).nr == old(self).nr,
            final(self).na == old(self).na,
            final(self).nt == old(self).nt,
            final(self).wth == old(self).wth,
            final(self).chance == old(self).chance,
            final(self).alpha == old(self).alpha,
    {
        let n: usize = self.layers.len();
        let mut z: i64 = 0;
        let mut i: usize = 0;
        while i < n
            invariant
                n == self.layers.len(),
                n == old(self).layers.len(),
                0 <= i <= n,
                i < n ==> z as int == zacc(old(self).layers@, i as int),
                forall|j: int| i <= j < n ==> #[trigger] self.layers[j] == old(self).layers[j],
                forall|j: int|
                    0 <= j < i ==> {
                        &&& same_but_z(#[trigger] self.layers[j], old(self).layers[j])
                        &&& self.layers[j].z0 as int == zacc(old(self).layers@, j)
                        &&& self.layers[j].z1 as int == fx_add_s(
                            zacc(old(self).layers@, j),
                            old(self).layers[j].d as int,
                        )
                    },
                self.dz == old(self).dz,
                self.dr == old(self).dr,
                self.da == old(self).da,
                self.nz == old(self).nz,
                self.nr == old(self).nr,
                self.na == old(self).na,
                self.nt == old(self).nt,
                self.wth == old(self).wth,
                self.chance == old(self).chance,
                self.alpha == old(self).alpha,
            decreases n - i,
        {
            let mut l: Layer = self.layers[i];
            l.z0 = z;
            let z1: i64 = fx_add(z, l.d);
            l.z1 = z1;
            self.layers.set(i, l);
            if i >= 1 && i + 1 < n {
                z = z1;
            }
            i = i + 1;
        }
    }

    /// Derive, for every internal layer, the critical cosines against
    /// its two neighbours.
    pub fn update_cos_crit(&mut self)
        requires
            old(self).layers.len() >= 3,
            forall|i: int|
                0 <= i < old(self).layers.len() ==> (#[trigger] old(self).layers[i].n) >= 1,
        ensures
            final(self).layers.len() == old(self).layers.len(),
            final(self).layers[0] == old(self).layers[0],
            final(self).layers[old(self).layers.len() - 1] == old(self).layers[old(
                self,
            ).layers.len() - 1],
            forall|i: int|
                1 <= i < old(self).layers.len() - 1 ==> {
                    &&& same_but_crit(#[trigger] final(self).layers[i], old(self).layers[i])
                    &&& final(self).layers[i].cos_crit0 as int == cos_crit_s(
                        old(self).layers[i].n as int,
                        old(self).layers[i - 1].n as int,
                    )
                    &&& final(self).layers[i].cos_crit1 as int == cos_crit_s(
                        old(self).layers[i].n as int,
                        old(self).layers[i + 1].n as int,
                    )
                    &&& 0 <= final(self).layers[i].cos_crit0 <= FX_ONE
                    &&& 0 <= final(self).layers[i].cos_crit1 <= FX_ONE
                },
            final(self).dz == old(self).dz,
            final(self).dr == old(self).dr,
            final(self).da == old(self).da,
            final(self).nz == old(self).nz,
            final(self).nr == old(self).nr,
            final(self).na == old(self).na,
            final(self).nt == old(self).nt,
            final(self).wth == old(self).wth,
            final(self).chance == old(self).chance,
            final(self).alpha == old(self).alpha,
    {
        let n: usize = self.layers.len();
        let mut i: usize = 1;
        while i < n - 1
            invariant
                n == self.layers.len(),
                n == old(self).layers.len(),
                n >= 3,
                1 <= i <= n - 1,
                forall|j: int|
                    0 <= j < old(self).layers.len() ==> (#[trigger] old(self).layers[j].n) >= 1,
                forall|j: int| i <= j < n ==> #[trigger] self.layers[j] == old(self).layers[j],
                self.layers[0] == old(self).layers[0],
                forall|j: int|
                    1 <= j < i ==> {
                        &&& same_but_crit(#[trigger] self.layers[j], old(self).layers[j])
                        &&& self.layers[j].cos_crit0 as int == cos_crit_s(
                            old(self).layers[j].n as int,
                            old(self).layers[j - 1].n as int,
                        )
                        &&& self.layers[j].cos_crit1 as int == cos_crit_s(
                            old(self).layers[j].n as int,
                            old(self).layers[j + 1].n as int,
                        )
                        &&& 0 <= self.layers[j].cos_crit0 <= FX_ONE
                        &&& 0 <= self.layers[j].cos_crit1 <= FX_ONE
                    },
                self.dz == old(self).dz,
                self.dr == old(self).dr,
                self.da == old(self).da,
                self.nz == old(self).nz,
                self.nr == old(self).nr,
                self.na == old(self).na,
                self.nt == old(self).nt,
                self.wth == old(self).wth,
                self.chance == old(self).chance,
                self.alpha == old(self).alpha,
            decreases n - 1 - i,
        {
            let n_above: i64 = self.layers[i - 1].n;
            let n_below: i64 = self.layers[i + 1].n;
            let mut l: Layer = self.layers[i];
            l.cos_crit0 = cos_crit_of(l.n, n_above);
            l.cos_crit1 = cos_crit_of(l.n, n_below);
            self.layers.set(i, l);
            i = i + 1;
        }
    }
}

} // verus!
