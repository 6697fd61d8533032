use vstd::prelude::*;
use crate::fixed::FX_ONE;
use crate::config::RunConfig;

verus! {

/// The mutable per-trajectory state of one photon packet: position and
/// its cached radial distance, unit direction, remaining weight, the
/// current step and the dimensionless optical depth carried over a
/// boundary split, the current layer with a snapshot of its optical
/// constants, the death flag and the scatter count. All continuous
/// quantities are Q32.32 fixed point.
pub struct PhotonPacket {
    pub x: i64,
    pub y: i64,
    pub z: i64,
    pub r: i64,
    pub ux: i64,
    pub uy: i64,
    pub uz: i64,
    pub weight: i64,
    pub step_size: i64,
    pub step_size_left: i64,
    pub layer: usize,
    pub dead: bool,
    pub scatters: u64,
    pub layer_mua: i64,
    pub layer_mus: i64,
    pub layer_z0: i64,
    pub layer_z1: i64,
    pub layer_g: i64,
}

/// A photon in a usable state against a configuration: its layer index
/// is internal, its vertical direction cosine and cached medium snapshot
/// are coherent, and its bookkeeping quantities are nonnegative.
pub open spec fn photon_wf(p: PhotonPacket, c: RunConfig) -> bool {
    &&& 1 <= p.layer < c.layers.len() - 1
    &&& -FX_ONE <= p.uz <= FX_ONE
    &&& p.weight >= 0
    &&& p.r >= 0
    &&& p.step_size_left >= 0
    &&& p.layer_mua == c.layers[p.layer as int].mua
    &&& p.layer_mus == c.layers[p.layer as int].mus
    &&& p.layer_z0 == c.layers[p.layer as int].z0
    &&& p.layer_z1 == c.layers[p.layer as int].z1
    &&& p.layer_g == c.layers[p.layer as int].g
}

impl PhotonPacket {
    /// A zeroed packet, to be initialized by the launch routine.
    pub fn new() -> (p: PhotonPacket)
        ensures
            p.x == 0,
            p.y == 0,
            p.z == 0,
            p.r == 0,
            p.ux == 0,
            p.uy == 0,
            p.uz == 0,
            p.weight == 0,
            p.step_size == 0,
            p.step_size_left == 0,
            p.layer == 0,
            !p.dead,
            p.scatters == 0,
            p.layer_mua == 0,
            p.layer_mus == 0,
            p.layer_z0 == 0,
            p.layer_z1 == 0,
            p.layer_g == 0,
    {
        PhotonPacket {
            x: 0,
            y: 0,
            z: 0,
            r: 0,
            ux: 0,
            uy: 0,
            uz: 0,
            weight: 0,
            step_size: 0,
            step_size_left: 0,
            layer: 0,
            dead: false,
            scatters: 0,
            layer_mua: 0,
            layer_mus: 0,
            layer_z0: 0,
            layer_z1: 0,
            layer_g: 0,
        }
    }
}

} // verus!
