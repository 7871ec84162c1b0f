//! Constant-Q partitioning of a frequency range.
//!
//! A range `[low, high)` is split into `n` bins whose edges grow
//! geometrically by a caller-supplied ratio (the n-th root of `high / low`,
//! so the bins are equal-width in log-frequency). Each bin yields a center
//! frequency and a bandwidth-derived quality factor, widened by two to
//! close the audible gaps between adjacent bandpass skirts.

use vstd::prelude::*;

use crate::errors::VocoderError;
use crate::fixed::FX_SCALE;
use crate::fixed::fx_div;
use crate::fixed::fx_mul;
use crate::fixed::fx_sub;
use crate::fixed::spec_fx_div;
use crate::fixed::spec_fx_mul;
use crate::fixed::spec_fx_sub;

verus! {

/// One frequency band of the partition: its bin `[from, to)`, the bin's
/// center frequency `fc`, and the widened quality factor `q` its bandpass
/// filter is configured with. All values are fixed-point Hz.
#[derive(Clone, Copy, Debug, PartialEq, Eq, Structural)]
pub struct Band {
    pub from: i64,
    pub to: i64,
    pub fc: i64,
    pub q: i64,
}

/// The i-th geometric edge: `low` grown `i` times by `ratio` in fixed-point
/// multiplication.
pub open spec fn geo_edge(low: int, ratio: int, i: int) -> int
    decreases i,
{
    if i <= 0 {
        low
    } else {
        spec_fx_mul(geo_edge(low, ratio, i - 1), ratio)
    }
}

/// When a partition request is well formed: at least one band, a positive
/// ascending range, a ratio above one, and geometric edges that strictly
/// ascend and stay below the top of the range.
pub open spec fn band_layout_ok(low: int, high: int, n: int, ratio: int) -> bool {
    &&& 1 <= n
    &&& 0 < low
    &&& low < high
    &&& FX_SCALE < ratio
    &&& forall|i: int|
        0 <= i < n - 1 ==> (#[trigger] geo_edge(low, ratio, i)) < geo_edge(low, ratio, i + 1)
    &&& geo_edge(low, ratio, n - 1) < high
}

/// What the returned partition satisfies: the bins exactly tile
/// `[low, high)` edge to edge with no gaps or overlaps, and the center
/// frequencies strictly increase with the band index.
pub open spec fn band_layout_props(bands: Seq<Band>, low: int, high: int, n: int, ratio: int) -> bool {
    &&& bands.len() == n
    &&& forall|i: int| 0 <= i < n ==> (#[trigger] bands[i]).from as int == geo_edge(low, ratio, i)
    &&& forall|i: int|
        0 <= i < n - 1 ==> (#[trigger] bands[i]).to as int == geo_edge(low, ratio, i + 1)
    &&& bands[n - 1].to as int == high
    &&& forall|i: int| 0 <= i < n - 1 ==> (#[trigger] bands[i]).to == bands[i + 1].from
    &&& forall|i: int| 0 <= i < n ==> (#[trigger] bands[i]).from < bands[i].to
    &&& forall|i: int| 0 <= i < n - 1 ==> (#[trigger] bands[i]).fc < bands[i + 1].fc
    &&& forall|i: int|
        0 <= i < n ==> (#[trigger] bands[i]).fc as int == (bands[i].from as int + bands[i].to
            as int) / 2
    &&& forall|i: int|
        0 <= i < n ==> (#[trigger] bands[i]).q as int == spec_fx_mul(
            2 * (FX_SCALE as int),
            spec_fx_div(bands[i].fc as int, spec_fx_sub(bands[i].to as int, bands[i].from as int)),
        )
    &&& forall|i: int| 0 <= i < n ==> (#[trigger] bands[i]).fc > 0 && bands[i].q >= 0
}

/// Partition `[low, high)` logarithmically into `n` bands. `ratio` is the
/// per-bin growth factor, the n-th root of `high / low` in fixed point; the
/// caller derives it once from the range. A request whose edges fail to
/// ascend strictly up to `high` is rejected whole.
pub fn log_band_layout(low: i64, high: i64, n: usize, ratio: i64) -> (r: Result<
    Vec<Band>,
    VocoderError,
>)
    ensures
        r is Ok <==> band_layout_ok(low as int, high as int, n as int, ratio as int),
        r is Err ==> r == Err::<Vec<Band>, VocoderError>(VocoderError::InvalidBandConfig),
        r is Ok ==> band_layout_props(r->Ok_0@, low as int, high as int, n as int, ratio as int),
{
    if n == 0 || low <= 0 || high <= low || ratio <= FX_SCALE {
        return Err(VocoderError::InvalidBandConfig);
    }
    let mut bands: Vec<Band> = Vec::new();
    let mut from: i64 = low;
    let mut i: usize = 0;
    while i < n
        invariant
            0 < low,
            low < high,
            FX_SCALE < ratio,
            1 <= n,
            i <= n,
            from as int == geo_edge(low as int, ratio as int, i as int),
            from > 0,
            bands@.len() == i,
            forall|j: int|
                0 <= j < i ==> (#[trigger] bands@[j]).from as int == geo_edge(
                    low as int,
                    ratio as int,
                    j,
                ),
            forall|j: int|
                0 <= j < i && j < n - 1 ==> (#[trigger] bands@[j]).to as int == geo_edge(
                    low as int,
                    ratio as int,
                    j + 1,
                ),
            i == n ==> bands@[n - 1].to as int == high,
            forall|j: int| 0 <= j < i - 1 ==> (#[trigger] bands@[j]).to == bands@[j + 1].from,
            i < n ==> (i == 0 || bands@[i - 1].to == from),
            forall|j: int| 0 <= j < i ==> (#[trigger] bands@[j]).from < bands@[j].to,
            forall|j: int| 0 <= j < i - 1 ==> (#[trigger] bands@[j]).fc < bands@[j + 1].fc,
            forall|j: int|
                0 <= j < i ==> (#[trigger] bands@[j]).fc as int == (bands@[j].from as int
                    + bands@[j].to as int) / 2,
            forall|j: int|
                0 <= j < i ==> (#[trigger] bands@[j]).q as int == spec_fx_mul(
                    2 * (FX_SCALE as int),
                    spec_fx_div(
                        bands@[j].fc as int,
                        spec_fx_sub(bands@[j].to as int, bands@[j].from as int),
                    ),
                ),
            forall|j: int| 0 <= j < i ==> (#[trigger] bands@[j]).fc > 0 && bands@[j].q >= 0,
            forall|j: int|
                0 <= j < i && j < n - 1 ==> (#[trigger] geo_edge(low as int, ratio as int, j))
                    < geo_edge(low as int, ratio as int, j + 1),
            i == n ==> geo_edge(low as int, ratio as int, n - 1) < high,
        decreases n - i,
    {
        let geo_to = fx_mul(from, ratio);
        proof {
            assert(geo_to as int == geo_edge(low as int, ratio as int, i + 1));
            let p = from as int * ratio as int;
            assert(p >= 65537) by (nonlinear_arith)
                requires
                    from as int >= 1,
                    ratio as int >= 65537,
                    p == from as int * ratio as int,
            ;
            assert(crate::fixed::fx_tdiv(p, FX_SCALE as int) == p / (FX_SCALE as int));
            assert(p / (FX_SCALE as int) >= 1) by (nonlinear_arith)
                requires
                    p >= 65537,
            ;
            assert(geo_to > 0);
        }
        let to: i64 = if i == n - 1 {
            high
        } else {
            geo_to
        };
        if to <= from {
            return Err(VocoderError::InvalidBandConfig);
        }
        let fc: i64 = (((from as u64) + (to as u64)) / 2) as i64;
        proof {
            assert(fc as int == (from as int + to as int) / 2);
            assert(fc >= from);
            if i > 0 {
                let p = bands@[i as int - 1];
                assert(p.to == from);
                assert(p.fc as int == (p.from as int + p.to as int) / 2);
                assert(p.from as int + p.to as int + 2 <= from as int + to as int);
                assert((p.from as int + p.to as int + 2) / 2 == (p.from as int + p.to as int) / 2
                    + 1);
            }
        }
        let d = fx_sub(to, from);
        assert(d > 0);
        let qraw = fx_div(fc, d);
        assert(qraw >= 0);
        let q = fx_mul(2 * FX_SCALE, qraw);
        assert(q >= 0);
        bands.push(Band { from, to, fc, q });
        from = geo_to;
        i = i + 1;
    }
    Ok(bands)
}

} // verus!
