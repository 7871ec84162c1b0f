//! The vocoder engine: two filter banks (carrier and modulator), per-band
//! scratch blocks, and the per-block pipeline
//! filter -> envelope -> modulate -> mix -> makeup gain.

use vstd::prelude::*;

use crate::biquad_filter::BiquadFilter;
use crate::biquad_filter::FilterModel;
use crate::biquad_filter::bandpass_model;
use crate::biquad_filter::filter_run_out;
use crate::biquad_filter::filter_run_state;
use crate::biquad_filter::fresh_filter_model;
use crate::errors::VocoderError;
use crate::fixed::FX_SCALE;
use crate::fixed::fx_add;
use crate::fixed::fx_div;
use crate::fixed::fx_ints;
use crate::fixed::fx_mul;
use crate::fixed::spec_fx_add;
use crate::fixed::spec_fx_div;
use crate::fixed::spec_fx_mul;

verus! {

/// Fixed block size of the stream: every buffer handed to [`Vocoder::generate`]
/// holds exactly this many samples.
pub const FRAMES: usize = 256;

/// Most bands an engine will accept; keeps the per-band gain arithmetic in
/// range.
pub const MAX_BANDS: usize = 65535;

/// Makeup gain applied to the mixed output, divided by the band count;
/// compensates the cumulative attenuation of the overlapping bands.
pub const MAKEUP_GAIN: i64 = 20;

/// The tuning of one band's pair of filters: the pre-warped center `w0`
/// (tangent of pi times center frequency over sampling rate, fixed point)
/// and the quality factor `q` (already widened, see [`crate::bands`]).
pub struct BandTuning {
    pub w0: i64,
    pub q: i64,
}

/// The running peak of the positive samples among the first `k` of a block.
pub open spec fn env_pre(s: Seq<int>, k: int) -> int
    decreases k,
{
    if k <= 0 {
        0
    } else {
        let e = env_pre(s, k - 1);
        if s[k - 1] > e {
            s[k - 1]
        } else {
            e
        }
    }
}

/// The envelope of a block: its peak positive sample, or zero for a block
/// with no positive sample.
pub open spec fn envelope_of(s: Seq<int>) -> int {
    env_pre(s, s.len() as int)
}

/// Every sample of a block scaled by one envelope value.
pub open spec fn scale_block(s: Seq<int>, e: int) -> Seq<int> {
    s.map(|i: int, v: int| spec_fx_mul(v, e))
}

/// Sample-wise saturating sum of two blocks (the second indexed by the
/// first's length).
pub open spec fn add_block(a: Seq<int>, b: Seq<int>) -> Seq<int> {
    Seq::new(a.len(), |i: int| spec_fx_add(a[i], b[i]))
}

/// Accumulate a sequence of band blocks into a base block, band by band in
/// order (saturating addition is not associative, so the order is part of
/// the meaning).
pub open spec fn mix_blocks(bands: Seq<Seq<int>>, base: Seq<int>) -> Seq<int>
    decreases bands.len(),
{
    if bands.len() == 0 {
        base
    } else {
        mix_blocks(bands.subrange(1, bands.len() as int), add_block(base, bands[0]))
    }
}

/// One band's contribution: the carrier block filtered through the band's
/// carrier filter, scaled by the envelope of the modulator block filtered
/// through the band's modulator filter.
pub open spec fn scaled_band(cm: FilterModel, mm: FilterModel, mo: Seq<int>, ca: Seq<int>) -> Seq<
    int,
> {
    scale_block(filter_run_out(cm, ca), envelope_of(filter_run_out(mm, mo)))
}

/// All band contributions of one block, in band order.
pub open spec fn scaled_bands(
    cms: Seq<FilterModel>,
    mms: Seq<FilterModel>,
    mo: Seq<int>,
    ca: Seq<int>,
) -> Seq<Seq<int>> {
    Seq::new(cms.len(), |i: int| scaled_band(cms[i], mms[i], mo, ca))
}

/// The whole per-block pipeline: band contributions accumulated onto the
/// caller's output block, then scaled by the makeup gain.
pub open spec fn generate_out(
    cms: Seq<FilterModel>,
    mms: Seq<FilterModel>,
    gain: int,
    out0: Seq<int>,
    mo: Seq<int>,
    ca: Seq<int>,
) -> Seq<int> {
    scale_block(mix_blocks(scaled_bands(cms, mms, mo, ca), out0), gain)
}

/// Each filter model advanced by one input block.
pub open spec fn advanced_models(ms: Seq<FilterModel>, input: Seq<int>) -> Seq<FilterModel> {
    Seq::new(ms.len(), |i: int| filter_run_state(ms[i], input))
}

/// The filter models a bank is built with: fresh filters configured from
/// the given tunings.
pub open spec fn tuned_models(ts: Seq<BandTuning>) -> Seq<FilterModel> {
    Seq::new(ts.len(), |i: int| bandpass_model(fresh_filter_model(), ts[i].w0 as int, ts[i].q as int))
}

pub open spec fn tunings_valid(ts: Seq<BandTuning>) -> bool {
    forall|i: int| 0 <= i < ts.len() ==> (#[trigger] ts[i]).w0 > 0 && ts[i].q > 0
}

proof fn lemma_env_pre_zero(s: Seq<int>, k: int)
    requires
        crate::biquad_filter::seq_all_zero(s),
        k <= s.len(),
    ensures
        env_pre(s, k) == 0,
    decreases k,
{
    if k > 0 {
        lemma_env_pre_zero(s, k - 1);
    }
}

proof fn lemma_mix_zero(bands: Seq<Seq<int>>, base: Seq<int>)
    requires
        forall|j: int|
            0 <= j < bands.len() ==> (#[trigger] bands[j]).len() == base.len()
                && crate::biquad_filter::seq_all_zero(bands[j]),
        crate::biquad_filter::seq_all_zero(base),
    ensures
        mix_blocks(bands, base).len() == base.len(),
        crate::biquad_filter::seq_all_zero(mix_blocks(bands, base)),
    decreases bands.len(),
{
    if bands.len() > 0 {
        let acc = add_block(base, bands[0]);
        assert(crate::biquad_filter::seq_all_zero(acc));
        lemma_mix_zero(bands.subrange(1, bands.len() as int), acc);
    }
}

/// Envelope gating: with every modulator filter at rest, an all-zero
/// modulator block and a cleared output block yield an all-zero output,
/// whatever the carrier block and the carrier filters hold.
pub proof fn lemma_zero_modulator_silences_output(
    cms: Seq<FilterModel>,
    mms: Seq<FilterModel>,
    gain: int,
    out0: Seq<int>,
    mo: Seq<int>,
    ca: Seq<int>,
)
    requires
        mms.len() == cms.len(),
        forall|i: int| 0 <= i < mms.len() ==> crate::biquad_filter::zero_state(#[trigger] mms[i]),
        crate::biquad_filter::seq_all_zero(mo),
        crate::biquad_filter::seq_all_zero(out0),
        ca.len() == out0.len(),
    ensures
        crate::biquad_filter::seq_all_zero(generate_out(cms, mms, gain, out0, mo, ca)),
{
    let sb = scaled_bands(cms, mms, mo, ca);
    assert forall|j: int| 0 <= j < sb.len() implies (#[trigger] sb[j]).len() == out0.len()
        && crate::biquad_filter::seq_all_zero(sb[j]) by {
        crate::biquad_filter::lemma_zero_input_zero_output(mms[j], mo);
        lemma_env_pre_zero(
            filter_run_out(mms[j], mo),
            filter_run_out(mms[j], mo).len() as int,
        );
        crate::biquad_filter::lemma_filter_run_len(mms[j], mo);
        crate::biquad_filter::lemma_filter_run_len(cms[j], ca);
        assert(envelope_of(filter_run_out(mms[j], mo)) == 0);
        assert forall|m: int| 0 <= m < sb[j].len() implies sb[j][m] == 0 by {
            assert(sb[j][m] == spec_fx_mul(filter_run_out(cms[j], ca)[m], 0));
            assert(filter_run_out(cms[j], ca)[m] * 0 == 0);
        }
    }
    lemma_mix_zero(sb, out0);
    let mixed = mix_blocks(sb, out0);
    assert forall|m: int| 0 <= m < generate_out(cms, mms, gain, out0, mo, ca).len() implies
        generate_out(cms, mms, gain, out0, mo, ca)[m] == 0 by {
        assert(generate_out(cms, mms, gain, out0, mo, ca)[m] == spec_fx_mul(mixed[m], gain));
        assert(mixed[m] * gain == 0);
    }
}

/// A block of `FRAMES` copies of one sample value; the shape every buffer
/// of the stream has.
pub fn block_of(value: i64) -> (b: Vec<i64>)
    ensures
        b@.len() == FRAMES,
        forall|j: int| 0 <= j < FRAMES ==> b@[j] == value,
{
    let mut b: Vec<i64> = Vec::new();
    let mut k: usize = 0;
    while k < FRAMES
        invariant
            k <= FRAMES,
            b@.len() == k,
            forall|j: int| 0 <= j < k ==> b@[j] == value,
        decreases FRAMES - k,
    {
        b.push(value);
        k = k + 1;
    }
    b
}

/// The peak positive sample of a block, zero if none is positive.
pub fn envelope(block: &Vec<i64>) -> (e: i64)
    ensures
        e as int == envelope_of(fx_ints(block@)),
{
    let mut e: i64 = 0;
    let mut k: usize = 0;
    while k < block.len()
        invariant
            k <= block@.len(),
            e as int == env_pre(fx_ints(block@), k as int),
        decreases block@.len() - k,
    {
        let v = block[k];
        if v > e {
            e = v;
        }
        k = k + 1;
    }
    e
}

fn build_bank(sample_rate: u32, tunings: &Vec<BandTuning>) -> (bank: Vec<BiquadFilter>)
    requires
        tunings_valid(tunings@),
    ensures
        bank@.len() == tunings@.len(),
        forall|i: int|
            0 <= i < tunings@.len() ==> (#[trigger] bank@[i]).model() == tuned_models(tunings@)[i],
        forall|i: int| 0 <= i < tunings@.len() ==> (#[trigger] bank@[i]).rate() == sample_rate,
{
    let n = tunings.len();
    let mut bank: Vec<BiquadFilter> = Vec::new();
    let mut i: usize = 0;
    while i < n
        invariant
            i <= n,
            n == tunings@.len(),
            tunings_valid(tunings@),
            bank@.len() == i,
            forall|j: int|
                0 <= j < i ==> (#[trigger] bank@[j]).model() == tuned_models(tunings@)[j],
            forall|j: int| 0 <= j < i ==> (#[trigger] bank@[j]).rate() == sample_rate,
        decreases n - i,
    {
        let mut f = BiquadFilter::new(sample_rate);
        f.set_bandpass(tunings[i].w0, tunings[i].q);
        bank.push(f);
        i = i + 1;
    }
    bank
}

fn scratch_rows(n: usize) -> (rows: Vec<Vec<i64>>)
    ensures
        rows@.len() == n,
        forall|i: int| 0 <= i < n ==> (#[trigger] rows@[i])@.len() == FRAMES,
{
    let mut rows: Vec<Vec<i64>> = Vec::new();
    let mut i: usize = 0;
    while i < n
        invariant
            i <= n,
            rows@.len() == i,
            forall|j: int| 0 <= j < i ==> (#[trigger] rows@[j])@.len() == FRAMES,
        decreases n - i,
    {
        rows.push(block_of(0));
        i = i + 1;
    }
    rows
}

/// The vocoder engine. It owns one bandpass filter per band per signal
/// path and two per-band scratch blocks reused every call.
pub struct Vocoder {
    sample_rate: u32,
    carrier_filters: Vec<BiquadFilter>,
    modulator_filters: Vec<BiquadFilter>,
    carrier_filtered: Vec<Vec<i64>>,
    modulator_filtered: Vec<Vec<i64>>,
    gain: i64,
}

impl Vocoder {
    pub closed spec fn carrier_models(self) -> Seq<FilterModel> {
        self.carrier_filters@.map(|i: int, f: BiquadFilter| f.model())
    }

    pub closed spec fn modulator_models(self) -> Seq<FilterModel> {
        self.modulator_filters@.map(|i: int, f: BiquadFilter| f.model())
    }

    pub closed spec fn bands(self) -> nat {
        self.carrier_filters@.len()
    }

    pub closed spec fn gain_model(self) -> int {
        self.gain as int
    }

    pub closed spec fn rate(self) -> u32 {
        self.sample_rate
    }

    /// The engine's structural invariant: both banks and both scratch
    /// areas have the same band count, and every scratch block spans
    /// exactly one frame block.
    pub closed spec fn wf(self) -> bool {
        &&& self.modulator_filters@.len() == self.carrier_filters@.len()
        &&& self.carrier_filtered@.len() == self.carrier_filters@.len()
        &&& self.modulator_filtered@.len() == self.carrier_filters@.len()
        &&& forall|i: int|
            0 <= i < self.carrier_filtered@.len() ==> (#[trigger] self.carrier_filtered@[i])@.len()
                == FRAMES
        &&& forall|i: int|
            0 <= i < self.modulator_filtered@.len() ==> (
            #[trigger] self.modulator_filtered@[i])@.len() == FRAMES
    }

    /// Build an engine for a sampling rate from one tuning per band; both
    /// banks are built identically from it, so a band index means the same
    /// frequency region on both signal paths. A tuning list that is empty,
    /// oversized, or holds a non-positive `w0` or `q` is rejected whole.
    pub fn new(sample_rate: u32, tunings: Vec<BandTuning>) -> (r: Result<Vocoder, VocoderError>)
        ensures
            r is Ok <==> (1 <= tunings@.len() <= MAX_BANDS && tunings_valid(tunings@)),
            r is Err ==> r == Err::<Vocoder, VocoderError>(VocoderError::InvalidBandConfig),
            r is Ok ==> (r->Ok_0).wf(),
            r is Ok ==> (r->Ok_0).bands() == tunings@.len(),
            r is Ok ==> (r->Ok_0).rate() == sample_rate,
            r is Ok ==> (r->Ok_0).carrier_models() == tuned_models(tunings@),
            r is Ok ==> (r->Ok_0).modulator_models() == tuned_models(tunings@),
            r is Ok ==> (r->Ok_0).gain_model() == spec_fx_div(
                (MAKEUP_GAIN as int) * (FX_SCALE as int),
                tunings@.len() * (FX_SCALE as int),
            ),
    {
        let n = tunings.len();
        if n == 0 || n > MAX_BANDS {
            return Err(VocoderError::InvalidBandConfig);
        }
        let mut i: usize = 0;
        while i < n
            invariant
                i <= n,
                n == tunings@.len(),
                forall|j: int| 0 <= j < i ==> (#[trigger] tunings@[j]).w0 > 0 && tunings@[j].q > 0,
            decreases n - i,
        {
            if tunings[i].w0 <= 0 || tunings[i].q <= 0 {
                return Err(VocoderError::InvalidBandConfig);
            }
            i = i + 1;
        }
        let carrier_filters = build_bank(sample_rate, &tunings);
        let modulator_filters = build_bank(sample_rate, &tunings);
        let carrier_filtered = scratch_rows(n);
        let modulator_filtered = scratch_rows(n);
        let gain = fx_div(MAKEUP_GAIN * FX_SCALE, (n as i64) * FX_SCALE);
        let v = Vocoder {
            sample_rate,
            carrier_filters,
            modulator_filters,
            carrier_filtered,
            modulator_filtered,
            gain,
        };
        proof {
            assert(v.carrier_models() =~= tuned_models(tunings@));
            assert(v.modulator_models() =~= tuned_models(tunings@));
        }
        Ok(v)
    }

    /// The number of bands the engine was built with.
    pub fn band_count(&self) -> (n: usize)
        ensures
            n as nat == self.bands(),
    {
        self.carrier_filters.len()
    }

    /// Process one block: split carrier and modulator into bands, take each
    /// modulator band's peak positive amplitude as its envelope, scale the
    /// paired carrier band by it, accumulate every scaled band onto the
    /// caller's output block (which is added to, not overwritten), and scale
    /// the result by the makeup gain over the band count. All three buffers
    /// must hold exactly one frame block; a mismatch is rejected with the
    /// engine and output untouched.
    #[verifier::rlimit(60)]
    #[verifier::loop_isolation(false)]
    pub fn generate(&mut self, output: &mut Vec<i64>, modulator: &Vec<i64>, carrier: &Vec<i64>) -> (r:
        Result<(), VocoderError>)
        requires
            old(self).wf(),
        ensures
            r is Ok <==> (old(output)@.len() == FRAMES && modulator@.len() == FRAMES
                && carrier@.len() == FRAMES),
            r is Err ==> r == Err::<(), VocoderError>(VocoderError::LengthMismatch) && *final(self)
                == *old(self) && final(output)@ == old(output)@,
            final(self).wf(),
            final(self).bands() == old(self).bands(),
            final(self).gain_model() == old(self).gain_model(),
            final(self).rate() == old(self).rate(),
            final(output)@.len() == old(output)@.len(),
            r is Ok ==> fx_ints(final(output)@) == generate_out(
                old(self).carrier_models(),
                old(self).modulator_models(),
                old(self).gain_model(),
                fx_ints(old(output)@),
                fx_ints(modulator@),
                fx_ints(carrier@),
            ),
            r is Ok ==> final(self).carrier_models() == advanced_models(
                old(self).carrier_models(),
                fx_ints(carrier@),
            ),
            r is Ok ==> final(self).modulator_models() == advanced_models(
                old(self).modulator_models(),
                fx_ints(modulator@),
            ),
    {
        if output.len() != FRAMES || modulator.len() != FRAMES || carrier.len() != FRAMES {
            return Err(VocoderError::LengthMismatch);
        }
        let n = self.carrier_filters.len();
        let ghost cms0 = self.carrier_models();
        let ghost mms0 = self.modulator_models();
        let ghost mo = fx_ints(modulator@);
        let ghost ca = fx_ints(carrier@);
        let ghost out0 = fx_ints(output@);

        // Filter the modulator into its bands.
        let mut i: usize = 0;
        while i < n
            invariant
                i <= n,
                n == cms0.len(),
                self.carrier_filters@ == old(self).carrier_filters@,
                self.carrier_filtered@ == old(self).carrier_filtered@,
                self.gain == old(self).gain,
                self.sample_rate == old(self).sample_rate,
                self.modulator_filters@.len() == n,
                self.modulator_filtered@.len() == n,
                forall|j: int|
                    i <= j < n ==> self.modulator_filters@[j] == old(self).modulator_filters@[j],
                forall|j: int|
                    0 <= j < i ==> (#[trigger] self.modulator_filters@[j]).model()
                        == filter_run_state(mms0[j], mo),
                forall|j: int|
                    0 <= j < i ==> fx_ints((#[trigger] self.modulator_filtered@[j])@)
                        == filter_run_out(mms0[j], mo),
                forall|j: int|
                    0 <= j < n ==> (#[trigger] self.modulator_filtered@[j])@.len() == FRAMES,
            decreases n - i,
        {
            let f = &mut self.modulator_filters[i];
            let row = &mut self.modulator_filtered[i];
            let res = f.filter(modulator, row);
            proof {
                assert(res is Ok);
            }
            i = i + 1;
        }

        // Filter the carrier into its bands.
        let mut i: usize = 0;
        while i < n
            invariant
                i <= n,
                n == cms0.len(),
                self.gain == old(self).gain,
                self.sample_rate == old(self).sample_rate,
                self.carrier_filters@.len() == n,
                self.carrier_filtered@.len() == n,
                self.modulator_filters@.len() == n,
                self.modulator_filtered@.len() == n,
                forall|j: int|
                    0 <= j < n ==> (#[trigger] self.modulator_filters@[j]).model()
                        == filter_run_state(mms0[j], mo),
                forall|j: int|
                    0 <= j < n ==> fx_ints((#[trigger] self.modulator_filtered@[j])@)
                        == filter_run_out(mms0[j], mo),
                forall|j: int|
                    0 <= j < n ==> (#[trigger] self.modulator_filtered@[j])@.len() == FRAMES,
                forall|j: int|
                    i <= j < n ==> self.carrier_filters@[j] == old(self).carrier_filters@[j],
                forall|j: int|
                    0 <= j < i ==> (#[trigger] self.carrier_filters@[j]).model()
                        == filter_run_state(cms0[j], ca),
                forall|j: int|
                    0 <= j < i ==> fx_ints((#[trigger] self.carrier_filtered@[j])@)
                        == filter_run_out(cms0[j], ca),
                forall|j: int|
                    0 <= j < n ==> (#[trigger] self.carrier_filtered@[j])@.len() == FRAMES,
            decreases n - i,
        {
            let f = &mut self.carrier_filters[i];
            let row = &mut self.carrier_filtered[i];
            let res = f.filter(carrier, row);
            proof {
                assert(res is Ok);
            }
            i = i + 1;
        }

        let ghost sb = scaled_bands(cms0, mms0, mo, ca);

        // Scale each carrier band by its modulator band's envelope.
        let mut i: usize = 0;
        while i < n
            invariant
                i <= n,
                n == cms0.len(),
                self.gain == old(self).gain,
                self.sample_rate == old(self).sample_rate,
                self.carrier_filters@.len() == n,
                self.carrier_filtered@.len() == n,
                self.modulator_filters@.len() == n,
                self.modulator_filtered@.len() == n,
                forall|j: int|
                    0 <= j < n ==> (#[trigger] self.modulator_filters@[j]).model()
                        == filter_run_state(mms0[j], mo),
                forall|j: int|
                    0 <= j < n ==> fx_ints((#[trigger] self.modulator_filtered@[j])@)
                        == filter_run_out(mms0[j], mo),
                forall|j: int|
                    0 <= j < n ==> (#[trigger] self.modulator_filtered@[j])@.len() == FRAMES,
                forall|j: int|
                    0 <= j < n ==> (#[trigger] self.carrier_filters@[j]).model()
                        == filter_run_state(cms0[j], ca),
                forall|j: int|
                    0 <= j < i ==> fx_ints((#[trigger] self.carrier_filtered@[j])@) == sb[j],
                forall|j: int|
                    i <= j < n ==> fx_ints((#[trigger] self.carrier_filtered@[j])@)
                        == filter_run_out(cms0[j], ca),
                forall|j: int|
                    0 <= j < n ==> (#[trigger] self.carrier_filtered@[j])@.len() == FRAMES,
            decreases n - i,
        {
            let e = envelope(&self.modulator_filtered[i]);
            let row = &mut self.carrier_filtered[i];
            let ghost row0 = row@;
            let mut k: usize = 0;
            while k < FRAMES
                invariant
                    k <= FRAMES,
                    row@.len() == FRAMES,
                    row0.len() == FRAMES,
                    forall|m: int|
                        0 <= m < k ==> (#[trigger] row@[m]) as int == spec_fx_mul(
                            row0[m] as int,
                            e as int,
                        ),
                    forall|m: int| k <= m < FRAMES ==> (#[trigger] row@[m]) == row0[m],
                decreases FRAMES - k,
            {
                let v = row[k];
                row[k] = fx_mul(v, e);
                k = k + 1;
            }
            proof {
                assert(fx_ints(row@) =~= scale_block(fx_ints(row0), e as int));
                assert(fx_ints(row0) == filter_run_out(cms0[i as int], ca));
                assert(e as int == envelope_of(filter_run_out(mms0[i as int], mo)));
                assert(fx_ints(row@) == sb[i as int]);
            }
            i = i + 1;
        }

        // Mix every scaled band onto the caller's output block.
        proof {
            assert(sb.subrange(0, n as int) =~= sb);
        }
        let mut i: usize = 0;
        while i < n
            invariant
                i <= n,
                n == cms0.len(),
                self.gain == old(self).gain,
                self.sample_rate == old(self).sample_rate,
                self.carrier_filters@.len() == n,
                self.carrier_filtered@.len() == n,
                self.modulator_filters@.len() == n,
                self.modulator_filtered@.len() == n,
                forall|j: int|
                    0 <= j < n ==> (#[trigger] self.modulator_filters@[j]).model()
                        == filter_run_state(mms0[j], mo),
                forall|j: int|
                    0 <= j < n ==> (#[trigger] self.modulator_filtered@[j])@.len() == FRAMES,
                forall|j: int|
                    0 <= j < n ==> (#[trigger] self.carrier_filters@[j]).model()
                        == filter_run_state(cms0[j], ca),
                forall|j: int|
                    0 <= j < n ==> fx_ints((#[trigger] self.carrier_filtered@[j])@) == sb[j],
                forall|j: int|
                    0 <= j < n ==> (#[trigger] self.carrier_filtered@[j])@.len() == FRAMES,
                output@.len() == FRAMES,
                mix_blocks(sb.subrange(i as int, n as int), fx_ints(output@)) == mix_blocks(
                    sb,
                    out0,
                ),
            decreases n - i,
        {
            let row = &self.carrier_filtered[i];
            let ghost prev = fx_ints(output@);
            let mut k: usize = 0;
            while k < FRAMES
                invariant
                    k <= FRAMES,
                    output@.len() == FRAMES,
                    row@.len() == FRAMES,
                    prev.len() == FRAMES,
                    forall|m: int|
                        0 <= m < k ==> (#[trigger] output@[m]) as int == spec_fx_add(
                            prev[m],
                            row@[m] as int,
                        ),
                    forall|m: int| k <= m < FRAMES ==> (#[trigger] output@[m]) as int == prev[m],
                decreases FRAMES - k,
            {
                let cur = output[k];
                let v = row[k];
                output[k] = fx_add(cur, v);
                k = k + 1;
            }
            proof {
                assert(fx_ints(output@) =~= add_block(prev, fx_ints(row@)));
                assert(fx_ints(row@) == sb[i as int]);
                assert(sb.subrange(i as int, n as int)[0] == sb[i as int]);
                assert(sb.subrange(i as int, n as int).subrange(
                    1,
                    n - i,
                ) =~= sb.subrange(i as int + 1, n as int));
            }
            i = i + 1;
        }
        proof {
            assert(sb.subrange(n as int, n as int) =~= Seq::<Seq<int>>::empty());
            assert(fx_ints(output@) == mix_blocks(sb, out0));
        }

        // Apply the makeup gain.
        let ghost pre = fx_ints(output@);
        let g = self.gain;
        let mut k: usize = 0;
        while k < FRAMES
            invariant
                k <= FRAMES,
                output@.len() == FRAMES,
                pre.len() == FRAMES,
                g == self.gain,
                forall|m: int|
                    0 <= m < k ==> (#[trigger] output@[m]) as int == spec_fx_mul(
                        pre[m],
                        g as int,
                    ),
                forall|m: int| k <= m < FRAMES ==> (#[trigger] output@[m]) as int == pre[m],
            decreases FRAMES - k,
        {
            let cur = output[k];
            output[k] = fx_mul(cur, g);
            k = k + 1;
        }
        proof {
            assert(fx_ints(output@) =~= scale_block(pre, self.gain as int));
            assert(self.carrier_models() =~= advanced_models(cms0, ca));
            assert(self.modulator_models() =~= advanced_models(mms0, mo));
        }
        Ok(())
    }
}

} // verus!
