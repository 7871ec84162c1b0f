//! A single second-order (biquad) IIR bandpass filter with persistent state
//! across successive blocks.
//!
//! The filter applies the direct-form recurrence
//! `y[n] = a0*x[n] + a1*x[n-1] + a2*x[n-2] - b1*y[n-1] - b2*y[n-2]`
//! to each sample of a block, seeding the two-sample history from the end of
//! the previous block, in saturating fixed-point arithmetic.

use vstd::prelude::*;

use crate::errors::VocoderError;
use crate::fixed::FX_SAT;
use crate::fixed::FX_SCALE;
use crate::fixed::fx_add;
use crate::fixed::fx_div;
use crate::fixed::fx_ints;
use crate::fixed::fx_mul;
use crate::fixed::fx_sub;
use crate::fixed::spec_fx_add;
use crate::fixed::spec_fx_div;
use crate::fixed::spec_fx_mul;
use crate::fixed::spec_fx_sub;

verus! {

/// The mathematical content of a filter: its five coefficients and the last
/// two input and output samples of the block most recently processed.
pub ghost struct FilterModel {
    pub a0: int,
    pub a1: int,
    pub a2: int,
    pub b1: int,
    pub b2: int,
    pub x1: int,
    pub x2: int,
    pub y1: int,
    pub y2: int,
}

/// One step of the direct-form recurrence, evaluated left to right exactly
/// as the executable code computes it.
pub open spec fn filter_step_out(m: FilterModel, x: int) -> int {
    spec_fx_sub(
        spec_fx_sub(
            spec_fx_add(
                spec_fx_add(spec_fx_mul(m.a0, x), spec_fx_mul(m.a1, m.x1)),
                spec_fx_mul(m.a2, m.x2),
            ),
            spec_fx_mul(m.b1, m.y1),
        ),
        spec_fx_mul(m.b2, m.y2),
    )
}

/// The filter after consuming one sample: history shifts by one, the
/// coefficients stay.
pub open spec fn filter_step_state(m: FilterModel, x: int) -> FilterModel {
    FilterModel { x2: m.x1, x1: x, y2: m.y1, y1: filter_step_out(m, x), ..m }
}

/// The output block produced by running the recurrence over a whole input
/// block, sample by sample.
pub open spec fn filter_run_out(m: FilterModel, input: Seq<int>) -> Seq<int>
    decreases input.len(),
{
    if input.len() == 0 {
        Seq::empty()
    } else {
        seq![filter_step_out(m, input[0])] + filter_run_out(
            filter_step_state(m, input[0]),
            input.subrange(1, input.len() as int),
        )
    }
}

/// The filter after running the recurrence over a whole input block.
pub open spec fn filter_run_state(m: FilterModel, input: Seq<int>) -> FilterModel
    decreases input.len(),
{
    if input.len() == 0 {
        m
    } else {
        filter_run_state(filter_step_state(m, input[0]), input.subrange(1, input.len() as int))
    }
}

pub proof fn lemma_filter_run_len(m: FilterModel, input: Seq<int>)
    ensures
        filter_run_out(m, input).len() == input.len(),
    decreases input.len(),
{
    if input.len() > 0 {
        lemma_filter_run_len(
            filter_step_state(m, input[0]),
            input.subrange(1, input.len() as int),
        );
    }
}

/// Running a block extended by one sample runs the block, then steps once
/// from the state the block left behind.
pub proof fn lemma_filter_run_snoc(m: FilterModel, s: Seq<int>, x: int)
    ensures
        filter_run_out(m, s.push(x)) == filter_run_out(m, s).push(
            filter_step_out(filter_run_state(m, s), x),
        ),
        filter_run_state(m, s.push(x)) == filter_step_state(filter_run_state(m, s), x),
    decreases s.len(),
{
    let sx = s.push(x);
    if s.len() == 0 {
        assert(sx[0] == x);
        assert(sx.subrange(1, sx.len() as int) =~= Seq::<int>::empty());
        assert(filter_run_state(filter_step_state(m, x), Seq::<int>::empty()) == filter_step_state(
            m,
            x,
        ));
        assert(filter_run_out(filter_step_state(m, x), Seq::<int>::empty()) =~= Seq::<
            int,
        >::empty());
        assert(filter_run_out(m, s.push(x)) =~= filter_run_out(m, s).push(
            filter_step_out(filter_run_state(m, s), x),
        ));
    } else {
        let t = s.subrange(1, s.len() as int);
        assert(sx[0] == s[0]);
        assert(sx.subrange(1, sx.len() as int) =~= t.push(x));
        lemma_filter_run_snoc(filter_step_state(m, s[0]), t, x);
        assert(filter_run_out(m, s.push(x)) =~= filter_run_out(m, s).push(
            filter_step_out(filter_run_state(m, s), x),
        ));
    }
}

/// State carry across block boundaries: filtering a block in one call is the
/// same as filtering it in two consecutive sub-blocks with the same filter,
/// for every split point.
pub proof fn lemma_filter_split(m: FilterModel, a: Seq<int>, b: Seq<int>)
    ensures
        filter_run_out(m, a + b) == filter_run_out(m, a) + filter_run_out(
            filter_run_state(m, a),
            b,
        ),
        filter_run_state(m, a + b) == filter_run_state(filter_run_state(m, a), b),
    decreases a.len(),
{
    if a.len() == 0 {
        assert(a + b =~= b);
        assert(filter_run_out(m, a) + filter_run_out(filter_run_state(m, a), b) =~= filter_run_out(
            m,
            b,
        ));
    } else {
        let ab = a + b;
        let t = a.subrange(1, a.len() as int);
        assert(ab[0] == a[0]);
        assert(ab.subrange(1, ab.len() as int) =~= t + b);
        lemma_filter_split(filter_step_state(m, a[0]), t, b);
        assert(filter_run_out(m, a + b) =~= filter_run_out(m, a) + filter_run_out(
            filter_run_state(m, a),
            b,
        ));
    }
}

pub open spec fn seq_all_zero(s: Seq<int>) -> bool {
    forall|j: int| 0 <= j < s.len() ==> s[j] == 0
}

pub open spec fn zero_state(m: FilterModel) -> bool {
    m.x1 == 0 && m.x2 == 0 && m.y1 == 0 && m.y2 == 0
}

/// Stability of the zero state: a filter whose history is all zero maps an
/// all-zero block (of any length) to an all-zero block and keeps its state
/// all zero, so it stays silent however long zeros are fed.
pub proof fn lemma_zero_input_zero_output(m: FilterModel, input: Seq<int>)
    requires
        zero_state(m),
        seq_all_zero(input),
    ensures
        seq_all_zero(filter_run_out(m, input)),
        filter_run_state(m, input) == m,
    decreases input.len(),
{
    if input.len() > 0 {
        let t = input.subrange(1, input.len() as int);
        assert(input[0] == 0);
        assert(filter_step_out(m, 0) == 0);
        assert(filter_step_state(m, 0) == m);
        lemma_zero_input_zero_output(m, t);
        lemma_filter_run_len(m, input);
        assert forall|j: int| 0 <= j < filter_run_out(m, input).len() implies filter_run_out(
            m,
            input,
        )[j] == 0 by {
            if j > 0 {
                assert(filter_run_out(m, input)[j] == filter_run_out(m, t)[j - 1]);
            }
        }
    }
}

/// The raw quality-scaled frequency term `w0 / q` of the bandpass design.
pub open spec fn bandpass_w0q(w0: int, q: int) -> int {
    spec_fx_div(w0, q)
}

/// The normalisation factor `1 / (1 + w0/q + w0^2)` of the bandpass design.
pub open spec fn bandpass_norm(w0: int, q: int) -> int {
    spec_fx_div(
        FX_SCALE as int,
        spec_fx_add(
            spec_fx_add(FX_SCALE as int, bandpass_w0q(w0, q)),
            spec_fx_mul(w0, w0),
        ),
    )
}

/// The feed-forward gain `(w0/q) * norm` of the bandpass design.
pub open spec fn bandpass_a0(w0: int, q: int) -> int {
    spec_fx_mul(bandpass_w0q(w0, q), bandpass_norm(w0, q))
}

/// The first feedback coefficient `2 * (w0^2 - 1) * norm`.
pub open spec fn bandpass_b1(w0: int, q: int) -> int {
    spec_fx_mul(
        spec_fx_mul(2 * (FX_SCALE as int), spec_fx_sub(spec_fx_mul(w0, w0), FX_SCALE as int)),
        bandpass_norm(w0, q),
    )
}

/// The second feedback coefficient `(1 - w0/q + w0^2) * norm`.
pub open spec fn bandpass_b2(w0: int, q: int) -> int {
    spec_fx_mul(
        spec_fx_add(spec_fx_sub(FX_SCALE as int, bandpass_w0q(w0, q)), spec_fx_mul(w0, w0)),
        bandpass_norm(w0, q),
    )
}

/// The filter model after a bandpass configuration: coefficients set from
/// the pre-warped center `w0` and quality `q`, history untouched.
pub open spec fn bandpass_model(m: FilterModel, w0: int, q: int) -> FilterModel {
    FilterModel {
        a0: bandpass_a0(w0, q),
        a1: 0,
        a2: -bandpass_a0(w0, q),
        b1: bandpass_b1(w0, q),
        b2: bandpass_b2(w0, q),
        ..m
    }
}

/// Bandpass shape at the spectrum's edges: the numerator of the transfer
/// function `a0 + a1 z^-1 + a2 z^-2`, evaluated at `z = 1` (DC) and at
/// `z = -1` (Nyquist), is exactly zero, so both edges are fully attenuated,
/// never above the response at the passband center.
pub proof fn lemma_bandpass_blocks_dc_and_nyquist(m: FilterModel, w0: int, q: int)
    ensures
        bandpass_model(m, w0, q).a1 == 0,
        bandpass_model(m, w0, q).a2 == -bandpass_model(m, w0, q).a0,
        bandpass_model(m, w0, q).a0 + bandpass_model(m, w0, q).a1 + bandpass_model(m, w0, q).a2
            == 0,
        bandpass_model(m, w0, q).a0 - bandpass_model(m, w0, q).a1 + bandpass_model(m, w0, q).a2
            == 0,
        w0 > 0 && q > 0 ==> bandpass_model(m, w0, q).a0 >= 0,
{
    if w0 > 0 && q > 0 {
        crate::fixed::lemma_abs_mul(bandpass_w0q(w0, q), bandpass_norm(w0, q));
    }
}

/// The model of a freshly constructed filter: pass-through coefficients
/// (unit `a0`, all else zero) and an all-zero history.
pub open spec fn fresh_filter_model() -> FilterModel {
    FilterModel {
        a0: FX_SCALE as int,
        a1: 0,
        a2: 0,
        b1: 0,
        b2: 0,
        x1: 0,
        x2: 0,
        y1: 0,
        y2: 0,
    }
}

/// A second-order bandpass filter over fixed-point samples. The history
/// fields always hold exactly the final two input and output samples of the
/// most recently processed block.
pub struct BiquadFilter {
    sample_rate: u32,
    a0: i64,
    a1: i64,
    a2: i64,
    b1: i64,
    b2: i64,
    x2: i64,
    x1: i64,
    y2: i64,
    y1: i64,
}

impl BiquadFilter {
    pub closed spec fn model(self) -> FilterModel {
        FilterModel {
            a0: self.a0 as int,
            a1: self.a1 as int,
            a2: self.a2 as int,
            b1: self.b1 as int,
            b2: self.b2 as int,
            x1: self.x1 as int,
            x2: self.x2 as int,
            y1: self.y1 as int,
            y2: self.y2 as int,
        }
    }

    pub closed spec fn rate(self) -> u32 {
        self.sample_rate
    }

    /// A fresh filter: pass-through coefficients (unit `a0`, all else zero)
    /// and an all-zero history.
    pub fn new(sample_rate: u32) -> (f: BiquadFilter)
        ensures
            f.model() == fresh_filter_model(),
            f.rate() == sample_rate,
    {
        BiquadFilter {
            sample_rate,
            a0: FX_SCALE,
            a1: 0,
            a2: 0,
            b1: 0,
            b2: 0,
            x2: 0,
            x1: 0,
            y2: 0,
            y1: 0,
        }
    }

    /// Configure the bandpass coefficients from the pre-warped center
    /// frequency `w0` (the tangent of pi times the center frequency over the
    /// sampling rate, in fixed point) and the quality factor `q`. The
    /// history is left untouched; callers configure a filter once, before
    /// feeding it samples.
    pub fn set_bandpass(&mut self, w0: i64, q: i64)
        requires
            w0 > 0,
            q > 0,
        ensures
            final(self).model() == bandpass_model(old(self).model(), w0 as int, q as int),
            final(self).rate() == old(self).rate(),
    {
        let w0q = fx_div(w0, q);
        let w0w0 = fx_mul(w0, w0);
        assert(w0q >= 0 && w0w0 >= 0);
        let denom = fx_add(fx_add(FX_SCALE, w0q), w0w0);
        assert(denom >= FX_SCALE);
        let norm = fx_div(FX_SCALE, denom);
        let a0 = fx_mul(w0q, norm);
        assert(-FX_SAT <= a0 <= FX_SAT);
        self.a0 = a0;
        self.a1 = 0;
        self.a2 = -a0;
        self.b1 = fx_mul(fx_mul(2 * FX_SCALE, fx_sub(w0w0, FX_SCALE)), norm);
        self.b2 = fx_mul(fx_add(fx_sub(FX_SCALE, w0q), w0w0), norm);
    }

    /// The five coefficients `(a0, a1, a2, b1, b2)`.
    pub fn coefficients(&self) -> (c: (i64, i64, i64, i64, i64))
        ensures
            c.0 as int == self.model().a0,
            c.1 as int == self.model().a1,
            c.2 as int == self.model().a2,
            c.3 as int == self.model().b1,
            c.4 as int == self.model().b2,
    {
        (self.a0, self.a1, self.a2, self.b1, self.b2)
    }

    /// Filter one block of a continuous signal. The block must hold at
    /// least two samples and `output` must already have the same length; the
    /// output block is fully overwritten with the recurrence applied to
    /// `input`, seeded from the previous block's history, and the history is
    /// advanced to the final two samples of this block.
    pub fn filter(&mut self, input: &Vec<i64>, output: &mut Vec<i64>) -> (r: Result<
        (),
        VocoderError,
    >)
        ensures
            r is Ok <==> (input@.len() >= 2 && input@.len() == old(output)@.len()),
            input@.len() < 2 ==> r == Err::<(), VocoderError>(VocoderError::BlockTooShort),
            (input@.len() >= 2 && input@.len() != old(output)@.len()) ==> r == Err::<
                (),
                VocoderError,
            >(VocoderError::LengthMismatch),
            r is Ok ==> fx_ints(final(output)@) == filter_run_out(
                old(self).model(),
                fx_ints(input@),
            ),
            r is Ok ==> final(self).model() == filter_run_state(
                old(self).model(),
                fx_ints(input@),
            ),
            r is Err ==> *final(self) == *old(self) && final(output)@ == old(output)@,
            final(self).rate() == old(self).rate(),
            final(output)@.len() == old(output)@.len(),
    {
        let n = input.len();
        if n < 2 {
            return Err(VocoderError::BlockTooShort);
        }
        if n != output.len() {
            return Err(VocoderError::LengthMismatch);
        }
        let ghost m0 = self.model();
        let ghost inp = fx_ints(input@);
        let mut x1 = self.x1;
        let mut x2 = self.x2;
        let mut y1 = self.y1;
        let mut y2 = self.y2;
        let mut i: usize = 0;
        while i < n
            invariant
                i <= n,
                n == input@.len(),
                output@.len() == n,
                inp == fx_ints(input@),
                m0 == self.model(),
                filter_run_state(m0, inp.take(i as int)) == (FilterModel {
                    x1: x1 as int,
                    x2: x2 as int,
                    y1: y1 as int,
                    y2: y2 as int,
                    ..m0
                }),
                forall|j: int|
                    0 <= j < i ==> output@[j] as int == filter_run_out(m0, inp.take(i as int))[j],
            decreases n - i,
        {
            let ghost st = filter_run_state(m0, inp.take(i as int));
            proof {
                lemma_filter_run_len(m0, inp.take(i as int));
            }
            let x = input[i];
            let y = fx_sub(
                fx_sub(
                    fx_add(fx_add(fx_mul(self.a0, x), fx_mul(self.a1, x1)), fx_mul(self.a2, x2)),
                    fx_mul(self.b1, y1),
                ),
                fx_mul(self.b2, y2),
            );
            proof {
                assert(y as int == filter_step_out(st, inp[i as int]));
            }
            output[i] = y;
            x2 = x1;
            x1 = x;
            y2 = y1;
            y1 = y;
            proof {
                assert(inp.take(i + 1int) =~= inp.take(i as int).push(inp[i as int]));
                lemma_filter_run_snoc(m0, inp.take(i as int), inp[i as int]);
            }
            i = i + 1;
        }
        self.x1 = x1;
        self.x2 = x2;
        self.y1 = y1;
        self.y2 = y2;
        proof {
            assert(inp.take(n as int) =~= inp);
            lemma_filter_run_len(m0, inp);
            assert(fx_ints(output@) =~= filter_run_out(m0, inp));
        }
        Ok(())
    }
}

} // verus!
