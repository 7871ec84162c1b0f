use vocoder::BiquadFilter;
use vocoder::VocoderError;
use vocoder::FX_SAT;
use vocoder::FX_SCALE;
use vocoder::fixed::fx_add;
use vocoder::fixed::fx_div;
use vocoder::fixed::fx_mul;
use vocoder::fixed::fx_sub;

#[test]
fn fx_mul_exact_values() {
    // 2.0 * 1.5 == 3.0
    assert_eq!(fx_mul(2 * FX_SCALE, 3 * FX_SCALE / 2), 3 * FX_SCALE);
    assert_eq!(fx_mul(-2 * FX_SCALE, 3 * FX_SCALE / 2), -3 * FX_SCALE);
    assert_eq!(fx_mul(-2 * FX_SCALE, -3 * FX_SCALE / 2), 3 * FX_SCALE);
    // products below one raw step truncate toward zero
    assert_eq!(fx_mul(1, 1), 0);
    assert_eq!(fx_mul(-1, 1), 0);
    // scaling by one is exact for every value
    assert_eq!(fx_mul(FX_SCALE, 123456789), 123456789);
    assert_eq!(fx_mul(FX_SCALE, -123456789), -123456789);
}

#[test]
fn fx_mul_saturates() {
    assert_eq!(fx_mul(FX_SAT, FX_SAT), FX_SAT);
    assert_eq!(fx_mul(-FX_SAT, FX_SAT), -FX_SAT);
}

#[test]
fn fx_add_sub_exact_and_saturating() {
    assert_eq!(fx_add(5, 10), 15);
    assert_eq!(fx_sub(5, 10), -5);
    assert_eq!(fx_add(FX_SAT, FX_SAT), FX_SAT);
    assert_eq!(fx_add(-FX_SAT, -5), -FX_SAT);
    assert_eq!(fx_sub(-FX_SAT, FX_SAT), -FX_SAT);
}

#[test]
fn fx_div_truncates_toward_zero() {
    // 1.0 / 3.0
    assert_eq!(fx_div(FX_SCALE, 3 * FX_SCALE), 21845);
    assert_eq!(fx_div(-FX_SCALE, 3 * FX_SCALE), -21845);
    assert_eq!(fx_div(FX_SCALE, -3 * FX_SCALE), -21845);
}

#[test]
fn fresh_filter_passes_input_through() {
    let mut f = BiquadFilter::new(44100);
    let input: Vec<i64> = vec![FX_SCALE, -2 * FX_SCALE, 32768];
    let mut output: Vec<i64> = vec![0; 3];
    assert_eq!(f.filter(&input, &mut output), Ok(()));
    assert_eq!(output, input);
}

#[test]
fn filter_rejects_short_blocks() {
    let mut f = BiquadFilter::new(44100);
    let input: Vec<i64> = vec![FX_SCALE];
    let mut output: Vec<i64> = vec![0];
    assert_eq!(f.filter(&input, &mut output), Err(VocoderError::BlockTooShort));
    let empty: Vec<i64> = Vec::new();
    let mut out_empty: Vec<i64> = Vec::new();
    assert_eq!(f.filter(&empty, &mut out_empty), Err(VocoderError::BlockTooShort));
}

#[test]
fn filter_rejects_mismatched_blocks() {
    let mut f = BiquadFilter::new(44100);
    let input: Vec<i64> = vec![1, 2, 3];
    let mut output: Vec<i64> = vec![9, 9];
    assert_eq!(f.filter(&input, &mut output), Err(VocoderError::LengthMismatch));
    // a rejected call leaves the output untouched
    assert_eq!(output, vec![9, 9]);
}

#[test]
fn bandpass_coefficients_exact_for_unit_tuning() {
    // w0 = 1.0, q = 1.0: norm = 1/3, a0 = 1/3, b1 = 0, b2 = 1/3
    let mut f = BiquadFilter::new(44100);
    f.set_bandpass(FX_SCALE, FX_SCALE);
    assert_eq!(f.coefficients(), (21845, 0, -21845, 0, 21845));
}

#[test]
fn bandpass_numerator_vanishes_at_dc_and_nyquist() {
    // tan(pi * 1000 / 44100) ~ 0.0714 and q = 2.0, in fixed point
    let w0 = (0.071357_f64 * FX_SCALE as f64).round() as i64;
    let mut f = BiquadFilter::new(44100);
    f.set_bandpass(w0, 2 * FX_SCALE);
    let (a0, a1, a2, _b1, _b2) = f.coefficients();
    assert_eq!(a1, 0);
    assert_eq!(a2, -a0);
    // transfer numerator at z = 1 and z = -1
    assert_eq!(a0 + a1 + a2, 0);
    assert_eq!(a0 - a1 + a2, 0);
    assert!(a0 > 0);
}

#[test]
fn filter_recurrence_exact_across_blocks() {
    let mut f = BiquadFilter::new(44100);
    f.set_bandpass(FX_SCALE, FX_SCALE);
    let ones: Vec<i64> = vec![FX_SCALE, FX_SCALE];
    let mut out: Vec<i64> = vec![0, 0];
    assert_eq!(f.filter(&ones, &mut out), Ok(()));
    // y = a0 * x with empty history: 1/3 in raw steps
    assert_eq!(out, vec![21845, 21845]);
    // the next block sees the previous block's final two samples
    assert_eq!(f.filter(&ones, &mut out), Ok(()));
    assert_eq!(out, vec![-7281, -7281]);
}

#[test]
fn split_block_filtering_matches_single_call() {
    let input: Vec<i64> = vec![FX_SCALE, -32768, 12345, -1, 500000, 2, -98765, 44444];
    let w0 = (0.2_f64 * FX_SCALE as f64).round() as i64;

    let mut whole = BiquadFilter::new(44100);
    whole.set_bandpass(w0, 3 * FX_SCALE);
    let mut out_whole: Vec<i64> = vec![0; 8];
    assert_eq!(whole.filter(&input, &mut out_whole), Ok(()));

    let mut split = BiquadFilter::new(44100);
    split.set_bandpass(w0, 3 * FX_SCALE);
    let first: Vec<i64> = input[..4].to_vec();
    let second: Vec<i64> = input[4..].to_vec();
    let mut out_first: Vec<i64> = vec![0; 4];
    let mut out_second: Vec<i64> = vec![0; 4];
    assert_eq!(split.filter(&first, &mut out_first), Ok(()));
    assert_eq!(split.filter(&second, &mut out_second), Ok(()));

    out_first.extend_from_slice(&out_second);
    assert_eq!(out_whole, out_first);
}

#[test]
fn zero_state_filter_stays_silent_on_zero_input() {
    let mut f = BiquadFilter::new(44100);
    f.set_bandpass(FX_SCALE / 2, 2 * FX_SCALE);
    let zeros: Vec<i64> = vec![0; 16];
    let mut out: Vec<i64> = vec![7; 16];
    for _ in 0..5 {
        assert_eq!(f.filter(&zeros, &mut out), Ok(()));
        assert!(out.iter().all(|&s| s == 0));
    }
}
