use vocoder::Band;
use vocoder::BandTuning;
use vocoder::Vocoder;
use vocoder::VocoderError;
use vocoder::FRAMES;
use vocoder::FX_SCALE;
use vocoder::Waveform;
use vocoder::bands::log_band_layout;
use vocoder::vocoder::block_of;
use vocoder::vocoder::envelope;

const SAMPLE_RATE: u32 = 44100;
const BANDS: usize = 30;

fn fx(x: f64) -> i64 {
    (x * FX_SCALE as f64).round() as i64
}

fn to_f64(v: i64) -> f64 {
    v as f64 / FX_SCALE as f64
}

/// The default partition of the demo configuration: 30 bands over
/// [200 Hz, 5000 Hz).
fn demo_bands() -> Vec<Band> {
    let low = 200 * FX_SCALE;
    let high = 5000 * FX_SCALE;
    let ratio = fx((5000.0_f64 / 200.0).powf(1.0 / BANDS as f64));
    log_band_layout(low, high, BANDS, ratio).expect("demo layout is valid")
}

fn tunings_for(bands: &[Band]) -> Vec<BandTuning> {
    bands
        .iter()
        .map(|b| {
            let fc_hz = to_f64(b.fc);
            let w0 = fx((std::f64::consts::PI * fc_hz / SAMPLE_RATE as f64).tan());
            BandTuning { w0, q: b.q }
        })
        .collect()
}

fn demo_engine() -> Vocoder {
    let bands = demo_bands();
    Vocoder::new(SAMPLE_RATE, tunings_for(&bands)).expect("demo tuning is valid")
}

#[test]
fn layout_tiles_the_range_with_increasing_centers() {
    let low = 200 * FX_SCALE;
    let high = 5000 * FX_SCALE;
    let bands = demo_bands();
    assert_eq!(bands.len(), BANDS);
    assert_eq!(bands[0].from, low);
    assert_eq!(bands[BANDS - 1].to, high);
    for i in 0..BANDS {
        assert!(bands[i].from < bands[i].to);
        assert!(bands[i].fc > 0);
        assert!(bands[i].q > 0);
        if i + 1 < BANDS {
            // exact tiling: no gaps, no overlaps
            assert_eq!(bands[i].to, bands[i + 1].from);
            // strictly increasing center frequencies
            assert!(bands[i].fc < bands[i + 1].fc);
        }
    }
}

#[test]
fn layout_rejects_bad_requests() {
    let low = 200 * FX_SCALE;
    let high = 5000 * FX_SCALE;
    let ratio = fx(1.113);
    assert_eq!(
        log_band_layout(low, high, 0, ratio),
        Err(VocoderError::InvalidBandConfig)
    );
    assert_eq!(
        log_band_layout(0, high, BANDS, ratio),
        Err(VocoderError::InvalidBandConfig)
    );
    assert_eq!(
        log_band_layout(high, low, BANDS, ratio),
        Err(VocoderError::InvalidBandConfig)
    );
    // a ratio of exactly one cannot grow the edges
    assert_eq!(
        log_band_layout(low, high, BANDS, FX_SCALE),
        Err(VocoderError::InvalidBandConfig)
    );
    // a ratio so large the edges overrun the top of the range
    assert_eq!(
        log_band_layout(low, high, BANDS, fx(2.0)),
        Err(VocoderError::InvalidBandConfig)
    );
}

#[test]
fn engine_rejects_bad_tunings() {
    assert_eq!(
        Vocoder::new(SAMPLE_RATE, Vec::new()).err(),
        Some(VocoderError::InvalidBandConfig)
    );
    let bad = vec![BandTuning { w0: 0, q: FX_SCALE }];
    assert_eq!(
        Vocoder::new(SAMPLE_RATE, bad).err(),
        Some(VocoderError::InvalidBandConfig)
    );
    let bad_q = vec![BandTuning { w0: FX_SCALE, q: -1 }];
    assert_eq!(
        Vocoder::new(SAMPLE_RATE, bad_q).err(),
        Some(VocoderError::InvalidBandConfig)
    );
}

#[test]
fn envelope_is_the_peak_positive_sample() {
    assert_eq!(envelope(&vec![-5, 3, 2]), 3);
    assert_eq!(envelope(&vec![-5, -3, -2]), 0);
    assert_eq!(envelope(&Vec::new()), 0);
    assert_eq!(envelope(&vec![0, 7, 7, 1]), 7);
}

#[test]
fn block_of_fills_one_frame_block() {
    let b = block_of(42);
    assert_eq!(b.len(), FRAMES);
    assert!(b.iter().all(|&s| s == 42));
    assert_eq!(FRAMES, 256);
}

#[test]
fn generate_rejects_mismatched_buffers() {
    let mut engine = demo_engine();
    let modulator = block_of(FX_SCALE);
    let carrier = block_of(FX_SCALE);
    let mut short_out: Vec<i64> = vec![3; FRAMES - 1];
    assert_eq!(
        engine.generate(&mut short_out, &modulator, &carrier),
        Err(VocoderError::LengthMismatch)
    );
    assert!(short_out.iter().all(|&s| s == 3));

    let mut out = block_of(0);
    let short_mod: Vec<i64> = vec![0; FRAMES + 1];
    assert_eq!(
        engine.generate(&mut out, &short_mod, &carrier),
        Err(VocoderError::LengthMismatch)
    );
}

#[test]
fn zero_modulator_silences_any_carrier() {
    let mut engine = demo_engine();
    let modulator = block_of(0);
    let carrier = block_of(FX_SCALE);
    let mut out = block_of(0);
    assert_eq!(engine.generate(&mut out, &modulator, &carrier), Ok(()));
    assert!(out.iter().all(|&s| s == 0));
}

#[test]
fn constant_blocks_produce_nonzero_output() {
    let mut engine = demo_engine();
    let modulator = block_of(FX_SCALE);
    let carrier = block_of(FX_SCALE);
    let mut out = block_of(0);
    assert_eq!(engine.generate(&mut out, &modulator, &carrier), Ok(()));
    assert!(out.iter().any(|&s| s != 0));
}

fn peak_for(modulator_level: i64, carrier_level: i64) -> i64 {
    let mut engine = demo_engine();
    let modulator = block_of(modulator_level);
    let carrier = block_of(carrier_level);
    let mut out = block_of(0);
    assert_eq!(engine.generate(&mut out, &modulator, &carrier), Ok(()));
    out.iter().map(|&s| s.abs()).max().unwrap()
}

#[test]
fn output_magnitude_grows_with_modulator_level() {
    let p0 = peak_for(0, FX_SCALE);
    let p1 = peak_for(FX_SCALE / 2, FX_SCALE);
    let p2 = peak_for(FX_SCALE, FX_SCALE);
    assert_eq!(p0, 0);
    assert!(p0 <= p1);
    assert!(p1 <= p2);
}

#[test]
fn output_magnitude_grows_with_carrier_level() {
    let p0 = peak_for(FX_SCALE, 0);
    let p1 = peak_for(FX_SCALE, FX_SCALE / 2);
    let p2 = peak_for(FX_SCALE, FX_SCALE);
    assert!(p0 <= p1);
    assert!(p1 <= p2);
}

#[test]
fn identical_engines_generate_identical_blocks() {
    // the demo scenario: 44100 Hz, 256-sample blocks, 30 bands,
    // all-one modulator and carrier, pre-zeroed output
    let mut first = demo_engine();
    let mut second = demo_engine();
    assert_eq!(first.band_count(), BANDS);
    assert_eq!(second.band_count(), BANDS);
    let modulator = block_of(FX_SCALE);
    let carrier = block_of(FX_SCALE);
    let mut out_first = block_of(0);
    let mut out_second = block_of(0);
    assert_eq!(first.generate(&mut out_first, &modulator, &carrier), Ok(()));
    assert_eq!(second.generate(&mut out_second, &modulator, &carrier), Ok(()));
    assert_eq!(out_first, out_second);
    // and the streams stay in lockstep on a second block
    assert_eq!(first.generate(&mut out_first, &modulator, &carrier), Ok(()));
    assert_eq!(second.generate(&mut out_second, &modulator, &carrier), Ok(()));
    assert_eq!(out_first, out_second);
}

#[test]
fn output_accumulates_onto_existing_content() {
    let mut gated = demo_engine();
    let modulator = block_of(0);
    let carrier = block_of(FX_SCALE);
    let mut out = block_of(FX_SCALE);
    // with a silent modulator every band contributes zero, so the call
    // only applies the makeup gain 20/30 to what the buffer already held
    assert_eq!(gated.generate(&mut out, &modulator, &carrier), Ok(()));
    let expected = (FX_SCALE as i128 * (20 * FX_SCALE as i128 / 30) / FX_SCALE as i128) as i64;
    assert!(out.iter().all(|&s| s == expected));
}

#[test]
fn waveform_default_is_sine() {
    assert_eq!(Waveform::default(), Waveform::Sine);
    assert_ne!(Waveform::Square, Waveform::Sine);
}
