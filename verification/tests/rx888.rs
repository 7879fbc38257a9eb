use hpsdr::cic::CicDecimator;
use hpsdr::rx888::{
    argument_send, attenuator_request, command_send, derandomize, fx3_jump, fx3_ram_write,
    is_rx888, setup_requests, start_requests, stop_request, verify_chunk, vga_arg, Fx3Chunk,
    Fx3Error, Fx3Loader, Fx3Step, IqDecimator, AD8340_VGA, CIC_DECIMATION, CIC_STAGES, DAT31_ATT,
    DEFAULT_SAMPLE_RATE_HZ, GPIOFX3, OUTPUT_SAMPLE_RATE_HZ, PID_STREAMING, PID_UNLOADED,
    RW_INTERNAL, SETARGFX3, STARTADC, STARTFX3, STOPFX3, TUNERSTDBY, VID,
};

/// The converter's randomizer as its data sheet describes it.
fn spec_randomize(sample: i16) -> i16 {
    let u = sample as u16;
    if u & 1 != 0 {
        (u ^ 0xFFFE) as i16
    } else {
        sample
    }
}

#[test]
fn derandomize_inverts_the_datasheet_operation() {
    for raw in i16::MIN..=i16::MAX {
        assert_eq!(derandomize(spec_randomize(raw)), raw, "raw {raw}");
    }
}

#[test]
fn derandomize_is_its_own_inverse() {
    for raw in i16::MIN..=i16::MAX {
        assert_eq!(derandomize(derandomize(raw)), raw);
    }
}

#[test]
fn output_sample_rate_is_one_of_wdsps_recognized_hbresampler_rates() {
    const WDSP_RECOGNIZED_RATES: [u32; 7] =
        [96_000, 192_000, 384_000, 768_000, 1_536_000, 3_072_000, 6_144_000];
    assert!(WDSP_RECOGNIZED_RATES.contains(&OUTPUT_SAMPLE_RATE_HZ));
}

#[test]
fn output_sample_rate_is_exact_integer_division() {
    assert_eq!(OUTPUT_SAMPLE_RATE_HZ, 96_000);
}

/// A down-converter around the library's decimators: it mixes a sample with
/// an oscillator and scales what comes out.
struct Ddc {
    step: f64,
    phase: f64,
    decimator: IqDecimator,
    gain: f64,
}

impl Ddc {
    fn new(adc_rate_hz: u32, tune_hz: f64) -> Self {
        let gain = (8_388_608.0 / 32_768.0) * 0.2 / (CIC_DECIMATION as f64).powi(CIC_STAGES as i32);
        let step = 2.0 * std::f64::consts::PI * tune_hz / adc_rate_hz as f64;
        Ddc { step, phase: 0.0, decimator: IqDecimator::new(CIC_DECIMATION), gain }
    }

    fn process_sample(&mut self, sample: i16) -> Option<(i32, i32)> {
        let x = sample as f64;
        let i = (x * self.phase.cos()) as i64;
        let q = (x * self.phase.sin()) as i64;
        self.phase += self.step;
        if self.phase > 2.0 * std::f64::consts::PI {
            self.phase -= 2.0 * std::f64::consts::PI;
        }
        let (a, b) = self.decimator.push(i, q)?;
        Some(((a as f64 * self.gain) as i32, (b as f64 * self.gain) as i32))
    }
}

fn tone_magnitude(adc_rate_hz: u32, tone_hz: f64, tune_hz: f64) -> f64 {
    let mut ddc = Ddc::new(adc_rate_hz, tune_hz);
    let tone_inc = 2.0 * std::f64::consts::PI * tone_hz / adc_rate_hz as f64;
    let mut tone_phase = 0.0f64;
    let mut outputs = Vec::new();
    for _ in 0..(CIC_DECIMATION as usize * 200) {
        let sample = (tone_phase.sin() * 20_000.0) as i16;
        tone_phase += tone_inc;
        if let Some((i, q)) = ddc.process_sample(sample) {
            outputs.push(((i as f64).powi(2) + (q as f64).powi(2)).sqrt());
        }
    }
    let steady = &outputs[20..];
    steady.iter().sum::<f64>() / steady.len() as f64
}

#[test]
fn on_tune_tone_passes_through_at_strong_magnitude() {
    let mag = tone_magnitude(DEFAULT_SAMPLE_RATE_HZ, 1_000_000.0, 1_000_000.0);
    assert!(mag > 1_000.0, "on-tune magnitude too small: {mag}");
}

#[test]
fn off_tune_tone_is_heavily_attenuated() {
    let on_tune = tone_magnitude(DEFAULT_SAMPLE_RATE_HZ, 1_000_000.0, 1_000_000.0);
    let off_tune = tone_magnitude(DEFAULT_SAMPLE_RATE_HZ, 1_000_000.0, 6_000_000.0);
    assert!(
        off_tune < on_tune / 10.0,
        "off-tune tone not sufficiently attenuated: on={on_tune} off={off_tune}"
    );
}

#[test]
fn tone_above_tuned_frequency_rotates_in_the_expected_direction() {
    let adc_rate = DEFAULT_SAMPLE_RATE_HZ;
    let tune_hz = 14_074_000.0;
    let tone_hz = tune_hz + 5_000.0;
    let mut ddc = Ddc::new(adc_rate, tune_hz);
    let tone_inc = 2.0 * std::f64::consts::PI * tone_hz / adc_rate as f64;
    let mut tone_phase = 0.0f64;
    let mut outputs = Vec::new();
    for _ in 0..(CIC_DECIMATION as usize * 300) {
        let sample = (tone_phase.sin() * 20_000.0) as i16;
        tone_phase += tone_inc;
        if tone_phase > 2.0 * std::f64::consts::PI {
            tone_phase -= 2.0 * std::f64::consts::PI;
        }
        if let Some((i, q)) = ddc.process_sample(sample) {
            outputs.push((i as f64, q as f64));
        }
    }
    let tail = &outputs[20..];
    let mut prev_phase = tail[0].1.atan2(tail[0].0);
    let mut total = 0.0;
    for &(i, q) in &tail[1..] {
        let phase = q.atan2(i);
        let mut d = phase - prev_phase;
        if d > std::f64::consts::PI {
            d -= 2.0 * std::f64::consts::PI;
        } else if d < -std::f64::consts::PI {
            d += 2.0 * std::f64::consts::PI;
        }
        total += d;
        prev_phase = phase;
    }
    let avg_phase_step = total / (tail.len() - 1) as f64;
    assert!(avg_phase_step < -0.01, "got avg_phase_step={avg_phase_step}");
}

#[test]
fn persistent_dc_bias_does_not_grow_output_unbounded() {
    let mut ddc = Ddc::new(DEFAULT_SAMPLE_RATE_HZ, 0.0);
    let mut max_mag = 0i64;
    for _ in 0..(CIC_DECIMATION as usize * 20_000) {
        if let Some((i, q)) = ddc.process_sample(20_000) {
            max_mag = max_mag.max(i.unsigned_abs() as i64).max(q.unsigned_abs() as i64);
        }
    }
    assert!(max_mag < 100_000_000, "output grew unbounded: max magnitude {max_mag}");
}

#[test]
fn constant_input_settles_at_the_gain_times_the_input() {
    let mut cic = CicDecimator::new(CIC_DECIMATION);
    let mut last = 0;
    let mut outputs = 0;
    for _ in 0..(CIC_DECIMATION as usize * 2000) {
        if let Some(y) = cic.push(-32768) {
            last = y;
            outputs += 1;
        }
    }
    assert_eq!(outputs, 2000);
    assert_eq!(last, -32768 * 140_126_044_921_875i64);
}

#[test]
fn an_impulse_leaves_the_decimator_again() {
    let mut cic = CicDecimator::new(2);
    let mut out = Vec::new();
    for n in 0..16 {
        let x = if n == 0 { 1 } else { 0 };
        if let Some(y) = cic.push(x) {
            out.push(y);
        }
    }
    // Every second coefficient of (1 + z)^5, from the second on.
    assert_eq!(out, vec![5, 10, 1, 0, 0, 0, 0, 0]);
}

#[test]
fn a_decimator_without_decimation_passes_everything_through() {
    let mut cic = CicDecimator::new(1);
    assert_eq!(cic.push(7), Some(7));
    assert_eq!(cic.push(-9), Some(-9));
    let mut zero = CicDecimator::new(0);
    assert_eq!(zero.push(3), Some(3));
}

#[test]
fn overflowing_integrators_do_not_spoil_the_output() {
    let mut cic = CicDecimator::new(2);
    let mut last = 0;
    for _ in 0..2_000_000 {
        if let Some(y) = cic.push(1_000_000_000_000) {
            last = y;
        }
    }
    assert_eq!(last, 32_000_000_000_000);
}

#[test]
fn blocks_of_any_size_give_the_same_stream() {
    let mixed: Vec<(i64, i64)> =
        (0..20_000i64).map(|k| (k * 37 % 65_536 - 32_768, k * 91 % 65_536 - 32_768)).collect();
    let mut whole = IqDecimator::new(CIC_DECIMATION);
    let want = whole.process_block(&mixed);
    assert_eq!(want.len(), 20_000 / 675);
    for size in [1usize, 7, 674, 675, 676, 4_096] {
        let mut d = IqDecimator::new(CIC_DECIMATION);
        let mut got = Vec::new();
        for block in mixed.chunks(size) {
            got.extend(d.process_block(block));
        }
        assert_eq!(got, want);
        assert_eq!((d.i.count, d.q.count), (whole.i.count, whole.q.count));
    }
    let mut one = IqDecimator::new(CIC_DECIMATION);
    let pushed: Vec<(i64, i64)> = mixed.iter().filter_map(|&(i, q)| one.push(i, q)).collect();
    assert_eq!(pushed, want);
}

#[test]
fn a_block_has_one_output_for_each_full_round() {
    let mut d = IqDecimator::new(CIC_DECIMATION);
    assert_eq!(d.process_block(&vec![(0, 0); 648_000]).len(), 960);
    assert_eq!(d.process_block(&[]).len(), 0);
    assert_eq!(d.process_block(&vec![(0, 0); 674]).len(), 0);
    assert_eq!(d.process_block(&[(0, 0)]).len(), 1);
}

#[test]
fn the_output_is_bounded_by_the_peak_times_the_gain() {
    let gain = (CIC_DECIMATION as i64).pow(CIC_STAGES as u32);
    let square: Vec<(i64, i64)> = (0..30_000)
        .map(|k| if k / 5_000 % 2 == 0 { (-32_768, 32_767) } else { (32_767, -32_768) })
        .collect();
    let mut d = IqDecimator::new(CIC_DECIMATION);
    let out = d.process_block(&square);
    assert!(out.iter().all(|&(i, q)| i.abs() <= 32_768 * gain && q.abs() <= 32_768 * gain));
    assert!(out.iter().any(|&(i, _)| i == -32_768 * gain));
    let scaled = |y: i64| (y as f64 * (51.2 / gain as f64)) as i32;
    assert!(out.iter().all(|&(i, q)| scaled(i).abs() <= 1_677_722 && scaled(q).abs() <= 1_677_722));
    assert_eq!(scaled(-32_768 * gain), -1_677_721);
}

#[test]
fn requests_have_their_wire_form() {
    let c = command_send(STARTADC, 0x0102_0304);
    assert_eq!((c.request, c.value, c.index), (STARTADC, 0, 0));
    assert_eq!(c.data, vec![4, 3, 2, 1]);
    let a = argument_send(AD8340_VGA, 0x1_0083);
    assert_eq!((a.request, a.value, a.index), (SETARGFX3, 0x83, 11));
    assert_eq!(a.data, vec![0]);
    let w = fx3_ram_write(0x4000_1234, &[9, 8]);
    assert_eq!((w.request, w.value, w.index), (RW_INTERNAL, 0x1234, 0x4000));
    assert_eq!(w.data, vec![9, 8]);
    let j = fx3_jump(0x0001_0002);
    assert_eq!((j.request, j.value, j.index), (RW_INTERNAL, 2, 1));
    assert!(j.data.is_empty());
    let s = stop_request();
    assert_eq!((s.request, s.data), (STOPFX3, vec![0, 0, 0, 0]));
}

#[test]
fn attenuation_is_in_half_decibels_and_limited() {
    assert_eq!(attenuator_request(0).value, 0);
    assert_eq!(attenuator_request(12).value, 24);
    assert_eq!(attenuator_request(31).value, 62);
    assert_eq!(attenuator_request(200).value, 62);
    assert_eq!(attenuator_request(12).index, DAT31_ATT);
}

#[test]
fn gain_codes_are_limited_and_flagged() {
    assert_eq!(vga_arg(true, 3), 131);
    assert_eq!(vga_arg(false, 3), 3);
    assert_eq!(vga_arg(false, 500), 127);
    assert_eq!(vga_arg(true, 500), 255);
}

#[test]
fn setup_goes_in_order() {
    let rs = setup_requests(12, 131);
    assert_eq!(rs.len(), 4);
    assert_eq!(rs[0].request, STARTADC);
    assert_eq!(rs[0].data, DEFAULT_SAMPLE_RATE_HZ.to_le_bytes().to_vec());
    assert_eq!(rs[1].request, GPIOFX3);
    assert_eq!(rs[1].data, vec![0xC0, 0, 0, 0]);
    assert_eq!((rs[2].index, rs[2].value), (DAT31_ATT, 24));
    assert_eq!((rs[3].index, rs[3].value), (AD8340_VGA, 131));
    let started = start_requests();
    assert_eq!((started[0].request, started[1].request), (STARTFX3, TUNERSTDBY));
    assert_eq!(started.len(), 2);
}

#[test]
fn both_product_ids_are_recognised() {
    assert!(is_rx888(VID, PID_UNLOADED));
    assert!(is_rx888(VID, PID_STREAMING));
    assert!(!is_rx888(VID, 0x8613));
    assert!(!is_rx888(0x0403, PID_STREAMING));
}

fn image(sections: &[(u32, Vec<u8>)], entry: u32, checksum_error: u32) -> Vec<u8> {
    let mut v = vec![b'C', b'Y', 0x1C, 0xB0];
    let mut sum = 0u32;
    for (addr, data) in sections {
        v.extend_from_slice(&((data.len() / 4) as u32).to_le_bytes());
        v.extend_from_slice(&addr.to_le_bytes());
        v.extend_from_slice(data);
        for w in data.chunks_exact(4) {
            sum = sum.wrapping_add(u32::from_le_bytes([w[0], w[1], w[2], w[3]]));
        }
    }
    v.extend_from_slice(&0u32.to_le_bytes());
    v.extend_from_slice(&entry.to_le_bytes());
    v.extend_from_slice(&sum.wrapping_add(checksum_error).to_le_bytes());
    v
}

fn write_step(step: Result<Fx3Step, Fx3Error>) -> Vec<Fx3Chunk> {
    match step {
        Ok(Fx3Step::Write(chunks)) => chunks,
        other => panic!("{other:?}"),
    }
}

fn failure(step: Result<Fx3Step, Fx3Error>) -> Fx3Error {
    match step {
        Err(e) => e,
        Ok(s) => panic!("{s:?}"),
    }
}

#[test]
fn a_firmware_image_loads_section_by_section() {
    let long: Vec<u8> = (0..8200u32).map(|i| (i * 7) as u8).collect();
    let bytes = image(&[(0x100, vec![0xFF; 8]), (0x4000_0000, long.clone())], 0x4000_0010, 0);
    let mut loader = Fx3Loader::new(&bytes).unwrap();
    let first = write_step(loader.next(&bytes));
    assert_eq!(first.len(), 1);
    assert_eq!((first[0].addr, first[0].start, first[0].end), (0x100, 12, 20));
    let second = write_step(loader.next(&bytes));
    assert_eq!(second.len(), 3);
    assert_eq!((second[0].addr, second[0].end - second[0].start), (0x4000_0000, 4096));
    assert_eq!((second[1].addr, second[1].end - second[1].start), (0x4000_1000, 4096));
    assert_eq!((second[2].addr, second[2].end - second[2].start), (0x4000_2000, 8));
    assert_eq!(&bytes[second[0].start..second[2].end], &long[..]);
    match loader.next(&bytes) {
        Ok(Fx3Step::Run(entry)) => assert_eq!(entry, 0x4000_0010),
        other => panic!("{other:?}"),
    }
}

#[test]
fn a_program_starts_only_after_every_section_and_the_right_sum() {
    let sections: Vec<(u32, Vec<u8>)> =
        (1..6u32).map(|k| (0x1000 * k, vec![0xF0 + k as u8; 4 * k as usize])).collect();
    for error in [0, 1, u32::MAX] {
        let bytes = image(&sections, 0x2_0000, error);
        let mut loader = Fx3Loader::new(&bytes).unwrap();
        for (addr, data) in &sections {
            let chunks = write_step(loader.next(&bytes));
            assert_eq!((chunks.len(), chunks[0].addr), (1, *addr));
            assert_eq!(&bytes[chunks[0].start..chunks[0].end], &data[..]);
        }
        match loader.next(&bytes) {
            Ok(Fx3Step::Run(entry)) => assert_eq!((entry, error), (0x2_0000, 0)),
            Err(e) => assert!(e == Fx3Error::ChecksumMismatch && error != 0),
            other => panic!("{other:?}"),
        }
    }
}

#[test]
fn written_memory_is_compared_with_the_image() {
    let bytes = image(&[(0, vec![1, 2, 3, 4])], 0, 0);
    let chunk = Fx3Chunk { addr: 0, start: 12, end: 16 };
    assert_eq!(verify_chunk(&bytes, &chunk, &[1, 2, 3, 4]), Ok(()));
    assert_eq!(verify_chunk(&bytes, &chunk, &[1, 2, 3, 5]), Err(Fx3Error::VerifyMismatch));
    assert_eq!(verify_chunk(&bytes, &chunk, &[1, 2, 3]), Err(Fx3Error::VerifyMismatch));
}

#[test]
fn faulty_images_are_refused() {
    assert_eq!(Fx3Loader::new(b"CY").unwrap_err(), Fx3Error::MissingSignature);
    assert_eq!(Fx3Loader::new(b"XY\0\xB0").unwrap_err(), Fx3Error::MissingSignature);
    assert_eq!(Fx3Loader::new(b"CY\0\xB2").unwrap_err(), Fx3Error::UnsupportedType(0xB2));
    let only_header = [b'C', b'Y', 0, 0xB0, 1, 0, 0];
    let mut l = Fx3Loader::new(&only_header).unwrap();
    assert_eq!(failure(l.next(&only_header)), Fx3Error::TruncatedHeader);
    let short = [b'C', b'Y', 0, 0xB0, 2, 0, 0, 0, 0, 0, 0, 0, 1, 2, 3, 4];
    let mut l = Fx3Loader::new(&short).unwrap();
    assert_eq!(failure(l.next(&short)), Fx3Error::TruncatedData);
    let huge = [b'C', b'Y', 0, 0xB0, 0xFF, 0xFF, 0xFF, 0xFF, 0, 0, 0, 0];
    let mut l = Fx3Loader::new(&huge).unwrap();
    assert_eq!(failure(l.next(&huge)), Fx3Error::TruncatedData);
    let no_sum = [b'C', b'Y', 0, 0xB0, 0, 0, 0, 0, 9, 0, 0, 0, 0, 0];
    let mut l = Fx3Loader::new(&no_sum).unwrap();
    assert_eq!(failure(l.next(&no_sum)), Fx3Error::MissingChecksum);
    let wrong = image(&[(0, vec![1, 0, 0, 0])], 0, 1);
    let mut l = Fx3Loader::new(&wrong).unwrap();
    assert_eq!(write_step(l.next(&wrong)).len(), 1);
    assert_eq!(failure(l.next(&wrong)), Fx3Error::ChecksumMismatch);
}
