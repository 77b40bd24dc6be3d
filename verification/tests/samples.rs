use grizld::timeline::samples::{extract_samples, i16_to_sample, SampleFormat};

#[test]
fn every_i16_converts_like_a_float_division() {
    for k in i16::MIN..=i16::MAX {
        assert_eq!(i16_to_sample(k), (k as f32 / 32768.0).to_bits(), "sample {}", k);
    }
}

fn f32_bytes(v: &[f32]) -> Vec<u8> {
    v.iter().flat_map(|x| x.to_le_bytes()).collect()
}

fn i16_bytes(v: &[i16]) -> Vec<u8> {
    v.iter().flat_map(|x| x.to_le_bytes()).collect()
}

fn bits(v: &[f32]) -> Vec<u32> {
    v.iter().map(|x| x.to_bits()).collect()
}

#[test]
fn packed_floats_are_copied() {
    let plane = f32_bytes(&[0.5, -0.25, 1.0, 0.0]);
    let out = extract_samples(SampleFormat::F32Packed, &vec![plane], 2, 2);
    assert_eq!(out, bits(&[0.5, -0.25, 1.0, 0.0]));
}

#[test]
fn packed_floats_stop_at_the_end_of_the_plane() {
    let mut plane = f32_bytes(&[0.5, -0.25, 1.0]);
    plane.push(7); // a partial sample
    let out = extract_samples(SampleFormat::F32Packed, &vec![plane], 2, 2);
    assert_eq!(out, bits(&[0.5, -0.25, 1.0]));
}

#[test]
fn packed_integers_are_scaled() {
    let plane = i16_bytes(&[16384, -32768, 0, 32767]);
    let out = extract_samples(SampleFormat::I16Packed, &vec![plane], 2, 2);
    assert_eq!(out, bits(&[0.5, -1.0, 0.0, 32767.0 / 32768.0]));
}

#[test]
fn planar_channels_are_interleaved() {
    let left = f32_bytes(&[0.1, 0.2, 0.3]);
    let right = f32_bytes(&[-0.1, -0.2, -0.3]);
    let out = extract_samples(SampleFormat::F32Planar, &vec![left, right], 3, 2);
    assert_eq!(out, bits(&[0.1, -0.1, 0.2, -0.2, 0.3, -0.3]));

    let left = i16_bytes(&[8192, 16384]);
    let right = i16_bytes(&[-8192]);
    let out = extract_samples(SampleFormat::I16Planar, &vec![left, right], 2, 2);
    // The right plane holds one sample only: the second is left out.
    assert_eq!(out, bits(&[0.25, -0.25, 0.5]));
}

#[test]
fn other_formats_are_silence() {
    let out = extract_samples(SampleFormat::Other, &vec![], 3, 2);
    assert_eq!(out, vec![0u32; 6]);
}
