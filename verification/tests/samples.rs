use netaudio::samples::{bytes_to_samples, deinterleave, interleave, samples_to_bytes};

#[test]
fn interleave_alternates_the_channels() {
    let r = interleave(&[1u32, 3, 5], &[2u32, 4, 6]);
    assert_eq!(r, Some(vec![1, 2, 3, 4, 5, 6]));
}

#[test]
fn interleave_rejects_mismatched_lengths() {
    let r = interleave(&[1u32, 2], &[3u32]);
    assert_eq!(r, None);
}

#[test]
fn interleave_of_empty_channels_is_empty() {
    let r = interleave::<u32>(&[], &[]);
    assert_eq!(r, Some(vec![]));
}

#[test]
fn deinterleave_splits_the_stream() {
    let r = deinterleave(&[1u32, 2, 3, 4, 5, 6]);
    assert_eq!(r, Some((vec![1, 3, 5], vec![2, 4, 6])));
}

#[test]
fn deinterleave_rejects_odd_sample_counts() {
    let r = deinterleave(&[1u32, 2, 3]);
    assert_eq!(r, None);
}

#[test]
fn deinterleave_of_interleave_is_identity() {
    let left: Vec<u32> = vec![0xdeadbeef, 0, 7, u32::MAX];
    let right: Vec<u32> = vec![1, 2, 3, 4];
    let stream = interleave(&left, &right).unwrap();
    let (l, r) = deinterleave(&stream).unwrap();
    assert_eq!(l, left);
    assert_eq!(r, right);
}

#[test]
fn interleave_of_deinterleave_is_identity() {
    let stream: Vec<u32> = vec![9, 8, 7, 6, 5, 4];
    let (l, r) = deinterleave(&stream).unwrap();
    assert_eq!(interleave(&l, &r), Some(stream));
}

#[test]
fn samples_become_little_endian_bytes() {
    let bytes = samples_to_bytes(&[0x0403_0201, 0x0807_0605]);
    assert_eq!(bytes, vec![0x01, 0x02, 0x03, 0x04, 0x05, 0x06, 0x07, 0x08]);
}

#[test]
fn bytes_become_samples_again() {
    let samples = bytes_to_samples(&[0x01, 0x02, 0x03, 0x04, 0x05, 0x06, 0x07, 0x08]);
    assert_eq!(samples, vec![0x0403_0201, 0x0807_0605]);
}

#[test]
fn sample_byte_round_trip() {
    let samples: Vec<u32> = vec![0, 1, u32::MAX, 0x8000_0000, 12345678];
    let bytes = samples_to_bytes(&samples);
    assert_eq!(bytes.len(), 4 * samples.len());
    assert_eq!(bytes_to_samples(&bytes), samples);
}

#[test]
fn float_sample_bits_survive_the_wire_form() {
    let left: Vec<u32> = vec![1.0f32.to_bits(), (-0.5f32).to_bits()];
    let right: Vec<u32> = vec![0.25f32.to_bits(), f32::MIN_POSITIVE.to_bits()];
    let stream = interleave(&left, &right).unwrap();
    let bytes = samples_to_bytes(&stream);
    let (l, r) = deinterleave(&bytes_to_samples(&bytes)).unwrap();
    assert_eq!(f32::from_bits(l[0]), 1.0);
    assert_eq!(f32::from_bits(l[1]), -0.5);
    assert_eq!(f32::from_bits(r[0]), 0.25);
    assert_eq!(f32::from_bits(r[1]), f32::MIN_POSITIVE);
}
