use spectrogram_synth::encode_pcm;

#[test]
fn little_endian_pairs() {
    let bytes = encode_pcm(&vec![1, -1, i16::MIN, 0x1234, i16::MAX, 0]);
    assert_eq!(
        bytes,
        vec![0x01, 0x00, 0xFF, 0xFF, 0x00, 0x80, 0x34, 0x12, 0xFF, 0x7F, 0x00, 0x00]
    );
}

#[test]
fn empty_buffer_encodes_to_nothing() {
    assert!(encode_pcm(&vec![]).is_empty());
}
