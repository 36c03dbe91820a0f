use digit_server::codec::{decode_input, encode_output, CLASS_COUNT, INPUT_FRAME_BYTES, INPUT_VALUES, OUTPUT_FRAME_BYTES};

fn frame_of(values: &[f32]) -> Vec<u8> {
    values.iter().flat_map(|v| v.to_be_bytes()).collect()
}

#[test]
fn decode_valid_frame_gives_pixel_words() {
    let values: Vec<f32> = (0..INPUT_VALUES).map(|i| (i % 256) as f32).collect();
    let payload = frame_of(&values);
    assert_eq!(payload.len(), INPUT_FRAME_BYTES);
    let words = decode_input(&payload).expect("a full frame decodes");
    assert_eq!(words.len(), INPUT_VALUES);
    for (w, v) in words.iter().zip(values.iter()) {
        assert_eq!(f32::from_bits(*w), *v);
    }
}

#[test]
fn decode_reads_big_endian() {
    let mut payload = vec![0u8; INPUT_FRAME_BYTES];
    payload[0..4].copy_from_slice(&[0x43, 0x00, 0x00, 0x00]);
    payload[4..8].copy_from_slice(&[0x01, 0x02, 0x03, 0x04]);
    let words = decode_input(&payload).unwrap();
    assert_eq!(words[0], 0x4300_0000);
    assert_eq!(f32::from_bits(words[0]), 128.0);
    assert_eq!(words[1], 0x0102_0304);
    assert_eq!(words[2], 0);
}

#[test]
fn decode_rejects_one_byte_short() {
    assert!(decode_input(&vec![0u8; 3135]).is_none());
}

#[test]
fn decode_rejects_one_byte_long() {
    assert!(decode_input(&vec![0u8; 3137]).is_none());
}

#[test]
fn decode_rejects_empty() {
    assert!(decode_input(&[]).is_none());
}

#[test]
fn encode_ten_probabilities_gives_forty_bytes() {
    let probs: Vec<u32> = (0..CLASS_COUNT).map(|_| 0.1f32.to_bits()).collect();
    let bytes = encode_output(&probs);
    assert_eq!(bytes.len(), OUTPUT_FRAME_BYTES);
    let back: Vec<f32> = bytes.chunks(4).map(|c| f32::from_be_bytes([c[0], c[1], c[2], c[3]])).collect();
    let sum: f32 = back.iter().sum();
    assert!((sum - 1.0).abs() <= 1e-4);
}

#[test]
fn encode_writes_big_endian_in_order() {
    let bytes = encode_output(&[0x0102_0304, 1.0f32.to_bits()]);
    assert_eq!(bytes, vec![0x01, 0x02, 0x03, 0x04, 0x3f, 0x80, 0x00, 0x00]);
}

#[test]
fn encode_empty_is_empty() {
    assert!(encode_output(&[]).is_empty());
}

#[test]
fn decode_then_encode_gives_payload_back() {
    let payload: Vec<u8> = (0..INPUT_FRAME_BYTES).map(|i| (i * 7 % 251) as u8).collect();
    let words = decode_input(&payload).unwrap();
    assert_eq!(encode_output(&words), payload);
}
