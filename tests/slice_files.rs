use smv::slice::{parse_slice_file, Dimensions, ParseSliceError, SliceParser};

fn record(out: &mut Vec<u8>, payload: &[u8]) {
    let n = payload.len() as u32;
    out.extend_from_slice(&n.to_le_bytes());
    out.extend_from_slice(payload);
    out.extend_from_slice(&n.to_le_bytes());
}

fn padded(s: &str) -> Vec<u8> {
    let mut v = s.as_bytes().to_vec();
    while v.len() < 30 {
        v.push(b' ');
    }
    v
}

fn header(d: [u32; 6]) -> Vec<u8> {
    let mut out = Vec::new();
    record(&mut out, &padded("TEMPERATURE"));
    record(&mut out, &padded("temp"));
    record(&mut out, &padded("C"));
    let mut words = Vec::new();
    for w in d.iter() {
        words.extend_from_slice(&w.to_le_bytes());
    }
    record(&mut out, &words);
    out
}

fn frame(out: &mut Vec<u8>, time: f32, values: &[f32]) {
    record(out, &time.to_le_bytes());
    let mut payload = Vec::new();
    for v in values {
        payload.extend_from_slice(&v.to_le_bytes());
    }
    record(out, &payload);
}

/// A slice over i in [14,14], j in [0,10], k in [0,24]: 275 values a frame,
/// 945 frames.
fn room_fire_01() -> Vec<u8> {
    let mut out = header([14, 14, 0, 10, 0, 24]);
    for f in 0..945 {
        let values: Vec<f32> = (0..275).map(|i| 20.0 + (f * 275 + i) as f32 * 0.01).collect();
        frame(&mut out, f as f32 * 0.25, &values);
    }
    out
}

#[test]
fn parse_slice_simple() {
    let data = room_fire_01();
    let result = parse_slice_file(&data).unwrap();
    assert_eq!(result.header.quantity.trim(), "TEMPERATURE".to_string());
    assert_eq!(result.header.units.trim(), "C".to_string());
    assert_eq!(result.header.short_name.trim(), "temp".to_string());
    assert_eq!(
        result.header.dimensions,
        Dimensions { i_min: 14, i_max: 14, j_min: 0, j_max: 10, k_min: 0, k_max: 24 }
    );
    assert_eq!(result.frames.len(), 945);
    let mut frames = Vec::new();
    let mut parser = SliceParser::new(&data).unwrap();
    for i in 0..945 {
        let offset = parser.seek_frame(i).unwrap() as usize;
        let frame = parser.get_frame(i, &data[offset..]).unwrap();
        frames.push(frame);
    }
    assert_eq!(result.frames, frames);
}

#[test]
fn parse_slice_simple_bad01() {
    let mut data = room_fire_01();
    // The trailing tag of the quantity record.
    data[4 + 30] ^= 0x01;
    let result = parse_slice_file(&data);
    assert!(result.is_err())
}

#[test]
fn corrupt_leading_tag_of_second_record() {
    let mut data = room_fire_01();
    data[38] ^= 0x01;
    assert_eq!(parse_slice_file(&data).err(), Some(ParseSliceError::RecLengthError(38)));
}

#[test]
fn frame_at_matches_sequential_read() {
    let data = room_fire_01();
    let mut parser = SliceParser::new(&data).unwrap();
    let start = parser.header_length() as usize;
    assert_eq!(start, 3 * (8 + 30) + 32);
    assert_eq!(parser.frame_length(), 12 + 8 + 4 * 275);
    assert_eq!(parser.seek_next_frame(), parser.frame_length());
    let mut pos = start;
    let mut sequential = Vec::new();
    for _ in 0..501 {
        let f = parser.parse_frame(&data[pos..]).unwrap();
        pos += parser.frame_length() as usize;
        sequential.push(f);
    }
    assert_eq!(parser.current_frame(), 501);
    assert_eq!(parser.seek_frame(501), Some(pos as u64));
    let offset = parser.seek_frame(500).unwrap() as usize;
    let f = parser.get_frame(500, &data[offset..]).unwrap();
    assert_eq!(f.time, sequential[500].time);
    assert_eq!(f32::from_bits(f.time), 125.0);
    assert_eq!(f32::from_bits(f.values[0]), 20.0 + (500 * 275) as f32 * 0.01);
}

#[test]
fn truncated_file_keeps_complete_frames() {
    let mut data = header([0, 1, 0, 0, 0, 0]);
    frame(&mut data, 1.0, &[1.0, 2.0]);
    frame(&mut data, 2.0, &[3.0, 4.0]);
    data.truncate(data.len() - 3);
    let result = parse_slice_file(&data).unwrap();
    assert_eq!(result.frames.len(), 1);
    assert_eq!(f32::from_bits(result.frames[0].values[1]), 2.0);
}

#[test]
fn corrupt_frame_tag_is_a_framing_error() {
    let mut data = header([0, 0, 0, 0, 0, 0]);
    let start = data.len();
    frame(&mut data, 1.0, &[5.0]);
    let mut parser = SliceParser::new(&data).unwrap();
    let mut bad = data.clone();
    bad[start + 8] ^= 0x10;
    assert_eq!(parser.parse_frame(&bad[start..]), Err(ParseSliceError::RecLengthError(0)));
    let mut bad = data.clone();
    bad[start + 16 + 4] ^= 0x10;
    assert_eq!(parser.parse_frame(&bad[start..]), Err(ParseSliceError::RecLengthError(12)));
    assert_eq!(parser.current_frame(), 0);
    assert!(parser.parse_frame(&data[start..]).is_ok());
    assert_eq!(parser.current_frame(), 1);
}

#[test]
fn region_record_must_hold_six_words() {
    let mut data = Vec::new();
    record(&mut data, b"Q");
    record(&mut data, b"q");
    record(&mut data, b"u");
    record(&mut data, &[0u8; 20]);
    assert_eq!(SliceParser::new(&data).err(), Some(ParseSliceError::RecLengthError(27)));
}

#[test]
fn reversed_region_is_rejected() {
    let data = header([3, 2, 0, 0, 0, 0]);
    assert_eq!(SliceParser::new(&data).err(), Some(ParseSliceError::InvalidDimensions));
}

#[test]
fn short_header_is_truncated() {
    let data = header([0, 0, 0, 0, 0, 0]);
    assert_eq!(SliceParser::new(&data[..data.len() - 1]).err(), Some(ParseSliceError::Truncated));
}

#[test]
fn header_bytes_wanted_walks_the_records() {
    let data = header([0, 0, 0, 0, 0, 0]);
    assert_eq!(smv::slice::header_bytes_wanted(&[]), 4);
    assert_eq!(smv::slice::header_bytes_wanted(&data[..4]), 34);
    assert_eq!(smv::slice::header_bytes_wanted(&data[..38]), 4);
    assert_eq!(smv::slice::header_bytes_wanted(&data[..data.len() - 2]), 2);
    assert_eq!(smv::slice::header_bytes_wanted(&data), 0);
}
