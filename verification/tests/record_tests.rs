use graphflow::record::{
    decode_frame, decode_record, encode_frame, encode_record, BinaryNodeData, Vec3Data,
    NODE_RECORD_BYTES,
};
use std::mem::size_of;

fn sample_record() -> BinaryNodeData {
    BinaryNodeData {
        position: Vec3Data {
            x: 1.0f32.to_bits(),
            y: (-2.5f32).to_bits(),
            z: 3.25f32.to_bits(),
        },
        velocity: Vec3Data {
            x: 0.5f32.to_bits(),
            y: 0.0f32.to_bits(),
            z: (-0.125f32).to_bits(),
        },
        mass: 9,
        flags: 1,
        padding: [0, 0],
    }
}

#[test]
fn test_node_data_memory_layout() {
    println!("Checking BinaryNodeData memory layout");
    assert_eq!(size_of::<BinaryNodeData>(), 28); // 24 bytes for position/velocity + 4 bytes for mass/flags/padding
}

#[test]
fn test_record_round_trip() {
    let d = sample_record();
    let bytes = encode_record(&d);
    assert_eq!(bytes.len(), NODE_RECORD_BYTES);
    let back = decode_record(&bytes);
    assert_eq!(back.position, d.position);
    assert_eq!(back.velocity, d.velocity);
    assert_eq!(back.mass, d.mass);
    assert_eq!(back.flags, d.flags);
    assert_eq!(back.padding, d.padding);
    assert_eq!(f32::from_bits(back.position.y), -2.5f32);
}

#[test]
fn test_record_little_endian_layout() {
    let mut d = sample_record();
    d.position.x = 1.0f32.to_bits();
    let bytes = encode_record(&d);
    // 1.0f32 is 0x3F800000, little-endian on the wire.
    assert_eq!(&bytes[0..4], &[0x00, 0x00, 0x80, 0x3F]);
    assert_eq!(bytes[24], d.mass);
    assert_eq!(bytes[25], d.flags);
}

#[test]
fn test_frame_length_is_multiple_of_record_size() {
    let records = vec![sample_record(), sample_record(), sample_record()];
    let frame = encode_frame(&records);
    assert_eq!(frame.len(), 3 * NODE_RECORD_BYTES);
    assert_eq!(frame.len() % NODE_RECORD_BYTES, 0);
    let back = decode_frame(&frame).expect("a whole number of records");
    assert_eq!(back.len(), 3);
    assert_eq!(back[1], records[1]);
}

#[test]
fn test_empty_frame() {
    let records: Vec<BinaryNodeData> = Vec::new();
    let frame = encode_frame(&records);
    assert_eq!(frame.len(), 0);
    let back = decode_frame(&frame).expect("empty frame decodes");
    assert_eq!(back.len(), 0);
}

#[test]
fn test_decode_frame_rejects_partial_record() {
    let bytes = vec![0u8; 27];
    assert!(decode_frame(&bytes).is_none());
    let bytes = vec![0u8; 29];
    assert!(decode_frame(&bytes).is_none());
}
