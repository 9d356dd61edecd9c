use socket_pump::transform::{deserialize, serialize, TransformRecord, COUNT_BYTES, RECORD_BYTES};

fn record(translation: [f32; 3], rotation: [f32; 4], scale: [f32; 3]) -> TransformRecord {
    TransformRecord {
        translation: translation.map(f32::to_bits),
        rotation: rotation.map(f32::to_bits),
        scale: scale.map(f32::to_bits),
    }
}

fn cube() -> TransformRecord {
    record([0.0, 2.5, 0.0], [0.0, 0.0, 0.0, 1.0], [1.0, 1.0, 1.0])
}

fn camera() -> TransformRecord {
    record([-2.5, 4.5, 9.0], [-0.2, -0.13, -0.03, 0.97], [1.0, 1.0, 1.0])
}

#[test]
fn an_empty_snapshot_is_eight_zero_bytes() {
    assert_eq!(serialize(&vec![]), vec![0u8; 8]);
}

#[test]
fn one_record_is_written_word_by_word() {
    let record = TransformRecord {
        translation: [0x0403_0201, 0x0807_0605, 0x0c0b_0a09],
        rotation: [0x100f_0e0d, 0x1413_1211, 0x1817_1615, 0x1c1b_1a19],
        scale: [0x201f_1e1d, 0x2423_2221, 0x2827_2625],
    };
    let mut expected: Vec<u8> = vec![1, 0, 0, 0, 0, 0, 0, 0];
    expected.extend(1u8..=40);
    assert_eq!(serialize(&vec![record]), expected);
}

#[test]
fn the_cube_is_written_as_its_floats() {
    let payload = serialize(&vec![cube()]);
    let expected: Vec<u8> = vec![
        1, 0, 0, 0, 0, 0, 0, 0, // one record
        0, 0, 0, 0, 0, 0, 0x20, 0x40, 0, 0, 0, 0, // 0.0, 2.5, 0.0
        0, 0, 0, 0, 0, 0, 0, 0, 0, 0, 0, 0, 0, 0, 0x80, 0x3f, // 0.0, 0.0, 0.0, 1.0
        0, 0, 0x80, 0x3f, 0, 0, 0x80, 0x3f, 0, 0, 0x80, 0x3f, // 1.0, 1.0, 1.0
    ];
    assert_eq!(payload, expected);
}

#[test]
fn the_payload_is_what_the_floats_serialize_to() {
    let floats: Vec<([f32; 3], [f32; 4], [f32; 3])> = vec![
        ([0.0, 2.5, 0.0], [0.0, 0.0, 0.0, 1.0], [1.0, 1.0, 1.0]),
        ([4.0, 8.0, 4.0], [0.0, 0.0, 0.0, 1.0], [1.0, 1.0, 1.0]),
        ([-2.5, 4.5, 9.0], [-0.2, -0.13, -0.03, 0.97], [0.5, 2.0, -1.0]),
    ];
    let records: Vec<TransformRecord> =
        floats.iter().map(|(t, r, s)| record(*t, *r, *s)).collect();
    assert_eq!(serialize(&records), bincode::serialize(&floats).unwrap());
}

#[test]
fn the_payload_has_the_count_and_forty_bytes_a_record() {
    for count in 0..5usize {
        let records = vec![camera(); count];
        let payload = serialize(&records);
        assert_eq!(payload.len(), COUNT_BYTES + RECORD_BYTES * count);
        assert_eq!(payload[..8], (count as u64).to_le_bytes());
    }
    assert_eq!(COUNT_BYTES, 8);
    assert_eq!(RECORD_BYTES, 40);
}

#[test]
fn a_snapshot_comes_back_from_the_outside_decoder() {
    let records = vec![cube(), camera(), cube()];
    let payload = serialize(&records);
    let decoded: Vec<([f32; 3], [f32; 4], [f32; 3])> = bincode::deserialize(&payload).unwrap();
    assert_eq!(decoded.len(), 3);
    let back: Vec<TransformRecord> =
        decoded.iter().map(|(t, r, s)| record(*t, *r, *s)).collect();
    assert_eq!(back, records);
}

#[test]
fn a_snapshot_comes_back_from_deserialize() {
    for count in 0..6usize {
        let mut records = Vec::new();
        for i in 0..count {
            let x = i as f32;
            records.push(record([x, -x, 0.5 * x], [0.0, 1.0, 0.0, x], [1.0, 2.0, 3.0]));
        }
        let payload = serialize(&records);
        assert_eq!(deserialize(&payload), Some(records));
    }
}

#[test]
fn every_bit_pattern_comes_back() {
    let records = vec![
        TransformRecord {
            translation: [0, u32::MAX, 0x7fc0_0000],
            rotation: [0x8000_0000, 0xff80_0000, 1, 0xdead_beef],
            scale: [0x0102_0304, 0x7f80_0000, 0x0000_00ff],
        },
        cube(),
    ];
    assert_eq!(deserialize(&serialize(&records)), Some(records));
}

#[test]
fn bytes_too_few_for_a_count_are_no_payload() {
    assert_eq!(deserialize(&[]), None);
    assert_eq!(deserialize(&[0, 0, 0, 0, 0, 0, 0]), None);
}

#[test]
fn bytes_that_disagree_with_their_count_are_no_payload() {
    let payload = serialize(&vec![cube(), camera()]);
    assert_eq!(deserialize(&payload[..payload.len() - 1]), None);
    assert_eq!(deserialize(&payload[..payload.len() - 40]), None);
    let mut longer = payload.clone();
    longer.push(0);
    assert_eq!(deserialize(&longer), None);
    longer.extend([0u8; 39]);
    assert_eq!(deserialize(&longer), None);
    let mut miscounted = payload.clone();
    miscounted[7] = 1;
    assert_eq!(deserialize(&miscounted), None);
    assert_eq!(deserialize(&payload), Some(vec![cube(), camera()]));
}

#[test]
fn a_count_with_nothing_behind_it_is_the_empty_snapshot_only_for_zero() {
    assert_eq!(deserialize(&[0; 8]), Some(vec![]));
    assert_eq!(deserialize(&[1, 0, 0, 0, 0, 0, 0, 0]), None);
    assert_eq!(deserialize(&[0xff; 8]), None);
}
