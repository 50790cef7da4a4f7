use byteorder::{BigEndian, WriteBytesExt};
use druid_segment::column::vsize_ints::VSizeColumnarInts;
use druid_segment::error::ErrorKind;

fn build_vsize_ints(num_bytes: u8, values: &[u32]) -> Vec<u8> {
    let mut buf = Vec::new();
    buf.push(0x00);
    buf.push(num_bytes);
    let buffer_size = values.len() * num_bytes as usize;
    buf.write_i32::<BigEndian>(buffer_size as i32).unwrap();
    for &v in values {
        let nb = num_bytes as usize;
        for i in (0..nb).rev() {
            buf.push(((v >> (i * 8)) & 0xFF) as u8);
        }
    }
    buf
}

#[test]
fn test_single_byte() {
    let data = build_vsize_ints(1, &[0, 1, 2, 255]);
    let col = VSizeColumnarInts::from_bytes(&data).unwrap();
    assert_eq!(col.len(), 4);
    assert_eq!(col.get(0).unwrap(), 0);
    assert_eq!(col.get(1).unwrap(), 1);
    assert_eq!(col.get(2).unwrap(), 2);
    assert_eq!(col.get(3).unwrap(), 255);
}

#[test]
fn test_two_bytes() {
    let data = build_vsize_ints(2, &[0, 256, 1000, 65535]);
    let col = VSizeColumnarInts::from_bytes(&data).unwrap();
    assert_eq!(col.len(), 4);
    assert_eq!(col.get(0).unwrap(), 0);
    assert_eq!(col.get(1).unwrap(), 256);
    assert_eq!(col.get(2).unwrap(), 1000);
    assert_eq!(col.get(3).unwrap(), 65535);
}

#[test]
fn test_to_vec() {
    let values = &[10, 20, 30];
    let data = build_vsize_ints(1, values);
    let col = VSizeColumnarInts::from_bytes(&data).unwrap();
    assert_eq!(col.to_vec().unwrap(), vec![10, 20, 30]);
}

#[test]
fn round_trip_for_every_width() {
    let cases: [(u8, Vec<u32>); 4] = [
        (1, vec![0, 7, 255]),
        (2, vec![0, 255, 256, 65535]),
        (3, vec![0, 65536, 0x00AB_CDEF, 0x00FF_FFFF]),
        (4, vec![0, 0x0100_0000, 0xDEAD_BEEF, u32::MAX]),
    ];
    for (width, values) in cases.iter() {
        let data = build_vsize_ints(*width, values);
        let col = VSizeColumnarInts::from_bytes(&data).unwrap();
        assert_eq!(col.len(), values.len());
        assert!(!col.is_empty());
        assert_eq!(col.to_vec().unwrap(), *values);
        for (i, v) in values.iter().enumerate() {
            assert_eq!(col.get(i).unwrap(), *v);
        }
        assert_eq!(col.total_size(), 6 + values.len() * *width as usize);
        assert_eq!(col.total_size(), data.len());
    }
}

#[test]
fn width_zero_and_width_five_are_invalid_data() {
    for width in [0u8, 5u8, 200u8] {
        let data = [0x00, width, 0, 0, 0, 0];
        assert_eq!(
            VSizeColumnarInts::from_bytes(&data).err().unwrap().kind(),
            ErrorKind::InvalidData
        );
    }
}

#[test]
fn other_version_short_header_and_negative_size_are_invalid_data() {
    assert_eq!(
        VSizeColumnarInts::from_bytes(&[0x01, 1, 0, 0, 0, 0]).err().unwrap().kind(),
        ErrorKind::InvalidData
    );
    assert_eq!(
        VSizeColumnarInts::from_bytes(&[0x00, 1, 0, 0, 0]).err().unwrap().kind(),
        ErrorKind::InvalidData
    );
    assert_eq!(
        VSizeColumnarInts::from_bytes(&[0x00, 1, 0xFF, 0xFF, 0xFF, 0xFF]).err().unwrap().kind(),
        ErrorKind::InvalidData
    );
}

#[test]
fn index_out_of_range_is_invalid_data() {
    let data = build_vsize_ints(2, &[1, 2]);
    let col = VSizeColumnarInts::from_bytes(&data).unwrap();
    assert_eq!(col.get(2).unwrap_err().kind(), ErrorKind::InvalidData);
    assert_eq!(col.get(usize::MAX).unwrap_err().kind(), ErrorKind::InvalidData);
}

#[test]
fn truncated_stream_fails_at_the_last_value() {
    let full = build_vsize_ints(2, &[258, 772]);
    let cut = &full[..full.len() - 1];
    let col = VSizeColumnarInts::from_bytes(cut).unwrap();
    assert_eq!(col.len(), 2);
    assert_eq!(col.get(0).unwrap(), 258);
    assert_eq!(col.get(1).unwrap_err().kind(), ErrorKind::InvalidData);
    assert_eq!(col.to_vec().unwrap_err().kind(), ErrorKind::InvalidData);
}

#[test]
fn count_is_the_buffer_size_divided_by_the_width() {
    let data = [0x00, 3, 0, 0, 0, 7, 1, 2, 3, 4, 5, 6, 7];
    let col = VSizeColumnarInts::from_bytes(&data).unwrap();
    assert_eq!(col.len(), 2);
    assert_eq!(col.to_vec().unwrap(), vec![0x010203, 0x040506]);
    assert_eq!(col.total_size(), 12);
}

#[test]
fn empty_stream() {
    let data = build_vsize_ints(4, &[]);
    let col = VSizeColumnarInts::from_bytes(&data).unwrap();
    assert!(col.is_empty());
    assert_eq!(col.to_vec().unwrap(), Vec::<u32>::new());
}
