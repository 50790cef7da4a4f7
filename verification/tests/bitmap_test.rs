use druid_segment::column::bitmap::{accept_bitmap, read_bitmap, read_null_bitmap};
use druid_segment::error::ErrorKind;
use roaring::RoaringBitmap;

fn serialized(members: &[u32]) -> Vec<u8> {
    let mut bitmap = RoaringBitmap::new();
    for m in members {
        bitmap.insert(*m);
    }
    let mut bytes = vec![0x01];
    bitmap.serialize_into(&mut bytes).unwrap();
    bytes
}

#[test]
fn empty_payload_is_the_empty_set() {
    assert!(read_bitmap(&[]).unwrap().is_empty());
    assert!(read_null_bitmap(&[]).unwrap().is_empty());
}

#[test]
fn roaring_payload_is_decoded() {
    let members = [0u32, 3, 4, 65_536, 1_000_000, u32::MAX];
    let bitmap = read_bitmap(&serialized(&members)).unwrap();
    assert_eq!(bitmap.len(), members.len() as u64);
    for m in members.iter() {
        assert!(bitmap.contains(*m));
    }
    assert!(!bitmap.contains(1));
    assert_eq!(read_null_bitmap(&serialized(&members)).unwrap(), bitmap);
}

#[test]
fn legacy_bitmap_is_unsupported() {
    assert_eq!(
        read_bitmap(&[0x00, 1, 2, 3]).unwrap_err().kind(),
        ErrorKind::UnsupportedColumnType
    );
    assert_eq!(
        read_null_bitmap(&[0x00]).unwrap_err().kind(),
        ErrorKind::UnsupportedColumnType
    );
}

#[test]
fn unknown_bitmap_type_is_invalid_data() {
    assert_eq!(read_bitmap(&[0x02, 0, 0]).unwrap_err().kind(), ErrorKind::InvalidData);
    assert_eq!(read_bitmap(&[0xFF]).unwrap_err().kind(), ErrorKind::InvalidData);
}

#[test]
fn malformed_roaring_payload_is_invalid_data() {
    assert_eq!(read_bitmap(&[0x01]).unwrap_err().kind(), ErrorKind::InvalidData);
    assert_eq!(read_bitmap(&[0x01, 9, 9, 9, 9]).unwrap_err().kind(), ErrorKind::InvalidData);
    let full = serialized(&[1, 2, 3]);
    assert_eq!(
        read_bitmap(&full[..full.len() - 1]).unwrap_err().kind(),
        ErrorKind::InvalidData
    );
}

#[test]
fn decoder_outcomes_are_handed_on() {
    let mut bitmap = RoaringBitmap::new();
    bitmap.insert(42);
    assert_eq!(accept_bitmap(Ok(bitmap.clone())).unwrap(), bitmap);
    let failure = std::io::Error::new(std::io::ErrorKind::InvalidData, "broken");
    assert_eq!(accept_bitmap(Err(failure)).unwrap_err().kind(), ErrorKind::InvalidData);
}
