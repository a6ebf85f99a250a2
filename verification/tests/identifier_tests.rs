use eui::{Eui48, Eui64};
use heapless::FnvIndexMap;

#[test]
fn test_eui48_to_string() {
    let eui48 = Eui48::from(85204980412143);

    assert_eq!(eui48.to_string(), "4d7e54972eef")
}

#[test]
fn test_eui64_to_string() {
    let eui64 = Eui64::from(5583992946972634863);

    assert_eq!(eui64.to_string(), "4d7e540000972eef")
}

#[test]
fn test_eui48_to_eui64() {
    let eui48 = Eui48::from(85204980412143);
    let eui64 = Eui64::from(eui48);

    assert_eq!(eui64.to_string(), "4d7e540000972eef")
}

#[test]
fn test_u64_from_eui48() {
    let eui48 = Eui48::from(85204980412143);
    assert_eq!(u64::from(eui48), 85204980412143);
}

#[test]
fn test_u64_from_eui64() {
    let eui64 = Eui64::from(5583992946972634863);
    assert_eq!(u64::from(eui64), 5583992946972634863);
}

#[test]
fn test_hash_eui48() {
    let eui48 = Eui48::from(85204980412143);

    let mut fnv_index_map: FnvIndexMap<Eui48, u8, 2> = FnvIndexMap::new();
    let _ = fnv_index_map.insert(eui48, 1);

    assert_eq!(1, *fnv_index_map.get(&eui48).unwrap())
}

#[test]
fn test_hash_eui64() {
    let eui64 = Eui64::from(5583992946972634863);

    let mut fnv_index_map: FnvIndexMap<Eui64, u8, 2> = FnvIndexMap::new();
    let _ = fnv_index_map.insert(eui64, 1);

    assert_eq!(1, *fnv_index_map.get(&eui64).unwrap())
}

#[test]
fn test_u64_roundtrip_bounds() {
    assert_eq!(u64::from(Eui48::from(0)), 0);
    assert_eq!(u64::from(Eui48::from(0xffff_ffff_ffff)), 0xffff_ffff_ffff);
    assert_eq!(u64::from(Eui64::from(0)), 0);
    assert_eq!(u64::from(Eui64::from(u64::MAX)), u64::MAX);
}

#[test]
fn test_eui48_from_truncates_to_48_bits() {
    let with_high_bits = Eui48::from(0xabcd_4d7e_5497_2eef);
    let without = Eui48::from(0x4d7e_5497_2eef);
    assert_eq!(with_high_bits, without);
}

#[test]
fn test_eui48_bytes_layout() {
    let eui48 = Eui48::from(85204980412143);
    assert_eq!(eui48.0, [0x4d, 0x7e, 0x54, 0x97, 0x2e, 0xef]);
}

#[test]
fn test_eui48_to_eui64_bytes_layout() {
    let eui64 = Eui64::from(Eui48::from(85204980412143));
    assert_eq!(eui64.0, [0x4d, 0x7e, 0x54, 0x00, 0x00, 0x97, 0x2e, 0xef]);
}
