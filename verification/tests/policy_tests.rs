use chamap::cha::{Key, IV, IV_SIZE, KEY_SIZE};
use chamap::hugepages::{choose_hugepage_size, select, HugePageClass};
use chamap::key::{iv_from_base64, iv_to_base64, key_from_base64, key_to_base64};
use chamap::Mode;

const MIB: usize = 1024 * 1024;
const GIB: usize = 1024 * 1024 * 1024;

#[test]
fn select_thresholds() {
    assert_eq!(select(0), HugePageClass::Smallest);
    assert_eq!(select(MIB - 1), HugePageClass::Smallest);
    assert_eq!(select(MIB), HugePageClass::Selected);
    assert_eq!(select(MIB + 1), HugePageClass::Selected);
    assert_eq!(select(GIB), HugePageClass::Selected);
    assert_eq!(select(GIB + 1), HugePageClass::Largest);
}

#[test]
fn choose_prefers_first_size_at_threshold() {
    let sizes = [2048usize, 1048576, 2097152];
    assert_eq!(choose_hugepage_size(&sizes), Some(1048576));
}

#[test]
fn choose_falls_back_to_second_smallest() {
    let sizes = [2048usize, 4096];
    assert_eq!(choose_hugepage_size(&sizes), Some(4096));
}

#[test]
fn choose_falls_back_to_smallest() {
    let sizes = [2048usize];
    assert_eq!(choose_hugepage_size(&sizes), Some(2048));
}

#[test]
fn choose_on_empty_list() {
    let sizes: [usize; 0] = [];
    assert_eq!(choose_hugepage_size(&sizes), None);
}

#[test]
fn mode_selectors() {
    assert_eq!(Mode::from_selector('e'), Some(Mode::Encrypt));
    assert_eq!(Mode::from_selector('E'), Some(Mode::Encrypt));
    assert_eq!(Mode::from_selector('d'), Some(Mode::Decrypt));
    assert_eq!(Mode::from_selector('k'), Some(Mode::Keygen));
    assert_eq!(Mode::from_selector('h'), None);
}

#[test]
fn key_round_trips_through_base64() {
    let zero_key = Key::from_bytes(&[]);
    let text = key_to_base64(&zero_key);
    let expected = "A".repeat(43) + "=";
    assert_eq!(text, expected);

    let back = key_from_base64(&text).expect("valid base64");
    assert_eq!(back.as_bytes(), zero_key.as_bytes());
}

#[test]
fn short_key_text_pads_with_zeros() {
    // "aGk=" denotes the two bytes of "hi".
    let key = key_from_base64("aGk=").expect("valid base64");
    let bytes = key.as_bytes();
    assert_eq!(bytes.len(), KEY_SIZE);
    assert_eq!(&bytes[..2], b"hi");
    assert!(bytes[2..].iter().all(|&b| b == 0));
}

#[test]
fn long_key_text_is_cut() {
    let long = [0x41u8; 64];
    let text = base64::encode(&long[..]);
    let key = key_from_base64(&text).expect("valid base64");
    assert_eq!(key.as_bytes(), &long[..KEY_SIZE]);
}

#[test]
fn malformed_key_text_is_rejected() {
    assert!(key_from_base64("!!! not base64 !!!").is_err());
    assert!(iv_from_base64("@@@@").is_err());
}

#[test]
fn iv_round_trips_through_base64() {
    let iv = IV::from_bytes(&[1, 2, 3, 4, 5, 6, 7, 8, 9, 10, 11, 12]);
    let text = iv_to_base64(&iv);
    let back = iv_from_base64(&text).expect("valid base64");
    assert_eq!(back.as_bytes(), iv.as_bytes());
    assert_eq!(back.as_bytes().len(), IV_SIZE);
}
