use hashtest::utils::hash_contents;
use hashtest::{CalcHash, FetchCachedHash, Hashit, HashitError, HtString, Open, OpenMode, OpenMut, StringHash};

fn tracker() -> Hashit<HtString, StringHash> {
    Hashit::new(HtString::new(), StringHash::new())
}

fn hex(bytes: &[u8]) -> String {
    bytes.iter().map(|b| format!("{:02x}", b)).collect()
}

#[test]
fn swapped_order_after_two_inputs_reports_change() {
    let mut hashit = tracker();
    assert!(hashit.has_changed(&["/this/is/new", "/second/input"], "output").unwrap());
    assert!(!hashit.has_changed(&["/this/is/new", "/second/input"], "output").unwrap());
    assert!(hashit.has_changed(&["/second/input", "/this/is/new"], "output").unwrap());
}

#[test]
fn empty_inputs_against_fresh_key_report_no_change() {
    let mut hashit = tracker();
    assert_eq!(hashit.has_changed(&[], "output"), Ok(false));
    // The entry now exists, empty.
    assert!(hashit.inner.entry_exists("output"));
    assert_eq!(hashit.inner.open("output"), Ok(Vec::new()));
}

#[test]
fn first_use_of_each_key_reports_change() {
    let mut hashit = tracker();
    assert_eq!(hashit.has_changed(&["a"], "k1"), Ok(true));
    assert_eq!(hashit.has_changed(&["a", "b", "c"], "k2"), Ok(true));
    assert_eq!(hashit.has_changed(&[""], "k3"), Ok(true));
}

#[test]
fn change_then_no_change() {
    let mut hashit = tracker();
    assert_eq!(hashit.has_changed(&["x", "y"], "out"), Ok(true));
    assert_eq!(hashit.has_changed(&["x", "y"], "out"), Ok(false));
}

#[test]
fn one_byte_changed_reports_change() {
    let mut hashit = tracker();
    assert_eq!(hashit.has_changed(&["/this/is/new", "/second/input"], "output"), Ok(true));
    assert_eq!(hashit.has_changed(&["/this/is/nex", "/second/input"], "output"), Ok(true));
    assert_eq!(hashit.has_changed(&["/this/is/nex", "/second/input"], "output"), Ok(false));
}

#[test]
fn no_change_stays_no_change() {
    let mut hashit = tracker();
    assert_eq!(hashit.has_changed(&["p"], "out"), Ok(true));
    for _ in 0..5 {
        assert_eq!(hashit.has_changed(&["p"], "out"), Ok(false));
    }
}

#[test]
fn stored_bytes_equal_combined_hash() {
    let mut hashit = tracker();
    let inputs = ["/this/is/new", "/second/input"];
    assert_eq!(hashit.has_changed(&inputs, "output"), Ok(true));
    let expected = StringHash::new().calc_hash(&inputs).unwrap();
    assert_eq!(expected.len(), 128);
    assert_eq!(hashit.inner.open("output"), Ok(expected));
}

#[test]
fn keys_are_independent() {
    let mut hashit = tracker();
    assert_eq!(hashit.has_changed(&["a"], "one"), Ok(true));
    assert_eq!(hashit.has_changed(&["b"], "two"), Ok(true));
    assert_eq!(hashit.has_changed(&["a"], "one"), Ok(false));
    assert_eq!(hashit.has_changed(&["b"], "two"), Ok(false));
}

#[test]
fn digest_of_empty_content() {
    let r = hash_contents(&[Vec::new()]);
    assert_eq!(
        hex(&r),
        "786a02f742015903c6c6fd852552d272912f4740e15847618a86e217f71f5419\
         d25e1031afee585313896444934eb04b903a685b1448b755d56f701afe9be2ce"
    );
}

#[test]
fn digest_of_abc() {
    let r = hash_contents(&[b"abc".to_vec()]);
    assert_eq!(
        hex(&r),
        "ba80a53f981c4d0d6a2797b69f12f6e94c212f14685ac4b74b12bb6fdbffa2d1\
         7d87c5392aab792dc252d5de4533cc9518d38aa8dbf1925ab92386edd4009923"
    );
}

#[test]
fn combined_hash_concatenates_digests_in_order() {
    let a = hash_contents(&[b"abc".to_vec()]);
    let e = hash_contents(&[Vec::new()]);
    let both = hash_contents(&[b"abc".to_vec(), Vec::new()]);
    assert_eq!(both, [a.clone(), e.clone()].concat());
    let swapped = hash_contents(&[Vec::new(), b"abc".to_vec()]);
    assert_eq!(swapped, [e, a].concat());
    assert!(hash_contents(&[]).is_empty());
}

#[test]
fn string_hash_hashes_identifier_bytes() {
    let h = StringHash::new().calc_hash(&["abc"]).unwrap();
    assert_eq!(h, hash_contents(&[b"abc".to_vec()]));
    assert_ne!(h, b"abc".to_vec());
}

#[test]
fn open_of_absent_entry_is_not_found() {
    let store = HtString::new();
    assert!(!store.entry_exists("missing"));
    match store.open("missing") {
        Err(HashitError::NotFound { file, .. }) => assert_eq!(file, "missing"),
        other => panic!("unexpected {:?}", other),
    }
}

#[test]
fn write_modes_append_and_truncate() {
    let mut store = HtString::new();
    store.open_mut("k", OpenMode::WriteAppend, &[1, 2]).unwrap();
    store.open_mut("k", OpenMode::WriteAppend, &[3]).unwrap();
    assert_eq!(store.open("k"), Ok(vec![1, 2, 3]));
    store.open_mut("k", OpenMode::WriteTruncate, &[9]).unwrap();
    assert_eq!(store.open("k"), Ok(vec![9]));
}

#[test]
fn create_keeps_existing_and_fetch_creates_absent() {
    let mut store = HtString::new();
    store.put("k", vec![4, 5]);
    store.create("k").unwrap();
    assert_eq!(store.get("k"), Some(vec![4, 5]));
    store.create("new").unwrap();
    assert_eq!(store.get("new"), Some(Vec::new()));
    assert_eq!(store.fetch_cached_hash("other"), Ok(Vec::new()));
    assert!(store.entry_exists("other"));
    assert_eq!(store.fetch_cached_hash("k"), Ok(vec![4, 5]));
}
