use hashtest::{Hashit, HtString, StringHash};

// The first time an input is checked, it shows up as having changed.
#[test]
fn has_changed_given_new_items_is_true() {
    let input = "/this/is/new";
    let output = "output";
    let mut hashit = Hashit {
        inner: HtString::new(),
        hasher: StringHash {},
    };
    let has_changed = hashit.has_changed(&vec![input][..], output);
    assert!(has_changed.unwrap());
}

// Given an input, it first shows up as changed, and on a second inspection as
// not changed.
#[test]
fn has_changed_given_existing_item_is_false() {
    let input = "/this/is/new";
    let output = "output";
    let mut hashit = Hashit {
        inner: HtString::new(),
        hasher: StringHash {},
    };
    let has_changed = hashit.has_changed(&vec![input][..], output);
    assert_eq!(has_changed.unwrap(), true);
    let has_changed = hashit.has_changed(&vec![input][..], output);
    assert_eq!(has_changed.unwrap(), false);
}

// The same as above, with several inputs.
#[test]
fn has_changed_given_existing_items_is_false() {
    let input = "/this/is/new";
    let input2: &str = "/second/input";
    let output = "output";
    let mut hashit = Hashit {
        inner: HtString::new(),
        hasher: StringHash {},
    };
    let has_changed = hashit.has_changed(&vec![input, input2][..], output);
    assert_eq!(has_changed.unwrap(), true);
    let has_changed = hashit.has_changed(&vec![input, input2][..], output);
    assert_eq!(has_changed.unwrap(), false);
}
