use hashtest::{LocusError, Platform};

#[test]
fn platform_full_and_short_names() {
    assert_eq!(Platform::from("win7_64"), Ok(Platform::Win7_64));
    assert_eq!(Platform::from("win10"), Ok(Platform::Win10_64));
    assert_eq!(Platform::from("osx10_64"), Ok(Platform::Osx10_64));
    assert_eq!(Platform::from("cent6"), Ok(Platform::Cent6_64));
    assert_eq!(Platform::from("cent7_64"), Ok(Platform::Cent7_64));
    assert_eq!(Platform::from("cent8"), Ok(Platform::Cent8_64));
}

#[test]
fn platform_names_ignore_case() {
    assert_eq!(Platform::from("WIN10_64"), Ok(Platform::Win10_64));
    assert_eq!(Platform::from("Cent7"), Ok(Platform::Cent7_64));
    let parsed: Platform = "OSX10".parse().unwrap();
    assert_eq!(parsed, Platform::Osx10_64);
}

#[test]
fn platform_unknown_name_is_invalid() {
    assert_eq!(
        Platform::from("Amiga500"),
        Err(LocusError::InvalidPlatform("Amiga500".to_string()))
    );
    assert_eq!(
        Platform::from("win7_32"),
        Err(LocusError::InvalidPlatform("win7_32".to_string()))
    );
}

#[test]
fn platform_as_str_round_trips() {
    for p in [
        Platform::Win7_64,
        Platform::Win10_64,
        Platform::Osx10_64,
        Platform::Cent6_64,
        Platform::Cent7_64,
        Platform::Cent8_64,
    ] {
        assert_eq!(Platform::from(p.as_str()), Ok(p));
    }
    assert_eq!(Platform::Cent8_64.as_str(), "cent8_64");
}
