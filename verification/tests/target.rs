use multiverse9core::api::Error;
use multiverse9core::target::Target;

#[test]
fn target_without_mark_has_no_address() {
    let target = Target::parse(b"01D39ZY06FGSCTVN4T2V9PKHFZ").unwrap();
    assert_eq!(target.key, "01D39ZY06FGSCTVN4T2V9PKHFZ");
    assert_eq!(target.address, None);
}

#[test]
fn target_with_mark_has_an_address() {
    let target = Target::parse(b"01D39ZY06FGSCTVN4T2V9PKHFZ@host:4000").unwrap();
    assert_eq!(target.key, "01D39ZY06FGSCTVN4T2V9PKHFZ");
    assert_eq!(target.address, Some("host:4000".to_string()));
}

#[test]
fn target_key_must_take_26_bytes() {
    assert!(matches!(Target::parse(b"short"), Err(Error::InvalidKey(ref k)) if k == "short"));
    assert!(matches!(Target::parse(b"@host"), Err(Error::InvalidKey(ref k)) if k.is_empty()));
    assert!(matches!(
        Target::parse(b"01D39ZY06FGSCTVN4T2V9PKHFZ0"),
        Err(Error::InvalidKey(ref k)) if k == "01D39ZY06FGSCTVN4T2V9PKHFZ0"
    ));
}

#[test]
fn target_key_is_measured_in_bytes_of_its_text() {
    // 13 characters of two bytes each
    let key = "\u{e9}".repeat(13);
    let target = Target::parse(key.as_bytes()).unwrap();
    assert_eq!(target.key, key);
    // 26 characters, 52 bytes
    let key = "\u{e9}".repeat(26);
    assert!(matches!(Target::parse(key.as_bytes()), Err(Error::InvalidKey(_))));
}

#[test]
fn target_key_that_is_not_text_is_read_with_replacements() {
    // one malformed byte becomes a replacement character of three bytes
    let mut bytes = vec![0xffu8];
    bytes.extend_from_slice(b"01D39ZY06FGSCTVN4T2V9PK");
    let target = Target::parse(&bytes).unwrap();
    assert_eq!(target.key, "\u{fffd}01D39ZY06FGSCTVN4T2V9PK");
    let mut bytes = vec![0xffu8];
    bytes.extend_from_slice(b"01D39ZY06FGSCTVN4T2V9PKHF");
    assert!(matches!(
        Target::parse(&bytes),
        Err(Error::InvalidKey(ref k)) if k == "\u{fffd}01D39ZY06FGSCTVN4T2V9PKHF"
    ));
}

#[test]
fn target_from_text_checks_the_key() {
    let target = Target::new("01D39ZY06FGSCTVN4T2V9PKHFZ".to_string(), Some("a:1".to_string())).unwrap();
    assert_eq!(target.key, "01D39ZY06FGSCTVN4T2V9PKHFZ");
    assert_eq!(target.address, Some("a:1".to_string()));
    assert!(matches!(
        Target::new("nope".to_string(), None),
        Err(Error::InvalidKey(ref k)) if k == "nope"
    ));
}

#[test]
fn empty_target_has_an_empty_key() {
    assert!(matches!(Target::parse(b""), Err(Error::InvalidKey(ref k)) if k.is_empty()));
}
