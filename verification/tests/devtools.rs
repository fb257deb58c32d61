use blueflame::devtools::map_key;

#[test]
fn map_key_covers_enter_and_rejects_unknown() {
    assert!(map_key("Enter").is_ok());
    assert!(map_key("NotAKey").is_err());
}
