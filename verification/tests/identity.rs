use slot_machine::is_valid_account_id;

#[test]
fn accepts_well_formed_identities() {
    assert!(is_valid_account_id("ab"));
    assert!(is_valid_account_id("owner.near"));
    assert!(is_valid_account_id("a-b_c.d9"));
    assert!(is_valid_account_id("1234567890"));
    let longest = "a".repeat(64);
    assert!(is_valid_account_id(&longest));
}

#[test]
fn rejects_wrong_length() {
    assert!(!is_valid_account_id(""));
    assert!(!is_valid_account_id("a"));
    let too_long = "a".repeat(65);
    assert!(!is_valid_account_id(&too_long));
}

#[test]
fn rejects_bad_characters() {
    assert!(!is_valid_account_id("Alice"));
    assert!(!is_valid_account_id("has space"));
    assert!(!is_valid_account_id("caf\u{e9}"));
    assert!(!is_valid_account_id("semi;colon"));
}

#[test]
fn rejects_misplaced_separators() {
    assert!(!is_valid_account_id("-leading"));
    assert!(!is_valid_account_id("trailing."));
    assert!(!is_valid_account_id("dou..ble"));
    assert!(!is_valid_account_id("mix-_ed"));
    assert!(is_valid_account_id("sin-gle.ok"));
}
