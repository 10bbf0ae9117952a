#![allow(non_snake_case)]

use rhotic::minibuffer::{Bite, Command};

#[test]
fn back_and_forth_conversion() {
    let CCC = "S-space";
    assert_eq!(Bite::from_string(CCC).unwrap().to_string(), "S-space");

    assert_ne!(Bite::from_string("AS-a").unwrap().to_string(), "AS-a");
}

#[test]
fn modifiers_are_written_in_canonical_order() {
    let b = Bite::from_string("AS-a").unwrap();
    assert!(b.shift);
    assert!(b.alt);
    assert!(!b.control);
    assert_eq!(b.key, "a");
    assert_eq!(b.to_string(), "SA-a");

    let b = Bite::from_string("CS-enter").unwrap();
    assert_eq!(b.to_string(), "SC-enter");
}

#[test]
fn bare_key_names_parse_without_modifiers() {
    let b = Bite::from_string("space").unwrap();
    assert!(!b.shift && !b.control && !b.alt);
    assert_eq!(b.key, "space");
    assert_eq!(b.to_string(), "space");

    let b = Bite::from_string("f12").unwrap();
    assert_eq!(b.key, "f12");
}

#[test]
fn unknown_keys_and_empty_text_are_rejected() {
    assert!(Bite::from_string("").is_none());
    assert!(Bite::from_string("S-").is_none());
    assert!(Bite::from_string("S-nosuchkey").is_none());
    assert!(Bite::from_string("pageup").is_none());
    assert!(Bite::from_string("arrowdown").is_none());
}

#[test]
fn four_modifier_letters_leave_an_empty_key() {
    let b = Bite::from_string("SCAS").unwrap();
    assert!(b.shift && b.control && b.alt);
    assert_eq!(b.key, "");
    assert_eq!(b.to_string(), "SCA-");
}

#[test]
fn commands_round_trip_through_text() {
    let c = Command::from_string("S-space C-a tab").unwrap();
    assert_eq!(c.to_string(), "S-space C-a tab");
}

#[test]
fn commands_reject_bad_pieces_and_non_ascii() {
    assert!(Command::from_string("").is_none());
    assert!(Command::from_string("S-space nosuch").is_none());
    assert!(Command::from_string("¥").is_none());
    assert!(Command::from_string("a  b").is_none());
}

#[test]
fn commands_build_one_bite_at_a_time() {
    let mut c = Command::new();
    assert_eq!(c.to_string(), "");
    c.push_bite(Bite { shift: true, control: false, alt: false, key: "space" });
    c.push_bite(Bite { shift: false, control: true, alt: false, key: "a" });
    assert_eq!(c.to_string(), "S-space C-a");
}
