use ownership_kit::transfer::{calculate_length, change, gives_ownership, takes_and_gives_back};

#[test]
fn gives_ownership_returns_hello() {
    let s7 = gives_ownership();
    assert_eq!(s7, "hello");
}

#[test]
fn takes_and_gives_back_returns_the_same_string() {
    let s8 = String::from("hello");
    let s9 = takes_and_gives_back(s8);
    assert_eq!(s9, "hello");
    assert_eq!(takes_and_gives_back(String::new()), "");
}

#[test]
fn calculate_length_counts_bytes_and_leaves_the_string_valid() {
    let s10 = String::from("hello");
    assert_eq!(calculate_length(&s10), 5);
    assert_eq!(s10, "hello");
    assert_eq!(calculate_length(&String::new()), 0);
    assert_eq!(calculate_length(&String::from("h\u{e9}llo")), 6);
    assert_eq!(calculate_length(&String::from("\u{1f980}")), 4);
}

#[test]
fn change_appends_world() {
    let mut s12 = String::from("hello");
    change(&mut s12);
    assert_eq!(s12, "hello, world");
    change(&mut s12);
    assert_eq!(s12, "hello, world, world");
    let mut empty = String::new();
    change(&mut empty);
    assert_eq!(empty, ", world");
}

#[test]
fn change_then_calculate_length() {
    let mut s = gives_ownership();
    change(&mut s);
    assert_eq!(calculate_length(&s), 12);
}
