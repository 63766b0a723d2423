use caesar_cipher::cipher::encrypt;

#[test]
fn wraparound_upper() {
    assert_eq!(encrypt("Z", 1), "A");
}

#[test]
fn wraparound_lower() {
    assert_eq!(encrypt("a", -1), "z");
}

#[test]
fn hello_world_shift_three() {
    assert_eq!(encrypt("Hello, World!", 3), "Khoor, Zruog!");
}

#[test]
fn roundtrip_mixed_case() {
    let original = "AttackAtDawn";
    let encoded = encrypt(original, 7);
    assert_eq!(encrypt(&encoded, -7), original);
}

#[test]
fn roundtrip_all_shifts_in_range() {
    let original = "TheQuickBrownFoxJumpsOverTheLazyDog";
    for shift in 1..=25i16 {
        let encoded = encrypt(original, shift);
        assert_eq!(encrypt(&encoded, -shift), original);
    }
}

#[test]
fn nonletters_unchanged() {
    assert_eq!(encrypt("123 !? ~\n\t", 13), "123 !? ~\n\t");
}

#[test]
fn nonletters_keep_their_positions() {
    assert_eq!(encrypt("a1b2 c3!", 1), "b1c2 d3!");
}

#[test]
fn non_ascii_letters_unchanged() {
    assert_eq!(encrypt("déjà vu", 1), "eékà wv");
}

#[test]
fn shift_taken_mod_26() {
    assert_eq!(encrypt("abc", 26), "abc");
    assert_eq!(encrypt("abc", 27), encrypt("abc", 1));
    assert_eq!(encrypt("abc", -27), encrypt("abc", -1));
}

#[test]
fn negative_shift_wraps() {
    assert_eq!(encrypt("abc", -2), "yza");
}

#[test]
fn empty_text() {
    assert_eq!(encrypt("", 5), "");
}

#[test]
fn extreme_shifts() {
    let encoded = encrypt("Hello", i16::MAX);
    assert_eq!(encrypt(&encoded, i16::MIN + 1), "Hello");
    assert_eq!(encrypt("Hello", 0), "Hello");
}
