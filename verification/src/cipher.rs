//! The cipher engine: shifts each ASCII letter by a fixed offset within its
//! 26-letter case-alphabet, copying every other character through unchanged.

use vstd::prelude::*;
use vstd::arithmetic::div_mod::{
    lemma_add_mod_noop_right, lemma_fundamental_div_mod, lemma_fundamental_div_mod_converse_mod,
    lemma_mod_division_less_than_divisor, lemma_small_mod,
};
use vstd::string::StrSliceExecFns;

verus! {

/// True of the ASCII uppercase letters 'A' through 'Z'.
pub open spec fn is_ascii_upper(c: char) -> bool {
    'A' <= c && c <= 'Z'
}

/// True of the ASCII lowercase letters 'a' through 'z'.
pub open spec fn is_ascii_lower(c: char) -> bool {
    'a' <= c && c <= 'z'
}

/// True of the characters that the cipher moves; everything else is copied
/// through unchanged.
pub open spec fn is_ascii_letter(c: char) -> bool {
    is_ascii_upper(c) || is_ascii_lower(c)
}

/// Where one character lands under a Caesar shift: an ASCII letter moves to
/// the letter `shift` places further along its own case-alphabet, wrapping
/// around (the `%` here is Euclidean, so a negative shift also wraps
/// correctly); any other character stays put.
pub open spec fn shift_letter(c: char, shift: int) -> char {
    if is_ascii_upper(c) {
        ((('A' as int) + ((c as int) - ('A' as int) + shift) % 26) as char)
    } else if is_ascii_lower(c) {
        ((('a' as int) + ((c as int) - ('a' as int) + shift) % 26) as char)
    } else {
        c
    }
}

/// The cipher transform itself: every character shifted by the same offset,
/// positions preserved.
pub open spec fn cipher_text(text: Seq<char>, shift: int) -> Seq<char> {
    Seq::new(text.len(), |i: int| shift_letter(text[i], shift))
}

/// Reduce an arbitrary shift to the equivalent offset in [0, 26), i.e. the
/// Euclidean remainder of `shift` modulo 26.
fn normalize_shift(shift: i16) -> (k: u8)
    ensures
        k < 26,
        k as int == (shift as int) % 26,
{
    if shift >= 0 {
        let k = (shift as u32) % 26;
        proof {
            lemma_mod_division_less_than_divisor(shift as int, 26);
        }
        k as u8
    } else {
        let n: u32 = (-(shift as i32)) as u32;
        let m: u32 = n % 26;
        proof {
            lemma_mod_division_less_than_divisor(n as int, 26);
            lemma_fundamental_div_mod(n as int, 26);
            // shift == -n == 26 * (-(n / 26)) - m; shift the remainder into
            // [0, 26) and name the matching quotient for the converse lemma.
            if m == 0 {
                lemma_fundamental_div_mod_converse_mod(
                    shift as int,
                    26,
                    -((n as int) / 26),
                    0,
                );
            } else {
                lemma_fundamental_div_mod_converse_mod(
                    shift as int,
                    26,
                    -((n as int) / 26) - 1,
                    26 - (m as int),
                );
            }
        }
        if m == 0 {
            0
        } else {
            (26 - m) as u8
        }
    }
}

/// Shifting by the remainder modulo 26 lands each character where the full
/// shift would: the cipher only ever sees a shift through its residue.
proof fn lemma_shift_letter_mod(c: char, shift: int)
    ensures
        shift_letter(c, shift % 26) == shift_letter(c, shift),
{
    if is_ascii_upper(c) {
        lemma_add_mod_noop_right((c as int) - ('A' as int), shift, 26);
    } else if is_ascii_lower(c) {
        lemma_add_mod_noop_right((c as int) - ('a' as int), shift, 26);
    }
}

/// Shift a single character by a normalized offset.
fn shift_char(c: char, k: u8) -> (res: char)
    requires
        k < 26,
    ensures
        res == shift_letter(c, k as int),
{
    let u: u32 = c as u32;
    if 65 <= u && u <= 90 {
        proof {
            lemma_mod_division_less_than_divisor((u as int) - 65 + (k as int), 26);
        }
        let off: u32 = (u - 65 + k as u32) % 26;
        ((65 + off) as u8) as char
    } else if 97 <= u && u <= 122 {
        proof {
            lemma_mod_division_less_than_divisor((u as int) - 97 + (k as int), 26);
        }
        let off: u32 = (u - 97 + k as u32) % 26;
        ((97 + off) as u8) as char
    } else {
        c
    }
}

/// One character's round trip: shifting by `shift` and then by `-shift`
/// returns every character to itself.
proof fn lemma_shift_letter_roundtrip(c: char, shift: int)
    ensures
        shift_letter(shift_letter(c, shift), -shift) == c,
{
    if is_ascii_upper(c) {
        let p = (c as int) - ('A' as int);
        lemma_mod_division_less_than_divisor(p + shift, 26);
        lemma_add_mod_noop_right(-shift, p + shift, 26);
        lemma_small_mod(p as nat, 26);
    } else if is_ascii_lower(c) {
        let p = (c as int) - ('a' as int);
        lemma_mod_division_less_than_divisor(p + shift, 26);
        lemma_add_mod_noop_right(-shift, p + shift, 26);
        lemma_small_mod(p as nat, 26);
    }
}

/// Round-trip invertibility: for every text and every integer shift,
/// enciphering with `shift` and then with `-shift` gives the text back.
pub proof fn lemma_cipher_roundtrip(text: Seq<char>, shift: int)
    ensures
        cipher_text(cipher_text(text, shift), -shift) == text,
{
    assert forall|i: int| 0 <= i < text.len() implies cipher_text(
        cipher_text(text, shift),
        -shift,
    )[i] == text[i] by {
        lemma_shift_letter_roundtrip(text[i], shift);
    }
    assert(cipher_text(cipher_text(text, shift), -shift) =~= text);
}

/// Non-letters pass through: the transform keeps the length, and every
/// character that is not an ASCII letter appears unchanged at its own
/// position in the result.
pub proof fn lemma_cipher_preserves_nonletters(text: Seq<char>, shift: int)
    ensures
        cipher_text(text, shift).len() == text.len(),
        forall|i: int|
            0 <= i < text.len() && !is_ascii_letter(text[i]) ==> cipher_text(text, shift)[i]
                == text[i],
{
}

/// The shift only matters modulo 26: out-of-range and negative shifts encode
/// exactly as their Euclidean remainder does.
pub proof fn lemma_cipher_mod(text: Seq<char>, shift: int)
    ensures
        cipher_text(text, shift % 26) == cipher_text(text, shift),
{
    assert forall|i: int| 0 <= i < text.len() implies cipher_text(text, shift % 26)[i]
        == cipher_text(text, shift)[i] by {
        lemma_shift_letter_mod(text[i], shift);
    }
    assert(cipher_text(text, shift % 26) =~= cipher_text(text, shift));
}

/// Relies on String::push: appends the given character to the end of the
/// string.
#[verifier::external_body]
fn push_char(s: &mut String, c: char)
    ensures
        final(s)@ == old(s)@.push(c),
{
    s.push(c)
}

/// The executable cipher: returns `text` with every ASCII letter shifted by
/// `shift` places within its case-alphabet (wrapping around) and every other
/// character copied through unchanged. Total: any shift is taken modulo 26 by
/// the arithmetic, and no input fails.
pub fn encrypt(plaintext: &str, shift: i16) -> (res: String)
    ensures
        res@ == cipher_text(plaintext@, shift as int),
{
    let k = normalize_shift(shift);
    let n = plaintext.unicode_len();
    let mut res = String::new();
    let mut i: usize = 0;
    while i < n
        invariant
            n == plaintext@.len(),
            i <= n,
            k < 26,
            k as int == (shift as int) % 26,
            res@ == cipher_text(plaintext@, shift as int).subrange(0, i as int),
        decreases n - i,
    {
        let c = plaintext.get_char(i);
        let d = shift_char(c, k);
        proof {
            lemma_shift_letter_mod(c, shift as int);
            assert(cipher_text(plaintext@, shift as int).subrange(0, i + 1) =~= cipher_text(
                plaintext@,
                shift as int,
            ).subrange(0, i as int).push(shift_letter(c, shift as int)));
        }
        push_char(&mut res, d);
        i += 1;
    }
    proof {
        assert(cipher_text(plaintext@, shift as int).subrange(0, n as int) =~= cipher_text(
            plaintext@,
            shift as int,
        ));
    }
    res
}

} // verus!
