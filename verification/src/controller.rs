//! The synchronization controller: a small state machine over the conversion
//! direction that keeps the plaintext/ciphertext pair consistent with the
//! current shift. Exactly one of the two text fields is the editable source
//! in each direction; the other is derived from it by the cipher, and edits
//! to the derived field are reverted.

use vstd::prelude::*;
use crate::cipher::cipher_text;
use crate::cipher::encrypt;

verus! {

/// Which field is the authoritative input: under `Encryption` the plaintext
/// drives the ciphertext, under `Decryption` the ciphertext drives the
/// plaintext.
#[derive(Clone, Copy, PartialEq, Eq, Structural, Debug)]
pub enum ConversionType {
    Encryption,
    Decryption,
}

/// A committed user edit, one variant per control the presentation layer
/// exposes. Each carries the full new value of its field.
pub enum Event {
    Conversion(ConversionType),
    Shift(i16),
    Plaintext(String),
    Ciphertext(String),
}

/// A committed shift is held to [1, 25]; 0 and 26 are no-op shifts and are
/// avoided by clamping rather than special-casing.
pub open spec fn clamp_shift(shift: int) -> int {
    if shift < 1 {
        1
    } else if shift > 25 {
        25
    } else {
        shift
    }
}

/// The application state: the conversion direction, the shift, and the two
/// synchronized text fields.
pub struct AppState {
    pub conversion: ConversionType,
    pub shift: u8,
    pub plaintext: String,
    pub ciphertext: String,
}

impl AppState {
    /// The committed shift always lies in [1, 25].
    pub open spec fn wf(self) -> bool {
        1 <= self.shift <= 25
    }

    /// The soft invariant the controller restores after each committed edit:
    /// the derived field equals the cipher of the source field under the
    /// current shift. A direction toggle alone may leave it stale until the
    /// next edit.
    pub open spec fn synced(self) -> bool {
        match self.conversion {
            ConversionType::Encryption => self.ciphertext@ == cipher_text(
                self.plaintext@,
                self.shift as int,
            ),
            ConversionType::Decryption => self.plaintext@ == cipher_text(
                self.ciphertext@,
                -(self.shift as int),
            ),
        }
    }

    /// The startup state: empty fields, shift 6, encryption active.
    pub fn new() -> (s: AppState)
        ensures
            s.conversion == ConversionType::Encryption,
            s.shift == 6,
            s.plaintext@ == Seq::<char>::empty(),
            s.ciphertext@ == Seq::<char>::empty(),
            s.wf(),
            s.synced(),
    {
        let s = AppState {
            conversion: ConversionType::Encryption,
            shift: 6,
            plaintext: String::new(),
            ciphertext: String::new(),
        };
        proof {
            assert(cipher_text(s.plaintext@, s.shift as int) =~= Seq::<char>::empty());
        }
        s
    }

    /// A direction toggle flips only which field is authoritative: neither
    /// text field nor the shift changes, so the pair may be stale relative to
    /// the new direction until the next committed edit.
    pub fn set_conversion(&mut self, conversion: ConversionType)
        ensures
            final(self).conversion == conversion,
            final(self).shift == old(self).shift,
            final(self).plaintext == old(self).plaintext,
            final(self).ciphertext == old(self).ciphertext,
    {
        self.conversion = conversion;
    }

    /// A committed shift change: the new value is clamped to [1, 25] and the
    /// derived field is recomputed from the source field under the new shift.
    pub fn set_shift(&mut self, shift: i16)
        ensures
            final(self).conversion == old(self).conversion,
            final(self).shift as int == clamp_shift(shift as int),
            final(self).wf(),
            final(self).synced(),
            old(self).conversion == ConversionType::Encryption ==> final(self).plaintext == old(self).plaintext,
            old(self).conversion == ConversionType::Decryption ==> final(self).ciphertext == old(self).ciphertext,
    {
        let clamped: u8 = if shift < 1 {
            1
        } else if shift > 25 {
            25
        } else {
            shift as u8
        };
        self.shift = clamped;
        match self.conversion {
            ConversionType::Encryption => {
                let derived = encrypt(self.plaintext.as_str(), clamped as i16);
                self.ciphertext = derived;
            },
            ConversionType::Decryption => {
                let derived = encrypt(self.ciphertext.as_str(), -(clamped as i16));
                self.plaintext = derived;
            },
        }
    }

    /// A committed plaintext edit. While encryption is active the plaintext
    /// is the source: the edit is accepted and the ciphertext recomputed.
    /// While decryption is active the plaintext is derived: the edit is
    /// rejected and the state left exactly as it was.
    pub fn edit_plaintext(&mut self, text: String)
        ensures
            final(self).conversion == old(self).conversion,
            final(self).shift == old(self).shift,
            old(self).conversion == ConversionType::Encryption ==> final(self).plaintext == text
                && final(self).ciphertext@ == cipher_text(text@, old(self).shift as int),
            old(self).conversion == ConversionType::Decryption ==> *final(self) == *old(self),
            old(self).conversion == ConversionType::Encryption ==> final(self).synced(),
            old(self).synced() ==> final(self).synced(),
    {
        match self.conversion {
            ConversionType::Encryption => {
                let derived = encrypt(text.as_str(), self.shift as i16);
                self.plaintext = text;
                self.ciphertext = derived;
            },
            ConversionType::Decryption => {},
        }
    }

    /// A committed ciphertext edit, the mirror image: accepted while
    /// decryption is active, reverted while encryption is.
    pub fn edit_ciphertext(&mut self, text: String)
        ensures
            final(self).conversion == old(self).conversion,
            final(self).shift == old(self).shift,
            old(self).conversion == ConversionType::Decryption ==> final(self).ciphertext == text
                && final(self).plaintext@ == cipher_text(text@, -(old(self).shift as int)),
            old(self).conversion == ConversionType::Encryption ==> *final(self) == *old(self),
            old(self).conversion == ConversionType::Decryption ==> final(self).synced(),
            old(self).synced() ==> final(self).synced(),
    {
        match self.conversion {
            ConversionType::Decryption => {
                let derived = encrypt(text.as_str(), -(self.shift as i16));
                self.ciphertext = text;
                self.plaintext = derived;
            },
            ConversionType::Encryption => {},
        }
    }

    /// The controller's single entry point: dispatch one committed event to
    /// the rule for the control it came from.
    pub fn handle(&mut self, event: Event)
        ensures
            old(self).wf() ==> final(self).wf(),
            (match event {
                Event::Conversion(c) => final(self).conversion == c && final(self).shift == old(self).shift && final(self).plaintext == old(self).plaintext && final(self).ciphertext
                    == old(self).ciphertext,
                Event::Shift(s) => final(self).conversion == old(self).conversion && final(self).shift as int == clamp_shift(s as int) && final(self).synced(),
                Event::Plaintext(t) => final(self).conversion == old(self).conversion && final(self).shift == old(self).shift && (if old(self).conversion
                    == ConversionType::Encryption {
                    final(self).plaintext == t && final(self).synced()
                } else {
                    *final(self) == *old(self)
                }),
                Event::Ciphertext(t) => final(self).conversion == old(self).conversion && final(self).shift == old(self).shift && (if old(self).conversion
                    == ConversionType::Decryption {
                    final(self).ciphertext == t && final(self).synced()
                } else {
                    *final(self) == *old(self)
                }),
            }),
    {
        match event {
            Event::Conversion(conversion) => self.set_conversion(conversion),
            Event::Shift(shift) => self.set_shift(shift),
            Event::Plaintext(text) => self.edit_plaintext(text),
            Event::Ciphertext(text) => self.edit_ciphertext(text),
        }
    }
}

} // verus!
