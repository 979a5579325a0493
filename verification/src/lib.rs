use vstd::prelude::*;

verus! {

/// The byte value of `A`.
pub const UPPER_A: u8 = 65;

/// The byte value of `Z`.
pub const UPPER_Z: u8 = 90;

/// The byte value of `a`.
pub const LOWER_A: u8 = 97;

/// The byte value of `z`.
pub const LOWER_Z: u8 = 122;

/// Rotation mode.
#[derive(Copy, Clone)]
pub enum Mode {
    /// Shift each letter `rotation` places forward through the alphabet.
    Encrypt,
    /// Shift each letter `rotation` places backward through the alphabet.
    Decrypt,
}

/// Whether a byte is an uppercase ASCII letter, `A` through `Z`.
pub open spec fn is_uppercase_letter(b: u8) -> bool {
    UPPER_A <= b && b <= UPPER_Z
}

/// Whether a byte is a lowercase ASCII letter, `a` through `z`.
pub open spec fn is_lowercase_letter(b: u8) -> bool {
    LOWER_A <= b && b <= LOWER_Z
}

/// Whether a byte is an ASCII letter of either case.
pub open spec fn is_ascii_letter(b: u8) -> bool {
    is_uppercase_letter(b) || is_lowercase_letter(b)
}

/// The first byte of the alphabet a byte belongs to: `A` for an uppercase
/// letter, `a` otherwise.
pub open spec fn spec_alphabet_base(b: u8) -> u8 {
    if is_uppercase_letter(b) {
        UPPER_A
    } else {
        LOWER_A
    }
}

/// The zero-based position of a letter within its own 26-letter alphabet
/// (`A`/`a` is 0, `Z`/`z` is 25).
pub open spec fn spec_letter_position(letter: u8) -> int
    recommends
        is_ascii_letter(letter),
{
    letter - spec_alphabet_base(letter)
}

/// The rotated position of a letter: `rotation` places forward for
/// `Encrypt`, backward for `Decrypt`, always reduced to the range [0, 26).
pub open spec fn spec_shifted_position(mode: Mode, position: int, rotation: u8) -> int {
    match mode {
        Mode::Encrypt => (position + rotation) % 26,
        Mode::Decrypt => (position - rotation) % 26,
    }
}

/// The byte that rotating one letter yields: a letter of the same case,
/// whose position is shifted by `rotation` modulo 26.
pub open spec fn spec_rot_letter(mode: Mode, letter: u8, rotation: u8) -> u8
    recommends
        is_ascii_letter(letter),
{
    (spec_alphabet_base(letter) + spec_shifted_position(
        mode,
        spec_letter_position(letter),
        rotation,
    )) as u8
}

/// Get the value of 'a'.
///
/// Whether it uses 'A' or 'a' as the initial value, to preserve the case.
pub fn get_first_alphabet_position(letter: u8) -> (base: u8)
    ensures
        base == spec_alphabet_base(letter),
{
    // preserve case
    if UPPER_A <= letter && letter <= UPPER_Z {
        UPPER_A
    } else {
        LOWER_A
    }
}

/// Get the index number from the english alphabet order.
pub fn get_letter_position(letter: u8) -> (position: u8)
    requires
        is_ascii_letter(letter),
    ensures
        position == spec_letter_position(letter),
        position < 26,
{
    let a_position = get_first_alphabet_position(letter);
    letter - a_position
}

/// Transform a single letter to ROT.
///
/// The letter after being rotated/shifted by `rotation` from its initial
/// value. Any rotation amount is accepted; only its value modulo 26 matters,
/// so 0 and multiples of 26 leave the letter unchanged. The result is a
/// letter of the same case as the input.
pub fn rot_letter(mode: Mode, letter: u8, rotation: u8) -> (rotated: u8)
    requires
        is_ascii_letter(letter),
    ensures
        rotated == spec_rot_letter(mode, letter, rotation),
        is_ascii_letter(rotated),
        is_uppercase_letter(rotated) == is_uppercase_letter(letter),
{
    let a_position = get_first_alphabet_position(letter);
    let letter_position = get_letter_position(letter);
    // Reducing the rotation first keeps every intermediate sum inside `u8`.
    let reduced: u8 = rotation % 26;

    let shifted_position: u8 = match mode {
        Mode::Encrypt => (letter_position + reduced) % 26,
        Mode::Decrypt => {
            if letter_position < reduced {
                26 - (reduced - letter_position)
            } else {
                letter_position - reduced
            }
        },
    };

    proof {
        let pos = spec_letter_position(letter);
        let rot = rotation as int;
        match mode {
            Mode::Encrypt => {
                vstd::arithmetic::div_mod::lemma_add_mod_noop_right(pos, rot, 26);
            },
            Mode::Decrypt => {
                vstd::arithmetic::div_mod::lemma_sub_mod_noop_right(pos, rot, 26);
                if pos < reduced {
                    vstd::arithmetic::div_mod::lemma_mod_add_multiples_vanish(pos - reduced, 26);
                    vstd::arithmetic::div_mod::lemma_small_mod((pos - reduced + 26) as nat, 26);
                } else {
                    vstd::arithmetic::div_mod::lemma_small_mod((pos - reduced) as nat, 26);
                }
            },
        }
    }

    a_position + shifted_position
}

/// The byte that rotating one buffer element yields: an ASCII letter is
/// rotated, every other byte passes through unchanged.
pub open spec fn spec_rot_byte(mode: Mode, b: u8, rotation: u8) -> u8 {
    if is_ascii_letter(b) {
        spec_rot_letter(mode, b, rotation)
    } else {
        b
    }
}

/// Transform any input to ROT.
///
/// Applies `rot_letter` to every ASCII-alphabetic byte of `inputs` and copies
/// every other byte unchanged, producing a new buffer of the same length.
pub fn rot(mode: Mode, inputs: &[u8], rotation: u8) -> (rotated: Vec<u8>)
    ensures
        rotated@.len() == inputs@.len(),
        forall|i: int|
            0 <= i < inputs@.len() ==> rotated@[i] == spec_rot_byte(mode, inputs@[i], rotation),
{
    let mut rotated: Vec<u8> = Vec::new();
    let mut idx: usize = 0;
    while idx < inputs.len()
        invariant
            idx <= inputs@.len(),
            rotated@.len() == idx,
            forall|i: int|
                0 <= i < idx ==> rotated@[i] == spec_rot_byte(mode, inputs@[i], rotation),
        decreases inputs@.len() - idx,
    {
        let input: u8 = inputs[idx];
        // only apply the rotation to ascii alphabetic characters
        let output: u8 = if (UPPER_A <= input && input <= UPPER_Z) || (LOWER_A <= input
            && input <= LOWER_Z) {
            rot_letter(mode, input, rotation)
        } else {
            input
        };
        rotated.push(output);
        idx = idx + 1;
    }
    rotated
}

/// Round trip: decrypting the encryption of any ASCII letter with the same
/// rotation amount gives the original letter back, for every amount.
pub proof fn lemma_rot_letter_round_trip(letter: u8, rotation: u8)
    requires
        is_ascii_letter(letter),
    ensures
        spec_rot_letter(Mode::Decrypt, spec_rot_letter(Mode::Encrypt, letter, rotation), rotation)
            == letter,
{
    let base = spec_alphabet_base(letter) as int;
    let pos = spec_letter_position(letter);
    let rot = rotation as int;
    let enc_shift = (pos + rot) % 26;
    vstd::arithmetic::div_mod::lemma_mod_bound(pos + rot, 26);
    let encrypted = spec_rot_letter(Mode::Encrypt, letter, rotation);
    assert(encrypted == base + enc_shift);
    assert(spec_alphabet_base(encrypted) == base);
    assert(spec_letter_position(encrypted) == enc_shift);
    vstd::arithmetic::div_mod::lemma_sub_mod_noop_right(enc_shift, rot, 26);
    vstd::arithmetic::div_mod::lemma_sub_mod_noop(pos + rot, rot, 26);
    vstd::arithmetic::div_mod::lemma_small_mod(pos as nat, 26);
    assert(spec_shifted_position(Mode::Decrypt, enc_shift, rotation) == pos);
}

/// Transform a single letter to ROT13.
///
/// The fixed-13 convenience form of `rot_letter`; because 13 + 13 == 26,
/// encrypting and decrypting with it are the same operation.
pub fn rot13_letter(mode: Mode, letter: u8) -> (rotated: u8)
    requires
        is_ascii_letter(letter),
    ensures
        rotated == spec_rot_letter(mode, letter, 13),
{
    rot_letter(mode, letter, 13)
}

/// Transform any input to ROT13.
///
/// The fixed-13 convenience form of `rot`.
pub fn rot13(mode: Mode, inputs: &[u8]) -> (rotated: Vec<u8>)
    ensures
        rotated@.len() == inputs@.len(),
        forall|i: int| 0 <= i < inputs@.len() ==> rotated@[i] == spec_rot_byte(mode, inputs@[i], 13),
{
    rot(mode, inputs, 13)
}

} // verus!
