//! Canonical keys: the digits of a phone number, letters read off the keypad,
//! cut down to the last ten.

use vstd::prelude::*;

verus! {

/// The longest canonical key, in digits.
pub const KEY_DIGITS: usize = 10;

/// Whether `c` is one of the ten ASCII decimal digits.
pub open spec fn is_digit(c: char) -> bool {
    '0' <= c <= '9'
}

/// The digit that the telephone keypad prints beside the ASCII letter `c`,
/// in either case; `None` for every other character.
pub open spec fn keypad_digit(c: char) -> Option<char> {
    if 'a' <= c <= 'c' || 'A' <= c <= 'C' {
        Some('2')
    } else if 'd' <= c <= 'f' || 'D' <= c <= 'F' {
        Some('3')
    } else if 'g' <= c <= 'i' || 'G' <= c <= 'I' {
        Some('4')
    } else if 'j' <= c <= 'l' || 'J' <= c <= 'L' {
        Some('5')
    } else if 'm' <= c <= 'o' || 'M' <= c <= 'O' {
        Some('6')
    } else if 'p' <= c <= 's' || 'P' <= c <= 'S' {
        Some('7')
    } else if 't' <= c <= 'v' || 'T' <= c <= 'V' {
        Some('8')
    } else if 'w' <= c <= 'z' || 'W' <= c <= 'Z' {
        Some('9')
    } else {
        None
    }
}

/// What one input character contributes to a key: a digit stands for itself,
/// a letter for its keypad digit, anything else for nothing.
pub open spec fn digit_of(c: char) -> Option<char> {
    if is_digit(c) {
        Some(c)
    } else {
        keypad_digit(c)
    }
}

/// The digits of `raw`, left to right, with every other character dropped.
pub open spec fn extracted_digits(raw: Seq<char>) -> Seq<char>
    decreases raw.len(),
{
    if raw.len() == 0 {
        Seq::empty()
    } else {
        match digit_of(raw.last()) {
            Some(d) => extracted_digits(raw.drop_last()).push(d),
            None => extracted_digits(raw.drop_last()),
        }
    }
}

/// The last `n` items of `s`, or all of `s` where it has no more than `n`.
pub open spec fn last_n(s: Seq<char>, n: nat) -> Seq<char> {
    if s.len() <= n {
        s
    } else {
        s.subrange(s.len() - n, s.len() as int)
    }
}

/// The canonical key of `raw`: its extracted digits, cut down to the last ten.
pub open spec fn canonical_key(raw: Seq<char>) -> Seq<char> {
    last_n(extracted_digits(raw), KEY_DIGITS as nat)
}

/// Whether `key` is a canonical key: at most ten characters, each of them a
/// decimal digit.
pub open spec fn is_canonical(key: Seq<char>) -> bool {
    &&& key.len() <= KEY_DIGITS
    &&& forall|i: int| 0 <= i < key.len() ==> is_digit(#[trigger] key[i])
}

/// Every extracted character is a decimal digit, and there are no more of
/// them than there were characters to read.
pub proof fn lemma_extracted_are_digits(raw: Seq<char>)
    ensures
        extracted_digits(raw).len() <= raw.len(),
        forall|i: int|
            0 <= i < extracted_digits(raw).len() ==> is_digit(#[trigger] extracted_digits(raw)[i]),
    decreases raw.len(),
{
    if raw.len() > 0 {
        lemma_extracted_are_digits(raw.drop_last());
    }
}

/// A text made of decimal digits only is its own sequence of extracted
/// digits.
pub proof fn lemma_digits_extract_to_themselves(digits: Seq<char>)
    requires
        forall|i: int| 0 <= i < digits.len() ==> is_digit(#[trigger] digits[i]),
    ensures
        extracted_digits(digits) == digits,
    decreases digits.len(),
{
    if digits.len() > 0 {
        lemma_digits_extract_to_themselves(digits.drop_last());
        assert(is_digit(digits.last()));
        assert(digits.drop_last().push(digits.last()) == digits);
    }
}

/// The key of any text is canonical.
pub proof fn lemma_key_is_canonical(raw: Seq<char>)
    ensures
        is_canonical(canonical_key(raw)),
{
    lemma_extracted_are_digits(raw);
}

/// Normalizing is idempotent: the key of a key is that key. In particular a
/// text that already is a canonical key is returned as it stands.
pub proof fn lemma_normalize_idempotent(raw: Seq<char>)
    ensures
        canonical_key(canonical_key(raw)) == canonical_key(raw),
{
    lemma_key_is_canonical(raw);
    lemma_canonical_is_fixed(canonical_key(raw));
}

/// A canonical key is the key of itself.
pub proof fn lemma_canonical_is_fixed(key: Seq<char>)
    requires
        is_canonical(key),
    ensures
        canonical_key(key) == key,
{
    lemma_digits_extract_to_themselves(key);
}

/// Where a text holds at most ten digits and keypad letters, its key is
/// exactly their digits, in the order in which they stand.
pub proof fn lemma_short_input_kept_whole(raw: Seq<char>)
    requires
        extracted_digits(raw).len() <= KEY_DIGITS,
    ensures
        canonical_key(raw) == extracted_digits(raw),
{
}

/// Where a text holds more than ten digits and keypad letters, its key is
/// exactly the last ten of their digits, in the order in which they stand.
pub proof fn lemma_long_input_keeps_last_ten(raw: Seq<char>)
    requires
        extracted_digits(raw).len() > KEY_DIGITS,
    ensures
        canonical_key(raw).len() == KEY_DIGITS,
        forall|i: int|
            0 <= i < KEY_DIGITS ==> #[trigger] canonical_key(raw)[i] == extracted_digits(raw)[
                extracted_digits(raw).len() - KEY_DIGITS + i],
{
}

/// A text without any digit or ASCII letter, the empty text among them, has
/// the empty key.
pub proof fn lemma_no_digits_gives_empty_key(raw: Seq<char>)
    requires
        forall|i: int| 0 <= i < raw.len() ==> digit_of(#[trigger] raw[i]) is None,
    ensures
        canonical_key(raw) == Seq::<char>::empty(),
    decreases raw.len(),
{
    if raw.len() > 0 {
        lemma_no_digits_gives_empty_key(raw.drop_last());
        assert(digit_of(raw.last()) is None);
    }
}

/// Maps an ASCII letter, upper or lower case, to its keypad digit.
pub fn letter_to_digit(c: char) -> (digit: Option<char>)
    ensures
        digit == keypad_digit(c),
{
    match c {
        'A' | 'B' | 'C' | 'a' | 'b' | 'c' => Some('2'),
        'D' | 'E' | 'F' | 'd' | 'e' | 'f' => Some('3'),
        'G' | 'H' | 'I' | 'g' | 'h' | 'i' => Some('4'),
        'J' | 'K' | 'L' | 'j' | 'k' | 'l' => Some('5'),
        'M' | 'N' | 'O' | 'm' | 'n' | 'o' => Some('6'),
        'P' | 'Q' | 'R' | 'S' | 'p' | 'q' | 'r' | 's' => Some('7'),
        'T' | 'U' | 'V' | 't' | 'u' | 'v' => Some('8'),
        'W' | 'X' | 'Y' | 'Z' | 'w' | 'x' | 'y' | 'z' => Some('9'),
        _ => None,
    }
}

/// Converts a phone number as typed into its canonical key: digits are kept,
/// letters are read off the keypad, everything else is dropped, and of more
/// than ten digits the last ten are returned.
pub fn convert_to_ten_digits(number: &str) -> (key: String)
    ensures
        key@ == canonical_key(number@),
        is_canonical(key@),
{
    proof {
        lemma_key_is_canonical(number@);
    }
    let mut digits: Vec<char> = Vec::new();
    for c in it: number.chars()
        invariant
            it.seq() == number@,
            digits@ == extracted_digits(number@.take(it.index())),
    {
        proof {
            let seen = number@.take(it.index() + 1);
            assert(seen.drop_last() == number@.take(it.index()));
            assert(seen.last() == c);
        }
        if '0' <= c && c <= '9' {
            digits.push(c);
        } else if let Some(d) = letter_to_digit(c) {
            digits.push(d);
        }
    }
    assert(number@.take(number@.len() as int) == number@);
    let n: usize = digits.len();
    let start: usize = if n <= KEY_DIGITS { 0 } else { n - KEY_DIGITS };
    let mut i: usize = start;
    let mut key = String::new();
    while i < n
        invariant
            n == digits.len(),
            start <= i <= n,
            key@ == digits@.subrange(start as int, i as int),
        decreases n - i,
    {
        key.push(digits[i]);
        i += 1;
    }
    assert(digits@.subrange(0, n as int) == digits@);
    key
}

} // verus!
