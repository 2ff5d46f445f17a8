//! Which texts the parser of resources can be given.
//!
//! Inside a quoted string a resource may write a character as `\u` and four
//! hexadecimal digits, or as `\U` and six.  Where fewer digits follow, the
//! parser reports the digits together with the one byte after them, and it
//! can do that only where this byte is a character by itself.  An escape
//! whose digits are cut short by a character of several bytes stops the
//! parser for good.  So a text that holds one is never handed to it: such a
//! text is turned away here, with a complaint of this library's own.
//!
//! The test looks at the bytes alone, not at where a quoted string begins
//! and ends.  It therefore also turns away a text that holds such a run of
//! bytes outside any quoted string, where the parser would have read over
//! it.

use vstd::prelude::*;
use vstd::utf8::encode_utf8;

verus! {

/// The byte of `\`.
pub const BACKSLASH: u8 = 0x5c;

/// The byte of `u`, which asks for four digits.
pub const SHORT_ESCAPE: u8 = 0x75;

/// The byte of `U`, which asks for six digits.
pub const LONG_ESCAPE: u8 = 0x55;

/// Whether `byte` is a hexadecimal digit: one of `0` to `9`, `a` to `f`,
/// `A` to `F`.
pub open spec fn is_hex_digit(byte: u8) -> bool {
    (0x30 <= byte <= 0x39) || (0x41 <= byte <= 0x46) || (0x61 <= byte <= 0x66)
}

/// How many digits the escape asks for whose letter is `letter`: four after
/// `u`, six after `U`.  Any other byte starts no such escape and asks for
/// none.
pub open spec fn digits_asked(letter: u8) -> nat {
    if letter == SHORT_ESCAPE {
        4
    } else if letter == LONG_ESCAPE {
        6
    } else {
        0
    }
}

/// The number of hexadecimal digits that stand in `bytes` from position
/// `from` on without a gap, counted up to `limit`.
pub open spec fn hex_run(bytes: Seq<u8>, from: int, limit: nat) -> nat
    decreases limit,
{
    if limit == 0 || from < 0 || from >= bytes.len() || !is_hex_digit(bytes[from]) {
        0
    } else {
        1 + hex_run(bytes, from + 1, (limit - 1) as nat)
    }
}

/// The position in `bytes` at which the digits of the escape end whose
/// backslash stands at `at`.
pub open spec fn digits_end(bytes: Seq<u8>, at: int) -> int {
    at + 2 + hex_run(bytes, at + 2, digits_asked(bytes[at + 1]))
}

/// Whether the bytes at `at` are an escape that is cut short by a character
/// of several bytes: a backslash and `u` or `U`, then fewer digits than the
/// letter asks for, then a byte that is not ASCII.
pub open spec fn cut_short_at(bytes: Seq<u8>, at: int) -> bool {
    &&& 0 <= at
    &&& at + 1 < bytes.len()
    &&& bytes[at] == BACKSLASH
    &&& hex_run(bytes, at + 2, digits_asked(bytes[at + 1])) < digits_asked(bytes[at + 1])
    &&& digits_end(bytes, at) < bytes.len()
    &&& bytes[digits_end(bytes, at)] >= 0x80
}

/// Whether `at` is the first place of `bytes` at which an escape is cut
/// short by a character of several bytes.
pub open spec fn first_cut_short(bytes: Seq<u8>, at: int) -> bool {
    &&& cut_short_at(bytes, at)
    &&& forall|before: int| 0 <= before < at ==> !cut_short_at(bytes, before)
}

/// Whether no escape in `bytes` is cut short by a character of several
/// bytes.
pub open spec fn no_cut_short(bytes: Seq<u8>) -> bool {
    forall|at: int| 0 <= at < bytes.len() ==> !cut_short_at(bytes, at)
}

/// Whether the parser can be given `text`: whether, in its UTF-8 bytes, no
/// escape is cut short by a character of several bytes.
pub open spec fn is_readable(text: Seq<char>) -> bool {
    no_cut_short(encode_utf8(text))
}

/// A run of `run` digits that ends at the limit, at the end of the bytes or
/// before a byte that is no digit is the whole run.
pub proof fn lemma_hex_run_is(bytes: Seq<u8>, from: int, limit: nat, run: nat)
    requires
        0 <= from,
        run <= limit,
        from + run <= bytes.len(),
        forall|k: int| from <= k < from + run ==> is_hex_digit(#[trigger] bytes[k]),
        run == limit || from + run == bytes.len() || !is_hex_digit(bytes[from + run]),
    ensures
        hex_run(bytes, from, limit) == run,
    decreases limit,
{
    if run > 0 {
        assert(is_hex_digit(bytes[from]));
        lemma_hex_run_is(bytes, from + 1, (limit - 1) as nat, (run - 1) as nat);
    }
}

/// The number of hexadecimal digits that stand in `bytes` from `from` on,
/// counted up to `limit`.
fn count_digits(bytes: &[u8], from: usize, limit: usize) -> (run: usize)
    requires
        from <= bytes@.len(),
        limit <= 6,
    ensures
        run == hex_run(bytes@, from as int, limit as nat),
        run <= limit,
        from + run <= bytes@.len(),
{
    let left: usize = bytes.len() - from;
    let mut run: usize = 0;
    while run < limit && run < left && is_digit(bytes[from + run])
        invariant
            left == bytes@.len() - from,
            bytes@.len() <= usize::MAX,
            run <= limit,
            limit <= 6,
            from + run <= bytes@.len(),
            forall|k: int| from <= k < from + run ==> is_hex_digit(#[trigger] bytes@[k]),
        decreases limit - run,
    {
        run = run + 1;
    }
    proof {
        lemma_hex_run_is(bytes@, from as int, limit as nat, run as nat);
    }
    run
}

/// Whether `byte` is a hexadecimal digit.
fn is_digit(byte: u8) -> (digit: bool)
    ensures
        digit == is_hex_digit(byte),
{
    (0x30 <= byte && byte <= 0x39) || (0x41 <= byte && byte <= 0x46) || (0x61 <= byte && byte
        <= 0x66)
}

/// How many digits the escape with the letter `letter` asks for.
fn asked(letter: u8) -> (digits: usize)
    ensures
        digits == digits_asked(letter),
{
    if letter == SHORT_ESCAPE {
        4
    } else if letter == LONG_ESCAPE {
        6
    } else {
        0
    }
}

/// Looks for an escape in `bytes` that is cut short by a character of
/// several bytes.  It hands back the place of the first: the position of its
/// backslash, and the position at which its digits end and the character
/// starts.  Where there is none, it hands back `None`.
pub fn find_cut_short(bytes: &[u8]) -> (found: Option<(usize, usize)>)
    ensures
        match found {
            Some((at, end)) => first_cut_short(bytes@, at as int) && end == digits_end(
                bytes@,
                at as int,
            ),
            None => no_cut_short(bytes@),
        },
{
    let mut at: usize = 0;
    while at < bytes.len()
        invariant
            at <= bytes@.len(),
            forall|before: int| 0 <= before < at ==> !cut_short_at(bytes@, before),
        decreases bytes@.len() - at,
    {
        if bytes[at] == BACKSLASH && at + 1 < bytes.len() {
            let wanted = asked(bytes[at + 1]);
            let run = count_digits(bytes, at + 2, wanted);
            let end = at + 2 + run;
            if run < wanted && end < bytes.len() && bytes[end] >= 0x80 {
                return Some((at, end));
            }
        }
        at = at + 1;
    }
    None
}

} // verus!
