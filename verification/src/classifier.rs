//! The line classifier: a two-state machine over a character sequence that
//! counts maximal runs terminated by `'\n'` which contain at least one
//! non-whitespace character before the terminator.

use vstd::prelude::*;
use vstd::string::StringSliceAdditionalSpecFns;

verus! {

/// A character with Unicode's `White_Space` property: the set that
/// `char::is_whitespace` recognises.
pub open spec fn is_unicode_ws(c: char) -> bool {
    c as u32 == 0x20 || (0x09 <= c as u32 && c as u32 <= 0x0d) || c as u32 == 0x85
        || c as u32 == 0xa0 || c as u32 == 0x1680 || (0x2000 <= c as u32 && c as u32 <= 0x200a)
        || c as u32 == 0x2028 || c as u32 == 0x2029 || c as u32 == 0x202f || c as u32 == 0x205f
        || c as u32 == 0x3000
}

/// Decides `is_unicode_ws` on a single character.
pub fn is_whitespace_char(c: char) -> (r: bool)
    ensures
        r == is_unicode_ws(c),
{
    let u: u32 = c as u32;
    u == 0x20 || (0x09 <= u && u <= 0x0d) || u == 0x85 || u == 0xa0 || u == 0x1680
        || (0x2000 <= u && u <= 0x200a) || u == 0x2028 || u == 0x2029 || u == 0x202f || u == 0x205f
        || u == 0x3000
}

/// The state machine, resumed in state `in_line`: `in_line` is false while the
/// current line is not yet known to be relevant (`Seeking`), true once a
/// non-whitespace character has been seen on it (`InRelevantLine`). Each `'\n'`
/// met in the relevant state counts one line and resets the state.
pub open spec fn loc_count_from(s: Seq<char>, in_line: bool) -> nat
    decreases s.len(),
{
    if s.len() == 0 {
        0
    } else if in_line {
        if s[0] == '\n' {
            1 + loc_count_from(s.drop_first(), false)
        } else {
            loc_count_from(s.drop_first(), true)
        }
    } else {
        if is_unicode_ws(s[0]) {
            loc_count_from(s.drop_first(), false)
        } else {
            loc_count_from(s.drop_first(), true)
        }
    }
}

/// The count of non-blank logical lines in a character sequence: maximal runs
/// terminated by `'\n'` that hold at least one non-whitespace character. A
/// trailing run with no final `'\n'` is not counted.
pub open spec fn loc_count(s: Seq<char>) -> nat {
    loc_count_from(s, false)
}

/// Every counted line consumes at least two characters: one non-whitespace
/// character and one terminator. The extra unit in the relevant state pays
/// for the non-whitespace character already consumed before resuming.
proof fn lemma_loc_count_from_bound(s: Seq<char>, in_line: bool)
    ensures
        2 * loc_count_from(s, in_line) <= s.len() + (if in_line {
            1int
        } else {
            0int
        }),
    decreases s.len(),
{
    if s.len() == 0 {
    } else {
        if in_line {
            if s[0] == '\n' {
                lemma_loc_count_from_bound(s.drop_first(), false);
            } else {
                lemma_loc_count_from_bound(s.drop_first(), true);
            }
        } else {
            if is_unicode_ws(s[0]) {
                lemma_loc_count_from_bound(s.drop_first(), false);
            } else {
                lemma_loc_count_from_bound(s.drop_first(), true);
            }
        }
    }
}

/// The classifier never counts more lines than half the input's length:
/// each counted line needs a non-whitespace character and a terminator.
pub proof fn lemma_classifier_at_most_half(s: Seq<char>)
    ensures
        loc_count(s) <= s.len() / 2,
{
    lemma_loc_count_from_bound(s, false);
}

/// Every character takes at least one byte in UTF-8, so a text never has
/// more characters than bytes.
proof fn lemma_encode_utf8_at_least_one_byte(s: Seq<char>)
    ensures
        vstd::utf8::encode_utf8(s).len() >= s.len(),
    decreases s.len(),
{
    if s.len() == 0 {
    } else {
        lemma_encode_utf8_at_least_one_byte(s.drop_first());
    }
}

/// The count is also at most half the UTF-8 byte length of the text.
pub proof fn lemma_classifier_at_most_half_bytes(s: Seq<char>)
    ensures
        loc_count(s) <= vstd::utf8::encode_utf8(s).len() / 2,
{
    lemma_loc_count_from_bound(s, false);
    lemma_encode_utf8_at_least_one_byte(s);
}

/// The classifier is a function of the input sequence alone: two runs over
/// the same immutable text yield the same count.
pub proof fn lemma_classifier_deterministic(s: Seq<char>, r1: nat, r2: nat)
    requires
        r1 == loc_count(s),
        r2 == loc_count(s),
    ensures
        r1 == r2,
{
}

/// Text made of whitespace alone, newlines included, counts zero lines.
pub proof fn lemma_whitespace_only_counts_zero(s: Seq<char>)
    requires
        forall|i: int| 0 <= i < s.len() ==> is_unicode_ws(#[trigger] s[i]),
    ensures
        loc_count(s) == 0,
    decreases s.len(),
{
    if s.len() == 0 {
    } else {
        assert(forall|i: int|
            0 <= i < s.drop_first().len() ==> is_unicode_ws(#[trigger] s.drop_first()[i]));
        lemma_whitespace_only_counts_zero(s.drop_first());
    }
}

/// Counts the non-blank logical lines of `s` in one forward pass.
pub fn loc_counter(s: &str) -> (r: usize)
    ensures
        r == loc_count(s@),
        r <= s@.len() / 2,
        r <= s.spec_bytes().len() / 2,
{
    proof {
        lemma_classifier_at_most_half_bytes(s@);
    }
    let n: usize = s.unicode_len();
    let mut acc: usize = 0;
    let mut in_line: bool = false;
    let mut i: usize = 0;
    proof {
        assert(s@.skip(0) =~= s@);
    }
    while i < n
        invariant
            n == s@.len(),
            i <= n,
            loc_count(s@) == acc + loc_count_from(s@.skip(i as int), in_line),
            2 * acc + (if in_line {
                1int
            } else {
                0int
            }) <= i,
        decreases n - i,
    {
        let c = s.get_char(i);
        proof {
            assert(s@.skip(i as int)[0] == s@[i as int]);
            assert(s@.skip(i as int).drop_first() =~= s@.skip(i as int + 1));
        }
        if in_line {
            if c == '\n' {
                acc = acc + 1;
                in_line = false;
            }
        } else {
            if !is_whitespace_char(c) {
                in_line = true;
            }
        }
        i = i + 1;
    }
    proof {
        assert(s@.skip(n as int) =~= Seq::<char>::empty());
    }
    acc
}

} // verus!
