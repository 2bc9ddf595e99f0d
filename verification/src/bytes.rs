//! The bytes that the grammar names, and runs of bytes: the length of the
//! longest prefix whose bytes all satisfy a predicate, with the facts by
//! which a scanning loop is tied to it.

use vstd::prelude::*;

verus! {

/// The NUL byte.
pub const NUL: u8 = 0x00;

/// The line feed.
pub const NEWLINE: u8 = 0x0A;

/// `"`
pub const QUOTE: u8 = 0x22;

/// `*`
pub const STAR: u8 = 0x2A;

/// `+`
pub const PLUS: u8 = 0x2B;

/// `-`
pub const MINUS: u8 = 0x2D;

/// `.`
pub const DOT: u8 = 0x2E;

/// `0`
pub const ZERO: u8 = 0x30;

/// `1`
pub const ONE: u8 = 0x31;

/// `9`
pub const NINE: u8 = 0x39;

/// `:`
pub const COLON: u8 = 0x3A;

/// `;`
pub const SEMICOLON: u8 = 0x3B;

/// `N`
pub const UPPER_N: u8 = 0x4E;

/// `O`
pub const UPPER_O: u8 = 0x4F;

/// `a`
pub const LOWER_A: u8 = 0x61;

/// `b`
pub const LOWER_B: u8 = 0x62;

/// `d`
pub const LOWER_D: u8 = 0x64;

/// `e`
pub const LOWER_E: u8 = 0x65;

/// `f`
pub const LOWER_F: u8 = 0x66;

/// `i`
pub const LOWER_I: u8 = 0x69;

/// `n`
pub const LOWER_N: u8 = 0x6E;

/// `r`
pub const LOWER_R: u8 = 0x72;

/// `s`
pub const LOWER_S: u8 = 0x73;

/// `t`
pub const LOWER_T: u8 = 0x74;

/// `y`
pub const LOWER_Y: u8 = 0x79;

/// `{`
pub const OPEN_BRACE: u8 = 0x7B;

/// `}`
pub const CLOSE_BRACE: u8 = 0x7D;

/// The number of leading bytes of `s` that satisfy `keep`.
pub open spec fn run(s: Seq<u8>, keep: spec_fn(u8) -> bool) -> nat
    decreases s.len(),
{
    if s.len() > 0 && keep(s[0]) {
        1 + run(s.skip(1), keep)
    } else {
        0
    }
}

/// A run lies within the sequence, every byte in it satisfies the predicate,
/// and the byte that follows it, if there is one, does not.
pub proof fn lemma_run(s: Seq<u8>, keep: spec_fn(u8) -> bool)
    ensures
        run(s, keep) <= s.len(),
        forall|i: int| 0 <= i < run(s, keep) ==> keep(#[trigger] s[i]),
        run(s, keep) < s.len() ==> !keep(s[run(s, keep) as int]),
    decreases s.len(),
{
    if s.len() > 0 && keep(s[0]) {
        let tail = s.skip(1);
        lemma_run(tail, keep);
        assert forall|i: int| 0 <= i < run(s, keep) implies keep(#[trigger] s[i]) by {
            if i > 0 {
                assert(s[i] == tail[i - 1]);
            }
        }
        if run(s, keep) < s.len() {
            assert(s[run(s, keep) as int] == tail[run(tail, keep) as int]);
        }
    }
}

/// The run is the only length with the properties that `lemma_run` states.
pub proof fn lemma_run_is(s: Seq<u8>, keep: spec_fn(u8) -> bool, n: nat)
    requires
        n <= s.len(),
        forall|i: int| 0 <= i < n ==> keep(#[trigger] s[i]),
        n < s.len() ==> !keep(s[n as int]),
    ensures
        run(s, keep) == n,
    decreases s.len(),
{
    if n > 0 {
        let tail = s.skip(1);
        assert(keep(s[0]));
        assert forall|i: int| 0 <= i < n - 1 implies keep(#[trigger] tail[i]) by {
            assert(tail[i] == s[i + 1]);
        }
        if n - 1 < tail.len() {
            assert(tail[n - 1] == s[n as int]);
        }
        lemma_run_is(tail, keep, (n - 1) as nat);
    }
}

} // verus!
