//! The transformation rule: a literal, case-sensitive, left-to-right
//! replacement of every non-overlapping occurrence of a fixed marker token
//! by a fixed replacement token. The rule is deliberately narrow — a single
//! pure `apply` entry point — so a richer rule set can replace it without
//! touching the worker around it.

use vstd::prelude::*;

verus! {

/// The marker token that the rule looks for: `console.log`.
pub open spec fn marker() -> Seq<char> {
    seq!['c', 'o', 'n', 's', 'o', 'l', 'e', '.', 'l', 'o', 'g']
}

/// The token written in place of each occurrence: `console.debug`.
pub open spec fn replacement() -> Seq<char> {
    seq!['c', 'o', 'n', 's', 'o', 'l', 'e', '.', 'd', 'e', 'b', 'u', 'g']
}

/// The marker occurs in `s` starting at character position `i`.
pub open spec fn marker_at(s: Seq<char>, i: int) -> bool {
    &&& 0 <= i
    &&& i + marker().len() <= s.len()
    &&& s.subrange(i, i + marker().len()) == marker()
}

/// The text `s` rewritten by the rule: scanning left to right, each
/// occurrence of the marker becomes the replacement, and every other
/// character is kept as it is.
pub open spec fn rewritten(s: Seq<char>) -> Seq<char>
    decreases s.len(),
{
    if s.len() == 0 {
        Seq::<char>::empty()
    } else if marker_at(s, 0) {
        replacement() + rewritten(s.skip(marker().len() as int))
    } else {
        seq![s[0]] + rewritten(s.skip(1))
    }
}

/// The marker, as an executable sequence of characters.
fn marker_chars() -> (v: Vec<char>)
    ensures
        v@ == marker(),
{
    let mut v: Vec<char> = Vec::new();
    v.push('c');
    v.push('o');
    v.push('n');
    v.push('s');
    v.push('o');
    v.push('l');
    v.push('e');
    v.push('.');
    v.push('l');
    v.push('o');
    v.push('g');
    proof {
        assert(v@ =~= marker());
    }
    v
}

/// Decides whether the marker occurs in `code` at character position `i`.
fn marker_match_at(code: &str, i: usize, n: usize) -> (r: bool)
    requires
        n == code@.len(),
        i <= n,
    ensures
        r == marker_at(code@, i as int),
{
    let m = marker_chars();
    if n - i < m.len() {
        return false;
    }
    let mut k: usize = 0;
    while k < m.len()
        invariant
            n == code@.len(),
            m@ == marker(),
            i + m@.len() <= n,
            0 <= k <= m@.len(),
            forall|j: int| 0 <= j < k ==> code@[i + j] == marker()[j],
        decreases m@.len() - k,
    {
        if code.get_char(i + k) != m[k] {
            proof {
                assert(code@.subrange(i as int, i + marker().len())[k as int]
                    == code@[i + k]);
            }
            return false;
        }
        k = k + 1;
    }
    proof {
        assert(code@.subrange(i as int, i + marker().len()) =~= marker());
    }
    true
}

/// Unfolding of `rewritten` at a suffix that starts with the marker.
proof fn lemma_step_marker(s: Seq<char>, i: int)
    requires
        0 <= i < s.len(),
        marker_at(s, i),
    ensures
        rewritten(s.skip(i)) == replacement() + rewritten(s.skip(i + marker().len())),
{
    let t = s.skip(i);
    assert(t.subrange(0, marker().len() as int) =~= s.subrange(i, i + marker().len()));
    assert(marker_at(t, 0));
    assert(t.skip(marker().len() as int) =~= s.skip(i + marker().len()));
}

/// Unfolding of `rewritten` at a suffix that does not start with the marker.
proof fn lemma_step_char(s: Seq<char>, i: int)
    requires
        0 <= i < s.len(),
        !marker_at(s, i),
    ensures
        rewritten(s.skip(i)) == seq![s[i]] + rewritten(s.skip(i + 1)),
{
    let t = s.skip(i);
    if marker_at(t, 0) {
        assert(s.subrange(i, i + marker().len()) =~= t.subrange(0, marker().len() as int));
        assert(marker_at(s, i));
    }
    assert(t[0] == s[i]);
    assert(t.skip(1) =~= s.skip(i + 1));
}

/// Apply the rule to `code`: the result is exactly `rewritten(code@)`.
pub fn apply(code: &str) -> (r: String)
    ensures
        r@ == rewritten(code@),
{
    let n = code.unicode_len();
    let mut out = String::new();
    proof {
        assert(code@.skip(0) =~= code@);
        assert(out@ + rewritten(code@) =~= rewritten(code@));
    }
    let mut i: usize = 0;
    while i < n
        invariant
            n == code@.len(),
            i <= n,
            out@ + rewritten(code@.skip(i as int)) == rewritten(code@),
        decreases n - i,
    {
        let ghost i0 = i as int;
        let ghost out0 = out@;
        if marker_match_at(code, i, n) {
            out.append("console.debug");
            i = i + 11;
            proof {
                reveal_strlit("console.debug");
                assert("console.debug"@ =~= replacement());
                lemma_step_marker(code@, i0);
                assert(i as int == i0 + marker().len());
                assert(out@ + rewritten(code@.skip(i as int))
                    =~= out0 + rewritten(code@.skip(i0)));
            }
        } else {
            let piece = code.substring_char(i, i + 1);
            out.append(piece);
            i = i + 1;
            proof {
                lemma_step_char(code@, i0);
                assert(piece@ =~= seq![code@[i0]]);
                assert(out@ + rewritten(code@.skip(i as int))
                    =~= out0 + rewritten(code@.skip(i0)));
            }
        }
    }
    proof {
        assert(code@.skip(n as int) =~= Seq::<char>::empty());
        assert(out@ =~= rewritten(code@));
    }
    out
}

/// If the marker occurs nowhere in `s`, the rule leaves `s` unchanged.
pub proof fn lemma_no_marker_identity(s: Seq<char>)
    requires
        forall|i: int| !marker_at(s, i),
    ensures
        rewritten(s) == s,
    decreases s.len(),
{
    if s.len() == 0 {
        assert(rewritten(s) =~= s);
    } else {
        assert(!marker_at(s, 0));
        assert forall|i: int| !marker_at(s.skip(1), i) by {
            if marker_at(s.skip(1), i) {
                assert(s.subrange(i + 1, i + 1 + marker().len())
                    =~= s.skip(1).subrange(i, i + marker().len()));
                assert(marker_at(s, i + 1));
            }
        }
        lemma_no_marker_identity(s.skip(1));
        assert(rewritten(s) =~= s);
    }
}

} // verus!
