//! Removal of ANSI escape sequences and control characters from terminal text.

use vstd::prelude::*;
use crate::text::{ascii_alpha, chars_of, control, is_ascii_alpha, is_control, push_char};

verus! {

/// The escape char that starts an ANSI sequence.
pub open spec fn esc() -> char {
    '\x1B'
}

/// Where a control sequence (`ESC [ ... letter`) whose body starts at `j`
/// ends: just after the first ASCII letter from `j` on, or at the end of `s`.
pub open spec fn csi_end(s: Seq<char>, j: int) -> int
    decreases s.len() - j,
{
    if j >= s.len() {
        s.len() as int
    } else if is_ascii_alpha(s[j]) {
        j + 1
    } else {
        csi_end(s, j + 1)
    }
}

/// Where an operating-system command (`ESC ] ...`) whose body starts at `j`
/// ends: just after the first BEL, or after the first `ESC \`, or at the end
/// of `s`, whichever comes first.
pub open spec fn osc_end(s: Seq<char>, j: int) -> int
    decreases s.len() - j,
{
    if j >= s.len() {
        s.len() as int
    } else if s[j] == '\x07' {
        j + 1
    } else if s[j] == esc() && j + 1 < s.len() && s[j + 1] == '\\' {
        j + 2
    } else {
        osc_end(s, j + 1)
    }
}

pub proof fn lemma_csi_end_range(s: Seq<char>, j: int)
    requires
        0 <= j <= s.len(),
    ensures
        j <= csi_end(s, j) <= s.len(),
        j < s.len() ==> j < csi_end(s, j),
    decreases s.len() - j,
{
    if j < s.len() && !is_ascii_alpha(s[j]) {
        lemma_csi_end_range(s, j + 1);
    }
}

pub proof fn lemma_osc_end_range(s: Seq<char>, j: int)
    requires
        0 <= j <= s.len(),
    ensures
        j <= osc_end(s, j) <= s.len(),
        j < s.len() ==> j < osc_end(s, j),
    decreases s.len() - j,
{
    if j < s.len() && s[j] != '\x07' && !(s[j] == esc() && j + 1 < s.len() && s[j + 1] == '\\') {
        lemma_osc_end_range(s, j + 1);
    }
}

/// A char that is dropped on its own: a control char other than line feed,
/// carriage return and tab.
pub open spec fn is_dropped_control(c: char) -> bool {
    is_control(c) && c != '\n' && c != '\r' && c != '\t'
}

/// What is kept of `s` from position `i` on.
pub open spec fn strip_from(s: Seq<char>, i: int) -> Seq<char>
    decreases s.len() - i,
{
    if i < 0 || i >= s.len() {
        Seq::empty()
    } else if s[i] == esc() {
        if i + 1 < s.len() && s[i + 1] == '[' {
            proof {
                lemma_csi_end_range(s, i + 2);
            }
            strip_from(s, csi_end(s, i + 2))
        } else if i + 1 < s.len() && s[i + 1] == ']' {
            proof {
                lemma_osc_end_range(s, i + 2);
            }
            strip_from(s, osc_end(s, i + 2))
        } else if i + 1 < s.len() {
            strip_from(s, i + 2)
        } else {
            strip_from(s, i + 1)
        }
    } else if is_dropped_control(s[i]) {
        strip_from(s, i + 1)
    } else {
        seq![s[i]] + strip_from(s, i + 1)
    }
}

/// `s` with its ANSI escape sequences and its control characters other than
/// line feed, carriage return and tab removed.
pub open spec fn stripped(s: Seq<char>) -> Seq<char> {
    strip_from(s, 0)
}

/// No char of `s` is a control char other than line feed, carriage return
/// and tab (so `s` holds no escape char either).
pub open spec fn is_clean(s: Seq<char>) -> bool {
    forall|k: int| 0 <= k < s.len() ==> !is_dropped_control(#[trigger] s[k])
}

/// Removes from `text` the ANSI control sequences (`ESC [` up to a letter),
/// the operating-system commands (`ESC ]` up to BEL or `ESC \`), the other
/// two-char escapes, and every control char but line feed, carriage return
/// and tab.
pub fn strip_control_chars(text: &str) -> (r: String)
    ensures
        r@ == stripped(text@),
{
    let v = chars_of(text);
    let n = v.len();
    let mut out = String::new();
    let mut i: usize = 0;
    while i < n
        invariant
            n == v.len(),
            i <= n,
            stripped(v@) == out@ + strip_from(v@, i as int),
        decreases n - i,
    {
        let c = v[i];
        if c == '\x1B' {
            if i + 1 < n && v[i + 1] == '[' {
                let mut j: usize = i + 2;
                while j < n && !ascii_alpha(v[j])
                    invariant
                        n == v.len(),
                        i + 2 <= j <= n,
                        csi_end(v@, i + 2) == csi_end(v@, j as int),
                    decreases n - j,
                {
                    j = j + 1;
                }
                if j < n {
                    j = j + 1;
                }
                i = j;
            } else if i + 1 < n && v[i + 1] == ']' {
                let mut j: usize = i + 2;
                let mut done = false;
                while j < n && !done
                    invariant
                        n == v.len(),
                        i + 2 <= j <= n,
                        done ==> osc_end(v@, i + 2) == j,
                        !done ==> osc_end(v@, i + 2) == osc_end(v@, j as int),
                    decreases n - j,
                {
                    if v[j] == '\x07' {
                        j = j + 1;
                        done = true;
                    } else if v[j] == '\x1B' && j + 1 < n && v[j + 1] == '\\' {
                        j = j + 2;
                        done = true;
                    } else {
                        j = j + 1;
                    }
                }
                i = j;
            } else if i + 1 < n {
                i = i + 2;
            } else {
                i = i + 1;
            }
        } else if control(c) && c != '\n' && c != '\r' && c != '\t' {
            i = i + 1;
        } else {
            proof {
                let rest = strip_from(v@, i + 1);
                assert(out@.push(c) + rest =~= out@ + (seq![c] + rest));
            }
            push_char(&mut out, c);
            i = i + 1;
        }
    }
    assert(out@ + Seq::<char>::empty() =~= out@);
    out
}

/// What is kept is clean.
pub proof fn lemma_strip_from_is_clean(s: Seq<char>, i: int)
    requires
        0 <= i,
    ensures
        is_clean(strip_from(s, i)),
    decreases s.len() - i,
{
    if i < s.len() {
        if s[i] == esc() {
            if i + 1 < s.len() && s[i + 1] == '[' {
                lemma_csi_end_range(s, i + 2);
                lemma_strip_from_is_clean(s, csi_end(s, i + 2));
            } else if i + 1 < s.len() && s[i + 1] == ']' {
                lemma_osc_end_range(s, i + 2);
                lemma_strip_from_is_clean(s, osc_end(s, i + 2));
            } else if i + 1 < s.len() {
                lemma_strip_from_is_clean(s, i + 2);
            } else {
                lemma_strip_from_is_clean(s, i + 1);
            }
        } else if is_dropped_control(s[i]) {
            lemma_strip_from_is_clean(s, i + 1);
        } else {
            lemma_strip_from_is_clean(s, i + 1);
            let r = strip_from(s, i + 1);
            assert forall|k: int| 0 <= k < (seq![s[i]] + r).len() implies !is_dropped_control(
                #[trigger] (seq![s[i]] + r)[k],
            ) by {
                if k > 0 {
                    assert((seq![s[i]] + r)[k] == r[k - 1]);
                }
            }
        }
    }
}

/// On clean text nothing is removed.
pub proof fn lemma_strip_from_clean(s: Seq<char>, i: int)
    requires
        0 <= i <= s.len(),
        is_clean(s),
    ensures
        strip_from(s, i) == s.skip(i),
    decreases s.len() - i,
{
    if i < s.len() {
        assert(!is_dropped_control(s[i]));
        lemma_strip_from_clean(s, i + 1);
        assert(seq![s[i]] + s.skip(i + 1) =~= s.skip(i));
    } else {
        assert(s.skip(i) =~= Seq::<char>::empty());
    }
}

/// What `strip_control_chars` gives back holds no escape char and no control
/// char but line feed, carriage return and tab.
pub proof fn lemma_stripped_is_clean(s: Seq<char>)
    ensures
        is_clean(stripped(s)),
        forall|k: int| 0 <= k < stripped(s).len() ==> #[trigger] stripped(s)[k] != esc(),
{
    lemma_strip_from_is_clean(s, 0);
    assert forall|k: int| 0 <= k < stripped(s).len() implies #[trigger] stripped(s)[k] != esc() by {
        assert(!is_dropped_control(stripped(s)[k]));
    }
}

/// Text without control chars (other than line feed, carriage return and
/// tab) passes through unchanged.
pub proof fn lemma_stripped_clean_unchanged(s: Seq<char>)
    requires
        is_clean(s),
    ensures
        stripped(s) == s,
{
    lemma_strip_from_clean(s, 0);
    assert(s.skip(0) =~= s);
}

/// Stripping twice is stripping once.
pub proof fn lemma_stripped_idempotent(s: Seq<char>)
    ensures
        stripped(stripped(s)) == stripped(s),
{
    lemma_stripped_is_clean(s);
    lemma_stripped_clean_unchanged(stripped(s));
}


/// A control sequence ends just after the first ASCII letter of its body:
/// when `s[k]` is the first letter from `j` on, `csi_end(s, j)` is `k + 1`.
pub proof fn lemma_csi_end_first_letter(s: Seq<char>, j: int, k: int)
    requires
        0 <= j <= k < s.len(),
        is_ascii_alpha(s[k]),
        forall|m: int| j <= m < k ==> !is_ascii_alpha(#[trigger] s[m]),
    ensures
        csi_end(s, j) == k + 1,
    decreases k - j,
{
    if j < k {
        lemma_csi_end_first_letter(s, j + 1, k);
    }
}

/// A control sequence without a letter runs to the end of the text.
pub proof fn lemma_csi_end_no_letter(s: Seq<char>, j: int)
    requires
        0 <= j <= s.len(),
        forall|m: int| j <= m < s.len() ==> !is_ascii_alpha(#[trigger] s[m]),
    ensures
        csi_end(s, j) == s.len(),
    decreases s.len() - j,
{
    if j < s.len() {
        lemma_csi_end_no_letter(s, j + 1);
    }
}

proof fn lemma_csi_end_shift(p: Seq<char>, t: Seq<char>, j: int)
    requires
        p.len() <= j <= p.len() + t.len(),
    ensures
        csi_end(p + t, j) == csi_end(t, j - p.len()) + p.len(),
    decreases p.len() + t.len() - j,
{
    let s = p + t;
    if j < s.len() {
        assert(s[j] == t[j - p.len()]);
        if !is_ascii_alpha(s[j]) {
            lemma_csi_end_shift(p, t, j + 1);
        }
    }
}

proof fn lemma_osc_end_shift(p: Seq<char>, t: Seq<char>, j: int)
    requires
        p.len() <= j <= p.len() + t.len(),
    ensures
        osc_end(p + t, j) == osc_end(t, j - p.len()) + p.len(),
    decreases p.len() + t.len() - j,
{
    let s = p + t;
    if j < s.len() {
        assert(s[j] == t[j - p.len()]);
        if j + 1 < s.len() {
            assert(s[j + 1] == t[j + 1 - p.len()]);
        }
        if s[j] != '\x07' && !(s[j] == esc() && j + 1 < s.len() && s[j + 1] == '\\') {
            lemma_osc_end_shift(p, t, j + 1);
        }
    }
}

/// What is kept of `p + t` from a position inside `t` on is what is kept of
/// `t` from there.
proof fn lemma_strip_from_shift(p: Seq<char>, t: Seq<char>, i: int)
    requires
        p.len() <= i,
    ensures
        strip_from(p + t, i) == strip_from(t, i - p.len()),
    decreases p.len() + t.len() - i,
{
    let s = p + t;
    let q = i - p.len();
    if i < s.len() {
        assert(s[i] == t[q]);
        if i + 1 < s.len() {
            assert(s[i + 1] == t[q + 1]);
        }
        if s[i] == esc() {
            if i + 1 < s.len() && s[i + 1] == '[' {
                lemma_csi_end_range(s, i + 2);
                lemma_csi_end_shift(p, t, i + 2);
                lemma_strip_from_shift(p, t, csi_end(s, i + 2));
            } else if i + 1 < s.len() && s[i + 1] == ']' {
                lemma_osc_end_range(s, i + 2);
                lemma_osc_end_shift(p, t, i + 2);
                lemma_strip_from_shift(p, t, osc_end(s, i + 2));
            } else if i + 1 < s.len() {
                lemma_strip_from_shift(p, t, i + 2);
            } else {
                lemma_strip_from_shift(p, t, i + 1);
            }
        } else {
            lemma_strip_from_shift(p, t, i + 1);
        }
    }
}

/// A control sequence `ESC [ params letter` is removed whole, whatever ASCII
/// letter ends it, and what follows it is stripped as if it stood alone.
pub proof fn lemma_csi_sequence_removed(params: Seq<char>, letter: char, t: Seq<char>)
    requires
        is_ascii_alpha(letter),
        forall|k: int| 0 <= k < params.len() ==> !is_ascii_alpha(#[trigger] params[k]),
    ensures
        stripped(seq![esc(), '['] + params + seq![letter] + t) == stripped(t),
{
    let p = seq![esc(), '['] + params + seq![letter];
    let s = p + t;
    assert(s =~= seq![esc(), '['] + params + seq![letter] + t);
    let k: int = 2 + params.len() as int;
    assert(s[0] == esc());
    assert(s[1] == '[');
    assert(s[k] == letter);
    assert forall|m: int| 2 <= m < k implies !is_ascii_alpha(#[trigger] s[m]) by {
        assert(s[m] == params[m - 2]);
    }
    lemma_csi_end_first_letter(s, 2, k);
    lemma_strip_from_shift(p, t, p.len() as int);
}

/// An operating-system command `ESC ] body BEL` is removed whole when its
/// body holds no BEL and no escape char, and what follows it is stripped as
/// if it stood alone.
pub proof fn lemma_osc_sequence_removed(body: Seq<char>, t: Seq<char>)
    requires
        forall|k: int| 0 <= k < body.len() ==> #[trigger] body[k] != '\x07' && body[k] != esc(),
    ensures
        stripped(seq![esc(), ']'] + body + seq!['\x07'] + t) == stripped(t),
{
    let p = seq![esc(), ']'] + body + seq!['\x07'];
    let s = p + t;
    assert(s =~= seq![esc(), ']'] + body + seq!['\x07'] + t);
    let k: int = 2 + body.len() as int;
    assert(s[0] == esc());
    assert(s[1] == ']');
    assert(s[k] == '\x07');
    lemma_osc_end_bel(s, 2, k);
    lemma_strip_from_shift(p, t, p.len() as int);
}

proof fn lemma_osc_end_bel(s: Seq<char>, j: int, k: int)
    requires
        0 <= j <= k < s.len(),
        s[k] == '\x07',
        forall|m: int| j <= m < k ==> #[trigger] s[m] != '\x07' && s[m] != esc(),
    ensures
        osc_end(s, j) == k + 1,
    decreases k - j,
{
    if j < k {
        lemma_osc_end_bel(s, j + 1, k);
    }
}

} // verus!
