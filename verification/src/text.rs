//! Verified text primitives: character classes, equality, substring search,
//! end-trimming, splitting, and decimal rendering.

use vstd::prelude::*;
use vstd::string::StrSliceExecFns;

verus! {

/// Turns a vector of characters back into an owned string.
///
/// Relies on `core::iter::Iterator::collect` building a `String` out of
/// exactly the characters of the vector, in order.
#[verifier::external_body]
pub(crate) fn chars_to_string(v: &Vec<char>) -> (s: String)
    ensures
        s@ == v@,
{
    v.iter().collect()
}

/// The characters of `s`, in order, as a vector.
pub fn str_to_chars(s: &str) -> (v: Vec<char>)
    ensures
        v@ == s@,
{
    let n = s.unicode_len();
    let mut v: Vec<char> = Vec::new();
    let mut i: usize = 0;
    while i < n
        invariant
            n == s@.len(),
            i <= n,
            v@ == s@.take(i as int),
        decreases n - i,
    {
        let c = s.get_char(i);
        v.push(c);
        i = i + 1;
        proof {
            assert(v@ =~= s@.take(i as int));
        }
    }
    proof {
        assert(v@ =~= s@);
    }
    v
}

/// Whether two string slices hold the same characters.
pub fn str_eq(a: &str, b: &str) -> (r: bool)
    ensures
        r == (a@ == b@),
{
    let an = a.unicode_len();
    let bn = b.unicode_len();
    if an != bn {
        proof {
            assert(a@ != b@);
        }
        return false;
    }
    let mut i: usize = 0;
    while i < an
        invariant
            an == a@.len(),
            an == b@.len(),
            i <= an,
            forall|j: int| 0 <= j < i ==> a@[j] == b@[j],
        decreases an - i,
    {
        if a.get_char(i) != b.get_char(i) {
            proof {
                assert(a@[i as int] != b@[i as int]);
            }
            return false;
        }
        i = i + 1;
    }
    proof {
        assert(a@ =~= b@);
    }
    true
}

/// `p` occurs as a contiguous run inside `s`.
pub open spec fn contains_seq(s: Seq<char>, p: Seq<char>) -> bool {
    exists|i: int| 0 <= i && i + p.len() <= s.len() && #[trigger] s.subrange(i, i + p.len() as int)
        == p
}

/// Whether the pattern occurs anywhere in the text.
pub fn contains_sub(s: &str, p: &str) -> (r: bool)
    ensures
        r == contains_seq(s@, p@),
{
    let sv = str_to_chars(s);
    let pv = str_to_chars(p);
    let sn = sv.len();
    let pn = pv.len();
    if pn > sn {
        return false;
    }
    if pn == 0 {
        proof {
            assert(contains_seq(s@, p@)) by {
                assert(s@.subrange(0, 0 + p@.len() as int) =~= p@);
            }
        }
        return true;
    }
    let mut i: usize = 0;
    while i <= sn - pn
        invariant
            sv@ == s@,
            pv@ == p@,
            sn == s@.len(),
            pn == p@.len(),
            1 <= pn <= sn,
            i <= sn - pn + 1,
            forall|k: int| 0 <= k < i ==> #[trigger] s@.subrange(k, k + pn as int) != p@,
        decreases sn + 1 - pn - i,
    {
        let mut j: usize = 0;
        let mut hit: bool = true;
        while j < pn
            invariant
                sv@ == s@,
                pv@ == p@,
                sn == s@.len(),
                pn == p@.len(),
                pn <= sn,
                i <= sn - pn,
                j <= pn,
                hit ==> (forall|m: int| 0 <= m < j ==> s@[i + m] == p@[m]),
                !hit ==> j == pn && s@.subrange(i as int, i + pn as int) != p@,
            decreases pn - j,
        {
            if sv[i + j] != pv[j] {
                hit = false;
                proof {
                    assert(s@[i + j as int] != p@[j as int]);
                    assert(s@.subrange(i as int, i + pn as int)[j as int] != p@[j as int]);
                }
                j = pn;
            } else {
                proof {
                    assert(s@[i + j as int] == p@[j as int]);
                }
                j = j + 1;
            }
        }
        if hit {
            proof {
                assert(s@.subrange(i as int, i + pn as int) =~= p@);
            }
            return true;
        }
        i = i + 1;
    }
    proof {
        assert(!contains_seq(s@, p@)) by {
            if contains_seq(s@, p@) {
                let w = choose|w: int|
                    0 <= w && w + p@.len() <= s@.len() && #[trigger] s@.subrange(
                        w,
                        w + p@.len() as int,
                    ) == p@;
                assert(s@.subrange(w, w + pn as int) != p@);
            }
        }
    }
    false
}

/// The Unicode `White_Space` characters, as the standard library documents
/// them for `char::is_whitespace`.
pub open spec fn is_ws_char(c: char) -> bool {
    c == ' ' || c == '\t' || c == '\n' || c == '\u{000B}' || c == '\u{000C}' || c == '\r' || c
        == '\u{0085}' || c == '\u{00A0}' || c == '\u{1680}' || ('\u{2000}' <= c && c <= '\u{200A}')
        || c == '\u{2028}' || c == '\u{2029}' || c == '\u{202F}' || c == '\u{205F}' || c
        == '\u{3000}'
}

/// Whether `c` is Unicode white space.
pub fn char_is_ws(c: char) -> (r: bool)
    ensures
        r == is_ws_char(c),
{
    c == ' ' || c == '\t' || c == '\n' || c == '\u{000B}' || c == '\u{000C}' || c == '\r' || c
        == '\u{0085}' || c == '\u{00A0}' || c == '\u{1680}' || ('\u{2000}' <= c && c <= '\u{200A}')
        || c == '\u{2028}' || c == '\u{2029}' || c == '\u{202F}' || c == '\u{205F}' || c
        == '\u{3000}'
}

/// The character for one decimal digit.
pub open spec fn digit_char(d: int) -> char {
    if d == 0 {
        '0'
    } else if d == 1 {
        '1'
    } else if d == 2 {
        '2'
    } else if d == 3 {
        '3'
    } else if d == 4 {
        '4'
    } else if d == 5 {
        '5'
    } else if d == 6 {
        '6'
    } else if d == 7 {
        '7'
    } else if d == 8 {
        '8'
    } else {
        '9'
    }
}

/// The decimal rendering of a natural number, most significant digit first.
pub open spec fn dec_str(n: nat) -> Seq<char>
    decreases n,
{
    if n < 10 {
        seq![digit_char(n as int)]
    } else {
        dec_str(n / 10) + seq![digit_char((n % 10) as int)]
    }
}

/// Renders a number in decimal.
pub fn usize_to_string(n: usize) -> (s: String)
    ensures
        s@ == dec_str(n as nat),
{
    let mut m: usize = n;
    let mut ds: Vec<char> = Vec::new();
    ds.push(digit_to_char(m % 10));
    m = m / 10;
    while m > 0
        invariant
            ds@.len() > 0,
            dec_str(n as nat) == (if m > 0 {
                dec_str(m as nat)
            } else {
                Seq::<char>::empty()
            }) + ds@.reverse(),
        decreases m,
    {
        let ghost old_ds = ds@;
        let ghost old_m = m as nat;
        ds.push(digit_to_char(m % 10));
        m = m / 10;
        proof {
            assert(ds@.reverse() =~= seq![digit_char((old_m % 10) as int)] + old_ds.reverse());
            if m == 0 {
                assert(dec_str(old_m) == seq![digit_char(old_m as int)]);
            } else {
                assert(dec_str(old_m) == dec_str(old_m / 10) + seq![
                    digit_char((old_m % 10) as int),
                ]);
            }
            assert(dec_str(n as nat) =~= (if m > 0 {
                dec_str(m as nat)
            } else {
                Seq::<char>::empty()
            }) + ds@.reverse());
        }
    }
    let mut out: Vec<char> = Vec::new();
    let mut i: usize = ds.len();
    while i > 0
        invariant
            i <= ds@.len(),
            out@.len() == ds@.len() - i,
            forall|j: int| 0 <= j < out@.len() ==> #[trigger] out@[j] == ds@[ds@.len() - 1 - j],
        decreases i,
    {
        i = i - 1;
        out.push(ds[i]);
    }
    proof {
        assert(out@ =~= ds@.reverse());
        assert(dec_str(n as nat) =~= out@);
    }
    chars_to_string(&out)
}

/// The character for one decimal digit.
fn digit_to_char(d: usize) -> (c: char)
    requires
        d < 10,
    ensures
        c == digit_char(d as int),
{
    if d == 0 {
        '0'
    } else if d == 1 {
        '1'
    } else if d == 2 {
        '2'
    } else if d == 3 {
        '3'
    } else if d == 4 {
        '4'
    } else if d == 5 {
        '5'
    } else if d == 6 {
        '6'
    } else if d == 7 {
        '7'
    } else if d == 8 {
        '8'
    } else {
        '9'
    }
}

/// `s` with every trailing white-space character removed.
pub open spec fn trim_end_spec(s: Seq<char>) -> Seq<char>
    decreases s.len(),
{
    if s.len() == 0 {
        s
    } else if is_ws_char(s.last()) {
        trim_end_spec(s.drop_last())
    } else {
        s
    }
}

/// Trims trailing white space, as `str::trim_end` does.
pub fn trim_end(s: &str) -> (t: String)
    ensures
        t@ == trim_end_spec(s@),
{
    let mut v = str_to_chars(s);
    while v.len() > 0 && char_is_ws(v[v.len() - 1])
        invariant
            trim_end_spec(v@) == trim_end_spec(s@),
        decreases v@.len(),
    {
        proof {
            assert(v@.drop_last() =~= v@.take(v@.len() - 1));
        }
        v.pop();
    }
    proof {
        assert(trim_end_spec(v@) == v@);
    }
    chars_to_string(&v)
}

} // verus!
