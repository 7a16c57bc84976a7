//! Small string utilities with exact contracts over `Seq<char>`.

use vstd::prelude::*;
use vstd::string::*;

verus! {

/// `p` is a prefix of `s`.
pub open spec fn has_prefix(s: Seq<char>, p: Seq<char>) -> bool {
    p.len() <= s.len() && s.subrange(0, p.len() as int) == p
}

/// `p` is a suffix of `s`.
pub open spec fn has_suffix(s: Seq<char>, p: Seq<char>) -> bool {
    p.len() <= s.len() && s.subrange(s.len() - p.len(), s.len() as int) == p
}

/// The characters of `s`, in order.
pub fn chars_of(s: &str) -> (r: Vec<char>)
    ensures
        r@ == s@,
{
    let n = s.unicode_len();
    let mut r: Vec<char> = Vec::new();
    let mut i: usize = 0;
    while i < n
        invariant
            n == s@.len(),
            i <= n,
            r@ == s@.subrange(0, i as int),
        decreases n - i,
    {
        let c = s.get_char(i);
        r.push(c);
        i += 1;
    }
    assert(r@ =~= s@);
    r
}

/// Relies on String::push: appends one character at the end.
#[verifier::external_body]
pub(crate) fn push_char(s: &mut String, c: char)
    ensures
        final(s)@ == old(s)@.push(c),
{
    s.push(c)
}

/// A string holding exactly the characters of `v`.
pub fn string_from_chars(v: &Vec<char>) -> (r: String)
    ensures
        r@ == v@,
{
    let mut r = String::new();
    let mut i: usize = 0;
    while i < v.len()
        invariant
            i <= v.len(),
            r@ == v@.subrange(0, i as int),
        decreases v.len() - i,
    {
        push_char(&mut r, v[i]);
        i += 1;
    }
    assert(r@ =~= v@);
    r
}

/// Whether `s` begins with `p`.
pub fn str_starts_with(s: &str, p: &str) -> (r: bool)
    ensures
        r == has_prefix(s@, p@),
{
    let sc = chars_of(s);
    let pc = chars_of(p);
    if pc.len() > sc.len() {
        return false;
    }
    let mut i: usize = 0;
    while i < pc.len()
        invariant
            sc@ == s@,
            pc@ == p@,
            pc.len() <= sc.len(),
            i <= pc.len(),
            forall|k: int| 0 <= k < i ==> sc@[k] == pc@[k],
        decreases pc.len() - i,
    {
        if sc[i] != pc[i] {
            assert(sc@.subrange(0, pc@.len() as int)[i as int] != pc@[i as int]);
            assert(sc@.subrange(0, pc@.len() as int) != pc@);
            return false;
        }
        i += 1;
    }
    assert(sc@.subrange(0, pc@.len() as int) =~= pc@);
    true
}

/// Whether `s` ends with `p`.
pub fn str_ends_with(s: &str, p: &str) -> (r: bool)
    ensures
        r == has_suffix(s@, p@),
{
    let sc = chars_of(s);
    let pc = chars_of(p);
    if pc.len() > sc.len() {
        return false;
    }
    let off = sc.len() - pc.len();
    let mut i: usize = 0;
    while i < pc.len()
        invariant
            sc@ == s@,
            pc@ == p@,
            pc.len() <= sc.len(),
            off == sc.len() - pc.len(),
            i <= pc.len(),
            forall|k: int| 0 <= k < i ==> sc@[off + k] == pc@[k],
        decreases pc.len() - i,
    {
        if sc[off + i] != pc[i] {
            assert(sc@.subrange(off as int, sc@.len() as int)[i as int] != pc@[i as int]);
            assert(sc@.subrange(off as int, sc@.len() as int) != pc@);
            return false;
        }
        i += 1;
    }
    assert(sc@.subrange(off as int, sc@.len() as int) =~= pc@);
    true
}

/// Whether `c` has Unicode's White_Space property.
pub open spec fn is_ws(c: char) -> bool {
    let v = c as u32;
    (9 <= v <= 13) || v == 32 || v == 0x85 || v == 0xa0 || v == 0x1680 || (0x2000 <= v <= 0x200a)
        || v == 0x2028 || v == 0x2029 || v == 0x202f || v == 0x205f || v == 0x3000
}

/// Whether `c` is a white-space character.
pub fn is_whitespace_char(c: char) -> (r: bool)
    ensures
        r == is_ws(c),
{
    let v = c as u32;
    (9 <= v && v <= 13) || v == 32 || v == 0x85 || v == 0xa0 || v == 0x1680 || (0x2000 <= v && v
        <= 0x200a) || v == 0x2028 || v == 0x2029 || v == 0x202f || v == 0x205f || v == 0x3000
}

/// `s` without its leading white space.
pub open spec fn strip_leading(s: Seq<char>) -> Seq<char>
    decreases s.len(),
{
    if s.len() > 0 && is_ws(s[0]) {
        strip_leading(s.drop_first())
    } else {
        s
    }
}

/// `s` without its trailing characters `c`.
pub open spec fn strip_trailing_char(s: Seq<char>, c: char) -> Seq<char>
    decreases s.len(),
{
    if s.len() > 0 && s.last() == c {
        strip_trailing_char(s.drop_last(), c)
    } else {
        s
    }
}

/// `s` without its trailing white space.
pub open spec fn strip_trailing(s: Seq<char>) -> Seq<char>
    decreases s.len(),
{
    if s.len() > 0 && is_ws(s.last()) {
        strip_trailing(s.drop_last())
    } else {
        s
    }
}

/// `s` without leading and trailing white space.
pub open spec fn trimmed(s: Seq<char>) -> Seq<char> {
    strip_trailing(strip_leading(s))
}

/// Whether `s` holds nothing but white space.
pub open spec fn is_blank(s: Seq<char>) -> bool {
    trimmed(s).len() == 0
}

/// The characters of `s` without leading and trailing white space.
pub fn trim_chars(s: &str) -> (r: Vec<char>)
    ensures
        r@ == trimmed(s@),
{
    let c = chars_of(s);
    let n = c.len();
    let mut lo: usize = 0;
    assert(c@.subrange(0, n as int) =~= c@);
    while lo < n && is_whitespace_char(c[lo])
        invariant
            c@ == s@,
            n == c@.len(),
            lo <= n,
            strip_leading(c@) == strip_leading(c@.subrange(lo as int, n as int)),
        decreases n - lo,
    {
        assert(c@.subrange(lo as int, n as int).drop_first() =~= c@.subrange(lo + 1, n as int));
        lo += 1;
    }
    let ghost front = c@.subrange(lo as int, n as int);
    assert(strip_leading(front) == front);
    let mut hi: usize = n;
    assert(c@.subrange(lo as int, n as int) =~= front);
    while hi > lo && is_whitespace_char(c[hi - 1])
        invariant
            c@ == s@,
            n == c@.len(),
            lo <= hi <= n,
            strip_leading(c@) == front,
            strip_trailing(front) == strip_trailing(c@.subrange(lo as int, hi as int)),
        decreases hi - lo,
    {
        assert(c@.subrange(lo as int, hi as int).drop_last() =~= c@.subrange(lo as int, hi - 1));
        hi -= 1;
    }
    let ghost kept = c@.subrange(lo as int, hi as int);
    assert(strip_trailing(kept) == kept);
    let mut r: Vec<char> = Vec::new();
    let mut k: usize = lo;
    while k < hi
        invariant
            c@ == s@,
            lo <= k <= hi <= n,
            n == c@.len(),
            r@ == c@.subrange(lo as int, k as int),
        decreases hi - k,
    {
        r.push(c[k]);
        k += 1;
    }
    assert(r@ =~= kept);
    r
}

/// `s` without leading and trailing white space.
pub fn trim(s: &str) -> (r: String)
    ensures
        r@ == trimmed(s@),
{
    let c = trim_chars(s);
    string_from_chars(&c)
}

/// Whether `s` holds nothing but white space.
pub fn blank(s: &str) -> (r: bool)
    ensures
        r == is_blank(s@),
{
    trim_chars(s).len() == 0
}

/// The characters of `s` without its trailing characters `c`.
pub fn trim_end_char(s: &str, c: char) -> (r: Vec<char>)
    ensures
        r@ == strip_trailing_char(s@, c),
{
    let mut v = chars_of(s);
    while v.len() > 0 && v[v.len() - 1] == c
        invariant
            strip_trailing_char(s@, c) == strip_trailing_char(v@, c),
        decreases v.len(),
    {
        let ghost before = v@;
        v.pop();
        assert(before.drop_last() =~= v@);
    }
    v
}

/// `p` occurs somewhere in `s`.
pub open spec fn has_infix(s: Seq<char>, p: Seq<char>) -> bool {
    exists|i: int| 0 <= i && i + p.len() <= s.len() && #[trigger] s.subrange(i, i + p.len()) == p
}

/// Whether `p` occurs somewhere in `s`.
pub fn str_contains(s: &str, p: &str) -> (r: bool)
    ensures
        r == has_infix(s@, p@),
{
    let sc = chars_of(s);
    let pc = chars_of(p);
    if pc.len() > sc.len() {
        return false;
    }
    if pc.len() == 0 {
        assert(s@.subrange(0, 0 + p@.len() as int) =~= p@);
        return true;
    }
    let last = sc.len() - pc.len();
    let total = sc.len();
    let mut i: usize = 0;
    while i <= last
        invariant
            sc@ == s@,
            pc@ == p@,
            0 < pc@.len() <= sc@.len(),
            last == sc@.len() - pc@.len(),
            last < usize::MAX,
            total == sc@.len(),
            i <= last + 1,
            forall|x: int| 0 <= x < i ==> #[trigger] sc@.subrange(x, x + pc@.len()) != pc@,
        decreases last + 1 - i,
    {
        let mut k: usize = 0;
        let mut same = true;
        while k < pc.len()
            invariant
                sc@ == s@,
                pc@ == p@,
                i <= last,
                i + pc@.len() <= sc@.len(),
                total == sc@.len(),
                0 < pc@.len() <= sc@.len(),
                last == sc@.len() - pc@.len(),
                k <= pc@.len(),
                same == forall|y: int| 0 <= y < k ==> sc@[i + y] == pc@[y],
            decreases pc.len() - k,
        {
            if sc[i + k] != pc[k] {
                same = false;
            }
            k += 1;
        }
        if same {
            assert(sc@.subrange(i as int, i + pc@.len()) =~= pc@);
            return true;
        }
        proof {
            let y = choose|y: int| 0 <= y < pc@.len() && sc@[i + y] != pc@[y];
            assert(sc@.subrange(i as int, i + pc@.len())[y] != pc@[y]);
        }
        i += 1;
    }
    proof {
        assert forall|x: int| 0 <= x && x + pc@.len() <= sc@.len() implies #[trigger] sc@.subrange(
            x,
            x + pc@.len(),
        ) != pc@ by {
            assert(x < i);
        }
    }
    false
}

} // verus!
