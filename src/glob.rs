//! Glob patterns over model identifiers: `*` matches any (possibly empty)
//! run of characters, every other character matches itself.

use vstd::prelude::*;
use crate::text::chars_of;

verus! {

/// Whether pattern `p` matches the whole of `t`.
pub open spec fn glob(p: Seq<char>, t: Seq<char>) -> bool
    decreases p.len(), t.len(),
{
    if p.len() == 0 {
        t.len() == 0
    } else if p[0] == '*' {
        glob(p.drop_first(), t) || (t.len() > 0 && glob(p, t.drop_first()))
    } else {
        t.len() > 0 && t[0] == p[0] && glob(p.drop_first(), t.drop_first())
    }
}

/// `glob` on the suffixes of `p` and `t` that start at `i` and `j`.
pub open spec fn glob_suffix(p: Seq<char>, t: Seq<char>, i: int, j: int) -> bool {
    glob(p.subrange(i, p.len() as int), t.subrange(j, t.len() as int))
}

proof fn lemma_glob_suffix_step(p: Seq<char>, t: Seq<char>, i: int, j: int)
    requires
        0 <= i < p.len(),
        0 <= j <= t.len(),
    ensures
        p[i] == '*' ==> (glob_suffix(p, t, i, j) == (glob_suffix(p, t, i + 1, j) || (j < t.len()
            && glob_suffix(p, t, i, j + 1)))),
        p[i] != '*' ==> (glob_suffix(p, t, i, j) == (j < t.len() && t[j] == p[i] && glob_suffix(
            p,
            t,
            i + 1,
            j + 1,
        ))),
{
    let ps = p.subrange(i, p.len() as int);
    let ts = t.subrange(j, t.len() as int);
    assert(ps.drop_first() =~= p.subrange(i + 1, p.len() as int));
    if j < t.len() {
        assert(ts.drop_first() =~= t.subrange(j + 1, t.len() as int));
    }
    assert(ps[0] == p[i]);
    reveal_with_fuel(glob, 1);
}

/// Whether the glob `pattern` matches the whole of `text`.
pub fn glob_match(pattern: &str, text: &str) -> (r: bool)
    ensures
        r == glob(pattern@, text@),
{
    let pc = chars_of(pattern);
    let tc = chars_of(text);
    let m = pc.len();
    let n = tc.len();
    // For the current pattern position i: row[x] == glob_suffix(p, t, i, x)
    // for x < n, and end == glob_suffix(p, t, i, n).
    let mut row: Vec<bool> = Vec::new();
    let mut end: bool = true;
    let mut k: usize = 0;
    while k < n
        invariant
            k <= n,
            row@.len() == k,
            forall|x: int| 0 <= x < k ==> !row@[x],
        decreases n - k,
    {
        row.push(false);
        k += 1;
    }
    proof {
        assert(pc@.subrange(m as int, m as int).len() == 0);
        assert forall|x: int| 0 <= x < n implies row@[x] == glob_suffix(pc@, tc@, m as int, x) by {
            reveal_with_fuel(glob, 1);
        }
        assert(tc@.subrange(n as int, n as int).len() == 0);
        reveal_with_fuel(glob, 1);
    }
    let mut i: usize = m;
    while i > 0
        invariant
            i <= m,
            m == pc@.len(),
            n == tc@.len(),
            row@.len() == n,
            forall|x: int| 0 <= x < n ==> row@[x] == glob_suffix(pc@, tc@, i as int, x),
            end == glob_suffix(pc@, tc@, i as int, n as int),
        decreases i,
    {
        i -= 1;
        let c = pc[i];
        let new_end = c == '*' && end;
        proof {
            lemma_glob_suffix_step(pc@, tc@, i as int, n as int);
        }
        let mut cur: Vec<bool> = row.clone();
        let mut j: usize = n;
        while j > 0
            invariant
                i < m,
                m == pc@.len(),
                n == tc@.len(),
                j <= n,
                c == pc@[i as int],
                row@.len() == n,
                cur@.len() == n,
                forall|x: int| 0 <= x < n ==> row@[x] == glob_suffix(pc@, tc@, i + 1, x),
                end == glob_suffix(pc@, tc@, i + 1, n as int),
                new_end == glob_suffix(pc@, tc@, i as int, n as int),
                forall|x: int| j <= x < n ==> cur@[x] == glob_suffix(pc@, tc@, i as int, x),
            decreases j,
        {
            j -= 1;
            let here_right = if j + 1 == n { new_end } else { cur[j + 1] };
            let next_right = if j + 1 == n { end } else { row[j + 1] };
            let v = if c == '*' {
                row[j] || here_right
            } else {
                tc[j] == c && next_right
            };
            proof {
                lemma_glob_suffix_step(pc@, tc@, i as int, j as int);
            }
            cur.set(j, v);
        }
        row = cur;
        end = new_end;
    }
    proof {
        assert(pc@.subrange(0, m as int) =~= pc@);
        assert(tc@.subrange(0, n as int) =~= tc@);
    }
    if n == 0 {
        end
    } else {
        row[0]
    }
}

/// A pattern without `*` matches exactly the text that is equal to it.
pub proof fn lemma_glob_literal_exact(p: Seq<char>, t: Seq<char>)
    requires
        !p.contains('*'),
    ensures
        glob(p, t) <==> p == t,
    decreases p.len(),
{
    if p.len() == 0 {
        if t.len() == 0 {
            assert(p =~= t);
        }
    } else {
        assert(p[0] != '*') by {
            assert(p.contains(p[0]));
        }
        let pd = p.drop_first();
        assert(!pd.contains('*')) by {
            if pd.contains('*') {
                let k = choose|k: int| 0 <= k < pd.len() && pd[k] == '*';
                assert(p[k + 1] == '*');
            }
        }
        if t.len() > 0 {
            lemma_glob_literal_exact(pd, t.drop_first());
            if p[0] == t[0] && pd == t.drop_first() {
                assert(p =~= t) by {
                    assert forall|k: int| 0 <= k < p.len() implies p[k] == t[k] by {
                        if k > 0 {
                            assert(pd[k - 1] == t.drop_first()[k - 1]);
                        }
                    }
                }
            }
            if p == t {
                assert(pd =~= t.drop_first());
            }
        }
    }
}

/// A literal pattern (one without `*`) matches itself.
pub proof fn lemma_glob_literal_matches_itself(s: Seq<char>)
    requires
        !s.contains('*'),
    ensures
        glob(s, s),
{
    lemma_glob_literal_exact(s, s);
}

/// The pattern `*` matches every text.
pub proof fn lemma_glob_star_matches_all(t: Seq<char>)
    ensures
        glob(seq!['*'], t),
    decreases t.len(),
{
    let p = seq!['*'];
    assert(p[0] == '*');
    assert(p.drop_first().len() == 0);
    if t.len() > 0 {
        lemma_glob_star_matches_all(t.drop_first());
        assert(glob(p, t.drop_first()));
    } else {
        assert(glob(p.drop_first(), t));
    }
}

/// The empty pattern matches only the empty text, as `^$` does.
pub proof fn lemma_glob_empty(t: Seq<char>)
    ensures
        glob(Seq::<char>::empty(), t) <==> t.len() == 0,
{
}

/// A leading character other than `*` matches only itself: `cq` matches `t`
/// exactly when `t` starts with `c` and `q` matches the rest, as an escaped
/// literal does in a regular expression.
pub proof fn lemma_glob_literal_prefix(c: char, q: Seq<char>, t: Seq<char>)
    requires
        c != '*',
    ensures
        glob(seq![c] + q, t) <==> (t.len() > 0 && t[0] == c && glob(q, t.drop_first())),
{
    let p = seq![c] + q;
    assert(p[0] == c);
    assert(p.drop_first() =~= q);
}

/// A leading `*` matches any prefix of the text: `*q` matches `t` exactly
/// when `q` matches some suffix of `t`, as `.*` does in a regular expression.
pub proof fn lemma_glob_star_prefix(q: Seq<char>, t: Seq<char>)
    ensures
        glob(seq!['*'] + q, t) <==> exists|k: int|
            0 <= k <= t.len() && #[trigger] glob(q, t.subrange(k, t.len() as int)),
    decreases t.len(),
{
    let p = seq!['*'] + q;
    assert(p[0] == '*');
    assert(p.drop_first() =~= q);
    assert(t.subrange(0, t.len() as int) =~= t);
    if glob(q, t) {
        assert(glob(q, t.subrange(0, t.len() as int)));
    }
    if t.len() == 0 {
        if exists|k: int| 0 <= k <= t.len() && #[trigger] glob(q, t.subrange(k, t.len() as int)) {
            let k = choose|k: int| 0 <= k <= t.len() && #[trigger] glob(q, t.subrange(k, t.len() as int));
            assert(k == 0);
        }
    } else {
        let td = t.drop_first();
        lemma_glob_star_prefix(q, td);
        if glob(p, t) {
            if glob(q, t) {
                assert(glob(q, t.subrange(0, t.len() as int)));
            } else {
                assert(glob(p, td));
                let k = choose|k: int| 0 <= k <= td.len() && #[trigger] glob(q, td.subrange(k, td.len() as int));
                assert(td.subrange(k, td.len() as int) =~= t.subrange(k + 1, t.len() as int));
                assert(glob(q, t.subrange(k + 1, t.len() as int)));
            }
        }
        if exists|k: int| 0 <= k <= t.len() && #[trigger] glob(q, t.subrange(k, t.len() as int)) {
            let k = choose|k: int| 0 <= k <= t.len() && #[trigger] glob(q, t.subrange(k, t.len() as int));
            if k == 0 {
                assert(glob(q, t));
            } else {
                assert(td.subrange(k - 1, td.len() as int) =~= t.subrange(k, t.len() as int));
                assert(glob(q, td.subrange(k - 1, td.len() as int)));
                assert(glob(p, td));
            }
        }
    }
}

} // verus!
