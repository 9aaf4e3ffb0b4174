//! Lexicographic ordering of strings by character scalar value, and a
//! sorted, duplicate-free canonical form of a string list.
//!
//! The order is strict lexicographic comparison of the character sequences;
//! since UTF-8 encoding preserves code-point order, it agrees with the byte
//! order that the platform's tooling uses for these names.

use vstd::prelude::*;

verus! {

/// Strict lexicographic order on character sequences.
pub open spec fn chars_lt(a: Seq<char>, b: Seq<char>) -> bool
    decreases a.len(),
{
    if b.len() == 0 {
        false
    } else if a.len() == 0 {
        true
    } else if a[0] != b[0] {
        (a[0] as u32) < (b[0] as u32)
    } else {
        chars_lt(a.drop_first(), b.drop_first())
    }
}

/// Ascending and duplicate-free.
pub open spec fn strictly_sorted(s: Seq<Seq<char>>) -> bool {
    forall|i: int, j: int| 0 <= i < j < s.len() ==> chars_lt(s[i], s[j])
}

pub proof fn lemma_chars_lt_asym(a: Seq<char>, b: Seq<char>)
    requires
        chars_lt(a, b),
    ensures
        !chars_lt(b, a),
        a != b,
    decreases a.len(),
{
    if a.len() == 0 {
    } else if a[0] != b[0] {
    } else {
        lemma_chars_lt_asym(a.drop_first(), b.drop_first());
        assert(a != b) by {
            if a == b {
                assert(a.drop_first() == b.drop_first());
            }
        }
    }
}

pub proof fn lemma_chars_lt_connex(a: Seq<char>, b: Seq<char>)
    ensures
        a == b || chars_lt(a, b) || chars_lt(b, a),
    decreases a.len(),
{
    if a.len() == 0 {
        if b.len() == 0 {
            assert(a =~= b);
        }
    } else if b.len() == 0 {
    } else if a[0] != b[0] {
        vstd::utf8::char_u32_cast(a[0], a[0] as u32);
        vstd::utf8::char_u32_cast(b[0], b[0] as u32);
        assert((a[0] as u32) != (b[0] as u32));
    } else {
        lemma_chars_lt_connex(a.drop_first(), b.drop_first());
        if a.drop_first() == b.drop_first() {
            assert(a.drop_first().len() == a.len() - 1);
            assert(b.drop_first().len() == b.len() - 1);
            assert(a.len() == b.len());
            assert forall|k: int| 0 <= k < a.len() implies a[k] == b[k] by {
                if k > 0 {
                    assert(a[k] == a.drop_first()[k - 1]);
                    assert(b[k] == b.drop_first()[k - 1]);
                }
            }
            assert(a =~= b);
        }
    }
}

pub proof fn lemma_chars_lt_trans(a: Seq<char>, b: Seq<char>, c: Seq<char>)
    requires
        chars_lt(a, b),
        chars_lt(b, c),
    ensures
        chars_lt(a, c),
    decreases a.len(),
{
    if a.len() == 0 {
    } else {
        if a[0] == b[0] && b[0] == c[0] {
            lemma_chars_lt_trans(a.drop_first(), b.drop_first(), c.drop_first());
        }
    }
}

/// Compares two strings in the order of `chars_lt`.
pub fn str_lt(a: &str, b: &str) -> (r: bool)
    ensures
        r == chars_lt(a@, b@),
{
    let alen = a.unicode_len();
    let blen = b.unicode_len();
    let mut i: usize = 0;
    proof {
        assert(a@.skip(0) =~= a@);
        assert(b@.skip(0) =~= b@);
    }
    loop
        invariant
            i <= alen,
            i <= blen,
            alen == a@.len(),
            blen == b@.len(),
            chars_lt(a@, b@) == chars_lt(a@.skip(i as int), b@.skip(i as int)),
        decreases alen - i,
    {
        if i == alen {
            proof {
                assert(a@.skip(i as int).len() == 0);
            }
            return i < blen;
        }
        if i == blen {
            proof {
                assert(b@.skip(i as int).len() == 0);
                assert(a@.skip(i as int).len() > 0);
            }
            return false;
        }
        let ca = a.get_char(i);
        let cb = b.get_char(i);
        proof {
            assert(a@.skip(i as int)[0] == a@[i as int]);
            assert(b@.skip(i as int)[0] == b@[i as int]);
        }
        if ca as u32 != cb as u32 {
            proof {
                assert(a@.skip(i as int)[0] != b@.skip(i as int)[0]);
            }
            return (ca as u32) < (cb as u32);
        }
        proof {
            assert(a@.skip(i as int).drop_first() =~= a@.skip(i + 1));
            assert(b@.skip(i as int).drop_first() =~= b@.skip(i + 1));
        }
        i += 1;
    }
}

/// Whether the list holds a string equal to `t`.
pub fn contains_str(v: &Vec<String>, t: &String) -> (r: bool)
    ensures
        r == v.deep_view().contains(t@),
{
    let mut i: usize = 0;
    while i < v.len()
        invariant
            i <= v@.len(),
            forall|k: int| 0 <= k < i ==> v.deep_view()[k] != t@,
        decreases v@.len() - i,
    {
        if v[i] == *t {
            proof {
                assert(v.deep_view()[i as int] == t@);
            }
            return true;
        }
        i += 1;
    }
    proof {
        assert(!v.deep_view().contains(t@)) by {
            if v.deep_view().contains(t@) {
                let k = choose|k: int| 0 <= k < v.deep_view().len() && v.deep_view()[k] == t@;
            }
        }
    }
    false
}

/// The number of leading entries that lie strictly below `s`.
fn lower_bound(out: &Vec<String>, s: &String) -> (i: usize)
    requires
        strictly_sorted(out.deep_view()),
    ensures
        i <= out@.len(),
        forall|k: int| 0 <= k < i ==> chars_lt(out.deep_view()[k], s@),
        i < out@.len() ==> !chars_lt(out.deep_view()[i as int], s@),
{
    let n = out.len();
    let mut i: usize = 0;
    loop
        invariant
            i <= n,
            n == out@.len(),
            strictly_sorted(out.deep_view()),
            forall|k: int| 0 <= k < i ==> chars_lt(out.deep_view()[k], s@),
        decreases n - i,
    {
        if i == n {
            return i;
        }
        if !str_lt(out[i].as_str(), s.as_str()) {
            return i;
        }
        proof {
            assert(chars_lt(out.deep_view()[i as int], s@));
        }
        i += 1;
    }
}

/// Places `s` in an ascending duplicate-free list, keeping it so.
fn insert_sorted_dedup(out: &mut Vec<String>, s: String)
    requires
        strictly_sorted(old(out).deep_view()),
    ensures
        strictly_sorted(final(out).deep_view()),
        forall|e: Seq<char>|
            final(out).deep_view().contains(e) == (old(out).deep_view().contains(e) || e == s@),
{
    let n = out.len();
    let i = lower_bound(out, &s);
    // Here every entry before `i` is below `s`, and if `i` is in range the
    // entry there is not below `s`.
    if i < n && out[i] == s {
        proof {
            let dv = out.deep_view();
            assert(dv[i as int] == s@);
            assert(forall|e: Seq<char>| dv.contains(e) == (dv.contains(e) || e == s@));
        }
        return;
    }
    proof {
        if i < n {
            let dv = out.deep_view();
            assert(!chars_lt(dv[i as int], s@));
            assert(dv[i as int] != s@);
            lemma_chars_lt_connex(dv[i as int], s@);
            assert(chars_lt(s@, dv[i as int]));
        }
    }
    let ghost pre = out.deep_view();
    out.insert(i, s);
    proof {
        let dv = out.deep_view();
        assert(dv.len() == pre.len() + 1);
        assert(forall|k: int| 0 <= k < i ==> dv[k] == pre[k]);
        assert(dv[i as int] == s@);
        assert(forall|k: int| i < k < dv.len() ==> dv[k] == pre[k - 1]);
        assert(strictly_sorted(dv)) by {
            assert forall|p: int, q: int| 0 <= p < q < dv.len() implies chars_lt(dv[p], dv[q]) by {
                if q < i {
                } else if q == i {
                    // dv[p] == pre[p] with p < i, below s
                } else if p == i {
                    // s below pre[q-1]: either q-1 == i in pre terms
                    if i < pre.len() {
                        if q - 1 == i {
                            assert(chars_lt(s@, pre[i as int]));
                        } else {
                            lemma_chars_lt_trans(s@, pre[i as int], pre[q - 1]);
                        }
                    }
                } else if p < i {
                    if q - 1 == p {
                    } else {
                        assert(chars_lt(pre[p], pre[q - 1]));
                    }
                }
            }
        }
        assert forall|e: Seq<char>| dv.contains(e) == (pre.contains(e) || e == s@) by {
            if dv.contains(e) {
                let k = choose|k: int| 0 <= k < dv.len() && dv[k] == e;
                if k < i {
                    assert(pre[k] == e);
                    assert(pre.contains(e));
                } else if k == i {
                } else {
                    assert(pre[k - 1] == e);
                    assert(pre.contains(e));
                }
            }
            if pre.contains(e) {
                let k = choose|k: int| 0 <= k < pre.len() && pre[k] == e;
                if k < i {
                    assert(dv[k] == e);
                } else {
                    assert(dv[k + 1] == e);
                }
                assert(dv.contains(e));
            }
            if e == s@ {
                assert(dv[i as int] == e);
                assert(dv.contains(e));
            }
        }
    }
}

/// The canonical form of a string list: ascending, duplicate-free, holding
/// exactly the strings of the input.
pub fn sorted_dedup(v: &Vec<String>) -> (r: Vec<String>)
    ensures
        strictly_sorted(r.deep_view()),
        forall|e: Seq<char>| r.deep_view().contains(e) == v.deep_view().contains(e),
{
    let mut r: Vec<String> = Vec::new();
    let mut i: usize = 0;
    while i < v.len()
        invariant
            i <= v@.len(),
            strictly_sorted(r.deep_view()),
            forall|e: Seq<char>|
                r.deep_view().contains(e) == v.deep_view().take(i as int).contains(e),
        decreases v@.len() - i,
    {
        let ghost pre = r.deep_view();
        insert_sorted_dedup(&mut r, v[i].clone());
        proof {
            let dv = r.deep_view();
            let tv = v.deep_view();
            assert(v[i as int]@ == tv[i as int]);
            assert forall|e: Seq<char>| dv.contains(e) == tv.take(i + 1).contains(e) by {
                assert(dv.contains(e) == (pre.contains(e) || e == tv[i as int]));
                if tv.take(i + 1).contains(e) {
                    let k = choose|k: int| 0 <= k <= i && #[trigger] tv.take(i + 1)[k] == e;
                    if k < i {
                        assert(tv.take(i as int)[k] == e);
                        assert(tv.take(i as int).contains(e));
                    } else {
                        assert(e == tv[i as int]);
                    }
                }
                if pre.contains(e) {
                    let k = choose|k: int| 0 <= k < i && tv.take(i as int)[k] == e;
                    assert(tv.take(i + 1)[k] == e);
                    assert(tv.take(i + 1).contains(e));
                }
                if e == tv[i as int] {
                    assert(tv.take(i + 1)[i as int] == e);
                    assert(tv.take(i + 1).contains(e));
                }
            }
        }
        i += 1;
    }
    proof {
        assert(v.deep_view().take(v@.len() as int) =~= v.deep_view());
    }
    r
}

/// Two ascending, duplicate-free lists of the same strings are the same list.
pub proof fn lemma_strictly_sorted_unique(x: Seq<Seq<char>>, y: Seq<Seq<char>>)
    requires
        strictly_sorted(x),
        strictly_sorted(y),
        forall|e: Seq<char>| x.contains(e) == y.contains(e),
    ensures
        x == y,
    decreases x.len(),
{
    if x.len() == 0 {
        if y.len() > 0 {
            assert(y.contains(y[0]));
            assert(x.contains(y[0]));
        }
        assert(x =~= y);
    } else {
        assert(x.contains(x[0]));
        assert(y.contains(x[0]));
        let j = choose|j: int| 0 <= j < y.len() && y[j] == x[0];
        assert(y.contains(y[0]));
        assert(x.contains(y[0]));
        let i = choose|i: int| 0 <= i < x.len() && x[i] == y[0];
        assert(x[0] == y[0]) by {
            if i > 0 && j > 0 {
                assert(chars_lt(x[0], x[i]));
                assert(chars_lt(y[0], y[j]));
                lemma_chars_lt_trans(x[0], y[0], x[0]);
                lemma_chars_lt_asym(x[0], x[0]);
            } else if i > 0 {
                // y[0] == x[0] already when j == 0
                assert(chars_lt(x[0], x[i]));
                lemma_chars_lt_asym(x[0], x[i]);
            } else {
            }
        }
        let xt = x.drop_first();
        let yt = y.drop_first();
        assert(strictly_sorted(xt)) by {
            assert(forall|p: int, q: int|
                0 <= p < q < xt.len() ==> chars_lt(#[trigger] xt[p], #[trigger] xt[q]) && xt[p]
                    == x[p + 1] && xt[q] == x[q + 1]);
        }
        assert(strictly_sorted(yt)) by {
            assert(forall|p: int, q: int|
                0 <= p < q < yt.len() ==> chars_lt(#[trigger] yt[p], #[trigger] yt[q]) && yt[p]
                    == y[p + 1] && yt[q] == y[q + 1]);
        }
        assert forall|e: Seq<char>| xt.contains(e) == yt.contains(e) by {
            if xt.contains(e) {
                let k = choose|k: int| 0 <= k < xt.len() && xt[k] == e;
                assert(x[k + 1] == e);
                assert(x.contains(e));
                assert(chars_lt(x[0], e));
                lemma_chars_lt_asym(x[0], e);
                assert(y.contains(e));
                let m = choose|m: int| 0 <= m < y.len() && y[m] == e;
                assert(m != 0);
                assert(yt[m - 1] == e);
                assert(yt.contains(e));
            }
            if yt.contains(e) {
                let k = choose|k: int| 0 <= k < yt.len() && yt[k] == e;
                assert(y[k + 1] == e);
                assert(y.contains(e));
                assert(chars_lt(y[0], e));
                lemma_chars_lt_asym(y[0], e);
                assert(x.contains(e));
                let m = choose|m: int| 0 <= m < x.len() && x[m] == e;
                assert(m != 0);
                assert(xt[m - 1] == e);
                assert(xt.contains(e));
            }
        }
        lemma_strictly_sorted_unique(xt, yt);
        assert(x.len() == y.len());
        assert forall|k: int| 0 <= k < x.len() implies x[k] == y[k] by {
            if k > 0 {
                assert(x[k] == xt[k - 1]);
                assert(y[k] == yt[k - 1]);
            }
        }
        assert(x =~= y);
    }
}

} // verus!
