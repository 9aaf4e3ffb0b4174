//! A plain-value model of an absolute UTF-8 directory path.
//!
//! A path is the sequence of its components below the filesystem root; the
//! root itself is the empty sequence.  Walking to a parent drops the last
//! component, and one path lies inside another exactly when the latter's
//! components are a prefix of the former's.

use vstd::prelude::*;

verus! {

/// An absolute path, held as its components below the filesystem root.
#[derive(Debug, PartialEq, Eq)]
pub struct JsPath {
    pub parts: Vec<String>,
}

impl View for JsPath {
    type V = Seq<Seq<char>>;

    open spec fn view(&self) -> Seq<Seq<char>> {
        self.parts.deep_view()
    }
}

/// `a` names the same directory as `b` or one of `b`'s ancestors.
pub open spec fn is_prefix_of(a: Seq<Seq<char>>, b: Seq<Seq<char>>) -> bool {
    a.len() <= b.len() && a == b.take(a.len() as int)
}

pub proof fn lemma_prefix_refl(a: Seq<Seq<char>>)
    ensures
        is_prefix_of(a, a),
{
    assert(a =~= a.take(a.len() as int));
}

pub proof fn lemma_prefix_trans(a: Seq<Seq<char>>, b: Seq<Seq<char>>, c: Seq<Seq<char>>)
    requires
        is_prefix_of(a, b),
        is_prefix_of(b, c),
    ensures
        is_prefix_of(a, c),
{
    assert(a =~= c.take(a.len() as int));
}

/// A proper prefix of `b` is still a prefix once `b`'s last component goes.
pub proof fn lemma_prefix_drop_last(a: Seq<Seq<char>>, b: Seq<Seq<char>>)
    requires
        is_prefix_of(a, b),
        a.len() < b.len(),
    ensures
        is_prefix_of(a, b.drop_last()),
{
    assert(a =~= b.drop_last().take(a.len() as int));
}

/// Prefixes of equal length are the whole of each other.
pub proof fn lemma_prefix_full(a: Seq<Seq<char>>, b: Seq<Seq<char>>)
    requires
        is_prefix_of(a, b),
        a.len() == b.len(),
    ensures
        a == b,
{
    assert(a =~= b);
}

impl JsPath {
    /// The filesystem root.
    pub fn root() -> (r: JsPath)
        ensures
            r@.len() == 0,
    {
        JsPath { parts: Vec::new() }
    }

    /// The directory that holds this one, if any.
    pub fn parent(&self) -> (r: Option<JsPath>)
        ensures
            match r {
                Some(p) => self@.len() > 0 && p@ == self@.drop_last(),
                None => self@.len() == 0,
            },
    {
        if self.parts.len() == 0 {
            None
        } else {
            let mut p = clone_parts(&self.parts);
            p.pop();
            let q = JsPath { parts: p };
            proof {
                assert(q@ =~= self@.drop_last());
            }
            Some(q)
        }
    }

    /// This path extended by one more component.
    pub fn join(&self, name: &str) -> (r: JsPath)
        ensures
            r@ == self@.push(name@),
    {
        let mut p = clone_parts(&self.parts);
        p.push(name.to_owned());
        let q = JsPath { parts: p };
        proof {
            assert(q@ =~= self@.push(name@));
        }
        q
    }

    /// Whether `prefix` is this path or one of its ancestors.
    pub fn starts_with(&self, prefix: &JsPath) -> (r: bool)
        ensures
            r == is_prefix_of(prefix@, self@),
    {
        if prefix.parts.len() > self.parts.len() {
            proof {
                assert(!is_prefix_of(prefix@, self@));
            }
            return false;
        }
        let n = prefix.parts.len();
        let mut i: usize = 0;
        while i < n
            invariant
                i <= n,
                n == prefix@.len(),
                n <= self@.len(),
                forall|k: int| 0 <= k < i ==> prefix@[k] == self@[k],
            decreases n - i,
        {
            if !(prefix.parts[i] == self.parts[i]) {
                proof {
                    assert(prefix@[i as int] != self@[i as int]);
                    assert(!is_prefix_of(prefix@, self@)) by {
                        if prefix@ == self@.take(n as int) {
                            assert(prefix@[i as int] == self@.take(n as int)[i as int]);
                        }
                    }
                }
                return false;
            }
            i += 1;
        }
        proof {
            assert(prefix@ =~= self@.take(n as int));
        }
        true
    }

    /// Whether the two paths name the same directory.
    pub fn same_path(&self, other: &JsPath) -> (r: bool)
        ensures
            r == (self@ == other@),
    {
        if self.parts.len() != other.parts.len() {
            proof {
                assert(self@.len() != other@.len());
            }
            return false;
        }
        let n = self.parts.len();
        let mut i: usize = 0;
        while i < n
            invariant
                i <= n,
                n == self@.len(),
                n == other@.len(),
                forall|k: int| 0 <= k < i ==> self@[k] == other@[k],
            decreases n - i,
        {
            if !(self.parts[i] == other.parts[i]) {
                proof {
                    assert(self@[i as int] != other@[i as int]);
                }
                return false;
            }
            i += 1;
        }
        proof {
            assert(self@ =~= other@);
        }
        true
    }
}

impl Clone for JsPath {
    /// A clone names the same directory.
    fn clone(&self) -> (r: Self)
        ensures
            r@ == self@,
    {
        JsPath { parts: clone_parts(&self.parts) }
    }
}

/// Copies a component list; each copied component equals the original.
fn clone_parts(v: &Vec<String>) -> (r: Vec<String>)
    ensures
        r@ == v@,
{
    let mut r: Vec<String> = Vec::new();
    let mut i: usize = 0;
    while i < v.len()
        invariant
            i <= v@.len(),
            r@.len() == i,
            forall|k: int| 0 <= k < i ==> r@[k] == v@[k],
        decreases v@.len() - i,
    {
        r.push(v[i].clone());
        i += 1;
    }
    proof {
        assert(r@ =~= v@);
    }
    r
}

} // verus!
