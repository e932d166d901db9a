//! The structured value model shared by every serialization scheme: a tree of
//! nulls, booleans, integers, strings, lists and string-keyed objects.
//!
//! The mathematical view of a tree is order-insensitive for objects: an
//! object's view is the finite map built from its pairs, later pairs winning
//! on a repeated key. Contracts throughout the crate are stated over this
//! semantic view, so that two trees that print differently but mean the same
//! object are equal in specifications.

use vstd::prelude::*;

verus! {

/// The semantic (ghost) form of a `Native` tree. Objects collapse to finite
/// maps, so views are insensitive to pair order and to repeated keys.
pub ghost enum NativeVal {
    NullV,
    BoolV(bool),
    IntV(int),
    StrV(Seq<char>),
    ListV(Seq<NativeVal>),
    ObjV(Map<Seq<char>, NativeVal>),
}

/// A format-neutral structured value: the shape that every scheme's own
/// value type (a JSON tree, a RON tree, a TOML table) is read into and
/// written from. Numbers are 64-bit signed integers; the crate stores no
/// floating point.
#[derive(Debug)]
pub enum Native {
    Null,
    Bool(bool),
    Int(i64),
    Str(String),
    List(Vec<Native>),
    Obj(Vec<(String, Native)>),
}

/// The value sequence denoted by a list's element sequence.
pub open spec fn list_view(s: Seq<Native>) -> Seq<NativeVal>
    decreases s,
{
    if s.len() == 0 {
        Seq::empty()
    } else {
        list_view(s.drop_last()).push(s.last()@)
    }
}

/// The map denoted by an object's pair sequence: later pairs win.
pub open spec fn obj_view(s: Seq<(String, Native)>) -> Map<Seq<char>, NativeVal>
    decreases s,
{
    if s.len() == 0 {
        Map::empty()
    } else {
        obj_view(s.drop_last()).insert(s.last().0@, s.last().1@)
    }
}

/// No two pairs of the sequence share a key.
pub open spec fn keys_unique(s: Seq<(String, Native)>) -> bool {
    forall|i: int, j: int| 0 <= i < j < s.len() ==> s[i].0@ != s[j].0@
}

/// Element-wise shape of a list's view.
pub proof fn lemma_list_view(s: Seq<Native>)
    ensures
        list_view(s).len() == s.len(),
        forall|i: int| 0 <= i < s.len() ==> list_view(s)[i] == s[i]@,
    decreases s,
{
    if s.len() > 0 {
        let d = s.drop_last();
        lemma_list_view(d);
        let p = list_view(d).push(s.last()@);
        assert(list_view(s) == p);
        assert forall|i: int| 0 <= i < s.len() implies list_view(s)[i] == s[i]@ by {
            if i < s.len() - 1 {
                assert(p[i] == list_view(d)[i]);
                assert(d[i] == s[i]);
            } else {
                assert(p[i] == s.last()@);
            }
        }
    }
}

/// An object's view contains exactly its keys, and on a sequence without
/// repeated keys each pair is found intact.
pub proof fn lemma_obj_view(s: Seq<(String, Native)>)
    ensures
        forall|k: Seq<char>|
            obj_view(s).contains_key(k) <==> exists|i: int| 0 <= i < s.len() && s[i].0@ == k,
        keys_unique(s) ==> forall|i: int|
            0 <= i < s.len() ==> obj_view(s).contains_key(#[trigger] s[i].0@) && obj_view(s)[s[i].0@]
                == s[i].1@,
    decreases s,
{
    if s.len() > 0 {
        let d = s.drop_last();
        lemma_obj_view(d);
        let m = obj_view(d).insert(s.last().0@, s.last().1@);
        assert(obj_view(s) == m);
        assert(forall|i: int| 0 <= i < s.len() - 1 ==> #[trigger] d[i] == s[i]);
        assert forall|k: Seq<char>| obj_view(s).contains_key(k) implies exists|i: int|
            0 <= i < s.len() && s[i].0@ == k by {
            if k == s.last().0@ {
                assert(s[s.len() - 1].0@ == k);
            } else {
                assert(m.contains_key(k) == obj_view(d).contains_key(k));
                let i = choose|i: int| 0 <= i < d.len() && d[i].0@ == k;
                assert(s[i].0@ == k);
            }
        }
        assert forall|k: Seq<char>| (exists|i: int| 0 <= i < s.len() && s[i].0@ == k) implies
            obj_view(s).contains_key(k) by {
            let i = choose|i: int| 0 <= i < s.len() && s[i].0@ == k;
            if i < s.len() - 1 {
                assert(d[i].0@ == k);
                assert(obj_view(d).contains_key(k));
                assert(m.contains_key(k));
            } else {
                assert(m.contains_key(k));
            }
        }
        if keys_unique(s) {
            assert(keys_unique(d));
            assert forall|i: int| 0 <= i < s.len() implies obj_view(s).contains_key(
                #[trigger] s[i].0@,
            ) && obj_view(s)[s[i].0@] == s[i].1@ by {
                if i < s.len() - 1 {
                    assert(d[i] == s[i]);
                    assert(obj_view(d).contains_key(s[i].0@) && obj_view(d)[s[i].0@] == s[i].1@);
                    assert(s[i].0@ != s.last().0@);
                    assert(m.contains_key(s[i].0@) && m[s[i].0@] == s[i].1@);
                } else {
                    assert(m.contains_key(s[i].0@) && m[s[i].0@] == s[i].1@);
                }
            }
        }
    }
}

/// Peeling the first pair off an object: it only contributes where no
/// later pair shares its key.
pub proof fn lemma_obj_view_cons(s: Seq<(String, Native)>)
    requires
        s.len() > 0,
    ensures
        obj_view(s) == if obj_view(s.skip(1)).contains_key(s[0].0@) {
            obj_view(s.skip(1))
        } else {
            obj_view(s.skip(1)).insert(s[0].0@, s[0].1@)
        },
    decreases s,
{
    let t = s.skip(1);
    if s.len() == 1 {
        assert(t =~= Seq::<(String, Native)>::empty());
        assert(s.drop_last() =~= Seq::<(String, Native)>::empty());
        assert(obj_view(s) == obj_view(s.drop_last()).insert(s.last().0@, s.last().1@));
        assert(obj_view(s) =~= obj_view(t).insert(s[0].0@, s[0].1@));
    } else {
        let d = s.drop_last();
        lemma_obj_view_cons(d);
        lemma_obj_view(d.skip(1));
        assert(t.drop_last() =~= d.skip(1));
        assert(d[0] == s[0]);
        let last = s.last();
        assert(t.last() == last);
        assert(obj_view(s) == obj_view(d).insert(last.0@, last.1@));
        assert(obj_view(t) == obj_view(d.skip(1)).insert(last.0@, last.1@));
        if obj_view(d.skip(1)).contains_key(s[0].0@) {
            assert(obj_view(d) == obj_view(d.skip(1)));
            assert(obj_view(t).contains_key(s[0].0@));
            assert(obj_view(s) == obj_view(t));
        } else {
            assert(obj_view(d) == obj_view(d.skip(1)).insert(s[0].0@, s[0].1@));
            if s[0].0@ == last.0@ {
                assert(obj_view(t).contains_key(s[0].0@));
                assert(obj_view(s) =~= obj_view(t));
            } else {
                assert(obj_view(t).contains_key(s[0].0@) == obj_view(d.skip(1)).contains_key(
                    s[0].0@,
                ));
                assert(obj_view(s) =~= obj_view(t).insert(s[0].0@, s[0].1@));
            }
        }
    }
}

/// Peeling pair `i` off the suffix starting at `i`.
pub proof fn lemma_obj_view_skip(s: Seq<(String, Native)>, i: int)
    requires
        0 <= i < s.len(),
    ensures
        obj_view(s.skip(i)) == if obj_view(s.skip(i + 1)).contains_key(s[i].0@) {
            obj_view(s.skip(i + 1))
        } else {
            obj_view(s.skip(i + 1)).insert(s[i].0@, s[i].1@)
        },
{
    let t = s.skip(i);
    lemma_obj_view_cons(t);
    assert(t[0] == s[i]);
    assert(t.skip(1) =~= s.skip(i + 1));
}

/// A pair whose key never recurs later is the one an object's view holds.
pub proof fn lemma_obj_view_last(s: Seq<(String, Native)>, i: int)
    requires
        0 <= i < s.len(),
        forall|j: int| i < j < s.len() ==> s[j].0@ != s[i].0@,
    ensures
        obj_view(s).contains_key(s[i].0@),
        obj_view(s)[s[i].0@] == s[i].1@,
    decreases s,
{
    let d = s.drop_last();
    let m = obj_view(d).insert(s.last().0@, s.last().1@);
    assert(obj_view(s) == m);
    if i == s.len() - 1 {
        assert(m.contains_key(s[i].0@) && m[s[i].0@] == s[i].1@);
    } else {
        assert(d[i] == s[i]);
        assert(forall|j: int| i < j < d.len() ==> #[trigger] d[j] == s[j]);
        lemma_obj_view_last(d, i);
        assert(s[s.len() - 1].0@ != s[i].0@);
        assert(m.contains_key(s[i].0@) && m[s[i].0@] == s[i].1@);
    }
}

/// Element sequences equal view-by-view denote the same list view.
pub proof fn lemma_list_view_congruent(a: Seq<Native>, b: Seq<Native>)
    requires
        a.len() == b.len(),
        forall|i: int| 0 <= i < a.len() ==> (#[trigger] a[i])@ == b[i]@,
    ensures
        list_view(a) == list_view(b),
    decreases a,
{
    if a.len() > 0 {
        assert(forall|i: int|
            0 <= i < a.len() - 1 ==> (#[trigger] a.drop_last()[i]) == a[i] && b.drop_last()[i]
                == b[i]);
        lemma_list_view_congruent(a.drop_last(), b.drop_last());
        assert(a[a.len() - 1]@ == b[a.len() - 1]@);
    }
}

/// Pair sequences equal view-by-view denote the same object view.
pub proof fn lemma_obj_view_congruent(a: Seq<(String, Native)>, b: Seq<(String, Native)>)
    requires
        a.len() == b.len(),
        forall|i: int|
            0 <= i < a.len() ==> (#[trigger] a[i]).0@ == b[i].0@ && a[i].1@ == b[i].1@,
    ensures
        obj_view(a) == obj_view(b),
    decreases a,
{
    if a.len() > 0 {
        assert(forall|i: int|
            0 <= i < a.len() - 1 ==> (#[trigger] a.drop_last()[i]) == a[i] && b.drop_last()[i]
                == b[i]);
        lemma_obj_view_congruent(a.drop_last(), b.drop_last());
        assert(a[a.len() - 1].0@ == b[a.len() - 1].0@ && a[a.len() - 1].1@ == b[a.len() - 1].1@);
    }
}

impl Clone for Native {
    /// A copy with the same semantic form.
    #[verifier::loop_isolation(false)]
    fn clone(&self) -> (r: Self)
        ensures
            r@ == self@,
        decreases self,
    {
        match self {
            Native::Null => Native::Null,
            Native::Bool(b) => Native::Bool(*b),
            Native::Int(i) => Native::Int(*i),
            Native::Str(s) => Native::Str(s.clone()),
            Native::List(xs) => {
                let mut out: Vec<Native> = Vec::new();
                let mut i: usize = 0;
                while i < xs.len()
                    invariant
                        i <= xs@.len(),
                        out@.len() == i,
                        forall|j: int| 0 <= j < i ==> (#[trigger] out@[j])@ == xs@[j]@,
                    decreases xs@.len() - i,
                {
                    out.push(xs[i].clone());
                    i += 1;
                }
                proof {
                    lemma_list_view_congruent(out@, xs@);
                }
                Native::List(out)
            },
            Native::Obj(es) => {
                let mut out: Vec<(String, Native)> = Vec::new();
                let mut i: usize = 0;
                while i < es.len()
                    invariant
                        i <= es@.len(),
                        out@.len() == i,
                        forall|j: int|
                            0 <= j < i ==> (#[trigger] out@[j]).0@ == es@[j].0@ && out@[j].1@
                                == es@[j].1@,
                    decreases es@.len() - i,
                {
                    out.push((es[i].0.clone(), es[i].1.clone()));
                    i += 1;
                }
                proof {
                    lemma_obj_view_congruent(out@, es@);
                }
                Native::Obj(out)
            },
        }
    }
}

impl View for Native {
    type V = NativeVal;

    open spec fn view(&self) -> NativeVal
        decreases self,
    {
        match self {
            Native::Null => NativeVal::NullV,
            Native::Bool(b) => NativeVal::BoolV(*b),
            Native::Int(i) => NativeVal::IntV(*i as int),
            Native::Str(s) => NativeVal::StrV(s@),
            Native::List(xs) => NativeVal::ListV(list_view(xs@)),
            Native::Obj(es) => NativeVal::ObjV(obj_view(es@)),
        }
    }
}

} // verus!
