//! The bridge between statically-typed values and the erased value model: a
//! trait for every type that can live inside the container, and the typed
//! key that pairs a map key name with such a type.
//!
//! Type identity is a runtime tag, one constant per storable type: the
//! verifier has no compile-time type identifier, so the tag recorded when a
//! typed slot is first populated is what later accesses are checked against.

use vstd::prelude::*;

use core::marker::PhantomData;

use crate::native::{Native, NativeVal};
use crate::native::{lemma_list_view, lemma_obj_view, lemma_obj_view_last, lemma_obj_view_skip,
    list_view, obj_view};

verus! {

/// The reserved tag of a typed slot holding a structured value with no
/// recorded type: such a slot is read by shape, exactly as parsed text is.
/// No storable type may carry this tag.
pub const TAG_VALUE: u64 = 0;

pub const TAG_I64: u64 = 1;

pub const TAG_BOOL: u64 = 2;

pub const TAG_STRING: u64 = 3;

pub const TAG_STRING_LIST: u64 = 4;

pub const TAG_STRING_MAP: u64 = 5;

pub const TAG_FREEFORM: u64 = 6;

/// A type whose values can be stored in the container: it has a runtime
/// tag standing for its identity, an embedding into the structured value
/// model, and a partial inverse.
///
/// `embed` is each value's semantic form; `accepts` bounds the values the
/// inverse is owed on; `can_embed` bounds the values whose embedding is
/// faithful (for plain types that is every value; a container is only as
/// good as its entries). Two storable types must not share a tag, and
/// none may use the reserved no-type tag: the tag is what stands between
/// a typed access and a value of the wrong type. The verifier cannot
/// check tag uniqueness across implementations, so every new
/// implementation must pick a fresh nonzero tag; two types sharing a tag
/// forfeit the wrong-type guarantee between each other, nothing more.
pub trait FreeformData: Sized {
    /// The runtime identity of this type.
    spec fn tag_spec() -> u64;

    /// The semantic form of a value.
    spec fn embed(self) -> NativeVal;

    /// The structured values this type can be read back from.
    spec fn accepts(n: NativeVal) -> bool;

    /// The values whose embedding round-trips.
    spec fn can_embed(self) -> bool;

    /// The form values take when read back out of a structured form:
    /// plain values are always settled; a container read back holds only
    /// entries whose slot is a structured value with no recorded type, so
    /// its own typed reads are decided by shape alone.
    spec fn settled(self) -> bool;

    /// Law: an embeddable value's semantic form is readable back.
    proof fn lemma_embed_accepts(v: Self)
        requires
            v.can_embed(),
        ensures
            Self::accepts(v.embed()),
    ;

    /// The runtime identity of this type.
    fn type_tag() -> (t: u64)
        ensures
            t == Self::tag_spec(),
    ;

    /// Turn a value into its structured form.
    fn to_native(&self) -> (n: Native)
        ensures
            (*self).can_embed() ==> n@ == (*self).embed(),
    ;

    /// Read a value back out of a structured form: it succeeds exactly on
    /// the forms `accepts` admits, and what comes back is settled.
    fn from_native(n: &Native) -> (r: Option<Self>)
        ensures
            r is Some <==> Self::accepts(n@),
            Self::accepts(n@) ==> (r matches Some(w) && w.embed() == n@ && w.can_embed()
                && w.settled()),
    ;

    /// A copy with the same semantic form.
    fn clone_data(&self) -> (r: Self)
        ensures
            r.embed() == (*self).embed(),
            r.can_embed() <==> (*self).can_embed(),
            r.settled() <==> (*self).settled(),
    ;
}

/// A storable type with a distinguished default value, for the accessors
/// that collapse an absent key into a default.
pub trait FreeformDefault: FreeformData {
    /// The semantic form of the default value.
    spec fn default_spec() -> NativeVal;

    /// The default value.
    fn default_value() -> (r: Self)
        ensures
            r.embed() == Self::default_spec(),
            r.can_embed(),
            r.settled(),
    ;
}

/// A compile-time (name, type) pair: the name is the map key, the type
/// parameter fixes which storable type the entry is read and written as.
pub struct TypedKey<T> {
    name: String,
    marker: PhantomData<T>,
}

impl<T> View for TypedKey<T> {
    type V = Seq<char>;

    closed spec fn view(&self) -> Seq<char> {
        self.name@
    }
}

impl<T> TypedKey<T> {
    /// Bind a key name to the type `T`.
    pub fn new(name: String) -> (k: Self)
        ensures
            k@ == name@,
    {
        TypedKey { name: name, marker: PhantomData }
    }

    /// The key's name.
    pub fn name(&self) -> (n: &str)
        ensures
            n@ == self@,
    {
        self.name.as_str()
    }

    /// The key's name, as the owned string it is kept in.
    pub(crate) fn name_string(&self) -> (n: &String)
        ensures
            n@ == self@,
    {
        &self.name
    }
}

impl FreeformData for i64 {
    open spec fn tag_spec() -> u64 {
        TAG_I64
    }

    open spec fn embed(self) -> NativeVal {
        NativeVal::IntV(self as int)
    }

    open spec fn accepts(n: NativeVal) -> bool {
        n matches NativeVal::IntV(i) && i64::MIN <= i <= i64::MAX
    }

    open spec fn can_embed(self) -> bool {
        true
    }

    open spec fn settled(self) -> bool {
        true
    }

    proof fn lemma_embed_accepts(v: Self) {
    }

    fn type_tag() -> (t: u64) {
        TAG_I64
    }

    fn to_native(&self) -> (n: Native) {
        Native::Int(*self)
    }

    fn from_native(n: &Native) -> (r: Option<Self>) {
        match n {
            Native::Int(i) => Some(*i),
            _ => None,
        }
    }

    fn clone_data(&self) -> (r: Self) {
        *self
    }
}

impl FreeformDefault for i64 {
    open spec fn default_spec() -> NativeVal {
        NativeVal::IntV(0)
    }

    fn default_value() -> (r: Self) {
        0
    }
}

impl FreeformData for bool {
    open spec fn tag_spec() -> u64 {
        TAG_BOOL
    }

    open spec fn embed(self) -> NativeVal {
        NativeVal::BoolV(self)
    }

    open spec fn accepts(n: NativeVal) -> bool {
        n matches NativeVal::BoolV(_)
    }

    open spec fn can_embed(self) -> bool {
        true
    }

    open spec fn settled(self) -> bool {
        true
    }

    proof fn lemma_embed_accepts(v: Self) {
    }

    fn type_tag() -> (t: u64) {
        TAG_BOOL
    }

    fn to_native(&self) -> (n: Native) {
        Native::Bool(*self)
    }

    fn from_native(n: &Native) -> (r: Option<Self>) {
        match n {
            Native::Bool(b) => Some(*b),
            _ => None,
        }
    }

    fn clone_data(&self) -> (r: Self) {
        *self
    }
}

impl FreeformDefault for bool {
    open spec fn default_spec() -> NativeVal {
        NativeVal::BoolV(false)
    }

    fn default_value() -> (r: Self) {
        false
    }
}

impl FreeformData for String {
    open spec fn tag_spec() -> u64 {
        TAG_STRING
    }

    open spec fn embed(self) -> NativeVal {
        NativeVal::StrV(self@)
    }

    open spec fn accepts(n: NativeVal) -> bool {
        n matches NativeVal::StrV(_)
    }

    open spec fn can_embed(self) -> bool {
        true
    }

    open spec fn settled(self) -> bool {
        true
    }

    proof fn lemma_embed_accepts(v: Self) {
    }

    fn type_tag() -> (t: u64) {
        TAG_STRING
    }

    fn to_native(&self) -> (n: Native) {
        Native::Str(self.clone())
    }

    fn from_native(n: &Native) -> (r: Option<Self>) {
        match n {
            Native::Str(s) => Some(s.clone()),
            _ => None,
        }
    }

    fn clone_data(&self) -> (r: Self) {
        self.clone()
    }
}

impl FreeformDefault for String {
    open spec fn default_spec() -> NativeVal {
        NativeVal::StrV(Seq::empty())
    }

    fn default_value() -> (r: Self) {
        String::new()
    }
}

impl FreeformData for Vec<String> {
    open spec fn tag_spec() -> u64 {
        TAG_STRING_LIST
    }

    open spec fn embed(self) -> NativeVal {
        NativeVal::ListV(Seq::new(self@.len(), |i: int| NativeVal::StrV(self@[i]@)))
    }

    open spec fn accepts(n: NativeVal) -> bool {
        match n {
            NativeVal::ListV(xs) => forall|i: int|
                0 <= i < xs.len() ==> (#[trigger] xs[i]) matches NativeVal::StrV(_),
            _ => false,
        }
    }

    open spec fn can_embed(self) -> bool {
        true
    }

    open spec fn settled(self) -> bool {
        true
    }

    proof fn lemma_embed_accepts(v: Self) {
    }

    fn type_tag() -> (t: u64) {
        TAG_STRING_LIST
    }

    fn to_native(&self) -> (n: Native) {
        let mut out: Vec<Native> = Vec::new();
        let mut i: usize = 0;
        while i < self.len()
            invariant
                i <= self.len(),
                out@.len() == i,
                forall|j: int| 0 <= j < i ==> out@[j]@ == NativeVal::StrV(self@[j]@),
            decreases self.len() - i,
        {
            out.push(Native::Str(self[i].clone()));
            i += 1;
        }
        proof {
            lemma_list_view(out@);
            assert(list_view(out@) =~= Seq::new(
                self@.len(),
                |j: int| NativeVal::StrV(self@[j]@),
            ));
        }
        Native::List(out)
    }

    fn from_native(n: &Native) -> (r: Option<Self>) {
        match n {
            Native::List(xs) => {
                let mut out: Vec<String> = Vec::new();
                let mut i: usize = 0;
                proof {
                    lemma_list_view(xs@);
                }
                while i < xs.len()
                    invariant
                        i <= xs.len(),
                        out@.len() == i,
                        n@ == NativeVal::ListV(list_view(xs@)),
                        forall|j: int| 0 <= j < i ==> xs@[j]@ == NativeVal::StrV(out@[j]@),
                        list_view(xs@).len() == xs@.len(),
                        forall|j: int| 0 <= j < xs@.len() ==> list_view(xs@)[j] == xs@[j]@,
                    decreases xs.len() - i,
                {
                    match &xs[i] {
                        Native::Str(s) => {
                            out.push(s.clone());
                        },
                        _ => {
                            proof {
                                let ys = n@->ListV_0;
                                assert(ys == list_view(xs@));
                                assert(!(ys[i as int] matches NativeVal::StrV(_)));
                                assert(!<Vec<String> as FreeformData>::accepts(n@));
                            }
                            return None;
                        },
                    }
                    i += 1;
                }
                proof {
                    assert(Seq::new(out@.len(), |j: int| NativeVal::StrV(out@[j]@)) =~= list_view(
                        xs@,
                    ));
                }
                Some(out)
            },
            _ => None,
        }
    }

    fn clone_data(&self) -> (r: Self)
        ensures
            r@.len() == self@.len(),
            forall|i: int| 0 <= i < self@.len() ==> r@[i]@ == self@[i]@,
    {
        let mut out: Vec<String> = Vec::new();
        let mut i: usize = 0;
        while i < self.len()
            invariant
                i <= self.len(),
                out@.len() == i,
                forall|j: int| 0 <= j < i ==> out@[j]@ == self@[j]@,
            decreases self.len() - i,
        {
            out.push(self[i].clone());
            i += 1;
        }
        proof {
            assert(Seq::new(out@.len(), |i: int| NativeVal::StrV(out@[i]@)) =~= Seq::new(
                self@.len(),
                |i: int| NativeVal::StrV(self@[i]@),
            ));
        }
        out
    }
}

/// The map denoted by a sequence of string pairs: later pairs win.
pub open spec fn str_pairs_view(s: Seq<(String, String)>) -> Map<Seq<char>, NativeVal>
    decreases s,
{
    if s.len() == 0 {
        Map::empty()
    } else {
        str_pairs_view(s.drop_last()).insert(
            s.last().0@,
            NativeVal::StrV(s.last().1@),
        )
    }
}

/// A string-pair map contains exactly the keys of its pairs.
pub proof fn lemma_str_pairs_view(s: Seq<(String, String)>)
    ensures
        forall|k: Seq<char>|
            str_pairs_view(s).contains_key(k) <==> exists|i: int| 0 <= i < s.len() && s[i].0@ == k,
    decreases s,
{
    if s.len() > 0 {
        let d = s.drop_last();
        lemma_str_pairs_view(d);
        let m = str_pairs_view(d).insert(s.last().0@, NativeVal::StrV(s.last().1@));
        assert(str_pairs_view(s) == m);
        assert(forall|i: int| 0 <= i < s.len() - 1 ==> #[trigger] d[i] == s[i]);
        assert forall|k: Seq<char>| str_pairs_view(s).contains_key(k) implies exists|i: int|
            0 <= i < s.len() && s[i].0@ == k by {
            if k == s.last().0@ {
                assert(s[s.len() - 1].0@ == k);
            } else {
                assert(str_pairs_view(d).contains_key(k));
                let i = choose|i: int| 0 <= i < d.len() && d[i].0@ == k;
                assert(s[i].0@ == k);
            }
        }
        assert forall|k: Seq<char>| (exists|i: int| 0 <= i < s.len() && s[i].0@ == k) implies
            str_pairs_view(s).contains_key(k) by {
            let i = choose|i: int| 0 <= i < s.len() && s[i].0@ == k;
            if i < s.len() - 1 {
                assert(d[i].0@ == k);
                assert(str_pairs_view(d).contains_key(k));
            }
            assert(m.contains_key(k));
        }
    }
}

/// On a sequence without repeated keys each pair is found intact.
pub proof fn lemma_str_pairs_unique(s: Seq<(String, String)>)
    requires
        forall|i: int, j: int| 0 <= i < j < s.len() ==> s[i].0@ != s[j].0@,
    ensures
        forall|i: int|
            0 <= i < s.len() ==> str_pairs_view(s).contains_key(#[trigger] s[i].0@)
                && str_pairs_view(s)[s[i].0@] == NativeVal::StrV(s[i].1@),
    decreases s,
{
    if s.len() > 0 {
        let d = s.drop_last();
        assert(forall|i: int| 0 <= i < s.len() - 1 ==> #[trigger] d[i] == s[i]);
        lemma_str_pairs_unique(d);
        let m = str_pairs_view(d).insert(s.last().0@, NativeVal::StrV(s.last().1@));
        assert(str_pairs_view(s) == m);
        assert forall|i: int| 0 <= i < s.len() implies str_pairs_view(s).contains_key(
            #[trigger] s[i].0@,
        ) && str_pairs_view(s)[s[i].0@] == NativeVal::StrV(s[i].1@) by {
            if i < s.len() - 1 {
                assert(d[i] == s[i]);
                assert(str_pairs_view(d).contains_key(s[i].0@) && str_pairs_view(d)[s[i].0@]
                    == NativeVal::StrV(s[i].1@));
                assert(s[i].0@ != s.last().0@);
            }
        }
    }
}

/// Pairs equal view-by-view denote the same map.
pub proof fn lemma_str_pairs_congruent(a: Seq<(String, String)>, b: Seq<(String, String)>)
    requires
        a.len() == b.len(),
        forall|i: int|
            0 <= i < a.len() ==> (#[trigger] a[i]).0@ == b[i].0@ && a[i].1@ == b[i].1@,
    ensures
        str_pairs_view(a) == str_pairs_view(b),
    decreases a,
{
    if a.len() > 0 {
        assert(forall|i: int|
            0 <= i < a.len() - 1 ==> (#[trigger] a.drop_last()[i]) == a[i] && b.drop_last()[i]
                == b[i]);
        lemma_str_pairs_congruent(a.drop_last(), b.drop_last());
        assert(a[a.len() - 1].0@ == b[a.len() - 1].0@ && a[a.len() - 1].1@ == b[a.len() - 1].1@);
    }
}

/// A string-pair sequence and an object's pair sequence that mirror each
/// other pairwise denote the same map.
pub proof fn lemma_str_pairs_align(a: Seq<(String, String)>, b: Seq<(String, Native)>)
    requires
        a.len() == b.len(),
        forall|i: int|
            0 <= i < a.len() ==> (#[trigger] b[i]).0@ == a[i].0@ && b[i].1@ == NativeVal::StrV(
                a[i].1@,
            ),
    ensures
        obj_view(b) == str_pairs_view(a),
    decreases a,
{
    if a.len() > 0 {
        assert(forall|i: int|
            0 <= i < a.len() - 1 ==> (#[trigger] a.drop_last()[i]) == a[i] && b.drop_last()[i]
                == b[i]);
        lemma_str_pairs_align(a.drop_last(), b.drop_last());
        assert(b[a.len() - 1].0@ == a[a.len() - 1].0@ && b[a.len() - 1].1@ == NativeVal::StrV(
            a[a.len() - 1].1@,
        ));
    }
}

/// Whether some pair of the vector carries this key.
fn pairs_contain_key(out: &Vec<(String, String)>, k: &String) -> (r: bool)
    ensures
        r == exists|j: int| 0 <= j < out@.len() && out@[j].0@ == k@,
{
    let mut j: usize = 0;
    while j < out.len()
        invariant
            j <= out@.len(),
            forall|p: int| 0 <= p < j ==> out@[p].0@ != k@,
        decreases out@.len() - j,
    {
        if out[j].0 == *k {
            proof {
                assert(out@[j as int].0@ == k@);
            }
            return true;
        }
        j += 1;
    }
    false
}

impl FreeformData for Vec<(String, String)> {
    open spec fn tag_spec() -> u64 {
        TAG_STRING_MAP
    }

    open spec fn embed(self) -> NativeVal {
        NativeVal::ObjV(str_pairs_view(self@))
    }

    open spec fn accepts(n: NativeVal) -> bool {
        match n {
            NativeVal::ObjV(m) => forall|k: Seq<char>|
                m.contains_key(k) ==> (#[trigger] m[k]) matches NativeVal::StrV(_),
            _ => false,
        }
    }

    open spec fn can_embed(self) -> bool {
        true
    }

    open spec fn settled(self) -> bool {
        true
    }

    proof fn lemma_embed_accepts(v: Self) {
        lemma_str_pairs_view(v@);
        assert forall|k: Seq<char>| str_pairs_view(v@).contains_key(k) implies (
        #[trigger] str_pairs_view(v@)[k]) matches NativeVal::StrV(_) by {
            lemma_str_pairs_strv(v@, k);
        }
    }

    fn type_tag() -> (t: u64) {
        TAG_STRING_MAP
    }

    fn to_native(&self) -> (n: Native) {
        let mut out: Vec<(String, Native)> = Vec::new();
        let mut i: usize = 0;
        while i < self.len()
            invariant
                i <= self.len(),
                out@.len() == i,
                forall|j: int|
                    0 <= j < i ==> (#[trigger] out@[j]).0@ == self@[j].0@ && out@[j].1@
                        == NativeVal::StrV(self@[j].1@),
            decreases self.len() - i,
        {
            out.push((self[i].0.clone(), Native::Str(self[i].1.clone())));
            i += 1;
        }
        proof {
            lemma_str_pairs_align(self@, out@);
        }
        Native::Obj(out)
    }

    #[verifier::loop_isolation(false)]
    fn from_native(n: &Native) -> (r: Option<Self>) {
        match n {
            Native::Obj(es) => {
                let mut out: Vec<(String, String)> = Vec::new();
                let mut i: usize = es.len();
                proof {
                    assert(es@.skip(es@.len() as int) =~= Seq::<(String, Native)>::empty());
                }
                while i > 0
                    invariant
                        i <= es.len(),
                        n@ == NativeVal::ObjV(obj_view(es@)),
                        str_pairs_view(out@) == obj_view(es@.skip(i as int)),
                        forall|a: int, b: int|
                            0 <= a < b < out@.len() ==> out@[a].0@ != out@[b].0@,
                    decreases i,
                {
                    i -= 1;
                    proof {
                        lemma_obj_view_skip(es@, i as int);
                        lemma_str_pairs_view(out@);
                    }
                    let ghost out0 = out@;
                    if !pairs_contain_key(&out, &es[i].0) {
                        match &es[i].1 {
                            Native::Str(v) => {
                                out.push((es[i].0.clone(), v.clone()));
                                proof {
                                    assert(out@.drop_last() =~= out0);
                                    assert(out@.last().0@ == es@[i as int].0@);
                                    assert(out@.last().1@ == v@);
                                    assert(es@[i as int].1@ == NativeVal::StrV(v@));
                                    assert(str_pairs_view(out@) == str_pairs_view(out0).insert(
                                        es@[i as int].0@,
                                        NativeVal::StrV(v@),
                                    ));
                                }
                            },
                            _ => {
                                proof {
                                    let m = n@->ObjV_0;
                                    assert forall|j: int|
                                        (i as int) < j < es@.len() implies #[trigger] es@[j].0@
                                        != es@[i as int].0@ by {
                                        lemma_obj_view(es@.skip(i as int + 1));
                                        assert(es@.skip(i as int + 1)[j - i - 1] == es@[j]);
                                    }
                                    lemma_obj_view_last(es@, i as int);
                                    assert(m.contains_key(es@[i as int].0@));
                                    assert(!(m[es@[i as int].0@] matches NativeVal::StrV(_)));
                                }
                                return None;
                            },
                        }
                    }
                }
                proof {
                    assert(es@.skip(0) =~= es@);
                }
                // the walk ran from the last pair to the first: hand the
                // surviving pairs back in the order the object gave them
                let mut fwd: Vec<(String, String)> = Vec::new();
                let mut j: usize = out.len();
                while j > 0
                    invariant
                        j <= out@.len(),
                        fwd@.len() == out@.len() - j,
                        forall|p: int|
                            0 <= p < fwd@.len() ==> ((#[trigger] fwd@[p]).0@ == out@[out@.len() - 1
                                - p].0@ && fwd@[p].1@ == out@[out@.len() - 1 - p].1@),
                    decreases j,
                {
                    j -= 1;
                    fwd.push((out[j].0.clone(), out[j].1.clone()));
                }
                proof {
                    lemma_str_pairs_view(out@);
                    lemma_str_pairs_view(fwd@);
                    lemma_str_pairs_unique(out@);
                    assert forall|a: int, b: int|
                        0 <= a < b < fwd@.len() implies fwd@[a].0@ != fwd@[b].0@ by {
                        assert(fwd@[a].0@ == out@[out@.len() - 1 - a].0@);
                        assert(fwd@[b].0@ == out@[out@.len() - 1 - b].0@);
                    }
                    lemma_str_pairs_unique(fwd@);
                    assert forall|k: Seq<char>|
                        str_pairs_view(fwd@).contains_key(k) == str_pairs_view(
                            out@,
                        ).contains_key(k) by {
                        if str_pairs_view(fwd@).contains_key(k) {
                            let p = choose|p: int| 0 <= p < fwd@.len() && fwd@[p].0@ == k;
                            assert(out@[out@.len() - 1 - p].0@ == k);
                        }
                        if str_pairs_view(out@).contains_key(k) {
                            let q = choose|q: int| 0 <= q < out@.len() && out@[q].0@ == k;
                            assert(fwd@[out@.len() - 1 - q].0@ == k);
                        }
                    }
                    assert forall|k: Seq<char>|
                        str_pairs_view(fwd@).contains_key(k) implies str_pairs_view(fwd@)[k]
                        == str_pairs_view(out@)[k] by {
                        let p = choose|p: int| 0 <= p < fwd@.len() && fwd@[p].0@ == k;
                        assert(out@[out@.len() - 1 - p].0@ == k);
                        assert(str_pairs_view(fwd@)[k] == NativeVal::StrV(fwd@[p].1@));
                        assert(str_pairs_view(out@)[k] == NativeVal::StrV(
                            out@[out@.len() - 1 - p].1@,
                        ));
                    }
                    assert(str_pairs_view(fwd@) =~= str_pairs_view(out@));
                }
                Some(fwd)
            },
            _ => None,
        }
    }

    fn clone_data(&self) -> (r: Self) {
        let mut out: Vec<(String, String)> = Vec::new();
        let mut i: usize = 0;
        while i < self.len()
            invariant
                i <= self.len(),
                out@.len() == i,
                forall|j: int|
                    0 <= j < i ==> (#[trigger] out@[j]).0@ == self@[j].0@ && out@[j].1@
                        == self@[j].1@,
            decreases self.len() - i,
        {
            out.push((self[i].0.clone(), self[i].1.clone()));
            i += 1;
        }
        proof {
            lemma_str_pairs_congruent(out@, self@);
        }
        out
    }
}

/// In a string-pair map every held value is a string.
proof fn lemma_str_pairs_strv(s: Seq<(String, String)>, k: Seq<char>)
    requires
        str_pairs_view(s).contains_key(k),
    ensures
        str_pairs_view(s)[k] matches NativeVal::StrV(_),
    decreases s,
{
    if s.len() > 0 {
        let d = s.drop_last();
        let m = str_pairs_view(d).insert(s.last().0@, NativeVal::StrV(s.last().1@));
        assert(str_pairs_view(s) == m);
        if k != s.last().0@ {
            assert(str_pairs_view(d).contains_key(k));
            lemma_str_pairs_strv(d, k);
        }
    }
}

impl FreeformDefault for Vec<(String, String)> {
    open spec fn default_spec() -> NativeVal {
        NativeVal::ObjV(Map::empty())
    }

    fn default_value() -> (r: Self) {
        let out: Vec<(String, String)> = Vec::new();
        proof {
            assert(str_pairs_view(out@) =~= Map::<Seq<char>, NativeVal>::empty());
        }
        out
    }
}

impl FreeformDefault for Vec<String> {
    open spec fn default_spec() -> NativeVal {
        NativeVal::ListV(Seq::empty())
    }

    fn default_value() -> (r: Self) {
        let out: Vec<String> = Vec::new();
        proof {
            assert(Seq::new(out@.len(), |i: int| NativeVal::StrV(out@[i]@)) =~= Seq::<
                NativeVal,
            >::empty());
        }
        out
    }
}

} // verus!
