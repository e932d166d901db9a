//! The container: a string-keyed map of dual-representation cells with a
//! typed-key API on top, and whole-container conversion through a scheme's
//! structured value form.
//!
//! A container's view is a finite map from key name to cell view; entries
//! are independent and insertion order carries no meaning.

use vstd::prelude::*;

use crate::data::{FreeformData, FreeformDefault, TypedKey, TAG_FREEFORM, TAG_VALUE};
use crate::native::{keys_unique, lemma_obj_view, lemma_obj_view_last, lemma_obj_view_skip, obj_view};
use crate::native::{Native, NativeVal};
use crate::scheme::SerdeScheme;
use crate::sord::{cell_value_only, de_sem, de_success, entry_ready, sord_sem, SordErrVal,
    SordError, SordView};
use crate::sord::Sord;

verus! {

/// The semantic form of a container error.
pub ghost enum FreeformErrVal {
    SerdeV(Seq<char>),
    RequiredKeyNotFoundV(Seq<char>),
    KeyTypeV,
}

/// Why a container operation failed: the scheme failed to convert, a
/// required key was absent, or the key's type does not match what the
/// entry holds.
#[derive(Debug, PartialEq, Eq)]
pub enum FreeformErr {
    SerdeError(String),
    RequiredKeyNotFound(String),
    KeyTypeDoesNotMatch,
}

impl View for FreeformErr {
    type V = FreeformErrVal;

    open spec fn view(&self) -> FreeformErrVal {
        match self {
            FreeformErr::SerdeError(m) => FreeformErrVal::SerdeV(m@),
            FreeformErr::RequiredKeyNotFound(k) => FreeformErrVal::RequiredKeyNotFoundV(k@),
            FreeformErr::KeyTypeDoesNotMatch => FreeformErrVal::KeyTypeV,
        }
    }
}

impl FreeformErr {
    /// The container error standing for a cell error.
    pub open spec fn of_sord_spec(ev: SordErrVal) -> FreeformErrVal {
        match ev {
            SordErrVal::SeDeV(m) => FreeformErrVal::SerdeV(m),
            SordErrVal::WrongTypeV => FreeformErrVal::KeyTypeV,
        }
    }

    /// Map a cell error into a container error.
    pub fn of_sord(e: SordError) -> (r: Self)
        ensures
            r@ == Self::of_sord_spec(e@),
    {
        match e {
            SordError::SeDeError(m) => FreeformErr::SerdeError(m),
            SordError::WrongTypeError => FreeformErr::KeyTypeDoesNotMatch,
        }
    }
}

/// The map denoted by an entry sequence: later entries win (entry
/// sequences of a well-formed container never repeat a key).
pub open spec fn entries_map<S: SerdeScheme>(s: Seq<(String, Sord<S>)>) -> Map<
    Seq<char>,
    SordView,
>
    decreases s,
{
    if s.len() == 0 {
        Map::empty()
    } else {
        entries_map(s.drop_last()).insert(s.last().0@, s.last().1@)
    }
}

/// An entry map contains exactly its keys, and on a sequence without
/// repeated keys each entry is found intact.
pub proof fn lemma_entries_map<S: SerdeScheme>(s: Seq<(String, Sord<S>)>)
    ensures
        forall|k: Seq<char>|
            entries_map(s).contains_key(k) <==> exists|i: int| 0 <= i < s.len() && s[i].0@ == k,
        (forall|i: int, j: int| 0 <= i < j < s.len() ==> s[i].0@ != s[j].0@) ==> forall|i: int|
            0 <= i < s.len() ==> entries_map(s).contains_key(#[trigger] s[i].0@) && entries_map(
                s,
            )[s[i].0@] == s[i].1@,
    decreases s,
{
    if s.len() > 0 {
        let d = s.drop_last();
        lemma_entries_map(d);
        let m = entries_map(d).insert(s.last().0@, s.last().1@);
        assert(entries_map(s) == m);
        assert(forall|i: int| 0 <= i < s.len() - 1 ==> #[trigger] d[i] == s[i]);
        assert forall|k: Seq<char>| entries_map(s).contains_key(k) implies exists|i: int|
            0 <= i < s.len() && s[i].0@ == k by {
            if k == s.last().0@ {
                assert(s[s.len() - 1].0@ == k);
            } else {
                assert(entries_map(d).contains_key(k));
                let i = choose|i: int| 0 <= i < d.len() && d[i].0@ == k;
                assert(s[i].0@ == k);
            }
        }
        assert forall|k: Seq<char>| (exists|i: int| 0 <= i < s.len() && s[i].0@ == k) implies
            entries_map(s).contains_key(k) by {
            let i = choose|i: int| 0 <= i < s.len() && s[i].0@ == k;
            if i < s.len() - 1 {
                assert(d[i].0@ == k);
                assert(entries_map(d).contains_key(k));
            }
            assert(m.contains_key(k));
        }
        if forall|i: int, j: int| 0 <= i < j < s.len() ==> s[i].0@ != s[j].0@ {
            assert forall|i: int| 0 <= i < s.len() implies entries_map(s).contains_key(
                #[trigger] s[i].0@,
            ) && entries_map(s)[s[i].0@] == s[i].1@ by {
                if i < s.len() - 1 {
                    assert(d[i] == s[i]);
                    assert(entries_map(d).contains_key(s[i].0@) && entries_map(d)[s[i].0@]
                        == s[i].1@);
                    assert(s[i].0@ != s.last().0@);
                    assert(m.contains_key(s[i].0@) && m[s[i].0@] == s[i].1@);
                } else {
                    assert(m.contains_key(s[i].0@) && m[s[i].0@] == s[i].1@);
                }
            }
        }
    }
}

/// The string-keyed container of dual-representation cells.
pub struct Freeform<S: SerdeScheme> {
    entries: Vec<(String, Sord<S>)>,
}

impl<S: SerdeScheme> View for Freeform<S> {
    type V = Map<Seq<char>, SordView>;

    closed spec fn view(&self) -> Map<Seq<char>, SordView> {
        entries_map(self.entries@)
    }
}

impl<S: SerdeScheme> Freeform<S> {
    /// The container's internal invariant: no key is stored twice, and
    /// every cell is well-formed.
    pub closed spec fn wf(&self) -> bool {
        &&& forall|i: int, j: int|
            0 <= i < j < self.entries@.len() ==> self.entries@[i].0@ != self.entries@[j].0@
        &&& forall|i: int| 0 <= i < self.entries@.len() ==> (#[trigger] self.entries@[i]).1@.wf()
    }

    /// An empty container.
    pub fn new() -> (r: Self)
        ensures
            r.wf(),
            r@ == Map::<Seq<char>, SordView>::empty(),
    {
        let r = Freeform { entries: Vec::new() };
        proof {
            assert(r.entries@.len() == 0);
        }
        r
    }

    /// Whether the container holds no entry at all.
    pub fn is_empty(&self) -> (r: bool)
        requires
            self.wf(),
        ensures
            r <==> self@ == Map::<Seq<char>, SordView>::empty(),
    {
        let r = self.entries.len() == 0;
        proof {
            lemma_entries_map(self.entries@);
            if self.entries@.len() == 0 {
                assert(self@ =~= Map::<Seq<char>, SordView>::empty());
            } else {
                assert(self@.contains_key(self.entries@[0].0@));
            }
        }
        r
    }

    /// The index of the entry carrying this key, if any.
    fn find_key(entries: &Vec<(String, Sord<S>)>, name: &String) -> (r: Option<usize>)
        ensures
            match r {
                Some(i) => i < entries@.len() && entries@[i as int].0@ == name@,
                None => forall|j: int| 0 <= j < entries@.len() ==> entries@[j].0@ != name@,
            },
    {
        let mut i: usize = 0;
        while i < entries.len()
            invariant
                i <= entries@.len(),
                forall|j: int| 0 <= j < i ==> entries@[j].0@ != name@,
            decreases entries@.len() - i,
        {
            if entries[i].0 == *name {
                return Some(i);
            }
            i += 1;
        }
        None
    }

    /// Store a cell under a key name, replacing any cell already there.
    pub(crate) fn insert_sord(&mut self, name: String, sord: Sord<S>)
        requires
            old(self).wf(),
            sord@.wf(),
        ensures
            final(self).wf(),
            final(self)@ == old(self)@.insert(name@, sord@),
    {
        proof {
            lemma_entries_map(self.entries@);
        }
        let ghost s0 = self.entries@;
        match Self::find_key(&self.entries, &name) {
            Some(i) => {
                self.entries.set(i, (name, sord));
                proof {
                    lemma_entries_map_update(s0, i as int, self.entries@[i as int]);
                }
            },
            None => {
                self.entries.push((name, sord));
                proof {
                    assert(self.entries@.drop_last() =~= s0);
                    assert(entries_map(self.entries@) == entries_map(s0).insert(name@, sord@));
                }
            },
        }
    }

    /// Read an entry's typed view at the key's type: an absent key is not
    /// an error, a present entry answers exactly as its cell does. The
    /// entry's cell may populate its typed slot as a consequence; no
    /// other entry changes.
    pub fn get_optional<T: FreeformData>(&mut self, key: &TypedKey<T>) -> (r: Result<
        Option<T>,
        FreeformErr,
    >)
        requires
            old(self).wf(),
        ensures
            final(self).wf(),
            !old(self)@.contains_key(key@) ==> (r matches Ok(o) && o is None && final(self)@
                == old(self)@),
            old(self)@.contains_key(key@) ==> ({
                let sv = old(self)@[key@];
                let fv = final(self)@;
                &&& fv.contains_key(key@)
                &&& fv == old(self)@.insert(key@, fv[key@])
                &&& fv[key@].se == sv.se
                &&& (sv.de is Some ==> fv == old(self)@)
                &&& (r matches Ok(o) ==> o is Some)
                &&& (de_success::<S, T>(sv) ==> (r matches Ok(o) && o matches Some(w) && w.embed()
                    == de_sem::<S, T>(sv) && w.can_embed() && w.settled()))
                &&& (de_success::<S, T>(sv) ==> de_success::<S, T>(fv[key@]) && de_sem::<S, T>(
                    fv[key@],
                ) == de_sem::<S, T>(sv))
                &&& (!de_success::<S, T>(sv) ==> r is Err)
                &&& (sv.de matches Some(Ok(p)) && p.0 != T::tag_spec() && p.0 != TAG_VALUE ==> (
                r matches Err(e) && e@ == FreeformErrVal::KeyTypeV))
                &&& (sv.de matches Some(Err(ev)) ==> (r matches Err(e) && e@
                    == FreeformErr::of_sord_spec(ev)))
                &&& (sv.de is None ==> (sv.se matches Some(Ok(s)) ==> (S::parse_spec(s) is None
                    ==> (r matches Err(e) && e@ == FreeformErrVal::SerdeV(S::parse_err_spec(s))))))
                &&& (r matches Err(e) ==> !de_success::<S, T>(sv) && (e@ matches
                    FreeformErrVal::SerdeV(_) || e@ == FreeformErrVal::KeyTypeV))
            }),
    {
        proof {
            lemma_entries_map(self.entries@);
        }
        let ghost s0 = self.entries@;
        match Self::find_key(&self.entries, key.name_string()) {
            Some(i) => {
                proof {
                    lemma_unique_remove(s0, i as int);
                    lemma_entries_map_remove(s0, i as int);
                    assert(old(self)@[key@] == s0[i as int].1@);
                    assert(s0[i as int].1@.wf());
                }
                let (entry_name, mut sord) = self.entries.remove(i);
                let out = sord.de::<T>();
                self.entries.push((entry_name, sord));
                proof {
                    assert(self.entries@.drop_last() =~= s0.remove(i as int));
                    assert(entries_map(self.entries@) == entries_map(s0.remove(i as int)).insert(
                        s0[i as int].0@,
                        self.entries@.last().1@,
                    ));
                    assert(final(self)@ =~= old(self)@.insert(key@, self.entries@.last().1@));
                    if old(self)@[key@].de is Some {
                        assert(final(self)@ =~= old(self)@);
                    }
                }
                match out {
                    Ok(w) => Ok(Some(w)),
                    Err(e) => Err(FreeformErr::of_sord(e)),
                }
            },
            None => {
                proof {
                    if old(self)@.contains_key(key@) {
                        let j = choose|j: int| 0 <= j < s0.len() && s0[j].0@ == key@;
                        assert(false);
                    }
                }
                Ok(None)
            },
        }
    }

    /// Store a typed value under a typed key, replacing any entry already
    /// there; storing a value never fails.
    pub fn put<T: FreeformData>(&mut self, key: &TypedKey<T>, data: T) -> (r: Result<
        (),
        FreeformErr,
    >)
        requires
            old(self).wf(),
        ensures
            final(self).wf(),
            r is Ok,
            final(self)@.contains_key(key@),
            final(self)@ == old(self)@.insert(key@, final(self)@[key@]),
            final(self)@[key@].se is None,
            final(self)@[key@].de matches Some(Ok(p)) && p.0 == T::tag_spec(),
            data.can_embed() ==> final(self)@ == old(self)@.insert(
                key@,
                SordView::de_only(T::tag_spec(), data.embed()),
            ),
    {
        let sord = Sord::<S>::from_de::<T>(data);
        self.insert_sord(key.name_string().clone(), sord);
        Ok(())
    }

    /// Store a borrowed typed value by serializing it at once; fails, and
    /// leaves the container unchanged, when the scheme cannot print it.
    pub fn put_ref<T: FreeformData>(&mut self, key: &TypedKey<T>, data: &T) -> (r: Result<
        (),
        FreeformErr,
    >)
        requires
            old(self).wf(),
        ensures
            final(self).wf(),
            r matches Err(e) ==> final(self)@ == old(self)@ && e@ matches FreeformErrVal::SerdeV(_),
            (*data).can_embed() ==> (r is Ok <==> S::printable((*data).embed())),
            r is Ok ==> ({
                let fv = final(self)@;
                &&& fv.contains_key(key@)
                &&& fv == old(self)@.insert(key@, fv[key@])
                &&& fv[key@].de is None
                &&& (fv[key@].se matches Some(Ok(t)) && ((*data).can_embed() ==> t == S::print_spec(
                    (*data).embed(),
                )) && ((*data).can_embed() && S::reparsable((*data).embed()) ==> S::parse_spec(t)
                    == Some((*data).embed())))
            }),
    {
        match Sord::<S>::from_de_ref::<T>(data) {
            Ok(sord) => {
                self.insert_sord(key.name_string().clone(), sord);
                Ok(())
            },
            Err(e) => Err(FreeformErr::of_sord(e)),
        }
    }

    /// Store the value if there is one; an absent value is a no-op.
    pub fn put_optional<T: FreeformData>(&mut self, key: &TypedKey<T>, data: Option<T>) -> (r:
        Result<(), FreeformErr>)
        requires
            old(self).wf(),
        ensures
            final(self).wf(),
            r is Ok,
            data is None ==> final(self)@ == old(self)@,
            data matches Some(d) ==> {
                &&& final(self)@.contains_key(key@)
                &&& final(self)@ == old(self)@.insert(key@, final(self)@[key@])
                &&& (d.can_embed() ==> final(self)@ == old(self)@.insert(
                    key@,
                    SordView::de_only(T::tag_spec(), d.embed()),
                ))
            },
    {
        match data {
            Some(d) => self.put(key, d),
            None => Ok(()),
        }
    }

    /// Store the borrowed value if there is one; an absent value is a
    /// no-op.
    pub fn put_optional_ref<T: FreeformData>(&mut self, key: &TypedKey<T>, data: Option<&T>) -> (r:
        Result<(), FreeformErr>)
        requires
            old(self).wf(),
        ensures
            final(self).wf(),
            data is None ==> final(self)@ == old(self)@ && r is Ok,
            r matches Err(e) ==> final(self)@ == old(self)@ && e@ matches FreeformErrVal::SerdeV(_),
            data matches Some(d) ==> ((*d).can_embed() ==> (r is Ok <==> S::printable(
                (*d).embed(),
            ))),
            data matches Some(d) ==> (r is Ok ==> ({
                let fv = final(self)@;
                &&& fv.contains_key(key@)
                &&& fv == old(self)@.insert(key@, fv[key@])
                &&& fv[key@].de is None
                &&& (fv[key@].se matches Some(Ok(t)) && ((*d).can_embed() ==> t == S::print_spec(
                    (*d).embed(),
                )) && ((*d).can_embed() && S::reparsable((*d).embed()) ==> S::parse_spec(t) == Some(
                    (*d).embed(),
                )))
            })),
    {
        match data {
            Some(d) => self.put_ref(key, d),
            None => Ok(()),
        }
    }

    /// Store a sequence unless it is empty: an empty sequence is a no-op,
    /// so the container is not littered with empty-collection noise.
    pub fn put_nonempty<T>(&mut self, key: &TypedKey<Vec<T>>, data: Vec<T>) -> (r: Result<
        (),
        FreeformErr,
    >) where Vec<T>: FreeformData
        requires
            old(self).wf(),
        ensures
            final(self).wf(),
            r is Ok,
            data@.len() == 0 ==> final(self)@ == old(self)@,
            data@.len() > 0 ==> {
                &&& final(self)@.contains_key(key@)
                &&& final(self)@ == old(self)@.insert(key@, final(self)@[key@])
                &&& (data.can_embed() ==> final(self)@ == old(self)@.insert(
                    key@,
                    SordView::de_only(<Vec<T> as FreeformData>::tag_spec(), data.embed()),
                ))
            },
    {
        if data.is_empty() {
            Ok(())
        } else {
            self.put(key, data)
        }
    }

    /// Store a borrowed sequence unless it is empty.
    pub fn put_nonempty_ref<T>(&mut self, key: &TypedKey<Vec<T>>, data: &Vec<T>) -> (r: Result<
        (),
        FreeformErr,
    >) where Vec<T>: FreeformData
        requires
            old(self).wf(),
        ensures
            final(self).wf(),
            data@.len() == 0 ==> final(self)@ == old(self)@ && r is Ok,
            r matches Err(e) ==> final(self)@ == old(self)@ && e@ matches FreeformErrVal::SerdeV(_),
            data@.len() > 0 && (*data).can_embed() ==> (r is Ok <==> S::printable((*data).embed())),
            data@.len() > 0 && r is Ok ==> ({
                let fv = final(self)@;
                &&& fv.contains_key(key@)
                &&& fv == old(self)@.insert(key@, fv[key@])
                &&& fv[key@].de is None
                &&& (fv[key@].se matches Some(Ok(t)) && ((*data).can_embed() ==> t == S::print_spec(
                    (*data).embed(),
                )) && ((*data).can_embed() && S::reparsable((*data).embed()) ==> S::parse_spec(t)
                    == Some((*data).embed())))
            }),
    {
        if data.is_empty() {
            Ok(())
        } else {
            self.put_ref(key, data)
        }
    }

    /// Read an entry's typed view at the key's type, treating an absent
    /// key as an error naming the key.
    pub fn get_required<T: FreeformData>(&mut self, key: &TypedKey<T>) -> (r: Result<
        T,
        FreeformErr,
    >)
        requires
            old(self).wf(),
        ensures
            final(self).wf(),
            !old(self)@.contains_key(key@) ==> (r matches Err(e) && e@
                == FreeformErrVal::RequiredKeyNotFoundV(key@) && final(self)@ == old(self)@),
            old(self)@.contains_key(key@) ==> ({
                let sv = old(self)@[key@];
                let fv = final(self)@;
                &&& fv.contains_key(key@)
                &&& fv == old(self)@.insert(key@, fv[key@])
                &&& fv[key@].se == sv.se
                &&& (sv.de is Some ==> fv == old(self)@)
                &&& (de_success::<S, T>(sv) ==> (r matches Ok(w) && w.embed() == de_sem::<S, T>(sv)
                    && w.can_embed() && w.settled()))
                &&& (de_success::<S, T>(sv) ==> de_success::<S, T>(fv[key@]) && de_sem::<S, T>(
                    fv[key@],
                ) == de_sem::<S, T>(sv))
                &&& (!de_success::<S, T>(sv) ==> r is Err)
                &&& (sv.de matches Some(Ok(p)) && p.0 != T::tag_spec() && p.0 != TAG_VALUE ==> (
                r matches Err(e) && e@ == FreeformErrVal::KeyTypeV))
                &&& (sv.de matches Some(Err(ev)) ==> (r matches Err(e) && e@
                    == FreeformErr::of_sord_spec(ev)))
                &&& (sv.de is None ==> (sv.se matches Some(Ok(s)) ==> (S::parse_spec(s) is None
                    ==> (r matches Err(e) && e@ == FreeformErrVal::SerdeV(S::parse_err_spec(s))))))
                &&& (r matches Err(e) ==> !de_success::<S, T>(sv) && (e@ matches
                    FreeformErrVal::SerdeV(_) || e@ == FreeformErrVal::KeyTypeV))
            }),
    {
        match self.get_optional::<T>(key) {
            Ok(Some(w)) => Ok(w),
            Ok(None) => Err(FreeformErr::RequiredKeyNotFound(key.name().to_owned())),
            Err(e) => Err(e),
        }
    }

    /// Read an entry's typed view, collapsing an absent key into the
    /// type's default value.
    pub fn get_cloned_or_default<T: FreeformDefault>(&mut self, key: &TypedKey<T>) -> (r: Result<
        T,
        FreeformErr,
    >)
        requires
            old(self).wf(),
        ensures
            final(self).wf(),
            !old(self)@.contains_key(key@) ==> (r matches Ok(w) && w.embed() == T::default_spec()
                && final(self)@ == old(self)@),
            old(self)@.contains_key(key@) ==> ({
                let sv = old(self)@[key@];
                let fv = final(self)@;
                &&& fv.contains_key(key@)
                &&& fv == old(self)@.insert(key@, fv[key@])
                &&& fv[key@].se == sv.se
                &&& (sv.de is Some ==> fv == old(self)@)
                &&& (de_success::<S, T>(sv) ==> (r matches Ok(w) && w.embed() == de_sem::<S, T>(sv)
                    && w.can_embed()))
                &&& (!de_success::<S, T>(sv) ==> r is Err)
                &&& (r matches Err(e) ==> !de_success::<S, T>(sv) && (e@ matches
                    FreeformErrVal::SerdeV(_) || e@ == FreeformErrVal::KeyTypeV))
            }),
    {
        match self.get_optional::<T>(key) {
            Ok(Some(w)) => Ok(w),
            Ok(None) => Ok(T::default_value()),
            Err(e) => Err(e),
        }
    }

    /// Read an entry's typed view, collapsing an absent key into the
    /// type's default value; the owned twin of the clone-based accessor.
    pub fn get_owned_or_default<T: FreeformDefault>(&mut self, key: &TypedKey<T>) -> (r: Result<
        T,
        FreeformErr,
    >)
        requires
            old(self).wf(),
        ensures
            final(self).wf(),
            !old(self)@.contains_key(key@) ==> (r matches Ok(w) && w.embed() == T::default_spec()
                && final(self)@ == old(self)@),
            old(self)@.contains_key(key@) ==> ({
                let sv = old(self)@[key@];
                let fv = final(self)@;
                &&& fv.contains_key(key@)
                &&& fv == old(self)@.insert(key@, fv[key@])
                &&& fv[key@].se == sv.se
                &&& (sv.de is Some ==> fv == old(self)@)
                &&& (de_success::<S, T>(sv) ==> (r matches Ok(w) && w.embed() == de_sem::<S, T>(sv)
                    && w.can_embed()))
                &&& (!de_success::<S, T>(sv) ==> r is Err)
                &&& (r matches Err(e) ==> !de_success::<S, T>(sv) && (e@ matches
                    FreeformErrVal::SerdeV(_) || e@ == FreeformErrVal::KeyTypeV))
            }),
    {
        self.get_cloned_or_default::<T>(key)
    }

    /// The key names the container holds, one for each entry, in no
    /// promised order.
    pub fn keys(&self) -> (r: Vec<String>)
        requires
            self.wf(),
        ensures
            forall|i: int, j: int| 0 <= i < j < r@.len() ==> r@[i]@ != r@[j]@,
            forall|i: int| 0 <= i < r@.len() ==> self@.contains_key((#[trigger] r@[i])@),
            forall|k: Seq<char>|
                self@.contains_key(k) ==> exists|i: int| 0 <= i < r@.len() && r@[i]@ == k,
    {
        proof {
            lemma_entries_map(self.entries@);
        }
        let mut out: Vec<String> = Vec::new();
        let mut i: usize = 0;
        while i < self.entries.len()
            invariant
                self.wf(),
                i <= self.entries@.len(),
                out@.len() == i,
                forall|j: int| 0 <= j < i ==> (#[trigger] out@[j])@ == self.entries@[j].0@,
            decreases self.entries@.len() - i,
        {
            out.push(self.entries[i].0.clone());
            i += 1;
        }
        proof {
            lemma_entries_map(self.entries@);
            assert forall|k: Seq<char>| self@.contains_key(k) implies exists|i: int|
                0 <= i < out@.len() && out@[i]@ == k by {
                let j = choose|j: int| 0 <= j < self.entries@.len() && self.entries@[j].0@ == k;
                assert(out@[j]@ == k);
            }
        }
        out
    }

    /// The container's entries, consumed: each key name with its cell.
    pub fn into_entries(self) -> (r: Vec<(String, Sord<S>)>)
        requires
            self.wf(),
        ensures
            entries_map(r@) == self@,
            forall|i: int, j: int| 0 <= i < j < r@.len() ==> r@[i].0@ != r@[j].0@,
            forall|i: int| 0 <= i < r@.len() ==> (#[trigger] r@[i]).1@.wf(),
    {
        self.entries
    }

    /// Pour another container's entries into this one: on a key collision
    /// the other container's entry wins.
    pub fn extend(&mut self, other: Freeform<S>)
        requires
            old(self).wf(),
            other.wf(),
        ensures
            final(self).wf(),
            final(self)@ == old(self)@.union_prefer_right(other@),
    {
        let mut rest = other;
        while rest.entries.len() > 0
            invariant
                self.wf(),
                rest.wf(),
                self@.union_prefer_right(entries_map(rest.entries@)) == old(self)@
                    .union_prefer_right(other@),
            decreases rest.entries@.len(),
        {
            let ghost r0 = rest.entries@;
            let ghost sv0 = self@;
            match rest.entries.pop() {
                Some((k, s)) => {
                    proof {
                        assert(rest.entries@ =~= r0.drop_last());
                        assert(entries_map(r0) == entries_map(rest.entries@).insert(k@, s@));
                        lemma_entries_map(rest.entries@);
                        assert forall|j: int|
                            0 <= j < rest.entries@.len() implies (#[trigger] rest.entries@[j]).0@
                            != k@ by {
                            assert(r0[j] == rest.entries@[j]);
                            assert(r0[r0.len() - 1].0@ == k@);
                        }
                        assert(!entries_map(rest.entries@).contains_key(k@));
                        assert(r0[r0.len() - 1].1@ == s@);
                        assert(s@.wf());
                    }
                    self.insert_sord(k, s);
                    proof {
                        assert(self@.union_prefer_right(entries_map(rest.entries@)) =~= sv0
                            .union_prefer_right(entries_map(r0)));
                    }
                },
                None => unreached(),
            }
        }
        proof {
            assert(entries_map(rest.entries@) =~= Map::<Seq<char>, SordView>::empty());
            assert(self@.union_prefer_right(Map::empty()) =~= self@);
        }
    }

    /// Merge a sequence of containers left to right: later containers'
    /// entries overwrite earlier ones on key collision; an empty sequence
    /// merges to nothing at all.
    pub fn aggregate(freeform: Vec<Freeform<S>>) -> (r: Option<Freeform<S>>)
        requires
            forall|i: int| 0 <= i < freeform@.len() ==> (#[trigger] freeform@[i]).wf(),
        ensures
            freeform@.len() == 0 <==> r is None,
            r matches Some(ff) ==> ff.wf() && ff@ == merged(views_of(freeform@)),
    {
        let ghost vs = views_of(freeform@);
        let mut list = freeform;
        if list.len() == 0 {
            return None;
        }
        let ghost l0 = list@;
        let mut acm = list.remove(0);
        proof {
            l0.remove_ensures(0);
            assert(views_of(list@) =~= vs.skip(1));
            assert(vs[0] == acm@);
            assert(Map::<Seq<char>, SordView>::empty().union_prefer_right(acm@) =~= acm@);
            assert(merged(vs) == fold_from(acm@, views_of(list@)));
        }
        while list.len() > 0
            invariant
                acm.wf(),
                forall|i: int| 0 <= i < list@.len() ==> (#[trigger] list@[i]).wf(),
                fold_from(acm@, views_of(list@)) == merged(vs),
            decreases list@.len(),
        {
            let ghost l0 = list@;
            let f = list.remove(0);
            proof {
                l0.remove_ensures(0);
                assert(views_of(list@) =~= views_of(l0).skip(1));
                assert(f@ == views_of(l0)[0]);
            }
            let ghost a0 = acm@;
            acm.extend(f);
            proof {
                assert(fold_from(a0, views_of(l0)) == fold_from(
                    a0.union_prefer_right(views_of(l0)[0]),
                    views_of(l0).skip(1),
                ));
            }
        }
        proof {
            assert(views_of(list@) =~= Seq::<Map<Seq<char>, SordView>>::empty());
        }
        Some(acm)
    }

    /// Build a container out of an object's pairs, each value carried as a
    /// structured value with no recorded type; later pairs win on a
    /// repeated key. Total: no scheme call is made, so a container read
    /// back out of a structured value never loses an entry to the scheme.
    fn from_value_pairs(es: &Vec<(String, Native)>) -> (r: Freeform<S>)
        ensures
            r.wf(),
            r@.dom() == obj_view(es@).dom(),
            forall|k: Seq<char>|
                obj_view(es@).contains_key(k) ==> (#[trigger] r@[k]) == SordView::de_only(
                    TAG_VALUE,
                    obj_view(es@)[k],
                ),
    {
        let mut ff = Freeform::new();
        let mut i: usize = 0;
        proof {
            assert(es@.take(0) =~= Seq::<(String, Native)>::empty());
            assert(ff@.dom() =~= obj_view(es@.take(0)).dom());
        }
        while i < es.len()
            invariant
                i <= es@.len(),
                ff.wf(),
                ff@.dom() == obj_view(es@.take(i as int)).dom(),
                forall|k: Seq<char>|
                    obj_view(es@.take(i as int)).contains_key(k) ==> (#[trigger] ff@[k])
                        == SordView::de_only(TAG_VALUE, obj_view(es@.take(i as int))[k]),
            decreases es@.len() - i,
        {
            let ghost before = ff@;
            let cell = Sord::<S>::from_native_value(es[i].1.clone());
            ff.insert_sord(es[i].0.clone(), cell);
            proof {
                let prev = es@.take(i as int);
                let cur = es@.take(i as int + 1);
                assert(cur.drop_last() =~= prev);
                assert(cur.last() == es@[i as int]);
                assert(obj_view(cur) == obj_view(prev).insert(es@[i as int].0@, es@[i as int].1@));
                assert(ff@.dom() =~= obj_view(cur).dom());
                assert forall|k: Seq<char>| obj_view(cur).contains_key(k) implies (
                #[trigger] ff@[k]) == SordView::de_only(TAG_VALUE, obj_view(cur)[k]) by {
                    if k == es@[i as int].0@ {
                        assert(ff@[k] == SordView::de_only(TAG_VALUE, es@[i as int].1@));
                    } else {
                        assert(obj_view(prev).contains_key(k));
                        assert(ff@[k] == before[k]);
                    }
                }
            }
            i += 1;
        }
        proof {
            assert(es@.take(es@.len() as int) =~= es@);
        }
        ff
    }

    /// Build a container out of an object's pairs: each surviving pair
    /// (later pairs win on a repeated key) becomes a serialized-only cell
    /// holding the pair's value printed by the scheme. The first value
    /// the scheme cannot print fails the whole construction.
    fn from_pairs(es: &Vec<(String, Native)>) -> (r: Result<Freeform<S>, SordError>)
        ensures
            (forall|k: Seq<char>|
                obj_view(es@).contains_key(k) ==> S::printable(#[trigger] obj_view(es@)[k])) ==> r
                is Ok,
            r matches Err(e) ==> (e@ matches SordErrVal::SeDeV(_) && !(forall|k: Seq<char>|
                obj_view(es@).contains_key(k) ==> S::printable(#[trigger] obj_view(es@)[k]))),
            r matches Ok(ff) ==> ({
                let m = obj_view(es@);
                &&& ff.wf()
                &&& ff@.dom() =~= m.dom()
                &&& forall|k: Seq<char>|
                    m.contains_key(k) ==> ((#[trigger] ff@[k]).de is None && (ff@[k].se matches Some(
                        Ok(t),
                    ) && (S::reparsable(m[k]) ==> S::parse_spec(t) == Some(m[k]))))
            }),
    {
        let ghost full = obj_view(es@);
        let mut out: Vec<(String, Sord<S>)> = Vec::new();
        let mut i: usize = es.len();
        proof {
            assert(es@.skip(es@.len() as int) =~= Seq::<(String, Native)>::empty());
            assert(entries_map(out@).dom() =~= obj_view(es@.skip(es@.len() as int)).dom());
        }
        while i > 0
            invariant
                i <= es@.len(),
                full == obj_view(es@),
                forall|a: int, b: int| 0 <= a < b < out@.len() ==> out@[a].0@ != out@[b].0@,
                entries_map(out@).dom() == obj_view(es@.skip(i as int)).dom(),
                forall|j: int|
                    0 <= j < out@.len() ==> ({
                        let k = (#[trigger] out@[j]).0@;
                        &&& full.contains_key(k)
                        &&& S::printable(full[k])
                        &&& out@[j].1@.de is None
                        &&& (out@[j].1@.se matches Some(Ok(t)) && (S::reparsable(full[k])
                            ==> S::parse_spec(t) == Some(full[k])))
                        &&& out@[j].1@.wf()
                    }),
            decreases i,
        {
            i -= 1;
            proof {
                lemma_obj_view_skip(es@, i as int);
                lemma_entries_map(out@);
            }
            let ghost out0 = out@;
            match Self::find_key(&out, &es[i].0) {
                Some(_) => {
                    proof {
                        assert(entries_map(out@).contains_key(es@[i as int].0@));
                        assert(obj_view(es@.skip(i as int + 1)).contains_key(es@[i as int].0@));
                        assert(obj_view(es@.skip(i as int)) == obj_view(es@.skip(i as int + 1)));
                    }
                },
                None => {
                    proof {
                        assert(!entries_map(out@).contains_key(es@[i as int].0@));
                        assert(!obj_view(es@.skip(i as int + 1)).contains_key(es@[i as int].0@));
                        lemma_obj_view(es@.skip(i as int + 1));
                        assert forall|j: int|
                            (i as int) < j < es@.len() implies (#[trigger] es@[j]).0@
                            != es@[i as int].0@ by {
                            assert(es@.skip(i as int + 1)[j - i - 1] == es@[j]);
                        }
                        lemma_obj_view_last(es@, i as int);
                        assert(full.contains_key(es@[i as int].0@) && full[es@[i as int].0@]
                            == es@[i as int].1@);
                    }
                    match Sord::<S>::from_value(&es[i].1) {
                        Ok(sord) => {
                            out.push((es[i].0.clone(), sord));
                            proof {
                                assert(out@.drop_last() =~= out0);
                                assert(entries_map(out@) == entries_map(out0).insert(
                                    es@[i as int].0@,
                                    out@.last().1@,
                                ));
                                assert(entries_map(out@).dom() =~= obj_view(
                                    es@.skip(i as int),
                                ).dom());
                            }
                        },
                        Err(e) => {
                            proof {
                                assert(!S::printable(full[es@[i as int].0@]));
                            }
                            return Err(e);
                        },
                    }
                },
            }
        }
        proof {
            assert(es@.skip(0) =~= es@);
        }
        let ff = Freeform { entries: out };
        proof {
            lemma_entries_map(ff.entries@);
            assert forall|k: Seq<char>| obj_view(es@).contains_key(k) implies ((
            #[trigger] ff@[k]).de is None && (ff@[k].se matches Some(Ok(t)) && (S::reparsable(
                obj_view(es@)[k],
            ) ==> S::parse_spec(t) == Some(obj_view(es@)[k])))) by {
                assert(entries_map(ff.entries@).dom().contains(k));
                let j = choose|j: int|
                    0 <= j < ff.entries@.len() && ff.entries@[j].0@ == k;
                assert(ff@[k] == ff.entries@[j].1@);
            }
        }
        Ok(ff)
    }

    /// Read a whole container out of serialized text: the text must parse
    /// as an object, and every value in it must survive the scheme's own
    /// printer; each entry comes out as a serialized-only cell.
    pub fn deserialize(input: &str) -> (r: Result<Freeform<S>, FreeformErr>)
        ensures
            r matches Err(e) ==> e@ matches FreeformErrVal::SerdeV(_),
            deserialize_post::<S>(r, S::parse_spec(input@)),
    {
        match S::decode(input) {
            Ok(doc) => match doc {
                Native::Obj(es) => {
                    proof {
                        assert(S::parse_spec(input@) == Some(NativeVal::ObjV(obj_view(es@))));
                    }
                    match Self::from_pairs(&es) {
                        Ok(ff) => {
                            let r: Result<Freeform<S>, FreeformErr> = Ok(ff);
                            proof {
                                let m = obj_view(es@);
                                let ff2 = r->Ok_0;
                                assert(ff2 == ff);
                                assert forall|k: Seq<char>| m.contains_key(k) implies ((
                                #[trigger] ff2@[k]).de is None && (ff2@[k].se matches Some(Ok(t))
                                    && (S::reparsable(m[k]) ==> S::parse_spec(t) == Some(
                                    m[k],
                                )))) by {
                                    assert(obj_view(es@).contains_key(k));
                                    assert(ff2@[k] == ff@[k]);
                                    assert(ff@[k].de is None && (ff@[k].se matches Some(Ok(t)) && (
                                    S::reparsable(m[k]) ==> S::parse_spec(t) == Some(m[k]))));
                                }
                                assert(deserialize_post::<S>(r, S::parse_spec(input@)));
                            }
                            r
                        },
                        Err(e) => {
                            let r: Result<Freeform<S>, FreeformErr> = Err(FreeformErr::of_sord(e));
                            proof {
                                let m = obj_view(es@);
                                let pp = S::parse_spec(input@);
                                let mm = pp->Some_0->ObjV_0;
                                assert(mm == m);
                                let kw = choose|k: Seq<char>|
                                    m.contains_key(k) && !S::printable(m[k]);
                                assert(mm.contains_key(kw) && !S::printable(mm[kw]));
                                assert(deserialize_post::<S>(r, pp));
                                assert(deserialize_post::<S>(r, S::parse_spec(input@)));
                            }
                            r
                        },
                    }
                },
                _ => {
                    let r: Result<Freeform<S>, FreeformErr> = Err(FreeformErr::SerdeError(
                        "the document is not an object".to_owned(),
                    ));
                    proof {
                        assert(deserialize_post::<S>(r, S::parse_spec(input@)));
                    }
                    r
                },
            },
            Err(m) => {
                let r: Result<Freeform<S>, FreeformErr> = Err(FreeformErr::SerdeError(m));
                proof {
                    assert(deserialize_post::<S>(r, S::parse_spec(input@)));
                }
                r
            },
        }
    }

    /// Print the whole container as the scheme's object form: every
    /// entry's structured value under its key. Fails where an entry
    /// cannot settle its structured value or the scheme cannot print the
    /// object.
    pub fn serialize(&self) -> (r: Result<String, FreeformErr>)
        requires
            self.wf(),
        ensures
            r matches Err(e) ==> e@ matches FreeformErrVal::SerdeV(_),
            ff_ready::<S>(self@) ==> ({
                let doc = NativeVal::ObjV(ff_sem::<S>(self@));
                &&& (r is Ok <==> S::printable(doc))
                &&& (r matches Ok(t) ==> t@ == S::print_spec(doc))
                &&& (r matches Err(e) ==> e@ == FreeformErrVal::SerdeV(S::print_err_spec(doc)))
                &&& (r matches Ok(t) ==> (S::reparsable(doc) ==> S::parse_spec(t@) == Some(doc)))
            }),
    {
        proof {
            lemma_entries_map(self.entries@);
        }
        let mut obj: Vec<(String, Native)> = Vec::new();
        let mut i: usize = 0;
        while i < self.entries.len()
            invariant
                self.wf(),
                i <= self.entries@.len(),
                obj@.len() == i,
                forall|j: int| 0 <= j < i ==> (#[trigger] obj@[j]).0@ == self.entries@[j].0@,
                ff_ready::<S>(self@) ==> forall|j: int|
                    0 <= j < i ==> (#[trigger] obj@[j]).1@ == sord_sem::<S>(self.entries@[j].1@),
            decreases self.entries@.len() - i,
        {
            proof {
                lemma_entries_map(self.entries@);
                if ff_ready::<S>(self@) {
                    assert(self@.contains_key(self.entries@[i as int].0@));
                    assert(self@[self.entries@[i as int].0@] == self.entries@[i as int].1@);
                }
            }
            match self.entries[i].1.value() {
                Ok(n) => {
                    obj.push((self.entries[i].0.clone(), n));
                },
                Err(e) => {
                    proof {
                        if ff_ready::<S>(self@) {
                            assert(entry_ready::<S>(self.entries@[i as int].1@));
                            assert(false);
                        }
                    }
                    return Err(FreeformErr::of_sord(e));
                },
            }
            i += 1;
        }
        let whole = Native::Obj(obj);
        proof {
            lemma_entries_map(self.entries@);
            lemma_obj_view(whole->Obj_0@);
            if ff_ready::<S>(self@) {
                assert forall|k: Seq<char>|
                    obj_view(whole->Obj_0@).contains_key(k) == ff_sem::<S>(
                        self@,
                    ).contains_key(k) by {
                    if obj_view(whole->Obj_0@).contains_key(k) {
                        let j = choose|j: int|
                            0 <= j < whole->Obj_0@.len() && whole->Obj_0@[j].0@ == k;
                        assert(self.entries@[j].0@ == k);
                        assert(self@.contains_key(k));
                    }
                    if self@.contains_key(k) {
                        let j = choose|j: int|
                            0 <= j < self.entries@.len() && self.entries@[j].0@ == k;
                        assert(whole->Obj_0@[j].0@ == k);
                        assert(obj_view(whole->Obj_0@).contains_key(k));
                    }
                }
                assert forall|k: Seq<char>|
                    obj_view(whole->Obj_0@).contains_key(k) implies obj_view(whole->Obj_0@)[k]
                    == ff_sem::<S>(self@)[k] by {
                    let j = choose|j: int|
                        0 <= j < whole->Obj_0@.len() && whole->Obj_0@[j].0@ == k;
                    assert(obj_view(whole->Obj_0@)[k] == whole->Obj_0@[j].1@);
                    assert(self@[k] == self.entries@[j].1@);
                }
                assert(obj_view(whole->Obj_0@) =~= ff_sem::<S>(self@));
            }
        }
        match S::encode(&whole) {
            Ok(t) => Ok(t),
            Err(m) => Err(FreeformErr::SerdeError(m)),
        }
    }
}

/// Whether every entry of a container view is settled under the scheme.
pub open spec fn ff_ready<S: SerdeScheme>(m: Map<Seq<char>, SordView>) -> bool {
    forall|k: Seq<char>| m.contains_key(k) ==> entry_ready::<S>(#[trigger] m[k])
}

/// The object a container view stands for: each entry's structured value
/// under its key.
pub open spec fn ff_sem<S: SerdeScheme>(m: Map<Seq<char>, SordView>) -> Map<Seq<char>, NativeVal> {
    Map::new(|k: Seq<char>| m.contains_key(k), |k: Seq<char>| sord_sem::<S>(m[k]))
}

/// What reading a whole container from text promises, given what the
/// text parses to: no object, no container; an object whose values all
/// print yields a container of serialized-only cells standing for those
/// values.
pub open spec fn deserialize_post<S: SerdeScheme>(
    r: Result<Freeform<S>, FreeformErr>,
    parsed: Option<NativeVal>,
) -> bool {
    match parsed {
        None => r is Err,
        Some(n) => match n {
            NativeVal::ObjV(m) => {
                &&& ((forall|k: Seq<char>| m.contains_key(k) ==> S::printable(#[trigger] m[k]))
                    ==> r is Ok)
                &&& (r matches Ok(ff) ==> ({
                    &&& ff.wf()
                    &&& ff@.dom() == m.dom()
                    &&& forall|k: Seq<char>|
                        m.contains_key(k) ==> ((#[trigger] ff@[k]).de is None && (
                        ff@[k].se matches Some(Ok(t)) && (S::reparsable(m[k]) ==> S::parse_spec(t)
                            == Some(m[k]))))
                }))
            },
            _ => r is Err,
        },
    }
}

/// A left fold of container views, later views winning on key collisions.
pub open spec fn fold_from(
    m: Map<Seq<char>, SordView>,
    s: Seq<Map<Seq<char>, SordView>>,
) -> Map<Seq<char>, SordView>
    decreases s.len(),
{
    if s.len() == 0 {
        m
    } else {
        fold_from(m.union_prefer_right(s[0]), s.skip(1))
    }
}

/// The merge of a sequence of container views: entries of later
/// containers overwrite entries of earlier ones.
pub open spec fn merged(s: Seq<Map<Seq<char>, SordView>>) -> Map<Seq<char>, SordView> {
    fold_from(Map::empty(), s)
}

/// The views of a sequence of containers.
pub open spec fn views_of<S: SerdeScheme>(s: Seq<Freeform<S>>) -> Seq<Map<Seq<char>, SordView>> {
    Seq::new(s.len(), |i: int| s[i]@)
}

/// Entry sequences equal view-by-view denote the same map.
proof fn lemma_entries_map_congruent<S: SerdeScheme>(
    a: Seq<(String, Sord<S>)>,
    b: Seq<(String, Sord<S>)>,
)
    requires
        a.len() == b.len(),
        forall|i: int|
            0 <= i < a.len() ==> (#[trigger] a[i]).0@ == b[i].0@ && a[i].1@ == b[i].1@,
    ensures
        entries_map(a) == entries_map(b),
    decreases a,
{
    if a.len() > 0 {
        assert(forall|i: int|
            0 <= i < a.len() - 1 ==> (#[trigger] a.drop_last()[i]) == a[i] && b.drop_last()[i]
                == b[i]);
        lemma_entries_map_congruent(a.drop_last(), b.drop_last());
        assert(a[a.len() - 1].0@ == b[a.len() - 1].0@ && a[a.len() - 1].1@ == b[a.len() - 1].1@);
    }
}

impl<S: SerdeScheme> Default for Freeform<S> {
    /// The empty container.
    fn default() -> (r: Self)
        ensures
            r.wf(),
            r@ == Map::<Seq<char>, SordView>::empty(),
    {
        Freeform::new()
    }
}

impl<S: SerdeScheme> Clone for Freeform<S> {
    /// A copy with the same view.
    fn clone(&self) -> (r: Self)
        ensures
            r@ == self@,
            r.wf() <==> self.wf(),
    {
        let mut out: Vec<(String, Sord<S>)> = Vec::new();
        let mut i: usize = 0;
        while i < self.entries.len()
            invariant
                i <= self.entries@.len(),
                out@.len() == i,
                forall|j: int|
                    0 <= j < i ==> (#[trigger] out@[j]).0@ == self.entries@[j].0@ && out@[j].1@
                        == self.entries@[j].1@,
            decreases self.entries@.len() - i,
        {
            out.push((self.entries[i].0.clone(), self.entries[i].1.clone()));
            i += 1;
        }
        let r = Freeform { entries: out };
        proof {
            lemma_entries_map_congruent(r.entries@, self.entries@);
            if self.wf() {
                assert forall|i: int, j: int|
                    0 <= i < j < r.entries@.len() implies r.entries@[i].0@
                    != r.entries@[j].0@ by {
                    assert(r.entries@[i].0@ == self.entries@[i].0@);
                    assert(r.entries@[j].0@ == self.entries@[j].0@);
                }
                assert forall|i: int|
                    0 <= i < r.entries@.len() implies (#[trigger] r.entries@[i]).1@.wf() by {
                    assert(r.entries@[i].1@ == self.entries@[i].1@);
                    assert(self.entries@[i].1@.wf());
                }
            }
            if r.wf() {
                assert forall|i: int, j: int|
                    0 <= i < j < self.entries@.len() implies self.entries@[i].0@
                    != self.entries@[j].0@ by {
                    assert(r.entries@[i].0@ == self.entries@[i].0@);
                    assert(r.entries@[j].0@ == self.entries@[j].0@);
                }
                assert forall|i: int|
                    0 <= i < self.entries@.len() implies (
                    #[trigger] self.entries@[i]).1@.wf() by {
                    assert(r.entries@[i].1@ == self.entries@[i].1@);
                    assert(r.entries@[i].1@.wf());
                }
            }
        }
        r
    }
}

impl<S: SerdeScheme> FreeformData for Freeform<S> {
    open spec fn tag_spec() -> u64 {
        TAG_FREEFORM
    }

    open spec fn embed(self) -> NativeVal {
        NativeVal::ObjV(ff_sem::<S>(self@))
    }

    open spec fn accepts(n: NativeVal) -> bool {
        n matches NativeVal::ObjV(_)
    }

    open spec fn can_embed(self) -> bool {
        self.wf()
    }

    open spec fn settled(self) -> bool {
        self.wf() && forall|k: Seq<char>|
            self@.contains_key(k) ==> cell_value_only(#[trigger] self@[k])
    }

    proof fn lemma_embed_accepts(v: Self) {
    }

    fn type_tag() -> (t: u64) {
        TAG_FREEFORM
    }

    // An entry whose cached text the scheme cannot parse back contributes
    // a null here, where the source of that text — always the scheme's own
    // printer, since no public path stores foreign text in a container —
    // exceeds the scheme's reader (the round-trip guard). The whole-
    // container `serialize` surfaces such an entry as an error instead.
    fn to_native(&self) -> (n: Native) {
        proof {
            lemma_entries_map(self.entries@);
        }
        let mut obj: Vec<(String, Native)> = Vec::new();
        let mut i: usize = 0;
        while i < self.entries.len()
            invariant
                i <= self.entries@.len(),
                obj@.len() == i,
                forall|j: int| 0 <= j < i ==> (#[trigger] obj@[j]).0@ == self.entries@[j].0@,
                forall|j: int|
                    0 <= j < i ==> (#[trigger] obj@[j]).1@ == sord_sem::<S>(self.entries@[j].1@),
            decreases self.entries@.len() - i,
        {
            let value = self.entries[i].1.sem_native();
            obj.push((self.entries[i].0.clone(), value));
            i += 1;
        }
        let out = Native::Obj(obj);
        proof {
            if (*self).can_embed() {
                lemma_entries_map(self.entries@);
                lemma_obj_view(out->Obj_0@);
                assert(keys_unique(out->Obj_0@));
                assert forall|k: Seq<char>|
                    obj_view(out->Obj_0@).contains_key(k) == ff_sem::<S>(
                        self@,
                    ).contains_key(k) by {
                    if obj_view(out->Obj_0@).contains_key(k) {
                        let j = choose|j: int|
                            0 <= j < out->Obj_0@.len() && out->Obj_0@[j].0@ == k;
                        assert(self.entries@[j].0@ == k);
                        assert(self@.contains_key(k));
                    }
                    if self@.contains_key(k) {
                        let j = choose|j: int|
                            0 <= j < self.entries@.len() && self.entries@[j].0@ == k;
                        assert(out->Obj_0@[j].0@ == k);
                        assert(obj_view(out->Obj_0@).contains_key(k));
                    }
                }
                assert forall|k: Seq<char>|
                    obj_view(out->Obj_0@).contains_key(k) implies obj_view(out->Obj_0@)[k]
                    == ff_sem::<S>(self@)[k] by {
                    let j = choose|j: int|
                        0 <= j < out->Obj_0@.len() && out->Obj_0@[j].0@ == k;
                    assert(obj_view(out->Obj_0@)[k] == out->Obj_0@[j].1@);
                    assert(self@[k] == self.entries@[j].1@);
                }
                assert(obj_view(out->Obj_0@) =~= ff_sem::<S>(self@));
            }
        }
        out
    }

    fn from_native(n: &Native) -> (r: Option<Self>) {
        match n {
            Native::Obj(es) => {
                let ff = Self::from_value_pairs(es);
                proof {
                    let mp = n@->ObjV_0;
                    assert(mp == obj_view(es@));
                    assert forall|k: Seq<char>|
                        ff_sem::<S>(ff@).contains_key(k) == mp.contains_key(k) by {}
                    assert forall|k: Seq<char>| mp.contains_key(k) implies ff_sem::<S>(ff@)[k]
                        == mp[k] by {
                        assert(ff@[k] == SordView::de_only(TAG_VALUE, mp[k]));
                        assert(sord_sem::<S>(ff@[k]) == mp[k]);
                    }
                    assert(ff_sem::<S>(ff@) =~= mp);
                    assert forall|k: Seq<char>| ff@.contains_key(k) implies cell_value_only(
                        #[trigger] ff@[k],
                    ) by {
                        assert(ff@[k] == SordView::de_only(TAG_VALUE, mp[k]));
                    }
                    assert(ff.embed() == n@);
                }
                Some(ff)
            },
            _ => None,
        }
    }

    fn clone_data(&self) -> (r: Self) {
        self.clone()
    }
}

impl<S: SerdeScheme> FreeformDefault for Freeform<S> {
    open spec fn default_spec() -> NativeVal {
        NativeVal::ObjV(Map::empty())
    }

    fn default_value() -> (r: Self) {
        let r = Freeform::new();
        proof {
            assert(ff_sem::<S>(r@) =~= Map::<Seq<char>, NativeVal>::empty());
        }
        r
    }
}

/// Removing an entry keeps the remaining keys distinct and well-formed,
/// and none of them carries the removed entry's key.
proof fn lemma_unique_remove<S: SerdeScheme>(s: Seq<(String, Sord<S>)>, i: int)
    requires
        0 <= i < s.len(),
        forall|a: int, b: int| 0 <= a < b < s.len() ==> s[a].0@ != s[b].0@,
    ensures
        forall|a: int, b: int|
            0 <= a < b < s.remove(i).len() ==> s.remove(i)[a].0@ != s.remove(i)[b].0@,
        forall|j: int| 0 <= j < s.remove(i).len() ==> (#[trigger] s.remove(i)[j]).0@ != s[i].0@,
        (forall|p: int| 0 <= p < s.len() ==> (#[trigger] s[p]).1@.wf()) ==> forall|j: int|
            0 <= j < s.remove(i).len() ==> (#[trigger] s.remove(i)[j]).1@.wf(),
{
    s.remove_ensures(i);
    assert forall|a: int, b: int|
        0 <= a < b < s.remove(i).len() implies s.remove(i)[a].0@ != s.remove(i)[b].0@ by {
        assert(s.remove(i)[a] == if a < i {
            s[a]
        } else {
            s[a + 1]
        });
        assert(s.remove(i)[b] == if b < i {
            s[b]
        } else {
            s[b + 1]
        });
    }
    assert forall|j: int| 0 <= j < s.remove(i).len() implies (#[trigger] s.remove(i)[j]).0@
        != s[i].0@ by {
        assert(s.remove(i)[j] == if j < i {
            s[j]
        } else {
            s[j + 1]
        });
    }
    if forall|p: int| 0 <= p < s.len() ==> (#[trigger] s[p]).1@.wf() {
        assert forall|j: int| 0 <= j < s.remove(i).len() implies (#[trigger] s.remove(i)[j]).1@.wf()
            by {
            assert(s.remove(i)[j] == if j < i {
                s[j]
            } else {
                s[j + 1]
            });
        }
    }
}

/// Replacing the entry at `i` by one with the same key updates the map at
/// that key alone.
proof fn lemma_entries_map_update<S: SerdeScheme>(
    s: Seq<(String, Sord<S>)>,
    i: int,
    p: (String, Sord<S>),
)
    requires
        0 <= i < s.len(),
        forall|a: int, b: int| 0 <= a < b < s.len() ==> s[a].0@ != s[b].0@,
        p.0@ == s[i].0@,
    ensures
        entries_map(s.update(i, p)) == entries_map(s).insert(p.0@, p.1@),
    decreases s,
{
    let t = s.update(i, p);
    if i == s.len() - 1 {
        assert(t.drop_last() =~= s.drop_last());
        assert(entries_map(t) == entries_map(s.drop_last()).insert(p.0@, p.1@));
        assert(entries_map(s) == entries_map(s.drop_last()).insert(s[i].0@, s[i].1@));
        assert(entries_map(t) =~= entries_map(s).insert(p.0@, p.1@));
    } else {
        assert(forall|a: int|
            0 <= a < s.len() - 1 ==> #[trigger] s.drop_last()[a] == s[a]);
        lemma_entries_map_update(s.drop_last(), i, p);
        assert(t.drop_last() =~= s.drop_last().update(i, p));
        let last = s.last();
        assert(t.last() == last);
        assert(entries_map(t) == entries_map(s.drop_last().update(i, p)).insert(
            last.0@,
            last.1@,
        ));
        assert(s[i].0@ != last.0@);
        assert(entries_map(t) =~= entries_map(s).insert(p.0@, p.1@));
    }
}

/// Removing the entry at `i` removes exactly its key from the map.
proof fn lemma_entries_map_remove<S: SerdeScheme>(s: Seq<(String, Sord<S>)>, i: int)
    requires
        0 <= i < s.len(),
        forall|a: int, b: int| 0 <= a < b < s.len() ==> s[a].0@ != s[b].0@,
    ensures
        entries_map(s.remove(i)) == entries_map(s).remove(s[i].0@),
    decreases s,
{
    let t = s.remove(i);
    if i == s.len() - 1 {
        assert(t =~= s.drop_last());
        lemma_entries_map(s.drop_last());
        assert(forall|a: int|
            0 <= a < s.len() - 1 ==> #[trigger] s.drop_last()[a] == s[a]);
        assert(!entries_map(s.drop_last()).contains_key(s[i].0@));
        assert(entries_map(s) == entries_map(s.drop_last()).insert(s[i].0@, s[i].1@));
        assert(entries_map(t) =~= entries_map(s).remove(s[i].0@));
    } else {
        assert(forall|a: int|
            0 <= a < s.len() - 1 ==> #[trigger] s.drop_last()[a] == s[a]);
        lemma_entries_map_remove(s.drop_last(), i);
        assert(t.drop_last() =~= s.drop_last().remove(i));
        let last = s.last();
        assert(t.last() == last);
        assert(entries_map(t) == entries_map(s.drop_last().remove(i)).insert(last.0@, last.1@));
        assert(s[i].0@ != last.0@);
        assert(entries_map(t) =~= entries_map(s).remove(s[i].0@));
    }
}

} // verus!
