//! The container's laws, stated once over the spec functions its
//! contracts are written in, and proved for every scheme and every
//! storable type.

use vstd::prelude::*;

use crate::data::FreeformData;
use crate::freeform::{ff_sem, fold_from, merged, Freeform};
use crate::scheme::SerdeScheme;
use crate::sord::{de_sem, de_success, sord_sem, value_err, value_outcome, SordView};

verus! {

/// Round trip: storing a value and reading it back under the same key
/// yields a semantically equal value.
///
/// `put` leaves the container mapping the key to a cell whose typed slot
/// holds the value's structured form under its type's tag; this lemma
/// shows a typed read of that cell is owed to succeed, and its result
/// clause then pins the returned value's structured form to the stored
/// one.
pub proof fn lemma_round_trip<S: SerdeScheme, T: FreeformData>(
    m: Map<Seq<char>, SordView>,
    name: Seq<char>,
    v: T,
)
    requires
        v.can_embed(),
    ensures
        ({
            let m2 = m.insert(name, SordView::de_only(T::tag_spec(), v.embed()));
            &&& m2.contains_key(name)
            &&& de_success::<S, T>(m2[name])
            &&& de_sem::<S, T>(m2[name]) == v.embed()
        }),
{
    T::lemma_embed_accepts(v);
}

/// Representation equivalence: a cell built from serialized text and a
/// cell built from a typed value answer a typed view identically,
/// whenever the text denotes that value — both are owed success, and
/// both pin the result to the same structured form.
pub proof fn lemma_representation_equivalence<S: SerdeScheme, T: FreeformData>(
    s: Seq<char>,
    v: T,
)
    requires
        S::parse_spec(s) == Some(v.embed()),
        v.can_embed(),
    ensures
        de_success::<S, T>(SordView::se_only(s)),
        de_success::<S, T>(SordView::de_only(T::tag_spec(), v.embed())),
        de_sem::<S, T>(SordView::se_only(s)) == de_sem::<S, T>(
            SordView::de_only(T::tag_spec(), v.embed()),
        ),
{
    T::lemma_embed_accepts(v);
}

/// Write-once determinism: a populated typed slot is never overwritten
/// (the typed view's contract returns the cell unchanged), so any later
/// typed view is decided by exactly the same state — same success, same
/// structured form, same cached error.
pub proof fn lemma_write_once_determinism<S: SerdeScheme, T: FreeformData>(
    sv: SordView,
    fv: SordView,
)
    requires
        sv.de is Some,
        fv == sv,
    ensures
        de_success::<S, T>(fv) == de_success::<S, T>(sv),
        de_sem::<S, T>(fv) == de_sem::<S, T>(sv),
{
}

/// Native-value determinism: the structured-value read takes the cell by
/// shared reference and never populates a slot, and its contract pins
/// both the returned value and the surfaced error message as functions of
/// the cell's state — so any two reads of one cell agree.
pub proof fn lemma_native_value_determinism<S: SerdeScheme>(sv: SordView, fv: SordView)
    requires
        fv == sv,
    ensures
        value_outcome::<S>(fv) == value_outcome::<S>(sv),
        value_err::<S>(fv) == value_err::<S>(sv),
{
}

/// Nesting: a container read back out of a stored entry is itself fully
/// readable. Every cell of a settled container is a structured value with
/// no recorded type, so a typed view of any entry, at any storable type,
/// is owed to succeed exactly where that type accepts the entry's
/// semantic value — the value the container's embedding pins.
pub proof fn lemma_nested_container_read<S: SerdeScheme, U: FreeformData>(
    w: Freeform<S>,
    k: Seq<char>,
)
    requires
        w.settled(),
        w@.contains_key(k),
    ensures
        de_success::<S, U>(w@[k]) == U::accepts(sord_sem::<S>(w@[k])),
        de_sem::<S, U>(w@[k]) == sord_sem::<S>(w@[k]),
        ff_sem::<S>(w@)[k] == sord_sem::<S>(w@[k]),
{
}

/// Folding over containers none of which hold the key neither adds nor
/// changes it.
proof fn lemma_fold_from_absent(
    m: Map<Seq<char>, SordView>,
    s: Seq<Map<Seq<char>, SordView>>,
    k: Seq<char>,
)
    requires
        forall|j: int| 0 <= j < s.len() ==> !(#[trigger] s[j]).contains_key(k),
    ensures
        fold_from(m, s).contains_key(k) == m.contains_key(k),
        m.contains_key(k) ==> fold_from(m, s)[k] == m[k],
    decreases s.len(),
{
    if s.len() > 0 {
        let m2 = m.union_prefer_right(s[0]);
        assert(m2.contains_key(k) == m.contains_key(k));
        assert(m.contains_key(k) ==> m2[k] == m[k]);
        assert(forall|j: int| 0 <= j < s.skip(1).len() ==> #[trigger] s.skip(1)[j] == s[j + 1]);
        lemma_fold_from_absent(m2, s.skip(1), k);
    }
}

/// Folding past the last container that holds the key settles the key at
/// that container's entry.
proof fn lemma_fold_from_found(
    m: Map<Seq<char>, SordView>,
    s: Seq<Map<Seq<char>, SordView>>,
    i: int,
    k: Seq<char>,
)
    requires
        0 <= i < s.len(),
        s[i].contains_key(k),
        forall|j: int| i < j < s.len() ==> !(#[trigger] s[j]).contains_key(k),
    ensures
        fold_from(m, s).contains_key(k),
        fold_from(m, s)[k] == s[i][k],
    decreases s.len(),
{
    let m2 = m.union_prefer_right(s[0]);
    assert(forall|j: int| 0 <= j < s.skip(1).len() ==> #[trigger] s.skip(1)[j] == s[j + 1]);
    if i == 0 {
        assert(m2.contains_key(k) && m2[k] == s[0][k]);
        lemma_fold_from_absent(m2, s.skip(1), k);
    } else {
        lemma_fold_from_found(m2, s.skip(1), i - 1, k);
    }
}

/// Aggregate last-write-wins: in a merge of containers, the entry that
/// survives under a key is the one from the last container holding that
/// key.
pub proof fn lemma_last_write_wins(
    s: Seq<Map<Seq<char>, SordView>>,
    i: int,
    k: Seq<char>,
)
    requires
        0 <= i < s.len(),
        s[i].contains_key(k),
        forall|j: int| i < j < s.len() ==> !(#[trigger] s[j]).contains_key(k),
    ensures
        merged(s).contains_key(k),
        merged(s)[k] == s[i][k],
{
    lemma_fold_from_found(Map::empty(), s, i, k);
}

/// A merge holds exactly the keys its containers hold: a key absent from
/// every container is absent from the merge.
pub proof fn lemma_merge_no_new_keys(s: Seq<Map<Seq<char>, SordView>>, k: Seq<char>)
    requires
        forall|j: int| 0 <= j < s.len() ==> !(#[trigger] s[j]).contains_key(k),
    ensures
        !merged(s).contains_key(k),
{
    lemma_fold_from_absent(Map::empty(), s, k);
}

} // verus!
