//! The dual-representation memo cell: a value that may arrive as serialized
//! text or as a typed value, and lazily computes whichever side is missing.
//!
//! Two write-once slots: serialized text, and a tagged erased value. At
//! least one is populated from construction on; a slot, once populated, is
//! never overwritten, so every access after the first returns the same
//! cached result — value or error.
//!
//! The typed slot stores the value's structured form together with the tag
//! of the type that produced it; a later access under a different tag is
//! answered with `WrongTypeError`, never with a reinterpreted value. A
//! slot may instead record no type at all (the reserved tag): such a
//! value — an entry of a container read back out of a structured form —
//! is read by shape, exactly as parsed text is.

use vstd::prelude::*;

use core::marker::PhantomData;

use vstd::pervasive::unreached;

use crate::data::{FreeformData, TAG_VALUE};
use crate::native::{Native, NativeVal};
use crate::scheme::SerdeScheme;
use crate::typed_sord::TypedSord;

verus! {

/// The semantic form of a cell error.
pub ghost enum SordErrVal {
    SeDeV(Seq<char>),
    WrongTypeV,
}

/// Why a cell access failed: the scheme failed to convert (the message is
/// kept, and cached, so retries see the same failure), or the requested
/// type does not match the tag recorded in the typed slot.
#[derive(Debug, PartialEq, Eq)]
pub enum SordError {
    SeDeError(String),
    WrongTypeError,
}

impl View for SordError {
    type V = SordErrVal;

    open spec fn view(&self) -> SordErrVal {
        match self {
            SordError::SeDeError(m) => SordErrVal::SeDeV(m@),
            SordError::WrongTypeError => SordErrVal::WrongTypeV,
        }
    }
}

impl Clone for SordError {
    fn clone(&self) -> (r: Self)
        ensures
            r@ == self@,
    {
        match self {
            SordError::SeDeError(m) => SordError::SeDeError(m.clone()),
            SordError::WrongTypeError => SordError::WrongTypeError,
        }
    }
}

/// The semantic form of a cell: the two slots, each either unpopulated or
/// holding a cached outcome.
pub ghost struct SordView {
    pub se: Option<Result<Seq<char>, SordErrVal>>,
    pub de: Option<Result<(u64, NativeVal), SordErrVal>>,
}

impl SordView {
    /// The cell's structural invariant: at least one slot holds a value
    /// (not merely an error), because errors are only ever cached while
    /// computing one side from the other.
    pub open spec fn wf(self) -> bool {
        &&& (self.se is Some || self.de is Some)
        &&& (self.se matches Some(Err(_)) ==> self.de matches Some(Ok(_)))
        &&& (self.de matches Some(Err(_)) ==> self.se matches Some(Ok(_)))
    }

    /// A cell holding only serialized text.
    pub open spec fn se_only(text: Seq<char>) -> SordView {
        SordView { se: Some(Ok(text)), de: None }
    }

    /// A cell holding only a tagged typed value.
    pub open spec fn de_only(tag: u64, val: NativeVal) -> SordView {
        SordView { se: None, de: Some(Ok((tag, val))) }
    }
}

/// A slot holding a structured value with no recorded type, and nothing
/// else: the form a container's entries take when the container is read
/// back out of a structured value.
pub open spec fn cell_value_only(sv: SordView) -> bool {
    sv.se is None && (sv.de matches Some(Ok(p)) && p.0 == TAG_VALUE)
}

/// Whether a typed view at type `T` is owed to succeed, given the cell's
/// current state: a typed slot answers when its recorded tag is `T`'s —
/// or when it records no type at all, in which case shape decides, as it
/// does for text.
pub open spec fn de_success<S: SerdeScheme, T: FreeformData>(sv: SordView) -> bool {
    match sv.de {
        Some(Ok(p)) => (p.0 == T::tag_spec() || p.0 == TAG_VALUE) && T::accepts(p.1),
        Some(Err(_)) => false,
        None => match sv.se {
            Some(Ok(s)) => match S::parse_spec(s) {
                Some(n) => T::accepts(n),
                None => false,
            },
            _ => false,
        },
    }
}

/// The structured value a successful typed view embeds to.
pub open spec fn de_sem<S: SerdeScheme, T: FreeformData>(sv: SordView) -> NativeVal {
    match sv.de {
        Some(Ok(p)) => p.1,
        _ => match sv.se {
            Some(Ok(s)) => match S::parse_spec(s) {
                Some(n) => n,
                None => NativeVal::NullV,
            },
            _ => NativeVal::NullV,
        },
    }
}

/// The structured value an entry stands for: parsed text if the cell
/// holds text, the stored typed value otherwise, and null where the cell
/// has neither.
pub open spec fn sord_sem<S: SerdeScheme>(sv: SordView) -> NativeVal {
    match sv.se {
        Some(Ok(s)) => match S::parse_spec(s) {
            Some(n) => n,
            None => NativeVal::NullV,
        },
        _ => match sv.de {
            Some(Ok(p)) => p.1,
            _ => NativeVal::NullV,
        },
    }
}

/// Whether a cell's structured value survives the scheme: its text
/// parses, and what it stands for prints and parses back.
pub open spec fn entry_ready<S: SerdeScheme>(sv: SordView) -> bool {
    &&& (sv.se matches Some(Ok(s)) ==> S::parse_spec(s) is Some)
    &&& S::printable(sord_sem::<S>(sv))
    &&& S::reparsable(sord_sem::<S>(sv))
}

/// What the structured-value read of a cell yields: parsed text for a
/// text slot; for a typed slot, the stored value pushed through the
/// scheme's printer and reader, exactly as a reader of the serialized
/// form would see it. `None` stands for the scheme failure the read
/// surfaces.
pub open spec fn value_outcome<S: SerdeScheme>(sv: SordView) -> Option<NativeVal> {
    match sv.se {
        Some(Ok(s)) => S::parse_spec(s),
        _ => match sv.de {
            Some(Ok(p)) => if S::printable(p.1) {
                S::parse_spec(S::print_spec(p.1))
            } else {
                None
            },
            _ => None,
        },
    }
}

/// The message the structured-value read surfaces when it fails: the
/// reader's for unparsable text, the printer's for an unprintable value.
pub open spec fn value_err<S: SerdeScheme>(sv: SordView) -> Seq<char> {
    match sv.se {
        Some(Ok(s)) => S::parse_err_spec(s),
        _ => match sv.de {
            Some(Ok(p)) => if S::printable(p.1) {
                S::parse_err_spec(S::print_spec(p.1))
            } else {
                S::print_err_spec(p.1)
            },
            _ => Seq::empty(),
        },
    }
}

/// Whether converting to the statically-typed cell at `T` is owed to
/// succeed: no wrong-type failure is cached, and a populated typed slot
/// carries `T`'s tag with a readable value.
pub open spec fn typed_ok<S: SerdeScheme, T: FreeformData>(sv: SordView) -> bool {
    &&& !(sv.se matches Some(Err(ev)) && ev == SordErrVal::WrongTypeV)
    &&& match sv.de {
        Some(Ok(p)) => (p.0 == T::tag_spec() || p.0 == TAG_VALUE) && T::accepts(p.1),
        Some(Err(ev)) => ev matches SordErrVal::SeDeV(_),
        None => true,
    }
}

/// The erased dual-representation cell, parameterized by the scheme that
/// converts between its two slots.
pub struct Sord<S: SerdeScheme> {
    se: Option<Result<String, SordError>>,
    de: Option<Result<(u64, Native), SordError>>,
    marker: PhantomData<S>,
}

impl<S: SerdeScheme> View for Sord<S> {
    type V = SordView;

    closed spec fn view(&self) -> SordView {
        SordView {
            se: match self.se {
                Option::None => None,
                Option::Some(Ok(s)) => Some(Ok(s@)),
                Option::Some(Err(e)) => Some(Err(e@)),
            },
            de: match self.de {
                Option::None => None,
                Option::Some(Ok(p)) => Some(Ok((p.0, p.1@))),
                Option::Some(Err(e)) => Some(Err(e@)),
            },
        }
    }
}

impl<S: SerdeScheme> Clone for Sord<S> {
    /// A copy with the same semantic form.
    fn clone(&self) -> (r: Self)
        ensures
            r@ == self@,
    {
        Sord {
            se: match &self.se {
                None => None,
                Some(Ok(s)) => Some(Ok(s.clone())),
                Some(Err(e)) => Some(Err(e.clone())),
            },
            de: match &self.de {
                None => None,
                Some(Ok(p)) => Some(Ok((p.0, p.1.clone()))),
                Some(Err(e)) => Some(Err(e.clone())),
            },
            marker: PhantomData,
        }
    }
}

impl<S: SerdeScheme> Sord<S> {
    /// Build a cell from a typed value: the typed slot is populated with
    /// the value's structured form under `T`'s tag, the serialized slot is
    /// left empty. Never fails.
    pub fn from_de<T: FreeformData>(de: T) -> (r: Self)
        ensures
            r@.wf(),
            r@.se is None,
            r@.de matches Some(Ok(p)) && p.0 == T::tag_spec(),
            de.can_embed() ==> r@ == SordView::de_only(T::tag_spec(), de.embed()),
    {
        let n = de.to_native();
        Sord { se: None, de: Some(Ok((T::type_tag(), n))), marker: PhantomData }
    }

    /// Build a cell from a borrowed typed value by serializing it at once:
    /// only the serialized slot is populated; fails when the scheme cannot
    /// print the value.
    pub fn from_de_ref<T: FreeformData>(de: &T) -> (r: Result<Self, SordError>)
        ensures
            (*de).can_embed() ==> (r is Ok <==> S::printable((*de).embed())),
            (*de).can_embed() ==> match r {
                Ok(s) => {
                    &&& s@.wf()
                    &&& s@.de is None
                    &&& s@.se matches Some(Ok(t)) && t == S::print_spec((*de).embed()) && (
                    S::reparsable((*de).embed()) ==> S::parse_spec(t) == Some((*de).embed()))
                },
                Err(e) => e@ == SordErrVal::SeDeV(S::print_err_spec((*de).embed())),
            },
            r matches Ok(s) ==> s@.wf() && s@.de is None && s@.se matches Some(Ok(_)),
            r matches Err(e) ==> e@ matches SordErrVal::SeDeV(_),
    {
        let n = de.to_native();
        match S::encode(&n) {
            Ok(t) => Ok(Sord { se: Some(Ok(t)), de: None, marker: PhantomData }),
            Err(m) => Err(SordError::SeDeError(m)),
        }
    }

    /// Build a cell holding a structured value with no recorded type:
    /// typed views read it by shape, as they read parsed text.
    pub(crate) fn from_native_value(value: Native) -> (r: Self)
        ensures
            r@ == SordView::de_only(TAG_VALUE, value@),
            r@.wf(),
    {
        Sord { se: None, de: Some(Ok((TAG_VALUE, value))), marker: PhantomData }
    }

    /// Build a cell from serialized text, stored verbatim.
    pub fn from_se(se: String) -> (r: Self)
        ensures
            r@ == SordView::se_only(se@),
            r@.wf(),
    {
        Sord { se: Some(Ok(se)), de: None, marker: PhantomData }
    }

    /// Build a cell from a structured value by serializing it at once:
    /// only the serialized slot is populated; fails when the scheme cannot
    /// print the value.
    pub fn from_value(value: &Native) -> (r: Result<Self, SordError>)
        ensures
            r is Ok <==> S::printable(value@),
            r matches Ok(s) ==> {
                &&& s@.wf()
                &&& s@.de is None
                &&& s@.se matches Some(Ok(t)) && t == S::print_spec(value@) && (S::reparsable(
                    value@,
                ) ==> S::parse_spec(t) == Some(value@))
            },
            r matches Err(e) ==> e@ == SordErrVal::SeDeV(S::print_err_spec(value@)),
    {
        match S::encode(value) {
            Ok(t) => Ok(Sord { se: Some(Ok(t)), de: None, marker: PhantomData }),
            Err(m) => Err(SordError::SeDeError(m)),
        }
    }

    /// The typed view at `T`.
    ///
    /// If the typed slot is unpopulated it is computed once from the
    /// serialized text and cached — value or failure — permanently; the
    /// serialized slot is never touched. If the typed slot is populated,
    /// the recorded tag is authoritative: a mismatching `T` is answered
    /// with `WrongTypeError` and nothing is recomputed. A slot recording
    /// no type is read by shape, as text is.
    pub fn de<T: FreeformData>(&mut self) -> (r: Result<T, SordError>)
        requires
            old(self)@.wf(),
        ensures
            final(self)@.wf(),
            final(self)@.se == old(self)@.se,
            old(self)@.de is Some ==> final(self)@ == old(self)@,
            old(self)@.de is None ==> final(self)@.de is Some,
            r is Ok <==> de_success::<S, T>(old(self)@),
            de_success::<S, T>(old(self)@) ==> (r matches Ok(w) && w.embed() == de_sem::<S, T>(
                old(self)@,
            ) && w.can_embed() && w.settled()),
            old(self)@.de matches Some(Ok(p)) && p.0 != T::tag_spec() && p.0 != TAG_VALUE ==> (
            r matches Err(e) && e@ == SordErrVal::WrongTypeV),
            match old(self)@.de {
                Some(Ok(p)) => !de_success::<S, T>(old(self)@) ==> (r matches Err(e) && e@
                    == SordErrVal::WrongTypeV),
                Some(Err(ev)) => r matches Err(e) && e@ == ev,
                None => match old(self)@.se {
                    Some(Ok(s)) => match S::parse_spec(s) {
                        Some(n) => {
                            let fv = final(self)@;
                            &&& (r matches Ok(w) ==> (fv.de matches Some(Ok(q)) && q == (T::tag_spec(), n)))
                            &&& (!T::accepts(n) ==> (r matches Err(e) && e@
                                matches SordErrVal::SeDeV(_) && (fv.de matches Some(Err(ev2))
                                && ev2 == e@)))
                        },
                        None => {
                            let fv = final(self)@;
                            r matches Err(e) && e@ == SordErrVal::SeDeV(S::parse_err_spec(s)) && (
                            fv.de matches Some(Err(ev2)) && ev2 == e@)
                        },
                    },
                    _ => true,
                },
            },
    {
        match &self.de {
            Some(Ok(p)) => {
                if p.0 == T::type_tag() || p.0 == TAG_VALUE {
                    match T::from_native(&p.1) {
                        Some(w) => Ok(w),
                        None => Err(SordError::WrongTypeError),
                    }
                } else {
                    Err(SordError::WrongTypeError)
                }
            },
            Some(Err(e)) => Err(e.clone()),
            None => {
                let text: String = if let Some(Ok(s)) = &self.se {
                    s.clone()
                } else {
                    unreached()
                };
                match S::decode(text.as_str()) {
                    Ok(n) => match T::from_native(&n) {
                        Some(w) => {
                            self.de = Some(Ok((T::type_tag(), n)));
                            Ok(w)
                        },
                        None => {
                            let e = SordError::SeDeError(
                                "the stored value does not have the requested shape".to_owned(),
                            );
                            self.de = Some(Err(e.clone()));
                            Err(e)
                        },
                    },
                    Err(m) => {
                        let e = SordError::SeDeError(m);
                        self.de = Some(Err(e.clone()));
                        Err(e)
                    },
                }
            },
        }
    }

    /// The serialized view at `T`.
    ///
    /// If the serialized slot is populated — value or cached failure — it
    /// is returned as-is, without a tag check. Otherwise the typed slot's
    /// tag is checked against `T` and its value printed; the outcome,
    /// including a tag mismatch, is cached in the serialized slot.
    pub fn se<T: FreeformData>(&mut self) -> (r: Result<String, SordError>)
        requires
            old(self)@.wf(),
        ensures
            final(self)@.wf(),
            final(self)@.de == old(self)@.de,
            old(self)@.se is Some ==> final(self)@ == old(self)@,
            old(self)@.se is None ==> final(self)@.se is Some,
            match old(self)@.se {
                Some(Ok(s)) => r matches Ok(t) && t@ == s,
                Some(Err(ev)) => r matches Err(e) && e@ == ev,
                None => match old(self)@.de {
                    Some(Ok(p)) => {
                        &&& (p.0 != T::tag_spec() && p.0 != TAG_VALUE ==> (r matches Err(e) && e@
                            == SordErrVal::WrongTypeV && (final(self)@.se matches Some(Err(ev2))
                            && ev2 == SordErrVal::WrongTypeV)))
                        &&& ((p.0 == T::tag_spec() || p.0 == TAG_VALUE) && S::printable(p.1) ==> (
                        r matches Ok(t) && t@ == S::print_spec(p.1) && (final(self)@.se
                            matches Some(Ok(t2)) && t2 == t@) && (S::reparsable(p.1)
                            ==> S::parse_spec(t@) == Some(p.1))))
                        &&& ((p.0 == T::tag_spec() || p.0 == TAG_VALUE) && !S::printable(p.1) ==> (
                        r matches Err(e) && e@ == SordErrVal::SeDeV(S::print_err_spec(p.1)) && ({
                            let fv = final(self)@;
                            fv.se matches Some(Err(ev2)) && ev2 == e@
                        })))
                    },
                    _ => true,
                },
            },
    {
        match &self.se {
            Some(Ok(s)) => Ok(s.clone()),
            Some(Err(e)) => Err(e.clone()),
            None => {
                let mut wrong = false;
                let mut enc: Result<String, String> = Err(String::new());
                if let Some(Ok(p)) = &self.de {
                    if p.0 == T::type_tag() || p.0 == TAG_VALUE {
                        enc = S::encode(&p.1);
                    } else {
                        wrong = true;
                    }
                } else {
                    return unreached();
                }
                if wrong {
                    self.se = Some(Err(SordError::WrongTypeError));
                    Err(SordError::WrongTypeError)
                } else {
                    match enc {
                        Ok(t) => {
                            self.se = Some(Ok(t.clone()));
                            Ok(t)
                        },
                        Err(m) => {
                            let e = SordError::SeDeError(m);
                            self.se = Some(Err(e.clone()));
                            Err(e)
                        },
                    }
                }
            },
        }
    }

    /// The structured value this cell stands for, with a null standing in
    /// for text the scheme cannot parse; total, for building a whole
    /// container's structured form. A typed slot's value is handed over
    /// as it is: no scheme call touches it.
    pub(crate) fn sem_native(&self) -> (r: Native)
        ensures
            r@ == sord_sem::<S>(self@),
    {
        if let Some(Ok(s)) = &self.se {
            match S::decode(s.as_str()) {
                Ok(m) => m,
                Err(_) => Native::Null,
            }
        } else if let Some(Ok(p)) = &self.de {
            p.1.clone()
        } else {
            Native::Null
        }
    }

    /// Convert into the statically-typed cell at `T`, consuming this one.
    ///
    /// Populated slots carry over; a cached scheme failure carries its
    /// message. Any trace of a type other than `T` — a mismatching tag, a
    /// value `T` cannot read, or a cached wrong-type failure — yields
    /// `None`: type confusion is caught, never coerced.
    pub fn typed<T: FreeformData>(self) -> (r: Option<TypedSord<T, S>>)
        requires
            self@.wf(),
        ensures
            r is Some <==> typed_ok::<S, T>(self@),
            r matches Some(ts) ==> {
                &&& ts@.wf()
                &&& match self@.se {
                    None => ts@.se is None,
                    Some(Ok(s)) => ts@.se matches Some(Ok(t)) && t == s,
                    Some(Err(ev)) => ev matches SordErrVal::SeDeV(m) && (ts@.se matches Some(
                        Err(m2),
                    ) && m2 == m),
                }
                &&& match self@.de {
                    None => ts@.de is None,
                    Some(Ok(p)) => ts@.de matches Some(Ok(w)) && (T::accepts(p.1) ==> w.embed()
                        == p.1 && w.can_embed()),
                    Some(Err(ev)) => ev matches SordErrVal::SeDeV(m) && (ts@.de matches Some(
                        Err(m2),
                    ) && m2 == m),
                }
            },
    {
        let Sord { se, de, marker: _ } = self;
        let tse: Option<Result<String, String>> = match se {
            None => None,
            Some(Ok(s)) => Some(Ok(s)),
            Some(Err(SordError::SeDeError(m))) => Some(Err(m)),
            Some(Err(SordError::WrongTypeError)) => {
                return None;
            },
        };
        let tde: Option<Result<T, String>> = match de {
            None => None,
            Some(Ok(p)) => {
                if p.0 == T::type_tag() || p.0 == TAG_VALUE {
                    match T::from_native(&p.1) {
                        Some(w) => Some(Ok(w)),
                        None => {
                            return None;
                        },
                    }
                } else {
                    return None;
                }
            },
            Some(Err(SordError::SeDeError(m))) => Some(Err(m)),
            Some(Err(SordError::WrongTypeError)) => {
                return None;
            },
        };
        Some(TypedSord::from_parts(tse, tde))
    }

    /// The scheme's structured form of the cell's contents, computed
    /// fresh on every call: serialized text is parsed; a typed value is
    /// printed and parsed back through the scheme, so that what is
    /// returned is exactly what a reader of the serialized form would see.
    /// No slot is populated or consulted for a tag.
    pub fn value(&self) -> (r: Result<Native, SordError>)
        requires
            self@.wf(),
        ensures
            match value_outcome::<S>(self@) {
                Some(n) => r matches Ok(m) && m@ == n,
                None => r matches Err(e) && e@ == SordErrVal::SeDeV(value_err::<S>(self@)),
            },
            self@.de matches Some(Ok(p)) ==> (S::printable(p.1) && S::reparsable(p.1) && !(
            self@.se matches Some(Ok(_))) ==> (r matches Ok(m) && m@ == p.1)),
    {
        if let Some(Ok(s)) = &self.se {
            match S::decode(s.as_str()) {
                Ok(m) => Ok(m),
                Err(e) => Err(SordError::SeDeError(e)),
            }
        } else if let Some(Ok(p)) = &self.de {
            match S::encode(&p.1) {
                Ok(t) => match S::decode(t.as_str()) {
                    Ok(m) => Ok(m),
                    Err(e) => Err(SordError::SeDeError(e)),
                },
                Err(e) => Err(SordError::SeDeError(e)),
            }
        } else {
            unreached()
        }
    }
}

} // verus!
