//! The statically-typed sibling of the erased cell: the same write-once
//! dual-slot pattern, for use when the value's type is known at compile
//! time. No tag is stored and no wrong-type failure exists; the only
//! failure mode is the scheme's own, carried as its message.

use vstd::prelude::*;

use core::marker::PhantomData;

use vstd::pervasive::unreached;

use crate::data::FreeformData;
use crate::scheme::SerdeScheme;

verus! {

/// The semantic form of a typed cell: the two slots, each either
/// unpopulated or holding a cached outcome; errors are scheme messages.
pub ghost struct TypedSordView<T> {
    pub se: Option<Result<Seq<char>, Seq<char>>>,
    pub de: Option<Result<T, Seq<char>>>,
}

impl<T> TypedSordView<T> {
    /// The cell's structural invariant: at least one slot holds a value.
    pub open spec fn wf(self) -> bool {
        &&& (self.se is Some || self.de is Some)
        &&& (self.se matches Some(Err(_)) ==> self.de matches Some(Ok(_)))
        &&& (self.de matches Some(Err(_)) ==> self.se matches Some(Ok(_)))
    }
}

/// The statically-typed dual-representation cell.
pub struct TypedSord<T: FreeformData, S: SerdeScheme> {
    pub(crate) se: Option<Result<String, String>>,
    pub(crate) de: Option<Result<T, String>>,
    pub(crate) marker: PhantomData<S>,
}

impl<T: FreeformData, S: SerdeScheme> View for TypedSord<T, S> {
    type V = TypedSordView<T>;

    closed spec fn view(&self) -> TypedSordView<T> {
        TypedSordView {
            se: match self.se {
                Option::None => None,
                Option::Some(Ok(s)) => Some(Ok(s@)),
                Option::Some(Err(m)) => Some(Err(m@)),
            },
            de: match self.de {
                Option::None => None,
                Option::Some(Ok(w)) => Some(Ok(w)),
                Option::Some(Err(m)) => Some(Err(m@)),
            },
        }
    }
}

impl<T: FreeformData, S: SerdeScheme> TypedSord<T, S> {
    /// Assemble a cell from already-computed slots.
    pub(crate) fn from_parts(
        se: Option<Result<String, String>>,
        de: Option<Result<T, String>>,
    ) -> (r: Self)
        ensures
            match se {
                None => r@.se is None,
                Some(Ok(s)) => r@.se matches Some(Ok(t)) && t == s@,
                Some(Err(m)) => r@.se matches Some(Err(t)) && t == m@,
            },
            match de {
                None => r@.de is None,
                Some(Ok(w)) => r@.de matches Some(Ok(w2)) && w2 == w,
                Some(Err(m)) => r@.de matches Some(Err(t)) && t == m@,
            },
    {
        TypedSord { se, de, marker: PhantomData }
    }

    /// Build a cell from serialized text, stored verbatim.
    pub fn from_se(se: String) -> (r: Self)
        ensures
            r@.wf(),
            r@.se matches Some(Ok(t)) && t == se@,
            r@.de is None,
    {
        TypedSord { se: Some(Ok(se)), de: None, marker: PhantomData }
    }

    /// Build a cell from a typed value, stored directly.
    pub fn from_de(de: T) -> (r: Self)
        ensures
            r@.wf(),
            r@.se is None,
            r@.de matches Some(Ok(w)) && w == de,
    {
        TypedSord { se: None, de: Some(Ok(de)), marker: PhantomData }
    }

    /// The typed view.
    ///
    /// If the typed slot is unpopulated it is computed once from the
    /// serialized text and cached — value or failure — permanently; the
    /// serialized slot is never touched.
    pub fn de(&mut self) -> (r: Result<T, String>)
        requires
            old(self)@.wf(),
        ensures
            final(self)@.wf(),
            final(self)@.se == old(self)@.se,
            old(self)@.de is Some ==> final(self)@ == old(self)@,
            old(self)@.de is None ==> final(self)@.de is Some,
            match old(self)@.de {
                Some(Ok(w)) => r matches Ok(w2) && w2.embed() == w.embed() && (w2.can_embed()
                    <==> w.can_embed()),
                Some(Err(m)) => r matches Err(m2) && m2@ == m,
                None => match old(self)@.se {
                    Some(Ok(s)) => match S::parse_spec(s) {
                        Some(n) => {
                            let fv = final(self)@;
                            &&& (T::accepts(n) ==> (r matches Ok(w2) && w2.embed() == n
                                && w2.can_embed() && w2.settled()))
                            &&& (!T::accepts(n) ==> (r matches Err(m2) && (fv.de matches Some(
                                Err(m),
                            ) && m == m2@)))
                            &&& (r matches Ok(w2) ==> (fv.de matches Some(Ok(w)) && w.embed()
                                == w2.embed() && (w.can_embed() <==> w2.can_embed())))
                            &&& (r matches Err(m2) ==> (fv.de matches Some(Err(m)) && m == m2@))
                        },
                        None => {
                            let fv = final(self)@;
                            r matches Err(m2) && m2@ == S::parse_err_spec(s) && (fv.de matches Some(
                                Err(m),
                            ) && m == m2@)
                        },
                    },
                    _ => true,
                },
            },
    {
        match &self.de {
            Some(Ok(w)) => Ok(w.clone_data()),
            Some(Err(m)) => Err(m.clone()),
            None => {
                let text: String = if let Some(Ok(s)) = &self.se {
                    s.clone()
                } else {
                    unreached()
                };
                match S::decode(text.as_str()) {
                    Ok(n) => match T::from_native(&n) {
                        Some(w) => {
                            let out = w.clone_data();
                            self.de = Some(Ok(w));
                            Ok(out)
                        },
                        None => {
                            let m = "the stored value does not have the requested shape".to_owned();
                            self.de = Some(Err(m.clone()));
                            Err(m)
                        },
                    },
                    Err(m) => {
                        self.de = Some(Err(m.clone()));
                        Err(m)
                    },
                }
            },
        }
    }

    /// The serialized view.
    ///
    /// If the serialized slot is unpopulated the typed slot's value is
    /// printed once and the outcome cached — text or failure —
    /// permanently; the typed slot is never touched.
    pub fn se(&mut self) -> (r: Result<String, String>)
        requires
            old(self)@.wf(),
        ensures
            final(self)@.wf(),
            final(self)@.de == old(self)@.de,
            old(self)@.se is Some ==> final(self)@ == old(self)@,
            old(self)@.se is None ==> final(self)@.se is Some,
            match old(self)@.se {
                Some(Ok(s)) => r matches Ok(t) && t@ == s,
                Some(Err(m)) => r matches Err(m2) && m2@ == m,
                None => match old(self)@.de {
                    Some(Ok(w)) => {
                        let fv = final(self)@;
                        &&& (w.can_embed() && S::printable(w.embed()) ==> (r matches Ok(t) && t@
                            == S::print_spec(w.embed()) && (fv.se matches Some(Ok(t2)) && t2 == t@)
                            && (S::reparsable(w.embed()) ==> S::parse_spec(t@) == Some(w.embed()))))
                        &&& (w.can_embed() && !S::printable(w.embed()) ==> (r matches Err(m2) && m2@
                            == S::print_err_spec(w.embed()) && (fv.se matches Some(Err(m)) && m
                            == m2@)))
                        &&& (r matches Ok(t) ==> (fv.se matches Some(Ok(t2)) && t2 == t@))
                        &&& (r matches Err(m2) ==> (fv.se matches Some(Err(m)) && m == m2@))
                    },
                    _ => true,
                },
            },
    {
        match &self.se {
            Some(Ok(s)) => Ok(s.clone()),
            Some(Err(m)) => Err(m.clone()),
            None => {
                let mut enc: Result<String, String> = Err(String::new());
                if let Some(Ok(w)) = &self.de {
                    let n = w.to_native();
                    enc = S::encode(&n);
                } else {
                    return unreached();
                }
                match enc {
                    Ok(t) => {
                        self.se = Some(Ok(t.clone()));
                        Ok(t)
                    },
                    Err(m) => {
                        self.se = Some(Err(m.clone()));
                        Err(m)
                    },
                }
            },
        }
    }
}

} // verus!
