//! Pluggable serialization schemes: text <-> structured value, for a
//! JSON-like, a RON-like and a TOML-like format.
//!
//! Each scheme is described to the verifier by named, otherwise
//! uninterpreted functions: whether a value can be printed at all
//! (`*_printable`), the text the printer produces (`*_print_of`), what a
//! given text parses to (`*_parse_of`), and the messages the printer and
//! reader give where they refuse (`*_print_err_of`, `*_parse_err_of`).
//! All three formats print objects as ordered maps, so printed text and
//! messages are genuine functions of their arguments. The trusted
//! wrappers below tie the outside calls to those names; everything above
//! this module is verified against the `SerdeScheme` contract alone.
//!
//! One more name per scheme, `*_reparsable`, guards the round-trip fact:
//! the text printed for a value parses back to that value. The guard exists
//! because each format's reader has limits its writer does not share (for
//! example a nesting-depth ceiling), so the round trip is not owed for every
//! printable value.

use vstd::prelude::*;

use crate::native::{Native, NativeVal};

verus! {

/// Whether serde_json can print this value; true of every tree this crate
/// builds, but left abstract rather than promised.
pub uninterp spec fn json_printable(v: NativeVal) -> bool;

/// What a JSON text parses to, or `None` when serde_json rejects it or the
/// tree holds a number outside i64.
pub uninterp spec fn json_parse_of(s: Seq<char>) -> Option<NativeVal>;

/// The text serde_json prints for this value: objects are key-ordered
/// maps, so the printer is a pure function of the value's semantic form.
pub uninterp spec fn json_print_of(v: NativeVal) -> Seq<char>;

/// The message the JSON reader gives for a text it rejects (or that holds
/// a number this crate does not model); a pure function of the text.
pub uninterp spec fn json_parse_err_of(s: Seq<char>) -> Seq<char>;

/// The message the JSON printer gives for a value it rejects; a pure
/// function of the value's semantic form.
pub uninterp spec fn json_print_err_of(v: NativeVal) -> Seq<char>;

/// Whether a printed form of this value parses back to it (serde_json's
/// reader enforces a nesting-depth ceiling that its writer does not).
pub uninterp spec fn json_reparsable(v: NativeVal) -> bool;

/// Whether ron can print this value.
pub uninterp spec fn ron_printable(v: NativeVal) -> bool;

/// What a RON text parses to, or `None` when ron rejects it or it holds a
/// form this crate does not model (a float, a char, bytes, an option).
pub uninterp spec fn ron_parse_of(s: Seq<char>) -> Option<NativeVal>;

/// The text ron prints for this value: its maps are key-ordered, so the
/// printer is a pure function of the value's semantic form.
pub uninterp spec fn ron_print_of(v: NativeVal) -> Seq<char>;

/// The message the RON reader gives for a text it rejects (or that holds
/// a form this crate does not model); a pure function of the text.
pub uninterp spec fn ron_parse_err_of(s: Seq<char>) -> Seq<char>;

/// The message the RON printer gives for a value it rejects; a pure
/// function of the value's semantic form.
pub uninterp spec fn ron_print_err_of(v: NativeVal) -> Seq<char>;

/// Whether a printed form of this value parses back to it.
pub uninterp spec fn ron_reparsable(v: NativeVal) -> bool;

/// Whether toml can print this value: TOML has no null and wants a table at
/// the top, so this is false of many values the other schemes accept.
pub uninterp spec fn toml_printable(v: NativeVal) -> bool;

/// What a TOML text parses to, or `None` when toml rejects it or it holds a
/// form this crate does not model (a float, a datetime).
pub uninterp spec fn toml_parse_of(s: Seq<char>) -> Option<NativeVal>;

/// The text toml prints for this value: its tables are key-ordered, so
/// the printer is a pure function of the value's semantic form.
pub uninterp spec fn toml_print_of(v: NativeVal) -> Seq<char>;

/// The message the TOML reader gives for a text it rejects (or that holds
/// a form this crate does not model); a pure function of the text.
pub uninterp spec fn toml_parse_err_of(s: Seq<char>) -> Seq<char>;

/// The message the TOML printer gives for a value it rejects; a pure
/// function of the value's semantic form.
pub uninterp spec fn toml_print_err_of(v: NativeVal) -> Seq<char>;

/// Whether a printed form of this value parses back to it.
pub uninterp spec fn toml_reparsable(v: NativeVal) -> bool;

/// A stateless text format: it prints a structured value as text and parses
/// text back into a structured value.
///
/// The spec functions are the format's mathematical face: `printable`
/// says which values the printer accepts, `print_spec` the text it then
/// produces, `parse_spec` what the reader makes of a text. `encode` and
/// `decode` are exact against them, except that the print-then-parse round
/// trip is only owed where `reparsable` holds.
pub trait SerdeScheme: Sized {
    /// Which values the printer accepts.
    spec fn printable(v: NativeVal) -> bool;

    /// The text the printer produces for a value it accepts.
    spec fn print_spec(v: NativeVal) -> Seq<char>;

    /// What a text parses to.
    spec fn parse_spec(s: Seq<char>) -> Option<NativeVal>;

    /// The reader's message for a text it rejects.
    spec fn parse_err_spec(s: Seq<char>) -> Seq<char>;

    /// The printer's message for a value it rejects.
    spec fn print_err_spec(v: NativeVal) -> Seq<char>;

    /// For which values the printed text parses back to the value itself.
    spec fn reparsable(v: NativeVal) -> bool;

    /// Print a value as text.
    fn encode(v: &Native) -> (r: Result<String, String>)
        ensures
            r is Ok <==> Self::printable(v@),
            r matches Ok(t) ==> t@ == Self::print_spec(v@),
            r matches Err(m) ==> m@ == Self::print_err_spec(v@),
            r matches Ok(t) ==> Self::reparsable(v@) ==> Self::parse_spec(t@) == Some(v@),
    ;

    /// Parse text into a value.
    fn decode(s: &str) -> (r: Result<Native, String>)
        ensures
            match Self::parse_spec(s@) {
                Some(n) => r matches Ok(m) && m@ == n,
                None => r matches Err(m) && m@ == Self::parse_err_spec(s@),
            },
    ;
}

/// The JSON-like scheme, backed by serde_json.
#[derive(Clone, Copy, Debug, Default)]
pub struct Json;

/// The RON-like scheme, backed by ron.
#[derive(Clone, Copy, Debug, Default)]
pub struct Ron;

/// The TOML-like scheme, backed by toml.
#[derive(Clone, Copy, Debug, Default)]
pub struct Toml;

impl SerdeScheme for Json {
    open spec fn printable(v: NativeVal) -> bool {
        json_printable(v)
    }

    open spec fn print_spec(v: NativeVal) -> Seq<char> {
        json_print_of(v)
    }

    open spec fn parse_spec(s: Seq<char>) -> Option<NativeVal> {
        json_parse_of(s)
    }

    open spec fn parse_err_spec(s: Seq<char>) -> Seq<char> {
        json_parse_err_of(s)
    }

    open spec fn print_err_spec(v: NativeVal) -> Seq<char> {
        json_print_err_of(v)
    }

    open spec fn reparsable(v: NativeVal) -> bool {
        json_reparsable(v)
    }

    fn encode(v: &Native) -> (r: Result<String, String>) {
        json_encode(v)
    }

    fn decode(s: &str) -> (r: Result<Native, String>) {
        json_decode(s)
    }
}

impl SerdeScheme for Ron {
    open spec fn printable(v: NativeVal) -> bool {
        ron_printable(v)
    }

    open spec fn print_spec(v: NativeVal) -> Seq<char> {
        ron_print_of(v)
    }

    open spec fn parse_spec(s: Seq<char>) -> Option<NativeVal> {
        ron_parse_of(s)
    }

    open spec fn parse_err_spec(s: Seq<char>) -> Seq<char> {
        ron_parse_err_of(s)
    }

    open spec fn print_err_spec(v: NativeVal) -> Seq<char> {
        ron_print_err_of(v)
    }

    open spec fn reparsable(v: NativeVal) -> bool {
        ron_reparsable(v)
    }

    fn encode(v: &Native) -> (r: Result<String, String>) {
        ron_encode(v)
    }

    fn decode(s: &str) -> (r: Result<Native, String>) {
        ron_decode(s)
    }
}

impl SerdeScheme for Toml {
    open spec fn printable(v: NativeVal) -> bool {
        toml_printable(v)
    }

    open spec fn print_spec(v: NativeVal) -> Seq<char> {
        toml_print_of(v)
    }

    open spec fn parse_spec(s: Seq<char>) -> Option<NativeVal> {
        toml_parse_of(s)
    }

    open spec fn parse_err_spec(s: Seq<char>) -> Seq<char> {
        toml_parse_err_of(s)
    }

    open spec fn print_err_spec(v: NativeVal) -> Seq<char> {
        toml_print_err_of(v)
    }

    open spec fn reparsable(v: NativeVal) -> bool {
        toml_reparsable(v)
    }

    fn encode(v: &Native) -> (r: Result<String, String>) {
        toml_encode(v)
    }

    fn decode(s: &str) -> (r: Result<Native, String>) {
        toml_decode(s)
    }
}

#[verifier::external_type_specification]
#[verifier::external_body]
pub struct ExJsonValue(serde_json::Value);

#[verifier::external_type_specification]
#[verifier::external_body]
pub struct ExRonValue(ron::Value);

#[verifier::external_type_specification]
#[verifier::external_body]
pub struct ExTomlValue(toml::Value);

/// Relies on serde_json::to_string: printing a JSON tree mirrored
/// one-for-one from `v`, deterministically (objects are key-ordered maps);
/// per serde_json, a tree it printed parses back to the same tree up to
/// its reader's nesting-depth ceiling.
#[verifier::external_body]
fn json_encode(v: &Native) -> (r: Result<String, String>)
    ensures
        r is Ok <==> json_printable(v@),
        r matches Ok(t) ==> t@ == json_print_of(v@),
        r matches Err(m) ==> m@ == json_print_err_of(v@),
        r matches Ok(t) ==> json_reparsable(v@) ==> json_parse_of(t@) == Some(v@),
{
    serde_json::to_string(&native_to_json(v)).map_err(|e| e.to_string())
}

/// Relies on serde_json::from_str: parsing text into a JSON tree, read back
/// one-for-one; a number outside i64 counts as unparsable.
#[verifier::external_body]
fn json_decode(s: &str) -> (r: Result<Native, String>)
    ensures
        match json_parse_of(s@) {
            Some(n) => r matches Ok(m) && m@ == n,
            None => r matches Err(m) && m@ == json_parse_err_of(s@),
        },
{
    match serde_json::from_str::<serde_json::Value>(s) {
        Ok(v) => json_to_native(&v).ok_or_else(|| "number out of range".to_string()),
        Err(e) => Err(e.to_string()),
    }
}

/// Mirrors a value tree into serde_json's tree, one variant for one variant.
#[verifier::external_body]
fn native_to_json(v: &Native) -> (r: serde_json::Value) {
    match v {
        Native::Null => serde_json::Value::Null,
        Native::Bool(b) => serde_json::Value::Bool(*b),
        Native::Int(i) => serde_json::Value::Number(serde_json::Number::from(*i)),
        Native::Str(s) => serde_json::Value::String(s.clone()),
        Native::List(xs) => serde_json::Value::Array(xs.iter().map(native_to_json).collect()),
        Native::Obj(es) => serde_json::Value::Object(es.iter().map(|(k, x)| (k.clone(), native_to_json(x))).collect()),
    }
}

/// Reads serde_json's tree back, one variant for one variant; `None` on a
/// number that does not fit i64.
#[verifier::external_body]
fn json_to_native(v: &serde_json::Value) -> (r: Option<Native>) {
    Some(match v {
        serde_json::Value::Null => Native::Null,
        serde_json::Value::Bool(b) => Native::Bool(*b),
        serde_json::Value::Number(n) => Native::Int(n.as_i64()?),
        serde_json::Value::String(s) => Native::Str(s.clone()),
        serde_json::Value::Array(a) => Native::List(a.iter().map(json_to_native).collect::<Option<Vec<_>>>()?),
        serde_json::Value::Object(o) => Native::Obj(o.iter().map(|(k, x)| Some((k.clone(), json_to_native(x)?))).collect::<Option<Vec<_>>>()?),
    })
}

/// Relies on ron::to_string: printing a RON tree mirrored one-for-one from
/// `v`; per ron, a tree it printed parses back to the same map content.
#[verifier::external_body]
fn ron_encode(v: &Native) -> (r: Result<String, String>)
    ensures
        r is Ok <==> ron_printable(v@),
        r matches Ok(t) ==> t@ == ron_print_of(v@),
        r matches Err(m) ==> m@ == ron_print_err_of(v@),
        r matches Ok(t) ==> ron_reparsable(v@) ==> ron_parse_of(t@) == Some(v@),
{
    ron::to_string(&native_to_ron(v)).map_err(|e| e.to_string())
}

/// Relies on ron::from_str: parsing text into a RON tree, read back
/// one-for-one; floats, chars, bytes, options and non-string map keys count
/// as unparsable.
#[verifier::external_body]
fn ron_decode(s: &str) -> (r: Result<Native, String>)
    ensures
        match ron_parse_of(s@) {
            Some(n) => r matches Ok(m) && m@ == n,
            None => r matches Err(m) && m@ == ron_parse_err_of(s@),
        },
{
    match ron::from_str::<ron::Value>(s) {
        Ok(v) => ron_to_native(&v).ok_or_else(|| "unsupported value".to_string()),
        Err(e) => Err(e.to_string()),
    }
}

/// Mirrors a value tree into ron's tree, one variant for one variant; null
/// becomes the unit value.
#[verifier::external_body]
fn native_to_ron(v: &Native) -> (r: ron::Value) {
    match v {
        Native::Null => ron::Value::Unit,
        Native::Bool(b) => ron::Value::Bool(*b),
        Native::Int(i) => ron::Value::Number(ron::Number::I64(*i)),
        Native::Str(s) => ron::Value::String(s.clone()),
        Native::List(xs) => ron::Value::Seq(xs.iter().map(native_to_ron).collect()),
        Native::Obj(es) => ron::Value::Map(es.iter().map(|(k, x)| (ron::Value::String(k.clone()), native_to_ron(x))).collect()),
    }
}

/// Reads ron's tree back, one variant for one variant; `None` on any form
/// this crate does not model.
#[verifier::external_body]
fn ron_to_native(v: &ron::Value) -> (r: Option<Native>) {
    Some(match v {
        ron::Value::Unit => Native::Null,
        ron::Value::Bool(b) => Native::Bool(*b),
        ron::Value::Number(n) => Native::Int(ron_number_to_i64(n)?),
        ron::Value::String(s) => Native::Str(s.clone()),
        ron::Value::Seq(xs) => Native::List(xs.iter().map(ron_to_native).collect::<Option<Vec<_>>>()?),
        ron::Value::Map(m) => Native::Obj(m.iter().map(|(k, x)| match k { ron::Value::String(ks) => Some((ks.clone(), ron_to_native(x)?)), _ => None }).collect::<Option<Vec<_>>>()?),
        _ => return None,
    })
}

#[verifier::external_type_specification]
#[verifier::external_body]
pub struct ExRonNumber(ron::Number);

/// Reads any of ron's integer widths as an i64; `None` on floats and on
/// u64 values beyond i64's range.
#[verifier::external_body]
fn ron_number_to_i64(n: &ron::Number) -> (r: Option<i64>) {
    match *n {
        ron::Number::I8(v) => Some(v as i64),
        ron::Number::I16(v) => Some(v as i64),
        ron::Number::I32(v) => Some(v as i64),
        ron::Number::I64(v) => Some(v),
        ron::Number::U8(v) => Some(v as i64),
        ron::Number::U16(v) => Some(v as i64),
        ron::Number::U32(v) => Some(v as i64),
        ron::Number::U64(v) => i64::try_from(v).ok(),
        _ => None,
    }
}

/// Relies on toml::to_string: printing a TOML document mirrored one-for-one
/// from `v`; only a table can stand at the top and nulls have no TOML form.
#[verifier::external_body]
fn toml_encode(v: &Native) -> (r: Result<String, String>)
    ensures
        r is Ok <==> toml_printable(v@),
        r matches Ok(t) ==> t@ == toml_print_of(v@),
        r matches Err(m) ==> m@ == toml_print_err_of(v@),
        r matches Ok(t) ==> toml_reparsable(v@) ==> toml_parse_of(t@) == Some(v@),
{
    match native_to_toml(v) {
        Some(tv) => toml::to_string(&tv).map_err(|e| e.to_string()),
        None => Err("value has no TOML form".to_string()),
    }
}

/// Relies on toml::from_str: parsing a TOML document, read back one-for-one;
/// floats and datetimes count as unparsable.
#[verifier::external_body]
fn toml_decode(s: &str) -> (r: Result<Native, String>)
    ensures
        match toml_parse_of(s@) {
            Some(n) => r matches Ok(m) && m@ == n,
            None => r matches Err(m) && m@ == toml_parse_err_of(s@),
        },
{
    match toml::from_str::<toml::Value>(s) {
        Ok(v) => toml_to_native(&v).ok_or_else(|| "unsupported value".to_string()),
        Err(e) => Err(e.to_string()),
    }
}

/// Mirrors a value tree into toml's tree, one variant for one variant;
/// `None` on a null anywhere in the tree. Repeated object keys collapse
/// (later pairs win) before any value is converted, so failure depends
/// only on the values the object denotes.
#[verifier::external_body]
fn native_to_toml(v: &Native) -> (r: Option<toml::Value>) {
    Some(match v {
        Native::Null => return None,
        Native::Bool(b) => (*b).into(),
        Native::Int(i) => (*i).into(),
        Native::Str(s) => s.clone().into(),
        Native::List(xs) => toml::Value::Array(xs.iter().map(native_to_toml).collect::<Option<Vec<_>>>()?),
        Native::Obj(es) => {
            let mut kept = std::collections::BTreeMap::new();
            for (k, x) in es {
                kept.insert(k, x);
            }
            toml::Value::Table(kept.into_iter().map(|(k, x)| Some((k.clone(), native_to_toml(x)?))).collect::<Option<toml::Table>>()?)
        },
    })
}

/// Reads toml's tree back, one variant for one variant; `None` on floats
/// and datetimes.
#[verifier::external_body]
fn toml_to_native(v: &toml::Value) -> (r: Option<Native>) {
    Some(match v {
        toml::Value::String(s) => Native::Str(s.clone()),
        toml::Value::Integer(i) => Native::Int(*i),
        toml::Value::Boolean(b) => Native::Bool(*b),
        toml::Value::Array(a) => Native::List(a.iter().map(toml_to_native).collect::<Option<Vec<_>>>()?),
        toml::Value::Table(t) => Native::Obj(t.iter().map(|(k, x)| Some((k.clone(), toml_to_native(x)?))).collect::<Option<Vec<_>>>()?),
        _ => return None,
    })
}

} // verus!
