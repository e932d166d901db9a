use freeform::{
    Freeform, FreeformErr, Json, Native, Ron, Sord, SordError, Toml, TypedKey, TypedSord,
};

fn k_i64(name: &str) -> TypedKey<i64> {
    TypedKey::new(name.to_string())
}

fn k_bool(name: &str) -> TypedKey<bool> {
    TypedKey::new(name.to_string())
}

fn k_str(name: &str) -> TypedKey<String> {
    TypedKey::new(name.to_string())
}

fn k_list(name: &str) -> TypedKey<Vec<String>> {
    TypedKey::new(name.to_string())
}

fn k_map(name: &str) -> TypedKey<Vec<(String, String)>> {
    TypedKey::new(name.to_string())
}

#[test]
fn round_trip_every_storable_type() {
    let mut ff = Freeform::<Json>::new();
    ff.put(&k_i64("n"), -12345).unwrap();
    ff.put(&k_bool("b"), true).unwrap();
    ff.put(&k_str("s"), "bon\"jour\nmonde".to_string()).unwrap();
    ff.put(&k_list("l"), vec!["a".to_string(), "b".to_string()]).unwrap();
    ff.put(&k_map("m"), vec![("x".to_string(), "1".to_string())]).unwrap();

    assert_eq!(-12345, ff.get_required(&k_i64("n")).unwrap());
    assert_eq!(true, ff.get_required(&k_bool("b")).unwrap());
    assert_eq!("bon\"jour\nmonde".to_string(), ff.get_required(&k_str("s")).unwrap());
    assert_eq!(vec!["a".to_string(), "b".to_string()], ff.get_required(&k_list("l")).unwrap());
    assert_eq!(
        vec![("x".to_string(), "1".to_string())],
        ff.get_required(&k_map("m")).unwrap()
    );
}

#[test]
fn round_trip_survives_serialization() {
    let mut ff = Freeform::<Json>::new();
    ff.put(&k_i64("n"), 7).unwrap();
    ff.put(&k_str("s"), "text with \"quotes\"".to_string()).unwrap();
    let text = ff.serialize().unwrap();
    let mut back = Freeform::<Json>::deserialize(text.as_str()).unwrap();
    assert_eq!(7, back.get_required(&k_i64("n")).unwrap());
    assert_eq!("text with \"quotes\"".to_string(), back.get_required(&k_str("s")).unwrap());
}

#[test]
fn representation_equivalence() {
    let mut from_text = Sord::<Json>::from_se("343".to_string());
    let mut from_value = Sord::<Json>::from_de(343i64);
    assert_eq!(from_text.de::<i64>().unwrap(), from_value.de::<i64>().unwrap());

    let mut text_str = Sord::<Json>::from_se("\"hello\"".to_string());
    let mut value_str = Sord::<Json>::from_de("hello".to_string());
    assert_eq!(text_str.de::<String>().unwrap(), value_str.de::<String>().unwrap());
}

#[test]
fn write_once_determinism() {
    let mut cell = Sord::<Json>::from_se("not json at all".to_string());
    let first = cell.de::<i64>();
    let second = cell.de::<i64>();
    assert!(first.is_err());
    assert_eq!(first, second);

    let mut good = Sord::<Json>::from_de(5i64);
    let s1 = good.se::<i64>().unwrap();
    let s2 = good.se::<i64>().unwrap();
    assert_eq!(s1, s2);
    assert_eq!(good.de::<i64>().unwrap(), good.de::<i64>().unwrap());
}

#[test]
fn wrong_type_cached_in_serialized_slot() {
    let mut cell = Sord::<Json>::from_de(5i64);
    let first = cell.se::<String>();
    assert_eq!(Err(SordError::WrongTypeError), first);
    let after = cell.se::<i64>();
    assert_eq!(Err(SordError::WrongTypeError), after);
}

#[test]
fn type_mismatch_is_non_fatal() {
    let mut cell = Sord::<Json>::from_de(42i64);
    assert!(matches!(cell.de::<String>(), Err(SordError::WrongTypeError)));
    assert_eq!(42, cell.de::<i64>().unwrap());
}

#[test]
fn aggregate_last_write_wins() {
    let mut f1 = Freeform::<Json>::new();
    f1.put(&k_i64("a"), 1).unwrap();
    let mut f2 = Freeform::<Json>::new();
    f2.put(&k_i64("a"), 2).unwrap();
    f2.put(&k_i64("b"), 3).unwrap();

    let mut merged = Freeform::aggregate(vec![f1, f2]).unwrap();
    assert_eq!(2, merged.get_required(&k_i64("a")).unwrap());
    assert_eq!(3, merged.get_required(&k_i64("b")).unwrap());
}

#[test]
fn aggregate_of_nothing_is_nothing() {
    let empty: Vec<Freeform<Json>> = Vec::new();
    assert!(Freeform::aggregate(empty).is_none());
}

#[test]
fn empty_collection_suppression() {
    let mut ff = Freeform::<Json>::new();
    let empty: Vec<String> = Vec::new();
    ff.put_nonempty(&k_list("xs"), empty).unwrap();
    assert!(ff.is_empty());
    ff.put_nonempty(&k_list("xs"), vec!["one".to_string()]).unwrap();
    assert!(!ff.is_empty());
    assert_eq!(vec!["one".to_string()], ff.get_required(&k_list("xs")).unwrap());
}

#[test]
fn nesting_serializes_flat() {
    let mut inner = Freeform::<Json>::new();
    inner.put(&k_i64("num"), 143).unwrap();
    let mut outer = Freeform::<Json>::new();
    outer.put(&k_i64("num"), 343).unwrap();
    outer.put(&TypedKey::<Freeform<Json>>::new("inner".to_string()), inner).unwrap();

    let text = outer.serialize().unwrap();
    assert_eq!("{\"inner\":{\"num\":143},\"num\":343}", text);

    let mut back = Freeform::<Json>::deserialize(text.as_str()).unwrap();
    assert_eq!(343, back.get_required(&k_i64("num")).unwrap());
    let mut inner_back = back
        .get_required(&TypedKey::<Freeform<Json>>::new("inner".to_string()))
        .unwrap();
    assert_eq!(143, inner_back.get_required(&k_i64("num")).unwrap());
}

#[test]
fn required_key_not_found() {
    let mut ff = Freeform::<Json>::new();
    assert_eq!(
        Err(FreeformErr::RequiredKeyNotFound("missing".to_string())),
        ff.get_required(&k_i64("missing"))
    );
    assert_eq!(Ok(None), ff.get_optional(&k_i64("missing")));
}

#[test]
fn key_type_mismatch_surfaces() {
    let mut ff = Freeform::<Json>::new();
    ff.put(&k_i64("n"), 1).unwrap();
    assert_eq!(Err(FreeformErr::KeyTypeDoesNotMatch), ff.get_required(&k_str("n")));
}

#[test]
fn scheme_error_surfaces_and_is_cached() {
    assert!(matches!(
        Freeform::<Json>::deserialize("this is not json"),
        Err(FreeformErr::SerdeError(_))
    ));
    assert!(matches!(
        Freeform::<Json>::deserialize("62"),
        Err(FreeformErr::SerdeError(_))
    ));

    let mut ff = Freeform::<Json>::deserialize("{\"n\": true}").unwrap();
    let first = ff.get_required(&k_i64("n"));
    let second = ff.get_required(&k_i64("n"));
    assert!(matches!(first, Err(FreeformErr::SerdeError(_))));
    assert_eq!(first, second);
}

#[test]
fn repeated_reads_agree() {
    let mut ff = Freeform::<Json>::deserialize("{\"n\": 5}").unwrap();
    let a = ff.get_required(&k_i64("n")).unwrap();
    let b = ff.get_required(&k_i64("n")).unwrap();
    assert_eq!(a, b);
    assert_eq!(5, a);
}

#[test]
fn defaults_fill_absent_keys() {
    let mut ff = Freeform::<Json>::new();
    assert_eq!(0, ff.get_cloned_or_default(&k_i64("absent")).unwrap());
    assert_eq!(String::new(), ff.get_owned_or_default(&k_str("absent")).unwrap());
    ff.put(&k_i64("present"), 9).unwrap();
    assert_eq!(9, ff.get_cloned_or_default(&k_i64("present")).unwrap());
}

#[test]
fn put_variants() {
    let mut ff = Freeform::<Json>::new();
    ff.put_optional(&k_i64("a"), None).unwrap();
    assert!(ff.is_empty());
    ff.put_optional(&k_i64("a"), Some(1)).unwrap();
    assert_eq!(1, ff.get_required(&k_i64("a")).unwrap());

    ff.put_ref(&k_i64("b"), &2).unwrap();
    assert_eq!(2, ff.get_required(&k_i64("b")).unwrap());

    ff.put_optional_ref(&k_i64("c"), None).unwrap();
    assert_eq!(Ok(None), ff.get_optional(&k_i64("c")));
    ff.put_optional_ref(&k_i64("c"), Some(&3)).unwrap();
    assert_eq!(3, ff.get_required(&k_i64("c")).unwrap());

    ff.put_nonempty_ref(&k_list("d"), &Vec::new()).unwrap();
    assert_eq!(Ok(None), ff.get_optional(&k_list("d")));
    ff.put_nonempty_ref(&k_list("d"), &vec!["x".to_string()]).unwrap();
    assert_eq!(vec!["x".to_string()], ff.get_required(&k_list("d")).unwrap());

    ff.put(&k_i64("a"), 10).unwrap();
    assert_eq!(10, ff.get_required(&k_i64("a")).unwrap());
}

#[test]
fn extend_prefers_the_newcomer() {
    let mut base = Freeform::<Json>::new();
    base.put(&k_i64("keep"), 1).unwrap();
    base.put(&k_i64("clash"), 2).unwrap();
    let mut incoming = Freeform::<Json>::new();
    incoming.put(&k_i64("clash"), 20).unwrap();
    incoming.put(&k_i64("fresh"), 30).unwrap();

    base.extend(incoming);
    assert_eq!(1, base.get_required(&k_i64("keep")).unwrap());
    assert_eq!(20, base.get_required(&k_i64("clash")).unwrap());
    assert_eq!(30, base.get_required(&k_i64("fresh")).unwrap());
}

#[test]
fn structured_value_view() {
    let cell = Sord::<Json>::from_se("343".to_string());
    assert!(matches!(cell.value(), Ok(Native::Int(343))));

    let typed_cell = Sord::<Json>::from_de(true);
    assert!(matches!(typed_cell.value(), Ok(Native::Bool(true))));

    let broken = Sord::<Json>::from_se("{oops".to_string());
    assert!(matches!(broken.value(), Err(SordError::SeDeError(_))));
}

#[test]
fn serialized_only_constructors() {
    let mut by_ref = Sord::<Json>::from_de_ref(&5i64).unwrap();
    assert_eq!("5".to_string(), by_ref.se::<i64>().unwrap());
    assert_eq!(5, by_ref.de::<i64>().unwrap());

    let mut by_value = Sord::<Json>::from_value(&Native::Int(7)).unwrap();
    assert_eq!("7".to_string(), by_value.se::<i64>().unwrap());
    assert_eq!(7, by_value.de::<i64>().unwrap());

    let key = TypedKey::<i64>::new("the name".to_string());
    assert_eq!("the name", key.name());
}

#[test]
fn typed_cell_round_trip() {
    let mut cell: TypedSord<String, Json> = TypedSord::from_de("hi".to_string());
    assert_eq!("\"hi\"".to_string(), cell.se().unwrap());
    assert_eq!("hi".to_string(), cell.de().unwrap());

    let mut text_cell: TypedSord<i64, Json> = TypedSord::from_se("99".to_string());
    assert_eq!(99, text_cell.de().unwrap());
    assert_eq!("99".to_string(), text_cell.se().unwrap());

    let mut bad: TypedSord<i64, Json> = TypedSord::from_se("true".to_string());
    let e1 = bad.de();
    let e2 = bad.de();
    assert!(e1.is_err());
    assert_eq!(e1, e2);
}

#[test]
fn erased_cell_into_typed() {
    let cell = Sord::<Json>::from_de(41i64);
    let mut typed: TypedSord<i64, Json> = cell.typed().unwrap();
    assert_eq!(41, typed.de().unwrap());

    let other = Sord::<Json>::from_de(41i64);
    assert!(other.typed::<String>().is_none());
}

#[test]
fn ron_scheme_escapes_strings() {
    let mut ff = Freeform::<Ron>::new();
    ff.put(&k_str("s"), "line one\n\"two\"".to_string()).unwrap();
    let text = ff.serialize().unwrap();
    let mut back = Freeform::<Ron>::deserialize(text.as_str()).unwrap();
    assert_eq!("line one\n\"two\"".to_string(), back.get_required(&k_str("s")).unwrap());
}

#[test]
fn toml_scheme_round_trips_tables() {
    let mut ff = Freeform::<Toml>::new();
    ff.put(&k_map("table"), vec![("a".to_string(), "1".to_string())]).unwrap();
    let text = ff.serialize().unwrap();
    let mut back = Freeform::<Toml>::deserialize(text.as_str()).unwrap();
    assert_eq!(
        vec![("a".to_string(), "1".to_string())],
        back.get_required(&k_map("table")).unwrap()
    );
}

#[test]
fn nested_container_reads_back_typed() {
    let mut inner = Freeform::<Toml>::new();
    inner.put(&k_i64("n"), 143).unwrap();
    inner.put(&k_str("s"), "deep".to_string()).unwrap();
    let mut outer = Freeform::<Toml>::new();
    outer.put(&TypedKey::<Freeform<Toml>>::new("inner".to_string()), inner).unwrap();

    let mut inner_back = outer
        .get_required(&TypedKey::<Freeform<Toml>>::new("inner".to_string()))
        .unwrap();
    assert_eq!(143, inner_back.get_required(&k_i64("n")).unwrap());
    assert_eq!("deep".to_string(), inner_back.get_required(&k_str("s")).unwrap());
    assert!(matches!(
        inner_back.get_required(&k_bool("n")),
        Err(FreeformErr::KeyTypeDoesNotMatch)
    ));
}

#[test]
fn shadowed_pairs_do_not_decide_printability() {
    let shadowed = Native::Obj(vec![
        ("a".to_string(), Native::Null),
        ("a".to_string(), Native::Int(1)),
    ]);
    let plain = Native::Obj(vec![("a".to_string(), Native::Int(1))]);
    let mut from_shadowed = Sord::<Toml>::from_value(&shadowed).unwrap();
    let mut from_plain = Sord::<Toml>::from_value(&plain).unwrap();
    assert_eq!(
        from_shadowed.se::<Vec<(String, String)>>(),
        from_plain.se::<Vec<(String, String)>>()
    );
    assert!(matches!(from_shadowed.value(), Ok(Native::Obj(_))));
}

#[test]
fn defaults_never_mask_errors() {
    let mut ff = Freeform::<Json>::new();
    ff.put(&k_i64("n"), 1).unwrap();
    assert_eq!(
        Err(FreeformErr::KeyTypeDoesNotMatch),
        ff.get_cloned_or_default(&k_str("n"))
    );
    let mut bad = Freeform::<Json>::deserialize("{\"n\": true}").unwrap();
    assert!(matches!(
        bad.get_owned_or_default(&k_i64("n")),
        Err(FreeformErr::SerdeError(_))
    ));
}

#[test]
fn printing_is_deterministic() {
    let mut ff = Freeform::<Json>::new();
    ff.put(&k_i64("n"), 21).unwrap();
    ff.put(&k_str("s"), "same".to_string()).unwrap();
    assert_eq!(ff.serialize().unwrap(), ff.serialize().unwrap());

    let mut cell = Sord::<Json>::from_de(21i64);
    assert!(matches!(cell.value(), Ok(Native::Int(21))));
    assert!(matches!(cell.value(), Ok(Native::Int(21))));
    assert_eq!(cell.se::<i64>().unwrap(), "21".to_string());
}

#[test]
fn entries_can_be_listed() {
    let mut ff = Freeform::<Json>::new();
    ff.put(&k_i64("one"), 1).unwrap();
    ff.put(&k_str("two"), "2".to_string()).unwrap();
    let mut names = ff.keys();
    names.sort();
    assert_eq!(vec!["one".to_string(), "two".to_string()], names);

    let entries = ff.into_entries();
    assert_eq!(2, entries.len());
    let mut entry_names: Vec<String> = entries.iter().map(|(k, _)| k.clone()).collect();
    entry_names.sort();
    assert_eq!(vec!["one".to_string(), "two".to_string()], entry_names);
}

#[test]
fn toml_scheme_refuses_bare_scalars() {
    let mut ff = Freeform::<Toml>::new();
    ff.put(&k_i64("n"), 1).unwrap();
    assert_eq!(1, ff.get_required(&k_i64("n")).unwrap());
    assert!(matches!(ff.serialize(), Err(FreeformErr::SerdeError(_))));
}
