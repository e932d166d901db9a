use freeform::{Freeform, Json, Ron, TypedKey};

fn test_map() -> Vec<(String, String)> {
    [("foo", "FOO"), ("bar", "BAR"), ("hello", "bonjour")]
        .iter()
        .map(|(k, v)| (k.to_string(), v.to_string()))
        .collect()
}

fn num_key() -> TypedKey<i64> {
    TypedKey::new("num".to_string())
}

fn map_key() -> TypedKey<Vec<(String, String)>> {
    TypedKey::new("map".to_string())
}

#[test]
pub fn freeform_basic_test() {
    let mut freeform = Freeform::<Json>::new();
    let ff_key: TypedKey<Freeform<Json>> = TypedKey::new("ff".to_string());
    freeform.put(&num_key(), 343).unwrap();
    freeform.put(&map_key(), test_map()).unwrap();
    freeform
        .put(&ff_key, {
            let mut metadata = Freeform::<Json>::new();
            metadata.put(&num_key(), 143).unwrap();
            metadata
        })
        .unwrap();

    let result = freeform.serialize().unwrap();

    assert_eq!(
        "{\"ff\":{\"num\":143},\"map\":{\"bar\":\"BAR\",\"foo\":\"FOO\",\"hello\":\"bonjour\"},\"num\":343}",
        result
    );
}

#[test]
pub fn lib_basic_test() {
    let mut freeform = Freeform::<Json>::new();
    let ff_key: TypedKey<Freeform<Json>> = TypedKey::new("ff".to_string());
    freeform.put(&num_key(), 343).unwrap();
    freeform.put(&map_key(), test_map()).unwrap();
    freeform
        .put(&ff_key, {
            let mut metadata = Freeform::<Json>::new();
            metadata.put(&num_key(), 143).unwrap();
            metadata
        })
        .unwrap();

    let serialized = freeform.serialize().unwrap();
    let mut back = Freeform::<Json>::deserialize(serialized.as_str()).unwrap();

    assert_eq!(343, back.get_required(&num_key()).unwrap());
    let mut got_map = back.get_required(&map_key()).unwrap();
    got_map.sort();
    let mut want_map = test_map();
    want_map.sort();
    assert_eq!(want_map, got_map);
    let mut inner = back.get_required(&ff_key).unwrap();
    assert_eq!(Some(143), inner.get_optional(&num_key()).unwrap());
    assert_eq!(None, inner.get_optional(&map_key()).unwrap());
}

#[test]
pub fn freeform_ron_test() {
    let mut freeform = Freeform::<Ron>::new();
    let ff_key: TypedKey<Freeform<Ron>> = TypedKey::new("ff".to_string());

    freeform.put(&num_key(), 62).unwrap();
    freeform.put(&map_key(), test_map()).unwrap();
    let mut ff: Freeform<Ron> = Freeform::new();
    ff.put(&num_key(), 143).unwrap();
    freeform.put(&ff_key, ff).unwrap();

    let serialized = freeform.serialize().unwrap();
    let mut back = Freeform::<Ron>::deserialize(serialized.as_str()).unwrap();

    assert_eq!(62, back.get_required(&num_key()).unwrap());
    let mut got_map = back.get_required(&map_key()).unwrap();
    got_map.sort();
    let mut want_map = test_map();
    want_map.sort();
    assert_eq!(want_map, got_map);
    let mut inner = back.get_required(&ff_key).unwrap();
    assert_eq!(Some(143), inner.get_optional(&num_key()).unwrap());
    assert_eq!(None, inner.get_optional(&map_key()).unwrap());
}

#[test]
pub fn lib_ron_test() {
    let mut freeform = Freeform::<Ron>::new();
    let ff_key: TypedKey<Freeform<Ron>> = TypedKey::new("ff".to_string());

    freeform.put(&num_key(), 62).unwrap();
    freeform.put(&map_key(), test_map()).unwrap();
    let mut ff: Freeform<Ron> = Freeform::new();
    ff.put(&num_key(), 143).unwrap();
    freeform.put(&ff_key, ff).unwrap();

    assert_eq!(62, freeform.get_required(&num_key()).unwrap());
    assert_eq!(test_map(), freeform.get_required(&map_key()).unwrap());
    let mut inner = freeform.get_required(&ff_key).unwrap();
    assert_eq!(Some(143), inner.get_optional(&num_key()).unwrap());
    assert_eq!(None, inner.get_optional(&map_key()).unwrap());
}
