use freeform::{Freeform, Json, Sord, SordError, TypedKey};

const SERIALIZED: &str = "{\"count\":8,\"name\":\"Test\"}";

fn name_key() -> TypedKey<String> {
    TypedKey::new("name".to_string())
}

fn count_key() -> TypedKey<i64> {
    TypedKey::new("count".to_string())
}

fn test_obj() -> Freeform<Json> {
    let mut ff = Freeform::<Json>::new();
    ff.put(&name_key(), "Test".to_string()).unwrap();
    ff.put(&count_key(), 8).unwrap();
    ff
}

fn check_obj(got: &mut Freeform<Json>) {
    assert_eq!("Test".to_string(), got.get_required(&name_key()).unwrap());
    assert_eq!(8, got.get_required(&count_key()).unwrap());
}

#[test]
fn sord_testing_from_de() {
    let mut sord = Sord::<Json>::from_de(test_obj());
    let mut got: Freeform<Json> = sord.de().expect("deserialized should exist");
    check_obj(&mut got);
    assert_eq!(
        SERIALIZED,
        sord.se::<Freeform<Json>>().expect("should serialize successfully")
    );
    assert!(matches!(sord.de::<String>(), Err(SordError::WrongTypeError)));
}

#[test]
fn sord_testing_from_se() {
    let mut sord = Sord::<Json>::from_se(SERIALIZED.to_string());
    assert_eq!(
        SERIALIZED,
        sord.se::<Freeform<Json>>().expect("serialized should exist")
    );
    let mut got: Freeform<Json> = sord.de().expect("should deserialize succcessfully");
    check_obj(&mut got);
    assert!(matches!(sord.de::<String>(), Err(SordError::WrongTypeError)));
}
