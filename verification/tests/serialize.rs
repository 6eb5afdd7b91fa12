use likemod::params_to_string;
use likemod::ModParamValue;
use likemod::ModParams;

#[test]
fn test_params_to_string() {
    {
        let p0 = ModParams::new();
        assert_eq!(params_to_string(&p0), "".to_owned());
    }
    {
        let mut p1 = ModParams::new();
        p1.insert("foo".to_owned(), ModParamValue::Bool(true));
        assert_eq!(params_to_string(&p1), "foo=true".to_owned());
    }
    {
        let mut p2 = ModParams::new();
        p2.insert("bar".to_owned(), ModParamValue::Int(-17));
        assert_eq!(params_to_string(&p2), "bar=-17".to_owned());
    }
    {
        let mut p3 = ModParams::new();
        p3.insert("bar".to_owned(), ModParamValue::Int(42));
        p3.insert("foo".to_owned(), ModParamValue::Bool(true));
        assert_eq!(params_to_string(&p3), "bar=42 foo=true".to_owned());
    }
    {
        let mut p4 = ModParams::new();
        p4.insert("bar".to_owned(), ModParamValue::Int(42));
        p4.insert("foo".to_owned(), ModParamValue::Str("quz".to_string()));
        assert_eq!(params_to_string(&p4), "bar=42 foo=quz".to_owned());
    }
    {
        let mut p5 = ModParams::new();
        p5.insert("bar".to_owned(), ModParamValue::Int(42));
        p5.insert(
            "foo".to_owned(),
            ModParamValue::Array(vec![ModParamValue::Int(42), ModParamValue::Int(99)]),
        );
        assert_eq!(params_to_string(&p5), "bar=42 foo=42,99".to_owned());
    }
}

#[test]
fn insertion_order_does_not_matter() {
    let mut a = ModParams::new();
    a.insert("foo".to_owned(), ModParamValue::Bool(true));
    a.insert("bar".to_owned(), ModParamValue::Int(42));
    a.insert("baz".to_owned(), ModParamValue::Str("x".to_owned()));

    let mut b = ModParams::new();
    b.insert("baz".to_owned(), ModParamValue::Str("x".to_owned()));
    b.insert("bar".to_owned(), ModParamValue::Int(42));
    b.insert("foo".to_owned(), ModParamValue::Bool(true));

    assert_eq!(params_to_string(&a), params_to_string(&b));
    assert_eq!(params_to_string(&a), "bar=42 baz=x foo=true".to_owned());
}

#[test]
fn insert_replaces_and_returns_previous() {
    let mut p = ModParams::new();
    assert!(p.insert("bar".to_owned(), ModParamValue::Int(1)).is_none());
    let prev = p.insert("bar".to_owned(), ModParamValue::Int(2));
    assert!(matches!(prev, Some(ModParamValue::Int(1))));
    assert_eq!(p.len(), 1);
    assert_eq!(params_to_string(&p), "bar=2".to_owned());
}

#[test]
fn bool_false_serializes() {
    let mut p = ModParams::new();
    p.insert("foo".to_owned(), ModParamValue::Bool(false));
    assert_eq!(params_to_string(&p), "foo=false".to_owned());
}

#[test]
fn extreme_integers_serialize() {
    assert_eq!(ModParamValue::Int(i64::MIN).to_string(), "-9223372036854775808");
    assert_eq!(ModParamValue::Int(i64::MAX).to_string(), "9223372036854775807");
    assert_eq!(ModParamValue::Int(0).to_string(), "0");
    assert_eq!(ModParamValue::Int(-1).to_string(), "-1");
    assert_eq!(ModParamValue::Int(100).to_string(), "100");
}

#[test]
fn empty_value_entry_has_no_equals_sign() {
    let mut p = ModParams::new();
    p.insert("quiet".to_owned(), ModParamValue::Str(String::new()));
    p.insert("bar".to_owned(), ModParamValue::Int(7));
    assert_eq!(params_to_string(&p), "bar=7 quiet".to_owned());
}

#[test]
fn empty_array_serializes_to_empty() {
    assert_eq!(ModParamValue::Array(vec![]).to_string(), "");
    let mut p = ModParams::new();
    p.insert("foo".to_owned(), ModParamValue::Array(vec![]));
    assert_eq!(params_to_string(&p), "foo".to_owned());
}

#[test]
fn nested_arrays_serialize() {
    let v = ModParamValue::Array(vec![
        ModParamValue::Array(vec![ModParamValue::Int(1), ModParamValue::Int(2)]),
        ModParamValue::Bool(false),
        ModParamValue::Str("z".to_owned()),
    ]);
    assert_eq!(v.to_string(), "1,2,false,z");
}

#[test]
fn array_separator_skipped_while_text_empty() {
    let leading = ModParamValue::Array(vec![
        ModParamValue::Str(String::new()),
        ModParamValue::Int(5),
    ]);
    assert_eq!(leading.to_string(), "5");
    let trailing = ModParamValue::Array(vec![
        ModParamValue::Int(5),
        ModParamValue::Str(String::new()),
    ]);
    assert_eq!(trailing.to_string(), "5,");
}

#[test]
fn string_values_pass_verbatim() {
    assert_eq!(ModParamValue::Str("no escaping: a=b,c d".to_owned()).to_string(), "no escaping: a=b,c d");
}

#[test]
fn get_returns_stored_values() {
    let mut p = ModParams::new();
    assert!(p.get("foo").is_none());
    p.insert("foo".to_owned(), ModParamValue::Int(3));
    p.insert("bar".to_owned(), ModParamValue::Bool(true));
    assert!(matches!(p.get("foo"), Some(ModParamValue::Int(3))));
    assert!(matches!(p.get("bar"), Some(ModParamValue::Bool(true))));
    assert!(p.get("baz").is_none());
}
