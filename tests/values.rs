use jml_eval::context::{Binding, Context};
use jml_eval::errors::RuntimeErrorKind;
use jml_eval::jml_type::JmlType;
use jml_eval::value::{
    Builtin, JmlBool, JmlFloat, JmlInt, JmlLambda, JmlList, JmlObject, JmlString, JmlValue,
    LambdaBody,
};

#[test]
fn type_predicates() {
    let all = [
        JmlType::Null,
        JmlType::String,
        JmlType::Bool,
        JmlType::Int,
        JmlType::Float,
        JmlType::List,
        JmlType::Object,
        JmlType::Lambda { arity: 2 },
    ];
    let ord: Vec<bool> = all.iter().map(|t| t.is_ord()).collect();
    assert_eq!(ord, vec![true, true, true, true, true, false, false, false]);
    let comparable: Vec<bool> = all.iter().map(|t| t.is_comparable()).collect();
    assert_eq!(comparable, vec![true, true, true, true, true, true, true, false]);
    let number: Vec<bool> = all.iter().map(|t| t.is_number()).collect();
    assert_eq!(number, vec![false, false, false, true, true, false, false, false]);
    let boolean: Vec<bool> = all.iter().map(|t| t.is_bool()).collect();
    assert_eq!(boolean, vec![false, false, true, false, false, false, false, false]);
}

#[test]
fn truthiness_and_zero() {
    assert!(JmlBool(true).is_truthy());
    assert!(!JmlBool(false).is_truthy());
    assert!(JmlValue::bool(true).is_truthy());
    assert!(!JmlValue::integer(1).is_truthy());
    assert!(!JmlValue::list(vec![JmlValue::bool(true)]).is_truthy());
    assert!(JmlValue::integer(0).is_zero());
    assert!(JmlValue::float(0.0f64.to_bits()).is_zero());
    assert!(JmlValue::float((-0.0f64).to_bits()).is_zero());
    assert!(!JmlValue::float(1e-300f64.to_bits()).is_zero());
    assert!(!JmlValue::string("0".to_string()).is_zero());
}

#[test]
fn negation_of_numbers() {
    assert_eq!(JmlInt(5).negative(), JmlInt(-5));
    assert_eq!(JmlInt(i64::MAX).negative(), JmlInt(-i64::MAX));
    assert_eq!(JmlFloat(2.5f64.to_bits()).negative(), JmlFloat((-2.5f64).to_bits()));
    assert_eq!(JmlFloat(0.0f64.to_bits()).negative(), JmlFloat((-0.0f64).to_bits()));
}

#[test]
fn type_of_values() {
    assert_eq!(JmlValue::null().type_of(), JmlType::Null);
    assert_eq!(JmlValue::string("x".to_string()).type_of(), JmlType::String);
    assert_eq!(JmlValue::float(1.0f64.to_bits()).type_of(), JmlType::Float);
    let f = JmlValue::Lambda(JmlLambda {
        params: vec!["a".to_string(), "b".to_string(), "c".to_string()],
        body: LambdaBody::Native(Builtin::ReduceList),
    });
    assert_eq!(f.type_of(), JmlType::Lambda { arity: 3 });
    assert!(!f.is_ord());
    assert!(!f.is_comparable());
    assert!(JmlValue::integer(3).is_number());
    assert!(JmlValue::bool(false).is_bool());
}

#[test]
fn equality_of_values() {
    let nan = JmlValue::float(f64::NAN.to_bits());
    assert_ne!(nan, nan.clone());
    assert_eq!(JmlValue::float(0.0f64.to_bits()), JmlValue::float((-0.0f64).to_bits()));
    assert_ne!(JmlValue::integer(1), JmlValue::float(1.0f64.to_bits()));
    let f1 = JmlValue::Lambda(JmlLambda { params: vec!["x".to_string()], body: LambdaBody::Native(Builtin::Pluck) });
    let f2 = JmlValue::Lambda(JmlLambda { params: vec!["y".to_string()], body: LambdaBody::Native(Builtin::Log) });
    assert_eq!(f1, f2);
    let l1 = JmlValue::list(vec![JmlValue::integer(1), JmlValue::string("a".to_string())]);
    assert_eq!(l1, l1.clone());
    assert_ne!(l1, JmlValue::list(vec![JmlValue::integer(1)]));
}

#[test]
fn object_insert_and_access() {
    let mut o = JmlObject::new();
    o.insert("a".to_string(), JmlValue::integer(1));
    o.insert("b".to_string(), JmlValue::integer(2));
    o.insert("a".to_string(), JmlValue::integer(3));
    assert_eq!(o.len(), 2);
    assert_eq!(o.entries()[0].0, "a");
    assert_eq!(o.access_by_key(&"a".to_string()), JmlValue::integer(3));
    assert_eq!(o.access_by_key(&"b".to_string()), JmlValue::integer(2));
    assert_eq!(o.access_by_key(&"c".to_string()), JmlValue::null());
}

#[test]
fn list_and_string_access() {
    let l = JmlList(vec![JmlValue::integer(10), JmlValue::integer(20)]);
    assert_eq!(l.access_by_index(1), JmlValue::integer(20));
    assert_eq!(l.access_by_index(2), JmlValue::null());
    let s = JmlString("añb".to_string());
    assert_eq!(s.get_by_index(1), JmlValue::string("ñ".to_string()));
    assert_eq!(s.get_by_index(3), JmlValue::null());
}

#[test]
fn context_bindings_and_frames() {
    let mut ctx = Context::new();
    ctx.bind_with_value("x".to_string(), JmlValue::integer(1));
    ctx.bind_with_value("x".to_string(), JmlValue::integer(2));
    match ctx.lookup_variable(&"x".to_string()) {
        Ok(Binding::Value(v)) => assert_eq!(v, JmlValue::integer(2)),
        other => panic!("unexpected {:?}", other),
    }
    let mut frame = Context::new();
    frame.bind_with_value("x".to_string(), JmlValue::integer(7));
    ctx.push_local(frame);
    match ctx.lookup_variable(&"x".to_string()) {
        Ok(Binding::Value(v)) => assert_eq!(v, JmlValue::integer(7)),
        other => panic!("unexpected {:?}", other),
    }
    ctx.pop_local();
    match ctx.lookup_variable(&"x".to_string()) {
        Ok(Binding::Value(v)) => assert_eq!(v, JmlValue::integer(2)),
        other => panic!("unexpected {:?}", other),
    }
    match ctx.lookup_variable(&"y".to_string()) {
        Err(RuntimeErrorKind::UndefinedVariable { name }) => assert_eq!(name, "y"),
        other => panic!("unexpected {:?}", other),
    }
}

#[test]
fn outer_frames_are_not_consulted() {
    let mut ctx = Context::new();
    let mut outer = Context::new();
    outer.bind_with_value("a".to_string(), JmlValue::integer(1));
    ctx.push_local(outer);
    let mut inner = Context::new();
    inner.bind_with_value("b".to_string(), JmlValue::integer(2));
    ctx.push_local(inner);
    assert!(ctx.lookup_variable(&"a".to_string()).is_err());
    ctx.pop_local();
    assert!(ctx.lookup_variable(&"a".to_string()).is_ok());
}
