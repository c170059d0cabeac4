use es_runtime::native::{
    classify_object, from_engine_value, to_engine_value, to_engine_values, NativeValue, ObjectKind,
};
use es_runtime::registry::CachedObjectRegistry;
use es_runtime::value::EsValueFacade;

fn convert(n: NativeValue<u32>) -> EsValueFacade {
    let mut reg: CachedObjectRegistry<u32> = CachedObjectRegistry::new();
    from_engine_value(n, &mut reg).expect("registry has ids left")
}

fn prop(name: &str, v: NativeValue<u32>) -> (String, NativeValue<u32>) {
    (name.to_string(), v)
}

fn check_string_conversion() {
    let esvf = convert(NativeValue::String("this is a string".to_string()));
    assert!(esvf.is_string());
    assert_eq!(esvf.get_string(), &"this is a string".to_string());
}

#[test]
fn test_a_lot() {
    for _x in 0..20 {
        check_string_conversion();
    }
}

#[test]
fn test_get_object() {
    // ({a: 1, b: true, c: 'hello', d: {a: 2}})
    let native = NativeValue::Object(vec![
        prop("a", NativeValue::Int32(1)),
        prop("b", NativeValue::Boolean(true)),
        prop("c", NativeValue::String("hello".to_string())),
        prop("d", NativeValue::Object(vec![prop("a", NativeValue::Int32(2))])),
    ]);
    let esvf = convert(native);
    assert!(esvf.is_object());
    let esvf_a = esvf.get_prop(&"a".to_string()).unwrap();
    assert!(esvf_a.is_i32());
    assert_eq!(esvf_a.get_i32(), &1);
    let esvf_d = esvf.get_prop(&"d".to_string()).unwrap();
    assert_eq!(esvf_d.get_prop(&"a".to_string()).unwrap().get_i32(), &2);
    assert!(esvf.get_prop(&"e".to_string()).is_none());
}

#[test]
fn test_getset_array() {
    // ([5, 7, 9])
    let native = NativeValue::Array(vec![
        NativeValue::Int32(5),
        NativeValue::Int32(7),
        NativeValue::Int32(9),
    ]);
    let esvf = convert(native);
    assert!(esvf.is_array());
    let vec: &Vec<EsValueFacade> = esvf.get_array();
    assert_eq!(vec.len(), 3);
    let esvf_0 = vec.get(1).unwrap();
    assert!(esvf_0.is_i32());
    assert_eq!(esvf_0.get_i32(), &7);

    let new_vec = vec![
        EsValueFacade::new_i32(8),
        EsValueFacade::new_str("a".to_string()),
        EsValueFacade::new_obj(vec![("a".to_string(), EsValueFacade::new_i32(12))]),
    ];
    let args = vec![EsValueFacade::new_array(new_vec)];
    let natives: Vec<NativeValue<u32>> = to_engine_values(&args);
    assert_eq!(natives.len(), 1);
    match &natives[0] {
        NativeValue::Array(items) => {
            assert_eq!(items.len(), 3);
            assert!(matches!(items[0], NativeValue::Int32(8)));
            assert!(matches!(&items[1], NativeValue::String(s) if s == "a"));
            match &items[2] {
                NativeValue::Object(ps) => {
                    assert_eq!(ps.len(), 1);
                    assert_eq!(ps[0].0, "a");
                    assert!(matches!(ps[0].1, NativeValue::Int32(12)));
                }
                _ => panic!("expected an object"),
            }
        }
        _ => panic!("expected an array"),
    }
}

#[test]
fn array_conversion_keeps_last_element() {
    let esvf = convert(NativeValue::Array(vec![NativeValue::Int32(1), NativeValue::Int32(2)]));
    assert_eq!(esvf.get_array().len(), 2);
    assert_eq!(esvf.get_array()[1].get_i32(), &2);
    let empty = convert(NativeValue::Array(vec![]));
    assert_eq!(empty.get_array().len(), 0);
}

#[test]
fn round_trip_of_plain_value() {
    let value = EsValueFacade::new_array(vec![
        EsValueFacade::new_i32(5),
        EsValueFacade::new_str("a".to_string()),
        EsValueFacade::new_obj(vec![("a".to_string(), EsValueFacade::new_i32(12))]),
        EsValueFacade::new_bool(false),
        EsValueFacade::new_f64_bits(0x3ff8_0000_0000_0000),
        EsValueFacade::undefined(),
    ]);
    let native: NativeValue<u32> = to_engine_value(&value);
    let mut reg: CachedObjectRegistry<u32> = CachedObjectRegistry::new();
    let back = from_engine_value(native, &mut reg).unwrap();
    assert_eq!(reg.len(), 0);
    let items = back.get_array();
    assert_eq!(items.len(), 6);
    assert_eq!(items[0].get_i32(), &5);
    assert_eq!(items[1].get_string(), "a");
    assert_eq!(items[2].get_prop(&"a".to_string()).unwrap().get_i32(), &12);
    assert!(!items[3].get_boolean());
    assert_eq!(items[4].get_f64_bits(), 0x3ff8_0000_0000_0000);
    assert!(matches!(items[5], EsValueFacade::Undefined));
}

#[test]
fn functions_are_retained_in_registry() {
    let mut reg: CachedObjectRegistry<u32> = CachedObjectRegistry::new();
    let native = NativeValue::Array(vec![NativeValue::Function(40), NativeValue::Function(41)]);
    let esvf = from_engine_value(native, &mut reg).unwrap();
    let items = esvf.get_array();
    assert!(items[0].is_function());
    let id0 = items[0].get_function_id();
    let id1 = items[1].get_function_id();
    assert_eq!(id0, 1);
    assert_eq!(id1, 2);
    assert_eq!(reg.get(id0), Some(&40));
    assert_eq!(reg.get(id1), Some(&41));
    assert_eq!(reg.len(), 2);
}

#[test]
fn promises_convert_to_managed_promises() {
    let esvf = convert(NativeValue::Promise(17));
    assert!(esvf.is_promise());
    assert!(esvf.is_managed_object());
    assert_eq!(esvf.get_managed_object_id(), 17);
    let prepared = EsValueFacade::PreparedPromise(99);
    assert!(matches!(to_engine_value::<u32>(&prepared), NativeValue::NewPromise(99)));
}

#[test]
fn functions_and_engine_promises_do_not_lower() {
    assert!(matches!(to_engine_value::<u32>(&EsValueFacade::FunctionRef(3)), NativeValue::Undefined));
    assert!(matches!(to_engine_value::<u32>(&EsValueFacade::ManagedPromise(3)), NativeValue::Undefined));
}

#[test]
fn object_classification_order() {
    assert_eq!(classify_object(true, true, true), ObjectKind::Array);
    assert_eq!(classify_object(false, true, true), ObjectKind::Promise);
    assert_eq!(classify_object(false, false, true), ObjectKind::Function);
    assert_eq!(classify_object(false, false, false), ObjectKind::Plain);
}

#[test]
fn kind_predicates_are_exclusive() {
    let values = vec![
        EsValueFacade::undefined(),
        EsValueFacade::new_str("x".to_string()),
        EsValueFacade::new_i32(1),
        EsValueFacade::new_f64_bits(0),
        EsValueFacade::new_bool(true),
        EsValueFacade::new_obj(vec![]),
        EsValueFacade::new_array(vec![]),
        EsValueFacade::ManagedPromise(1),
        EsValueFacade::PreparedPromise(1),
        EsValueFacade::FunctionRef(1),
    ];
    for v in &values {
        let kinds = [
            v.is_string(),
            v.is_i32(),
            v.is_f64(),
            v.is_boolean(),
            v.is_object(),
            v.is_array(),
            v.is_promise(),
            v.is_prepped_promise(),
            v.is_function(),
        ];
        assert!(kinds.iter().filter(|k| **k).count() <= 1);
    }
    assert!(values[0].is_string() == false && values[1].is_string());
}

#[test]
fn expression_text_of_scalars() {
    assert_eq!(EsValueFacade::new_bool(true).as_js_expression_str(), "true");
    assert_eq!(EsValueFacade::new_bool(false).as_js_expression_str(), "false");
    assert_eq!(EsValueFacade::new_i32(-2147483648).as_js_expression_str(), "-2147483648");
    assert_eq!(EsValueFacade::new_i32(221).as_js_expression_str(), "221");
    assert_eq!(EsValueFacade::new_i32(0).as_js_expression_str(), "0");
    assert_eq!(EsValueFacade::new_str("hi".to_string()).as_js_expression_str(), "\"hi\"");
    assert_eq!(EsValueFacade::undefined().as_js_expression_str(), "null");
    assert_eq!(EsValueFacade::ManagedPromise(4).as_js_expression_str(), "/* Future 4 */");
    assert_eq!(
        EsValueFacade::new_f64_bits(4609434218613702656).as_js_expression_str(),
        "new Float64Array(new BigUint64Array([4609434218613702656n]).buffer)[0]"
    );
}

#[test]
fn expression_text_of_containers() {
    let v = EsValueFacade::new_obj(vec![
        ("a".to_string(), EsValueFacade::new_i32(1)),
        (
            "b".to_string(),
            EsValueFacade::new_array(vec![
                EsValueFacade::new_i32(2),
                EsValueFacade::new_str("c".to_string()),
            ]),
        ),
    ]);
    assert_eq!(v.as_js_expression_str(), "{\"a\": 1, \"b\": [2, \"c\"]}");
    assert_eq!(EsValueFacade::new_array(vec![]).as_js_expression_str(), "[]");
    assert_eq!(EsValueFacade::new_obj(vec![]).as_js_expression_str(), "{}");
}

#[test]
fn nested_functions_get_ids_in_depth_first_order() {
    let mut reg: CachedObjectRegistry<u32> = CachedObjectRegistry::new();
    let first = reg.register(7).ok().unwrap();
    let native = NativeValue::Object(vec![
        prop("f", NativeValue::Function(10)),
        prop("inner", NativeValue::Array(vec![NativeValue::Int32(0), NativeValue::Function(11)])),
        prop("g", NativeValue::Function(10)),
    ]);
    let esvf = from_engine_value(native, &mut reg).unwrap();
    let f = esvf.get_prop(&"f".to_string()).unwrap().get_function_id();
    let inner = esvf.get_prop(&"inner".to_string()).unwrap().get_array()[1].get_function_id();
    let g = esvf.get_prop(&"g".to_string()).unwrap().get_function_id();
    assert_eq!((f, inner, g), (first + 1, first + 2, first + 3));
    assert_eq!(reg.len(), 4);
    assert_eq!(reg.get(first), Some(&7));
    assert_eq!(reg.get(g), Some(&10));
}
