use structgen::instance::{floats_equal, Datum};
use structgen::schema::{GeneratedModule, Visibility};
use structgen::synth::synthesize;
use structgen::value::{Node, Number};

fn whole(i: i64) -> Node {
    Node::Number(Number::Int(i))
}

fn float(x: f64) -> Node {
    Node::Number(Number::Float(x.to_bits()))
}

fn string(s: &str) -> Node {
    Node::String(s.to_string())
}

fn object(members: Vec<(&str, Node)>) -> Node {
    Node::Object(members.into_iter().map(|(k, v)| (k.to_string(), v)).collect())
}

fn record(name: &str, fields: Vec<(&str, Datum)>) -> Datum {
    Datum::Record {
        name: name.to_string(),
        fields: fields.into_iter().map(|(k, v)| (k.to_string(), v)).collect(),
    }
}

fn text(s: &str) -> Datum {
    Datum::Text(s.to_string())
}

fn generated(root: &Node) -> GeneratedModule {
    synthesize(root, "Cfg", &Visibility::Inherited).unwrap()
}

fn sample() -> Node {
    object(vec![
        ("data", string("test")),
        ("count", whole(3)),
        ("nested", object(vec![("flag", Node::Bool(true))])),
    ])
}

#[test]
fn the_populated_instance_holds_the_members_of_the_document() {
    let module = generated(&sample());
    let instance = module.populated().unwrap();
    assert_eq!(instance.field("data"), Some(&text("test")));
    assert_eq!(instance.field("count"), Some(&Datum::Integer(3)));
    assert_eq!(
        instance,
        record(
            "Cfg",
            vec![
                ("data", text("test")),
                ("count", Datum::Integer(3)),
                ("nested", record("CfgNested", vec![("flag", Datum::Bool(false))])),
            ]
        )
    );
}

#[test]
fn a_nested_record_starts_from_its_zero_values() {
    let module = generated(&sample());
    let instance = module.populated().unwrap();
    let nested = instance.field("nested").unwrap();
    assert_eq!(nested.field("flag"), Some(&Datum::Bool(false)));
}

#[test]
fn the_zero_instance_holds_the_zero_of_every_type() {
    let root = object(vec![
        ("flag", Node::Bool(true)),
        ("count", whole(3)),
        ("big", Node::Number(Number::UInt(u64::MAX))),
        ("ratio", float(0.5)),
        ("data", string("test")),
        ("list", Node::Array(vec![whole(1)])),
        ("nothing", Node::Null),
        ("maybe", object(vec![("opt_some", whole(1))])),
        ("nested", object(vec![("deep", object(vec![("x", string("y"))]))])),
    ]);
    assert_eq!(
        generated(&root).zeroed(),
        Some(record(
            "Cfg",
            vec![
                ("flag", Datum::Bool(false)),
                ("count", Datum::Integer(0)),
                ("big", Datum::Unsigned(0)),
                ("ratio", Datum::Float(0)),
                ("data", text("")),
                ("list", Datum::List(vec![])),
                ("nothing", Datum::Absent),
                ("maybe", Datum::Absent),
                (
                    "nested",
                    record("CfgNested", vec![("deep", record("CfgNestedDeep", vec![("x", text(""))]))])
                ),
            ]
        ))
    );
}

#[test]
fn lists_and_optional_values_are_populated() {
    let root = object(vec![
        ("list", Node::Array(vec![whole(1), whole(2), whole(3)])),
        ("empty", Node::Array(vec![])),
        ("some", object(vec![("opt_some", string("x"))])),
        ("none", object(vec![("opt_none", string("x"))])),
        ("nothing", Node::Null),
    ]);
    assert_eq!(
        generated(&root).populated(),
        Some(record(
            "Cfg",
            vec![
                ("list", Datum::List(vec![Datum::Integer(1), Datum::Integer(2), Datum::Integer(3)])),
                ("empty", Datum::List(vec![])),
                ("some", Datum::Present(Box::new(text("x")))),
                ("none", Datum::Absent),
                ("nothing", Datum::Absent),
            ]
        ))
    );
}

#[test]
fn the_zero_instance_is_empty() {
    let module = generated(&sample());
    let nothing = module.zeroed().unwrap();
    assert!(module.is_empty(&nothing));
}

#[test]
fn a_populated_instance_with_a_value_is_not_empty() {
    let module = generated(&sample());
    let instance = module.populated().unwrap();
    assert!(!module.is_empty(&instance));
    for root in [
        object(vec![("a", Node::Bool(true))]),
        object(vec![("a", whole(-1))]),
        object(vec![("a", Node::Number(Number::UInt(u64::MAX)))]),
        object(vec![("a", float(0.5))]),
        object(vec![("a", string(" "))]),
        object(vec![("a", Node::Array(vec![whole(0)]))]),
        object(vec![("a", object(vec![("opt_some", whole(0))]))]),
        object(vec![("zero", whole(0)), ("one", whole(1))]),
    ] {
        let module = generated(&root);
        assert!(!module.is_empty(&module.populated().unwrap()), "{:?}", root);
    }
}

#[test]
fn a_populated_instance_of_zeros_is_empty() {
    for root in [
        object(vec![]),
        object(vec![("a", Node::Bool(false)), ("b", whole(0)), ("c", string(""))]),
        object(vec![("a", float(0.0)), ("b", float(-0.0))]),
        object(vec![("a", Node::Null), ("b", Node::Array(vec![]))]),
        object(vec![("a", object(vec![("opt_none", whole(7))]))]),
        // What is nested does not show.
        object(vec![("nested", object(vec![("flag", Node::Bool(true))]))]),
    ] {
        let module = generated(&root);
        assert!(module.is_empty(&module.populated().unwrap()), "{:?}", root);
    }
}

#[test]
fn floats_compare_by_value() {
    let zero = 0.0f64.to_bits();
    let minus_zero = (-0.0f64).to_bits();
    let nan = f64::NAN.to_bits();
    let one = 1.0f64.to_bits();
    assert!(floats_equal(zero, minus_zero));
    assert!(floats_equal(minus_zero, zero));
    assert!(floats_equal(one, one));
    assert!(!floats_equal(one, zero));
    assert!(!floats_equal(nan, nan));
    assert!(!floats_equal(nan, one));
    assert!(floats_equal(f64::INFINITY.to_bits(), f64::INFINITY.to_bits()));
    assert!(!floats_equal(f64::INFINITY.to_bits(), f64::NEG_INFINITY.to_bits()));
    for (a, b) in [(0.1, 0.1), (0.1, 0.2), (-3.5, 3.5), (f64::MAX, f64::MAX), (f64::MIN_POSITIVE, 0.0)] {
        assert_eq!(floats_equal(f64::to_bits(a), f64::to_bits(b)), a == b);
    }
    assert!(Datum::Float(zero).same(&Datum::Float(minus_zero)));
    assert!(!Datum::Float(nan).same(&Datum::Float(nan)));
}

#[test]
fn values_compare_field_by_field() {
    let a = record("Cfg", vec![("x", Datum::Integer(1)), ("l", Datum::List(vec![text("a")]))]);
    assert!(a.same(&a.clone()));
    assert_eq!(a, a.clone());
    let other_value = record("Cfg", vec![("x", Datum::Integer(2)), ("l", Datum::List(vec![text("a")]))]);
    let other_field = record("Cfg", vec![("y", Datum::Integer(1)), ("l", Datum::List(vec![text("a")]))]);
    let other_name = record("Other", vec![("x", Datum::Integer(1)), ("l", Datum::List(vec![text("a")]))]);
    let shorter = record("Cfg", vec![("x", Datum::Integer(1))]);
    let longer_list = record("Cfg", vec![("x", Datum::Integer(1)), ("l", Datum::List(vec![text("a"), text("b")]))]);
    for other in [&other_value, &other_field, &other_name, &shorter, &longer_list] {
        assert!(!a.same(other));
        assert!(!other.same(&a));
    }
    assert!(!Datum::Integer(1).same(&Datum::Unsigned(1)));
    assert!(!Datum::Absent.same(&Datum::Present(Box::new(Datum::Absent))));
    assert!(Datum::Present(Box::new(Datum::Bool(true))).same(&Datum::Present(Box::new(Datum::Bool(true)))));
    assert!(!Datum::Present(Box::new(Datum::Bool(true))).same(&Datum::Present(Box::new(Datum::Bool(false)))));
}

#[test]
fn a_field_is_found_by_its_name() {
    let instance = record("Cfg", vec![("a", Datum::Integer(1)), ("b", Datum::Integer(2))]);
    assert_eq!(instance.field("a"), Some(&Datum::Integer(1)));
    assert_eq!(instance.field("b"), Some(&Datum::Integer(2)));
    assert_eq!(instance.field("c"), None);
    assert_eq!(Datum::Integer(1).field("a"), None);
    assert_eq!(Datum::List(vec![]).field("a"), None);
}

#[test]
fn a_type_is_found_by_its_name() {
    let module = generated(&sample());
    assert_eq!(module.find("CfgNested").map(|s| s.name.as_str()), Some("CfgNested"));
    assert_eq!(module.find("Cfg").map(|s| s.fields.len()), Some(3));
    assert!(module.find("CfgData").is_none());
    assert!(module.find("").is_none());
}

#[test]
fn a_list_of_objects_has_no_instance() {
    // The element type is named, but no type of that name is generated.
    let root = object(vec![("items", Node::Array(vec![object(vec![("a", whole(1))])]))]);
    let module = generated(&root);
    assert!(module.find("CfgItems").is_none());
    assert_eq!(module.populated(), None);
    // The zero instance holds an empty list and needs no element.
    assert_eq!(module.zeroed(), Some(record("Cfg", vec![("items", Datum::List(vec![]))])));
}

#[test]
fn a_type_nested_in_itself_has_no_instance() {
    // The key adds nothing to the name, so the nested type is called as its owner.
    let root = object(vec![("_", object(vec![("_", object(vec![]))]))]);
    let module = generated(&root);
    assert!(!module.has_distinct_names());
    assert_eq!(module.nested.len(), 2);
    assert!(module.nested.iter().all(|s| s.name == "Cfg"));
    assert_eq!(module.populated(), None);
    assert_eq!(module.zeroed(), None);
    assert!(!module.is_empty(&record("Cfg", vec![])));
}

#[test]
fn two_types_of_one_name_are_read_as_the_first() {
    let root = object(vec![
        ("a_b", object(vec![("x", whole(1))])),
        ("aB", object(vec![("y", string("z"))])),
    ]);
    let module = generated(&root);
    assert!(!module.has_distinct_names());
    assert_eq!(module.nested.len(), 2);
    assert_eq!(module.nested[0].name, "CfgAB");
    assert_eq!(module.nested[1].name, "CfgAB");
    let first = record("CfgAB", vec![("x", Datum::Integer(0))]);
    assert_eq!(
        module.populated(),
        Some(record("Cfg", vec![("a_b", first.clone()), ("aB", first.clone())]))
    );
}

#[test]
fn distinct_names_are_told_from_shared_ones() {
    assert!(generated(&sample()).has_distinct_names());
    assert!(generated(&object(vec![])).has_distinct_names());
    let deep = object(vec![
        ("a", object(vec![("b", object(vec![])), ("c", object(vec![]))])),
        ("d", object(vec![("b", object(vec![]))])),
    ]);
    assert!(generated(&deep).has_distinct_names());
    // A path of two keys and one key of two words.
    let shared = object(vec![("a", object(vec![("b", object(vec![]))])), ("a_b", object(vec![]))]);
    assert!(!generated(&shared).has_distinct_names());
    // A nested type called as the document's own.
    let own = object(vec![("x", whole(1)), ("_", object(vec![]))]);
    assert!(!generated(&own).has_distinct_names());
}

#[test]
fn a_document_of_scalars_strings_and_objects_is_read_back() {
    let root = object(vec![
        ("flag", Node::Bool(true)),
        ("count", whole(-3)),
        ("big", Node::Number(Number::UInt(u64::MAX))),
        ("fits", Node::Number(Number::UInt(7))),
        ("ratio", float(0.5)),
        ("data", string("test")),
        ("nothing", Node::Null),
        ("nested", object(vec![("zero", whole(0)), ("one", whole(1)), ("inner", object(vec![("s", string(""))]))])),
    ]);
    let module = generated(&root);
    assert!(module.has_distinct_names());
    let instance = module.populated().unwrap();
    // The members of the document itself stand as they are.
    assert_eq!(instance.field("flag"), Some(&Datum::Bool(true)));
    assert_eq!(instance.field("count"), Some(&Datum::Integer(-3)));
    assert_eq!(instance.field("big"), Some(&Datum::Unsigned(u64::MAX)));
    assert_eq!(instance.field("fits"), Some(&Datum::Integer(7)));
    assert_eq!(instance.field("ratio"), Some(&Datum::Float(0.5f64.to_bits())));
    assert_eq!(instance.field("data"), Some(&text("test")));
    assert_eq!(instance.field("nothing"), Some(&Datum::Absent));
    // What is nested reads as the zero of its type.
    let nested = instance.field("nested").unwrap();
    assert_eq!(nested.field("zero"), Some(&Datum::Integer(0)));
    assert_eq!(nested.field("one"), Some(&Datum::Integer(0)));
    assert_eq!(nested.field("inner").unwrap().field("s"), Some(&text("")));
}
