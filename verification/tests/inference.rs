use structgen::error::GenerateError;
use structgen::infer::{generate_field_info, generate_field_type};
use structgen::schema::{
    DefaultValue, FieldDescriptor, GeneratedStruct, TypeDescriptor, Visibility,
};
use structgen::synth::{generate_nested_structs, synthesize};
use structgen::value::{key_position, Node, Number};

fn whole(i: i64) -> Node {
    Node::Number(Number::Int(i))
}

fn string(s: &str) -> Node {
    Node::String(s.to_string())
}

fn object(members: Vec<(&str, Node)>) -> Node {
    Node::Object(members.into_iter().map(|(k, v)| (k.to_string(), v)).collect())
}

fn list(ty: TypeDescriptor) -> TypeDescriptor {
    TypeDescriptor::List(Box::new(ty))
}

fn optional(ty: TypeDescriptor) -> TypeDescriptor {
    TypeDescriptor::Optional(Box::new(ty))
}

fn named(name: &str) -> TypeDescriptor {
    TypeDescriptor::NamedStruct(name.to_string())
}

fn field(name: &str, ty: TypeDescriptor, default: DefaultValue, origin: &str) -> FieldDescriptor {
    FieldDescriptor { name: name.to_string(), ty, default, origin: origin.to_string() }
}

fn names(structs: &[GeneratedStruct]) -> Vec<&str> {
    structs.iter().map(|s| s.name.as_str()).collect()
}

#[test]
fn null_is_an_absent_optional_text() {
    assert_eq!(
        generate_field_type(&Node::Null, "Cfg"),
        Ok((optional(TypeDescriptor::Text), DefaultValue::Absent))
    );
}

#[test]
fn scalars_keep_their_values() {
    assert_eq!(
        generate_field_type(&Node::Bool(true), "Cfg"),
        Ok((TypeDescriptor::Bool, DefaultValue::Bool(true)))
    );
    assert_eq!(
        generate_field_type(&Node::Bool(false), "Cfg"),
        Ok((TypeDescriptor::Bool, DefaultValue::Bool(false)))
    );
    assert_eq!(
        generate_field_type(&string("test"), "Cfg"),
        Ok((TypeDescriptor::Text, DefaultValue::Text("test".to_string())))
    );
}

#[test]
fn numbers_are_signed_where_they_fit() {
    assert_eq!(
        generate_field_type(&whole(-3), "Cfg"),
        Ok((TypeDescriptor::Integer64, DefaultValue::Integer(-3)))
    );
    assert_eq!(
        generate_field_type(&whole(i64::MIN), "Cfg"),
        Ok((TypeDescriptor::Integer64, DefaultValue::Integer(i64::MIN)))
    );
    assert_eq!(
        generate_field_type(&Node::Number(Number::UInt(3)), "Cfg"),
        Ok((TypeDescriptor::Integer64, DefaultValue::Integer(3)))
    );
    assert_eq!(
        generate_field_type(&Node::Number(Number::UInt(i64::MAX as u64)), "Cfg"),
        Ok((TypeDescriptor::Integer64, DefaultValue::Integer(i64::MAX)))
    );
}

#[test]
fn numbers_beyond_the_signed_range_are_unsigned() {
    assert_eq!(
        generate_field_type(&Node::Number(Number::UInt(i64::MAX as u64 + 1)), "Cfg"),
        Ok((TypeDescriptor::UnsignedInteger64, DefaultValue::Unsigned(9223372036854775808)))
    );
    assert_eq!(
        generate_field_type(&Node::Number(Number::UInt(u64::MAX)), "Cfg"),
        Ok((TypeDescriptor::UnsignedInteger64, DefaultValue::Unsigned(u64::MAX)))
    );
}

#[test]
fn fractional_numbers_are_floats() {
    let bits = 1.5f64.to_bits();
    assert_eq!(
        generate_field_type(&Node::Number(Number::Float(bits)), "Cfg"),
        Ok((TypeDescriptor::Float64, DefaultValue::Float(bits)))
    );
}

#[test]
fn an_empty_array_is_a_list_of_anything() {
    assert_eq!(
        generate_field_type(&Node::Array(vec![]), "Cfg"),
        Ok((list(TypeDescriptor::Any), DefaultValue::List(vec![])))
    );
}

#[test]
fn an_array_takes_the_type_of_its_first_element() {
    let array = Node::Array(vec![whole(1), whole(2), whole(3)]);
    assert_eq!(
        generate_field_type(&array, "Cfg"),
        Ok((
            list(TypeDescriptor::Integer64),
            DefaultValue::List(vec![
                DefaultValue::Integer(1),
                DefaultValue::Integer(2),
                DefaultValue::Integer(3),
            ])
        ))
    );
}

#[test]
fn arrays_nest() {
    let array = Node::Array(vec![
        Node::Array(vec![string("a")]),
        Node::Array(vec![string("b"), string("c")]),
    ]);
    assert_eq!(
        generate_field_type(&array, "Cfg"),
        Ok((
            list(list(TypeDescriptor::Text)),
            DefaultValue::List(vec![
                DefaultValue::List(vec![DefaultValue::Text("a".to_string())]),
                DefaultValue::List(vec![
                    DefaultValue::Text("b".to_string()),
                    DefaultValue::Text("c".to_string()),
                ]),
            ])
        ))
    );
}

#[test]
fn an_array_of_mixed_types_is_refused() {
    let expected = Err(GenerateError::InternalShape {
        description: "array elements differ in type".to_string(),
    });
    assert_eq!(generate_field_type(&Node::Array(vec![whole(1), string("two")]), "Cfg"), expected);
    assert_eq!(
        generate_field_type(&Node::Array(vec![whole(1), whole(2), Node::Bool(true)]), "Cfg"),
        expected
    );
    assert_eq!(
        generate_field_type(
            &Node::Array(vec![whole(1), Node::Number(Number::Float(2.5f64.to_bits()))]),
            "Cfg"
        ),
        expected
    );
    // Inside an optional value and inside an inner array too.
    assert_eq!(
        generate_field_type(
            &object(vec![("opt_some", Node::Array(vec![Node::Null, string("x")]))]),
            "Cfg"
        ),
        expected
    );
    assert_eq!(
        generate_field_type(
            &Node::Array(vec![Node::Array(vec![whole(1)]), Node::Array(vec![whole(1), string("x")])]),
            "Cfg"
        ),
        expected
    );
    assert_eq!(GenerateError::mixed_array(), expected.unwrap_err());
}

#[test]
fn an_array_of_objects_is_a_list_of_records() {
    let array = Node::Array(vec![object(vec![("a", whole(1))]), object(vec![("a", whole(2))])]);
    assert_eq!(
        generate_field_type(&array, "CfgItems"),
        Ok((
            list(named("CfgItems")),
            DefaultValue::List(vec![
                DefaultValue::Construct("CfgItems".to_string()),
                DefaultValue::Construct("CfgItems".to_string()),
            ])
        ))
    );
}

#[test]
fn opt_some_is_a_present_optional() {
    assert_eq!(
        generate_field_type(&object(vec![("opt_some", whole(5))]), "Cfg"),
        Ok((
            optional(TypeDescriptor::Integer64),
            DefaultValue::Present(Box::new(DefaultValue::Integer(5)))
        ))
    );
}

#[test]
fn opt_none_is_an_absent_optional() {
    assert_eq!(
        generate_field_type(&object(vec![("opt_none", string("sample"))]), "Cfg"),
        Ok((optional(TypeDescriptor::Text), DefaultValue::Absent))
    );
}

#[test]
fn opt_some_wins_over_opt_none() {
    let both = object(vec![("opt_none", string("sample")), ("opt_some", Node::Bool(true))]);
    assert_eq!(
        generate_field_type(&both, "Cfg"),
        Ok((optional(TypeDescriptor::Bool), DefaultValue::Present(Box::new(DefaultValue::Bool(true)))))
    );
    let beside = object(vec![("other", whole(1)), ("opt_none", whole(2))]);
    assert_eq!(
        generate_field_type(&beside, "Cfg"),
        Ok((optional(TypeDescriptor::Integer64), DefaultValue::Absent))
    );
}

#[test]
fn an_optional_object_is_named_after_its_position() {
    let value = object(vec![("opt_some", object(vec![("x", whole(1))]))]);
    assert_eq!(
        generate_field_type(&value, "CfgA"),
        Ok((
            optional(named("CfgA")),
            DefaultValue::Present(Box::new(DefaultValue::Construct("CfgA".to_string())))
        ))
    );
}

#[test]
fn an_object_is_a_record_named_after_its_position() {
    assert_eq!(
        generate_field_type(&object(vec![("flag", Node::Bool(true))]), "CfgNested"),
        Ok((named("CfgNested"), DefaultValue::Construct("CfgNested".to_string())))
    );
    assert_eq!(
        generate_field_type(&object(vec![]), "CfgEmpty"),
        Ok((named("CfgEmpty"), DefaultValue::Construct("CfgEmpty".to_string())))
    );
}

#[test]
fn types_compare_by_shape() {
    assert!(list(named("A")).same(&list(named("A"))));
    assert!(!list(named("A")).same(&list(named("B"))));
    assert!(!list(TypeDescriptor::Any).same(&list(TypeDescriptor::Integer64)));
    assert!(!optional(TypeDescriptor::Text).same(&TypeDescriptor::Text));
    assert!(TypeDescriptor::Float64.same(&TypeDescriptor::Float64));
    assert!(!TypeDescriptor::Integer64.same(&TypeDescriptor::UnsignedInteger64));
}

#[test]
fn the_first_member_of_a_name_is_found() {
    let members = vec![
        ("a".to_string(), whole(1)),
        ("b".to_string(), whole(2)),
        ("a".to_string(), whole(3)),
    ];
    assert_eq!(key_position(&members, "a"), 0);
    assert_eq!(key_position(&members, "b"), 1);
    assert_eq!(key_position(&members, "c"), 3);
    assert_eq!(key_position(&Vec::new(), "a"), 0);
}

fn sample() -> Node {
    object(vec![
        ("data", string("test")),
        ("count", whole(3)),
        ("nested", object(vec![("flag", Node::Bool(true))])),
    ])
}

#[test]
fn fields_follow_the_members() {
    assert_eq!(
        generate_field_info(&sample(), "Cfg"),
        Ok(vec![
            field("data", TypeDescriptor::Text, DefaultValue::Text("test".to_string()), "CfgData"),
            field("count", TypeDescriptor::Integer64, DefaultValue::Integer(3), "CfgCount"),
            field(
                "nested",
                named("CfgNested"),
                DefaultValue::Construct("CfgNested".to_string()),
                "CfgNested"
            ),
        ])
    );
}

#[test]
fn only_an_object_has_fields() {
    assert_eq!(generate_field_info(&whole(1), "Cfg"), Ok(vec![]));
    assert_eq!(generate_field_info(&Node::Array(vec![sample()]), "Cfg"), Ok(vec![]));
    assert_eq!(generate_field_info(&Node::Null, "Cfg"), Ok(vec![]));
    assert_eq!(generate_field_info(&object(vec![]), "Cfg"), Ok(vec![]));
}

#[test]
fn a_mixed_array_in_a_member_fails_the_fields() {
    let value = object(vec![("ok", whole(1)), ("bad", Node::Array(vec![whole(1), Node::Null]))]);
    assert_eq!(generate_field_info(&value, "Cfg"), Err(GenerateError::mixed_array()));
}

#[test]
fn nested_types_come_depth_first() {
    let value = object(vec![
        ("a", object(vec![("b", object(vec![("leaf", whole(1))])), ("x", whole(0))])),
        ("skip", whole(1)),
        ("c", object(vec![])),
    ]);
    let structs = generate_nested_structs(&value, "Cfg", &Visibility::Public).unwrap();
    assert_eq!(names(&structs), vec!["CfgA", "CfgAB", "CfgC"]);
    assert_eq!(
        structs[0].fields,
        vec![
            field("b", named("CfgAB"), DefaultValue::Construct("CfgAB".to_string()), "CfgAB"),
            field("x", TypeDescriptor::Integer64, DefaultValue::Integer(0), "CfgAX"),
        ]
    );
    assert_eq!(
        structs[1].fields,
        vec![field("leaf", TypeDescriptor::Integer64, DefaultValue::Integer(1), "CfgABLeaf")]
    );
    assert_eq!(structs[2].fields, vec![]);
    assert!(structs.iter().all(|s| s.visibility == Visibility::Public));
}

#[test]
fn an_optional_object_gets_a_type_of_its_own_too() {
    let value = object(vec![("maybe", object(vec![("opt_some", whole(1))]))]);
    let structs = generate_nested_structs(&value, "Cfg", &Visibility::Inherited).unwrap();
    assert_eq!(names(&structs), vec!["CfgMaybe"]);
    assert_eq!(
        structs[0].fields,
        vec![field("opt_some", TypeDescriptor::Integer64, DefaultValue::Integer(1), "CfgMaybeOptSome")]
    );
}

#[test]
fn objects_inside_arrays_get_no_type() {
    let value = object(vec![("items", Node::Array(vec![object(vec![("a", whole(1))])]))]);
    assert_eq!(generate_nested_structs(&value, "Cfg", &Visibility::Inherited), Ok(vec![]));
    assert_eq!(generate_nested_structs(&whole(1), "Cfg", &Visibility::Inherited), Ok(vec![]));
}

#[test]
fn a_mixed_array_in_a_nested_object_fails_the_nested_types() {
    let value = object(vec![(
        "a",
        object(vec![("b", object(vec![("bad", Node::Array(vec![whole(1), string("x")]))]))]),
    )]);
    assert_eq!(
        generate_nested_structs(&value, "Cfg", &Visibility::Inherited),
        Err(GenerateError::mixed_array())
    );
    assert_eq!(synthesize(&value, "Cfg", &Visibility::Inherited), Err(GenerateError::mixed_array()));
    // The members of the value itself are not looked at here.
    let top = object(vec![("bad", Node::Array(vec![whole(1), string("x")]))]);
    assert_eq!(generate_nested_structs(&top, "Cfg", &Visibility::Inherited), Ok(vec![]));
    assert_eq!(synthesize(&top, "Cfg", &Visibility::Inherited), Err(GenerateError::mixed_array()));
}

#[test]
fn the_document_type_comes_with_its_nested_types() {
    let vis = Visibility::Restricted("crate".to_string());
    let module = synthesize(&sample(), "Cfg", &vis).unwrap();
    assert_eq!(module.root.name, "Cfg");
    assert_eq!(module.root.visibility, vis);
    assert_eq!(
        module.root.fields,
        vec![
            field("data", TypeDescriptor::Text, DefaultValue::Text("test".to_string()), "CfgData"),
            field("count", TypeDescriptor::Integer64, DefaultValue::Integer(3), "CfgCount"),
            field(
                "nested",
                named("CfgNested"),
                DefaultValue::Construct("CfgNested".to_string()),
                "CfgNested"
            ),
        ]
    );
    assert_eq!(names(&module.nested), vec!["CfgNested"]);
    assert_eq!(
        module.nested[0].fields,
        vec![field("flag", TypeDescriptor::Bool, DefaultValue::Bool(true), "CfgNestedFlag")]
    );
    assert_eq!(module.nested[0].visibility, vis);
}

#[test]
fn a_list_of_integers_is_generated_with_its_values() {
    let module =
        synthesize(&object(vec![("list", Node::Array(vec![whole(1), whole(2), whole(3)]))]), "Cfg", &Visibility::Inherited)
            .unwrap();
    assert_eq!(
        module.root.fields,
        vec![field(
            "list",
            list(TypeDescriptor::Integer64),
            DefaultValue::List(vec![
                DefaultValue::Integer(1),
                DefaultValue::Integer(2),
                DefaultValue::Integer(3),
            ]),
            "CfgList"
        )]
    );
    assert!(module.nested.is_empty());
}

#[test]
fn an_empty_list_is_generated_untyped_and_empty() {
    let module =
        synthesize(&object(vec![("list", Node::Array(vec![]))]), "Cfg", &Visibility::Inherited).unwrap();
    assert_eq!(
        module.root.fields,
        vec![field("list", list(TypeDescriptor::Any), DefaultValue::List(vec![]), "CfgList")]
    );
}

#[test]
fn synthesis_gives_the_same_every_time() {
    let first = synthesize(&sample(), "Cfg", &Visibility::Public);
    let second = synthesize(&sample(), "Cfg", &Visibility::Public);
    assert_eq!(first, second);
    assert_eq!(format!("{:?}", first), format!("{:?}", second));
}

#[test]
fn a_document_that_is_no_object_has_an_empty_type() {
    let module = synthesize(&Node::Array(vec![whole(1)]), "Cfg", &Visibility::Inherited).unwrap();
    assert_eq!(module.root.name, "Cfg");
    assert!(module.root.fields.is_empty());
    assert!(module.nested.is_empty());
}
