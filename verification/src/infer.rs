//! Type and value inference: from a node of the value tree to the type of
//! the field that holds it and the expression that initialises it.

use crate::error::{ErrorModel, GenerateError};
use crate::naming::{composite, composite_name};
use crate::schema::{
    default_models, field_models, lemma_list_view, type_model, DefaultModel, DefaultValue,
    FieldDescriptor, FieldModel, TypeDescriptor, TypeModel,
};
use crate::value::{
    item_trees, key_index, key_position, lemma_array_view, lemma_object_view, member_trees,
    Node, Number, Tree,
};
use vstd::prelude::*;
use vstd::string::*;

verus! {

/// How the members of an object mark it as an optional value.
pub enum Marker {
    /// The member at this position is called `opt_some`: the value is present.
    Present(int),
    /// No member is called `opt_some`, and the one at this position is called
    /// `opt_none`: the value is absent, and the member tells its type.
    Absent(int),
    /// Neither name occurs: the object is a record.
    Plain,
}

/// The optional marking of an object. `opt_some` is looked for first.
pub open spec fn marker(members: Seq<(Seq<char>, Tree)>) -> Marker {
    let some = key_index(members, "opt_some"@);
    let none = key_index(members, "opt_none"@);
    if some < members.len() {
        Marker::Present(some as int)
    } else if none < members.len() {
        Marker::Absent(none as int)
    } else {
        Marker::Plain
    }
}

/// The type of a number: signed where it fits, unsigned where only that
/// fits, floating point otherwise.
pub open spec fn number_type(n: Number) -> TypeModel {
    match n {
        Number::Int(_) => TypeModel::Integer64,
        Number::UInt(u) => if u <= i64::MAX {
            TypeModel::Integer64
        } else {
            TypeModel::UnsignedInteger64
        },
        Number::Float(_) => TypeModel::Float64,
    }
}

/// The literal that stands for a number.
pub open spec fn number_default(n: Number) -> DefaultModel {
    match n {
        Number::Int(i) => DefaultModel::Integer(i),
        Number::UInt(u) => if u <= i64::MAX {
            DefaultModel::Integer(u as i64)
        } else {
            DefaultModel::Unsigned(u)
        },
        Number::Float(bits) => DefaultModel::Float(bits),
    }
}

/// The type inferred for `value`, found in a position called `owner`.
///
/// An array has the element type of its first element. An object marked as
/// optional has the type of the marked member, made optional; any other
/// object is a record of its own, named after its position.
pub open spec fn type_of(value: Tree, owner: Seq<char>) -> TypeModel
    decreases value,
{
    match value {
        Tree::Null => TypeModel::Optional(Box::new(TypeModel::Text)),
        Tree::Bool(_) => TypeModel::Bool,
        Tree::Number(n) => number_type(n),
        Tree::Text(_) => TypeModel::Text,
        Tree::Array(items) => if items.len() == 0 {
            TypeModel::List(Box::new(TypeModel::Any))
        } else {
            TypeModel::List(Box::new(type_of(items[0], owner)))
        },
        Tree::Object(members) => match marker(members) {
            Marker::Present(i) => TypeModel::Optional(Box::new(type_of(members[i].1, owner))),
            Marker::Absent(i) => TypeModel::Optional(Box::new(type_of(members[i].1, owner))),
            Marker::Plain => TypeModel::NamedStruct(owner),
        },
    }
}

/// The expression that initialises a field to `value`, found in a position
/// called `owner`.
pub open spec fn default_of(value: Tree, owner: Seq<char>) -> DefaultModel
    decreases value, 0nat,
{
    match value {
        Tree::Null => DefaultModel::Absent,
        Tree::Bool(b) => DefaultModel::Bool(b),
        Tree::Number(n) => number_default(n),
        Tree::Text(s) => DefaultModel::Text(s),
        Tree::Array(items) => DefaultModel::List(defaults_of(items, owner, items.len())),
        Tree::Object(members) => match marker(members) {
            Marker::Present(i) => DefaultModel::Present(Box::new(default_of(members[i].1, owner))),
            Marker::Absent(_) => DefaultModel::Absent,
            Marker::Plain => DefaultModel::Construct(owner),
        },
    }
}

/// The expressions for the first `n` elements of an array, in order.
pub open spec fn defaults_of(items: Seq<Tree>, owner: Seq<char>, n: nat) -> Seq<DefaultModel>
    decreases items, n,
{
    if 0 < n <= items.len() {
        defaults_of(items, owner, (n - 1) as nat).push(default_of(items[n - 1], owner))
    } else {
        Seq::empty()
    }
}

/// `defaults_of` maps `default_of` over the elements.
pub proof fn lemma_defaults_of(items: Seq<Tree>, owner: Seq<char>, n: nat)
    requires
        n <= items.len(),
    ensures
        defaults_of(items, owner, n).len() == n,
        forall|i: int|
            0 <= i < n ==> defaults_of(items, owner, n)[i] == default_of(items[i], owner),
    decreases n,
{
    if n > 0 {
        lemma_defaults_of(items, owner, (n - 1) as nat);
    }
}

/// Whether a type can be inferred for `value`: every array that decides its
/// type or its initial value holds elements of one type only.
pub open spec fn uniform(value: Tree, owner: Seq<char>) -> bool
    decreases value,
{
    match value {
        Tree::Array(items) => forall|i: int|
            #![trigger items[i]]
            0 <= i < items.len() ==> uniform(items[i], owner) && type_of(items[i], owner)
                == type_of(items[0], owner),
        Tree::Object(members) => match marker(members) {
            Marker::Present(i) => uniform(members[i].1, owner),
            Marker::Absent(i) => uniform(members[i].1, owner),
            Marker::Plain => true,
        },
        _ => true,
    }
}

/// An object with a member called `opt_some` is an optional value that is
/// present: its type is the member's type made optional, and it is
/// initialised to the member's value. `opt_some` counts even where a member
/// called `opt_none` stands beside it.
pub proof fn lemma_marked_present(members: Seq<(Seq<char>, Tree)>, owner: Seq<char>)
    requires
        key_index(members, "opt_some"@) < members.len(),
    ensures
        ({
            let inner = members[key_index(members, "opt_some"@) as int].1;
            &&& type_of(Tree::Object(members), owner) == TypeModel::Optional(
                Box::new(type_of(inner, owner)),
            )
            &&& default_of(Tree::Object(members), owner) == DefaultModel::Present(
                Box::new(default_of(inner, owner)),
            )
        }),
{
}

/// An object without a member called `opt_some` but with one called
/// `opt_none` is an optional value that is absent: its type is the member's
/// type made optional, and it is initialised to nothing.
pub proof fn lemma_marked_absent(members: Seq<(Seq<char>, Tree)>, owner: Seq<char>)
    requires
        key_index(members, "opt_some"@) >= members.len(),
        key_index(members, "opt_none"@) < members.len(),
    ensures
        ({
            let inner = members[key_index(members, "opt_none"@) as int].1;
            &&& type_of(Tree::Object(members), owner) == TypeModel::Optional(
                Box::new(type_of(inner, owner)),
            )
            &&& default_of(Tree::Object(members), owner) == DefaultModel::Absent
        }),
{
}

/// The optional convention on the smallest objects that use it: the object
/// whose one member is called `opt_some` is present with that member's
/// value, the object whose one member is called `opt_none` is absent, and
/// both have the member's type made optional.
pub proof fn lemma_optional_convention(inner: Tree, owner: Seq<char>)
    ensures
        type_of(Tree::Object(seq![("opt_some"@, inner)]), owner) == TypeModel::Optional(
            Box::new(type_of(inner, owner)),
        ),
        default_of(Tree::Object(seq![("opt_some"@, inner)]), owner) == DefaultModel::Present(
            Box::new(default_of(inner, owner)),
        ),
        type_of(Tree::Object(seq![("opt_none"@, inner)]), owner) == TypeModel::Optional(
            Box::new(type_of(inner, owner)),
        ),
        default_of(Tree::Object(seq![("opt_none"@, inner)]), owner) == DefaultModel::Absent,
{
    reveal_strlit("opt_some");
    reveal_strlit("opt_none");
    assert("opt_some"@[4] == 's');
    assert("opt_none"@[4] == 'n');
    let present = seq![("opt_some"@, inner)];
    let absent = seq![("opt_none"@, inner)];
    assert(key_index(present, "opt_some"@) == 0);
    assert(key_index(absent, "opt_none"@) == 0);
    assert(absent.drop_first().len() == 0);
    assert(key_index(absent.drop_first(), "opt_some"@) == 0);
    assert(key_index(absent, "opt_some"@) == 1);
    lemma_marked_present(present, owner);
    lemma_marked_absent(absent, owner);
}

/// Infers the type of the field that holds `value` and the expression that
/// initialises it. `parent_name` names the position of the value; a record
/// found there is called by it.
///
/// Fails on an array whose elements differ in type, and on nothing else.
#[verifier::loop_isolation(false)]
pub fn generate_field_type(value: &Node, parent_name: &str) -> (r: Result<
    (TypeDescriptor, DefaultValue),
    GenerateError,
>)
    ensures
        r is Ok <==> uniform(value@, parent_name@),
        r matches Ok(pair) ==> pair.0@ == type_of(value@, parent_name@) && pair.1@ == default_of(
            value@,
            parent_name@,
        ),
        r matches Err(e) ==> e@ == ErrorModel::mixed_array(),
    decreases value,
{
    proof {
        reveal_with_fuel(type_model, 2);
    }
    match value {
        Node::Null => Ok(
            (TypeDescriptor::Optional(Box::new(TypeDescriptor::Text)), DefaultValue::Absent),
        ),
        Node::Bool(b) => Ok((TypeDescriptor::Bool, DefaultValue::Bool(*b))),
        Node::Number(n) => Ok(number_field(*n)),
        Node::String(s) => Ok((TypeDescriptor::Text, DefaultValue::Text(s.clone()))),
        Node::Array(items) => {
            proof {
                lemma_array_view(*items);
                lemma_defaults_of(item_trees(items@), parent_name@, items@.len());
            }
            let ghost trees = item_trees(items@);
            assert(value@->Array_0 == trees);
            if items.len() == 0 {
                let values: Vec<DefaultValue> = Vec::new();
                proof {
                    lemma_list_view(values);
                    assert(default_models(values@) =~= defaults_of(trees, parent_name@, 0));
                }
                return Ok(
                    (TypeDescriptor::List(Box::new(TypeDescriptor::Any)), DefaultValue::List(values)),
                );
            }
            let mut values: Vec<DefaultValue> = Vec::new();
            let first = match generate_field_type(&items[0], parent_name) {
                Ok((ty, val)) => {
                    values.push(val);
                    ty
                },
                Err(e) => {
                    assert(trees[0] == items@[0]@);
                    return Err(e);
                },
            };
            let mut i: usize = 1;
            while i < items.len()
                invariant
                    1 <= i <= items.len(),
                    trees == item_trees(items@),
                    values@.len() == i,
                    first@ == type_of(trees[0], parent_name@),
                    forall|j: int|
                        #![trigger trees[j]]
                        0 <= j < i ==> uniform(trees[j], parent_name@) && type_of(
                            trees[j],
                            parent_name@,
                        ) == first@ && values@[j]@ == default_of(trees[j], parent_name@),
                decreases items.len() - i,
            {
                assert(trees[i as int] == items@[i as int]@);
                match generate_field_type(&items[i], parent_name) {
                    Ok((ty, val)) => {
                        if !ty.same(&first) {
                            return Err(GenerateError::mixed_array());
                        }
                        values.push(val);
                    },
                    Err(e) => {
                        return Err(e);
                    },
                }
                i += 1;
            }
            proof {
                lemma_list_view(values);
                assert(default_models(values@) =~= defaults_of(trees, parent_name@, trees.len()));
            }
            Ok((TypeDescriptor::List(Box::new(first)), DefaultValue::List(values)))
        },
        Node::Object(members) => {
            proof {
                lemma_object_view(*members);
            }
            let ghost trees = member_trees(members@);
            assert(value@->Object_0 == trees);
            let some = key_position(members, "opt_some");
            if some < members.len() {
                assert(trees[some as int].1 == members@[some as int].1@);
                match generate_field_type(&members[some].1, parent_name) {
                    Ok((ty, val)) => Ok(
                        (
                            TypeDescriptor::Optional(Box::new(ty)),
                            DefaultValue::Present(Box::new(val)),
                        ),
                    ),
                    Err(e) => Err(e),
                }
            } else {
                let none = key_position(members, "opt_none");
                if none < members.len() {
                    assert(trees[none as int].1 == members@[none as int].1@);
                    match generate_field_type(&members[none].1, parent_name) {
                        Ok((ty, _)) => Ok(
                            (TypeDescriptor::Optional(Box::new(ty)), DefaultValue::Absent),
                        ),
                        Err(e) => Err(e),
                    }
                } else {
                    Ok(
                        (
                            TypeDescriptor::NamedStruct(String::from_str(parent_name)),
                            DefaultValue::Construct(String::from_str(parent_name)),
                        ),
                    )
                }
            }
        },
    }
}

/// The type of a number and the literal that stands for it.
fn number_field(n: Number) -> (r: (TypeDescriptor, DefaultValue))
    ensures
        r.0@ == number_type(n),
        r.1@ == number_default(n),
{
    match n {
        Number::Int(i) => (TypeDescriptor::Integer64, DefaultValue::Integer(i)),
        Number::UInt(u) => {
            if u <= 0x7fff_ffff_ffff_ffffu64 {
                (TypeDescriptor::Integer64, DefaultValue::Integer(u as i64))
            } else {
                (TypeDescriptor::UnsignedInteger64, DefaultValue::Unsigned(u))
            }
        },
        Number::Float(bits) => (TypeDescriptor::Float64, DefaultValue::Float(bits)),
    }
}

/// The field generated for one member of the object called `owner`.
pub open spec fn field_of(member: (Seq<char>, Tree), owner: Seq<char>) -> FieldModel {
    let origin = composite(owner, member.0);
    FieldModel {
        name: member.0,
        ty: type_of(member.1, origin),
        default: default_of(member.1, origin),
        origin,
    }
}

/// The fields generated for `value`, called `owner`: one for each member of
/// an object, in order, and none for anything else.
pub open spec fn fields_of(value: Tree, owner: Seq<char>) -> Seq<FieldModel> {
    match value {
        Tree::Object(members) => Seq::new(members.len(), |i: int| field_of(members[i], owner)),
        _ => Seq::empty(),
    }
}

/// Whether a type can be inferred for every member of `value`.
pub open spec fn fields_uniform(value: Tree, owner: Seq<char>) -> bool {
    match value {
        Tree::Object(members) => forall|i: int|
            #![trigger members[i]]
            0 <= i < members.len() ==> uniform(members[i].1, composite(owner, members[i].0)),
        _ => true,
    }
}

/// Describes the fields of the record generated for `value`: one for each
/// member of an object, in the members' order. Anything but an object has no
/// fields.
///
/// Fails if a member holds an array whose elements differ in type.
#[verifier::loop_isolation(false)]
pub fn generate_field_info(value: &Node, parent_name: &str) -> (r: Result<
    Vec<FieldDescriptor>,
    GenerateError,
>)
    ensures
        r is Ok <==> fields_uniform(value@, parent_name@),
        r matches Ok(fields) ==> field_models(fields@) == fields_of(value@, parent_name@),
        r matches Err(e) ==> e@ == ErrorModel::mixed_array(),
{
    let mut fields: Vec<FieldDescriptor> = Vec::new();
    match value {
        Node::Object(members) => {
            proof {
                lemma_object_view(*members);
            }
            let ghost trees = member_trees(members@);
            assert(value@->Object_0 == trees);
            let mut i: usize = 0;
            while i < members.len()
                invariant
                    i <= members.len(),
                    trees == member_trees(members@),
                    fields@.len() == i,
                    forall|j: int|
                        #![trigger trees[j]]
                        0 <= j < i ==> uniform(trees[j].1, composite(parent_name@, trees[j].0))
                            && fields@[j]@ == field_of(trees[j], parent_name@),
                decreases members.len() - i,
            {
                let key = &members[i].0;
                let origin = composite_name(parent_name, key.as_str());
                assert(trees[i as int] == (members@[i as int].0@, members@[i as int].1@));
                match generate_field_type(&members[i].1, origin.as_str()) {
                    Ok((ty, default)) => {
                        fields.push(FieldDescriptor { name: key.clone(), ty, default, origin });
                    },
                    Err(e) => {
                        return Err(e);
                    },
                }
                i += 1;
            }
            assert(field_models(fields@) =~= fields_of(value@, parent_name@));
            Ok(fields)
        },
        _ => {
            assert(field_models(fields@) =~= fields_of(value@, parent_name@));
            Ok(fields)
        },
    }
}

} // verus!
