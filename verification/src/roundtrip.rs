//! What the generated instances hold, held against the document.
//!
//! The instance that the value-populating constructor builds holds every
//! scalar and string member of the document as it stands. A member that is
//! a record is held as the all-zero record of its type: what is nested
//! deeper does not show. So the instance equals the all-zero instance
//! exactly if no member of the document itself carries a value other than
//! the zero of its type.
//!
//! That both instances exist is shown for documents whose generated names
//! are distinct and of whose members no array holds a record: where two
//! objects of a document are given one name, their definitions cannot be
//! told apart, and a record inside an array has no definition at all.

use crate::infer::{
    default_of, defaults_of, field_of, fields_of, lemma_defaults_of, marker, type_of, Marker,
};
use crate::instance::{
    eval, eval_list, float_eq, lookup, populate_fields, same, struct_index, zero, zero_fields,
    zero_instance, zero_record, DatumModel,
};
use crate::naming::{composite, lemma_path_from_front, path_name};
use crate::schema::{
    distinct_names, DefaultModel, FieldModel, ModuleModel, StructModel, TypeModel,
    VisibilityModel,
};
use crate::synth::{
    lemma_nested_upto_holds, module_of, nested_at, nested_of, nested_upto, struct_of,
};
use crate::value::{key_index, lemma_key_index, tree_at, Number, Tree};
use vstd::prelude::*;

verus! {

/// Whether `tree` is made of scalars, strings and objects only: it holds no
/// array, and no object of it is marked as an optional value.
pub open spec fn plain(tree: Tree) -> bool
    decreases tree,
{
    match tree {
        Tree::Array(_) => false,
        Tree::Object(members) => marker(members) is Plain && forall|i: int|
            #![trigger members[i]]
            0 <= i < members.len() ==> plain(members[i].1),
        _ => true,
    }
}

/// Whether `value` holds no record: it is a scalar, a string, null, an array
/// of such values, or an optional value that, if present, is such a value.
pub open spec fn flat(value: Tree) -> bool
    decreases value,
{
    match value {
        Tree::Array(items) => forall|i: int|
            #![trigger items[i]]
            0 <= i < items.len() ==> flat(items[i]),
        Tree::Object(members) => match marker(members) {
            Marker::Present(i) => flat(members[i].1),
            Marker::Absent(_) => true,
            Marker::Plain => false,
        },
        _ => true,
    }
}

/// Whether the expression of every member of `root` has a type to refer to:
/// a member that is no object holds no record. The elements of an array get
/// no type of their own, so a record among them refers to none.
pub open spec fn evaluable(root: Tree) -> bool {
    match root {
        Tree::Object(members) => forall|i: int|
            #![trigger members[i]]
            0 <= i < members.len() ==> members[i].1 is Object || flat(members[i].1),
        _ => true,
    }
}

/// The value that a field holds when it holds the number `n`.
pub open spec fn number_literal(n: Number) -> DatumModel {
    match n {
        Number::Int(i) => DatumModel::Integer(i),
        Number::UInt(u) => if u <= i64::MAX {
            DatumModel::Integer(u as i64)
        } else {
            DatumModel::Unsigned(u)
        },
        Number::Float(bits) => DatumModel::Float(bits),
    }
}

/// The value that a field holds when it holds the scalar or string `value`
/// as it stands in the document; null stands as the absent value.
pub open spec fn literal(value: Tree) -> DatumModel {
    match value {
        Tree::Bool(b) => DatumModel::Bool(b),
        Tree::Number(n) => number_literal(n),
        Tree::Text(s) => DatumModel::Text(s),
        _ => DatumModel::Absent,
    }
}

/// Whether `value` is a scalar, a string or null.
pub open spec fn is_leaf(value: Tree) -> bool {
    value is Null || value is Bool || value is Number || value is Text
}

/// What the field generated for `value` holds in a populated instance, if
/// `record` is the all-zero record of the type named after the field's
/// position: a scalar or a string as it stands in the document, an array
/// element by element, a present optional value as what it wraps, and a
/// record as `record`.
pub open spec fn held(value: Tree, record: DatumModel) -> DatumModel
    decreases value, 0nat,
{
    match value {
        Tree::Null => DatumModel::Absent,
        Tree::Bool(b) => DatumModel::Bool(b),
        Tree::Number(n) => number_literal(n),
        Tree::Text(s) => DatumModel::Text(s),
        Tree::Array(items) => DatumModel::List(held_items(items, record, items.len())),
        Tree::Object(members) => match marker(members) {
            Marker::Present(i) => DatumModel::Present(Box::new(held(members[i].1, record))),
            Marker::Absent(_) => DatumModel::Absent,
            Marker::Plain => record,
        },
    }
}

/// What a populated instance holds for the first `n` elements of an array.
pub open spec fn held_items(items: Seq<Tree>, record: DatumModel, n: nat) -> Seq<DatumModel>
    decreases items, n,
{
    if 0 < n <= items.len() {
        held_items(items, record, (n - 1) as nat).push(held(items[n - 1], record))
    } else {
        Seq::empty()
    }
}

/// The first `n` members of the object called `owner`, as the fields of its
/// populated instance.
pub open spec fn held_fields(members: Seq<(Seq<char>, Tree)>, owner: Seq<char>, n: nat) -> Seq<
    (Seq<char>, DatumModel),
>
    decreases n,
{
    if 0 < n <= members.len() {
        let child = composite(owner, members[n - 1].0);
        held_fields(members, owner, (n - 1) as nat).push(
            (members[n - 1].0, held(members[n - 1].1, blank_record(members[n - 1].1, child))),
        )
    } else {
        Seq::empty()
    }
}

/// The zero value of the type inferred for a number.
pub open spec fn number_blank(n: Number) -> DatumModel {
    match n {
        Number::Int(_) => DatumModel::Integer(0),
        Number::UInt(u) => if u <= i64::MAX {
            DatumModel::Integer(0)
        } else {
            DatumModel::Unsigned(0)
        },
        Number::Float(_) => DatumModel::Float(0),
    }
}

/// The zero value of the type inferred for `value`, found in the position
/// called `owner`.
pub open spec fn blank(value: Tree, owner: Seq<char>) -> DatumModel
    decreases value, 1nat,
{
    match value {
        Tree::Null => DatumModel::Absent,
        Tree::Bool(_) => DatumModel::Bool(false),
        Tree::Number(n) => number_blank(n),
        Tree::Text(_) => DatumModel::Text(Seq::empty()),
        Tree::Array(_) => DatumModel::List(Seq::empty()),
        Tree::Object(members) => if marker(members) is Plain {
            blank_record(value, owner)
        } else {
            DatumModel::Absent
        },
    }
}

/// The all-zero record of the type generated for `value` under the name
/// `owner`: every field holds the zero value of its member's type.
pub open spec fn blank_record(value: Tree, owner: Seq<char>) -> DatumModel
    decreases value, 0nat,
{
    match value {
        Tree::Object(members) => DatumModel::Record {
            name: owner,
            fields: blank_fields(members, owner, members.len()),
        },
        _ => DatumModel::Record { name: owner, fields: Seq::empty() },
    }
}

/// The first `n` members of the object called `owner`, as fields that hold
/// the zero values of their types.
pub open spec fn blank_fields(members: Seq<(Seq<char>, Tree)>, owner: Seq<char>, n: nat) -> Seq<
    (Seq<char>, DatumModel),
>
    decreases members, n,
{
    if 0 < n <= members.len() {
        blank_fields(members, owner, (n - 1) as nat).push(
            (members[n - 1].0, blank(members[n - 1].1, composite(owner, members[n - 1].0))),
        )
    } else {
        Seq::empty()
    }
}

/// Whether record types nested `fuel` deep suffice to build an instance for
/// `value`: no chain of objects nested in it is longer.
pub open spec fn fits(value: Tree, fuel: nat) -> bool
    decreases value,
{
    match value {
        Tree::Object(members) => forall|i: int|
            #![trigger members[i]]
            0 <= i < members.len() && members[i].1 is Object ==> fuel > 0 && fits(
                members[i].1,
                (fuel - 1) as nat,
            ),
        _ => true,
    }
}

proof fn lemma_fits_more(value: Tree, fuel: nat, more: nat)
    requires
        fits(value, fuel),
        fuel <= more,
    ensures
        fits(value, more),
    decreases value,
{
    match value {
        Tree::Object(members) => {
            assert forall|i: int|
                #![trigger members[i]]
                0 <= i < members.len() && members[i].1 is Object implies more > 0 && fits(
                members[i].1,
                (more - 1) as nat,
            ) by {
                lemma_fits_more(members[i].1, (fuel - 1) as nat, (more - 1) as nat);
            }
        },
        _ => {},
    }
}

proof fn lemma_fits_nested(value: Tree, owner: Seq<char>, vis: VisibilityModel)
    ensures
        fits(value, nested_of(value, owner, vis).len()),
    decreases value,
{
    match value {
        Tree::Object(members) => {
            let fuel = nested_of(value, owner, vis).len();
            assert forall|i: int|
                #![trigger members[i]]
                0 <= i < members.len() && members[i].1 is Object implies fuel > 0 && fits(
                members[i].1,
                (fuel - 1) as nat,
            ) by {
                let child = composite(owner, members[i].0);
                let at = nested_at(members[i], owner, vis);
                assert(at == seq![struct_of(members[i].1, child, vis)] + nested_of(
                    members[i].1,
                    child,
                    vis,
                ));
                lemma_nested_upto_holds(members, owner, vis, i, members.len(), 0);
                lemma_fits_nested(members[i].1, child, vis);
                lemma_fits_more(
                    members[i].1,
                    nested_of(members[i].1, child, vis).len(),
                    (fuel - 1) as nat,
                );
            }
        },
        _ => {},
    }
}

proof fn lemma_struct_index(structs: Seq<StructModel>, name: Seq<char>)
    ensures
        struct_index(structs, name) <= structs.len(),
        struct_index(structs, name) < structs.len() ==> structs[struct_index(
            structs,
            name,
        ) as int].name == name,
        forall|j: int| 0 <= j < struct_index(structs, name) ==> structs[j].name != name,
    decreases structs.len(),
{
    if structs.len() == 0 || structs[0].name == name {
    } else {
        let rest = structs.drop_first();
        lemma_struct_index(rest, name);
        assert forall|j: int| 0 <= j < struct_index(structs, name) implies structs[j].name
            != name by {
            if j > 0 {
                assert(structs[j] == rest[j - 1]);
            }
        }
    }
}

/// Among definitions with distinct names, a name refers to the one
/// definition that bears it.
pub proof fn lemma_lookup_distinct(structs: Seq<StructModel>, definition: StructModel)
    requires
        distinct_names(structs),
        structs.contains(definition),
    ensures
        lookup(structs, definition.name) == Some(definition),
{
    let k = choose|k: int| 0 <= k < structs.len() && structs[k] == definition;
    lemma_struct_index(structs, definition.name);
    let found = struct_index(structs, definition.name) as int;
    if found > k {
        assert(structs[k].name != definition.name);
    }
    if found < k {
        assert(structs[found].name != structs[k].name);
    }
}

/// Whether the definitions `structs` hold all that is generated for `value`
/// under the name `owner`: its own record type and those nested in it.
pub open spec fn provides(
    structs: Seq<StructModel>,
    value: Tree,
    owner: Seq<char>,
    vis: VisibilityModel,
) -> bool {
    &&& structs.contains(struct_of(value, owner, vis))
    &&& forall|k: int|
        0 <= k < nested_of(value, owner, vis).len() ==> structs.contains(
            #[trigger] nested_of(value, owner, vis)[k],
        )
}

proof fn lemma_provides_member(
    structs: Seq<StructModel>,
    members: Seq<(Seq<char>, Tree)>,
    owner: Seq<char>,
    vis: VisibilityModel,
    i: int,
)
    requires
        provides(structs, Tree::Object(members), owner, vis),
        0 <= i < members.len(),
        members[i].1 is Object,
    ensures
        provides(structs, members[i].1, composite(owner, members[i].0), vis),
{
    let value = Tree::Object(members);
    let child = composite(owner, members[i].0);
    let at = nested_at(members[i], owner, vis);
    let inner = nested_of(members[i].1, child, vis);
    assert(at == seq![struct_of(members[i].1, child, vis)] + inner);
    assert(nested_of(value, owner, vis) == nested_upto(members, owner, vis, members.len()));
    assert forall|k: int| 0 <= k < at.len() implies structs.contains(at[k]) by {
        lemma_nested_upto_holds(members, owner, vis, i, members.len(), k);
        let all = nested_of(value, owner, vis);
        let found = choose|found: int| 0 <= found < all.len() && all[found] == at[k];
        assert(structs.contains(all[found]));
    }
    assert(at[0] == struct_of(members[i].1, child, vis));
    assert forall|k: int| 0 <= k < inner.len() implies structs.contains(
        #[trigger] inner[k],
    ) by {
        assert(at[k + 1] == inner[k]);
    }
}

proof fn lemma_zero_object(
    structs: Seq<StructModel>,
    value: Tree,
    owner: Seq<char>,
    vis: VisibilityModel,
    fuel: nat,
)
    requires
        value is Object,
        distinct_names(structs),
        provides(structs, value, owner, vis),
        fits(value, fuel),
    ensures
        zero_instance(structs, struct_of(value, owner, vis), fuel) == Some(
            blank_record(value, owner),
        ),
        zero_record(structs, owner, fuel) == Some(blank_record(value, owner)),
    decreases value, 0nat,
{
    let members = value->Object_0;
    lemma_lookup_distinct(structs, struct_of(value, owner, vis));
    lemma_zero_members(structs, members, owner, vis, fuel, members.len());
}

proof fn lemma_zero_members(
    structs: Seq<StructModel>,
    members: Seq<(Seq<char>, Tree)>,
    owner: Seq<char>,
    vis: VisibilityModel,
    fuel: nat,
    n: nat,
)
    requires
        distinct_names(structs),
        provides(structs, Tree::Object(members), owner, vis),
        fits(Tree::Object(members), fuel),
        n <= members.len(),
    ensures
        zero_fields(structs, fields_of(Tree::Object(members), owner), fuel, n) == Some(
            blank_fields(members, owner, n),
        ),
    decreases members, n,
{
    if n > 0 {
        lemma_zero_members(structs, members, owner, vis, fuel, (n - 1) as nat);
        let member = members[n - 1];
        let child = composite(owner, member.0);
        let field = fields_of(Tree::Object(members), owner)[n - 1];
        assert(field == field_of(member, owner));
        match member.1 {
            Tree::Object(inner) => {
                if marker(inner) is Plain {
                    lemma_provides_member(structs, members, owner, vis, n - 1);
                    lemma_zero_object(structs, member.1, child, vis, (fuel - 1) as nat);
                    assert(field.ty == TypeModel::NamedStruct(child));
                }
            },
            _ => {},
        }
        assert(zero(structs, field.ty, fuel) == Some(blank(member.1, child)));
    }
}

proof fn lemma_eval_held(
    structs: Seq<StructModel>,
    value: Tree,
    owner: Seq<char>,
    fuel: nat,
    record: DatumModel,
)
    requires
        flat(value) || (fuel > 0 && zero_record(structs, owner, (fuel - 1) as nat) == Some(
            record,
        )),
    ensures
        eval(structs, default_of(value, owner), fuel) == Some(held(value, record)),
    decreases value, 0nat,
{
    match value {
        Tree::Array(items) => {
            lemma_defaults_of(items, owner, items.len());
            lemma_eval_held_items(structs, items, owner, fuel, record, items.len());
        },
        Tree::Object(members) => {
            match marker(members) {
                Marker::Present(i) => {
                    lemma_eval_held(structs, members[i].1, owner, fuel, record);
                },
                _ => {},
            }
        },
        _ => {},
    }
}

proof fn lemma_eval_held_items(
    structs: Seq<StructModel>,
    items: Seq<Tree>,
    owner: Seq<char>,
    fuel: nat,
    record: DatumModel,
    n: nat,
)
    requires
        n <= items.len(),
        flat(Tree::Array(items)) || (fuel > 0 && zero_record(
            structs,
            owner,
            (fuel - 1) as nat,
        ) == Some(record)),
    ensures
        eval_list(structs, defaults_of(items, owner, items.len()), fuel, n) == Some(
            held_items(items, record, n),
        ),
    decreases items, n,
{
    lemma_defaults_of(items, owner, items.len());
    if n > 0 {
        lemma_eval_held_items(structs, items, owner, fuel, record, (n - 1) as nat);
        assert(Tree::Array(items)->Array_0 == items);
        lemma_eval_held(structs, items[n - 1], owner, fuel, record);
    }
}

proof fn lemma_held_members(
    structs: Seq<StructModel>,
    members: Seq<(Seq<char>, Tree)>,
    owner: Seq<char>,
    vis: VisibilityModel,
    fuel: nat,
    n: nat,
)
    requires
        evaluable(Tree::Object(members)),
        distinct_names(structs),
        provides(structs, Tree::Object(members), owner, vis),
        fits(Tree::Object(members), fuel),
        n <= members.len(),
    ensures
        populate_fields(structs, fields_of(Tree::Object(members), owner), fuel, n) == Some(
            held_fields(members, owner, n),
        ),
    decreases n,
{
    if n > 0 {
        lemma_held_members(structs, members, owner, vis, fuel, (n - 1) as nat);
        let member = members[n - 1];
        let child = composite(owner, member.0);
        let field = fields_of(Tree::Object(members), owner)[n - 1];
        assert(field == field_of(member, owner));
        if member.1 is Object {
            lemma_provides_member(structs, members, owner, vis, n - 1);
            lemma_zero_object(structs, member.1, child, vis, (fuel - 1) as nat);
        }
        lemma_eval_held(structs, member.1, child, fuel, blank_record(member.1, child));
    }
}

/// The two instances of a document.
///
/// For a document whose generated types have distinct names and of whose
/// members no array holds a record, both instances exist. The one that the
/// value-populating constructor builds holds every member of the document:
/// a scalar or a string as it stands, an array element by element, a
/// present optional value as what it wraps, and a record as the all-zero
/// record of its type. The one that the all-defaults constructor builds
/// holds the zero of every member's type.
pub proof fn lemma_instances(root: Tree, name: Seq<char>, vis: VisibilityModel)
    requires
        root is Object,
        evaluable(root),
        distinct_names(module_of(root, name, vis).structs()),
    ensures
        module_of(root, name, vis).populated() == Some(
            DatumModel::Record {
                name,
                fields: held_fields(root->Object_0, name, root->Object_0.len()),
            },
        ),
        module_of(root, name, vis).zeroed() == Some(blank_record(root, name)),
{
    let module = module_of(root, name, vis);
    let structs = module.structs();
    let members = root->Object_0;
    assert(structs[structs.len() - 1] == struct_of(root, name, vis));
    assert forall|k: int| 0 <= k < nested_of(root, name, vis).len() implies structs.contains(
        #[trigger] nested_of(root, name, vis)[k],
    ) by {
        assert(structs[k] == nested_of(root, name, vis)[k]);
    }
    lemma_fits_nested(root, name, vis);
    lemma_fits_more(root, nested_of(root, name, vis).len(), structs.len());
    lemma_zero_object(structs, root, name, vis, structs.len());
    lemma_held_members(structs, members, name, vis, structs.len(), members.len());
}

/// What `datum` holds at the end of `path`, a chain of field names, if
/// every name of the chain is found.
pub open spec fn datum_at(datum: DatumModel, path: Seq<Seq<char>>) -> Option<DatumModel>
    decreases path.len(),
{
    if path.len() == 0 {
        Some(datum)
    } else {
        match datum.field(path[0]) {
            Some(inner) => datum_at(inner, path.drop_first()),
            None => None,
        }
    }
}

proof fn lemma_fields(members: Seq<(Seq<char>, Tree)>, owner: Seq<char>, n: nat)
    requires
        n <= members.len(),
    ensures
        held_fields(members, owner, n).len() == n,
        blank_fields(members, owner, n).len() == n,
        forall|i: int|
            0 <= i < n ==> #[trigger] held_fields(members, owner, n)[i] == (
                members[i].0,
                held(members[i].1, blank_record(members[i].1, composite(owner, members[i].0))),
            ),
        forall|i: int|
            0 <= i < n ==> #[trigger] blank_fields(members, owner, n)[i] == (
                members[i].0,
                blank(members[i].1, composite(owner, members[i].0)),
            ),
    decreases n,
{
    if n > 0 {
        lemma_fields(members, owner, (n - 1) as nat);
    }
}

proof fn lemma_same_keys<A, B>(a: Seq<(Seq<char>, A)>, b: Seq<(Seq<char>, B)>, key: Seq<char>)
    requires
        a.len() == b.len(),
        forall|i: int| 0 <= i < a.len() ==> a[i].0 == b[i].0,
    ensures
        key_index(a, key) == key_index(b, key),
    decreases a.len(),
{
    if a.len() > 0 {
        assert(a[0].0 == b[0].0);
        if a[0].0 != key {
            let rest_a = a.drop_first();
            let rest_b = b.drop_first();
            assert forall|i: int| 0 <= i < rest_a.len() implies rest_a[i].0 == rest_b[i].0 by {
                assert(rest_a[i] == a[i + 1]);
                assert(rest_b[i] == b[i + 1]);
            }
            lemma_same_keys(rest_a, rest_b, key);
        }
    }
}

/// Reading the all-zero record of a document along a chain of names gives
/// the zero of what the document holds at the end of that chain.
pub proof fn lemma_read_blank(root: Tree, name: Seq<char>, path: Seq<Seq<char>>)
    requires
        plain(root),
        tree_at(root, path) is Some,
    ensures
        datum_at(blank(root, name), path) == Some(
            blank(tree_at(root, path)->0, path_name(name, path)),
        ),
    decreases path.len(),
{
    if path.len() > 0 {
        let members = root->Object_0;
        let i = key_index(members, path[0]) as int;
        let fields = blank_fields(members, name, members.len());
        lemma_fields(members, name, members.len());
        lemma_same_keys(fields, members, path[0]);
        lemma_key_index(members, path[0]);
        assert(fields[i] == (members[i].0, blank(members[i].1, composite(name, members[i].0))));
        lemma_read_blank(members[i].1, composite(name, path[0]), path.drop_first());
        lemma_path_from_front(name, path);
    }
}

/// What is read back at the end of a chain of `depth` names, the last of
/// which leads to `value`: a member of the document itself is read as the
/// populated instance holds it, anything deeper as the zero of its type.
pub open spec fn read_back(value: Tree, owner: Seq<char>, depth: nat) -> DatumModel {
    if depth <= 1 {
        held(value, blank_record(value, owner))
    } else {
        blank(value, owner)
    }
}

/// Reading the populated instance, name by name.
///
/// For a document made of scalars, strings and nested objects whose
/// generated types have distinct names: what the document holds at the end
/// of a chain of member names, the populated instance holds at the end of
/// the same chain of field names, as `read_back` tells. In particular a
/// scalar or string member of the document itself is read back as it
/// stands, and so is one nested deeper if it is the zero of its type.
pub proof fn lemma_read_back(
    root: Tree,
    name: Seq<char>,
    vis: VisibilityModel,
    path: Seq<Seq<char>>,
)
    requires
        root is Object,
        plain(root),
        distinct_names(module_of(root, name, vis).structs()),
        path.len() >= 1,
        tree_at(root, path) is Some,
    ensures
        module_of(root, name, vis).populated() matches Some(instance) && datum_at(instance, path)
            == Some(read_back(tree_at(root, path)->0, path_name(name, path), path.len())),
        ({
            let leaf = tree_at(root, path)->0;
            is_leaf(leaf) && (path.len() == 1 || literal(leaf) == blank(leaf, name)) ==> (
            module_of(root, name, vis).populated() matches Some(instance) && datum_at(
                instance,
                path,
            ) == Some(literal(leaf)))
        }),
{
    let members = root->Object_0;
    assert forall|i: int| 0 <= i < members.len() implies members[i].1 is Object || flat(
        #[trigger] members[i].1,
    ) by {
        assert(plain(members[i].1));
    }
    lemma_instances(root, name, vis);
    let i = key_index(members, path[0]) as int;
    let fields = held_fields(members, name, members.len());
    lemma_fields(members, name, members.len());
    lemma_same_keys(fields, members, path[0]);
    lemma_key_index(members, path[0]);
    let child = composite(name, members[i].0);
    assert(fields[i] == (members[i].0, held(members[i].1, blank_record(members[i].1, child))));
    assert(plain(members[i].1));
    let rest = path.drop_first();
    lemma_path_from_front(name, path);
    let instance = module_of(root, name, vis).populated()->0;
    assert(instance.field(path[0]) == Some(fields[i].1));
    assert(datum_at(instance, path) == datum_at(fields[i].1, rest));
    assert(tree_at(root, path) == tree_at(members[i].1, rest));
    if rest.len() > 0 {
        assert(members[i].1 is Object);
        assert(fields[i].1 == blank(members[i].1, child));
        lemma_read_blank(members[i].1, child, rest);
    } else {
        assert(path_name(child, rest) == child);
    }
}

/// Whether the number is a zero.
pub open spec fn number_is_zero(n: Number) -> bool {
    match n {
        Number::Int(i) => i == 0,
        Number::UInt(u) => u == 0,
        Number::Float(bits) => float_eq(bits, 0),
    }
}

/// Whether a field that holds `value` differs from the zero of its type:
/// `value` is `true`, a number other than zero, a text or an array that is
/// not empty, or an optional value that is present. An object that is a
/// record never does: its field starts from the all-zero record.
pub open spec fn carries(value: Tree) -> bool {
    match value {
        Tree::Null => false,
        Tree::Bool(b) => b,
        Tree::Number(n) => !number_is_zero(n),
        Tree::Text(s) => s.len() > 0,
        Tree::Array(items) => items.len() > 0,
        Tree::Object(members) => marker(members) is Present,
    }
}

/// Whether one of the members of `root` itself differs from the zero of its
/// type. What is nested in a member that is a record does not count.
pub open spec fn shows(root: Tree) -> bool {
    match root {
        Tree::Object(members) => exists|i: int|
            #![trigger members[i]]
            0 <= i < members.len() && carries(members[i].1),
        _ => false,
    }
}

proof fn lemma_zero_same(structs: Seq<StructModel>, ty: TypeModel, fuel: nat)
    ensures
        zero(structs, ty, fuel) matches Some(datum) ==> same(datum, datum),
    decreases fuel, 0nat,
{
    assert(float_eq(0, 0)) by {
        assert(0u64 & 0x7ff0_0000_0000_0000 == 0) by (bit_vector);
        assert(0u64 & 0x7fff_ffff_ffff_ffff == 0) by (bit_vector);
    }
    match ty {
        TypeModel::NamedStruct(name) => {
            if fuel > 0 {
                lemma_zero_record_same(structs, name, (fuel - 1) as nat);
            }
        },
        _ => {},
    }
}

proof fn lemma_zero_instance_same(structs: Seq<StructModel>, definition: StructModel, fuel: nat)
    ensures
        zero_instance(structs, definition, fuel) matches Some(datum) ==> same(datum, datum),
    decreases fuel, 2nat,
{
    lemma_zero_fields_same(structs, definition.fields, fuel, definition.fields.len());
}

proof fn lemma_zero_record_same(structs: Seq<StructModel>, name: Seq<char>, fuel: nat)
    ensures
        zero_record(structs, name, fuel) matches Some(datum) ==> same(datum, datum),
    decreases fuel, 3nat,
{
    match lookup(structs, name) {
        Some(definition) => {
            lemma_zero_instance_same(structs, definition, fuel);
        },
        None => {},
    }
}

proof fn lemma_zero_fields_same(
    structs: Seq<StructModel>,
    fields: Seq<FieldModel>,
    fuel: nat,
    n: nat,
)
    ensures
        zero_fields(structs, fields, fuel, n) matches Some(data) ==> forall|i: int|
            #![trigger data[i]]
            0 <= i < data.len() ==> same(data[i].1, data[i].1),
    decreases fuel, 1nat, fields, n,
{
    if 0 < n <= fields.len() {
        lemma_zero_fields_same(structs, fields, fuel, (n - 1) as nat);
        lemma_zero_same(structs, fields[n - 1].ty, fuel);
    }
}

/// The all-zero instance is empty: whatever the definitions of a module,
/// the instance that its all-defaults constructor builds, where there is
/// one, equals itself as the emptiness test compares.
pub proof fn lemma_zeroed_is_empty(module: ModuleModel)
    ensures
        module.zeroed() matches Some(nothing) ==> module.is_empty(nothing),
{
    lemma_zero_instance_same(module.structs(), module.root, module.depth());
}

proof fn lemma_eval_list_len(
    structs: Seq<StructModel>,
    items: Seq<DefaultModel>,
    fuel: nat,
    n: nat,
)
    requires
        n <= items.len(),
    ensures
        eval_list(structs, items, fuel, n) matches Some(data) ==> data.len() == n,
    decreases n,
{
    if n > 0 {
        lemma_eval_list_len(structs, items, fuel, (n - 1) as nat);
    }
}

proof fn lemma_populate_fields_at(
    structs: Seq<StructModel>,
    fields: Seq<FieldModel>,
    fuel: nat,
    n: nat,
)
    requires
        n <= fields.len(),
    ensures
        populate_fields(structs, fields, fuel, n) matches Some(data) ==> data.len() == n
            && forall|i: int|
            #![trigger data[i]]
            0 <= i < n ==> data[i].0 == fields[i].name && eval(structs, fields[i].default, fuel)
                == Some(data[i].1),
    decreases n,
{
    if n > 0 {
        lemma_populate_fields_at(structs, fields, fuel, (n - 1) as nat);
    }
}

proof fn lemma_zero_fields_at(
    structs: Seq<StructModel>,
    fields: Seq<FieldModel>,
    fuel: nat,
    n: nat,
)
    requires
        n <= fields.len(),
    ensures
        zero_fields(structs, fields, fuel, n) matches Some(data) ==> data.len() == n
            && forall|i: int|
            #![trigger data[i]]
            0 <= i < n ==> data[i].0 == fields[i].name && zero(structs, fields[i].ty, fuel)
                == Some(data[i].1),
        (forall|i: int| 0 <= i < n ==> (#[trigger] zero(structs, fields[i].ty, fuel)) is Some)
            ==> zero_fields(structs, fields, fuel, n) is Some,
    decreases n,
{
    if n > 0 {
        lemma_zero_fields_at(structs, fields, fuel, (n - 1) as nat);
        if forall|i: int| 0 <= i < n ==> (#[trigger] zero(structs, fields[i].ty, fuel)) is Some {
            assert(zero(structs, fields[n - 1].ty, fuel) is Some);
            assert forall|i: int| 0 <= i < n - 1 implies (#[trigger] zero(
                structs,
                fields[i].ty,
                fuel,
            )) is Some by {}
        }
    }
}

/// One member in the two instances.
///
/// Where the expression inferred for `value` has a value, the type inferred
/// for it has a zero, and the two are equal exactly if `value` carries
/// nothing: it is `false`, a zero, an empty text or array, null, an absent
/// optional value, or a record.
pub proof fn lemma_member_emptiness(
    structs: Seq<StructModel>,
    value: Tree,
    owner: Seq<char>,
    fuel: nat,
)
    requires
        eval(structs, default_of(value, owner), fuel) is Some,
    ensures
        zero(structs, type_of(value, owner), fuel) matches Some(nothing) && (same(
            eval(structs, default_of(value, owner), fuel)->0,
            nothing,
        ) <==> !carries(value)),
{
    match value {
        Tree::Text(s) => {
            if s.len() == 0 {
                assert(s =~= Seq::empty());
            }
        },
        Tree::Array(items) => {
            lemma_defaults_of(items, owner, items.len());
            lemma_eval_list_len(structs, defaults_of(items, owner, items.len()), fuel, items.len());
        },
        Tree::Object(members) => {
            if marker(members) is Plain {
                lemma_zero_record_same(structs, owner, (fuel - 1) as nat);
            }
        },
        _ => {},
    }
}

/// Emptiness of the two instances of a document.
///
/// Whatever the document, if its populated instance exists, so does its
/// all-zero instance, which is empty; and the populated instance is empty
/// exactly if no member of the document itself carries anything: none is a
/// `true`, a number other than zero, a text or an array that is not empty,
/// or an optional value that is present. What a nested record holds does
/// not show in the instance of its owner.
pub proof fn lemma_emptiness(root: Tree, name: Seq<char>, vis: VisibilityModel)
    requires
        module_of(root, name, vis).populated() is Some,
    ensures
        module_of(root, name, vis).zeroed() matches Some(nothing) && module_of(
            root,
            name,
            vis,
        ).is_empty(nothing),
        module_of(root, name, vis).is_empty(module_of(root, name, vis).populated()->0)
            <==> !shows(root),
{
    let module = module_of(root, name, vis);
    let structs = module.structs();
    let fuel = module.depth();
    let fields = fields_of(root, name);
    let full = populate_fields(structs, fields, fuel, fields.len())->0;
    lemma_populate_fields_at(structs, fields, fuel, fields.len());
    lemma_zero_fields_at(structs, fields, fuel, fields.len());
    match root {
        Tree::Object(members) => {
            assert forall|i: int| 0 <= i < fields.len() implies (#[trigger] zero(
                structs,
                fields[i].ty,
                fuel,
            )) matches Some(nothing) && (same(full[i].1, nothing) <==> !carries(members[i].1)) by {
                assert(fields[i] == field_of(members[i], name));
                assert(eval(structs, fields[i].default, fuel) == Some(full[i].1));
                lemma_member_emptiness(
                    structs,
                    members[i].1,
                    composite(name, members[i].0),
                    fuel,
                );
            }
            let empty = zero_fields(structs, fields, fuel, fields.len())->0;
            if shows(root) {
                let i = choose|i: int| 0 <= i < members.len() && carries(members[i].1);
                assert(zero(structs, fields[i].ty, fuel) == Some(empty[i].1));
                assert(!same(full[i].1, empty[i].1));
            } else {
                assert forall|i: int| 0 <= i < full.len() implies full[i].0 == empty[i].0 && same(
                    full[i].1,
                    empty[i].1,
                ) by {
                    assert(zero(structs, fields[i].ty, fuel) == Some(empty[i].1));
                    assert(!carries(members[i].1));
                }
            }
        },
        _ => {},
    }
    lemma_zeroed_is_empty(module);
}

/// A member of the document, read back.
///
/// Whatever the document, if its populated instance exists, the field named
/// after a scalar or string member holds that member as it stands in the
/// document, and null as the absent value. Where two members have one name,
/// this holds of the first.
pub proof fn lemma_member_read_back(root: Tree, name: Seq<char>, vis: VisibilityModel, i: int)
    requires
        root is Object,
        0 <= i < root->Object_0.len(),
        is_leaf(root->Object_0[i].1),
        key_index(root->Object_0, root->Object_0[i].0) == i,
        module_of(root, name, vis).populated() is Some,
    ensures
        module_of(root, name, vis).populated()->0.field(root->Object_0[i].0) == Some(
            literal(root->Object_0[i].1),
        ),
{
    let module = module_of(root, name, vis);
    let members = root->Object_0;
    let fields = fields_of(root, name);
    let full = populate_fields(module.structs(), fields, module.depth(), fields.len())->0;
    lemma_populate_fields_at(module.structs(), fields, module.depth(), fields.len());
    assert forall|j: int| 0 <= j < full.len() implies full[j].0 == members[j].0 by {
        assert(fields[j] == field_of(members[j], name));
    }
    lemma_same_keys(full, members, members[i].0);
    assert(fields[i] == field_of(members[i], name));
    assert(eval(module.structs(), fields[i].default, module.depth()) == Some(full[i].1));
}

} // verus!
