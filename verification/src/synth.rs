//! Synthesis: from a document to the record types that mirror it.

use crate::error::{ErrorModel, GenerateError};
use crate::infer::{fields_of, fields_uniform, generate_field_info};
use crate::naming::{composite, composite_name, lemma_path_from_front, path_name};
use crate::schema::{
    struct_models, GeneratedModule, GeneratedStruct, ModuleModel, StructModel, Visibility,
    VisibilityModel,
};
use crate::value::{
    key_index, lemma_key_index, lemma_object_view, member_trees, tree_at, well_formed, Node, Tree,
};
use vstd::prelude::*;
use vstd::string::*;

verus! {

/// The record type generated for `value` under the name `name`.
pub open spec fn struct_of(value: Tree, name: Seq<char>, vis: VisibilityModel) -> StructModel {
    StructModel { name, fields: fields_of(value, name), visibility: vis }
}

/// The record types generated for what is nested in `value`, itself called
/// `owner`: for each member that holds an object, in order, the type of that
/// object and then the types nested in it.
pub open spec fn nested_of(value: Tree, owner: Seq<char>, vis: VisibilityModel) -> Seq<
    StructModel,
>
    decreases value, 0nat,
{
    match value {
        Tree::Object(members) => nested_upto(members, owner, vis, members.len()),
        _ => Seq::empty(),
    }
}

/// The record types generated for the first `n` members of an object.
pub open spec fn nested_upto(
    members: Seq<(Seq<char>, Tree)>,
    owner: Seq<char>,
    vis: VisibilityModel,
    n: nat,
) -> Seq<StructModel>
    decreases members, n,
{
    if 0 < n <= members.len() {
        nested_upto(members, owner, vis, (n - 1) as nat) + nested_at(members[n - 1], owner, vis)
    } else {
        Seq::empty()
    }
}

/// The record types generated for one member of the object called `owner`.
pub open spec fn nested_at(
    member: (Seq<char>, Tree),
    owner: Seq<char>,
    vis: VisibilityModel,
) -> Seq<StructModel>
    decreases member, 0nat,
{
    match member.1 {
        Tree::Object(_) => {
            let name = composite(owner, member.0);
            seq![struct_of(member.1, name, vis)] + nested_of(member.1, name, vis)
        },
        _ => Seq::empty(),
    }
}

/// What is generated for one member is part of what is generated for the
/// members up to it and beyond.
pub proof fn lemma_nested_upto_holds(
    members: Seq<(Seq<char>, Tree)>,
    owner: Seq<char>,
    vis: VisibilityModel,
    i: int,
    n: nat,
    k: int,
)
    requires
        0 <= i < n <= members.len(),
        0 <= k < nested_at(members[i], owner, vis).len(),
    ensures
        nested_upto(members, owner, vis, n).contains(nested_at(members[i], owner, vis)[k]),
        nested_upto(members, owner, vis, n).len() >= nested_at(members[i], owner, vis).len(),
    decreases n,
{
    let before = nested_upto(members, owner, vis, (n - 1) as nat);
    let last = nested_at(members[n - 1], owner, vis);
    assert(nested_upto(members, owner, vis, n) == before + last);
    if i == n - 1 {
        assert((before + last)[before.len() + k] == last[k]);
    } else {
        lemma_nested_upto_holds(members, owner, vis, i, (n - 1) as nat, k);
        let wanted = nested_at(members[i], owner, vis)[k];
        let at = choose|at: int| 0 <= at < before.len() && before[at] == wanted;
        assert((before + last)[at] == before[at]);
    }
}

/// Where an element of what is generated for the first `n` members comes
/// from: the member and the place in what is generated for it.
proof fn lemma_nested_upto_from(
    members: Seq<(Seq<char>, Tree)>,
    owner: Seq<char>,
    vis: VisibilityModel,
    n: nat,
    k: int,
) -> (r: (int, int))
    requires
        n <= members.len(),
        0 <= k < nested_upto(members, owner, vis, n).len(),
    ensures
        0 <= r.0 < n,
        0 <= r.1 < nested_at(members[r.0], owner, vis).len(),
        nested_upto(members, owner, vis, n)[k] == nested_at(members[r.0], owner, vis)[r.1],
    decreases n,
{
    let before = nested_upto(members, owner, vis, (n - 1) as nat);
    if k < before.len() {
        lemma_nested_upto_from(members, owner, vis, (n - 1) as nat, k)
    } else {
        (n - 1, k - before.len())
    }
}

/// No nested object goes without its record type.
///
/// Whatever object is reached in `value` along a chain of member names, the
/// record types generated for `value` hold the one of that object, under
/// the name that the chain spells out, with one field for each of its
/// members.
pub proof fn lemma_nested_objects_are_defined(
    value: Tree,
    owner: Seq<char>,
    vis: VisibilityModel,
    path: Seq<Seq<char>>,
)
    requires
        path.len() >= 1,
        tree_at(value, path) matches Some(found) && found is Object,
    ensures
        nested_of(value, owner, vis).contains(
            struct_of(tree_at(value, path)->0, path_name(owner, path), vis),
        ),
    decreases path.len(),
{
    let members = value->Object_0;
    let i = key_index(members, path[0]) as int;
    lemma_key_index(members, path[0]);
    let child = composite(owner, path[0]);
    let rest = path.drop_first();
    let inner = nested_of(members[i].1, child, vis);
    let at = nested_at(members[i], owner, vis);
    assert(tree_at(value, path) == tree_at(members[i].1, rest));
    assert(members[i].1 is Object);
    assert(at == seq![struct_of(members[i].1, child, vis)] + inner);
    lemma_path_from_front(owner, path);
    if rest.len() == 0 {
        assert(path_name(child, rest) == child);
        assert(at[0] == struct_of(members[i].1, child, vis));
        lemma_nested_upto_holds(members, owner, vis, i, members.len(), 0);
    } else {
        lemma_nested_objects_are_defined(members[i].1, child, vis, rest);
        let wanted = struct_of(tree_at(value, path)->0, path_name(owner, path), vis);
        let k = choose|k: int| 0 <= k < inner.len() && inner[k] == wanted;
        assert(at[k + 1] == inner[k]);
        lemma_nested_upto_holds(members, owner, vis, i, members.len(), k + 1);
    }
}

/// No record type goes without its nested object.
///
/// In a document, where no object has two members of one name, every record
/// type generated for what is nested is the type of an object of the
/// document: the proof hands out the chain of member names that leads to it
/// and spells out its name.
pub proof fn lemma_nested_are_objects(
    value: Tree,
    owner: Seq<char>,
    vis: VisibilityModel,
    k: int,
) -> (path: Seq<Seq<char>>)
    requires
        well_formed(value),
        0 <= k < nested_of(value, owner, vis).len(),
    ensures
        path.len() >= 1,
        tree_at(value, path) matches Some(found) && found is Object,
        nested_of(value, owner, vis)[k] == struct_of(
            tree_at(value, path)->0,
            path_name(owner, path),
            vis,
        ),
    decreases value,
{
    let members = value->Object_0;
    let (i, j) = lemma_nested_upto_from(members, owner, vis, members.len(), k);
    let key = members[i].0;
    let child = composite(owner, key);
    let inner = nested_of(members[i].1, child, vis);
    let at = nested_at(members[i], owner, vis);
    assert(at == seq![struct_of(members[i].1, child, vis)] + inner);
    lemma_key_index(members, key);
    let first = key_index(members, key) as int;
    if first < i {
        assert(members[first].0 != members[i].0);
    }
    assert(first == i);
    if j == 0 {
        let path = seq![key];
        assert(path.drop_first().len() == 0);
        assert(tree_at(value, path) == tree_at(members[i].1, path.drop_first()));
        lemma_path_from_front(owner, path);
        assert(path_name(child, path.drop_first()) == child);
        path
    } else {
        assert(at[j] == inner[j - 1]);
        let rest = lemma_nested_are_objects(members[i].1, child, vis, j - 1);
        let path = seq![key] + rest;
        assert(path.drop_first() =~= rest);
        assert(tree_at(value, path) == tree_at(members[i].1, rest));
        lemma_path_from_front(owner, path);
        path
    }
}

/// Whether the record types nested in `value` can all be generated: a type
/// can be inferred for every member of every object nested in it.
pub open spec fn nested_uniform(value: Tree, owner: Seq<char>) -> bool
    decreases value,
{
    match value {
        Tree::Object(members) => forall|i: int|
            #![trigger members[i]]
            0 <= i < members.len() && members[i].1 is Object ==> fields_uniform(
                members[i].1,
                composite(owner, members[i].0),
            ) && nested_uniform(members[i].1, composite(owner, members[i].0)),
        _ => true,
    }
}

/// Generates the record types of the objects nested in `value`, at any depth:
/// each object's type, named after its position, is followed by the types
/// nested in it, and the members are taken in order.
///
/// Fails if a member of a nested object holds an array whose elements differ
/// in type.
#[verifier::loop_isolation(false)]
pub fn generate_nested_structs(value: &Node, parent_name: &str, vis: &Visibility) -> (r: Result<
    Vec<GeneratedStruct>,
    GenerateError,
>)
    ensures
        r is Ok <==> nested_uniform(value@, parent_name@),
        r matches Ok(structs) ==> struct_models(structs@) == nested_of(
            value@,
            parent_name@,
            vis@,
        ),
        r matches Err(e) ==> e@ == ErrorModel::mixed_array(),
    decreases value,
{
    let mut structs: Vec<GeneratedStruct> = Vec::new();
    match value {
        Node::Object(members) => {
            proof {
                lemma_object_view(*members);
            }
            let ghost trees = member_trees(members@);
            assert(value@->Object_0 == trees);
            let mut i: usize = 0;
            assert(struct_models(structs@) =~= nested_upto(trees, parent_name@, vis@, 0));
            while i < members.len()
                invariant
                    i <= members.len(),
                    struct_models(structs@) == nested_upto(trees, parent_name@, vis@, i as nat),
                    forall|j: int|
                        #![trigger trees[j]]
                        0 <= j < i && trees[j].1 is Object ==> fields_uniform(
                            trees[j].1,
                            composite(parent_name@, trees[j].0),
                        ) && nested_uniform(trees[j].1, composite(parent_name@, trees[j].0)),
                decreases members.len() - i,
            {
                assert(trees[i as int] == (members@[i as int].0@, members@[i as int].1@));
                let ghost before = struct_models(structs@);
                if let Node::Object(_) = &members[i].1 {
                    let name = composite_name(parent_name, members[i].0.as_str());
                    let fields = match generate_field_info(&members[i].1, name.as_str()) {
                        Ok(fields) => fields,
                        Err(e) => {
                            return Err(e);
                        },
                    };
                    let mut inner = match generate_nested_structs(
                        &members[i].1,
                        name.as_str(),
                        vis,
                    ) {
                        Ok(inner) => inner,
                        Err(e) => {
                            return Err(e);
                        },
                    };
                    let ghost inner_models = struct_models(inner@);
                    let own = GeneratedStruct { name, fields, visibility: vis.clone() };
                    assert(own@ == struct_of(trees[i as int].1, own.name@, vis@));
                    structs.push(own);
                    structs.append(&mut inner);
                    assert(struct_models(structs@) =~= before + (seq![own@] + inner_models));
                    assert(nested_at(trees[i as int], parent_name@, vis@) == seq![own@]
                        + inner_models);
                } else {
                    assert(nested_at(trees[i as int], parent_name@, vis@) =~= Seq::empty());
                    assert(before + Seq::<StructModel>::empty() =~= before);
                }
                assert(nested_upto(trees, parent_name@, vis@, (i + 1) as nat) == nested_upto(
                    trees,
                    parent_name@,
                    vis@,
                    i as nat,
                ) + nested_at(trees[i as int], parent_name@, vis@));
                i += 1;
            }
            Ok(structs)
        },
        _ => {
            assert(struct_models(structs@) =~= nested_of(value@, parent_name@, vis@));
            Ok(structs)
        },
    }
}

/// All that is generated for `root` under the name `name`.
pub open spec fn module_of(root: Tree, name: Seq<char>, vis: VisibilityModel) -> ModuleModel {
    ModuleModel { nested: nested_of(root, name, vis), root: struct_of(root, name, vis) }
}

/// Whether record types can be generated for `root`: a type can be inferred
/// for every member of the document and of every object nested in it.
pub open spec fn can_synthesize(root: Tree, name: Seq<char>) -> bool {
    fields_uniform(root, name) && nested_uniform(root, name)
}

/// Generates the record types for the document `root`: the type called
/// `struct_name` for the document itself, and before it the types of all the
/// objects nested in it. The same document and name always give the same
/// types in the same order.
///
/// Fails if the document holds, as a member of any object, an array whose
/// elements differ in type.
pub fn synthesize(root: &Node, struct_name: &str, vis: &Visibility) -> (r: Result<
    GeneratedModule,
    GenerateError,
>)
    ensures
        r is Ok <==> can_synthesize(root@, struct_name@),
        r matches Ok(module) ==> module@ == module_of(root@, struct_name@, vis@),
        r matches Err(e) ==> e@ == ErrorModel::mixed_array(),
{
    let fields = match generate_field_info(root, struct_name) {
        Ok(fields) => fields,
        Err(e) => {
            return Err(e);
        },
    };
    let nested = match generate_nested_structs(root, struct_name, vis) {
        Ok(nested) => nested,
        Err(e) => {
            return Err(e);
        },
    };
    let root_struct = GeneratedStruct {
        name: String::from_str(struct_name),
        fields,
        visibility: vis.clone(),
    };
    Ok(GeneratedModule { nested, root: root_struct })
}

} // verus!
