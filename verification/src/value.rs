//! The value tree: configuration data as the parsers deliver it.

use vstd::prelude::*;
use vstd::string::*;

verus! {

/// A number of a document. The three forms keep apart what fits a signed
/// 64-bit integer, what fits only an unsigned one, and what is fractional.
#[derive(Clone, Copy, Debug, PartialEq, Eq, Structural)]
pub enum Number {
    /// An integer between `i64::MIN` and `i64::MAX`.
    Int(i64),
    /// A non-negative integer up to `u64::MAX`.
    UInt(u64),
    /// A 64-bit floating-point number, held as its IEEE 754 bit pattern.
    Float(u64),
}

/// A node of a document.
#[derive(Debug, PartialEq)]
pub enum Node {
    Null,
    Bool(bool),
    Number(Number),
    String(String),
    Array(Vec<Node>),
    /// The members of an object, in the order in which fields are generated.
    Object(Vec<(String, Node)>),
}

/// The mathematical form of a [`Node`].
pub enum Tree {
    Null,
    Bool(bool),
    Number(Number),
    Text(Seq<char>),
    Array(Seq<Tree>),
    Object(Seq<(Seq<char>, Tree)>),
}

impl View for Node {
    type V = Tree;

    open spec fn view(&self) -> Tree {
        tree_of(*self)
    }
}

/// The mathematical form of a value.
pub open spec fn tree_of(value: Node) -> Tree
    decreases value, 0nat,
{
    match value {
        Node::Null => Tree::Null,
        Node::Bool(b) => Tree::Bool(b),
        Node::Number(n) => Tree::Number(n),
        Node::String(s) => Tree::Text(s@),
        Node::Array(items) => Tree::Array(trees_of(items, items@.len())),
        Node::Object(members) => Tree::Object(members_of(members, members@.len())),
    }
}

/// The mathematical forms of the first `n` elements of an array.
pub open spec fn trees_of(items: Vec<Node>, n: nat) -> Seq<Tree>
    decreases items, n,
{
    if 0 < n <= items@.len() {
        trees_of(items, (n - 1) as nat).push(tree_of(items@[n - 1]))
    } else {
        Seq::empty()
    }
}

/// The mathematical forms of the first `n` members of an object.
pub open spec fn members_of(members: Vec<(String, Node)>, n: nat) -> Seq<(Seq<char>, Tree)>
    decreases members, n,
{
    if 0 < n <= members@.len() {
        members_of(members, (n - 1) as nat).push((members@[n - 1].0@, tree_of(members@[n - 1].1)))
    } else {
        Seq::empty()
    }
}

/// The mathematical form of the elements of an array.
pub open spec fn item_trees(items: Seq<Node>) -> Seq<Tree> {
    Seq::new(items.len(), |i: int| items[i]@)
}

/// The mathematical form of the members of an object.
pub open spec fn member_trees(members: Seq<(String, Node)>) -> Seq<(Seq<char>, Tree)> {
    Seq::new(members.len(), |i: int| (members[i].0@, members[i].1@))
}

proof fn lemma_trees_of(items: Vec<Node>, n: nat)
    requires
        n <= items@.len(),
    ensures
        trees_of(items, n) == item_trees(items@).take(n as int),
    decreases n,
{
    if n > 0 {
        lemma_trees_of(items, (n - 1) as nat);
    }
    assert(trees_of(items, n) =~= item_trees(items@).take(n as int));
}

proof fn lemma_members_of(members: Vec<(String, Node)>, n: nat)
    requires
        n <= members@.len(),
    ensures
        members_of(members, n) == member_trees(members@).take(n as int),
    decreases n,
{
    if n > 0 {
        lemma_members_of(members, (n - 1) as nat);
    }
    assert(members_of(members, n) =~= member_trees(members@).take(n as int));
}

/// An array is, mathematically, the sequence of its elements' forms.
pub proof fn lemma_array_view(items: Vec<Node>)
    ensures
        Node::Array(items)@ == Tree::Array(item_trees(items@)),
{
    lemma_trees_of(items, items@.len());
    assert(item_trees(items@).take(items@.len() as int) =~= item_trees(items@));
}

/// An object is, mathematically, the sequence of its members' forms.
pub proof fn lemma_object_view(members: Vec<(String, Node)>)
    ensures
        Node::Object(members)@ == Tree::Object(member_trees(members@)),
{
    lemma_members_of(members, members@.len());
    assert(member_trees(members@).take(members@.len() as int) =~= member_trees(members@));
}

impl Clone for Node {
    #[verifier::loop_isolation(false)]
    fn clone(&self) -> (r: Self)
        ensures
            r@ == self@,
        decreases self,
    {
        match self {
            Node::Null => Node::Null,
            Node::Bool(b) => Node::Bool(*b),
            Node::Number(n) => Node::Number(*n),
            Node::String(s) => Node::String(s.clone()),
            Node::Array(items) => {
                let mut out: Vec<Node> = Vec::new();
                let mut i: usize = 0;
                while i < items.len()
                    invariant
                        i <= items.len(),
                        out@.len() == i,
                        forall|j: int| #![trigger out@[j]] 0 <= j < i ==> out@[j]@ == items@[j]@,
                    decreases items.len() - i,
                {
                    let item = items[i].clone();
                    out.push(item);
                    i += 1;
                }
                proof {
                    lemma_array_view(out);
                    lemma_array_view(*items);
                    assert(item_trees(out@) =~= item_trees(items@));
                }
                Node::Array(out)
            },
            Node::Object(members) => {
                let mut out: Vec<(String, Node)> = Vec::new();
                let mut i: usize = 0;
                while i < members.len()
                    invariant
                        i <= members.len(),
                        out@.len() == i,
                        forall|j: int|
                            #![trigger out@[j]]
                            0 <= j < i ==> out@[j].0@ == members@[j].0@ && out@[j].1@
                                == members@[j].1@,
                    decreases members.len() - i,
                {
                    let value = members[i].1.clone();
                    out.push((members[i].0.clone(), value));
                    i += 1;
                }
                proof {
                    lemma_object_view(out);
                    lemma_object_view(*members);
                    assert(member_trees(out@) =~= member_trees(members@));
                }
                Node::Object(out)
            },
        }
    }
}

/// Whether no two of the members have the same name.
pub open spec fn distinct_keys(members: Seq<(Seq<char>, Tree)>) -> bool {
    forall|i: int, j: int|
        #![trigger members[i], members[j]]
        0 <= i < j < members.len() ==> members[i].0 != members[j].0
}

/// Whether `tree` is a document: in every object of it, at any depth, no
/// two members have the same name.
pub open spec fn well_formed(tree: Tree) -> bool
    decreases tree,
{
    match tree {
        Tree::Array(items) => forall|i: int|
            #![trigger items[i]]
            0 <= i < items.len() ==> well_formed(items[i]),
        Tree::Object(members) => distinct_keys(members) && forall|i: int|
            #![trigger members[i]]
            0 <= i < members.len() ==> well_formed(members[i].1),
        _ => true,
    }
}

/// The position of the first of the named items `members` that is called
/// `key`, or the number of items if there is none.
pub open spec fn key_index<T>(members: Seq<(Seq<char>, T)>, key: Seq<char>) -> nat
    decreases members.len(),
{
    if members.len() == 0 || members[0].0 == key {
        0
    } else {
        1 + key_index(members.drop_first(), key)
    }
}

/// `key_index` is the least position that holds `key`.
pub proof fn lemma_key_index<T>(members: Seq<(Seq<char>, T)>, key: Seq<char>)
    ensures
        key_index(members, key) <= members.len(),
        key_index(members, key) < members.len() ==> members[key_index(members, key) as int].0
            == key,
        forall|j: int| 0 <= j < key_index(members, key) ==> members[j].0 != key,
    decreases members.len(),
{
    if members.len() == 0 || members[0].0 == key {
    } else {
        let rest = members.drop_first();
        lemma_key_index(rest, key);
        assert forall|j: int| 0 <= j < key_index(members, key) implies members[j].0 != key by {
            if j > 0 {
                assert(members[j] == rest[j - 1]);
            }
        }
    }
}

/// What stands in `tree` at the end of `path`, a chain of member names, if
/// every name of the chain is found.
pub open spec fn tree_at(tree: Tree, path: Seq<Seq<char>>) -> Option<Tree>
    decreases path.len(),
{
    if path.len() == 0 {
        Some(tree)
    } else {
        match tree {
            Tree::Object(members) => {
                let i = key_index(members, path[0]);
                if i < members.len() {
                    tree_at(members[i as int].1, path.drop_first())
                } else {
                    None
                }
            },
            _ => None,
        }
    }
}

/// Finds the first member called `key`; answers the number of members if
/// there is none.
pub fn key_position(members: &Vec<(String, Node)>, key: &str) -> (r: usize)
    ensures
        r == key_index(member_trees(members@), key@),
        r <= members.len(),
{
    let wanted = String::from_str(key);
    let ghost all = member_trees(members@);
    let mut i: usize = 0;
    assert(all.skip(0) == all);
    while i < members.len()
        invariant
            i <= members.len(),
            wanted@ == key@,
            all == member_trees(members@),
            key_index(all, key@) == i + key_index(all.skip(i as int), key@),
        decreases members.len() - i,
    {
        assert(all.skip(i as int)[0] == all[i as int]);
        if members[i].0 == wanted {
            return i;
        }
        assert(all.skip(i as int).drop_first() == all.skip(i + 1));
        i += 1;
    }
    i
}

} // verus!
