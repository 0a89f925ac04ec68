//! Names of generated types.
//!
//! A nested object is named after the type that owns it and the key under
//! which it was found: the key is split at underscores, every word gets an
//! upper-case initial, and the words are appended to the owner's name.

use vstd::prelude::*;
use vstd::string::*;

verus! {

/// The upper-case form of a character: what `char::to_uppercase` yields for
/// it, in order. Unicode maps some characters to more than one.
pub uninterp spec fn uppercase_of(c: char) -> Seq<char>;

/// Calls `char::to_uppercase` and collects what it yields. The contract gives
/// the outcome its name and repeats the one thing the documentation promises
/// of every character: the mapping is never empty.
#[verifier::external_body]
fn uppercase(c: char) -> (r: String)
    ensures
        r@ == uppercase_of(c),
        r@.len() >= 1,
{
    c.to_uppercase().collect()
}

/// Whether the character at `i` opens a word of `s`: it is the first one, or
/// it follows an underscore.
pub open spec fn opens_word(s: Seq<char>, i: int) -> bool {
    i == 0 || s[i - 1] == '_'
}

/// What the character at `i` contributes to the capitalised form of `s`:
/// nothing if it is an underscore, its upper-case form if it opens a word,
/// and itself otherwise.
pub open spec fn piece(s: Seq<char>, i: int) -> Seq<char> {
    if s[i] == '_' {
        Seq::empty()
    } else if opens_word(s, i) {
        uppercase_of(s[i])
    } else {
        seq![s[i]]
    }
}

/// The capitalised form of `s`: the words between its underscores, each with
/// an upper-case initial and an unchanged remainder, run together.
pub open spec fn pascal_case(s: Seq<char>) -> Seq<char>
    decreases s.len(),
{
    if s.len() == 0 {
        Seq::empty()
    } else {
        pascal_case(s.drop_last()) + piece(s, s.len() - 1)
    }
}

/// The name of what is found under `key` inside the type called `parent`.
pub open spec fn composite(parent: Seq<char>, key: Seq<char>) -> Seq<char> {
    parent + pascal_case(key)
}

/// Whether `s` holds nothing but underscores.
#[verifier::opaque]
pub open spec fn only_underscores(s: Seq<char>) -> bool {
    forall|i: int| 0 <= i < s.len() ==> s[i] == '_'
}

/// Capitalises `s` word by word and drops the underscores between the words.
/// Nothing is left only of a text that holds nothing but underscores.
pub fn to_pascal_case(s: &str) -> (r: String)
    ensures
        r@ == pascal_case(s@),
        r@.len() == 0 <==> only_underscores(s@),
{
    let n: usize = s.unicode_len();
    let mut out = String::new();
    let mut opening = true;
    let mut i: usize = 0;
    proof {
        reveal(only_underscores);
    }
    while i < n
        invariant
            i <= n,
            n == s@.len(),
            opening == opens_word(s@, i as int),
            out@ == pascal_case(s@.take(i as int)),
            out@.len() == 0 <==> only_underscores(s@.take(i as int)),
        decreases n - i,
    {
        let c = s.get_char(i);
        let ghost shorter = s@.take(i as int);
        let ghost longer = s@.take(i + 1);
        proof {
            reveal(only_underscores);
            assert(longer.drop_last() == shorter);
            assert(piece(longer, i as int) == piece(s@, i as int));
        }
        if c == '_' {
            proof {
                if only_underscores(shorter) {
                    assert forall|j: int| 0 <= j < longer.len() implies longer[j] == '_' by {
                        if j < i {
                            assert(shorter[j] == '_');
                        }
                    }
                }
                if only_underscores(longer) {
                    assert forall|j: int| 0 <= j < shorter.len() implies shorter[j] == '_' by {
                        assert(longer[j] == '_');
                    }
                }
            }
        } else {
            assert(longer[i as int] != '_');
            if opening {
                let upper = uppercase(c);
                out.append(upper.as_str());
            } else {
                out.append(s.substring_char(i, i + 1));
                assert(s@.subrange(i as int, i + 1) == seq![s@[i as int]]);
            }
        }
        opening = c == '_';
        i += 1;
    }
    assert(s@.take(n as int) == s@);
    out
}

/// Names what is found under `key` inside the type called `parent_name`.
/// The name is that of the parent only where the key holds nothing but
/// underscores; any other key makes it longer.
pub fn composite_name(parent_name: &str, key: &str) -> (r: String)
    ensures
        r@ == composite(parent_name@, key@),
        r@.len() == parent_name@.len() <==> only_underscores(key@),
{
    let mut out = String::from_str(parent_name);
    let tail = to_pascal_case(key);
    out.append(tail.as_str());
    out
}

/// The name of what is found at the end of `path`, a chain of keys that
/// starts inside the type called `root`: each key in turn names a position
/// inside the one before.
pub open spec fn path_name(root: Seq<char>, path: Seq<Seq<char>>) -> Seq<char>
    decreases path.len(),
{
    if path.len() == 0 {
        root
    } else {
        composite(path_name(root, path.drop_last()), path.last())
    }
}

/// The capitalised forms of the keys of `path`, run together.
pub open spec fn pascal_path(path: Seq<Seq<char>>) -> Seq<char>
    decreases path.len(),
{
    if path.len() == 0 {
        Seq::empty()
    } else {
        pascal_path(path.drop_last()) + pascal_case(path.last())
    }
}

/// Two texts that start alike are equal exactly if they go on alike.
pub proof fn lemma_same_start(start: Seq<char>, a: Seq<char>, b: Seq<char>)
    ensures
        (start + a == start + b) <==> a == b,
{
    if start + a == start + b {
        assert((start + a).subrange(start.len() as int, (start + a).len() as int) =~= a);
        assert((start + b).subrange(start.len() as int, (start + b).len() as int) =~= b);
    }
}

/// A composite name starts with the name of the parent, whatever the key.
pub proof fn lemma_name_starts_with_parent(parent: Seq<char>, key: Seq<char>)
    ensures
        composite(parent, key).len() >= parent.len(),
        composite(parent, key).subrange(0, parent.len() as int) == parent,
{
    assert(composite(parent, key).subrange(0, parent.len() as int) =~= parent);
}

/// Two keys of one parent are given the same name exactly if their
/// capitalised forms are equal. Keys that differ only in where their
/// underscores stand, or in the case of a word's initial, share a name.
pub proof fn lemma_sibling_names(parent: Seq<char>, first: Seq<char>, second: Seq<char>)
    ensures
        (composite(parent, first) == composite(parent, second)) <==> pascal_case(first)
            == pascal_case(second),
{
    lemma_same_start(parent, pascal_case(first), pascal_case(second));
}

/// The name at the end of a path is the root's name followed by the
/// capitalised keys of the path.
pub proof fn lemma_path_name(root: Seq<char>, path: Seq<Seq<char>>)
    ensures
        path_name(root, path) == root + pascal_path(path),
    decreases path.len(),
{
    if path.len() == 0 {
        assert(root + Seq::<char>::empty() =~= root);
    } else {
        lemma_path_name(root, path.drop_last());
        assert((root + pascal_path(path.drop_last())) + pascal_case(path.last()) =~= root + (
        pascal_path(path.drop_last()) + pascal_case(path.last())));
    }
}

/// A path may be named from its first key on as well as up to its last.
pub proof fn lemma_path_from_front(root: Seq<char>, path: Seq<Seq<char>>)
    requires
        path.len() > 0,
    ensures
        path_name(composite(root, path[0]), path.drop_first()) == path_name(root, path),
    decreases path.len(),
{
    let rest = path.drop_first();
    if path.len() == 1 {
        assert(path.drop_last().len() == 0);
        assert(path_name(root, path.drop_last()) == root);
    } else {
        lemma_path_from_front(root, path.drop_last());
        assert(path.drop_last()[0] == path[0]);
        assert(rest.drop_last() =~= path.drop_last().drop_first());
        assert(rest.last() == path.last());
    }
}

/// What is reached from one root by two paths is given two different names
/// exactly if the capitalised keys of the paths, run together, differ.
pub proof fn lemma_path_names_differ(root: Seq<char>, first: Seq<Seq<char>>, second: Seq<Seq<char>>)
    ensures
        (path_name(root, first) != path_name(root, second)) <==> pascal_path(first)
            != pascal_path(second),
{
    lemma_path_name(root, first);
    lemma_path_name(root, second);
    lemma_same_start(root, pascal_path(first), pascal_path(second));
}

/// The words of `s`: what stands between its underscores, the empty words
/// before, between and after them included.
pub open spec fn words(s: Seq<char>) -> Seq<Seq<char>>
    decreases s.len(),
{
    if s.len() == 0 {
        seq![Seq::empty()]
    } else {
        let before = words(s.drop_last());
        if s.last() == '_' {
            before.push(Seq::empty())
        } else {
            before.drop_last().push(before.last().push(s.last()))
        }
    }
}

/// A word with its initial in upper case and its remainder unchanged.
pub open spec fn capitalized(word: Seq<char>) -> Seq<char> {
    if word.len() == 0 {
        Seq::empty()
    } else {
        uppercase_of(word[0]) + word.drop_first()
    }
}

/// The words `list`, each capitalised, run together without a separator.
pub open spec fn joined(list: Seq<Seq<char>>) -> Seq<char>
    decreases list.len(),
{
    if list.len() == 0 {
        Seq::empty()
    } else {
        joined(list.drop_last()) + capitalized(list.last())
    }
}

proof fn lemma_last_word(s: Seq<char>)
    ensures
        words(s).len() >= 1,
        words(s).last().len() == 0 <==> s.len() == 0 || s.last() == '_',
    decreases s.len(),
{
    if s.len() > 0 {
        lemma_last_word(s.drop_last());
    }
}

/// The capitalised form of a text is what its description says: the text is
/// split at the underscores, every word gets an upper-case initial, and the
/// words are run together.
pub proof fn lemma_pascal_case_by_words(s: Seq<char>)
    ensures
        pascal_case(s) == joined(words(s)),
    decreases s.len(),
{
    if s.len() == 0 {
        let only = words(s);
        assert(only.len() == 1);
        assert(joined(only.drop_last()) =~= Seq::empty());
        assert(capitalized(only.last()) =~= Seq::empty());
        assert(joined(only) =~= Seq::empty());
    } else {
        let start = s.drop_last();
        let before = words(start);
        let c = s.last();
        lemma_pascal_case_by_words(start);
        lemma_last_word(start);
        if c == '_' {
            assert(before.push(Seq::empty()).drop_last() =~= before);
            assert(joined(before) + Seq::<char>::empty() =~= joined(before));
        } else {
            let word = before.last();
            let rest = before.drop_last();
            assert(rest.push(word.push(c)).drop_last() =~= rest);
            assert(joined(before) == joined(rest) + capitalized(word));
            if word.len() == 0 {
                assert(start.len() > 0 ==> start.last() == s[s.len() - 2]);
                assert(opens_word(s, s.len() - 1));
                assert(capitalized(word.push(c)) =~= uppercase_of(c));
                assert(joined(rest) + capitalized(word) =~= joined(rest));
            } else {
                assert(start.last() == s[s.len() - 2]);
                assert(!opens_word(s, s.len() - 1));
                assert(capitalized(word.push(c)) =~= capitalized(word).push(c));
                assert(joined(rest) + capitalized(word).push(c) =~= (joined(rest) + capitalized(
                    word,
                )) + seq![c]);
            }
        }
    }
}

} // verus!
