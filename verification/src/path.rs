//! Unix paths as text.
//!
//! Two paths name the same place when they have the same components: repeated and trailing
//! separators do not count, nor does a `.` that does not lead a relative path.
use vstd::prelude::*;
use vstd::string::*;

use crate::text::{
    concat2, concat3, same_text, split_text,
};
use crate::text::{
    first_index, law_split_rejoins, lemma_first_index, lemma_first_index_is_first, lemma_no_split,
    split, texts,
};

verus! {

pub open spec fn is_absolute(p: Seq<char>) -> bool {
    p.len() > 0 && p[0] == '/'
}

/// Whether a piece between two separators names something.
pub open spec fn is_named(piece: Seq<char>) -> bool {
    piece.len() > 0 && piece != "."@
}

/// The pieces that name something.
pub open spec fn named(pieces: Seq<Seq<char>>) -> Seq<Seq<char>>
    decreases pieces.len(),
{
    if pieces.len() == 0 {
        seq![]
    } else if is_named(pieces.last()) {
        named(pieces.drop_last()).push(pieces.last())
    } else {
        named(pieces.drop_last())
    }
}

/// The components of a path, the root left aside.
pub open spec fn components(p: Seq<char>) -> Seq<Seq<char>> {
    let pieces = split(p, '/');
    if pieces[0] == "."@ {
        seq!["."@] + named(pieces)
    } else {
        named(pieces)
    }
}

/// Whether two paths are equal.
pub open spec fn same_path(a: Seq<char>, b: Seq<char>) -> bool {
    is_absolute(a) == is_absolute(b) && components(a) == components(b)
}

/// `rel` below `base`; an absolute `rel` stands for itself.
pub open spec fn joined(base: Seq<char>, rel: Seq<char>) -> Seq<char> {
    if is_absolute(rel) {
        rel
    } else if base.len() == 0 || base.last() == '/' {
        base + rel
    } else {
        base + "/"@ + rel
    }
}

proof fn lemma_split_nonempty(s: Seq<char>, c: char)
    ensures
        split(s, c).len() > 0,
{
}

/// A piece without separators behind one more separator is one more piece.
pub proof fn lemma_split_append(a: Seq<char>, c: char, x: Seq<char>)
    requires
        !x.contains(c),
    ensures
        split(a + seq![c] + x, c) == split(a, c).push(x),
    decreases a.len(),
{
    let s = a + seq![c] + x;
    lemma_first_index_is_first(a, c);
    let i = first_index(a, c);
    if i == a.len() {
        assert forall|j: int| 0 <= j < i implies s[j] != c by {
            assert(s[j] == a[j]);
        }
        lemma_first_index(s, c, i);
        assert(s.take(i) =~= a);
        assert(s.skip(i + 1) =~= x);
        lemma_no_split(x, c);
        assert(split(s, c) =~= seq![a, x]);
        assert(split(a, c).push(x) =~= seq![a, x]);
    } else {
        assert forall|j: int| 0 <= j < i implies s[j] != c by {
            assert(s[j] == a[j]);
        }
        assert(s[i] == a[i]);
        lemma_first_index(s, c, i);
        assert(s.take(i) =~= a.take(i));
        assert(s.skip(i + 1) =~= a.skip(i + 1) + seq![c] + x);
        lemma_split_append(a.skip(i + 1), c, x);
        assert(split(s, c) =~= split(a, c).push(x));
    }
}

/// Law: a plain name below a path is one more component of it, and the path stays absolute.
pub proof fn law_join_adds_a_component(base: Seq<char>, name: Seq<char>)
    requires
        base.len() > 0,
        is_named(name),
        !name.contains('/'),
    ensures
        components(joined(base, name)) == components(base).push(name),
        is_absolute(joined(base, name)) == is_absolute(base),
{
    reveal_strlit("/");
    reveal_strlit(".");
    assert("/"@ =~= seq!['/']);
    assert(name[0] != '/') by {
        if name[0] == '/' {
            assert(name.contains('/'));
        }
    }
    lemma_split_nonempty(base, '/');
    if base.last() == '/' {
        let front = base.drop_last();
        let none = Seq::<char>::empty();
        lemma_split_append(front, '/', none);
        lemma_split_append(front, '/', name);
        assert(base =~= front + seq!['/'] + none);
        assert(joined(base, name) =~= front + seq!['/'] + name);
        lemma_split_nonempty(front, '/');
        assert(split(base, '/').drop_last() =~= split(front, '/'));
        assert(split(joined(base, name), '/').drop_last() =~= split(front, '/'));
        assert(components(joined(base, name)) =~= components(base).push(name));
    } else {
        lemma_split_append(base, '/', name);
        assert(joined(base, name) =~= base + seq!['/'] + name);
        assert(split(joined(base, name), '/').drop_last() =~= split(base, '/'));
        assert(components(joined(base, name)) =~= components(base).push(name));
    }
}

/// An absolute path with the given components.
pub open spec fn absolute(names: Seq<Seq<char>>) -> Seq<char>
    decreases names.len(),
{
    if names.len() == 0 {
        seq![]
    } else {
        absolute(names.drop_last()) + seq!['/'] + names.last()
    }
}

/// Law: an absolute path that is put together from plain names has those names as its
/// components.
pub proof fn law_absolute_has_its_components(names: Seq<Seq<char>>)
    requires
        forall|i: int|
            0 <= i < names.len() ==> is_named(#[trigger] names[i]) && !names[i].contains('/'),
    ensures
        components(absolute(names)) == names,
        names.len() > 0 ==> is_absolute(absolute(names)),
    decreases names.len(),
{
    reveal_strlit(".");
    if names.len() == 0 {
        let none = Seq::<char>::empty();
        lemma_no_split(none, '/');
        assert(absolute(names) =~= none);
        reveal_with_fuel(named, 2);
        assert(split(none, '/') =~= seq![none]);
        assert(none != "."@);
        assert(components(absolute(names)) =~= names);
    } else {
        let front = names.drop_last();
        assert forall|i: int| 0 <= i < front.len() implies is_named(#[trigger] front[i])
            && !front[i].contains('/') by {
            assert(front[i] == names[i]);
        }
        law_absolute_has_its_components(front);
        let base = absolute(front);
        let name = names.last();
        assert(names.last() == names[names.len() - 1]);
        lemma_split_append(base, '/', name);
        lemma_split_nonempty(base, '/');
        assert(split(absolute(names), '/').drop_last() =~= split(base, '/'));
        assert(components(absolute(names)) =~= components(base).push(name));
        assert(components(absolute(names)) =~= names);
    }
}

/// Whether a path is absolute.
pub fn path_is_absolute(p: &str) -> (r: bool)
    ensures
        r == is_absolute(p@),
{
    let n: usize = p.unicode_len();
    n > 0 && p.get_char(0) == '/'
}

/// The components of a path, the root left aside.
pub fn path_components(p: &str) -> (r: Vec<String>)
    ensures
        texts(r@) == components(p@),
{
    let pieces = split_text(p, '/');
    let mut r: Vec<String> = Vec::new();
    let ghost all = split(p@, '/');
    proof {
        lemma_split_nonempty(p@, '/');
        assert(texts(pieces@)[0] == pieces@[0]@);
    }
    let leads = same_text(pieces[0].as_str(), ".");
    if leads {
        r.push(".".to_owned());
    }
    let ghost head = texts(r@);
    let mut i: usize = 0;
    assert(head + named(all.take(0)) =~= head);
    while i < pieces.len()
        invariant
            all == texts(pieces@),
            i <= pieces@.len(),
            texts(r@) == head + named(all.take(i as int)),
        decreases pieces@.len() - i,
    {
        let piece = &pieces[i];
        assert(piece@ == all[i as int]);
        assert(all.take(i + 1).drop_last() =~= all.take(i as int));
        if !piece.as_str().is_empty() && !same_text(piece.as_str(), ".") {
            let ghost before = texts(r@);
            r.push(piece.clone());
            assert(texts(r@) =~= before.push(piece@));
        }
        assert(texts(r@) =~= head + named(all.take(i + 1)));
        i = i + 1;
    }
    assert(all.take(i as int) =~= all);
    assert(texts(r@) =~= components(p@));
    r
}

/// Whether two lists hold the same strings in the same order.
pub fn same_texts(a: &Vec<String>, b: &Vec<String>) -> (r: bool)
    ensures
        r == (texts(a@) == texts(b@)),
{
    if a.len() != b.len() {
        assert(texts(a@).len() != texts(b@).len());
        return false;
    }
    let mut i: usize = 0;
    while i < a.len()
        invariant
            a@.len() == b@.len(),
            i <= a@.len(),
            forall|j: int| 0 <= j < i ==> texts(a@)[j] == texts(b@)[j],
        decreases a@.len() - i,
    {
        if !same_text(a[i].as_str(), b[i].as_str()) {
            assert(texts(a@)[i as int] != texts(b@)[i as int]);
            return false;
        }
        i = i + 1;
    }
    assert(texts(a@) =~= texts(b@));
    true
}

/// Whether two paths are equal.
pub fn paths_equal(a: &str, b: &str) -> (r: bool)
    ensures
        r == same_path(a@, b@),
{
    path_is_absolute(a) == path_is_absolute(b) && same_texts(
        &path_components(a),
        &path_components(b),
    )
}

/// `rel` below `base`; an absolute `rel` stands for itself.
pub fn join_path(base: &str, rel: &str) -> (r: String)
    ensures
        r@ == joined(base@, rel@),
{
    let n: usize = base.unicode_len();
    if path_is_absolute(rel) {
        rel.to_owned()
    } else if n == 0 || base.get_char(n - 1) == '/' {
        concat2(base, rel)
    } else {
        concat3(base, "/", rel)
    }
}

/// Law: a slash at the end of a path does not count, nor does a `.` behind a slash.
pub proof fn law_trailing_slashes_do_not_count(p: Seq<char>)
    requires
        p.len() > 0,
    ensures
        components(p + seq!['/']) == components(p),
        components(p + seq!['/', '.']) == components(p),
        is_absolute(p + seq!['/']) == is_absolute(p),
{
    reveal_strlit(".");
    let none = Seq::<char>::empty();
    let dot = seq!['.'];
    assert("."@ =~= dot);
    lemma_split_nonempty(p, '/');
    lemma_split_append(p, '/', none);
    assert(p + seq!['/'] =~= p + seq!['/'] + none);
    assert(split(p + seq!['/'], '/').drop_last() =~= split(p, '/'));
    lemma_split_append(p, '/', dot);
    assert(p + seq!['/', '.'] =~= p + seq!['/'] + dot);
    assert(split(p + seq!['/', '.'], '/').drop_last() =~= split(p, '/'));
}

/// Law: no component is empty or holds a slash.
pub proof fn law_components_are_plain(p: Seq<char>, i: int)
    requires
        0 <= i < components(p).len(),
    ensures
        components(p)[i].len() > 0,
        !components(p)[i].contains('/'),
{
    reveal_strlit(".");
    law_split_rejoins(p, '/');
    lemma_named_are_pieces(split(p, '/'));
    if split(p, '/')[0] == "."@ && i > 0 {
        assert(components(p)[i] == named(split(p, '/'))[i - 1]);
    }
}

proof fn lemma_named_are_pieces(pieces: Seq<Seq<char>>)
    ensures
        forall|i: int|
            0 <= i < named(pieces).len() ==> (#[trigger] named(pieces)[i]).len() > 0
                && pieces.contains(named(pieces)[i]),
    decreases pieces.len(),
{
    if pieces.len() > 0 {
        let front = pieces.drop_last();
        lemma_named_are_pieces(front);
        assert forall|i: int| 0 <= i < named(pieces).len() implies (#[trigger] named(
            pieces,
        )[i]).len() > 0 && pieces.contains(named(pieces)[i]) by {
            if i < named(front).len() {
                assert(named(pieces)[i] == named(front)[i]);
                let k = choose|k: int| 0 <= k < front.len() && front[k] == named(front)[i];
                assert(pieces[k] == named(pieces)[i]);
            } else {
                assert(pieces[pieces.len() - 1] == named(pieces)[i]);
            }
        }
    }
}

/// Law: a path that is absolute stands for itself wherever it is put; any other one keeps its
/// text at the end of the joined path, behind the whole text of the other.
pub proof fn law_joining_keeps_both(base: Seq<char>, rel: Seq<char>)
    ensures
        rel.len() > 0 && rel[0] == '/' ==> joined(base, rel) == rel,
        !(rel.len() > 0 && rel[0] == '/') ==> base.is_prefix_of(joined(base, rel))
            && rel.is_suffix_of(joined(base, rel)) && joined(base, rel).len() <= base.len()
            + rel.len() + 1,
{
    reveal_strlit("/");
    let j = joined(base, rel);
    if !is_absolute(rel) {
        assert(base =~= j.subrange(0, base.len() as int));
        assert(rel =~= j.subrange(j.len() - rel.len(), j.len() as int));
    }
}

} // verus!
