//! Text: what the option parsers and the file writers need of strings.
//!
//! The model of a string is the sequence of its characters.
use vstd::prelude::*;
use vstd::string::*;

verus! {

/// `String::push` appends one character. The clause says so, and nothing else changes.
pub assume_specification[ String::push ](s: &mut String, c: char)
    ensures
        final(s)@ == old(s)@.push(c),
;

/// The characters of each string of a list.
pub open spec fn texts(list: Seq<String>) -> Seq<Seq<char>> {
    Seq::new(list.len(), |i: int| list[i]@)
}

/// The characters of the strings of an optional list.
pub open spec fn opt_texts(o: Option<Vec<String>>) -> Option<Seq<Seq<char>>> {
    match o {
        Some(list) => Some(texts(list@)),
        None => None,
    }
}

/// The models of the values of a list.
pub open spec fn views<T: View>(list: Seq<T>) -> Seq<T::V> {
    Seq::new(list.len(), |i: int| list[i]@)
}

/// The position of the first `c` in `s`, or the length of `s` where there is none.
pub open spec fn first_index(s: Seq<char>, c: char) -> int
    decreases s.len(),
{
    if s.len() == 0 || s[0] == c {
        0
    } else {
        1 + first_index(s.drop_first(), c)
    }
}

/// The position of the last `c` in `s`, or -1 where there is none.
pub open spec fn last_index(s: Seq<char>, c: char) -> int
    decreases s.len(),
{
    if s.len() == 0 {
        -1
    } else if s.last() == c {
        s.len() - 1
    } else {
        last_index(s.drop_last(), c)
    }
}

/// What stands before and after the first `c`.
pub open spec fn split_once(s: Seq<char>, c: char) -> Option<(Seq<char>, Seq<char>)> {
    let i = first_index(s, c);
    if i == s.len() {
        None
    } else {
        Some((s.take(i), s.skip(i + 1)))
    }
}

/// What stands before and after the last `c`.
pub open spec fn rsplit_once(s: Seq<char>, c: char) -> Option<(Seq<char>, Seq<char>)> {
    let i = last_index(s, c);
    if i < 0 {
        None
    } else {
        Some((s.take(i), s.skip(i + 1)))
    }
}

/// The pieces of `s` between the first `n - 1` occurrences of `c`.
pub open spec fn splitn(s: Seq<char>, n: nat, c: char) -> Seq<Seq<char>>
    decreases n,
{
    if n == 0 {
        seq![]
    } else if n == 1 || first_index(s, c) == s.len() {
        seq![s]
    } else {
        let i = first_index(s, c);
        seq![s.take(i)] + splitn(s.skip(i + 1), (n - 1) as nat, c)
    }
}

/// The pieces of `s` between all occurrences of `c`.
pub open spec fn split(s: Seq<char>, c: char) -> Seq<Seq<char>>
    decreases s.len(),
{
    let i = first_index(s, c);
    if !(0 <= i < s.len()) {
        seq![s]
    } else {
        seq![s.take(i)] + split(s.skip(i + 1), c)
    }
}

/// The upper case of an ASCII letter; any other character is its own.
pub open spec fn upper(c: char) -> char {
    if 'a' <= c && c <= 'z' {
        (c as u32 - 32) as char
    } else {
        c
    }
}

pub open spec fn upper_text(s: Seq<char>) -> Seq<char> {
    Seq::new(s.len(), |i: int| upper(s[i]))
}

/// Unicode's White_Space property.
pub open spec fn white_space(c: char) -> bool {
    ||| '\u{9}' <= c && c <= '\u{d}'
    ||| c == '\u{20}'
    ||| c == '\u{85}'
    ||| c == '\u{a0}'
    ||| c == '\u{1680}'
    ||| '\u{2000}' <= c && c <= '\u{200a}'
    ||| c == '\u{2028}'
    ||| c == '\u{2029}'
    ||| c == '\u{202f}'
    ||| c == '\u{205f}'
    ||| c == '\u{3000}'
}

pub open spec fn trim_start(s: Seq<char>) -> Seq<char>
    decreases s.len(),
{
    if s.len() > 0 && white_space(s[0]) {
        trim_start(s.drop_first())
    } else {
        s
    }
}

pub open spec fn trim_end(s: Seq<char>) -> Seq<char>
    decreases s.len(),
{
    if s.len() > 0 && white_space(s.last()) {
        trim_end(s.drop_last())
    } else {
        s
    }
}

/// `s` without white space at either end.
pub open spec fn trim(s: Seq<char>) -> Seq<char> {
    trim_end(trim_start(s))
}

/// A line without the carriage return that may stand before its line feed.
pub open spec fn without_carriage_return(s: Seq<char>) -> Seq<char> {
    if s.len() > 0 && s.last() == '\r' {
        s.drop_last()
    } else {
        s
    }
}

/// The lines of a text. A line ends in a line feed, or in a carriage return and a line
/// feed; the last one may lack its ending.
pub open spec fn lines(s: Seq<char>) -> Seq<Seq<char>>
    decreases s.len(),
{
    if s.len() == 0 {
        seq![]
    } else {
        let i = first_index(s, '\n');
        if !(0 <= i < s.len()) {
            seq![s]
        } else {
            seq![without_carriage_return(s.take(i))] + lines(s.skip(i + 1))
        }
    }
}

/// The strings of a list with `sep` between each two.
pub open spec fn join(list: Seq<Seq<char>>, sep: Seq<char>) -> Seq<char>
    decreases list.len(),
{
    if list.len() == 0 {
        seq![]
    } else if list.len() == 1 {
        list[0]
    } else {
        join(list.drop_last(), sep) + sep + list.last()
    }
}

/// The number of bytes of a character in UTF-8.
pub open spec fn char_bytes(c: char) -> nat {
    if c <= '\u{7f}' {
        1
    } else if c <= '\u{7ff}' {
        2
    } else if c <= '\u{ffff}' {
        3
    } else {
        4
    }
}

/// The number of bytes of a string in UTF-8.
pub open spec fn byte_len(s: Seq<char>) -> nat
    decreases s.len(),
{
    if s.len() == 0 {
        0
    } else {
        byte_len(s.drop_last()) + char_bytes(s.last())
    }
}

/// The longest prefix of `s` that takes at most `n` bytes.
pub open spec fn byte_prefix(s: Seq<char>, n: nat) -> Seq<char>
    decreases s.len(),
{
    if byte_len(s) <= n {
        s
    } else {
        byte_prefix(s.drop_last(), n)
    }
}

/// Whether byte `n` of `s` (or its end, where it is shorter) stands between two characters.
pub open spec fn cuts_cleanly(s: Seq<char>, n: nat) -> bool {
    byte_len(s) <= n || byte_len(byte_prefix(s, n)) == n
}

// ---------------------------------------------------------------------------------------
// Positions

pub proof fn lemma_first_index(s: Seq<char>, c: char, i: int)
    requires
        0 <= i <= s.len(),
        forall|j: int| 0 <= j < i ==> s[j] != c,
        i < s.len() ==> s[i] == c,
    ensures
        first_index(s, c) == i,
    decreases s.len(),
{
    if i > 0 {
        let t = s.drop_first();
        assert forall|j: int| 0 <= j < i - 1 implies t[j] != c by {
            assert(t[j] == s[j + 1]);
        }
        lemma_first_index(t, c, i - 1);
    }
}

/// What `first_index` is: a `c`, with none before it; or the end, with none at all.
pub proof fn lemma_first_index_is_first(s: Seq<char>, c: char)
    ensures
        0 <= first_index(s, c) <= s.len(),
        first_index(s, c) < s.len() ==> s[first_index(s, c)] == c,
        forall|j: int| 0 <= j < first_index(s, c) ==> s[j] != c,
    decreases s.len(),
{
    if s.len() > 0 && s[0] != c {
        let t = s.drop_first();
        lemma_first_index_is_first(t, c);
        assert forall|j: int| 0 <= j < first_index(s, c) implies s[j] != c by {
            if j > 0 {
                assert(t[j - 1] == s[j]);
            }
        }
    }
}

pub proof fn lemma_last_index(s: Seq<char>, c: char, i: int)
    requires
        -1 <= i < s.len(),
        forall|j: int| i < j < s.len() ==> s[j] != c,
        i >= 0 ==> s[i] == c,
    ensures
        last_index(s, c) == i,
    decreases s.len(),
{
    if i < s.len() - 1 {
        lemma_last_index(s.drop_last(), c, i);
    }
}

/// What `last_index` is: a `c`, with none behind it; or -1, with none at all.
pub proof fn lemma_last_index_is_last(s: Seq<char>, c: char)
    ensures
        -1 <= last_index(s, c) < s.len(),
        last_index(s, c) >= 0 ==> s[last_index(s, c)] == c,
        forall|j: int| last_index(s, c) < j < s.len() ==> s[j] != c,
    decreases s.len(),
{
    if s.len() > 0 && s.last() != c {
        lemma_last_index_is_last(s.drop_last(), c);
        assert forall|j: int| last_index(s, c) < j < s.len() implies s[j] != c by {
            if j < s.len() - 1 {
                assert(s.drop_last()[j] == s[j]);
            }
        }
    }
}

/// Law: the two halves of a split at the first `c`, with `c` between them, are the text, and
/// the first half holds no `c`.
pub proof fn law_split_once_rejoins(s: Seq<char>, c: char)
    ensures
        match split_once(s, c) {
            Some((a, b)) => a + seq![c] + b == s && !a.contains(c),
            None => !s.contains(c),
        },
{
    lemma_first_index_is_first(s, c);
    if let Some((a, b)) = split_once(s, c) {
        assert(a + seq![c] + b =~= s);
    }
}

/// Law: the two halves of a split at the last `c`, with `c` between them, are the text, and
/// the second half holds no `c`.
pub proof fn law_rsplit_once_rejoins(s: Seq<char>, c: char)
    ensures
        match rsplit_once(s, c) {
            Some((a, b)) => a + seq![c] + b == s && !b.contains(c),
            None => !s.contains(c),
        },
{
    lemma_last_index_is_last(s, c);
    if let Some((a, b)) = rsplit_once(s, c) {
        assert(a + seq![c] + b =~= s);
    }
}

/// A text that holds exactly one `c` between `a` and `b` splits there.
pub proof fn lemma_split_at(a: Seq<char>, c: char, b: Seq<char>)
    requires
        !a.contains(c),
    ensures
        first_index(a + seq![c] + b, c) == a.len(),
        split_once(a + seq![c] + b, c) == Some((a, b)),
{
    let s = a + seq![c] + b;
    assert forall|j: int| 0 <= j < a.len() implies s[j] != c by {
        assert(s[j] == a[j]);
        assert(a.contains(a[j]));
    }
    lemma_first_index(s, c, a.len() as int);
    assert(s.take(a.len() as int) =~= a);
    assert(s.skip(a.len() as int + 1) =~= b);
}

/// A text without `c` is one piece.
pub proof fn lemma_no_split(s: Seq<char>, c: char)
    requires
        !s.contains(c),
    ensures
        first_index(s, c) == s.len(),
        split_once(s, c) is None,
        split(s, c) == seq![s],
{
    lemma_first_index_is_first(s, c);
    if first_index(s, c) < s.len() {
        assert(s.contains(s[first_index(s, c)]));
    }
}

// ---------------------------------------------------------------------------------------
// Reading

/// The characters of a string.
pub fn chars_of(s: &str) -> (v: Vec<char>)
    ensures
        v@ == s@,
{
    let mut v: Vec<char> = Vec::new();
    for ch in it: s.chars()
        invariant
            it.seq() == s@,
            v@ == s@.take(it.index() as int),
    {
        v.push(ch);
    }
    v
}

/// Whether two strings hold the same characters.
pub fn same_text(a: &str, b: &str) -> (r: bool)
    ensures
        r == (a@ == b@),
{
    a.to_owned() == b.to_owned()
}

/// The position of the first `c` in `s`.
pub fn find_char(s: &str, c: char) -> (r: Option<usize>)
    ensures
        match r {
            Some(i) => i == first_index(s@, c) && i < s@.len(),
            None => first_index(s@, c) == s@.len(),
        },
{
    let v = chars_of(s);
    let mut i: usize = 0;
    while i < v.len()
        invariant
            v@ == s@,
            i <= v@.len(),
            forall|j: int| 0 <= j < i ==> s@[j] != c,
        decreases v@.len() - i,
    {
        if v[i] == c {
            proof {
                lemma_first_index(s@, c, i as int);
            }
            return Some(i);
        }
        i = i + 1;
    }
    proof {
        lemma_first_index(s@, c, i as int);
    }
    None
}

/// The position of the last `c` in `s`.
pub fn rfind_char(s: &str, c: char) -> (r: Option<usize>)
    ensures
        match r {
            Some(i) => i == last_index(s@, c) && i < s@.len(),
            None => last_index(s@, c) == -1,
        },
{
    let v = chars_of(s);
    let mut i: usize = v.len();
    while i > 0
        invariant
            v@ == s@,
            i <= v@.len(),
            forall|j: int| i <= j < s@.len() ==> s@[j] != c,
        decreases i,
    {
        if v[i - 1] == c {
            proof {
                lemma_last_index(s@, c, i - 1);
            }
            return Some(i - 1);
        }
        i = i - 1;
    }
    proof {
        lemma_last_index(s@, c, -1);
    }
    None
}

/// Whether `c` occurs in `s`.
pub fn has_char(s: &str, c: char) -> (r: bool)
    ensures
        r == s@.contains(c),
{
    proof {
        lemma_first_index_is_first(s@, c);
    }
    find_char(s, c).is_some()
}

/// Whether `s` starts with `p`.
pub fn starts_with(s: &str, p: &str) -> (r: bool)
    ensures
        r == p@.is_prefix_of(s@),
{
    let n: usize = p.unicode_len();
    if s.unicode_len() < n {
        return false;
    }
    same_text(s.substring_char(0, n), p)
}

/// Whether `s` ends in `p`.
pub fn ends_with(s: &str, p: &str) -> (r: bool)
    ensures
        r == p@.is_suffix_of(s@),
{
    let n: usize = p.unicode_len();
    let m: usize = s.unicode_len();
    if m < n {
        return false;
    }
    same_text(s.substring_char(m - n, m), p)
}

/// What stands behind character `i`.
pub fn text_behind(s: &str, i: usize) -> (r: &str)
    requires
        i < s@.len(),
    ensures
        r@ == s@.skip(i + 1),
{
    let n: usize = s.unicode_len();
    s.substring_char(i + 1, n)
}

// ---------------------------------------------------------------------------------------
// Splitting

/// What stands before and after the first `c`.
pub fn split_text_once(s: &str, c: char) -> (r: Option<(&str, &str)>)
    ensures
        match r {
            Some((a, b)) => split_once(s@, c) == Some((a@, b@)),
            None => split_once(s@, c) is None,
        },
{
    match find_char(s, c) {
        Some(i) => {
            let a = s.substring_char(0, i);
            let b = text_behind(s, i);
            Some((a, b))
        },
        None => None,
    }
}

/// What stands before and after the last `c`.
pub fn rsplit_text_once(s: &str, c: char) -> (r: Option<(&str, &str)>)
    ensures
        match r {
            Some((a, b)) => rsplit_once(s@, c) == Some((a@, b@)),
            None => rsplit_once(s@, c) is None,
        },
{
    match rfind_char(s, c) {
        Some(i) => {
            let a = s.substring_char(0, i);
            let b = text_behind(s, i);
            Some((a, b))
        },
        None => None,
    }
}

/// The pieces of `s` between the first `n - 1` occurrences of `c`.
pub fn splitn_text(s: &str, n: usize, c: char) -> (r: Vec<String>)
    ensures
        texts(r@) == splitn(s@, n as nat, c),
        n > 0 ==> r@.len() > 0,
{
    let mut parts: Vec<String> = Vec::new();
    let mut rest: &str = s;
    let mut left: usize = n;
    while left > 0
        invariant
            splitn(s@, n as nat, c) == texts(parts@) + splitn(rest@, left as nat, c),
        decreases left,
    {
        let ghost before = texts(parts@);
        let ghost whole = rest@;
        let found = if left == 1 { None } else { find_char(rest, c) };
        match found {
            None => {
                parts.push(rest.to_owned());
                proof {
                    lemma_first_index_is_first(rest@, c);
                    assert(texts(parts@) =~= before + seq![rest@]);
                }
                return parts;
            },
            Some(i) => {
                parts.push(rest.substring_char(0, i).to_owned());
                rest = text_behind(rest, i);
                left = left - 1;
                proof {
                    assert(texts(parts@) =~= before + seq![whole.take(i as int)]);
                    assert(texts(parts@) + splitn(rest@, left as nat, c) =~= before + (
                    seq![whole.take(i as int)] + splitn(rest@, left as nat, c)));
                }
            },
        }
    }
    assert(texts(parts@).len() == parts@.len());
    parts
}

/// The pieces of `s` between all occurrences of `c`.
pub fn split_text(s: &str, c: char) -> (r: Vec<String>)
    ensures
        texts(r@) == split(s@, c),
{
    let mut parts: Vec<String> = Vec::new();
    let mut rest: &str = s;
    loop
        invariant
            split(s@, c) == texts(parts@) + split(rest@, c),
        decreases rest@.len(),
    {
        let ghost before = texts(parts@);
        let ghost whole = rest@;
        match find_char(rest, c) {
            None => {
                parts.push(rest.to_owned());
                assert(texts(parts@) =~= before + seq![rest@]);
                return parts;
            },
            Some(i) => {
                parts.push(rest.substring_char(0, i).to_owned());
                rest = text_behind(rest, i);
                proof {
                    assert(texts(parts@) =~= before + seq![whole.take(i as int)]);
                    assert(texts(parts@) + split(rest@, c) =~= before + (seq![whole.take(i as int)]
                        + split(rest@, c)));
                }
            },
        }
    }
}

/// The lines of a text.
pub fn lines_of(s: &str) -> (r: Vec<String>)
    ensures
        texts(r@) == lines(s@),
{
    let mut found: Vec<String> = Vec::new();
    let mut rest: &str = s;
    while !rest.is_empty()
        invariant
            lines(s@) == texts(found@) + lines(rest@),
        decreases rest@.len(),
    {
        let ghost before = texts(found@);
        let ghost whole = rest@;
        match find_char(rest, '\n') {
            None => {
                found.push(rest.to_owned());
                assert(texts(found@) =~= before + seq![rest@]);
                return found;
            },
            Some(i) => {
                let line = rest.substring_char(0, i);
                let kept = if i > 0 && line.get_char(i - 1) == '\r' {
                    line.substring_char(0, i - 1)
                } else {
                    line
                };
                assert(kept@ =~= without_carriage_return(line@));
                found.push(kept.to_owned());
                rest = text_behind(rest, i);
                proof {
                    assert(texts(found@) =~= before + seq![
                        without_carriage_return(whole.take(i as int)),
                    ]);
                    assert(texts(found@) + lines(rest@) =~= before + (seq![
                        without_carriage_return(whole.take(i as int)),
                    ] + lines(rest@)));
                }
            },
        }
    }
    assert(texts(found@) + lines(rest@) =~= texts(found@));
    found
}

// ---------------------------------------------------------------------------------------
// Rewriting

/// The upper case of an ASCII letter; any other character is its own.
pub fn upper_char(c: char) -> (r: char)
    ensures
        r == upper(c),
{
    if 'a' <= c && c <= 'z' {
        (c as u8 - 32) as char
    } else {
        c
    }
}

/// `s` with its ASCII letters in upper case.
pub fn uppercase(s: &str) -> (r: String)
    ensures
        r@ == upper_text(s@),
{
    let v = chars_of(s);
    let mut r = String::new();
    let mut i: usize = 0;
    while i < v.len()
        invariant
            v@ == s@,
            i <= v@.len(),
            r@ == upper_text(s@.take(i as int)),
        decreases v@.len() - i,
    {
        r.push(upper_char(v[i]));
        i = i + 1;
    }
    assert(s@.take(i as int) =~= s@);
    r
}

/// Whether two strings are the same but for the case of their ASCII letters.
pub fn same_ignoring_case(a: &str, b: &str) -> (r: bool)
    ensures
        r == (upper_text(a@) == upper_text(b@)),
{
    same_text(uppercase(a).as_str(), uppercase(b).as_str())
}

/// Unicode's White_Space property.
pub fn is_white_space(c: char) -> (r: bool)
    ensures
        r == white_space(c),
{
    ('\u{9}' <= c && c <= '\u{d}') || c == '\u{20}' || c == '\u{85}' || c == '\u{a0}' || c
        == '\u{1680}' || ('\u{2000}' <= c && c <= '\u{200a}') || c == '\u{2028}' || c == '\u{2029}'
        || c == '\u{202f}' || c == '\u{205f}' || c == '\u{3000}'
}

/// `s` without white space at either end.
pub fn trim_text(s: &str) -> (r: &str)
    ensures
        r@ == trim(s@),
{
    let v = chars_of(s);
    let mut from: usize = 0;
    assert(s@.skip(0) =~= s@);
    while from < v.len() && is_white_space(v[from])
        invariant
            v@ == s@,
            from <= v@.len(),
            trim_start(s@) == trim_start(s@.skip(from as int)),
        decreases v@.len() - from,
    {
        assert(s@.skip(from as int).drop_first() =~= s@.skip(from + 1));
        from = from + 1;
    }
    let ghost start = s@.skip(from as int);
    assert(trim_start(s@) == start);
    let mut to: usize = v.len();
    assert(start =~= s@.subrange(from as int, to as int));
    while to > from && is_white_space(v[to - 1])
        invariant
            v@ == s@,
            from <= to <= v@.len(),
            trim_end(start) == trim_end(s@.subrange(from as int, to as int)),
        decreases to,
    {
        assert(s@.subrange(from as int, to as int).drop_last() =~= s@.subrange(
            from as int,
            to - 1,
        ));
        to = to - 1;
    }
    s.substring_char(from, to)
}

/// The strings of a list with `sep` between each two.
pub fn join_texts(list: &Vec<String>, sep: &str) -> (r: String)
    ensures
        r@ == join(texts(list@), sep@),
{
    let mut r = String::new();
    let mut i: usize = 0;
    while i < list.len()
        invariant
            i <= list@.len(),
            r@ == join(texts(list@).take(i as int), sep@),
        decreases list@.len() - i,
    {
        if i > 0 {
            r.append(sep);
        }
        r.append(list[i].as_str());
        assert(texts(list@).take(i + 1).drop_last() =~= texts(list@).take(i as int));
        i = i + 1;
    }
    assert(texts(list@).take(i as int) =~= texts(list@));
    r
}

/// Two strings, one behind the other.
pub fn concat2(a: &str, b: &str) -> (r: String)
    ensures
        r@ == a@ + b@,
{
    let mut r = a.to_owned();
    r.append(b);
    r
}

/// Three strings, one behind the other.
pub fn concat3(a: &str, b: &str, c: &str) -> (r: String)
    ensures
        r@ == a@ + b@ + c@,
{
    let mut r = concat2(a, b);
    r.append(c);
    r
}

/// A copy of a list of strings.
pub fn copy_texts(list: &Vec<String>) -> (r: Vec<String>)
    ensures
        texts(r@) == texts(list@),
{
    let mut r: Vec<String> = Vec::new();
    let mut i: usize = 0;
    while i < list.len()
        invariant
            i <= list@.len(),
            texts(r@) == texts(list@).take(i as int),
        decreases list@.len() - i,
    {
        let ghost before = texts(r@);
        r.push(list[i].clone());
        assert(texts(r@) =~= before.push(list[i as int]@));
        i = i + 1;
    }
    r
}

/// A list of one string.
pub fn one(a: &str) -> (r: Vec<String>)
    ensures
        texts(r@) == seq![a@],
{
    let r: Vec<String> = vec![a.to_owned()];
    assert(texts(r@) =~= seq![a@]);
    r
}

/// A list of two strings.
pub fn two(a: &str, b: &str) -> (r: Vec<String>)
    ensures
        texts(r@) == seq![a@, b@],
{
    let r: Vec<String> = vec![a.to_owned(), b.to_owned()];
    assert(texts(r@) =~= seq![a@, b@]);
    r
}

/// A list of four strings.
pub fn four(a: &str, b: &str, c: &str, d: &str) -> (r: Vec<String>)
    ensures
        texts(r@) == seq![a@, b@, c@, d@],
{
    let r: Vec<String> = vec![a.to_owned(), b.to_owned(), c.to_owned(), d.to_owned()];
    assert(texts(r@) =~= seq![a@, b@, c@, d@]);
    r
}

/// Puts the strings of a second list behind those of a first one.
pub fn append_texts(list: Vec<String>, more: &Vec<String>) -> (r: Vec<String>)
    ensures
        texts(r@) == texts(list@) + texts(more@),
{
    let mut r = list;
    let ghost start = texts(list@);
    let ghost all = texts(more@);
    let mut i: usize = 0;
    assert(start + all.take(0) =~= start);
    while i < more.len()
        invariant
            all == texts(more@),
            i <= more@.len(),
            texts(r@) == start + all.take(i as int),
        decreases more@.len() - i,
    {
        let ghost before = texts(r@);
        r.push(more[i].clone());
        assert(texts(r@) =~= before.push(more@[i as int]@));
        assert(start + all.take(i + 1) =~= before.push(all[i as int]));
        i = i + 1;
    }
    assert(all.take(i as int) =~= all);
    r
}

/// Whether `s` stands in a list.
pub fn holds_text(list: &Vec<String>, s: &str) -> (r: bool)
    ensures
        r == texts(list@).contains(s@),
{
    let mut i: usize = 0;
    while i < list.len()
        invariant
            i <= list@.len(),
            forall|j: int| 0 <= j < i ==> texts(list@)[j] != s@,
        decreases list@.len() - i,
    {
        if same_text(list[i].as_str(), s) {
            assert(texts(list@)[i as int] == s@);
            return true;
        }
        i = i + 1;
    }
    false
}

/// The number of bytes of a character in UTF-8.
fn bytes_of_char(c: char) -> (r: usize)
    ensures
        r == char_bytes(c),
{
    if c <= '\u{7f}' {
        1
    } else if c <= '\u{7ff}' {
        2
    } else if c <= '\u{ffff}' {
        3
    } else {
        4
    }
}

proof fn lemma_byte_len_grows(s: Seq<char>, i: int, j: int)
    requires
        0 <= i <= j <= s.len(),
    ensures
        byte_len(s.take(i)) <= byte_len(s.take(j)),
        i < j ==> byte_len(s.take(i)) < byte_len(s.take(j)),
    decreases j - i,
{
    if i < j {
        lemma_byte_len_grows(s, i, j - 1);
        assert(s.take(j).drop_last() =~= s.take(j - 1));
    }
}

proof fn lemma_byte_prefix(s: Seq<char>, n: nat, i: int)
    requires
        0 <= i <= s.len(),
        byte_len(s.take(i)) <= n,
        i < s.len() ==> byte_len(s.take(i + 1)) > n,
    ensures
        byte_prefix(s, n) == s.take(i),
    decreases s.len(),
{
    assert(s.take(s.len() as int) =~= s);
    if i < s.len() {
        lemma_byte_len_grows(s, i + 1, s.len() as int);
        let t = s.drop_last();
        assert(t.take(i) =~= s.take(i));
        if i < t.len() {
            assert(t.take(i + 1) =~= s.take(i + 1));
        }
        lemma_byte_prefix(t, n, i);
    }
}

/// Law: a string of ASCII characters can be cut behind any number of bytes.
pub proof fn law_ascii_cuts_cleanly(s: Seq<char>, n: nat)
    requires
        forall|i: int| 0 <= i < s.len() ==> #[trigger] s[i] <= '\u{7f}',
    ensures
        byte_len(s) == s.len(),
        cuts_cleanly(s, n),
    decreases s.len(),
{
    if s.len() > 0 {
        let front = s.drop_last();
        assert forall|i: int| 0 <= i < front.len() implies #[trigger] front[i] <= '\u{7f}' by {
            assert(front[i] == s[i]);
        }
        law_ascii_cuts_cleanly(front, n);
        reveal_with_fuel(byte_prefix, 2);
        assert(s.last() == s[s.len() - 1]);
    }
}

/// The first `n` bytes of `s`, or all of it where it is shorter. Byte `n` must not stand
/// inside a character.
pub fn first_bytes(s: &str, n: usize) -> (r: String)
    requires
        cuts_cleanly(s@, n as nat),
    ensures
        r@ == byte_prefix(s@, n as nat),
        byte_len(s@) <= n ==> r@ == s@,
        byte_len(s@) > n ==> byte_len(r@) == n,
{
    let v = chars_of(s);
    let mut used: usize = 0;
    let mut i: usize = 0;
    while i < v.len()
        invariant
            v@ == s@,
            i <= v@.len(),
            used == byte_len(s@.take(i as int)),
            used <= n,
        ensures
            i <= v@.len(),
            byte_len(s@.take(i as int)) <= n,
            i < v@.len() ==> byte_len(s@.take(i + 1)) > n,
        decreases v@.len() - i,
    {
        assert(s@.take(i + 1).drop_last() =~= s@.take(i as int));
        let more: usize = bytes_of_char(v[i]);
        if n - used < more {
            break;
        }
        used = used + more;
        i = i + 1;
    }
    proof {
        lemma_byte_prefix(s@, n as nat, i as int);
    }
    s.substring_char(0, i).to_owned()
}

// ---------------------------------------------------------------------------------------
// Laws

/// Law: the pieces of a text, with the separator between each two, are the text, and no piece
/// holds the separator.
pub proof fn law_split_rejoins(s: Seq<char>, c: char)
    ensures
        split(s, c).len() > 0,
        join(split(s, c), seq![c]) == s,
        forall|i: int| 0 <= i < split(s, c).len() ==> !(#[trigger] split(s, c)[i]).contains(c),
    decreases s.len(),
{
    lemma_first_index_is_first(s, c);
    let i = first_index(s, c);
    if i == s.len() {
        assert(split(s, c) =~= seq![s]);
        assert(!s.contains(c));
    } else {
        let head = s.take(i);
        let rest = split(s.skip(i + 1), c);
        law_split_rejoins(s.skip(i + 1), c);
        lemma_join_first(head, rest, seq![c]);
        assert(split(s, c) =~= seq![head] + rest);
        assert(s =~= head + seq![c] + s.skip(i + 1));
        assert(!head.contains(c));
        assert forall|j: int| 0 <= j < split(s, c).len() implies !(#[trigger] split(
            s,
            c,
        )[j]).contains(c) by {
            if j > 0 {
                assert(split(s, c)[j] == rest[j - 1]);
            }
        }
    }
}

proof fn lemma_join_first(head: Seq<char>, rest: Seq<Seq<char>>, sep: Seq<char>)
    requires
        rest.len() > 0,
    ensures
        join(seq![head] + rest, sep) == head + sep + join(rest, sep),
    decreases rest.len(),
{
    let all = seq![head] + rest;
    if rest.len() == 1 {
        assert(all.drop_last() =~= seq![head]);
        assert(all.last() == rest[0]);
        assert(join(seq![head], sep) == head);
    } else {
        assert(all.drop_last() =~= seq![head] + rest.drop_last());
        lemma_join_first(head, rest.drop_last(), sep);
        assert(join(all, sep) =~= head + sep + join(rest, sep));
    }
}

/// Law: a list of strings that do not hold a character is read back from the text in which that
/// character stands between each two of them.
pub proof fn law_split_undoes_join(list: Seq<Seq<char>>, c: char)
    requires
        list.len() > 0,
        forall|i: int| 0 <= i < list.len() ==> !(#[trigger] list[i]).contains(c),
    ensures
        split(join(list, seq![c]), c) == list,
    decreases list.len(),
{
    let head = list[0];
    let rest = list.drop_first();
    if list.len() == 1 {
        lemma_no_split(head, c);
        assert(list =~= seq![head]);
    } else {
        assert forall|i: int| 0 <= i < rest.len() implies !(#[trigger] rest[i]).contains(c) by {
            assert(rest[i] == list[i + 1]);
        }
        law_split_undoes_join(rest, c);
        lemma_join_first(head, rest, seq![c]);
        assert(list =~= seq![head] + rest);
        let t = join(rest, seq![c]);
        let s = head + seq![c] + t;
        lemma_split_at(head, c, t);
        assert(s.take(head.len() as int) =~= head);
        assert(s.skip(head.len() as int + 1) =~= t);
        assert(split(s, c) =~= list);
    }
}

/// Law: a text that is split into at most `n` pieces is those pieces with the separator between
/// each two. No piece but the last one holds the separator, and the last one only where there are
/// `n` of them.
pub proof fn law_splitn_rejoins(s: Seq<char>, n: nat, c: char)
    requires
        n > 0,
    ensures
        0 < splitn(s, n, c).len() <= n,
        join(splitn(s, n, c), seq![c]) == s,
        forall|i: int|
            0 <= i < splitn(s, n, c).len() && (i < splitn(s, n, c).len() - 1 || splitn(
                s,
                n,
                c,
            ).len() < n) ==> !(#[trigger] splitn(s, n, c)[i]).contains(c),
    decreases n,
{
    lemma_first_index_is_first(s, c);
    let i = first_index(s, c);
    if n == 1 || i == s.len() {
        assert(splitn(s, n, c) =~= seq![s]);
        if i == s.len() {
            assert(!s.contains(c));
        }
    } else {
        let head = s.take(i);
        let rest = splitn(s.skip(i + 1), (n - 1) as nat, c);
        law_splitn_rejoins(s.skip(i + 1), (n - 1) as nat, c);
        lemma_join_first(head, rest, seq![c]);
        let all = splitn(s, n, c);
        assert(all =~= seq![head] + rest);
        assert(s =~= head + seq![c] + s.skip(i + 1));
        assert(!head.contains(c));
        assert forall|j: int|
            0 <= j < all.len() && (j < all.len() - 1 || all.len() < n) implies !(
        #[trigger] all[j]).contains(c) by {
            if j > 0 {
                assert(all[j] == rest[j - 1]);
            }
        }
    }
}

/// Law: trimming takes white space off both ends, all of it and nothing else.
pub proof fn law_trim_takes_white_space(s: Seq<char>)
    ensures
        trim(s).len() > 0 ==> !white_space(trim(s)[0]) && !white_space(trim(s).last()),
        exists|i: int, j: int|
            0 <= i <= j <= s.len() && trim(s) == #[trigger] s.subrange(i, j) && (forall|k: int|
                0 <= k < i || j <= k < s.len() ==> white_space(#[trigger] s[k])),
{
    let i = lemma_trim_start(s);
    let t = trim_start(s);
    let j = lemma_trim_end(t);
    assert(trim(s) == s.subrange(i, i + j)) by {
        assert(t.take(j) =~= s.subrange(i, i + j));
    }
    assert forall|k: int| 0 <= k < i || i + j <= k < s.len() implies white_space(
        #[trigger] s[k],
    ) by {
        if k >= i {
            assert(t[k - i] == s[k]);
        }
    }
    if trim(s).len() > 0 {
        assert(trim(s)[0] == t[0]);
    }
}

proof fn lemma_trim_start(s: Seq<char>) -> (i: int)
    ensures
        0 <= i <= s.len(),
        trim_start(s) == s.skip(i),
        forall|k: int| 0 <= k < i ==> white_space(#[trigger] s[k]),
        i < s.len() ==> !white_space(s[i]),
    decreases s.len(),
{
    if s.len() > 0 && white_space(s[0]) {
        let rest = s.drop_first();
        let i = lemma_trim_start(rest);
        assert(rest.skip(i) =~= s.skip(i + 1));
        assert forall|k: int| 0 <= k < i + 1 implies white_space(#[trigger] s[k]) by {
            if k > 0 {
                assert(s[k] == rest[k - 1]);
            }
        }
        i + 1
    } else {
        assert(s.skip(0) =~= s);
        0
    }
}

proof fn lemma_trim_end(s: Seq<char>) -> (j: int)
    ensures
        0 <= j <= s.len(),
        trim_end(s) == s.take(j),
        forall|k: int| j <= k < s.len() ==> white_space(#[trigger] s[k]),
        j > 0 ==> !white_space(s[j - 1]),
    decreases s.len(),
{
    if s.len() > 0 && white_space(s.last()) {
        let front = s.drop_last();
        let j = lemma_trim_end(front);
        assert(front.take(j) =~= s.take(j));
        assert forall|k: int| j <= k < s.len() implies white_space(#[trigger] s[k]) by {
            if k < front.len() {
                assert(s[k] == front[k]);
            }
        }
        j
    } else {
        assert(s.take(s.len() as int) =~= s);
        s.len() as int
    }
}

/// Law: the last line of a text needs no line feed.
pub proof fn law_last_line_needs_no_line_feed(s: Seq<char>)
    requires
        s.len() > 0,
        s.last() != '\n',
        s.last() != '\r',
    ensures
        lines(s + seq!['\n']) == lines(s),
    decreases s.len(),
{
    let t = s + seq!['\n'];
    lemma_first_index_is_first(s, '\n');
    let i = first_index(s, '\n');
    assert forall|j: int| 0 <= j < i implies t[j] != '\n' by {
        assert(t[j] == s[j]);
    }
    lemma_first_index(t, '\n', i);
    if i == s.len() {
        assert(t.take(i) =~= s);
        assert(t.skip(i + 1) =~= seq![]);
        assert(lines(seq![]) =~= seq![]);
        assert(lines(t) =~= lines(s));
    } else {
        let rest = s.skip(i + 1);
        assert(rest.len() > 0);
        assert(rest.last() == s.last());
        assert(t.take(i) =~= s.take(i));
        assert(t.skip(i + 1) =~= rest + seq!['\n']);
        law_last_line_needs_no_line_feed(rest);
    }
}

/// Law: a line that does not hold a line feed is the first line of the text in which it is
/// followed by one, with or without a carriage return between them; the other lines follow.
pub proof fn law_lines_end_in_line_feeds(line: Seq<char>, rest: Seq<char>)
    requires
        !line.contains('\n'),
    ensures
        line.len() == 0 || line.last() != '\r' ==> lines(line + seq!['\n'] + rest) == seq![line]
            + lines(rest),
        lines(line + seq!['\r', '\n'] + rest) == seq![line] + lines(rest),
{
    lemma_split_at(line, '\n', rest);
    let s = line + seq!['\n'] + rest;
    assert(s.take(line.len() as int) =~= line);
    assert(s.skip(line.len() as int + 1) =~= rest);
    let full = line + seq!['\r'];
    assert(!full.contains('\n')) by {
        if full.contains('\n') {
            let k = choose|k: int| 0 <= k < full.len() && full[k] == '\n';
            assert(line[k] == '\n');
            assert(line.contains('\n'));
        }
    }
    lemma_split_at(full, '\n', rest);
    let t = line + seq!['\r', '\n'] + rest;
    assert(t =~= full + seq!['\n'] + rest);
    assert(t.take(full.len() as int) =~= full);
    assert(t.skip(full.len() as int + 1) =~= rest);
    assert(full.drop_last() =~= line);
}

/// Law: what is kept of a text that is cut behind some bytes is its start, it does not take more
/// bytes, and one more character would.
pub proof fn law_byte_prefix_is_longest(s: Seq<char>, n: nat)
    ensures
        byte_prefix(s, n).len() <= s.len(),
        byte_prefix(s, n) == s.take(byte_prefix(s, n).len() as int),
        byte_len(byte_prefix(s, n)) <= n,
        byte_prefix(s, n).len() < s.len() ==> byte_len(
            s.take(byte_prefix(s, n).len() as int + 1),
        ) > n,
    decreases s.len(),
{
    if byte_len(s) <= n {
        assert(s.take(s.len() as int) =~= s);
    } else {
        let front = s.drop_last();
        if s.len() > 0 {
            law_byte_prefix_is_longest(front, n);
            let k = byte_prefix(front, n).len() as int;
            assert(front.take(k) =~= s.take(k));
            if k < front.len() {
                assert(front.take(k + 1) =~= s.take(k + 1));
            } else {
                assert(s.take(k + 1) =~= s);
            }
        }
    }
}

/// Law: of a text of ASCII characters as many characters are kept as bytes.
pub proof fn law_ascii_prefix(s: Seq<char>, n: nat)
    requires
        forall|i: int| 0 <= i < s.len() ==> #[trigger] s[i] <= '\u{7f}',
    ensures
        byte_prefix(s, n) == s.take(
            if s.len() <= n {
                s.len() as int
            } else {
                n as int
            },
        ),
{
    law_byte_prefix_is_longest(s, n);
    law_ascii_cuts_cleanly(s, n);
    let k = byte_prefix(s, n).len() as int;
    let p = s.take(k);
    assert forall|i: int| 0 <= i < p.len() implies #[trigger] p[i] <= '\u{7f}' by {
        assert(p[i] == s[i]);
    }
    law_ascii_cuts_cleanly(p, n);
    if k < s.len() {
        let q = s.take(k + 1);
        assert forall|i: int| 0 <= i < q.len() implies #[trigger] q[i] <= '\u{7f}' by {
            assert(q[i] == s[i]);
        }
        law_ascii_cuts_cleanly(q, n);
    }
}

/// Law: upper case leaves the number of characters and everything but the letters `a` to `z` as
/// they are, and of these it leaves none.
pub proof fn law_upper_case(s: Seq<char>, i: int)
    requires
        0 <= i < s.len(),
    ensures
        upper_text(s).len() == s.len(),
        !('a' <= upper_text(s)[i] && upper_text(s)[i] <= 'z'),
        'a' <= s[i] && s[i] <= 'z' ==> upper_text(s)[i] as int == s[i] as int - 'a' as int
            + 'A' as int,
        !('a' <= s[i] && s[i] <= 'z') ==> upper_text(s)[i] == s[i],
{
}

/// Law: a list of strings is joined by putting the separator before each string but the first.
pub proof fn law_joining_adds_a_separator(list: Seq<Seq<char>>, sep: Seq<char>, x: Seq<char>)
    ensures
        join(seq![], sep) == Seq::<char>::empty(),
        join(seq![x], sep) == x,
        list.len() > 0 ==> join(list.push(x), sep) == join(list, sep) + sep + x,
{
    assert(list.push(x).drop_last() =~= list);
}

} // verus!
