//! Primitive operations on text, stated over sequences of characters.

use vstd::prelude::*;

verus! {

/// `String::push` appends one character.
pub assume_specification[ String::push ](s: &mut String, c: char)
    ensures
        final(s)@ == old(s)@.push(c),
;

/// `String::pop` takes the last character away and returns it, if there is
/// one.
pub assume_specification[ String::pop ](s: &mut String) -> (c: Option<char>)
    ensures
        old(s)@.len() == 0 ==> c is None && final(s)@ == old(s)@,
        old(s)@.len() > 0 ==> c == Some(old(s)@.last()) && final(s)@ == old(s)@.drop_last(),
;

/// The characters of `s`, in order.
pub fn chars_of(s: &str) -> (v: Vec<char>)
    ensures
        v@ == s@,
{
    let mut v: Vec<char> = Vec::new();
    for c in it: s.chars()
        invariant
            it.seq() == s@,
            v@ == s@.take(it.index()),
    {
        v.push(c);
    }
    v
}

/// The text made of the characters `v[from..to]`.
pub fn string_of(v: &Vec<char>, from: usize, to: usize) -> (s: String)
    requires
        from <= to <= v.len(),
    ensures
        s@ == v@.subrange(from as int, to as int),
{
    let mut s = String::new();
    let mut i: usize = from;
    while i < to
        invariant
            from <= i <= to <= v.len(),
            s@ == v@.subrange(from as int, i as int),
        decreases to - i,
    {
        s.push(v[i]);
        i += 1;
    }
    s
}

/// A result that holds text on either side, as contracts see it.
pub open spec fn text_result(r: Result<String, String>) -> Result<Seq<char>, Seq<char>> {
    match r {
        Ok(text) => Ok(text@),
        Err(text) => Err(text@),
    }
}

/// Where a relative path ends up under a base directory, by the rules for
/// paths whose separator is `/`: an absolute `part` stands for itself; any
/// other is put behind `base`, with a separator between them unless `base` is
/// empty or ends in one.
pub open spec fn joined(base: Seq<char>, part: Seq<char>) -> Seq<char> {
    if part.len() > 0 && part[0] == '/' {
        part
    } else if base.len() == 0 || base.last() == '/' {
        base + part
    } else {
        base.push('/') + part
    }
}

/// A path of three parts reads as the parts with separators between them,
/// where the parts are plain: none of them empty, no separator at the end of
/// those that something follows, none at the start of those that follow
/// something.
pub proof fn lemma_joined_plain(root: Seq<char>, dir: Seq<char>, name: Seq<char>)
    requires
        root.len() > 0 && root.last() != '/',
        dir.len() > 0 && dir[0] != '/' && dir.last() != '/',
        name.len() > 0 && name[0] != '/',
    ensures
        joined(joined(root, dir), name) == root + seq!['/'] + dir + seq!['/'] + name,
{
    let under = joined(root, dir);
    assert(under =~= root + seq!['/'] + dir);
    assert(under.last() == dir.last());
    assert(joined(under, name) =~= root + seq!['/'] + dir + seq!['/'] + name);
}

/// The path of `part` under the directory `base`.
pub fn join_path(base: &str, part: &str) -> (path: String)
    ensures
        path@ == joined(base@, part@),
{
    if !part.is_empty() && part.get_char(0) == '/' {
        return part.to_owned();
    }
    let mut path = base.to_owned();
    let n: usize = base.unicode_len();
    if n > 0 && base.get_char(n - 1) != '/' {
        path.push('/');
    }
    path.append(part);
    path
}

/// `str`'s `==` compares character by character.
pub assume_specification[ <str as PartialEq>::eq ](a: &str, b: &str) -> (r: bool)
    ensures
        r == (a@ == b@),
;

/// What `char::is_whitespace` returns for a character: whether it has the
/// Unicode property `White_Space`.
pub uninterp spec fn is_whitespace_char(c: char) -> bool;

/// `char::is_whitespace` tells whether the character is white space; the
/// space character is.
pub assume_specification[ char::is_whitespace ](c: char) -> (b: bool)
    ensures
        b == is_whitespace_char(c),
        c == ' ' ==> b,
;

/// `s` without the white space at its end.
pub open spec fn trimmed_end(s: Seq<char>) -> Seq<char>
    decreases s.len(),
{
    if s.len() > 0 && is_whitespace_char(s.last()) {
        trimmed_end(s.drop_last())
    } else {
        s
    }
}

/// `s` without the white space at its start.
pub open spec fn trimmed_start(s: Seq<char>) -> Seq<char>
    decreases s.len(),
{
    if s.len() > 0 && is_whitespace_char(s.first()) {
        trimmed_start(s.drop_first())
    } else {
        s
    }
}

/// `s` without the white space at its start and at its end.
pub open spec fn trimmed(s: Seq<char>) -> Seq<char> {
    trimmed_start(trimmed_end(s))
}

/// Every character of `s` is a space.
pub open spec fn all_spaces(s: Seq<char>) -> bool {
    forall|i: int| 0 <= i < s.len() ==> s[i] == ' '
}

/// How many characters of `v` are left when the white space at its end is
/// taken away. Nothing is left of a text made of spaces.
pub fn trimmed_end_len(v: &Vec<char>) -> (end: usize)
    ensures
        end <= v.len(),
        v@.take(end as int) == trimmed_end(v@),
        all_spaces(v@) ==> end == 0,
{
    let mut end: usize = v.len();
    proof {
        assert(v@.take(end as int) == v@);
    }
    while end > 0 && v[end - 1].is_whitespace()
        invariant
            end <= v.len(),
            trimmed_end(v@.take(end as int)) == trimmed_end(v@),
        decreases end,
    {
        proof {
            assert(v@.take(end as int).drop_last() == v@.take(end - 1));
        }
        end -= 1;
    }
    end
}

/// How many characters at the start of `v[..end]` are white space that
/// `trimmed_start` takes away.
fn trimmed_start_len(v: &Vec<char>, end: usize) -> (start: usize)
    requires
        end <= v.len(),
    ensures
        start <= end,
        v@.subrange(start as int, end as int) == trimmed_start(v@.take(end as int)),
{
    let mut start: usize = 0;
    proof {
        assert(v@.subrange(0, end as int) == v@.take(end as int));
    }
    while start < end && v[start].is_whitespace()
        invariant
            start <= end <= v.len(),
            trimmed_start(v@.subrange(start as int, end as int)) == trimmed_start(
                v@.take(end as int),
            ),
        decreases end - start,
    {
        proof {
            assert(v@.subrange(start as int, end as int).drop_first() == v@.subrange(
                start + 1,
                end as int,
            ));
        }
        start += 1;
    }
    start
}

/// `s` without the white space at its start and at its end.
pub fn trim(s: &str) -> (r: String)
    ensures
        r@ == trimmed(s@),
{
    let v = chars_of(s);
    let end = trimmed_end_len(&v);
    let start = trimmed_start_len(&v, end);
    string_of(&v, start, end)
}

} // verus!
