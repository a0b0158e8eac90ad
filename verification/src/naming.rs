//! Names: the identifiers of agents, and what is derived from the free text
//! of a task, the slug in the name of its branch.

use vstd::prelude::*;
use crate::clock::today;
use crate::text::string_of;

verus! {

/// The separator that stands for every run of characters a slug cannot hold.
pub const SEPARATOR: char = '-';

/// The most characters a slug holds.
pub const SLUG_LIMIT: usize = 30;

/// What `str::to_lowercase` returns for a text: its Unicode lowercase form.
pub uninterp spec fn lowercase_of(s: Seq<char>) -> Seq<char>;

/// What `char::is_alphanumeric` returns for a character: whether Unicode
/// classes it as alphabetic or numeric.
pub uninterp spec fn is_alphanumeric_char(c: char) -> bool;

/// `str::to_lowercase` returns the lowercase form of the whole text.
pub assume_specification[ str::to_lowercase ](s: &str) -> (r: String)
    ensures
        r@ == lowercase_of(s@),
;

/// `char::is_alphanumeric` tells whether the character is alphabetic or numeric.
pub assume_specification[ char::is_alphanumeric ](c: char) -> (b: bool)
    ensures
        b == is_alphanumeric_char(c),
;

/// The character that stands for `c` in a slug: `c` itself where it is
/// alphanumeric, the separator otherwise.
pub open spec fn slug_char(c: char) -> char {
    if is_alphanumeric_char(c) {
        c
    } else {
        SEPARATOR
    }
}

/// `s` with every character replaced by its slug character, each run of
/// separators reduced to one, and no separator at the start.
pub open spec fn collapsed(s: Seq<char>) -> Seq<char>
    decreases s.len(),
{
    if s.len() == 0 {
        Seq::empty()
    } else {
        let before = collapsed(s.drop_last());
        let c = slug_char(s.last());
        if c != SEPARATOR {
            before.push(c)
        } else if before.len() > 0 && before.last() != SEPARATOR {
            before.push(SEPARATOR)
        } else {
            before
        }
    }
}

/// `s` without its last character where that is a separator.
pub open spec fn without_trailing_separator(s: Seq<char>) -> Seq<char> {
    if s.len() > 0 && s.last() == SEPARATOR {
        s.drop_last()
    } else {
        s
    }
}

/// The slug before it is cut to length.
pub open spec fn full_slug(lowered: Seq<char>) -> Seq<char> {
    without_trailing_separator(collapsed(lowered))
}

/// The slug of a text that is already in lowercase.
pub open spec fn slug_of_lowered(lowered: Seq<char>) -> Seq<char> {
    let full = full_slug(lowered);
    if full.len() > SLUG_LIMIT {
        full.take(SLUG_LIMIT as int)
    } else {
        full
    }
}

/// The slug of a task description.
pub open spec fn slug_of(task: Seq<char>) -> Seq<char> {
    slug_of_lowered(lowercase_of(task))
}

/// No two neighbours in `s` are both separators.
pub open spec fn separators_single(s: Seq<char>) -> bool {
    forall|i: int| 0 <= i < s.len() - 1 ==> !(#[trigger] s[i] == SEPARATOR && s[i + 1] == SEPARATOR)
}

/// Every character of `s` is a separator or an alphanumeric character of `source`.
pub open spec fn drawn_from(s: Seq<char>, source: Seq<char>) -> bool {
    forall|i: int|
        0 <= i < s.len() ==> #[trigger] s[i] == SEPARATOR || (is_alphanumeric_char(s[i])
            && source.contains(s[i]))
}

/// The shape of a collapsed text: see `lemma_slug_shape`.
proof fn lemma_collapsed_shape(s: Seq<char>)
    ensures
        drawn_from(collapsed(s), s),
        separators_single(collapsed(s)),
        collapsed(s).len() > 0 ==> collapsed(s)[0] != SEPARATOR,
        collapsed(s).len() <= s.len(),
    decreases s.len(),
{
    if s.len() > 0 {
        let head = s.drop_last();
        lemma_collapsed_shape(head);
        let before = collapsed(head);
        let out = collapsed(s);
        assert forall|i: int| 0 <= i < out.len() implies #[trigger] out[i] == SEPARATOR || (
        is_alphanumeric_char(out[i]) && s.contains(out[i])) by {
            if i < before.len() {
                if before[i] != SEPARATOR {
                    let k = choose|k: int| 0 <= k < head.len() && head[k] == before[i];
                    assert(s[k] == before[i]);
                }
            } else {
                assert(s[s.len() - 1] == s.last());
            }
        }
    }
}

/// The shape of every slug: at most `SLUG_LIMIT` characters, each of them a
/// separator or an alphanumeric character of the lowercase text; no separator
/// at the start; never two separators in a row; and a separator at the end
/// only where the cut to `SLUG_LIMIT` characters fell right behind it.
pub proof fn lemma_slug_shape(lowered: Seq<char>)
    ensures
        slug_of_lowered(lowered).len() <= SLUG_LIMIT,
        drawn_from(slug_of_lowered(lowered), lowered),
        separators_single(slug_of_lowered(lowered)),
        slug_of_lowered(lowered).len() > 0 ==> slug_of_lowered(lowered)[0] != SEPARATOR,
        slug_of_lowered(lowered).len() > 0 && slug_of_lowered(lowered).last() == SEPARATOR
            ==> full_slug(lowered).len() > SLUG_LIMIT,
{
    lemma_collapsed_shape(lowered);
    let c = collapsed(lowered);
    let full = full_slug(lowered);
    let slug = slug_of_lowered(lowered);
    assert forall|i: int| 0 <= i < slug.len() implies slug[i] == c[i] by {}
    if full.len() <= SLUG_LIMIT && full.len() > 0 && full.last() == SEPARATOR {
        // cannot be: the separator before the one that was dropped would be its neighbour
        assert(c[c.len() - 2] == SEPARATOR && c[c.len() - 2 + 1] == SEPARATOR);
    }
}

/// The slug of a text that is already in lowercase.
pub fn slug_from_lowered(lowered: &str) -> (slug: String)
    ensures
        slug@ == slug_of_lowered(lowered@),
{
    let mut kept: Vec<char> = Vec::new();
    for c in it: lowered.chars()
        invariant
            it.seq() == lowered@,
            kept@ == collapsed(lowered@.take(it.index())),
    {
        proof {
            assert(lowered@.take(it.index() + 1).drop_last() == lowered@.take(it.index()));
        }
        let mapped = if c.is_alphanumeric() {
            c
        } else {
            SEPARATOR
        };
        if mapped != SEPARATOR {
            kept.push(mapped);
        } else if kept.len() > 0 && kept[kept.len() - 1] != SEPARATOR {
            kept.push(SEPARATOR);
        }
    }
    proof {
        assert(lowered@.take(lowered@.len() as int) == lowered@);
    }
    let mut end: usize = kept.len();
    if end > 0 && kept[end - 1] == SEPARATOR {
        end = end - 1;
    }
    if end > SLUG_LIMIT {
        end = SLUG_LIMIT;
    }
    string_of(&kept, 0, end)
}

/// The branch-name fragment of a task description: lowercase, every
/// character that is not alphanumeric turned into a separator, runs of
/// separators reduced to one, none at the start or the end, and the whole cut
/// to `SLUG_LIMIT` characters.
pub fn slugify(task: &str) -> (slug: String)
    ensures
        slug@ == slug_of(task@),
        slug@.len() <= SLUG_LIMIT,
        drawn_from(slug@, lowercase_of(task@)),
        separators_single(slug@),
        slug@.len() > 0 ==> slug@[0] != SEPARATOR,
        slug@.len() > 0 && slug@.last() == SEPARATOR ==> full_slug(lowercase_of(task@)).len()
            > SLUG_LIMIT,
{
    let lowered = task.to_lowercase();
    proof {
        lemma_slug_shape(lowered@);
    }
    slug_from_lowered(lowered.as_str())
}

/// How many random characters end an identifier.
pub const SUFFIX_LEN: usize = 4;

/// A letter or a digit of ASCII.
pub open spec fn is_ascii_alphanumeric(b: u8) -> bool {
    (0x30 <= b <= 0x39) || (0x41 <= b <= 0x5a) || (0x61 <= b <= 0x7a)
}

/// `n` bytes drawn with `rand::thread_rng` from
/// `rand::distributions::Alphanumeric`, which yields letters and digits of
/// ASCII only. Which ones is left open: they are random.
#[verifier::external_body]
fn random_alphanumerics(n: usize) -> (sample: Vec<u8>)
    ensures
        sample.len() == n,
        forall|i: int| 0 <= i < n ==> is_ascii_alphanumeric(#[trigger] sample[i]),
{
    rand::Rng::sample_iter(rand::thread_rng(), &rand::distributions::Alphanumeric).take(n).collect()
}

/// The character for a byte, with the capital letters of ASCII in lowercase.
pub open spec fn lowered_byte(b: u8) -> char {
    if 0x41 <= b <= 0x5a {
        (b + 0x20) as char
    } else {
        b as char
    }
}

/// The characters that end an identifier, for the bytes that were drawn.
pub open spec fn suffix_of(sample: Seq<u8>) -> Seq<char> {
    sample.map_values(|b: u8| lowered_byte(b))
}

/// The identifier made of a date and a suffix.
pub open spec fn id_of(date: Seq<char>, suffix: Seq<char>) -> Seq<char> {
    "cwt-"@ + date + "-"@ + suffix
}

/// An identifier as `generate_id` makes them: `cwt-`, a date, `-`, and
/// `SUFFIX_LEN` characters that stand for letters or digits of ASCII.
pub open spec fn is_generated_id(id: Seq<char>) -> bool {
    exists|date: Seq<char>, sample: Seq<u8>|
        sample.len() == SUFFIX_LEN && (forall|i: int|
            0 <= i < sample.len() ==> is_ascii_alphanumeric(#[trigger] sample[i])) && id
            == #[trigger] id_of(date, suffix_of(sample))
}

/// A lowercase letter or a digit of ASCII.
pub open spec fn is_suffix_char(c: char) -> bool {
    ('0' <= c <= '9') || ('a' <= c <= 'z')
}

/// What every generated identifier looks like: it begins with `cwt-`, so
/// with no path separator, and ends with a `-` and `SUFFIX_LEN` lowercase
/// letters or digits of ASCII.
pub proof fn lemma_generated_id_shape(id: Seq<char>)
    requires
        is_generated_id(id),
    ensures
        id.len() >= 5 + SUFFIX_LEN,
        id.subrange(0, 4) == "cwt-"@,
        id[0] == 'c',
        id[id.len() - SUFFIX_LEN - 1] == '-',
        forall|i: int| id.len() - SUFFIX_LEN <= i < id.len() ==> is_suffix_char(#[trigger] id[i]),
{
    reveal_strlit("cwt-");
    reveal_strlit("-");
    let (date, sample) = choose|date: Seq<char>, sample: Seq<u8>|
        sample.len() == SUFFIX_LEN && (forall|i: int|
            0 <= i < sample.len() ==> is_ascii_alphanumeric(#[trigger] sample[i])) && id
            == #[trigger] id_of(date, suffix_of(sample));
    let suffix = suffix_of(sample);
    let n = id.len() as int;
    assert(id =~= "cwt-"@ + date + "-"@ + suffix);
    assert(n == 4 + date.len() + 1 + 4);
    assert(id.subrange(0, 4) =~= "cwt-"@);
    assert forall|i: int| n - SUFFIX_LEN <= i < n implies is_suffix_char(#[trigger] id[i]) by {
        let k = i - (n - SUFFIX_LEN);
        assert(id[i] == suffix[k]);
        assert(is_ascii_alphanumeric(sample[k]));
        let b = sample[k];
        if 0x41 <= b <= 0x5a {
            assert(suffix[k] == (b + 0x20) as char);
        } else {
            assert(suffix[k] == b as char);
        }
    }
}

/// The identifier for a date and the bytes that were drawn.
pub fn compose_id(date: &str, sample: &Vec<u8>) -> (id: String)
    ensures
        id@ == id_of(date@, suffix_of(sample@)),
{
    let mut id = "cwt-".to_owned();
    id.append(date);
    id.append("-");
    let ghost head = id@;
    let mut i: usize = 0;
    while i < sample.len()
        invariant
            i <= sample.len(),
            head == "cwt-"@ + date@ + "-"@,
            id@ == head + suffix_of(sample@.take(i as int)),
        decreases sample.len() - i,
    {
        let b: u8 = sample[i];
        let c: char = if 0x41 <= b && b <= 0x5a {
            (b + 0x20) as char
        } else {
            b as char
        };
        id.push(c);
        proof {
            assert(suffix_of(sample@.take(i + 1)) =~= suffix_of(sample@.take(i as int)).push(c));
        }
        i += 1;
    }
    proof {
        assert(sample@.take(sample.len() as int) == sample@);
    }
    id
}

/// A new identifier: `cwt-`, today's date, `-`, and `SUFFIX_LEN` random
/// lowercase letters or digits. It is not held against the identifiers
/// already in use.
pub fn generate_id() -> (id: String)
    ensures
        is_generated_id(id@),
{
    let date = today();
    let sample = random_alphanumerics(SUFFIX_LEN);
    compose_id(date.as_str(), &sample)
}

/// The name of the branch on which the agent `id` works on a task with the
/// given slug.
pub open spec fn branch_name_of(id: Seq<char>, slug: Seq<char>) -> Seq<char> {
    "cwt/"@ + id + "/"@ + slug
}

/// The name of the branch on which the agent `id` works on `task`.
pub fn branch_name(id: &str, task: &str) -> (name: String)
    ensures
        name@ == branch_name_of(id@, slug_of(task@)),
{
    let slug = slugify(task);
    let mut name = "cwt/".to_owned();
    name.append(id);
    name.append("/");
    name.append(slug.as_str());
    name
}

/// The message of the commit that merges the work of the agent `id` on `task`.
pub open spec fn merge_message_of(id: Seq<char>, task: Seq<char>) -> Seq<char> {
    "Merge "@ + id + ": "@ + task
}

/// The message of the commit that merges the work of the agent `id` on `task`.
pub fn merge_message(id: &str, task: &str) -> (message: String)
    ensures
        message@ == merge_message_of(id@, task@),
{
    let mut message = "Merge ".to_owned();
    message.append(id);
    message.append(": ");
    message.append(task);
    message
}

} // verus!
