//! Characters of a string, and the pieces of text that the notations are
//! made of.

use vstd::prelude::*;
use vstd::slice::*;
use vstd::string::*;

verus! {

/// The characters of `s`, in order.
pub fn to_chars(s: &str) -> (v: Vec<char>)
    ensures
        v@ == s@,
{
    broadcast use group_string_axioms;

    let mut v: Vec<char> = Vec::new();
    for c in it: s.chars()
        invariant
            it.seq() == s@,
            v@ == it.seq().take(it.index() as int),
    {
        v.push(c);
    }
    v
}

/// Whether `c` is white space: a character with Unicode's property
/// `White_Space`.
pub open spec fn is_whitespace(c: char) -> bool {
    ||| '\u{9}' <= c <= '\u{d}'
    ||| c == ' '
    ||| c == '\u{85}'
    ||| c == '\u{a0}'
    ||| c == '\u{1680}'
    ||| '\u{2000}' <= c <= '\u{200a}'
    ||| c == '\u{2028}'
    ||| c == '\u{2029}'
    ||| c == '\u{202f}'
    ||| c == '\u{205f}'
    ||| c == '\u{3000}'
}

/// Tells whether `c` is white space.
pub fn is_space(c: char) -> (r: bool)
    ensures
        r == is_whitespace(c),
{
    ('\u{9}' <= c && c <= '\u{d}') || c == ' ' || c == '\u{85}' || c == '\u{a0}' || c
        == '\u{1680}' || ('\u{2000}' <= c && c <= '\u{200a}') || c == '\u{2028}' || c
        == '\u{2029}' || c == '\u{202f}' || c == '\u{205f}' || c == '\u{3000}'
}

/// `s` without the white space that it starts with.
pub open spec fn trim_start(s: Seq<char>) -> Seq<char>
    decreases s.len(),
{
    if s.len() > 0 && is_whitespace(s[0]) {
        trim_start(s.skip(1))
    } else {
        s
    }
}

/// `s` without the white space that it ends with.
pub open spec fn trim_end(s: Seq<char>) -> Seq<char>
    decreases s.len(),
{
    if s.len() > 0 && is_whitespace(s.last()) {
        trim_end(s.drop_last())
    } else {
        s
    }
}

/// `s` without the white space around it.
pub open spec fn trimmed(s: Seq<char>) -> Seq<char> {
    trim_end(trim_start(s))
}

/// Removes the white space around `s`.
pub fn trim(s: &[char]) -> (r: &[char])
    ensures
        r@ == trimmed(s@),
{
    let mut from: usize = 0;
    assert(s@.skip(0) =~= s@);
    while from < s.len() && is_space(s[from])
        invariant
            from <= s@.len(),
            trim_start(s@) == trim_start(s@.skip(from as int)),
        decreases s@.len() - from,
    {
        assert(s@.skip(from as int).skip(1) =~= s@.skip(from + 1));
        from += 1;
    }
    let ghost rest = s@.skip(from as int);
    assert(trim_start(s@) == rest);
    let mut to: usize = s.len();
    assert(s@.subrange(from as int, to as int) =~= rest);
    while to > from && is_space(s[to - 1])
        invariant
            from <= to <= s@.len(),
            rest == s@.skip(from as int),
            trim_end(rest) == trim_end(s@.subrange(from as int, to as int)),
        decreases to - from,
    {
        assert(s@.subrange(from as int, to as int).drop_last() =~= s@.subrange(
            from as int,
            to - 1,
        ));
        to -= 1;
    }
    slice_subrange(s, from, to)
}

/// The index of the first `sep` in `s`, or the length of `s` where it holds
/// none.
pub open spec fn first_index_of(s: Seq<char>, sep: char) -> int
    decreases s.len(),
{
    if s.len() == 0 || s[0] == sep {
        0
    } else {
        1 + first_index_of(s.skip(1), sep)
    }
}

/// The pieces of `s` that lie between its occurrences of `sep`, in order: one
/// more piece than there are occurrences.
pub open spec fn fields(s: Seq<char>, sep: char) -> Seq<Seq<char>>
    decreases s.len(),
{
    let k = first_index_of(s, sep);
    if 0 <= k < s.len() {
        seq![s.take(k)] + fields(s.skip(k + 1), sep)
    } else {
        seq![s]
    }
}

/// The texts that the slices of `v` hold.
pub open spec fn views(v: Seq<&[char]>) -> Seq<Seq<char>> {
    v.map_values(|piece: &[char]| piece@)
}

/// `first_index_of` is the first place at which `sep` stands.
pub proof fn lemma_first_index_of(s: Seq<char>, sep: char, k: int)
    requires
        0 <= k <= s.len(),
        forall|j: int| 0 <= j < k ==> s[j] != sep,
        k < s.len() ==> s[k] == sep,
    ensures
        first_index_of(s, sep) == k,
    decreases k,
{
    if k > 0 {
        lemma_first_index_of(s.skip(1), sep, k - 1);
    }
}

/// Splits `s` at each `sep`.
pub fn split<'a>(s: &'a [char], sep: char) -> (r: Vec<&'a [char]>)
    ensures
        views(r@) == fields(s@, sep),
{
    let mut pieces: Vec<&'a [char]> = Vec::new();
    let mut start: usize = 0;
    let mut i: usize = 0;
    assert(s@.skip(0) =~= s@);
    assert(views(pieces@) + fields(s@, sep) =~= fields(s@, sep));
    while i < s.len()
        invariant
            start <= i <= s@.len(),
            forall|j: int| start <= j < i ==> s@[j] != sep,
            fields(s@, sep) == views(pieces@) + fields(s@.skip(start as int), sep),
        decreases s@.len() - i,
    {
        if s[i] == sep {
            let piece = slice_subrange(s, start, i);
            proof {
                let rest = s@.skip(start as int);
                lemma_first_index_of(rest, sep, i - start);
                assert(rest.take(i - start) =~= piece@);
                assert(rest.skip(i - start + 1) =~= s@.skip(i + 1));
                assert(views(pieces@.push(piece)) =~= views(pieces@).push(piece@));
                assert(views(pieces@) + (seq![piece@] + fields(s@.skip(i + 1), sep)) =~= views(
                    pieces@,
                ).push(piece@) + fields(s@.skip(i + 1), sep));
            }
            pieces.push(piece);
            start = i + 1;
        }
        i += 1;
    }
    let piece = slice_subrange(s, start, s.len());
    proof {
        let rest = s@.skip(start as int);
        lemma_first_index_of(rest, sep, s@.len() - start);
        assert(rest =~= piece@);
        assert(views(pieces@.push(piece)) =~= views(pieces@).push(piece@));
        assert(views(pieces@) + seq![piece@] =~= views(pieces@).push(piece@));
    }
    pieces.push(piece);
    pieces
}

/// Whether `sep` stands nowhere in `s`.
pub open spec fn free_of(s: Seq<char>, sep: char) -> bool {
    forall|j: int| 0 <= j < s.len() ==> #[trigger] s[j] != sep
}

/// The pieces of `parts` written one after another, with one `sep` between
/// each two of them.
pub open spec fn joined(parts: Seq<Seq<char>>, sep: char) -> Seq<char>
    decreases parts.len(),
{
    if parts.len() == 0 {
        Seq::empty()
    } else if parts.len() == 1 {
        parts[0]
    } else {
        parts[0] + seq![sep] + joined(parts.skip(1), sep)
    }
}

/// Before the place that `first_index_of` gives there is no `sep`, and at that
/// place there is one, unless it is the end of `s`.
pub proof fn lemma_first_index_is_first(s: Seq<char>, sep: char)
    ensures
        0 <= first_index_of(s, sep) <= s.len(),
        free_of(s.take(first_index_of(s, sep)), sep),
        first_index_of(s, sep) < s.len() ==> s[first_index_of(s, sep)] == sep,
    decreases s.len(),
{
    if s.len() > 0 && s[0] != sep {
        let rest = s.skip(1);
        lemma_first_index_is_first(rest, sep);
        let k = first_index_of(rest, sep);
        assert forall|j: int| 0 <= j < k + 1 implies #[trigger] s.take(k + 1)[j] != sep by {
            if j > 0 {
                assert(rest.take(k)[j - 1] == s[j]);
            }
        }
    }
}

/// Splitting loses nothing and leaves no separator behind: there is at least
/// one piece, no piece holds `sep`, and the pieces joined by `sep` are `s`.
pub proof fn lemma_fields_join_back(s: Seq<char>, sep: char)
    ensures
        fields(s, sep).len() >= 1,
        forall|k: int| 0 <= k < fields(s, sep).len() ==> free_of(#[trigger] fields(s, sep)[k], sep),
        joined(fields(s, sep), sep) == s,
    decreases s.len(),
{
    lemma_first_index_is_first(s, sep);
    let k = first_index_of(s, sep);
    if k < s.len() {
        let rest = s.skip(k + 1);
        lemma_fields_join_back(rest, sep);
        let all = fields(s, sep);
        assert(all.skip(1) =~= fields(rest, sep));
        assert(s.take(k) + seq![sep] + rest =~= s);
    } else {
        assert(s.take(k) =~= s);
    }
}

/// Splitting undoes joining: pieces that hold no `sep`, joined by `sep` and
/// split again, are the same pieces.
pub proof fn lemma_fields_of_joined(parts: Seq<Seq<char>>, sep: char)
    requires
        parts.len() >= 1,
        forall|k: int| 0 <= k < parts.len() ==> free_of(#[trigger] parts[k], sep),
    ensures
        fields(joined(parts, sep), sep) == parts,
    decreases parts.len(),
{
    let s = joined(parts, sep);
    let first = parts[0];
    assert(free_of(first, sep));
    if parts.len() == 1 {
        lemma_first_index_of(s, sep, s.len() as int);
        assert(fields(s, sep) =~= parts);
    } else {
        let others = parts.skip(1);
        assert forall|k: int| 0 <= k < others.len() implies free_of(
            #[trigger] others[k],
            sep,
        ) by {
            assert(others[k] == parts[k + 1]);
        }
        lemma_fields_of_joined(others, sep);
        lemma_first_index_of(s, sep, first.len() as int);
        assert(s.take(first.len() as int) =~= first);
        assert(s.skip(first.len() as int + 1) =~= joined(others, sep));
        assert(seq![first] + others =~= parts);
    }
}

/// What `trim_start` takes away is white space, all that `s` starts with.
pub proof fn lemma_trim_start_shape(s: Seq<char>)
    ensures
        trim_start(s).len() <= s.len(),
        trim_start(s) == s.skip(s.len() - trim_start(s).len()),
        forall|j: int| 0 <= j < s.len() - trim_start(s).len() ==> is_whitespace(#[trigger] s[j]),
        trim_start(s).len() > 0 ==> !is_whitespace(trim_start(s)[0]),
    decreases s.len(),
{
    if s.len() > 0 && is_whitespace(s[0]) {
        let rest = s.skip(1);
        lemma_trim_start_shape(rest);
        let cut = rest.len() - trim_start(rest).len();
        assert(rest.skip(cut) =~= s.skip(cut + 1));
        assert forall|j: int| 0 <= j < cut + 1 implies is_whitespace(#[trigger] s[j]) by {
            if j > 0 {
                assert(rest[j - 1] == s[j]);
            }
        }
    } else {
        assert(s.skip(0) =~= s);
    }
}

/// What `trim_end` takes away is white space, all that `s` ends with.
pub proof fn lemma_trim_end_shape(s: Seq<char>)
    ensures
        trim_end(s).len() <= s.len(),
        trim_end(s) == s.take(trim_end(s).len() as int),
        forall|j: int| trim_end(s).len() <= j < s.len() ==> is_whitespace(#[trigger] s[j]),
        trim_end(s).len() > 0 ==> !is_whitespace(trim_end(s).last()),
    decreases s.len(),
{
    if s.len() > 0 && is_whitespace(s.last()) {
        let rest = s.drop_last();
        lemma_trim_end_shape(rest);
        let keep = trim_end(rest).len() as int;
        assert(rest.take(keep) =~= s.take(keep));
        assert forall|j: int| keep <= j < s.len() implies is_whitespace(#[trigger] s[j]) by {
            if j < rest.len() {
                assert(rest[j] == s[j]);
            }
        }
    } else {
        assert(s.take(s.len() as int) =~= s);
    }
}

/// `trimmed(s)` is `s` without white space before and after it: it is the
/// part of `s` between two places, all before the first and all from the
/// second on is white space, and it neither starts nor ends with white space.
pub proof fn lemma_trimmed_shape(s: Seq<char>)
    ensures
        exists|from: int, to: int|
            {
                &&& 0 <= from <= to <= s.len()
                &&& #[trigger] s.subrange(from, to) == trimmed(s)
                &&& forall|j: int| 0 <= j < from ==> is_whitespace(#[trigger] s[j])
                &&& forall|j: int| to <= j < s.len() ==> is_whitespace(#[trigger] s[j])
            },
        trimmed(s).len() > 0 ==> !is_whitespace(trimmed(s)[0]) && !is_whitespace(
            trimmed(s).last(),
        ),
{
    lemma_trim_start_shape(s);
    let rest = trim_start(s);
    lemma_trim_end_shape(rest);
    let from = s.len() - rest.len();
    let to = from + trimmed(s).len();
    assert(s.subrange(from, to) =~= trimmed(s));
    assert forall|j: int| to <= j < s.len() implies is_whitespace(#[trigger] s[j]) by {
        assert(rest[j - from] == s[j]);
    }
    if trimmed(s).len() > 0 {
        assert(trimmed(s)[0] == rest[0]);
    }
}

/// A text that neither starts nor ends with white space is left as it is.
pub proof fn lemma_trimmed_keeps(s: Seq<char>)
    requires
        s.len() > 0 ==> !is_whitespace(s[0]) && !is_whitespace(s.last()),
    ensures
        trimmed(s) == s,
{
}

} // verus!
