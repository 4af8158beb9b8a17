//! Character-level vocabulary shared by the parsers: white space, trimming,
//! searching and splitting, each as a spec function on `Seq<char>` with an
//! executable counterpart that works on index ranges of a character buffer.

use vstd::prelude::*;

verus! {

/// Whether `c` is white space in the sense of `char::is_whitespace`.
pub uninterp spec fn is_whitespace(c: char) -> bool;

/// Calls `char::is_whitespace`. The contract only gives the outcome its
/// name; which characters count as white space is left to the standard
/// library.
#[verifier::external_body]
pub(crate) fn char_is_whitespace(c: char) -> (b: bool)
    ensures
        b == is_whitespace(c),
{
    c.is_whitespace()
}

/// `s` without its leading white space.
pub open spec fn trim_start(s: Seq<char>) -> Seq<char>
    decreases s.len(),
{
    if s.len() > 0 && is_whitespace(s.first()) {
        trim_start(s.drop_first())
    } else {
        s
    }
}

/// `s` without its trailing white space.
pub open spec fn trim_end(s: Seq<char>) -> Seq<char>
    decreases s.len(),
{
    if s.len() > 0 && is_whitespace(s.last()) {
        trim_end(s.drop_last())
    } else {
        s
    }
}

/// `s` without leading and trailing white space.
pub open spec fn trim(s: Seq<char>) -> Seq<char> {
    trim_end(trim_start(s))
}

/// Every character of `s` is white space; true of the empty sequence.
pub open spec fn is_blank(s: Seq<char>) -> bool {
    forall|i: int| 0 <= i < s.len() ==> is_whitespace(#[trigger] s[i])
}

/// Nothing would be removed from `s` by trimming: it is empty, or its first
/// and last characters are not white space.
pub open spec fn is_trimmed(s: Seq<char>) -> bool {
    s.len() > 0 ==> !is_whitespace(s.first()) && !is_whitespace(s.last())
}

/// Position of the first character of `s` that belongs to `stops`, or
/// `s.len()` when there is none.
pub open spec fn first_in(s: Seq<char>, stops: Set<char>) -> int
    decreases s.len(),
{
    if s.len() == 0 || stops.contains(s.first()) {
        0
    } else {
        1 + first_in(s.drop_first(), stops)
    }
}

/// The pieces of `s` between occurrences of `sep`. There is always at least
/// one piece, and `n` separators give `n + 1` pieces, empty ones included.
pub open spec fn split(s: Seq<char>, sep: char) -> Seq<Seq<char>>
    decreases s.len(),
{
    let i = first_in(s, set![sep]);
    if 0 <= i < s.len() {
        seq![s.take(i)] + split(s.skip(i + 1), sep)
    } else {
        seq![s]
    }
}

/// Each piece trimmed, in the same order.
pub open spec fn trim_each(pieces: Seq<Seq<char>>) -> Seq<Seq<char>> {
    pieces.map_values(|piece: Seq<char>| trim(piece))
}

/// The character content of each string, in the same order.
pub open spec fn contents(strings: Seq<String>) -> Seq<Seq<char>> {
    strings.map_values(|s: String| s@)
}

/// The text that each index range selects from `chars`.
pub open spec fn selected(chars: Seq<char>, ranges: Seq<(usize, usize)>) -> Seq<Seq<char>> {
    ranges.map_values(|r: (usize, usize)| chars.subrange(r.0 as int, r.1 as int))
}

/// Every range lies inside `from..to` and is not reversed.
pub open spec fn ranges_within(ranges: Seq<(usize, usize)>, from: int, to: int) -> bool {
    forall|k: int|
        0 <= k < ranges.len() ==> from <= (#[trigger] ranges[k]).0 <= ranges[k].1 <= to
}

/// `first_in` is a position of `s`, or its length.
pub proof fn lemma_first_in_bounds(s: Seq<char>, stops: Set<char>)
    ensures
        0 <= first_in(s, stops) <= s.len(),
    decreases s.len(),
{
    if s.len() == 0 || stops.contains(s.first()) {
    } else {
        lemma_first_in_bounds(s.drop_first(), stops);
    }
}

/// `first_in` is the one position before which nothing belongs to `stops`
/// and at which, unless it is the end, something does.
pub proof fn lemma_first_in_is(s: Seq<char>, stops: Set<char>, i: int)
    requires
        0 <= i <= s.len(),
        forall|j: int| 0 <= j < i ==> !stops.contains(#[trigger] s[j]),
        i < s.len() ==> stops.contains(s[i]),
    ensures
        first_in(s, stops) == i,
    decreases s.len(),
{
    if s.len() == 0 || i == 0 {
    } else {
        assert(!stops.contains(s[0]));
        let rest = s.drop_first();
        assert forall|j: int| 0 <= j < i - 1 implies !stops.contains(#[trigger] rest[j]) by {
            assert(rest[j] == s[j + 1]);
        }
        lemma_first_in_is(rest, stops, i - 1);
    }
}

/// Trimming at the front leaves a suffix that does not begin with white
/// space, and only white space is removed.
pub proof fn lemma_trim_start(s: Seq<char>)
    ensures
        trim_start(s).len() <= s.len(),
        trim_start(s) == s.skip(s.len() - trim_start(s).len()),
        is_blank(s.take(s.len() - trim_start(s).len())),
        trim_start(s).len() > 0 ==> !is_whitespace(trim_start(s).first()),
    decreases s.len(),
{
    if s.len() > 0 && is_whitespace(s.first()) {
        let rest = s.drop_first();
        lemma_trim_start(rest);
        let k = s.len() - trim_start(s).len();
        assert(rest.skip(k - 1) =~= s.skip(k));
        assert forall|i: int| 0 <= i < k implies is_whitespace(#[trigger] s.take(k)[i]) by {
            if i > 0 {
                assert(s.take(k)[i] == rest.take(k - 1)[i - 1]);
            }
        }
    } else {
        assert(s.skip(0) =~= s);
    }
}

/// Trimming at the back leaves a prefix that does not end with white space,
/// and only white space is removed.
pub proof fn lemma_trim_end(s: Seq<char>)
    ensures
        trim_end(s).len() <= s.len(),
        trim_end(s) == s.take(trim_end(s).len() as int),
        is_blank(s.skip(trim_end(s).len() as int)),
        trim_end(s).len() > 0 ==> !is_whitespace(trim_end(s).last()),
    decreases s.len(),
{
    if s.len() > 0 && is_whitespace(s.last()) {
        let rest = s.drop_last();
        lemma_trim_end(rest);
        let k = trim_end(s).len() as int;
        assert(rest.take(k) =~= s.take(k));
        assert forall|i: int| 0 <= i < s.len() - k implies is_whitespace(
            #[trigger] s.skip(k)[i],
        ) by {
            if i < s.len() - k - 1 {
                assert(s.skip(k)[i] == rest.skip(k)[i]);
            }
        }
    } else {
        assert(s.take(s.len() as int) =~= s);
    }
}

/// A clause trims to nothing exactly when it holds nothing but white space.
pub proof fn lemma_trim_empty_iff_blank(s: Seq<char>)
    ensures
        trim(s).len() == 0 <==> is_blank(s),
{
    lemma_trim_start(s);
    let t = trim_start(s);
    lemma_trim_end(t);
    let k = s.len() - t.len();
    if trim(s).len() == 0 {
        assert(t.skip(0) =~= t);
        assert forall|i: int| 0 <= i < s.len() implies is_whitespace(#[trigger] s[i]) by {
            if i < k {
                assert(s[i] == s.take(k)[i]);
            } else {
                assert(s[i] == t.skip(0)[i - k]);
            }
        }
    }
    if is_blank(s) {
        if t.len() > 0 {
            assert(t.first() == s[k]);
        }
        if trim(s).len() > 0 {
            assert(trim(s).last() == t[trim(s).len() - 1]);
            assert(t[trim(s).len() - 1] == s[k + trim(s).len() - 1]);
        }
    }
}

/// A sequence without the separator is a single piece.
pub proof fn lemma_split_without_separator(s: Seq<char>, sep: char)
    requires
        forall|i: int| 0 <= i < s.len() ==> #[trigger] s[i] != sep,
    ensures
        split(s, sep) == seq![s],
{
    lemma_first_in_is(s, set![sep], s.len() as int);
}

/// Splitting always yields at least one piece.
pub proof fn lemma_split_nonempty(s: Seq<char>, sep: char)
    ensures
        split(s, sep).len() >= 1,
    decreases s.len(),
{
    let i = first_in(s, set![sep]);
    if 0 <= i < s.len() {
        lemma_split_nonempty(s.skip(i + 1), sep);
    }
}

/// The characters of `s`, in order.
pub(crate) fn chars_of(s: &str) -> (chars: Vec<char>)
    ensures
        chars@ == s@,
{
    let mut chars: Vec<char> = Vec::new();
    for c in it: s.chars()
        invariant
            chars@ == it.seq().take(it.index() as int),
            it.seq() == s@,
    {
        chars.push(c);
    }
    chars
}

/// Whether `token` stands at the front of `chars[from..to]`.
pub(crate) fn has_prefix(chars: &Vec<char>, from: usize, to: usize, token: &str) -> (b: bool)
    requires
        from <= to <= chars.len(),
    ensures
        b == token@.is_prefix_of(chars@.subrange(from as int, to as int)),
{
    let wanted = chars_of(token);
    let ghost text = chars@.subrange(from as int, to as int);
    if wanted.len() > to - from {
        return false;
    }
    let mut i: usize = 0;
    while i < wanted.len()
        invariant
            from <= to <= chars.len(),
            wanted.len() <= to - from,
            i <= wanted.len(),
            wanted@ == token@,
            text == chars@.subrange(from as int, to as int),
            forall|j: int| 0 <= j < i ==> wanted@[j] == text[j],
        decreases wanted.len() - i,
    {
        if wanted[i] != chars[from + i] {
            assert(text.subrange(0, wanted.len() as int)[i as int] != wanted@[i as int]);
            return false;
        }
        i += 1;
    }
    assert(wanted@ =~= text.subrange(0, wanted.len() as int));
    true
}

/// Whether `chars[from..to]` is exactly `token`.
pub(crate) fn is_token(chars: &Vec<char>, from: usize, to: usize, token: &str) -> (b: bool)
    requires
        from <= to <= chars.len(),
    ensures
        b == (chars@.subrange(from as int, to as int) == token@),
{
    let wanted = chars_of(token);
    let ghost text = chars@.subrange(from as int, to as int);
    if wanted.len() != to - from {
        return false;
    }
    let mut i: usize = 0;
    while i < wanted.len()
        invariant
            from <= to <= chars.len(),
            wanted.len() == to - from,
            i <= wanted.len(),
            wanted@ == token@,
            text == chars@.subrange(from as int, to as int),
            forall|j: int| 0 <= j < i ==> wanted@[j] == text[j],
        decreases wanted.len() - i,
    {
        if wanted[i] != chars[from + i] {
            assert(text[i as int] != wanted@[i as int]);
            return false;
        }
        i += 1;
    }
    assert(wanted@ =~= text);
    true
}

/// First position in `from..to` that holds `sep`, or `to`.
pub(crate) fn find_char(chars: &Vec<char>, from: usize, to: usize, sep: char) -> (at: usize)
    requires
        from <= to <= chars.len(),
    ensures
        from <= at <= to,
        at - from == first_in(chars@.subrange(from as int, to as int), set![sep]),
{
    let ghost text = chars@.subrange(from as int, to as int);
    let mut at = from;
    while at < to && chars[at] != sep
        invariant
            from <= at <= to <= chars.len(),
            text == chars@.subrange(from as int, to as int),
            forall|j: int| 0 <= j < at - from ==> !set![sep].contains(#[trigger] text[j]),
        decreases to - at,
    {
        at += 1;
    }
    proof {
        lemma_first_in_is(text, set![sep], at - from);
    }
    at
}

/// Bounds of what is left of `chars[from..to]` after trimming.
pub(crate) fn trim_range(chars: &Vec<char>, from: usize, to: usize) -> (r: (usize, usize))
    requires
        from <= to <= chars.len(),
    ensures
        from <= r.0 <= r.1 <= to,
        chars@.subrange(r.0 as int, r.1 as int) == trim(chars@.subrange(from as int, to as int)),
{
    let mut a = from;
    while a < to && char_is_whitespace(chars[a])
        invariant
            from <= a <= to <= chars.len(),
            trim_start(chars@.subrange(a as int, to as int)) == trim_start(
                chars@.subrange(from as int, to as int),
            ),
        decreases to - a,
    {
        assert(chars@.subrange(a as int, to as int).drop_first() =~= chars@.subrange(
            a + 1,
            to as int,
        ));
        a += 1;
    }
    let mut b = to;
    while b > a && char_is_whitespace(chars[b - 1])
        invariant
            a <= b <= to <= chars.len(),
            trim_end(chars@.subrange(a as int, b as int)) == trim_end(
                chars@.subrange(a as int, to as int),
            ),
        decreases b - a,
    {
        assert(chars@.subrange(a as int, b as int).drop_last() =~= chars@.subrange(
            a as int,
            b - 1,
        ));
        b -= 1;
    }
    (a, b)
}

/// The ranges of the pieces that `sep` cuts `chars[from..to]` into.
pub(crate) fn split_ranges(chars: &Vec<char>, from: usize, to: usize, sep: char) -> (ranges: Vec<
    (usize, usize),
>)
    requires
        from <= to <= chars.len(),
    ensures
        selected(chars@, ranges@) == split(chars@.subrange(from as int, to as int), sep),
        ranges_within(ranges@, from as int, to as int),
{
    let mut ranges: Vec<(usize, usize)> = Vec::new();
    let mut start = from;
    assert(selected(chars@, ranges@) + split(chars@.subrange(start as int, to as int), sep)
        =~= split(chars@.subrange(from as int, to as int), sep));
    loop
        invariant_except_break
            from <= start <= to <= chars.len(),
            selected(chars@, ranges@) + split(chars@.subrange(start as int, to as int), sep)
                == split(chars@.subrange(from as int, to as int), sep),
        invariant
            from <= to <= chars.len(),
            ranges_within(ranges@, from as int, to as int),
        ensures
            selected(chars@, ranges@) == split(chars@.subrange(from as int, to as int), sep),
        decreases to - start,
    {
        let end = find_char(chars, start, to, sep);
        let ghost piece = chars@.subrange(start as int, to as int);
        let ghost before = ranges@;
        ranges.push((start, end));
        proof {
            assert(selected(chars@, ranges@) =~= selected(chars@, before) + seq![
                chars@.subrange(start as int, end as int),
            ]);
            assert(piece.take(end - start) =~= chars@.subrange(start as int, end as int));
            if end < to {
                assert(piece.skip(end - start + 1) =~= chars@.subrange(end + 1, to as int));
                assert(selected(chars@, ranges@) + split(
                    chars@.subrange(end + 1, to as int),
                    sep,
                ) =~= selected(chars@, before) + split(piece, sep));
            } else {
                assert(piece.take(end - start) =~= piece);
                assert(selected(chars@, ranges@) =~= selected(chars@, before) + split(piece, sep));
            }
        }
        if end == to {
            break;
        }
        start = end + 1;
    }
    ranges
}

/// The part of `s` that is left after trimming.
pub(crate) fn trimmed(s: &str) -> (t: &str)
    ensures
        t@ == trim(s@),
{
    let chars = chars_of(s);
    let (a, b) = trim_range(&chars, 0, chars.len());
    assert(chars@.subrange(0, chars.len() as int) =~= chars@);
    s.substring_char(a, b)
}

/// The pieces that `sep` cuts `chars[from..to]` into, each trimmed.
/// `chars` holds the characters of `text`.
pub(crate) fn split_trimmed(text: &str, chars: &Vec<char>, from: usize, to: usize, sep: char) -> (pieces:
    Vec<String>)
    requires
        chars@ == text@,
        from <= to <= chars.len(),
    ensures
        contents(pieces@) == trim_each(split(chars@.subrange(from as int, to as int), sep)),
{
    let ranges = split_ranges(chars, from, to, sep);
    let ghost whole = split(chars@.subrange(from as int, to as int), sep);
    let mut pieces: Vec<String> = Vec::new();
    let mut k: usize = 0;
    while k < ranges.len()
        invariant
            k <= ranges.len(),
            chars@ == text@,
            from <= to <= chars.len(),
            selected(chars@, ranges@) == whole,
            ranges_within(ranges@, from as int, to as int),
            contents(pieces@) == trim_each(whole.take(k as int)),
        decreases ranges.len() - k,
    {
        let (start, end) = ranges[k];
        assert(from <= ranges@[k as int].0 <= ranges@[k as int].1 <= to);
        let (a, b) = trim_range(chars, start, end);
        let piece = text.substring_char(a, b).to_owned();
        let ghost before = pieces@;
        pieces.push(piece);
        proof {
            assert(whole[k as int] == selected(chars@, ranges@)[k as int]);
            assert(whole.take(k + 1) =~= whole.take(k as int).push(whole[k as int]));
            assert(contents(pieces@) =~= contents(before).push(piece@));
            assert(trim_each(whole.take(k + 1)) =~= trim_each(whole.take(k as int)).push(
                trim(whole[k as int]),
            ));
        }
        k += 1;
    }
    assert(whole.take(ranges.len() as int) =~= whole);
    pieces
}

} // verus!
