//! Verified string helpers: equality, prefix tests, joining and splitting,
//! all specified over character sequences.

use vstd::prelude::*;
use vstd::string::StrSliceExecFns;
use vstd::string::StringExecFns;

verus! {

/// Character-wise string equality.
pub fn str_eq(a: &str, b: &str) -> (r: bool)
    ensures
        r <==> a@ == b@,
{
    let n = a.unicode_len();
    if n != b.unicode_len() {
        proof {
            assert(a@ != b@);
        }
        return false;
    }
    let mut i: usize = 0;
    while i < n
        invariant
            0 <= i <= n,
            n == a@.len(),
            n == b@.len(),
            forall|k: int| 0 <= k < i ==> a@[k] == b@[k],
        decreases n - i,
    {
        if a.get_char(i) != b.get_char(i) {
            proof {
                assert(a@ != b@);
            }
            return false;
        }
        i = i + 1;
    }
    proof {
        assert(a@ =~= b@);
    }
    true
}

/// Whether `s` begins with `prefix`, character-wise.
pub open spec fn spec_starts_with(s: Seq<char>, prefix: Seq<char>) -> bool {
    s.len() >= prefix.len() && s.take(prefix.len() as int) == prefix
}

/// Prefix test, as [`spec_starts_with`] describes.
pub fn str_starts_with(s: &str, prefix: &str) -> (r: bool)
    ensures
        r <==> spec_starts_with(s@, prefix@),
{
    let n = prefix.unicode_len();
    if s.unicode_len() < n {
        return false;
    }
    let mut i: usize = 0;
    while i < n
        invariant
            0 <= i <= n,
            n == prefix@.len(),
            s@.len() >= n,
            forall|k: int| 0 <= k < i ==> s@[k] == prefix@[k],
        decreases n - i,
    {
        if s.get_char(i) != prefix.get_char(i) {
            proof {
                assert(s@.take(n as int)[i as int] != prefix@[i as int]);
            }
            return false;
        }
        i = i + 1;
    }
    proof {
        assert(s@.take(n as int) =~= prefix@);
    }
    true
}

/// The pieces joined with a separator between each two.
pub open spec fn spec_join(parts: Seq<Seq<char>>, sep: Seq<char>) -> Seq<char>
    decreases parts.len(),
{
    if parts.len() == 0 {
        Seq::empty()
    } else if parts.len() == 1 {
        parts[0]
    } else {
        spec_join(parts.drop_last(), sep) + sep + parts.last()
    }
}

/// Join strings with a separator, as [`spec_join`] describes.
pub fn join_strings(parts: &Vec<String>, sep: &str) -> (r: String)
    ensures
        r@ == spec_join(parts@.map_values(|p: String| p@), sep@),
{
    let ghost views = parts@.map_values(|p: String| p@);
    let mut r = String::new();
    let mut i: usize = 0;
    while i < parts.len()
        invariant
            0 <= i <= parts.len(),
            views == parts@.map_values(|p: String| p@),
            views.len() == parts@.len(),
            r@ == spec_join(views.take(i as int), sep@),
        decreases parts.len() - i,
    {
        if i > 0 {
            r.append(sep);
        }
        r.append(parts[i].as_str());
        proof {
            assert(views.take(i + 1).drop_last() =~= views.take(i as int));
            assert(views.take(i + 1).last() == views[i as int]);
            if i == 0 {
                assert(r@ =~= views[0]);
            }
        }
        i = i + 1;
    }
    proof {
        assert(views.take(i as int) =~= views);
    }
    r
}

/// The segments of `s` between occurrences of `sep`: always one segment
/// more than there are separators, so an empty string has one empty
/// segment, just as the standard split does.
pub open spec fn spec_split(s: Seq<char>, sep: char) -> Seq<Seq<char>>
    decreases s.len(),
{
    if s.len() == 0 {
        seq![s]
    } else if s[0] == sep {
        seq![Seq::empty()] + spec_split(s.skip(1), sep)
    } else {
        let rest = spec_split(s.skip(1), sep);
        seq![seq![s[0]] + rest[0]] + rest.skip(1)
    }
}

/// A split always yields at least one segment.
pub proof fn lemma_split_len(s: Seq<char>, sep: char)
    ensures
        spec_split(s, sep).len() >= 1,
    decreases s.len(),
{
    if s.len() > 0 {
        lemma_split_len(s.skip(1), sep);
    }
}

/// A string without the separator is one segment: itself.
pub proof fn lemma_split_no_sep(s: Seq<char>, sep: char)
    requires
        forall|k: int| 0 <= k < s.len() ==> s[k] != sep,
    ensures
        spec_split(s, sep) =~= seq![s],
    decreases s.len(),
{
    if s.len() > 0 {
        assert(forall|k: int| 0 <= k < s.skip(1).len() ==> #[trigger] s.skip(1)[k] != sep);
        lemma_split_no_sep(s.skip(1), sep);
        assert(seq![s[0]] + s.skip(1) =~= s);
    }
}

/// Splitting decomposes at the first separator: everything before it is
/// the first segment, and the rest splits on its own.
pub proof fn lemma_split_at_first(s: Seq<char>, sep: char, j: int)
    requires
        0 <= j < s.len(),
        s[j] == sep,
        forall|k: int| 0 <= k < j ==> s[k] != sep,
    ensures
        spec_split(s, sep) =~= seq![s.take(j)] + spec_split(s.skip(j + 1), sep),
    decreases j,
{
    if j == 0 {
        assert(s.take(0) =~= Seq::<char>::empty());
    } else {
        assert(s.skip(1)[j - 1] == sep);
        assert(forall|k: int| 0 <= k < j - 1 ==> #[trigger] s.skip(1)[k] != sep);
        lemma_split_at_first(s.skip(1), sep, j - 1);
        lemma_split_len(s.skip(1).skip(j), sep);
        assert(s.skip(1).skip(j) =~= s.skip(j + 1));
        assert(seq![s[0]] + s.skip(1).take(j - 1) =~= s.take(j));
    }
}

/// Split a string on a separator character, as [`spec_split`] describes.
pub fn split_char(s: &str, sep: char) -> (r: Vec<String>)
    ensures
        r@.map_values(|p: String| p@) == spec_split(s@, sep),
{
    let n = s.unicode_len();
    let mut r: Vec<String> = Vec::new();
    let mut seg_start: usize = 0;
    let mut i: usize = 0;
    proof {
        assert(s@.skip(0) =~= s@);
        assert(r@.map_values(|p: String| p@) =~= Seq::<Seq<char>>::empty());
        assert(Seq::<Seq<char>>::empty() + spec_split(s@, sep) =~= spec_split(s@, sep));
    }
    while i < n
        invariant
            0 <= seg_start <= i <= n,
            n == s@.len(),
            forall|k: int| seg_start <= k < i ==> s@[k] != sep,
            spec_split(s@, sep) == r@.map_values(|p: String| p@) + spec_split(
                s@.skip(seg_start as int),
                sep,
            ),
        decreases n - i,
    {
        let c = s.get_char(i);
        if c == sep {
            let seg = s.substring_char(seg_start, i);
            let ghost tail = s@.skip(seg_start as int);
            proof {
                assert(tail[i - seg_start] == sep);
                assert(forall|k: int| 0 <= k < i - seg_start ==> #[trigger] tail[k] != sep);
                lemma_split_at_first(tail, sep, i - seg_start);
                assert(tail.take(i - seg_start) =~= s@.subrange(seg_start as int, i as int));
                assert(tail.skip(i - seg_start + 1) =~= s@.skip(i + 1));
            }
            let ghost before = r@.map_values(|p: String| p@);
            r.push(seg.to_owned());
            proof {
                assert(r@.map_values(|p: String| p@) =~= before.push(
                    s@.subrange(seg_start as int, i as int),
                ));
                assert(before.push(s@.subrange(seg_start as int, i as int)) =~= before + seq![
                    s@.subrange(seg_start as int, i as int),
                ]);
                assert(spec_split(s@, sep) == r@.map_values(|p: String| p@) + spec_split(
                    s@.skip(i + 1),
                    sep,
                ));
            }
            seg_start = i + 1;
        }
        i = i + 1;
    }
    let seg = s.substring_char(seg_start, n);
    let ghost tail = s@.skip(seg_start as int);
    proof {
        assert(forall|k: int| 0 <= k < tail.len() ==> #[trigger] tail[k] != sep);
        lemma_split_no_sep(tail, sep);
        assert(tail =~= s@.subrange(seg_start as int, n as int));
    }
    let ghost before = r@.map_values(|p: String| p@);
    r.push(seg.to_owned());
    proof {
        assert(r@.map_values(|p: String| p@) =~= before + seq![tail]);
        assert(r@.map_values(|p: String| p@) =~= spec_split(s@, sep));
    }
    r
}

/// Where `s` splits at its first `sep`: the part before it and the part
/// after it, or the whole string when there is no separator, as the
/// standard `split_once` does.
pub open spec fn spec_split_once(s: Seq<char>, sep: char) -> (Seq<char>, Option<Seq<char>>)
    decreases s.len(),
{
    if s.len() == 0 {
        (s, None)
    } else if s[0] == sep {
        (Seq::empty(), Some(s.skip(1)))
    } else {
        let rest = spec_split_once(s.skip(1), sep);
        (
            seq![s[0]] + rest.0,
            match rest.1 {
                Some(v) => Some(v),
                None => None,
            },
        )
    }
}

/// With no separator present, `split_once` returns the whole string.
pub proof fn lemma_split_once_none(s: Seq<char>, sep: char)
    requires
        forall|k: int| 0 <= k < s.len() ==> s[k] != sep,
    ensures
        spec_split_once(s, sep).0 =~= s,
        spec_split_once(s, sep).1 is None,
    decreases s.len(),
{
    if s.len() > 0 {
        assert(forall|k: int| 0 <= k < s.skip(1).len() ==> #[trigger] s.skip(1)[k] != sep);
        lemma_split_once_none(s.skip(1), sep);
        assert(seq![s[0]] + s.skip(1) =~= s);
    }
}

/// With the first separator at `j`, `split_once` cuts exactly there.
pub proof fn lemma_split_once_at(s: Seq<char>, sep: char, j: int)
    requires
        0 <= j < s.len(),
        s[j] == sep,
        forall|k: int| 0 <= k < j ==> s[k] != sep,
    ensures
        spec_split_once(s, sep).0 =~= s.take(j),
        spec_split_once(s, sep).1 matches Some(v) && v =~= s.skip(j + 1),
    decreases j,
{
    if j == 0 {
        assert(s.take(0) =~= Seq::<char>::empty());
    } else {
        assert(s.skip(1)[j - 1] == sep);
        assert(forall|k: int| 0 <= k < j - 1 ==> #[trigger] s.skip(1)[k] != sep);
        lemma_split_once_at(s.skip(1), sep, j - 1);
        assert(seq![s[0]] + s.skip(1).take(j - 1) =~= s.take(j));
        assert(s.skip(1).skip(j) =~= s.skip(j + 1));
    }
}

/// Split at the first occurrence of `sep`, as [`spec_split_once`]
/// describes: the part before it, and the part after it if `sep` occurs at
/// all.
pub fn split_once_char<'a>(s: &'a str, sep: char) -> (r: (&'a str, Option<&'a str>))
    ensures
        r.0@ == spec_split_once(s@, sep).0,
        (r.1 matches Some(v) ==> (spec_split_once(s@, sep).1 matches Some(w) && v@ == w)),
        r.1 is None <==> spec_split_once(s@, sep).1 is None,
{
    let n = s.unicode_len();
    let mut i: usize = 0;
    while i < n
        invariant
            0 <= i <= n,
            n == s@.len(),
            forall|k: int| 0 <= k < i ==> s@[k] != sep,
        decreases n - i,
    {
        if s.get_char(i) == sep {
            proof {
                lemma_split_once_at(s@, sep, i as int);
            }
            let head = s.substring_char(0, i);
            let rest = s.substring_char(i + 1, n);
            proof {
                assert(head@ =~= s@.take(i as int));
                assert(rest@ =~= s@.skip(i + 1));
            }
            return (head, Some(rest));
        }
        i = i + 1;
    }
    proof {
        lemma_split_once_none(s@, sep);
    }
    (s, None)
}


/// Whether `needle` occurs anywhere in `s`, character-wise.
pub open spec fn spec_contains(s: Seq<char>, needle: Seq<char>) -> bool {
    exists|i: int|
        0 <= i <= s.len() - needle.len() && #[trigger] s.subrange(i, i + needle.len()) == needle
}

/// Substring test, as [`spec_contains`] describes.
pub fn str_contains(s: &str, needle: &str) -> (r: bool)
    ensures
        r <==> spec_contains(s@, needle@),
{
    let n = s.unicode_len();
    let m = needle.unicode_len();
    if m > n {
        return false;
    }
    if m == 0 {
        proof {
            assert(s@.subrange(0, 0 + needle@.len() as int) =~= needle@);
            assert(spec_contains(s@, needle@));
        }
        return true;
    }
    let mut i: usize = 0;
    while i <= n - m
        invariant
            0 <= i <= n - m + 1,
            0 < m <= n,
            n == s@.len(),
            m == needle@.len(),
            forall|k: int| 0 <= k < i ==> #[trigger] s@.subrange(k, k + m) != needle@,
        decreases n - m + 1 - i,
    {
        let sub = s.substring_char(i, i + m);
        if str_eq(sub, needle) {
            proof {
                assert(s@.subrange(i as int, i + m) == needle@);
            }
            return true;
        }
        i = i + 1;
    }
    false
}

/// Whether `s` ends with `suffix`, character-wise.
pub open spec fn spec_ends_with(s: Seq<char>, suffix: Seq<char>) -> bool {
    s.len() >= suffix.len() && s.skip(s.len() - suffix.len()) == suffix
}

/// Suffix test, as [`spec_ends_with`] describes.
pub fn str_ends_with(s: &str, suffix: &str) -> (r: bool)
    ensures
        r <==> spec_ends_with(s@, suffix@),
{
    let n = s.unicode_len();
    let m = suffix.unicode_len();
    if m > n {
        return false;
    }
    let tail = s.substring_char(n - m, n);
    let r = str_eq(tail, suffix);
    proof {
        assert(tail@ =~= s@.skip(n - m));
    }
    r
}

/// Every occurrence of one character replaced by another.
pub open spec fn spec_replace_char(s: Seq<char>, from: char, to: char) -> Seq<char> {
    s.map_values(
        |c: char|
            if c == from {
                to
            } else {
                c
            },
    )
}

/// Joining with a one-character separator undoes splitting on another
/// character: the result is the original with every split character
/// replaced by the separator.
pub proof fn lemma_join_split_replaces(s: Seq<char>, from: char, to: char)
    ensures
        spec_join(spec_split(s, from), seq![to]) =~= spec_replace_char(s, from, to),
    decreases s.len(),
{
    if s.len() == 0 {
    } else if s[0] == from {
        lemma_join_split_replaces(s.skip(1), from, to);
        lemma_split_len(s.skip(1), from);
        lemma_join_head(Seq::empty(), spec_split(s.skip(1), from), seq![to]);
        assert(spec_replace_char(s, from, to) =~= seq![to] + spec_replace_char(
            s.skip(1),
            from,
            to,
        ));
    } else {
        lemma_join_split_replaces(s.skip(1), from, to);
        let rest = spec_split(s.skip(1), from);
        lemma_split_len(s.skip(1), from);
        if rest.len() == 1 {
            assert(spec_split(s, from) =~= seq![seq![s[0]] + rest[0]]);
            assert(spec_join(rest, seq![to]) == rest[0]);
        } else {
            lemma_join_head(seq![s[0]] + rest[0], rest.skip(1), seq![to]);
            lemma_join_head(rest[0], rest.skip(1), seq![to]);
            assert(seq![rest[0]] + rest.skip(1) =~= rest);
            assert(seq![seq![s[0]] + rest[0]] + rest.skip(1) =~= spec_split(s, from));
        }
        assert(spec_replace_char(s, from, to) =~= seq![s[0]] + spec_replace_char(
            s.skip(1),
            from,
            to,
        ));
    }
}

/// Joining decomposes at the head: the first piece, the separator, then
/// the join of the rest.
pub proof fn lemma_join_head(a: Seq<char>, rest: Seq<Seq<char>>, sep: Seq<char>)
    requires
        rest.len() >= 1,
    ensures
        spec_join(seq![a] + rest, sep) =~= a + sep + spec_join(rest, sep),
    decreases rest.len(),
{
    if rest.len() == 1 {
        assert((seq![a] + rest).drop_last() =~= seq![a]);
        assert((seq![a] + rest).last() == rest[0]);
        assert(spec_join(seq![a] + rest, sep) == spec_join(seq![a], sep) + sep + rest[0]);
        assert(spec_join(seq![a], sep) == a);
        assert(spec_join(rest, sep) == rest[0]);
    } else {
        assert((seq![a] + rest).drop_last() =~= seq![a] + rest.drop_last());
        assert((seq![a] + rest).last() == rest.last());
        lemma_join_head(a, rest.drop_last(), sep);
        assert(spec_join(seq![a] + rest, sep) == spec_join(seq![a] + rest.drop_last(), sep) + sep
            + rest.last());
        assert(spec_join(rest, sep) == spec_join(rest.drop_last(), sep) + sep + rest.last());
    }
}

/// The target triple with every dash turned into an underscore, the form
/// environment variable names use.
pub fn dashes_to_underscores(s: &str) -> (r: String)
    ensures
        r@ == spec_replace_char(s@, '-', '_'),
{
    let parts = split_char(s, '-');
    let r = join_strings(&parts, "_");
    proof {
        reveal_strlit("_");
        assert("_"@ =~= seq!['_']);
        lemma_join_split_replaces(s@, '-', '_');
    }
    r
}

/// Append every string of `src` to `dst`, in order.
pub fn extend_strings(dst: &mut Vec<String>, src: &Vec<String>)
    ensures
        final(dst)@.map_values(|a: String| a@) == old(dst)@.map_values(|a: String| a@)
            + src@.map_values(|a: String| a@),
{
    let ghost base = old(dst)@.map_values(|a: String| a@);
    let ghost more = src@.map_values(|a: String| a@);
    let mut i: usize = 0;
    while i < src.len()
        invariant
            0 <= i <= src@.len(),
            more == src@.map_values(|a: String| a@),
            more.len() == src@.len(),
            dst@.map_values(|a: String| a@) == base + more.take(i as int),
        decreases src@.len() - i,
    {
        let ghost before = dst@.map_values(|a: String| a@);
        dst.push(src[i].clone());
        proof {
            assert(dst@.map_values(|a: String| a@) =~= before.push(more[i as int]));
            assert(before.push(more[i as int]) =~= base + more.take(i + 1));
        }
        i = i + 1;
    }
    proof {
        assert(more.take(i as int) =~= more);
        assert(base + more.take(i as int) =~= base + more);
    }
}

/// Append one borrowed string to an argument list.
pub fn push_str(dst: &mut Vec<String>, s: &str)
    ensures
        final(dst)@.map_values(|a: String| a@) == old(dst)@.map_values(|a: String| a@).push(s@),
{
    let ghost before = dst@.map_values(|a: String| a@);
    dst.push(s.to_owned());
    proof {
        assert(dst@.map_values(|a: String| a@) =~= before.push(s@));
    }
}

/// Append one owned string to an argument list.
pub fn push_string(dst: &mut Vec<String>, s: String)
    ensures
        final(dst)@.map_values(|a: String| a@) == old(dst)@.map_values(|a: String| a@).push(s@),
{
    let ghost before = dst@.map_values(|a: String| a@);
    let ghost sv = s@;
    dst.push(s);
    proof {
        assert(dst@.map_values(|a: String| a@) =~= before.push(sv));
    }
}


/// One decimal digit as a character.
pub open spec fn spec_dec_digit(d: int) -> char {
    if d == 0 {
        '0'
    } else if d == 1 {
        '1'
    } else if d == 2 {
        '2'
    } else if d == 3 {
        '3'
    } else if d == 4 {
        '4'
    } else if d == 5 {
        '5'
    } else if d == 6 {
        '6'
    } else if d == 7 {
        '7'
    } else if d == 8 {
        '8'
    } else {
        '9'
    }
}

/// A non-negative number in decimal, most significant digit first, with no
/// leading zeros (a lone zero for zero itself).
pub open spec fn spec_decimal(n: int) -> Seq<char>
    decreases n,
{
    if n < 10 {
        seq![spec_dec_digit(n)]
    } else {
        spec_decimal(n / 10) + seq![spec_dec_digit(n % 10)]
    }
}

/// One decimal digit as a string.
fn dec_digit_str(d: u32) -> (r: &'static str)
    requires
        d < 10,
    ensures
        r@ =~= seq![spec_dec_digit(d as int)],
{
    let r: &'static str = if d == 0 {
        "0"
    } else if d == 1 {
        "1"
    } else if d == 2 {
        "2"
    } else if d == 3 {
        "3"
    } else if d == 4 {
        "4"
    } else if d == 5 {
        "5"
    } else if d == 6 {
        "6"
    } else if d == 7 {
        "7"
    } else if d == 8 {
        "8"
    } else {
        "9"
    };
    proof {
        reveal_strlit("0");
        reveal_strlit("1");
        reveal_strlit("2");
        reveal_strlit("3");
        reveal_strlit("4");
        reveal_strlit("5");
        reveal_strlit("6");
        reveal_strlit("7");
        reveal_strlit("8");
        reveal_strlit("9");
    }
    r
}

/// Render a number in decimal, as [`spec_decimal`] describes.
pub fn u32_to_decimal(n: u32) -> (r: String)
    ensures
        r@ == spec_decimal(n as int),
    decreases n,
{
    if n < 10 {
        dec_digit_str(n).to_owned()
    } else {
        let mut s = u32_to_decimal(n / 10);
        s.append(dec_digit_str(n % 10));
        proof {
            assert(s@ =~= spec_decimal(n as int));
        }
        s
    }
}


/// Whether every character is a decimal digit, and there is at least one.
pub open spec fn all_dec_digits(s: Seq<char>) -> bool {
    s.len() > 0 && (forall|i: int| 0 <= i < s.len() ==> 48 <= (#[trigger] s[i]) as u32 <= 57)
}

/// The value of a string of decimal digits.
pub open spec fn chars_numeral_value(s: Seq<char>) -> int
    decreases s.len(),
{
    if s.len() == 0 {
        0
    } else {
        chars_numeral_value(s.drop_last()) * 10 + (s.last() as u32 - 48)
    }
}

/// A digit string never has a negative value.
pub proof fn lemma_chars_numeral_nonneg(s: Seq<char>)
    requires
        forall|i: int| 0 <= i < s.len() ==> 48 <= (#[trigger] s[i]) as u32 <= 57,
    ensures
        chars_numeral_value(s) >= 0,
    decreases s.len(),
{
    if s.len() > 0 {
        lemma_chars_numeral_nonneg(s.drop_last());
    }
}

/// Dropping trailing digits never increases a numeral's value.
pub proof fn lemma_chars_numeral_prefix_le(s: Seq<char>, i: int)
    requires
        forall|k: int| 0 <= k < s.len() ==> 48 <= (#[trigger] s[k]) as u32 <= 57,
        0 <= i <= s.len(),
    ensures
        chars_numeral_value(s.take(i)) <= chars_numeral_value(s),
    decreases s.len() - i,
{
    if i < s.len() {
        lemma_chars_numeral_prefix_le(s, i + 1);
        assert(s.take(i + 1).drop_last() =~= s.take(i));
        assert(s.take(i + 1).last() == s[i]);
        lemma_chars_numeral_nonneg(s.take(i));
    } else {
        assert(s.take(i) =~= s);
    }
}

/// The digits of a numeral, once an optional leading plus sign is
/// stripped, as the standard unsigned parse accepts.
pub open spec fn spec_strip_plus(s: Seq<char>) -> Seq<char> {
    if s.len() > 0 && s[0] == '+' {
        s.skip(1)
    } else {
        s
    }
}

/// Whether a string is a well-formed `u32` numeral: an optional plus sign,
/// then only digits, with a value that fits in 32 bits.
pub open spec fn is_u32_numeral(s: Seq<char>) -> bool {
    &&& all_dec_digits(spec_strip_plus(s))
    &&& chars_numeral_value(spec_strip_plus(s)) <= u32::MAX
}

/// Parse a decimal `u32`, accepting exactly what [`is_u32_numeral`]
/// describes.
pub fn parse_u32(s: &str) -> (r: Option<u32>)
    ensures
        is_u32_numeral(s@) ==> (r matches Some(v) && v == chars_numeral_value(spec_strip_plus(s@))),
        !is_u32_numeral(s@) ==> r is None,
{
    let n = s.unicode_len();
    let start: usize = if n > 0 && s.get_char(0) == '+' {
        1
    } else {
        0
    };
    let ghost digits: Seq<char> = spec_strip_plus(s@);
    proof {
        assert(digits =~= s@.skip(start as int));
    }
    if n == start {
        return None;
    }
    let mut i: usize = start;
    while i < n
        invariant
            start <= i <= n,
            n == s@.len(),
            digits == spec_strip_plus(s@),
            digits == s@.skip(start as int),
            digits.len() == n - start,
            forall|k: int| 0 <= k < i - start ==> 48 <= (#[trigger] digits[k]) as u32 <= 57,
        decreases n - i,
    {
        let c = s.get_char(i);
        let d = c as u32;
        proof {
            assert(digits[i - start] == s@[i as int]);
        }
        if d < 48 || d > 57 {
            proof {
                assert(!all_dec_digits(digits));
            }
            return None;
        }
        i = i + 1;
    }
    assert(all_dec_digits(digits));
    let mut acc: u64 = 0;
    let mut j: usize = start;
    while j < n
        invariant
            start <= j <= n,
            n == s@.len(),
            digits == spec_strip_plus(s@),
            digits == s@.skip(start as int),
            digits.len() == n - start,
            all_dec_digits(digits),
            acc == chars_numeral_value(digits.take(j - start)),
            acc <= u32::MAX,
        decreases n - j,
    {
        let c = s.get_char(j);
        proof {
            assert(digits[j - start] == s@[j as int]);
        }
        let d: u64 = (c as u32) as u64 - 48;
        let next: u64 = acc * 10 + d;
        proof {
            assert(digits.take(j - start + 1).drop_last() =~= digits.take(j - start));
            assert(digits.take(j - start + 1).last() == digits[j - start]);
        }
        if next > 0xffff_ffff {
            proof {
                lemma_chars_numeral_prefix_le(digits, j - start + 1);
                assert(chars_numeral_value(digits.take(j - start + 1)) == next);
                assert(chars_numeral_value(digits) > u32::MAX);
                assert(!is_u32_numeral(s@));
            }
            return None;
        }
        acc = next;
        j = j + 1;
    }
    proof {
        assert(digits.take(j - start) =~= digits);
    }
    Some(acc as u32)
}


/// The string with every tab turned into a space, so tokens can be read
/// off a single separator.
pub fn tabs_to_spaces(s: &str) -> (r: String)
    ensures
        r@ == spec_replace_char(s@, '\t', ' '),
{
    let parts = split_char(s, '\t');
    let r = join_strings(&parts, " ");
    proof {
        reveal_strlit(" ");
        assert(" "@ =~= seq![' ']);
        lemma_join_split_replaces(s@, '\t', ' ');
    }
    r
}


/// Which characters a trim strips.
#[derive(Clone, Copy, Debug, PartialEq, Eq, Structural)]
pub enum TrimKind {
    /// ASCII whitespace.
    Whitespace,
    /// Double quotes.
    Quotes,
}

/// Whether a character is stripped by the given trim.
pub open spec fn spec_trims(kind: TrimKind, c: char) -> bool {
    match kind {
        TrimKind::Whitespace => c == ' ' || c == '\t' || c == '\n' || c == '\r' || c == '\u{c}',
        TrimKind::Quotes => c == '"',
    }
}

/// The string with its leading trimmed characters removed.
pub open spec fn spec_trim_start(kind: TrimKind, s: Seq<char>) -> Seq<char>
    decreases s.len(),
{
    if s.len() > 0 && spec_trims(kind, s[0]) {
        spec_trim_start(kind, s.skip(1))
    } else {
        s
    }
}

/// The string with its trailing trimmed characters removed.
pub open spec fn spec_trim_end(kind: TrimKind, s: Seq<char>) -> Seq<char>
    decreases s.len(),
{
    if s.len() > 0 && spec_trims(kind, s.last()) {
        spec_trim_end(kind, s.drop_last())
    } else {
        s
    }
}

/// The string with both ends trimmed.
pub open spec fn spec_trim(kind: TrimKind, s: Seq<char>) -> Seq<char> {
    spec_trim_end(kind, spec_trim_start(kind, s))
}

/// Whether a character is stripped, as [`spec_trims`] describes.
fn trims(kind: TrimKind, c: char) -> (r: bool)
    ensures
        r == spec_trims(kind, c),
{
    match kind {
        TrimKind::Whitespace => c == ' ' || c == '\t' || c == '\n' || c == '\r' || c == '\u{c}',
        TrimKind::Quotes => c == '"',
    }
}

/// Strip the given characters from both ends, as [`spec_trim`] describes.
pub fn trim_char_kind<'a>(kind: TrimKind, s: &'a str) -> (r: &'a str)
    ensures
        r@ == spec_trim(kind, s@),
{
    let n = s.unicode_len();
    let mut i: usize = 0;
    proof {
        assert(s@.skip(0) =~= s@);
    }
    while i < n && trims(kind, s.get_char(i))
        invariant
            0 <= i <= n,
            n == s@.len(),
            spec_trim_start(kind, s@) == spec_trim_start(kind, s@.skip(i as int)),
        decreases n - i,
    {
        proof {
            assert(s@.skip(i as int)[0] == s@[i as int]);
            assert(s@.skip(i as int).skip(1) =~= s@.skip(i + 1));
        }
        i = i + 1;
    }
    proof {
        if i < n {
            assert(s@.skip(i as int)[0] == s@[i as int]);
        }
        assert(spec_trim_start(kind, s@) == s@.skip(i as int));
    }
    let mut j: usize = n;
    proof {
        assert(s@.skip(i as int) =~= s@.subrange(i as int, n as int));
    }
    while j > i && trims(kind, s.get_char(j - 1))
        invariant
            i <= j <= n,
            n == s@.len(),
            spec_trim_start(kind, s@) == s@.skip(i as int),
            spec_trim_end(kind, s@.skip(i as int)) == spec_trim_end(
                kind,
                s@.subrange(i as int, j as int),
            ),
        decreases j,
    {
        proof {
            assert(s@.subrange(i as int, j as int).last() == s@[j - 1]);
            assert(s@.subrange(i as int, j as int).drop_last() =~= s@.subrange(i as int, j - 1));
        }
        j = j - 1;
    }
    proof {
        if j > i {
            assert(s@.subrange(i as int, j as int).last() == s@[j - 1]);
        }
        assert(spec_trim_end(kind, s@.subrange(i as int, j as int)) == s@.subrange(
            i as int,
            j as int,
        ));
    }
    let r = s.substring_char(i, j);
    proof {
        assert(r@ =~= s@.subrange(i as int, j as int));
    }
    r
}

/// Strip ASCII whitespace from both ends.
pub fn trim_ws<'a>(s: &'a str) -> (r: &'a str)
    ensures
        r@ == spec_trim(TrimKind::Whitespace, s@),
{
    trim_char_kind(TrimKind::Whitespace, s)
}

/// Strip double quotes from both ends.
pub fn trim_quotes<'a>(s: &'a str) -> (r: &'a str)
    ensures
        r@ == spec_trim(TrimKind::Quotes, s@),
{
    trim_char_kind(TrimKind::Quotes, s)
}

/// The non-empty tokens of a list, in order: what splitting on whitespace
/// leaves once the empty pieces between repeated separators are dropped.
pub open spec fn spec_nonempty_tokens(ts: Seq<Seq<char>>) -> Seq<Seq<char>>
    decreases ts.len(),
{
    if ts.len() == 0 {
        Seq::empty()
    } else {
        spec_nonempty_tokens(ts.drop_last()) + if ts.last().len() > 0 {
            seq![ts.last()]
        } else {
            Seq::empty()
        }
    }
}

/// The non-empty tokens of the part of the list from `i` on.
pub open spec fn spec_nonempty_tokens_from(ts: Seq<Seq<char>>, i: int) -> Seq<Seq<char>> {
    spec_nonempty_tokens(ts.skip(i))
}

/// The token list splits at any point: the tokens of the whole are the
/// tokens of the front followed by the tokens of the back.
pub proof fn lemma_nonempty_tokens_append(ts: Seq<Seq<char>>, i: int)
    requires
        0 <= i <= ts.len(),
    ensures
        spec_nonempty_tokens(ts) == spec_nonempty_tokens(ts.take(i)) + spec_nonempty_tokens(
            ts.skip(i),
        ),
    decreases ts.len() - i,
{
    if i == ts.len() {
        assert(ts.take(i) =~= ts);
        assert(spec_nonempty_tokens(ts.skip(i)) =~= Seq::<Seq<char>>::empty());
        assert(spec_nonempty_tokens(ts) + Seq::<Seq<char>>::empty() =~= spec_nonempty_tokens(ts));
    } else {
        lemma_nonempty_tokens_append(ts, i + 1);
        assert(ts.take(i + 1).drop_last() =~= ts.take(i));
        assert(ts.take(i + 1).last() == ts[i]);
        let back = spec_nonempty_tokens(ts.skip(i + 1));
        assert(ts.skip(i).skip(1) =~= ts.skip(i + 1));
        assert(ts.skip(i).len() == ts.len() - i);
        lemma_nonempty_head(ts.skip(i));
        assert(spec_nonempty_tokens(ts.take(i + 1)) =~= spec_nonempty_tokens(ts.take(i)) + (
        if ts[i].len() > 0 {
            seq![ts[i]]
        } else {
            Seq::<Seq<char>>::empty()
        }));
        assert(ts.skip(i)[0] == ts[i]);
        assert(spec_nonempty_tokens(ts) =~= spec_nonempty_tokens(ts.take(i)) + spec_nonempty_tokens(
            ts.skip(i),
        ));
    }
}

/// The non-empty tokens of a non-empty list decompose at the head.
pub proof fn lemma_nonempty_head(ts: Seq<Seq<char>>)
    requires
        ts.len() >= 1,
    ensures
        spec_nonempty_tokens(ts) == (if ts[0].len() > 0 {
            seq![ts[0]]
        } else {
            Seq::<Seq<char>>::empty()
        }) + spec_nonempty_tokens(ts.skip(1)),
    decreases ts.len(),
{
    if ts.len() == 1 {
        assert(ts.drop_last() =~= Seq::<Seq<char>>::empty());
        assert(ts.last() == ts[0]);
        assert(ts.skip(1) =~= Seq::<Seq<char>>::empty());
        assert(spec_nonempty_tokens(ts) =~= (if ts[0].len() > 0 {
            seq![ts[0]]
        } else {
            Seq::<Seq<char>>::empty()
        }) + spec_nonempty_tokens(ts.skip(1)));
    } else {
        lemma_nonempty_head(ts.drop_last());
        assert(ts.drop_last()[0] == ts[0]);
        assert(ts.skip(1).drop_last() =~= ts.drop_last().skip(1));
        assert(ts.skip(1).last() == ts.last());
        assert(spec_nonempty_tokens(ts) =~= (if ts[0].len() > 0 {
            seq![ts[0]]
        } else {
            Seq::<Seq<char>>::empty()
        }) + spec_nonempty_tokens(ts.skip(1)));
    }
}


/// The whitespace-separated tokens of a string: split on spaces and tabs,
/// with the empty pieces between repeated separators dropped.
pub fn whitespace_tokens(s: &str) -> (r: Vec<String>)
    ensures
        r@.map_values(|p: String| p@) == spec_nonempty_tokens(
            spec_split(spec_replace_char(s@, '\t', ' '), ' '),
        ),
{
    let normalized = tabs_to_spaces(s);
    let parts = split_char(normalized.as_str(), ' ');
    let ghost views = parts@.map_values(|p: String| p@);
    let mut r: Vec<String> = Vec::new();
    let mut i: usize = 0;
    proof {
        assert(spec_nonempty_tokens(views.take(0)) =~= Seq::<Seq<char>>::empty());
        assert(r@.map_values(|p: String| p@) =~= Seq::<Seq<char>>::empty());
    }
    while i < parts.len()
        invariant
            0 <= i <= parts@.len(),
            views == parts@.map_values(|p: String| p@),
            views.len() == parts@.len(),
            views == spec_split(spec_replace_char(s@, '\t', ' '), ' '),
            r@.map_values(|p: String| p@) == spec_nonempty_tokens(views.take(i as int)),
        decreases parts@.len() - i,
    {
        proof {
            assert(views.take(i + 1).drop_last() =~= views.take(i as int));
            assert(views.take(i + 1).last() == views[i as int]);
        }
        if !parts[i].as_str().is_empty() {
            let ghost before = r@.map_values(|p: String| p@);
            let token = parts[i].clone();
            r.push(token);
            proof {
                assert(r@.map_values(|p: String| p@) =~= before.push(views[i as int]));
                assert(before.push(views[i as int]) =~= before + seq![views[i as int]]);
            }
        }
        i = i + 1;
    }
    proof {
        assert(views.take(i as int) =~= views);
    }
    r
}

} // verus!
