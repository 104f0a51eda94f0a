//! What the texts that the library puts together and takes apart hold.
use vstd::prelude::*;
use crate::text::{bounded, byte_len, contains, decimal, first_index, fit, has_prefix, head, is_space, joined, lemma_decimal_digits, lemma_first_index, lemma_fit_bound, lemma_split_append, lemma_split_nonempty, lines, number_from, number_of, occurs_at, opt_view, split, strip_cr, trim_end, trim_start, trimmed, views, NumberFault};

verus! {

/// A text stands in itself, in any text that begins or ends with it, and in any
/// text that one stands in which it stands in.
pub proof fn law_a_text_stands_where_it_was_put(
    before: Seq<char>,
    pat: Seq<char>,
    after: Seq<char>,
    whole: Seq<char>,
)
    ensures
        contains(before + pat + after, pat),
        contains(whole, before + pat + after) ==> contains(whole, pat),
        contains(whole, pat) ==> whole.len() >= pat.len(),
{
    let part = before + pat + after;
    let i = before.len() as int;
    assert(part.subrange(i, i + pat.len()) =~= pat);
    assert(occurs_at(part, pat, i));
    if contains(whole, part) {
        let k = choose|k: int| occurs_at(whole, part, k);
        assert(whole.subrange(k + i, k + i + pat.len()) =~= pat) by {
            assert forall|j: int| 0 <= j < pat.len() implies whole[k + i + j] == pat[j] by {
                assert(whole.subrange(k, k + part.len())[i + j] == part[i + j]);
            }
        }
        assert(occurs_at(whole, pat, k + i));
    }
}

/// The text shows whatever the text that it holds shows.
pub proof fn lemma_shows(whole: Seq<char>, part: Seq<char>, pat: Seq<char>)
    requires
        contains(whole, part),
        contains(part, pat),
    ensures
        contains(whole, pat),
{
    let i = choose|i: int| occurs_at(part, pat, i);
    let a = part.take(i);
    let b = part.skip(i + pat.len());
    assert(part =~= a + pat + b) by {
        assert forall|j: int| 0 <= j < part.len() implies part[j] == (a + pat + b)[j] by {
            if i <= j < i + pat.len() {
                assert(part.subrange(i, i + pat.len())[j - i] == part[j]);
            }
        }
    }
    law_a_text_stands_where_it_was_put(a, pat, b, whole);
}

/// Each part of a sum stands in it.
pub proof fn lemma_in_sum(a: Seq<char>, b: Seq<char>)
    ensures
        contains(a + b, a),
        contains(a + b, b),
        contains(a, a),
{
    let none = Seq::<char>::empty();
    law_a_text_stands_where_it_was_put(none, a, b, a);
    law_a_text_stands_where_it_was_put(a, b, none, a);
    law_a_text_stands_where_it_was_put(none, a, none, a);
    assert(none + a + b =~= a + b);
    assert(a + b + none =~= a + b);
    assert(none + a + none =~= a);
}

/// A joined text shows each of its parts.
pub proof fn law_a_joined_text_shows_its_parts(parts: Seq<Seq<char>>, sep: Seq<char>, i: int)
    requires
        0 <= i < parts.len(),
    ensures
        contains(joined(parts, sep), parts[i]),
    decreases parts.len(),
{
    lemma_in_sum(parts[i], parts[i]);
    if parts.len() > 1 {
        let init = joined(parts.drop_last(), sep);
        lemma_in_sum(init + sep, parts.last());
        lemma_in_sum(init, sep);
        if i < parts.len() - 1 {
            law_a_joined_text_shows_its_parts(parts.drop_last(), sep, i);
            lemma_shows(init + sep, init, parts[i]);
            lemma_shows(joined(parts, sep), init + sep, parts[i]);
        }
    }
}

/// A text is joined from what it was split into, and no piece holds the separator.
pub proof fn law_a_split_loses_nothing(s: Seq<char>, sep: char)
    ensures
        joined(split(s, sep), seq![sep]) == s,
        forall|i: int| 0 <= i < split(s, sep).len() ==> !(#[trigger] split(s, sep)[i]).contains(sep),
    decreases s.len(),
{
    let pieces = split(s, sep);
    if s.len() == 0 {
        assert(joined(pieces, seq![sep]) =~= s);
    } else {
        let init = split(s.drop_last(), sep);
        lemma_split_nonempty(s.drop_last(), sep);
        law_a_split_loses_nothing(s.drop_last(), sep);
        if s.last() == sep {
            assert(pieces.drop_last() =~= init);
            assert(joined(pieces, seq![sep]) =~= joined(init, seq![sep]) + seq![sep]
                + Seq::empty());
            assert(s =~= s.drop_last() + seq![sep]);
            assert forall|i: int| 0 <= i < pieces.len() implies !(#[trigger] pieces[i]).contains(
                sep,
            ) by {
                if i < init.len() {
                    assert(pieces[i] == init[i]);
                }
            }
        } else {
            let last = init.last().push(s.last());
            assert(pieces.drop_last() =~= init.drop_last());
            assert(pieces.last() == last);
            assert(s =~= s.drop_last().push(s.last()));
            assert(joined(pieces, seq![sep]) =~= joined(init, seq![sep]).push(s.last()));
            assert forall|i: int| 0 <= i < pieces.len() implies !(#[trigger] pieces[i]).contains(
                sep,
            ) by {
                if i < init.len() - 1 {
                    assert(pieces[i] == init[i]);
                } else {
                    assert(!init[init.len() - 1].contains(sep));
                    if last.contains(sep) {
                        let j = choose|j: int| 0 <= j < last.len() && last[j] == sep;
                        assert(init.last()[j] == sep);
                    }
                }
            }
        }
    }
}

/// The lines of a text that ends its lines with line feeds alone are its lines.
pub proof fn law_lines_are_what_line_feeds_end(before: Seq<char>, line: Seq<char>)
    requires
        !line.contains('\n'),
        line.len() > 0,
        line.last() != '\r',
        before.len() == 0 || before.last() == '\n',
    ensures
        lines(before + line) == lines(before).push(line),
        lines(before + line + seq!['\n']) == lines(before).push(line),
{
    let pieces = split(before, '\n');
    lemma_split_nonempty(before, '\n');
    lemma_split_append(before, line, '\n');
    assert(pieces.last() =~= Seq::<char>::empty());
    let init = pieces.drop_last();
    let now = split(before + line, '\n');
    assert(Seq::<char>::empty() + line =~= line);
    assert(now =~= init.push(line));
    assert(now.drop_last() =~= init);
    let whole = before + line + seq!['\n'];
    assert(whole.drop_last() =~= before + line);
    assert(whole.last() == '\n');
    assert(split(whole, '\n') =~= now.push(Seq::empty()));
    assert(split(whole, '\n').drop_last() =~= now);
    let f = |l: Seq<char>| strip_cr(l);
    init.lemma_push_map_commute(f, line);
    assert(strip_cr(line) == line);
    assert(lines(before) =~= init.map_values(f));
    assert(lines(before + line) =~= init.map_values(f).push(line));
    assert(lines(whole) =~= init.push(line).map_values(f));
}

proof fn lemma_trim_start(s: Seq<char>)
    ensures
        trim_start(s).len() > 0 ==> !is_space(trim_start(s)[0]),
        exists|k: int|
            0 <= k <= s.len() && trim_start(s) == #[trigger] s.skip(k) && forall|i: int|
                0 <= i < k ==> is_space(#[trigger] s[i]),
    decreases s.len(),
{
    if s.len() > 0 && is_space(s[0]) {
        lemma_trim_start(s.drop_first());
        let rest = s.drop_first();
        let k = choose|k: int|
            0 <= k <= rest.len() && trim_start(rest) == #[trigger] rest.skip(k) && forall|i: int|
                0 <= i < k ==> is_space(#[trigger] rest[i]);
        assert(rest.skip(k) =~= s.skip(k + 1));
        assert forall|i: int| 0 <= i < k + 1 implies is_space(#[trigger] s[i]) by {
            if i > 0 {
                assert(rest[i - 1] == s[i]);
            }
        }
    } else {
        assert(s.skip(0) =~= s);
    }
}

proof fn lemma_trim_end(s: Seq<char>)
    ensures
        trim_end(s).len() > 0 ==> !is_space(trim_end(s).last()),
        exists|k: int|
            0 <= k <= s.len() && trim_end(s) == #[trigger] s.take(k) && forall|i: int|
                k <= i < s.len() ==> is_space(#[trigger] s[i]),
    decreases s.len(),
{
    if s.len() > 0 && is_space(s.last()) {
        lemma_trim_end(s.drop_last());
        let rest = s.drop_last();
        let k = choose|k: int|
            0 <= k <= rest.len() && trim_end(rest) == #[trigger] rest.take(k) && forall|i: int|
                k <= i < rest.len() ==> is_space(#[trigger] rest[i]);
        assert(rest.take(k) =~= s.take(k));
        assert forall|i: int| k <= i < s.len() implies is_space(#[trigger] s[i]) by {
            if i < rest.len() {
                assert(rest[i] == s[i]);
            }
        }
    } else {
        assert(s.take(s.len() as int) =~= s);
    }
}

/// Trimming a text takes white space off its ends and nothing else: what is left
/// neither begins nor ends with any.
pub proof fn law_trimming_takes_white_space_off_the_ends(s: Seq<char>)
    ensures
        trimmed(s).len() > 0 ==> !is_space(trimmed(s)[0]) && !is_space(trimmed(s).last()),
        exists|a: int, b: int|
            0 <= a <= b <= s.len() && trimmed(s) == #[trigger] s.subrange(a, b) && (forall|i: int|
                0 <= i < a ==> is_space(#[trigger] s[i])) && (forall|i: int|
                b <= i < s.len() ==> is_space(#[trigger] s[i])),
        is_space(' '),
        is_space('\n'),
        is_space('\t'),
        is_space('\r'),
        !is_space('a'),
{
    lemma_trim_start(s);
    let t = trim_start(s);
    lemma_trim_end(t);
    let a = choose|k: int|
        0 <= k <= s.len() && trim_start(s) == #[trigger] s.skip(k) && forall|i: int|
            0 <= i < k ==> is_space(#[trigger] s[i]);
    let k = choose|k: int|
        0 <= k <= t.len() && trim_end(t) == #[trigger] t.take(k) && forall|i: int|
            k <= i < t.len() ==> is_space(#[trigger] t[i]);
    assert(t.take(k) =~= s.subrange(a, a + k));
    assert forall|i: int| a + k <= i < s.len() implies is_space(#[trigger] s[i]) by {
        assert(t[i - a] == s[i]);
    }
    if trimmed(s).len() > 0 {
        assert(t.take(k)[0] == t[0]);
    }
}

/// A pattern is found at the first place from which it stands in the text.
pub proof fn law_a_pattern_is_found_first(s: Seq<char>, pat: Seq<char>, from: int, i: int)
    requires
        0 <= from <= i,
    ensures
        occurs_at(s, pat, i) && (forall|j: int| from <= j < i ==> !occurs_at(s, pat, j))
            <==> first_index(s, pat, from) == Some(i),
        s.subrange(0, 0) =~= Seq::<char>::empty(),
{
    lemma_first_index(s, pat, from);
}

/// A text that fits its bound is kept whole. One that does not keeps as much of
/// its beginning as fits, and says that it was cut.
pub proof fn law_a_bounded_text_keeps_its_beginning(s: Seq<char>, max: nat, k: int)
    ensures
        byte_len(s) <= max ==> bounded(s, max) == s,
        byte_len(s) > max ==> has_prefix(bounded(s, max), fit(s, max)) && contains(
            bounded(s, max),
            "truncated"@,
        ),
        fit(s, max).is_prefix_of(s),
        byte_len(fit(s, max)) <= max,
        0 <= k <= s.len() && byte_len(s.take(k)) <= max ==> k <= fit(s, max).len(),
{
    lemma_fit_bound(s, max);
    if byte_len(s) > max {
        let mark = "\n… <truncated>"@;
        reveal_strlit("\n… <truncated>");
        reveal_strlit("truncated");
        let whole = fit(s, max) + mark;
        assert(whole.subrange(0, fit(s, max).len() as int) =~= fit(s, max));
        let n = fit(s, max).len() as int;
        assert(mark.len() == 14);
        assert(whole.subrange(n + 4, n + 13) =~= "truncated"@);
        assert(occurs_at(whole, "truncated"@, n + 4));
    }
    if 0 <= k <= s.len() && byte_len(s.take(k)) <= max {
        lemma_fit_longest(s, max, k);
    }
}

proof fn lemma_fit_longest(s: Seq<char>, max: nat, k: int)
    requires
        0 <= k <= s.len(),
        byte_len(s.take(k)) <= max,
    ensures
        k <= fit(s, max).len(),
    decreases s.len(),
{
    if s.len() > 0 && byte_len(s) > max {
        if k == s.len() {
            assert(s.take(k) =~= s);
        } else {
            assert(s.drop_last().take(k) =~= s.take(k));
            lemma_fit_longest(s.drop_last(), max, k);
        }
    }
}

/// The head of a text is its first characters, as many as there are up to the
/// bound.
pub proof fn law_a_head_is_the_beginning(s: Seq<char>, n: nat)
    ensures
        head(s, n).is_prefix_of(s),
        head(s, n).len() <= n,
        s.len() <= n ==> head(s, n) == s,
        s.len() > n ==> head(s, n).len() == n,
{
}

proof fn lemma_number_push(value: nat, s: Seq<char>, c: char)
    requires
        '0' <= c <= '9',
        number_from(value, s) is Ok,
    ensures
        ({
            let next = 10 * number_from(value, s)->Ok_0 + (c as u32 - 48);
            number_from(value, s.push(c)) == if next > u64::MAX {
                Err::<nat, NumberFault>(NumberFault::TooLarge)
            } else {
                Ok::<nat, NumberFault>(next as nat)
            }
        }),
    decreases s.len(),
{
    let t = s.push(c);
    if s.len() == 0 {
        assert(t.drop_first() =~= Seq::<char>::empty());
        reveal_with_fuel(number_from, 2);
    } else {
        assert(t[0] == s[0]);
        assert(t.drop_first() =~= s.drop_first().push(c));
        let next = (10 * value + (s[0] as u32 - 48)) as nat;
        lemma_number_push(next, s.drop_first(), c);
    }
}

/// A number that was written in decimal is read back, up to the largest that
/// fits; a text with anything but digits in it, or none, is no number.
pub proof fn law_a_written_number_is_read_back(n: nat, s: Seq<char>, i: int)
    requires
        n <= u64::MAX,
    ensures
        number_of(decimal(n)) == Ok::<nat, NumberFault>(n),
        s.len() == 0 ==> number_of(s) is Err,
        0 < i < s.len() && !('0' <= s[i] <= '9') ==> number_of(s) is Err,
{
    lemma_read_back(n);
    lemma_decimal_digits(n);
    assert('0' <= decimal(n)[0]);
    if 0 < i < s.len() && !('0' <= s[i] <= '9') {
        if s[0] == '+' {
            lemma_no_number(0, s.drop_first(), i - 1);
        } else {
            lemma_no_number(0, s, i);
        }
    }
}

proof fn lemma_read_back(n: nat)
    requires
        n <= u64::MAX,
    ensures
        number_from(0, decimal(n)) == Ok::<nat, NumberFault>(n),
    decreases n,
{
    if n < 10 {
        let none = Seq::<char>::empty();
        assert(decimal(n) =~= none.push(decimal(n)[0]));
        lemma_decimal_digits(n);
        lemma_number_push(0, none, decimal(n)[0]);
    } else {
        lemma_read_back(n / 10);
        lemma_decimal_digits(n);
        let d = decimal(n).last();
        assert(decimal(n) =~= decimal(n / 10).push(d));
        assert(d == decimal(n)[decimal(n).len() - 1]);
        lemma_number_push(0, decimal(n / 10), d);
    }
}

proof fn lemma_no_number(value: nat, s: Seq<char>, i: int)
    requires
        0 <= i < s.len(),
        !('0' <= s[i] <= '9'),
    ensures
        number_from(value, s) is Err,
    decreases s.len(),
{
    if i > 0 && '0' <= s[0] <= '9' {
        let next = 10 * value + (s[0] as u32 - 48);
        if next <= u64::MAX {
            lemma_no_number(next as nat, s.drop_first(), i - 1);
        }
    }
}

/// A sign alone is no number, and neither is a number below zero.
pub proof fn law_a_sign_is_no_number(s: Seq<char>)
    ensures
        number_of(seq!['+']) is Err,
        number_of(seq!['-']) is Err,
        s.len() > 0 && s[0] == '-' ==> number_of(s) is Err,
{
}

/// The texts of a list are its strings, one by one.
pub proof fn law_texts_are_those_of_the_strings(items: Seq<String>, i: int, value: String)
    ensures
        views(items).len() == items.len(),
        0 <= i < items.len() ==> views(items)[i] == items[i]@,
        opt_view(Some(value)) == Some(value@),
        opt_view(None) is None,
{
}

} // verus!
