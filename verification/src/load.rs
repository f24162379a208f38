use vstd::prelude::*;

use vstd::utf8::is_ascii_chars;

use crate::text::{
    has_no_line_feed, is_byte_order_mark, lemma_line_end_bounds, lemma_lines_are_ascii,
    lemma_trimmed_ascii_line, law_final_line_feed_is_optional, law_lines_hold_no_line_feed,
    lines_from, line_end, trim_end, trim_start,
    chars_of, lemma_extra_line_feed, lemma_final_line_feed, law_lines_of_joined_texts, lemma_trim_drops_trailing_white_space, line_ranges,
    range_texts, ranges_within, skip_byte_order_marks, strip_byte_order_marks,
    strip_carriage_return, text_lines, trim, trimmed_range, is_white_space,
};

verus! {

/// The error type of `load_words_from_str`, which never returns it: any
/// text is a list of words.
#[derive(Debug, Clone, Copy, PartialEq, Eq)]
pub struct LoadError;

/// The result of `str::to_lowercase` on a string of the characters `s`:
/// the lowercase mapping of the Unicode character database.
pub uninterp spec fn lowercase(s: Seq<char>) -> Seq<char>;

/// The ASCII lowercase of a character: `A` to `Z` become `a` to `z`, and
/// every other character stays.
pub open spec fn ascii_lowercase_char(c: char) -> char {
    if 'A' <= c && c <= 'Z' {
        ((c as u32) + 32) as char
    } else {
        c
    }
}

/// The ASCII lowercase of a text, character by character.
pub open spec fn ascii_lowercase(s: Seq<char>) -> Seq<char> {
    s.map_values(|c: char| ascii_lowercase_char(c))
}

/// ASCII lowercasing a character twice is lowercasing it once, and it
/// keeps white space, line feeds and ASCII apart from the rest.
pub proof fn lemma_ascii_lowercase_char(c: char)
    ensures
        ascii_lowercase_char(ascii_lowercase_char(c)) == ascii_lowercase_char(c),
        is_white_space(ascii_lowercase_char(c)) == is_white_space(c),
        (ascii_lowercase_char(c) == '\n') == (c == '\n'),
        ('\0' <= ascii_lowercase_char(c) <= '\u{7f}') == ('\0' <= c <= '\u{7f}'),
        !('A' <= ascii_lowercase_char(c) && ascii_lowercase_char(c) <= 'Z'),
{
    if 'A' <= c && c <= 'Z' {
        assert('a' <= ascii_lowercase_char(c) && ascii_lowercase_char(c) <= 'z');
    }
}

/// Calls `str::to_lowercase`, which maps each character of `s` to its
/// Unicode lowercase form (a character may map to several, and a capital
/// sigma to a final sigma at the end of a word). Claimed: the result is the
/// named value `lowercase(s@)`, which depends on `s` alone, and it is empty
/// exactly when `s` is, since each character becomes one or more characters
/// (as `char::to_lowercase` documents), and on ASCII text it maps `A` to
/// `Z` to `a` to `z` and keeps every other character (the documentation of
/// `str::to_ascii_lowercase` names `to_lowercase` as the function that does
/// this for ASCII characters in addition to non-ASCII ones). Which characters
/// come out of other text is not stated.
#[verifier::external_body]
pub(crate) fn to_lowercase(s: &str) -> (r: String)
    ensures
        r@ == lowercase(s@),
        r@.len() == 0 <==> s@.len() == 0,
        is_ascii_chars(s@) ==> r@ == ascii_lowercase(s@),
{
    s.to_lowercase()
}

/// Calls `String::push`, which appends `c` to the end of `s`. Claimed: the
/// characters of `s` afterwards are those before, followed by `c`.
#[verifier::external_body]
fn push_char(s: &mut String, c: char)
    ensures
        final(s)@ == old(s)@.push(c),
{
    s.push(c);
}

/// A line without surrounding white space and without leading byte order
/// marks.
pub open spec fn stripped_line(line: Seq<char>) -> Seq<char> {
    strip_byte_order_marks(trim(line))
}

/// The word that a line of the list gives: the line without surrounding
/// white space and without leading byte order marks, in lowercase.
pub open spec fn clean_line(line: Seq<char>) -> Seq<char> {
    lowercase(stripped_line(line))
}

/// The stripped lines of a text that are not empty.
pub open spec fn kept_lines(text: Seq<char>) -> Seq<Seq<char>> {
    text_lines(text).map_values(|line: Seq<char>| stripped_line(line)).filter(
        |w: Seq<char>| w.len() > 0,
    )
}

/// The words of a list, stated with the empty lines dropped before the
/// lowercasing: the kept lines, in lowercase.
pub open spec fn word_list(text: Seq<char>) -> Seq<Seq<char>> {
    kept_lines(text).map_values(|w: Seq<char>| lowercase(w))
}

/// The words of a list: one for each line, cleaned by `clean_line`, with the
/// lines that leave nothing dropped.
pub open spec fn loaded_words(text: Seq<char>) -> Seq<Seq<char>> {
    text_lines(text).map_values(|line: Seq<char>| clean_line(line)).filter(
        |w: Seq<char>| w.len() > 0,
    )
}

/// The characters of a vector of strings.
pub open spec fn string_views(v: Seq<String>) -> Seq<Seq<char>> {
    v.map_values(|w: String| w@)
}

/// Builds the string of the characters `s[a..b]`.
pub(crate) fn string_of_range(s: &Vec<char>, a: usize, b: usize) -> (t: String)
    requires
        a <= b <= s@.len(),
    ensures
        t@ == s@.subrange(a as int, b as int),
{
    let mut t = String::new();
    for j in a..b
        invariant
            a <= b <= s@.len(),
            t@ == s@.subrange(a as int, j as int),
    {
        push_char(&mut t, s[j]);
        assert(s@.subrange(a as int, j + 1) =~= s@.subrange(a as int, j as int).push(s@[j as int]));
    }
    t
}

/// Builds the word of the line `s[a..b]`.
fn clean_range(s: &Vec<char>, a: usize, b: usize) -> (r: String)
    requires
        a <= b <= s@.len(),
    ensures
        r@ == clean_line(s@.subrange(a as int, b as int)),
        r@.len() == 0 <==> stripped_line(s@.subrange(a as int, b as int)).len() == 0,
        is_ascii_chars(s@) ==> r@ == ascii_lowercase(stripped_line(s@.subrange(a as int, b as int))),
{
    let (x, y) = trimmed_range(s, a, b);
    let x = skip_byte_order_marks(s, x, y);
    let t = string_of_range(s, x, y);
    proof {
        if is_ascii_chars(s@) {
            assert forall|i: int| 0 <= i < t@.len() implies '\0' <= #[trigger] t@[i] <= '\u{7f}' by {
                assert(t@[i] == s@[x + i]);
            }
        }
    }
    to_lowercase(t.as_str())
}

/// Keeps the words that are not empty, in order.
pub fn keep_nonempty_words(lowered: Vec<String>) -> (r: Vec<String>)
    ensures
        string_views(r@) == string_views(lowered@).filter(|w: Seq<char>| w.len() > 0),
{
    let ghost views = string_views(lowered@);
    let mut out: Vec<String> = Vec::new();
    let n = lowered.len();
    for k in 0..n
        invariant
            n == lowered@.len(),
            views == string_views(lowered@),
            string_views(out@) == views.take(k as int).filter(|w: Seq<char>| w.len() > 0),
    {
        let w = &lowered[k];
        proof {
            reveal_with_fuel(Seq::<_>::filter, 1);
            assert(views.take(k + 1).drop_last() =~= views.take(k as int));
            assert(views.take(k + 1).last() == w@);
        }
        if !w.as_str().is_empty() {
            out.push(w.clone());
            assert(string_views(out@) =~= string_views(out@.drop_last()).push(w@));
        }
    }
    assert(views.take(n as int) =~= views);
    out
}

/// The words of an ASCII list: the kept lines, in ASCII lowercase.
pub open spec fn ascii_word_list(text: Seq<char>) -> Seq<Seq<char>> {
    kept_lines(text).map_values(|w: Seq<char>| ascii_lowercase(w))
}

/// Reads the list of words from text: one word per line, without the
/// surrounding white space and the byte order marks at its start, in
/// lowercase, and with the lines that leave nothing skipped. It never fails.
pub fn load_words_from_str(data: &str) -> (r: Result<Vec<String>, LoadError>)
    ensures
        r matches Ok(words) && string_views(words@) == loaded_words(data@),
        r matches Ok(words) && string_views(words@) == word_list(data@),
        r matches Ok(words) && (is_ascii_chars(data@) ==> string_views(words@) == ascii_word_list(
            data@,
        )),
{
    let s = chars_of(data);
    let ranges = line_ranges(&s);
    let ghost lines = text_lines(data@);
    let ghost cleaned = lines.map_values(|line: Seq<char>| clean_line(line));
    let mut lowered: Vec<String> = Vec::new();
    let n = ranges.len();
    for k in 0..n
        invariant
            n == ranges@.len(),
            s@ == data@,
            ranges_within(s@.len(), ranges@),
            range_texts(s@, ranges@) == lines,
            cleaned == lines.map_values(|line: Seq<char>| clean_line(line)),
            string_views(lowered@) == cleaned.take(k as int),
            forall|j: int|
                0 <= j < k ==> ((#[trigger] cleaned[j]).len() == 0 <==> stripped_line(lines[j]).len()
                    == 0),
            is_ascii_chars(data@) ==> forall|j: int|
                0 <= j < k ==> #[trigger] cleaned[j] == ascii_lowercase(stripped_line(lines[j])),
    {
        let (a, b) = ranges[k];
        assert(ranges@[k as int].0 <= ranges@[k as int].1 <= s@.len());
        let w = clean_range(&s, a, b);
        assert(lines[k as int] == s@.subrange(a as int, b as int));
        assert(cleaned[k as int] == w@);
        let ghost before = lowered@;
        lowered.push(w);
        assert(string_views(lowered@) =~= string_views(before).push(w@));
        assert(string_views(lowered@) =~= cleaned.take(k + 1));
    }
    assert(cleaned.take(n as int) =~= cleaned);
    proof {
        let stripped = lines.map_values(|line: Seq<char>| stripped_line(line));
        assert(cleaned =~= stripped.map_values(|w: Seq<char>| lowercase(w)));
        assert forall|i: int| 0 <= i < stripped.len() implies ((#[trigger] lowercase(
            stripped[i],
        )).len() == 0 <==> stripped[i].len() == 0) by {
            assert(cleaned[i] == lowercase(stripped[i]));
        }
        lemma_map_after_filter(stripped, |w: Seq<char>| lowercase(w));
        if is_ascii_chars(data@) {
            assert(cleaned =~= stripped.map_values(|w: Seq<char>| ascii_lowercase(w)));
            assert forall|i: int| 0 <= i < stripped.len() implies ((#[trigger] ascii_lowercase(
                stripped[i],
            )).len() == 0 <==> stripped[i].len() == 0) by {}
            lemma_map_after_filter(stripped, |w: Seq<char>| ascii_lowercase(w));
        }
    }
    Ok(keep_nonempty_words(lowered))
}

/// No loaded word is empty.
pub proof fn law_loaded_words_are_not_empty(text: Seq<char>, i: int)
    requires
        0 <= i < loaded_words(text).len(),
    ensures
        loaded_words(text)[i].len() > 0,
{
    let cleaned = text_lines(text).map_values(|line: Seq<char>| clean_line(line));
    cleaned.lemma_filter_pred(|w: Seq<char>| w.len() > 0, i);
}

/// A text gives at most one word per line.
pub proof fn law_at_most_one_word_per_line(text: Seq<char>)
    ensures
        loaded_words(text).len() <= text_lines(text).len(),
{
    let cleaned = text_lines(text).map_values(|line: Seq<char>| clean_line(line));
    cleaned.lemma_filter_len(|w: Seq<char>| w.len() > 0);
}

/// Dropping the empty words after a mapping gives what dropping the empty
/// texts before it gives, when the mapping empties exactly the empty texts.
proof fn lemma_map_after_filter(ls: Seq<Seq<char>>, f: spec_fn(Seq<char>) -> Seq<char>)
    requires
        forall|i: int| 0 <= i < ls.len() ==> ((#[trigger] f(ls[i])).len() == 0 <==> ls[i].len() == 0),
    ensures
        ls.map_values(f).filter(|w: Seq<char>| w.len() > 0) == ls.filter(
            |w: Seq<char>| w.len() > 0,
        ).map_values(f),
    decreases ls.len(),
{
    reveal_with_fuel(Seq::<_>::filter, 1);
    if ls.len() > 0 {
        let init = ls.drop_last();
        assert forall|i: int| 0 <= i < init.len() implies ((#[trigger] f(init[i])).len() == 0
            <==> init[i].len() == 0) by {
            assert(init[i] == ls[i]);
        }
        lemma_map_after_filter(init, f);
        let mapped = ls.map_values(f);
        assert(mapped.drop_last() =~= init.map_values(f));
        assert(mapped.last() == f(ls.last()));
        assert(f(ls[ls.len() - 1]).len() == 0 <==> ls[ls.len() - 1].len() == 0);
        let kept = init.filter(|w: Seq<char>| w.len() > 0);
        assert(kept.push(ls.last()).map_values(f) =~= kept.map_values(f).push(f(ls.last())));
    }
}

/// A text whose lines are all blank (white space and byte order marks at
/// most) gives no word; the empty text and a lone line feed among them.
pub proof fn law_blank_text_gives_no_word(text: Seq<char>)
    requires
        forall|i: int|
            0 <= i < text_lines(text).len() ==> #[trigger] stripped_line(text_lines(text)[i]).len()
                == 0,
    ensures
        word_list(text).len() == 0,
{
    let stripped = text_lines(text).map_values(|line: Seq<char>| stripped_line(line));
    let pred = |w: Seq<char>| w.len() > 0;
    if stripped.filter(pred).len() > 0 {
        stripped.lemma_filter_pred(pred, 0);
        stripped.lemma_filter_contains_rev(pred, stripped.filter(pred)[0]);
        let j = choose|j: int| 0 <= j < stripped.len() && stripped[j] == stripped.filter(pred)[0];
        assert(stripped_line(text_lines(text)[j]).len() == 0);
    }
}

/// The final line ending is optional: any text gives the same words as that
/// text followed by a line feed.
pub proof fn law_final_line_ending_is_optional(text: Seq<char>)
    ensures
        kept_lines(text.push('\n')) == kept_lines(text),
        word_list(text.push('\n')) == word_list(text),
{
    let f = |line: Seq<char>| stripped_line(line);
    let pred = |w: Seq<char>| w.len() > 0;
    if text.len() == 0 || text.last() == '\n' {
        lemma_extra_line_feed(text);
        let lines = text_lines(text);
        assert(lines.push(Seq::<char>::empty()).map_values(f) =~= lines.map_values(f).push(
            stripped_line(Seq::<char>::empty()),
        ));
        assert(trim(Seq::<char>::empty()) == Seq::<char>::empty());
        assert(stripped_line(Seq::<char>::empty()) == Seq::<char>::empty());
        reveal_with_fuel(Seq::<_>::filter, 1);
        assert(lines.map_values(f).push(Seq::<char>::empty()).drop_last() =~= lines.map_values(f));
    } else {
        lemma_final_line_feed(text);
        let lines = text_lines(text);
        let last = lines.last();
        if last.len() > 0 && last.last() == '\r' {
            lemma_trim_drops_trailing_white_space(last);
        }
        assert(stripped_line(strip_carriage_return(last)) == stripped_line(last));
        assert(text_lines(text.push('\n')).map_values(f) =~= lines.map_values(f));
    }
}

/// The words of two texts joined by a line feed are the words of the first
/// followed by those of the second.
pub proof fn law_joined_texts(first: Seq<char>, second: Seq<char>)
    ensures
        kept_lines(first.push('\n') + second) == kept_lines(first) + kept_lines(second),
        word_list(first.push('\n') + second) == word_list(first) + word_list(second),
{
    let f = |line: Seq<char>| stripped_line(line);
    let pred = |w: Seq<char>| w.len() > 0;
    let g = |w: Seq<char>| lowercase(w);
    let p = first.push('\n');
    law_lines_of_joined_texts(p, second);
    assert((text_lines(p) + text_lines(second)).map_values(f) =~= text_lines(p).map_values(f)
        + text_lines(second).map_values(f));
    Seq::filter_distributes_over_add(text_lines(p).map_values(f), text_lines(second).map_values(f), pred);
    law_final_line_ending_is_optional(first);
    assert((kept_lines(first) + kept_lines(second)).map_values(g) =~= kept_lines(first).map_values(g)
        + kept_lines(second).map_values(g));
}

/// Texts joined by line feeds, as `[String]::join("\n")` joins them.
pub open spec fn join_lines(words: Seq<Seq<char>>) -> Seq<char>
    decreases words.len(),
{
    if words.len() == 0 {
        Seq::empty()
    } else if words.len() == 1 {
        words[0]
    } else {
        join_lines(words.drop_last()).push('\n') + words.last()
    }
}

/// A word as an ASCII list gives it: not empty, ASCII, without line feeds,
/// and neither starting nor ending with white space.
pub open spec fn is_clean_ascii_word(w: Seq<char>) -> bool {
    &&& w.len() > 0
    &&& is_ascii_chars(w)
    &&& has_no_line_feed(w)
    &&& !is_white_space(w[0])
    &&& !is_white_space(w.last())
}

/// The kept lines of an ASCII text are clean ASCII words.
proof fn lemma_kept_lines_are_clean(text: Seq<char>, w: Seq<char>)
    requires
        is_ascii_chars(text),
        kept_lines(text).contains(w),
    ensures
        is_clean_ascii_word(w),
{
    let lines = text_lines(text);
    let stripped = lines.map_values(|line: Seq<char>| stripped_line(line));
    let pred = |x: Seq<char>| x.len() > 0;
    stripped.lemma_filter_contains_rev(pred, w);
    let i = choose|i: int| 0 <= i < stripped.filter(pred).len() && stripped.filter(pred)[i] == w;
    stripped.lemma_filter_pred(pred, i);
    let j = choose|j: int| 0 <= j < stripped.len() && stripped[j] == w;
    lemma_lines_are_ascii(text, 0, j);
    assert forall|c: int| 0 <= c < lines[j].len() implies #[trigger] lines[j][c] != '\n' by {
        law_lines_hold_no_line_feed(text, j, c);
    }
    lemma_trimmed_ascii_line(lines[j]);
}

/// ASCII lowercasing keeps a clean ASCII word clean, and a second time
/// changes nothing.
proof fn lemma_ascii_lowercase_word(w: Seq<char>)
    requires
        is_clean_ascii_word(w),
    ensures
        is_clean_ascii_word(ascii_lowercase(w)),
        ascii_lowercase(ascii_lowercase(w)) == ascii_lowercase(w),
{
    let l = ascii_lowercase(w);
    assert forall|i: int| 0 <= i < l.len() implies '\0' <= #[trigger] l[i] <= '\u{7f}' && l[i]
        != '\n' && ascii_lowercase_char(l[i]) == l[i] by {
        lemma_ascii_lowercase_char(w[i]);
    }
    lemma_ascii_lowercase_char(w[0]);
    lemma_ascii_lowercase_char(w.last());
    assert(ascii_lowercase(l) =~= l);
}

/// A clean ASCII word is its own stripped line.
proof fn lemma_clean_word_is_stripped(w: Seq<char>)
    requires
        is_clean_ascii_word(w),
    ensures
        stripped_line(w) == w,
{
    assert(trim_start(w) == w);
    assert(trim_end(w) == w);
    assert(!is_byte_order_mark(w[0]));
}

/// The lines of clean words joined by line feeds are those words.
proof fn lemma_lines_of_joined_words(words: Seq<Seq<char>>)
    requires
        forall|i: int| 0 <= i < words.len() ==> is_clean_ascii_word(#[trigger] words[i]),
    ensures
        text_lines(join_lines(words)) == words,
        is_ascii_chars(join_lines(words)),
        words.len() > 0 ==> join_lines(words).len() > 0 && join_lines(words).last()
            == words.last().last(),
    decreases words.len(),
{
    if words.len() == 0 {
        assert(text_lines(Seq::<char>::empty()) =~= Seq::<Seq<char>>::empty());
    } else if words.len() == 1 {
        let w = words[0];
        assert(is_clean_ascii_word(words[0]));
        lemma_line_end_bounds(w, 0);
        if line_end(w, 0) < w.len() {
            assert(w[line_end(w, 0)] != '\n');
        }
        assert(lines_from(w, 0) == seq![w.subrange(0, w.len() as int)]);
        assert(w.subrange(0, w.len() as int) =~= w);
        assert(text_lines(w) =~= words);
    } else {
        let init = words.drop_last();
        let last = words.last();
        assert(is_clean_ascii_word(words[words.len() - 1]));
        assert forall|i: int| 0 <= i < init.len() implies is_clean_ascii_word(#[trigger] init[i]) by {
            assert(init[i] == words[i]);
        }
        lemma_lines_of_joined_words(init);
        let j = join_lines(init);
        assert(is_clean_ascii_word(init[init.len() - 1]));
        assert(j.last() != '\n');
        assert(is_white_space('\r'));
        law_final_line_feed_is_optional(j);
        law_lines_of_joined_texts(j.push('\n'), last);
        lemma_lines_of_joined_words(seq![last]);
        assert(join_lines(seq![last]) == last);
        assert(text_lines(last) == seq![last]);
        assert(text_lines(join_lines(words)) =~= words);
        assert forall|i: int| 0 <= i < join_lines(words).len() implies '\0' <= #[trigger] join_lines(
            words,
        )[i] <= '\u{7f}' by {
            if i < j.len() {
                assert(join_lines(words)[i] == j[i]);
            } else if i > j.len() {
                assert(join_lines(words)[i] == last[i - j.len() - 1]);
            }
        }
        assert(join_lines(words).last() == last.last());
    }
}

/// Keeping the non-empty texts of texts that are all non-empty keeps all.
proof fn lemma_filter_keeps_nonempty(ws: Seq<Seq<char>>)
    requires
        forall|i: int| 0 <= i < ws.len() ==> (#[trigger] ws[i]).len() > 0,
    ensures
        ws.filter(|w: Seq<char>| w.len() > 0) == ws,
    decreases ws.len(),
{
    reveal_with_fuel(Seq::<_>::filter, 1);
    if ws.len() > 0 {
        assert(ws[ws.len() - 1].len() > 0);
        assert forall|i: int| 0 <= i < ws.drop_last().len() implies (#[trigger] ws.drop_last()[i]).len()
            > 0 by {
            assert(ws.drop_last()[i] == ws[i]);
        }
        lemma_filter_keeps_nonempty(ws.drop_last());
        assert(ws.drop_last().push(ws.last()) =~= ws);
    }
}

/// Loading words that were loaded from an ASCII list gives them back
/// unchanged: the loaded words, joined by line feeds, are ASCII, and their
/// words are themselves.
pub proof fn law_reloading_ascii_words_changes_nothing(data: Seq<char>)
    requires
        is_ascii_chars(data),
    ensures
        is_ascii_chars(join_lines(ascii_word_list(data))),
        ascii_word_list(join_lines(ascii_word_list(data))) == ascii_word_list(data),
{
    let v = ascii_word_list(data);
    let kept = kept_lines(data);
    assert forall|i: int| 0 <= i < v.len() implies is_clean_ascii_word(#[trigger] v[i])
        && ascii_lowercase(v[i]) == v[i] by {
        assert(kept.contains(kept[i]));
        lemma_kept_lines_are_clean(data, kept[i]);
        lemma_ascii_lowercase_word(kept[i]);
    }
    lemma_lines_of_joined_words(v);
    let f = |line: Seq<char>| stripped_line(line);
    assert forall|i: int| 0 <= i < v.len() implies #[trigger] stripped_line(v[i]) == v[i] by {
        lemma_clean_word_is_stripped(v[i]);
    }
    assert(v.map_values(f) =~= v);
    assert forall|i: int| 0 <= i < v.len() implies (#[trigger] v[i]).len() > 0 by {}
    lemma_filter_keeps_nonempty(v);
    assert(kept_lines(join_lines(v)) == v);
    assert(v.map_values(|w: Seq<char>| ascii_lowercase(w)) =~= v);
}

/// Words loaded from an ASCII list hold no capital letter.
pub proof fn law_ascii_words_have_no_capitals(data: Seq<char>, i: int, j: int)
    requires
        is_ascii_chars(data),
        0 <= i < ascii_word_list(data).len(),
        0 <= j < ascii_word_list(data)[i].len(),
    ensures
        !('A' <= ascii_word_list(data)[i][j] && ascii_word_list(data)[i][j] <= 'Z'),
{
    let kept = kept_lines(data);
    lemma_ascii_lowercase_char(kept[i][j]);
}

} // verus!
