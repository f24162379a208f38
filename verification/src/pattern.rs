use vstd::prelude::*;

use crate::text::chars_of;

verus! {

/// The wildcard character of a pattern: it stands for any one character.
pub open spec fn is_wildcard(c: char) -> bool {
    c == '-'
}

/// `word` fits `pattern` when, at every position that both of them have,
/// the pattern holds the wildcard `-` or the same character as the word.
/// Positions past the end of the shorter of the two are not compared.
pub open spec fn word_matches(pattern: Seq<char>, word: Seq<char>) -> bool {
    forall|i: int|
        0 <= i < word.len() && i < pattern.len() ==> (#[trigger] is_wildcard(pattern[i]) || word[i]
            == pattern[i])
}

/// The words of `words` that fit `pattern`, in their order in `words`.
pub open spec fn matching_words(pattern: Seq<char>, words: Seq<String>) -> Seq<String> {
    words.filter(|w: String| word_matches(pattern, w@))
}

/// Decides whether `word` fits the pattern whose characters are `pattern`.
fn word_fits(pattern: &Vec<char>, word: &str) -> (b: bool)
    ensures
        b == word_matches(pattern@, word@),
{
    let w = chars_of(word);
    let n: usize = if w.len() < pattern.len() {
        w.len()
    } else {
        pattern.len()
    };
    let mut i: usize = 0;
    while i < n
        invariant
            n <= w@.len(),
            n <= pattern@.len(),
            n == w@.len() || n == pattern@.len(),
            w@ == word@,
            i <= n,
            forall|j: int| 0 <= j < i ==> (#[trigger] is_wildcard(pattern@[j]) || w@[j] == pattern@[j]),
        decreases n - i,
    {
        if pattern[i] != '-' && w[i] != pattern[i] {
            assert(!is_wildcard(pattern@[i as int]));
            return false;
        }
        i = i + 1;
    }
    true
}

/// Returns, in their order, the words that fit `pattern`: a `-` in the
/// pattern stands for any character, and only the positions that the pattern
/// and the word both have are compared, so that a short pattern filters by a
/// prefix and a long pattern accepts shorter words.
pub fn match_pattern(pattern: &str, words: &[String]) -> (r: Vec<String>)
    ensures
        r@ == matching_words(pattern@, words@),
        forall|w: String| #[trigger]
            r@.contains(w) <==> (words@.contains(w) && forall|i: int|
                0 <= i < w@.len() && i < pattern@.len() ==> pattern@[i] == '-' || w@[i]
                    == pattern@[i]),
{
    let p = chars_of(pattern);
    let mut r: Vec<String> = Vec::new();
    let n = words.len();
    for i in 0..n
        invariant
            n == words@.len(),
            p@ == pattern@,
            r@ == matching_words(pattern@, words@.take(i as int)),
    {
        reveal_with_fuel(Seq::<_>::filter, 1);
        assert(words@.take(i + 1).drop_last() =~= words@.take(i as int));
        if word_fits(&p, words[i].as_str()) {
            r.push(words[i].clone());
        }
    }
    assert(words@.take(n as int) =~= words@);
    proof {
        law_results_are_the_positionwise_fits(pattern@, words@);
    }
    r
}

/// Every word fits the pattern made of its own characters.
pub proof fn law_word_matches_itself(word: Seq<char>)
    ensures
        word_matches(word, word),
{
}

/// A word of the list is among the results of the pattern that spells it.
pub proof fn law_listed_word_matches_itself(words: Seq<String>, k: int)
    requires
        0 <= k < words.len(),
    ensures
        matching_words(words[k]@, words).contains(words[k]),
{
    let pred = |w: String| word_matches(words[k]@, w@);
    assert(pred(words[k]));
    words.lemma_filter_contains(pred, k);
}

/// A pattern made only of wildcards, the empty pattern among them, keeps
/// every word, in order.
pub proof fn law_all_wildcards_keep_every_word(pattern: Seq<char>, words: Seq<String>)
    requires
        forall|i: int| 0 <= i < pattern.len() ==> #[trigger] is_wildcard(pattern[i]),
    ensures
        matching_words(pattern, words) == words,
    decreases words.len(),
{
    reveal_with_fuel(Seq::<_>::filter, 1);
    if words.len() > 0 {
        law_all_wildcards_keep_every_word(pattern, words.drop_last());
        assert(words.drop_last().push(words.last()) =~= words);
    }
}

/// The results are words of the list that fit the pattern, and there are
/// never more of them than words.
pub proof fn law_results_fit_and_come_from_the_list(pattern: Seq<char>, words: Seq<String>)
    ensures
        matching_words(pattern, words).len() <= words.len(),
        forall|w: String| #[trigger]
            matching_words(pattern, words).contains(w) ==> words.contains(w) && word_matches(
                pattern,
                w@,
            ),
{
    let pred = |w: String| word_matches(pattern, w@);
    words.lemma_filter_len(pred);
    assert forall|w: String| #[trigger]
        matching_words(pattern, words).contains(w) implies words.contains(w) && word_matches(
        pattern,
        w@,
    ) by {
        words.lemma_filter_contains_rev(pred, w);
        let j = choose|j: int|
            0 <= j < words.filter(pred).len() && words.filter(pred)[j] == w;
        words.lemma_filter_pred(pred, j);
    }
}

/// Filtering by a stronger condition after a weaker one is filtering by the
/// stronger one alone.
proof fn lemma_filter_after_weaker(
    strong: spec_fn(String) -> bool,
    weak: spec_fn(String) -> bool,
    words: Seq<String>,
)
    requires
        forall|w: String| #[trigger] strong(w) ==> weak(w),
    ensures
        words.filter(weak).filter(strong) == words.filter(strong),
    decreases words.len(),
{
    reveal_with_fuel(Seq::<_>::filter, 1);
    if words.len() > 0 {
        lemma_filter_after_weaker(strong, weak, words.drop_last());
        let inner = words.drop_last().filter(weak);
        if weak(words.last()) {
            assert(inner.push(words.last()).drop_last() =~= inner);
            assert(inner.push(words.last()).last() == words.last());
        }
    }
}

/// A word that fits a pattern fits every prefix of that pattern.
pub proof fn law_prefix_of_pattern_keeps_fit(pattern: Seq<char>, more: Seq<char>, word: Seq<char>)
    requires
        word_matches(pattern + more, word),
    ensures
        word_matches(pattern, word),
{
    assert forall|i: int| 0 <= i < word.len() && i < pattern.len() implies (#[trigger] is_wildcard(
        pattern[i],
    ) || word[i] == pattern[i]) by {
        assert((pattern + more)[i] == pattern[i]);
        assert(is_wildcard((pattern + more)[i]) || word[i] == (pattern + more)[i]);
    }
}

/// Typing more characters only narrows the results: the results of the
/// longer pattern are the results of the shorter one, filtered again by the
/// longer one, and there are no more of them.
pub proof fn law_longer_pattern_narrows(pattern: Seq<char>, more: Seq<char>, words: Seq<String>)
    ensures
        matching_words(pattern + more, matching_words(pattern, words)) == matching_words(
            pattern + more,
            words,
        ),
        matching_words(pattern + more, words).len() <= matching_words(pattern, words).len(),
{
    let strong = |w: String| word_matches(pattern + more, w@);
    let weak = |w: String| word_matches(pattern, w@);
    assert forall|w: String| #[trigger] strong(w) implies weak(w) by {
        law_prefix_of_pattern_keeps_fit(pattern, more, w@);
    }
    lemma_filter_after_weaker(strong, weak, words);
    words.filter(weak).lemma_filter_len(strong);
}

/// Filtering the results again by the same pattern changes nothing.
pub proof fn law_filtering_twice_is_filtering_once(pattern: Seq<char>, words: Seq<String>)
    ensures
        matching_words(pattern, matching_words(pattern, words)) == matching_words(pattern, words),
{
    law_longer_pattern_narrows(pattern, Seq::empty(), words);
    assert(pattern + Seq::<char>::empty() =~= pattern);
}

/// Turning a character of a pattern into the wildcard `-` never drops a
/// word: every word that fits the pattern fits the new one.
pub proof fn law_wildcard_never_drops_a_word(pattern: Seq<char>, k: int, word: Seq<char>)
    requires
        0 <= k < pattern.len(),
        word_matches(pattern, word),
    ensures
        word_matches(pattern.update(k, '-'), word),
{
    let p2 = pattern.update(k, '-');
    assert forall|i: int| 0 <= i < word.len() && i < p2.len() implies (#[trigger] is_wildcard(p2[i])
        || word[i] == p2[i]) by {
        if i != k {
            assert(p2[i] == pattern[i]);
            assert(is_wildcard(pattern[i]) || word[i] == pattern[i]);
        }
    }
}

/// The results of a pattern are among the results of the pattern with one
/// character turned into `-`.
pub proof fn law_wildcard_keeps_results(pattern: Seq<char>, k: int, words: Seq<String>, w: String)
    requires
        0 <= k < pattern.len(),
        matching_words(pattern, words).contains(w),
    ensures
        matching_words(pattern.update(k, '-'), words).contains(w),
{
    law_results_fit_and_come_from_the_list(pattern, words);
    law_wildcard_never_drops_a_word(pattern, k, w@);
    let i = choose|i: int| 0 <= i < words.len() && words[i] == w;
    words.lemma_filter_contains(|x: String| word_matches(pattern.update(k, '-'), x@), i);
}

/// The results of a pattern, stated position by position: a word is a
/// result exactly when it is a word of the list and, at every position that
/// both the word and the pattern have, counted from the start, the pattern
/// holds `-` or the word's character.
pub proof fn law_results_are_the_positionwise_fits(pattern: Seq<char>, words: Seq<String>)
    ensures
        forall|w: String| #[trigger]
            matching_words(pattern, words).contains(w) <==> (words.contains(w) && forall|i: int|
                0 <= i < w@.len() && i < pattern.len() ==> pattern[i] == '-' || w@[i]
                    == pattern[i]),
{
    law_results_fit_and_come_from_the_list(pattern, words);
    assert forall|w: String| #[trigger]
        matching_words(pattern, words).contains(w) <==> (words.contains(w) && forall|i: int|
            0 <= i < w@.len() && i < pattern.len() ==> pattern[i] == '-' || w@[i]
                == pattern[i]) by {
        if matching_words(pattern, words).contains(w) {
            assert forall|i: int| 0 <= i < w@.len() && i < pattern.len() implies pattern[i] == '-'
                || w@[i] == pattern[i] by {
                assert(is_wildcard(pattern[i]) || w@[i] == pattern[i]);
            }
        }
        if words.contains(w) && forall|i: int|
            0 <= i < w@.len() && i < pattern.len() ==> pattern[i] == '-' || w@[i] == pattern[i] {
            assert forall|i: int| 0 <= i < w@.len() && i < pattern.len() implies (#[trigger] is_wildcard(
                pattern[i],
            ) || w@[i] == pattern[i]) by {}
            let k = choose|k: int| 0 <= k < words.len() && words[k] == w;
            words.lemma_filter_contains(|x: String| word_matches(pattern, x@), k);
        }
    }
}

/// A word whose first character differs from a first pattern character
/// that is not `-` is never a result.
pub proof fn law_first_character_must_fit(pattern: Seq<char>, words: Seq<String>, w: String)
    requires
        pattern.len() > 0,
        w@.len() > 0,
        pattern[0] != '-',
        w@[0] != pattern[0],
    ensures
        !matching_words(pattern, words).contains(w),
{
    law_results_are_the_positionwise_fits(pattern, words);
}

} // verus!
