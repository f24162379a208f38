use vstd::prelude::*;
use vstd::utf8::is_ascii_chars;

verus! {

broadcast use vstd::string::group_string_axioms;

/// Copies the characters of `s` into a vector.
pub fn chars_of(s: &str) -> (v: Vec<char>)
    ensures
        v@ == s@,
{
    let mut v: Vec<char> = Vec::new();
    for c in it: s.chars()
        invariant
            v@ == it.seq().take(it.index() as int),
            it.seq() == s@,
    {
        v.push(c);
    }
    v
}

/// The characters with the Unicode `White_Space` property, which are those
/// that `char::is_whitespace` and `str::trim` treat as white space.
pub open spec fn is_white_space(c: char) -> bool {
    ||| ('\u{9}' <= c && c <= '\u{d}')
    ||| c == ' '
    ||| c == '\u{85}'
    ||| c == '\u{a0}'
    ||| c == '\u{1680}'
    ||| ('\u{2000}' <= c && c <= '\u{200a}')
    ||| c == '\u{2028}'
    ||| c == '\u{2029}'
    ||| c == '\u{202f}'
    ||| c == '\u{205f}'
    ||| c == '\u{3000}'
}

/// The byte order mark, which some editors put at the start of a file.
pub open spec fn is_byte_order_mark(c: char) -> bool {
    c == '\u{feff}'
}

/// Decides `is_white_space`.
pub fn white_space(c: char) -> (b: bool)
    ensures
        b == is_white_space(c),
{
    ('\u{9}' <= c && c <= '\u{d}') || c == ' ' || c == '\u{85}' || c == '\u{a0}' || c == '\u{1680}'
        || ('\u{2000}' <= c && c <= '\u{200a}') || c == '\u{2028}' || c == '\u{2029}' || c
        == '\u{202f}' || c == '\u{205f}' || c == '\u{3000}'
}

/// `s` without its leading white space.
pub open spec fn trim_start(s: Seq<char>) -> Seq<char>
    decreases s.len(),
{
    if s.len() > 0 && is_white_space(s[0]) {
        trim_start(s.drop_first())
    } else {
        s
    }
}

/// `s` without its trailing white space.
pub open spec fn trim_end(s: Seq<char>) -> Seq<char>
    decreases s.len(),
{
    if s.len() > 0 && is_white_space(s.last()) {
        trim_end(s.drop_last())
    } else {
        s
    }
}

/// `s` without leading and trailing white space, as `str::trim` gives it.
pub open spec fn trim(s: Seq<char>) -> Seq<char> {
    trim_end(trim_start(s))
}

/// `s` without the byte order marks at its start, as
/// `str::trim_start_matches('\u{FEFF}')` gives it.
pub open spec fn strip_byte_order_marks(s: Seq<char>) -> Seq<char>
    decreases s.len(),
{
    if s.len() > 0 && is_byte_order_mark(s[0]) {
        strip_byte_order_marks(s.drop_first())
    } else {
        s
    }
}

/// `s` without one carriage return at its end.
pub open spec fn strip_carriage_return(s: Seq<char>) -> Seq<char> {
    if s.len() > 0 && s.last() == '\r' {
        s.drop_last()
    } else {
        s
    }
}

/// The index of the first line feed in `s` at or after `i`, or the length of
/// `s` when there is none.
pub open spec fn line_end(s: Seq<char>, i: int) -> int
    decreases s.len() - i,
{
    if i >= s.len() {
        s.len() as int
    } else if s[i] == '\n' {
        i
    } else {
        line_end(s, i + 1)
    }
}

/// `line_end` lies between `i` and the length, is a line feed when it is
/// not the length, and no line feed comes before it.
pub proof fn lemma_line_end_bounds(s: Seq<char>, i: int)
    requires
        0 <= i <= s.len(),
    ensures
        i <= line_end(s, i) <= s.len(),
        line_end(s, i) < s.len() ==> s[line_end(s, i)] == '\n',
        forall|j: int| i <= j < line_end(s, i) ==> s[j] != '\n',
    decreases s.len() - i,
{
    if i < s.len() && s[i] != '\n' {
        lemma_line_end_bounds(s, i + 1);
    }
}

/// The lines of `s` that start at or after `start`, which is 0 or the index
/// just past a line feed.
pub open spec fn lines_from(s: Seq<char>, start: int) -> Seq<Seq<char>>
    decreases s.len() - start,
{
    if start < 0 || start >= s.len() {
        Seq::empty()
    } else {
        let e = line_end(s, start);
        proof {
            lemma_line_end_bounds(s, start);
        }
        if e < s.len() {
            seq![strip_carriage_return(s.subrange(start, e))] + lines_from(s, e + 1)
        } else {
            seq![s.subrange(start, s.len() as int)]
        }
    }
}

/// The lines of `s`, as `str::lines` yields them: `s` is cut at each line
/// feed, a carriage return just before a line feed is dropped with it, and a
/// line feed at the very end does not start another line.
pub open spec fn text_lines(s: Seq<char>) -> Seq<Seq<char>> {
    lines_from(s, 0)
}

/// The texts of the character ranges `ranges` of `s`.
pub open spec fn range_texts(s: Seq<char>, ranges: Seq<(usize, usize)>) -> Seq<Seq<char>> {
    Seq::new(ranges.len(), |i: int| s.subrange(ranges[i].0 as int, ranges[i].1 as int))
}

/// The ranges lie within `s`.
pub open spec fn ranges_within(len: nat, ranges: Seq<(usize, usize)>) -> bool {
    forall|i: int| 0 <= i < ranges.len() ==> #[trigger] ranges[i].0 <= ranges[i].1 <= len
}

proof fn lemma_line_end_is(s: Seq<char>, start: int, i: int)
    requires
        0 <= start <= i <= s.len(),
        forall|j: int| start <= j < i ==> s[j] != '\n',
        i == s.len() || s[i] == '\n',
    ensures
        line_end(s, start) == i,
    decreases i - start,
{
    if start < i {
        lemma_line_end_is(s, start + 1, i);
    }
}

/// Finds the lines of `s`, as ranges of character indices.
pub fn line_ranges(s: &Vec<char>) -> (ranges: Vec<(usize, usize)>)
    ensures
        ranges_within(s@.len(), ranges@),
        range_texts(s@, ranges@) == text_lines(s@),
{
    let n = s.len();
    let mut ranges: Vec<(usize, usize)> = Vec::new();
    let mut start: usize = 0;
    let mut i: usize = 0;
    assert(range_texts(s@, ranges@) =~= Seq::<Seq<char>>::empty());
    assert(Seq::<Seq<char>>::empty() + lines_from(s@, 0) =~= lines_from(s@, 0));
    while i < n
        invariant
            n == s@.len(),
            start <= i <= n,
            forall|j: int| start <= j < i ==> s@[j] != '\n',
            ranges_within(n as nat, ranges@),
            range_texts(s@, ranges@) + lines_from(s@, start as int) == text_lines(s@),
        decreases n - i,
    {
        if s[i] == '\n' {
            let mut e: usize = i;
            if e > start && s[e - 1] == '\r' {
                e = e - 1;
            }
            proof {
                lemma_line_end_is(s@, start as int, i as int);
                let line = s@.subrange(start as int, i as int);
                assert(strip_carriage_return(line) =~= s@.subrange(start as int, e as int));
                let old_texts = range_texts(s@, ranges@);
                let new_texts = range_texts(s@, ranges@.push((start, e)));
                assert(new_texts =~= old_texts.push(s@.subrange(start as int, e as int)));
                assert(lines_from(s@, start as int) == seq![strip_carriage_return(line)]
                    + lines_from(s@, i + 1));
                assert(old_texts + lines_from(s@, start as int) =~= new_texts + lines_from(
                    s@,
                    i + 1,
                ));
            }
            ranges.push((start, e));
            start = i + 1;
        }
        i = i + 1;
    }
    if start < n {
        proof {
            lemma_line_end_is(s@, start as int, n as int);
            let old_texts = range_texts(s@, ranges@);
            let new_texts = range_texts(s@, ranges@.push((start, n)));
            assert(new_texts =~= old_texts.push(s@.subrange(start as int, n as int)));
            assert(lines_from(s@, start as int) == seq![s@.subrange(start as int, n as int)]);
            assert(old_texts + lines_from(s@, start as int) =~= new_texts);
        }
        ranges.push((start, n));
    } else {
        assert(range_texts(s@, ranges@) + Seq::<Seq<char>>::empty() =~= range_texts(s@, ranges@));
    }
    ranges
}

proof fn lemma_line_end_after_push(t: Seq<char>, i: int)
    requires
        0 <= i <= t.len(),
    ensures
        line_end(t.push('\n'), i) == line_end(t, i),
    decreases t.len() - i,
{
    if i < t.len() && t[i] != '\n' {
        lemma_line_end_after_push(t, i + 1);
    }
}

/// The lines of `t` followed by a line feed, from `start` on, are those of
/// `t`, with a carriage return at the end of the last one dropped.
proof fn lemma_lines_from_after_push(t: Seq<char>, start: int)
    requires
        0 <= start < t.len(),
        t.last() != '\n',
    ensures
        lines_from(t, start).len() > 0,
        lines_from(t.push('\n'), start) == lines_from(t, start).update(
            lines_from(t, start).len() - 1,
            strip_carriage_return(lines_from(t, start).last()),
        ),
    decreases t.len() - start,
{
    let s = t.push('\n');
    lemma_line_end_after_push(t, start);
    lemma_line_end_bounds(t, start);
    let e = line_end(t, start);
    assert(s.subrange(start, e) =~= t.subrange(start, e));
    if e < t.len() {
        assert(e + 1 < t.len());
        lemma_lines_from_after_push(t, e + 1);
        let rest = lines_from(t, e + 1);
        let head = strip_carriage_return(t.subrange(start, e));
        assert(lines_from(t, start) == seq![head] + rest);
        assert(lines_from(s, start) == seq![head] + lines_from(s, e + 1));
        assert(lines_from(s, start) =~= lines_from(t, start).update(
            lines_from(t, start).len() - 1,
            strip_carriage_return(lines_from(t, start).last()),
        ));
    } else {
        assert(lines_from(t, start) == seq![t.subrange(start, t.len() as int)]);
        assert(lines_from(s, t.len() as int + 1) == Seq::<Seq<char>>::empty());
        assert(lines_from(s, start) == seq![strip_carriage_return(t.subrange(start, t.len() as int))]
            + lines_from(s, t.len() as int + 1));
        assert(lines_from(s, start) =~= lines_from(t, start).update(
            0,
            strip_carriage_return(lines_from(t, start).last()),
        ));
    }
}

/// Ending a text with a line feed drops a carriage return at the end of its
/// last line and changes nothing else, when the text does not end with a line
/// feed already.
pub proof fn lemma_final_line_feed(t: Seq<char>)
    requires
        t.len() > 0,
        t.last() != '\n',
    ensures
        text_lines(t).len() > 0,
        text_lines(t.push('\n')) == text_lines(t).update(
            text_lines(t).len() - 1,
            strip_carriage_return(text_lines(t).last()),
        ),
{
    lemma_lines_from_after_push(t, 0);
}

/// The last line of a text that does not end with a line feed is the end
/// of the text.
proof fn lemma_last_line_ends_text(t: Seq<char>, start: int)
    requires
        0 <= start < t.len(),
    ensures
        lines_from(t, start).len() > 0,
        t.last() != '\n' ==> {
            let last = lines_from(t, start).last();
            last.len() > 0 && last.last() == t.last()
        },
    decreases t.len() - start,
{
    lemma_line_end_bounds(t, start);
    let e = line_end(t, start);
    if e < t.len() {
        if e + 1 < t.len() {
            lemma_last_line_ends_text(t, e + 1);
        }
    }
}

/// A final line ending is optional: a text that does not end with a line
/// ending has the same lines as the text followed by a line feed.
pub proof fn law_final_line_feed_is_optional(t: Seq<char>)
    requires
        t.len() > 0,
        t.last() != '\n',
        t.last() != '\r',
    ensures
        text_lines(t.push('\n')) == text_lines(t),
{
    lemma_final_line_feed(t);
    lemma_last_line_ends_text(t, 0);
    assert(text_lines(t.push('\n')) =~= text_lines(t));
}

/// Line feeds only separate lines: no line holds one.
pub proof fn law_lines_hold_no_line_feed(s: Seq<char>, k: int, j: int)
    requires
        0 <= k < text_lines(s).len(),
        0 <= j < text_lines(s)[k].len(),
    ensures
        text_lines(s)[k][j] != '\n',
{
    lemma_lines_hold_no_line_feed(s, 0, k, j);
}

proof fn lemma_lines_hold_no_line_feed(s: Seq<char>, start: int, k: int, j: int)
    requires
        0 <= start,
        0 <= k < lines_from(s, start).len(),
        0 <= j < lines_from(s, start)[k].len(),
    ensures
        lines_from(s, start)[k][j] != '\n',
    decreases s.len() - start,
{
    lemma_line_end_bounds(s, start);
    let e = line_end(s, start);
    if k > 0 {
        lemma_lines_hold_no_line_feed(s, e + 1, k - 1, j);
    }
}

/// Trailing white space makes no difference to `trim`.
pub proof fn lemma_trim_drops_trailing_white_space(l: Seq<char>)
    requires
        l.len() > 0,
        is_white_space(l.last()),
    ensures
        trim(l.drop_last()) == trim(l),
    decreases l.len(),
{
    if is_white_space(l[0]) {
        if l.len() > 1 {
            lemma_trim_drops_trailing_white_space(l.drop_first());
            assert(l.drop_last().drop_first() =~= l.drop_first().drop_last());
        } else {
            assert(l.drop_first() =~= Seq::<char>::empty());
            assert(l.drop_last() =~= Seq::<char>::empty());
        }
    } else {
        assert(l.drop_last()[0] == l[0]);
    }
}

/// Finds the part of the line `s[a..b]` that `trim` keeps.
pub fn trimmed_range(s: &Vec<char>, a: usize, b: usize) -> (r: (usize, usize))
    requires
        a <= b <= s@.len(),
    ensures
        a <= r.0 <= r.1 <= b,
        s@.subrange(r.0 as int, r.1 as int) == trim(s@.subrange(a as int, b as int)),
{
    let mut x: usize = a;
    while x < b && white_space(s[x])
        invariant
            a <= x <= b <= s@.len(),
            trim_start(s@.subrange(a as int, b as int)) == trim_start(
                s@.subrange(x as int, b as int),
            ),
        decreases b - x,
    {
        assert(s@.subrange(x as int, b as int).drop_first() =~= s@.subrange(x + 1, b as int));
        x = x + 1;
    }
    assert(trim_start(s@.subrange(a as int, b as int)) == s@.subrange(x as int, b as int));
    let mut y: usize = b;
    while y > x && white_space(s[y - 1])
        invariant
            a <= x <= y <= b <= s@.len(),
            trim_end(s@.subrange(x as int, b as int)) == trim_end(s@.subrange(x as int, y as int)),
        decreases y - x,
    {
        assert(s@.subrange(x as int, y as int).drop_last() =~= s@.subrange(x as int, y - 1));
        y = y - 1;
    }
    (x, y)
}

/// Finds where the part of `s[a..b]` after its leading byte order marks
/// starts.
pub fn skip_byte_order_marks(s: &Vec<char>, a: usize, b: usize) -> (x: usize)
    requires
        a <= b <= s@.len(),
    ensures
        a <= x <= b,
        s@.subrange(x as int, b as int) == strip_byte_order_marks(s@.subrange(a as int, b as int)),
{
    let mut x: usize = a;
    while x < b && s[x] == '\u{feff}'
        invariant
            a <= x <= b <= s@.len(),
            strip_byte_order_marks(s@.subrange(a as int, b as int)) == strip_byte_order_marks(
                s@.subrange(x as int, b as int),
            ),
        decreases b - x,
    {
        assert(s@.subrange(x as int, b as int).drop_first() =~= s@.subrange(x + 1, b as int));
        x = x + 1;
    }
    x
}

proof fn lemma_line_end_shift(p: Seq<char>, q: Seq<char>, i: int)
    requires
        0 <= i <= q.len(),
    ensures
        line_end(p + q, p.len() + i) == p.len() + line_end(q, i),
    decreases q.len() - i,
{
    if i < q.len() {
        assert((p + q)[p.len() + i] == q[i]);
        if q[i] != '\n' {
            lemma_line_end_shift(p, q, i + 1);
        }
    }
}

/// The lines of `p + q` from a start inside `q` are those of `q`.
proof fn lemma_lines_from_shift(p: Seq<char>, q: Seq<char>, i: int)
    requires
        0 <= i,
    ensures
        lines_from(p + q, p.len() + i) == lines_from(q, i),
    decreases q.len() - i,
{
    if i < q.len() {
        lemma_line_end_shift(p, q, i);
        lemma_line_end_bounds(q, i);
        let e = line_end(q, i);
        assert((p + q).subrange(p.len() + i, p.len() + e) =~= q.subrange(i, e));
        if e < q.len() {
            lemma_lines_from_shift(p, q, e + 1);
            assert(p.len() + e + 1 == p.len() + (e + 1));
        } else {
            assert((p + q).subrange(p.len() + i, (p + q).len() as int) =~= q.subrange(
                i,
                q.len() as int,
            ));
        }
    }
}

proof fn lemma_line_end_prefix(p: Seq<char>, q: Seq<char>, i: int)
    requires
        0 <= i <= p.len(),
        line_end(p, i) < p.len(),
    ensures
        line_end(p + q, i) == line_end(p, i),
    decreases p.len() - i,
{
    if p[i] != '\n' {
        lemma_line_end_prefix(p, q, i + 1);
    }
}

proof fn lemma_lines_from_concat(p: Seq<char>, q: Seq<char>, start: int)
    requires
        p.len() > 0,
        p.last() == '\n',
        0 <= start <= p.len(),
    ensures
        lines_from(p + q, start) == lines_from(p, start) + lines_from(q, 0),
    decreases p.len() - start,
{
    if start == p.len() {
        lemma_lines_from_shift(p, q, 0);
        assert(lines_from(p, start) + lines_from(q, 0) =~= lines_from(q, 0));
    } else {
        lemma_line_end_bounds(p, start);
        let e = line_end(p, start);
        if e == p.len() {
            assert(p[p.len() - 1] != '\n');
        }
        lemma_line_end_prefix(p, q, start);
        assert((p + q).subrange(start, e) =~= p.subrange(start, e));
        lemma_lines_from_concat(p, q, e + 1);
        let head = strip_carriage_return(p.subrange(start, e));
        assert(lines_from(p + q, start) == seq![head] + lines_from(p + q, e + 1));
        assert(lines_from(p, start) == seq![head] + lines_from(p, e + 1));
        assert(lines_from(p + q, start) =~= lines_from(p, start) + lines_from(q, 0));
    }
}

/// A text that ends with a line feed, followed by another text, has the
/// lines of the first followed by those of the second.
pub proof fn law_lines_of_joined_texts(p: Seq<char>, q: Seq<char>)
    requires
        p.len() == 0 || p.last() == '\n',
    ensures
        text_lines(p + q) == text_lines(p) + text_lines(q),
{
    if p.len() == 0 {
        assert(p + q =~= q);
        assert(text_lines(p) + text_lines(q) =~= text_lines(q));
    } else {
        lemma_lines_from_concat(p, q, 0);
    }
}

/// A text that is empty or ends with a line feed gains one empty line when
/// another line feed follows it.
pub proof fn lemma_extra_line_feed(t: Seq<char>)
    requires
        t.len() == 0 || t.last() == '\n',
    ensures
        text_lines(t.push('\n')) == text_lines(t).push(Seq::<char>::empty()),
{
    let nl = seq!['\n'];
    law_lines_of_joined_texts(t, nl);
    assert(t + nl =~= t.push('\n'));
    assert(line_end(nl, 0) == 0);
    assert(nl.subrange(0, 0) =~= Seq::<char>::empty());
    assert(lines_from(nl, 1) == Seq::<Seq<char>>::empty());
    assert(strip_carriage_return(Seq::<char>::empty()) == Seq::<char>::empty());
    assert(lines_from(nl, 0) == seq![strip_carriage_return(nl.subrange(0, 0))] + lines_from(nl, 1));
    assert(text_lines(nl) =~= seq![Seq::<char>::empty()]);
}

/// The lines of an ASCII text are ASCII.
pub proof fn lemma_lines_are_ascii(s: Seq<char>, start: int, k: int)
    requires
        is_ascii_chars(s),
        0 <= start,
        0 <= k < lines_from(s, start).len(),
    ensures
        is_ascii_chars(lines_from(s, start)[k]),
    decreases s.len() - start,
{
    lemma_line_end_bounds(s, start);
    let e = line_end(s, start);
    if k > 0 {
        lemma_lines_are_ascii(s, e + 1, k - 1);
    } else {
        let line = lines_from(s, start)[0];
        assert forall|j: int| 0 <= j < line.len() implies '\0' <= #[trigger] line[j] <= '\u{7f}' by {
            assert(line[j] == s[start + j]);
        }
    }
}

/// `trim_start` drops a prefix and stops at a character that is not white
/// space.
pub proof fn lemma_trim_start_range(l: Seq<char>) -> (a: int)
    ensures
        0 <= a <= l.len(),
        trim_start(l) == l.subrange(a, l.len() as int),
        a < l.len() ==> !is_white_space(l[a]),
    decreases l.len(),
{
    if l.len() > 0 && is_white_space(l[0]) {
        let a = lemma_trim_start_range(l.drop_first());
        assert(l.drop_first().subrange(a, l.drop_first().len() as int) =~= l.subrange(
            a + 1,
            l.len() as int,
        ));
        a + 1
    } else {
        assert(l.subrange(0, l.len() as int) =~= l);
        0
    }
}

/// `trim_end` drops a suffix and stops after a character that is not white
/// space.
pub proof fn lemma_trim_end_range(l: Seq<char>) -> (b: int)
    ensures
        0 <= b <= l.len(),
        trim_end(l) == l.subrange(0, b),
        b > 0 ==> !is_white_space(l[b - 1]),
    decreases l.len(),
{
    if l.len() > 0 && is_white_space(l.last()) {
        let b = lemma_trim_end_range(l.drop_last());
        assert(l.drop_last().subrange(0, b) =~= l.subrange(0, b));
        b
    } else {
        assert(l.subrange(0, l.len() as int) =~= l);
        l.len() as int
    }
}

/// A text holds no line feed.
pub open spec fn has_no_line_feed(s: Seq<char>) -> bool {
    forall|i: int| 0 <= i < s.len() ==> #[trigger] s[i] != '\n'
}

/// What `trim` leaves of an ASCII text without line feeds is such a text,
/// and starts and ends with a character that is not white space. A
/// byte order mark is not ASCII, so none is left to strip.
pub proof fn lemma_trimmed_ascii_line(l: Seq<char>)
    requires
        is_ascii_chars(l),
        has_no_line_feed(l),
    ensures
        strip_byte_order_marks(trim(l)) == trim(l),
        is_ascii_chars(trim(l)),
        has_no_line_feed(trim(l)),
        trim(l).len() > 0 ==> !is_white_space(trim(l)[0]) && !is_white_space(trim(l).last()),
{
    let a = lemma_trim_start_range(l);
    let m = trim_start(l);
    let b = lemma_trim_end_range(m);
    let t = trim(l);
    assert(t == l.subrange(a, a + b));
    assert forall|j: int| 0 <= j < t.len() implies '\0' <= #[trigger] t[j] <= '\u{7f}' && t[j]
        != '\n' by {
        assert(t[j] == l[a + j]);
    }
    if t.len() > 0 {
        assert(t[0] == m[0]);
        assert(!is_white_space(l[a]));
        assert(t.last() == m[b - 1]);
        assert(!is_byte_order_mark(t[0]));
    }
}

} // verus!
