//! Monospace word wrapping of a text into printable lines.
use vstd::prelude::*;
use vstd::string::*;

verus! {

/// The characters that `char::is_whitespace` reports (Unicode `White_Space`).
pub open spec fn is_space(c: char) -> bool {
    c == ' ' || c == '\t' || c == '\n' || c == '\u{0B}' || c == '\u{0C}' || c == '\r'
        || c == '\u{85}' || c == '\u{A0}' || c == '\u{1680}' || ('\u{2000}' <= c && c
        <= '\u{200A}') || c == '\u{2028}' || c == '\u{2029}' || c == '\u{202F}' || c
        == '\u{205F}' || c == '\u{3000}'
}

/// First position at or after `i` that holds no whitespace, or the end of `s`.
pub open spec fn skip_space(s: Seq<char>, i: int) -> int
    decreases s.len() - i,
{
    if 0 <= i < s.len() && is_space(s[i]) {
        skip_space(s, i + 1)
    } else {
        i
    }
}

/// Position of the first line break at or after `i`, or the end of `s`.
pub open spec fn line_end(s: Seq<char>, i: int) -> int
    decreases s.len() - i,
{
    if 0 <= i < s.len() && s[i] != '\n' {
        line_end(s, i + 1)
    } else if i < s.len() {
        i
    } else {
        s.len() as int
    }
}

/// End of `s[a..e]` once trailing whitespace is removed.
pub open spec fn trim_back(s: Seq<char>, a: int, e: int) -> int
    decreases e - a,
{
    if a < e && is_space(s[e - 1]) {
        trim_back(s, a, e - 1)
    } else if a < e {
        e
    } else {
        a
    }
}

/// Position of the last whitespace in `s[a..e]`, or `a` where there is none past `a`.
pub open spec fn last_space(s: Seq<char>, a: int, e: int) -> int
    decreases e - a,
{
    if a < e && !is_space(s[e - 1]) {
        last_space(s, a, e - 1)
    } else if a < e {
        e - 1
    } else {
        a
    }
}

/// Where the line that starts at `a` ends: the whole rest of the text line when it
/// fits in `w`; otherwise the width itself when a word ends there, else the last
/// whitespace inside the window, else a hard cut at the width.
pub open spec fn cut_point(s: Seq<char>, a: int, w: int) -> int {
    let m = trim_back(s, a, line_end(s, a));
    if m - a <= w {
        m
    } else if is_space(s[a + w]) {
        a + w
    } else if last_space(s, a, a + w) > a {
        last_space(s, a, a + w)
    } else {
        a + w
    }
}

/// The lines that wrapping `s` from position `i` on at width `w` produces.
pub open spec fn wrap_from(s: Seq<char>, i: int, w: int) -> Seq<Seq<char>>
    decreases s.len() - i,
{
    let a = skip_space(s, i);
    let c = cut_point(s, a, w);
    if w < 1 || i < 0 || a >= s.len() || c <= i || c > s.len() {
        seq![]
    } else {
        seq![s.subrange(a, trim_back(s, a, c))] + wrap_from(s, c, w)
    }
}

/// The lines of `text` wrapped at width `w`, in reading order.
pub open spec fn wrap_text(text: Seq<char>, w: int) -> Seq<Seq<char>> {
    wrap_from(text, 0, w)
}

/// The character sequences that a vector of strings holds.
pub open spec fn string_views(v: Seq<String>) -> Seq<Seq<char>> {
    v.map_values(|l: String| l@)
}

proof fn lemma_skip_space_bounds(s: Seq<char>, i: int)
    requires
        0 <= i <= s.len(),
    ensures
        i <= skip_space(s, i) <= s.len(),
        skip_space(s, i) < s.len() ==> !is_space(s[skip_space(s, i)]),
    decreases s.len() - i,
{
    if i < s.len() && is_space(s[i]) {
        lemma_skip_space_bounds(s, i + 1);
    }
}

proof fn lemma_line_end_bounds(s: Seq<char>, i: int)
    requires
        0 <= i <= s.len(),
    ensures
        i <= line_end(s, i) <= s.len(),
    decreases s.len() - i,
{
    if i < s.len() && s[i] != '\n' {
        lemma_line_end_bounds(s, i + 1);
    }
}

proof fn lemma_trim_back_bounds(s: Seq<char>, a: int, e: int)
    requires
        0 <= a <= e <= s.len(),
    ensures
        a <= trim_back(s, a, e) <= e,
        a < trim_back(s, a, e) ==> !is_space(s[trim_back(s, a, e) - 1]),
    decreases e - a,
{
    if a < e && is_space(s[e - 1]) {
        lemma_trim_back_bounds(s, a, e - 1);
    }
}

proof fn lemma_last_space_bounds(s: Seq<char>, a: int, e: int)
    requires
        0 <= a <= e <= s.len(),
    ensures
        a <= last_space(s, a, e) <= e,
        last_space(s, a, e) > a ==> last_space(s, a, e) < e && is_space(s[last_space(s, a, e)]),
    decreases e - a,
{
    if a < e && !is_space(s[e - 1]) {
        lemma_last_space_bounds(s, a, e - 1);
    }
}

/// A line starting at a non-space position ends strictly after it and within `s`.
proof fn lemma_cut_point_bounds(s: Seq<char>, a: int, w: int)
    requires
        0 <= a < s.len(),
        !is_space(s[a]),
        w >= 1,
    ensures
        a < cut_point(s, a, w) <= s.len(),
        cut_point(s, a, w) - a <= w,
        a < trim_back(s, a, cut_point(s, a, w)),
{
    lemma_line_end_bounds(s, a);
    let le = line_end(s, a);
    lemma_trim_back_bounds(s, a, le);
    // s[a] is not a line break since it is not whitespace
    lemma_line_end_bounds(s, a + 1);
    assert(le > a);
    lemma_trim_back_keeps_word(s, a, le);
    let m = trim_back(s, a, le);
    if m - a > w {
        lemma_last_space_bounds(s, a, a + w);
    }
    let c = cut_point(s, a, w);
    lemma_trim_back_keeps_word(s, a, c);
}

/// Trimming the back of `s[a..e]` never goes below a non-space at `a`.
proof fn lemma_trim_back_keeps_word(s: Seq<char>, a: int, e: int)
    requires
        0 <= a < e <= s.len(),
        !is_space(s[a]),
    ensures
        a < trim_back(s, a, e),
    decreases e - a,
{
    if is_space(s[e - 1]) {
        lemma_trim_back_keeps_word(s, a, e - 1);
    }
}

/// The characters of `s` that are not whitespace, in order.
pub open spec fn visible(s: Seq<char>) -> Seq<char>
    decreases s.len(),
{
    if s.len() == 0 {
        seq![]
    } else if is_space(s[0]) {
        visible(s.drop_first())
    } else {
        seq![s[0]] + visible(s.drop_first())
    }
}

/// The lines laid end to end.
pub open spec fn concat_lines(lines: Seq<Seq<char>>) -> Seq<char>
    decreases lines.len(),
{
    if lines.len() == 0 {
        seq![]
    } else {
        lines[0] + concat_lines(lines.drop_first())
    }
}

proof fn lemma_visible_add(a: Seq<char>, b: Seq<char>)
    ensures
        visible(a + b) == visible(a) + visible(b),
    decreases a.len(),
{
    if a.len() == 0 {
        assert(a + b =~= b);
    } else {
        assert((a + b).drop_first() =~= a.drop_first() + b);
        lemma_visible_add(a.drop_first(), b);
    }
}

proof fn lemma_visible_blank(s: Seq<char>)
    requires
        forall|k: int| 0 <= k < s.len() ==> is_space(#[trigger] s[k]),
    ensures
        visible(s) == Seq::<char>::empty(),
    decreases s.len(),
{
    if s.len() > 0 {
        lemma_visible_blank(s.drop_first());
    }
}

proof fn lemma_skip_space_blank(s: Seq<char>, i: int)
    requires
        0 <= i <= s.len(),
    ensures
        forall|k: int| i <= k < skip_space(s, i) ==> is_space(#[trigger] s[k]),
    decreases s.len() - i,
{
    if i < s.len() && is_space(s[i]) {
        lemma_skip_space_blank(s, i + 1);
    }
}

proof fn lemma_trim_back_blank(s: Seq<char>, a: int, e: int)
    requires
        0 <= a <= e <= s.len(),
    ensures
        forall|k: int| trim_back(s, a, e) <= k < e ==> is_space(#[trigger] s[k]),
    decreases e - a,
{
    if a < e && is_space(s[e - 1]) {
        lemma_trim_back_blank(s, a, e - 1);
    }
}

proof fn lemma_wrap_from_correct(s: Seq<char>, i: int, w: int)
    requires
        0 <= i <= s.len(),
        w >= 1,
    ensures
        forall|k: int|
            0 <= k < wrap_from(s, i, w).len() ==> 1 <= (#[trigger] wrap_from(s, i, w)[k]).len()
                <= w && !is_space(wrap_from(s, i, w)[k].first()) && !is_space(
                wrap_from(s, i, w)[k].last(),
            ),
        visible(concat_lines(wrap_from(s, i, w))) == visible(s.subrange(i, s.len() as int)),
    decreases s.len() - i,
{
    let n = s.len() as int;
    let a = skip_space(s, i);
    lemma_skip_space_bounds(s, i);
    lemma_skip_space_blank(s, i);
    assert(s.subrange(i, n) =~= s.subrange(i, a) + s.subrange(a, n));
    lemma_visible_add(s.subrange(i, a), s.subrange(a, n));
    lemma_visible_blank(s.subrange(i, a));
    if a >= n {
        lemma_visible_blank(s.subrange(a, n));
        assert(concat_lines(wrap_from(s, i, w)) =~= seq![]);
    } else {
        let c = cut_point(s, a, w);
        lemma_cut_point_bounds(s, a, w);
        let e = trim_back(s, a, c);
        lemma_trim_back_bounds(s, a, c);
        lemma_trim_back_blank(s, a, c);
        lemma_wrap_from_correct(s, c, w);
        let line = s.subrange(a, e);
        let rest = wrap_from(s, c, w);
        let all = wrap_from(s, i, w);
        assert(all == seq![line] + rest);
        assert(all.drop_first() =~= rest);
        assert(concat_lines(all) == line + concat_lines(rest));
        assert(s.subrange(a, n) =~= line + s.subrange(e, c) + s.subrange(c, n));
        lemma_visible_add(line + s.subrange(e, c), s.subrange(c, n));
        lemma_visible_add(line, s.subrange(e, c));
        lemma_visible_blank(s.subrange(e, c));
        lemma_visible_add(line, concat_lines(rest));
        assert(visible(line + s.subrange(e, c)) =~= visible(line));
        assert forall|k: int| 0 <= k < all.len() implies 1 <= (#[trigger] all[k]).len() <= w
            && !is_space(all[k].first()) && !is_space(all[k].last()) by {
            if k > 0 {
                assert(all[k] == rest[k - 1]);
            }
        }
    }
}

/// Wrapping keeps every line within the width and loses nothing but whitespace:
/// each line holds between one and `w` characters and starts and ends with a
/// character that is not whitespace (a word longer than `w` is cut into pieces of
/// at most `w`), and the lines laid end to end hold the same non-whitespace
/// characters, in the same order, as the text itself.
pub proof fn lemma_wrap_correct(text: Seq<char>, w: int)
    requires
        w >= 1,
    ensures
        forall|k: int|
            0 <= k < wrap_text(text, w).len() ==> 1 <= (#[trigger] wrap_text(text, w)[k]).len()
                <= w && !is_space(wrap_text(text, w)[k].first()) && !is_space(
                wrap_text(text, w)[k].last(),
            ),
        visible(concat_lines(wrap_text(text, w))) == visible(text),
{
    lemma_wrap_from_correct(text, 0, w);
    assert(text.subrange(0, text.len() as int) =~= text);
}

/// Length of the run of non-whitespace characters at the start of `s`.
pub open spec fn word_len(s: Seq<char>) -> nat
    decreases s.len(),
{
    if s.len() == 0 || is_space(s[0]) {
        0
    } else {
        1 + word_len(s.drop_first())
    }
}

/// The words of `s`: its maximal runs of non-whitespace characters, in order.
pub open spec fn words(s: Seq<char>) -> Seq<Seq<char>>
    decreases s.len(),
{
    if s.len() == 0 {
        seq![]
    } else if is_space(s[0]) {
        words(s.drop_first())
    } else if word_len(s) == 0 || word_len(s) > s.len() {
        seq![]
    } else {
        seq![s.take(word_len(s) as int)] + words(s.skip(word_len(s) as int))
    }
}

/// The words of each line, one line after the other.
pub open spec fn words_of_lines(lines: Seq<Seq<char>>) -> Seq<Seq<char>>
    decreases lines.len(),
{
    if lines.len() == 0 {
        seq![]
    } else {
        words(lines[0]) + words_of_lines(lines.drop_first())
    }
}

/// No `w + 1` consecutive characters of `s` are all non-whitespace: no word is
/// longer than `w`.
pub open spec fn words_fit(s: Seq<char>, w: int) -> bool {
    forall|j: int| 0 <= j && j + w < s.len() ==> #[trigger] space_within(s, j, j + w)
}

/// Some character of `s[j..=e]` is whitespace.
pub open spec fn space_within(s: Seq<char>, j: int, e: int) -> bool {
    exists|t: int| j <= t <= e && is_space(#[trigger] s[t])
}

proof fn lemma_word_len(s: Seq<char>)
    ensures
        word_len(s) <= s.len(),
        forall|k: int| 0 <= k < word_len(s) ==> !is_space(#[trigger] s[k]),
        word_len(s) < s.len() ==> is_space(s[word_len(s) as int]),
    decreases s.len(),
{
    if s.len() > 0 && !is_space(s[0]) {
        lemma_word_len(s.drop_first());
        assert forall|k: int| 0 <= k < word_len(s) implies !is_space(#[trigger] s[k]) by {
            if k > 0 {
                assert(s[k] == s.drop_first()[k - 1]);
            }
        }
    }
}

proof fn lemma_word_len_append(x: Seq<char>, y: Seq<char>)
    ensures
        word_len(x) < x.len() ==> word_len(x + y) == word_len(x),
        word_len(x) == x.len() ==> word_len(x + y) == x.len() + word_len(y),
    decreases x.len(),
{
    lemma_word_len(x);
    if x.len() == 0 {
        assert(x + y =~= y);
    } else if !is_space(x[0]) {
        assert((x + y).drop_first() =~= x.drop_first() + y);
        lemma_word_len_append(x.drop_first(), y);
    }
}

proof fn lemma_words_blank(s: Seq<char>)
    requires
        forall|k: int| 0 <= k < s.len() ==> is_space(#[trigger] s[k]),
    ensures
        words(s) == Seq::<Seq<char>>::empty(),
    decreases s.len(),
{
    if s.len() > 0 {
        lemma_words_blank(s.drop_first());
    }
}

/// Words do not run across a boundary that touches whitespace.
proof fn lemma_words_append(x: Seq<char>, y: Seq<char>)
    requires
        x.len() == 0 || y.len() == 0 || is_space(x.last()) || is_space(y[0]),
    ensures
        words(x + y) == words(x) + words(y),
    decreases x.len(),
{
    if x.len() == 0 {
        assert(x + y =~= y);
        assert(words(x) + words(y) =~= words(y));
    } else if y.len() == 0 {
        assert(x + y =~= x);
        assert(words(x) + words(y) =~= words(x));
    } else if is_space(x[0]) {
        assert((x + y).drop_first() =~= x.drop_first() + y);
        lemma_words_append(x.drop_first(), y);
    } else {
        lemma_word_len(x);
        lemma_word_len(x + y);
        lemma_word_len_append(x, y);
        let b = word_len(x) as int;
        if b < x.len() {
            assert((x + y).take(b) =~= x.take(b));
            assert((x + y).skip(b) =~= x.skip(b) + y);
            assert(x.skip(b).last() == x.last());
            lemma_words_append(x.skip(b), y);
            assert(words(x + y) == seq![x.take(b)] + words(x.skip(b) + y));
            assert(seq![x.take(b)] + (words(x.skip(b)) + words(y)) =~= (seq![x.take(b)]
                + words(x.skip(b))) + words(y));
        } else {
            // x is one word, so y starts with whitespace
            assert(!is_space(x[x.len() - 1]));
            assert(word_len(y) == 0);
            assert((x + y).take(b) =~= x);
            assert((x + y).skip(b) =~= y);
            assert(x.skip(b) =~= Seq::<char>::empty());
            assert(x.take(b) =~= x);
            assert(words(x) =~= seq![x]);
        }
    }
}

proof fn lemma_last_space_none(s: Seq<char>, a: int, e: int)
    requires
        0 <= a <= e <= s.len(),
        last_space(s, a, e) == a,
    ensures
        forall|t: int| a < t < e ==> !is_space(#[trigger] s[t]),
    decreases e - a,
{
    if a < e && !is_space(s[e - 1]) {
        lemma_last_space_none(s, a, e - 1);
    }
}

/// The line that starts at `a` ends where the text ends or at whitespace, unless a
/// word longer than `w` had to be cut.
proof fn lemma_cut_at_space(s: Seq<char>, a: int, w: int)
    requires
        0 <= a < s.len(),
        !is_space(s[a]),
        w >= 1,
        words_fit(s, w),
    ensures
        cut_point(s, a, w) == s.len() || is_space(s[cut_point(s, a, w)]),
{
    lemma_line_end_bounds(s, a);
    let le = line_end(s, a);
    lemma_trim_back_bounds(s, a, le);
    lemma_line_end_stop(s, a);
    let m = trim_back(s, a, le);
    lemma_trim_back_blank(s, a, le);
    if m - a <= w {
        if m < le {
            assert(is_space(s[m]));
        } else if le < s.len() {
            assert(s[le] == '\n');
        }
    } else if !is_space(s[a + w]) {
        lemma_last_space_bounds(s, a, a + w);
        if last_space(s, a, a + w) == a {
            lemma_last_space_none(s, a, a + w);
            assert(space_within(s, a, a + w));
            let t = choose|t: int| a <= t <= a + w && is_space(#[trigger] s[t]);
            assert(is_space(s[t]));
        }
    }
}

proof fn lemma_line_end_stop(s: Seq<char>, i: int)
    requires
        0 <= i <= s.len(),
    ensures
        line_end(s, i) < s.len() ==> s[line_end(s, i)] == '\n',
    decreases s.len() - i,
{
    if i < s.len() && s[i] != '\n' {
        lemma_line_end_stop(s, i + 1);
    }
}

proof fn lemma_words_of_wrap_from(s: Seq<char>, i: int, w: int)
    requires
        0 <= i <= s.len(),
        w >= 1,
        words_fit(s, w),
        i == 0 || i == s.len() || is_space(s[i]),
    ensures
        words_of_lines(wrap_from(s, i, w)) == words(s.subrange(i, s.len() as int)),
    decreases s.len() - i,
{
    let n = s.len() as int;
    let a = skip_space(s, i);
    lemma_skip_space_bounds(s, i);
    lemma_skip_space_blank(s, i);
    let blank = s.subrange(i, a);
    lemma_words_blank(blank);
    assert(s.subrange(i, n) =~= blank + s.subrange(a, n));
    if a >= n {
        lemma_words_blank(s.subrange(i, n));
        assert(words_of_lines(wrap_from(s, i, w)) =~= seq![]);
    } else {
        lemma_words_append(blank, s.subrange(a, n));
        assert(words(blank) + words(s.subrange(a, n)) =~= words(s.subrange(a, n)));
        let c = cut_point(s, a, w);
        lemma_cut_point_bounds(s, a, w);
        lemma_cut_at_space(s, a, w);
        let e = trim_back(s, a, c);
        lemma_trim_back_bounds(s, a, c);
        lemma_trim_back_blank(s, a, c);
        lemma_words_of_wrap_from(s, c, w);
        let line = s.subrange(a, e);
        let gap = s.subrange(e, c);
        let rest = s.subrange(c, n);
        let all = wrap_from(s, i, w);
        assert(all == seq![line] + wrap_from(s, c, w));
        assert(all.drop_first() =~= wrap_from(s, c, w));
        assert(s.subrange(a, n) =~= line + (gap + rest));
        lemma_words_blank(gap);
        lemma_words_append(gap, rest);
        assert(words(gap) + words(rest) =~= words(rest));
        if gap.len() > 0 {
            assert(is_space(gap[0]));
        } else if rest.len() > 0 {
            assert(gap + rest =~= rest);
            assert(is_space(rest[0]));
        }
        lemma_words_append(line, gap + rest);
    }
}

/// Where no word is longer than the width, wrapping splits no word and joins none:
/// the words of the lines, line after line, are the words of the text.
pub proof fn lemma_wrap_keeps_words(text: Seq<char>, w: int)
    requires
        w >= 1,
        words_fit(text, w),
    ensures
        words_of_lines(wrap_text(text, w)) == words(text),
{
    lemma_words_of_wrap_from(text, 0, w);
    assert(text.subrange(0, text.len() as int) =~= text);
}

proof fn lemma_line_end_past(s: Seq<char>, a: int, e: int)
    requires
        0 <= a <= e < s.len(),
        forall|t: int| a <= t <= e ==> !is_space(#[trigger] s[t]),
    ensures
        line_end(s, a) > e,
    decreases e - a,
{
    if a < e {
        lemma_line_end_past(s, a + 1, e);
    }
    assert(s[a] != '\n');
    lemma_line_end_bounds(s, a + 1);
}

proof fn lemma_trim_back_past(s: Seq<char>, a: int, e: int, t: int)
    requires
        0 <= a <= t < e <= s.len(),
        !is_space(s[t]),
    ensures
        trim_back(s, a, e) > t,
    decreases e - a,
{
    if is_space(s[e - 1]) {
        lemma_trim_back_past(s, a, e - 1, t);
    }
}

proof fn lemma_last_space_word(s: Seq<char>, a: int, e: int)
    requires
        0 <= a <= e <= s.len(),
        forall|t: int| a <= t < e ==> !is_space(#[trigger] s[t]),
    ensures
        last_space(s, a, e) == a,
    decreases e - a,
{
    if a < e {
        lemma_last_space_word(s, a, e - 1);
    }
}

/// A word longer than the width is cut at exactly the width: when the text from `i`
/// on, past its leading whitespace, starts with more than `w` non-whitespace
/// characters, the next line is the first `w` of them and the lines after it are
/// those of the text from the cut on, so the following line resumes inside the word.
pub proof fn lemma_hard_cut(s: Seq<char>, i: int, w: int)
    requires
        0 <= i <= s.len(),
        w >= 1,
        skip_space(s, i) + w < s.len(),
        forall|t: int|
            skip_space(s, i) <= t <= skip_space(s, i) + w ==> !is_space(#[trigger] s[t]),
    ensures
        wrap_from(s, i, w).len() > 0,
        wrap_from(s, i, w)[0] == s.subrange(skip_space(s, i), skip_space(s, i) + w),
        wrap_from(s, i, w).drop_first() == wrap_from(s, skip_space(s, i) + w, w),
        skip_space(s, skip_space(s, i) + w) == skip_space(s, i) + w,
{
    let a = skip_space(s, i);
    lemma_skip_space_bounds(s, i);
    lemma_line_end_past(s, a, a + w);
    lemma_line_end_bounds(s, a);
    let le = line_end(s, a);
    lemma_trim_back_past(s, a, le, a + w);
    lemma_last_space_word(s, a, a + w);
    assert(cut_point(s, a, w) == a + w);
    lemma_trim_back_past(s, a, a + w, a + w - 1);
    lemma_trim_back_bounds(s, a, a + w);
    let all = wrap_from(s, i, w);
    assert(all == seq![s.subrange(a, a + w)] + wrap_from(s, a + w, w));
    assert(all.drop_first() =~= wrap_from(s, a + w, w));
}

/// Whether `c` is whitespace in the sense of [`is_space`].
pub fn is_space_char(c: char) -> (r: bool)
    ensures
        r == is_space(c),
{
    c == ' ' || c == '\t' || c == '\n' || c == '\u{0B}' || c == '\u{0C}' || c == '\r' || c
        == '\u{85}' || c == '\u{A0}' || c == '\u{1680}' || ('\u{2000}' <= c && c <= '\u{200A}')
        || c == '\u{2028}' || c == '\u{2029}' || c == '\u{202F}' || c == '\u{205F}' || c
        == '\u{3000}'
}

fn chars_of(text: &str) -> (r: Vec<char>)
    ensures
        r@ == text@,
{
    let n = text.unicode_len();
    let mut r: Vec<char> = Vec::new();
    let mut i: usize = 0;
    while i < n
        invariant
            n == text@.len(),
            i <= n,
            r@ == text@.subrange(0, i as int),
        decreases n - i,
    {
        let c = text.get_char(i);
        r.push(c);
        i = i + 1;
        assert(r@ =~= text@.subrange(0, i as int));
    }
    assert(r@ =~= text@);
    r
}

fn skip_space_at(s: &Vec<char>, i: usize) -> (r: usize)
    requires
        i <= s@.len(),
    ensures
        r == skip_space(s@, i as int),
{
    let mut j = i;
    while j < s.len() && is_space_char(s[j])
        invariant
            i <= j <= s@.len(),
            skip_space(s@, j as int) == skip_space(s@, i as int),
        decreases s@.len() - j,
    {
        j = j + 1;
    }
    j
}

fn line_end_at(s: &Vec<char>, i: usize) -> (r: usize)
    requires
        i <= s@.len(),
    ensures
        r == line_end(s@, i as int),
{
    let mut j = i;
    while j < s.len() && s[j] != '\n'
        invariant
            i <= j <= s@.len(),
            line_end(s@, j as int) == line_end(s@, i as int),
        decreases s@.len() - j,
    {
        j = j + 1;
    }
    j
}

fn trim_back_at(s: &Vec<char>, a: usize, e: usize) -> (r: usize)
    requires
        a <= e <= s@.len(),
    ensures
        r == trim_back(s@, a as int, e as int),
{
    let mut j = e;
    while a < j && is_space_char(s[j - 1])
        invariant
            a <= j <= e,
            e <= s@.len(),
            trim_back(s@, a as int, j as int) == trim_back(s@, a as int, e as int),
        decreases j,
    {
        j = j - 1;
    }
    j
}

fn last_space_at(s: &Vec<char>, a: usize, e: usize) -> (r: usize)
    requires
        a <= e <= s@.len(),
    ensures
        r == last_space(s@, a as int, e as int),
{
    let mut j = e;
    while a < j && !is_space_char(s[j - 1])
        invariant
            a <= j <= e,
            e <= s@.len(),
            last_space(s@, a as int, j as int) == last_space(s@, a as int, e as int),
        decreases j,
    {
        j = j - 1;
    }
    if a < j {
        j - 1
    } else {
        a
    }
}

fn cut_point_at(s: &Vec<char>, a: usize, w: usize) -> (r: usize)
    requires
        a < s@.len(),
        !is_space(s@[a as int]),
        w >= 1,
    ensures
        r == cut_point(s@, a as int, w as int),
{
    proof {
        lemma_line_end_bounds(s@, a as int);
        lemma_trim_back_bounds(s@, a as int, line_end(s@, a as int));
    }
    let m = trim_back_at(s, a, line_end_at(s, a));
    if m - a <= w {
        m
    } else if is_space_char(s[a + w]) {
        a + w
    } else {
        let k = last_space_at(s, a, a + w);
        if k > a {
            k
        } else {
            a + w
        }
    }
}

/// Wraps `text` into lines of at most `max_width` characters, in reading order.
///
/// Each line of the text is wrapped on its own: leading and trailing whitespace is
/// dropped, a line ends at the width where a word ends there, otherwise at the last
/// whitespace inside the width, and a word longer than the width is cut. Lines hold
/// no leading or trailing whitespace; an empty or blank text gives no lines.
pub fn format(text: &str, max_width: usize) -> (lines: Vec<String>)
    requires
        max_width >= 1,
    ensures
        string_views(lines@) == wrap_text(text@, max_width as int),
{
    let s = chars_of(text);
    let n = s.len();
    let ghost w = max_width as int;
    let mut lines: Vec<String> = Vec::new();
    let mut i: usize = 0;
    while i < n
        invariant
            s@ == text@,
            n == s@.len(),
            i <= n,
            max_width >= 1,
            w == max_width as int,
            string_views(lines@) + wrap_from(s@, i as int, w) == wrap_from(s@, 0, w),
        decreases n - i,
    {
        let a = skip_space_at(&s, i);
        proof {
            lemma_skip_space_bounds(s@, i as int);
        }
        if a >= n {
            assert(wrap_from(s@, i as int, w) =~= seq![]);
            assert(wrap_from(s@, n as int, w) =~= seq![]);
            assert(string_views(lines@) + wrap_from(s@, n as int, w) =~= string_views(lines@)
                + wrap_from(s@, i as int, w));
            i = n;
            continue;
        }
        let c = cut_point_at(&s, a, max_width);
        proof {
            lemma_cut_point_bounds(s@, a as int, w);
            lemma_trim_back_bounds(s@, a as int, c as int);
        }
        let e = trim_back_at(&s, a, c);
        let line = text.substring_char(a, e).to_owned();
        let ghost before = lines@;
        lines.push(line);
        proof {
            assert(string_views(lines@) =~= string_views(before).push(line@));
            assert(wrap_from(s@, i as int, w) == seq![s@.subrange(a as int, e as int)] + wrap_from(
                s@,
                c as int,
                w,
            ));
            assert(string_views(lines@) + wrap_from(s@, c as int, w) =~= string_views(before)
                + wrap_from(s@, i as int, w));
        }
        i = c;
    }
    proof {
        assert(wrap_from(s@, i as int, w) =~= seq![]);
        assert(string_views(lines@) =~= string_views(lines@) + wrap_from(s@, i as int, w));
    }
    lines
}

} // verus!
