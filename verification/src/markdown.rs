//! Markdown as the terminal shows it: block structure (code fences,
//! headings, bullet and numbered lists, paragraphs wrapped to a width) and
//! inline spans (code, bold, italic, links).

use vstd::prelude::*;
use crate::text::{
    chars_of, lemma_utf8_len_concat, lemma_utf8_len_ge_len, lemma_utf8_len_push, str_byte_len,
    string_from_chars, utf8_len,
};
use crate::theme::{Style, Theme};

verus! {

/// A piece of text drawn in one style.
#[derive(Debug, Clone)]
pub struct StyledSpan {
    pub content: String,
    pub style: Style,
}

/// A span as text and style.
pub type SpanV = (Seq<char>, Style);

/// A line as its spans.
pub type LineV = Seq<SpanV>;

impl View for StyledSpan {
    type V = SpanV;

    open spec fn view(&self) -> SpanV {
        (self.content@, self.style)
    }
}

pub open spec fn line_view(l: Seq<StyledSpan>) -> LineV {
    l.map_values(|s: StyledSpan| s@)
}

pub open spec fn lines_view(ls: Seq<Vec<StyledSpan>>) -> Seq<LineV> {
    ls.map_values(|l: Vec<StyledSpan>| line_view(l@))
}

pub open spec fn strings_view(v: Seq<String>) -> Seq<Seq<char>> {
    v.map_values(|s: String| s@)
}

pub open spec fn chars_view(v: Seq<Vec<char>>) -> Seq<Seq<char>> {
    v.map_values(|s: Vec<char>| s@)
}

/// A span of `text` in `style`.
pub fn span(text: String, style: Style) -> (s: StyledSpan)
    ensures
        s@ == (text@, style),
{
    StyledSpan { content: text, style }
}

// ---------------------------------------------------------------------
// Searching a character sequence
// ---------------------------------------------------------------------

/// Position of the first `d` in `s`, or the length of `s` when there is none.
pub open spec fn index_of(s: Seq<char>, d: char) -> int
    decreases s.len(),
{
    if s.len() == 0 {
        0
    } else if s[0] == d {
        0
    } else {
        1 + index_of(s.drop_first(), d)
    }
}

/// What comes before the first `d` (all of `s` when there is none).
pub open spec fn until(s: Seq<char>, d: char) -> Seq<char> {
    s.take(index_of(s, d))
}

/// What comes after the first `d` (nothing when there is none).
pub open spec fn after(s: Seq<char>, d: char) -> Seq<char> {
    if index_of(s, d) < s.len() {
        s.skip(index_of(s, d) + 1)
    } else {
        Seq::empty()
    }
}

pub proof fn lemma_index_of(s: Seq<char>, d: char)
    ensures
        0 <= index_of(s, d) <= s.len(),
        forall|j: int| 0 <= j < index_of(s, d) ==> s[j] != d,
        index_of(s, d) < s.len() ==> s[index_of(s, d)] == d,
        after(s, d).len() < s.len() || s.len() == 0,
    decreases s.len(),
{
    if s.len() > 0 && s[0] != d {
        lemma_index_of(s.drop_first(), d);
        assert forall|j: int| 0 <= j < index_of(s, d) implies s[j] != d by {
            if j > 0 {
                assert(s[j] == s.drop_first()[j - 1]);
            }
        }
    }
}

/// Any position before which no `d` occurs and at which `d` occurs (or the
/// end) is the position of the first `d`.
pub proof fn lemma_index_of_unique(s: Seq<char>, d: char, k: int)
    requires
        0 <= k <= s.len(),
        forall|j: int| 0 <= j < k ==> s[j] != d,
        k < s.len() ==> s[k] == d,
    ensures
        index_of(s, d) == k,
    decreases s.len(),
{
    if s.len() > 0 && k > 0 {
        assert(s[0] != d);
        assert forall|j: int| 0 <= j < k - 1 implies s.drop_first()[j] != d by {
            assert(s.drop_first()[j] == s[j + 1]);
        }
        lemma_index_of_unique(s.drop_first(), d, k - 1);
    }
}

/// First position `j >= start` with `v[j] == d`, or the length.
fn find_from(v: &Vec<char>, start: usize, d: char) -> (j: usize)
    requires
        start <= v@.len(),
    ensures
        start <= j <= v@.len(),
        j - start == index_of(v@.skip(start as int), d),
        until(v@.skip(start as int), d) == v@.subrange(start as int, j as int),
        j < v@.len() ==> after(v@.skip(start as int), d) == v@.skip(j + 1),
        j == v@.len() ==> after(v@.skip(start as int), d) == v@.skip(j as int),
{
    let n = v.len();
    let mut j = start;
    while j < n && v[j] != d
        invariant
            start <= j <= n,
            n == v@.len(),
            forall|i: int| start <= i < j ==> v@[i] != d,
        decreases n - j,
    {
        j = j + 1;
    }
    let ghost s = v@.skip(start as int);
    proof {
        assert forall|i: int| 0 <= i < j - start implies s[i] != d by {
            assert(s[i] == v@[start + i]);
        }
        if j < n {
            assert(s[j - start] == v@[j as int]);
        }
        lemma_index_of_unique(s, d, j - start);
        assert(s.take(j - start) =~= v@.subrange(start as int, j as int));
        if j < n {
            assert(s.skip(j - start + 1) =~= v@.skip(j + 1));
        } else {
            assert(v@.skip(j as int) =~= Seq::<char>::empty());
        }
    }
    j
}

/// Position of the first `d` in `v`, or its length.
pub fn find_in(v: &Vec<char>, d: char) -> (j: usize)
    ensures
        j == index_of(v@, d),
        j <= v@.len(),
        until(v@, d) == v@.take(j as int),
{
    assert(v@.skip(0) =~= v@);
    let j = find_from(v, 0, d);
    assert(v@.subrange(0, j as int) =~= v@.take(j as int));
    j
}

/// The characters `v[a..b]` as a vector.
pub(crate) fn copy_range(v: &Vec<char>, a: usize, b: usize) -> (r: Vec<char>)
    requires
        a <= b <= v@.len(),
    ensures
        r@ == v@.subrange(a as int, b as int),
{
    let mut r: Vec<char> = Vec::new();
    let mut i = a;
    while i < b
        invariant
            a <= i <= b <= v@.len(),
            r@ == v@.subrange(a as int, i as int),
        decreases b - i,
    {
        r.push(v[i]);
        assert(r@ =~= v@.subrange(a as int, i + 1));
        i = i + 1;
    }
    r
}

/// The characters `v[a..b]` as a string.
fn string_of_range(v: &Vec<char>, a: usize, b: usize) -> (s: String)
    requires
        a <= b <= v@.len(),
    ensures
        s@ == v@.subrange(a as int, b as int),
{
    let r = copy_range(v, a, b);
    string_from_chars(&r)
}

/// `s` begins with `p`.
pub open spec fn starts_with(s: Seq<char>, p: Seq<char>) -> bool {
    p.len() <= s.len() && s.take(p.len() as int) == p
}

fn has_prefix(v: &Vec<char>, p: &Vec<char>) -> (b: bool)
    ensures
        b == starts_with(v@, p@),
{
    if p.len() > v.len() {
        return false;
    }
    let mut i: usize = 0;
    while i < p.len()
        invariant
            p@.len() <= v@.len(),
            i <= p@.len(),
            forall|j: int| 0 <= j < i ==> v@[j] == p@[j],
        decreases p@.len() - i,
    {
        if v[i] != p[i] {
            assert(v@.take(p@.len() as int)[i as int] != p@[i as int]);
            return false;
        }
        i = i + 1;
    }
    assert(v@.take(p@.len() as int) =~= p@);
    true
}

// ---------------------------------------------------------------------
// Whitespace, words and wrapping
// ---------------------------------------------------------------------

/// Characters with the Unicode `White_Space` property, as `char::is_whitespace`
/// defines them.
pub open spec fn is_ws(c: char) -> bool {
    let v = c as u32;
    ||| 0x09 <= v <= 0x0D
    ||| v == 0x20
    ||| v == 0x85
    ||| v == 0xA0
    ||| v == 0x1680
    ||| 0x2000 <= v <= 0x200A
    ||| v == 0x2028
    ||| v == 0x2029
    ||| v == 0x202F
    ||| v == 0x205F
    ||| v == 0x3000
}

pub fn is_whitespace(c: char) -> (b: bool)
    ensures
        b == is_ws(c),
{
    let v = c as u32;
    (0x09 <= v && v <= 0x0D) || v == 0x20 || v == 0x85 || v == 0xA0 || v == 0x1680 || (0x2000
        <= v && v <= 0x200A) || v == 0x2028 || v == 0x2029 || v == 0x202F || v == 0x205F || v
        == 0x3000
}

/// The word being collected, if any, as a list of at most one word.
pub open spec fn pending(cur: Seq<char>) -> Seq<Seq<char>> {
    if cur.len() > 0 {
        seq![cur]
    } else {
        seq![]
    }
}

/// The maximal runs of non-whitespace characters of `s`, after the partly
/// collected word `cur`.
pub open spec fn words_from(s: Seq<char>, cur: Seq<char>) -> Seq<Seq<char>>
    decreases s.len(),
{
    if s.len() == 0 {
        pending(cur)
    } else if is_ws(s[0]) {
        pending(cur) + words_from(s.drop_first(), seq![])
    } else {
        words_from(s.drop_first(), cur.push(s[0]))
    }
}

/// The words of `s`, as `str::split_whitespace` yields them.
pub open spec fn words(s: Seq<char>) -> Seq<Seq<char>> {
    words_from(s, seq![])
}

/// Every word of `words_from(s, cur)` is non-empty when `cur` is.
proof fn lemma_words_nonempty(s: Seq<char>, cur: Seq<char>)
    ensures
        forall|i: int|
            0 <= i < words_from(s, cur).len() ==> #[trigger] words_from(s, cur)[i].len() > 0,
    decreases s.len(),
{
    let r = words_from(s, cur);
    if s.len() == 0 {
        assert(r == pending(cur));
    } else if is_ws(s[0]) {
        lemma_words_nonempty(s.drop_first(), seq![]);
        let a = pending(cur);
        let b = words_from(s.drop_first(), seq![]);
        assert(r == a + b);
        assert forall|i: int| 0 <= i < r.len() implies #[trigger] r[i].len() > 0 by {
            if i >= a.len() {
                assert(r[i] == b[i - a.len()]);
            } else {
                assert(r[i] == a[i]);
            }
        }
    } else {
        lemma_words_nonempty(s.drop_first(), cur.push(s[0]));
        assert(r == words_from(s.drop_first(), cur.push(s[0])));
    }
}

/// The words of `text`, each as a string.
pub fn split_words(text: &str) -> (ws: Vec<String>)
    ensures
        strings_view(ws@) == words(text@),
        forall|i: int| 0 <= i < ws@.len() ==> (#[trigger] ws@[i])@.len() > 0,
{
    let v = chars_of(text);
    let n = v.len();
    let mut ws: Vec<String> = Vec::new();
    let mut cur: Vec<char> = Vec::new();
    let mut i: usize = 0;
    proof {
        assert(v@.skip(0) =~= v@);
        assert(strings_view(ws@) =~= Seq::<Seq<char>>::empty());
        assert(Seq::<Seq<char>>::empty() + words_from(v@, cur@) =~= words_from(v@, cur@));
    }
    while i < n
        invariant
            i <= n,
            n == v@.len(),
            v@ == text@,
            words(text@) == strings_view(ws@) + words_from(v@.skip(i as int), cur@),
        decreases n - i,
    {
        let c = v[i];
        let ghost rest = v@.skip(i as int);
        let ghost ws0 = strings_view(ws@);
        proof {
            assert(rest[0] == c);
            assert(rest.drop_first() =~= v@.skip(i + 1));
        }
        if is_whitespace(c) {
            if cur.len() > 0 {
                let w = string_from_chars(&cur);
                ws.push(w);
                proof {
                    assert(strings_view(ws@) =~= ws0 + pending(cur@));
                    assert(ws0 + (pending(cur@) + words_from(v@.skip(i + 1), seq![])) =~= (ws0
                        + pending(cur@)) + words_from(v@.skip(i + 1), seq![]));
                }
                cur = Vec::new();
                proof {
                    assert(cur@ =~= Seq::<char>::empty());
                }
            } else {
                proof {
                    assert(cur@ =~= Seq::<char>::empty());
                    assert(pending(cur@) + words_from(v@.skip(i + 1), seq![]) =~= words_from(
                        v@.skip(i + 1),
                        seq![],
                    ));
                }
            }
        } else {
            cur.push(c);
        }
        i = i + 1;
    }
    let ghost ws0 = strings_view(ws@);
    proof {
        assert(v@.skip(n as int) =~= Seq::<char>::empty());
    }
    if cur.len() > 0 {
        let w = string_from_chars(&cur);
        ws.push(w);
        proof {
            assert(strings_view(ws@) =~= ws0 + pending(cur@));
        }
    } else {
        proof {
            assert(ws0 + pending(cur@) =~= ws0);
        }
    }
    proof {
        lemma_words_nonempty(text@, seq![]);
        assert forall|i: int| 0 <= i < ws@.len() implies (#[trigger] ws@[i])@.len() > 0 by {
            assert(strings_view(ws@)[i] == ws@[i]@);
        }
    }
    ws
}

/// Greedy wrapping of the words `ws` after the partly filled `line`: a word
/// joins the line, after one space, while the line's length in bytes stays
/// within `width`; otherwise the line is finished and the word starts the
/// next one. A word longer than `width` gets a line of its own.
pub open spec fn wrap_from(ws: Seq<Seq<char>>, width: nat, line: Seq<char>) -> Seq<Seq<char>>
    decreases ws.len(),
{
    if ws.len() == 0 {
        pending(line)
    } else if line.len() == 0 {
        wrap_from(ws.drop_first(), width, ws[0])
    } else if utf8_len(line) + 1 + utf8_len(ws[0]) <= width {
        wrap_from(ws.drop_first(), width, line + seq![' '] + ws[0])
    } else {
        seq![line] + wrap_from(ws.drop_first(), width, ws[0])
    }
}

/// The lines of `text` wrapped to `width` bytes: the whole text as one line
/// when `width` is 0, one empty line when the text has no words.
pub open spec fn wrap_spec(text: Seq<char>, width: nat) -> Seq<Seq<char>> {
    if width == 0 {
        seq![text]
    } else {
        let r = wrap_from(words(text), width, seq![]);
        if r.len() == 0 {
            seq![seq![]]
        } else {
            r
        }
    }
}

pub fn wrap_text(text: &str, width: usize) -> (lines: Vec<String>)
    ensures
        strings_view(lines@) == wrap_spec(text@, width as nat),
{
    if width == 0 {
        let mut lines: Vec<String> = Vec::new();
        lines.push(String::from_str(text));
        assert(strings_view(lines@) =~= seq![text@]);
        return lines;
    }
    let ws = split_words(text);
    let ghost all = words(text@);
    let mut lines: Vec<String> = Vec::new();
    let mut line: Vec<char> = Vec::new();
    let mut cw: usize = 0;
    let n = ws.len();
    let mut i: usize = 0;
    proof {
        assert(all.skip(0) =~= all);
        assert(strings_view(lines@) + wrap_from(all, width as nat, line@) =~= wrap_from(
            all,
            width as nat,
            seq![],
        ));
    }
    while i < n
        invariant
            i <= n,
            n == ws@.len(),
            strings_view(ws@) == all,
            width > 0,
            forall|j: int| 0 <= j < ws@.len() ==> (#[trigger] ws@[j])@.len() > 0,
            cw == utf8_len(line@),
            cw == 0 <==> line@.len() == 0,
            wrap_from(all, width as nat, seq![]) == strings_view(lines@) + wrap_from(
                all.skip(i as int),
                width as nat,
                line@,
            ),
        decreases n - i,
    {
        let w = &ws[i];
        let wl = str_byte_len(w.as_str());
        let ghost ww = w@;
        let ghost l0 = line@;
        let ghost done0 = strings_view(lines@);
        proof {
            assert(all[i as int] == ww);
            assert(all.skip(i as int)[0] == ww);
            assert(all.skip(i as int).drop_first() =~= all.skip(i + 1));
            lemma_utf8_len_ge_len(ww);
        }
        if cw == 0 {
            line = chars_of(w.as_str());
            cw = wl;
        } else if wl < width && cw <= width - 1 - wl {
            line.push(' ');
            let mut wc = chars_of(w.as_str());
            line.append(&mut wc);
            proof {
                lemma_utf8_len_push(l0, ' ');
                lemma_utf8_len_concat(l0.push(' '), ww);
                assert(line@ =~= l0 + seq![' '] + ww);
            }
            cw = cw + 1 + wl;
        } else {
            let done = string_from_chars(&line);
            lines.push(done);
            proof {
                assert(strings_view(lines@) =~= done0 + seq![l0]);
                assert(done0 + (seq![l0] + wrap_from(all.skip(i + 1), width as nat, ww)) =~= (
                done0 + seq![l0]) + wrap_from(all.skip(i + 1), width as nat, ww));
            }
            line = chars_of(w.as_str());
            cw = wl;
        }
        i = i + 1;
    }
    let ghost done0 = strings_view(lines@);
    proof {
        assert(all.skip(n as int) =~= Seq::<Seq<char>>::empty());
    }
    if line.len() > 0 {
        let last = string_from_chars(&line);
        lines.push(last);
        assert(strings_view(lines@) =~= done0 + pending(line@));
    } else {
        assert(done0 + pending(line@) =~= done0);
    }
    if lines.len() == 0 {
        lines.push(String::new());
        assert(strings_view(lines@) =~= seq![Seq::<char>::empty()]);
    }
    lines
}

/// `s` cut to at most `max` characters; a cut string ends in an ellipsis.
pub open spec fn truncate_spec(s: Seq<char>, max: nat) -> Seq<char> {
    if s.len() <= max {
        s
    } else if max > 1 {
        s.take(max - 1).push('\u{2026}')
    } else {
        seq!['\u{2026}']
    }
}

pub fn truncate_str(s: &str, max_width: usize) -> (r: String)
    ensures
        r@ == truncate_spec(s@, max_width as nat),
{
    let v = chars_of(s);
    if v.len() <= max_width {
        String::from_str(s)
    } else if max_width > 1 {
        let mut t = copy_range(&v, 0, max_width - 1);
        t.push('\u{2026}');
        assert(t@ =~= s@.take(max_width - 1).push('\u{2026}'));
        string_from_chars(&t)
    } else {
        let mut t: Vec<char> = Vec::new();
        t.push('\u{2026}');
        assert(t@ =~= seq!['\u{2026}']);
        string_from_chars(&t)
    }
}

// ---------------------------------------------------------------------
// Inline markdown
// ---------------------------------------------------------------------

/// Position of the first `**` in `s`, or the length of `s` when there is none.
pub open spec fn index_of_pair(s: Seq<char>) -> int
    decreases s.len(),
{
    if s.len() == 0 {
        0
    } else if s.len() > 1 && s[0] == '*' && s[1] == '*' {
        0
    } else {
        1 + index_of_pair(s.drop_first())
    }
}

/// What comes before the first `**` (all of `s` when there is none).
pub open spec fn until_pair(s: Seq<char>) -> Seq<char> {
    s.take(index_of_pair(s))
}

/// What comes after the first `**` (nothing when there is none).
pub open spec fn after_pair(s: Seq<char>) -> Seq<char> {
    if index_of_pair(s) < s.len() {
        s.skip(index_of_pair(s) + 2)
    } else {
        Seq::empty()
    }
}

pub open spec fn is_pair_at(s: Seq<char>, j: int) -> bool {
    0 <= j && j + 1 < s.len() && s[j] == '*' && s[j + 1] == '*'
}

pub proof fn lemma_index_of_pair(s: Seq<char>)
    ensures
        0 <= index_of_pair(s) <= s.len(),
        forall|j: int| 0 <= j < index_of_pair(s) ==> !is_pair_at(s, j),
        index_of_pair(s) < s.len() ==> is_pair_at(s, index_of_pair(s)),
        after_pair(s).len() < s.len() || s.len() == 0,
    decreases s.len(),
{
    if s.len() > 0 && !is_pair_at(s, 0) {
        lemma_index_of_pair(s.drop_first());
        assert forall|j: int| 0 <= j < index_of_pair(s) implies !is_pair_at(s, j) by {
            if j > 0 {
                assert(is_pair_at(s, j) == is_pair_at(s.drop_first(), j - 1));
            }
        }
        if index_of_pair(s) < s.len() {
            assert(is_pair_at(s.drop_first(), index_of_pair(s) - 1));
        }
    }
}

pub proof fn lemma_index_of_pair_unique(s: Seq<char>, k: int)
    requires
        0 <= k <= s.len(),
        forall|j: int| 0 <= j < k ==> !is_pair_at(s, j),
        k < s.len() ==> is_pair_at(s, k),
    ensures
        index_of_pair(s) == k,
    decreases s.len(),
{
    if s.len() > 0 && k > 0 {
        assert(!is_pair_at(s, 0));
        assert forall|j: int| 0 <= j < k - 1 implies !is_pair_at(s.drop_first(), j) by {
            assert(is_pair_at(s, j + 1) == is_pair_at(s.drop_first(), j));
        }
        if k < s.len() {
            assert(is_pair_at(s, k) == is_pair_at(s.drop_first(), k - 1));
        }
        lemma_index_of_pair_unique(s.drop_first(), k - 1);
    }
}

/// First position `j >= start` where `**` starts, or the length.
fn find_pair_from(v: &Vec<char>, start: usize) -> (j: usize)
    requires
        start <= v@.len(),
    ensures
        start <= j <= v@.len(),
        until_pair(v@.skip(start as int)) == v@.subrange(start as int, j as int),
        j < v@.len() ==> j + 2 <= v@.len() && after_pair(v@.skip(start as int)) == v@.skip(
            j + 2,
        ),
        j == v@.len() ==> after_pair(v@.skip(start as int)) == v@.skip(j as int),
{
    let n = v.len();
    let mut j = start;
    while j < n && !(j + 1 < n && v[j] == '*' && v[j + 1] == '*')
        invariant
            start <= j <= n,
            n == v@.len(),
            forall|i: int| start <= i < j ==> !is_pair_at(v@, i),
        decreases n - j,
    {
        j = j + 1;
    }
    let ghost s = v@.skip(start as int);
    proof {
        assert forall|i: int| 0 <= i < j - start implies !is_pair_at(s, i) by {
            assert(is_pair_at(s, i) == is_pair_at(v@, start + i));
        }
        if j < n {
            assert(is_pair_at(s, j - start) == is_pair_at(v@, j as int));
        }
        lemma_index_of_pair_unique(s, j - start);
        assert(s.take(j - start) =~= v@.subrange(start as int, j as int));
        if j < n {
            assert(s.skip(j - start + 2) =~= v@.skip(j + 2));
        } else {
            assert(v@.skip(j as int) =~= Seq::<char>::empty());
        }
    }
    j
}

/// What is left after a link's text: the `(...)` target that directly
/// follows a closed `[...]` is skipped.
pub open spec fn after_link(r: Seq<char>) -> Seq<char> {
    let rest = after(r, ']');
    if index_of(r, ']') < r.len() && rest.len() > 0 && rest[0] == '(' {
        after(rest.drop_first(), ')')
    } else {
        rest
    }
}

/// Plain inline text.
pub open spec fn plain_style() -> Style {
    Style::new().fg(Theme::TEXT_PRIMARY)
}

/// The plain text collected so far, as at most one span.
pub open spec fn flush(cur: Seq<char>) -> LineV {
    if cur.len() > 0 {
        seq![(cur, plain_style())]
    } else {
        seq![]
    }
}

/// The spans of the inline markdown `s`, after the plain text `cur`:
/// `` `code` ``, `**bold**`, `*italic*` or `_italic_`, and `[link](target)`,
/// where an unclosed construct runs to the end of the text.
pub open spec fn inline_from(s: Seq<char>, cur: Seq<char>) -> LineV
    decreases s.len(),
{
    if s.len() == 0 {
        flush(cur)
    } else {
        let ch = s[0];
        let r = s.drop_first();
        proof {
            lemma_index_of(r, '`');
            lemma_index_of(r, ch);
            lemma_index_of(r, ']');
            lemma_index_of(after(r, ']').drop_first(), ')');
            lemma_index_of_pair(r.drop_first());
        }
        if ch == '`' {
            flush(cur) + seq![(until(r, '`'), Style::new().fg(Theme::CODE).bg(Theme::BG_ELEVATED))]
                + inline_from(after(r, '`'), seq![])
        } else if ch == '*' && r.len() > 0 && r[0] == '*' {
            flush(cur) + seq![(until_pair(r.drop_first()), Style::new().fg(Theme::TEXT_PRIMARY).bold())]
                + inline_from(after_pair(r.drop_first()), seq![])
        } else if ch == '*' || ch == '_' {
            flush(cur) + seq![(until(r, ch), Style::new().fg(Theme::TEXT_SECONDARY).italic())]
                + inline_from(after(r, ch), seq![])
        } else if ch == '[' {
            flush(cur) + seq![(until(r, ']'), Style::new().fg(Theme::INFO).underlined())]
                + inline_from(after_link(r), seq![])
        } else {
            inline_from(r, cur.push(ch))
        }
    }
}

/// The spans of the inline markdown `s`; text without any yields one empty
/// span in the default style.
pub open spec fn inline_spans(s: Seq<char>) -> LineV {
    let r = inline_from(s, seq![]);
    if r.len() == 0 {
        seq![(Seq::<char>::empty(), Style::new())]
    } else {
        r
    }
}

fn flush_plain(spans: &mut Vec<StyledSpan>, cur: &mut Vec<char>)
    ensures
        line_view(final(spans)@) == line_view(old(spans)@) + flush(old(cur)@),
        final(cur)@.len() == 0,
{
    if cur.len() > 0 {
        let text = string_from_chars(cur);
        spans.push(span(text, Style::new().fg(Theme::TEXT_PRIMARY)));
        *cur = Vec::new();
        assert(line_view(spans@) =~= line_view(old(spans)@) + flush(old(cur)@));
    } else {
        assert(line_view(spans@) =~= line_view(old(spans)@) + flush(old(cur)@));
    }
}

/// Parses inline markdown into styled spans.
pub fn parse_inline_markdown(text: &str) -> (spans: Vec<StyledSpan>)
    ensures
        line_view(spans@) == inline_spans(text@),
{
    let v = chars_of(text);
    let n = v.len();
    let mut spans: Vec<StyledSpan> = Vec::new();
    let mut cur: Vec<char> = Vec::new();
    let mut i: usize = 0;
    proof {
        assert(v@.skip(0) =~= v@);
        assert(line_view(spans@) + inline_from(v@, cur@) =~= inline_from(v@, seq![]));
    }
    while i < n
        invariant
            i <= n,
            n == v@.len(),
            v@ == text@,
            inline_from(v@, seq![]) == line_view(spans@) + inline_from(v@.skip(i as int), cur@),
        decreases n - i,
    {
        let ch = v[i];
        let ghost s = v@.skip(i as int);
        let ghost r = s.drop_first();
        let ghost before = line_view(spans@);
        let ghost c0 = cur@;
        proof {
            assert(s[0] == ch);
            assert(r =~= v@.skip(i + 1));
        }
        if ch == '`' {
            let j = find_from(&v, i + 1, '`');
            flush_plain(&mut spans, &mut cur);
            let code = string_of_range(&v, i + 1, j);
            spans.push(span(code, Style::new().fg(Theme::CODE).bg(Theme::BG_ELEVATED)));
            i = if j < n { j + 1 } else { n };
            proof {
                assert(line_view(spans@) =~= before + flush(c0) + seq![(until(r, '`'), Style::new().fg(Theme::CODE).bg(Theme::BG_ELEVATED))]);
                assert(cur@ =~= Seq::<char>::empty());
            }
        } else if ch == '*' && i + 1 < n && v[i + 1] == '*' {
            proof {
                assert(r.drop_first() =~= v@.skip(i + 2));
            }
            let j = find_pair_from(&v, i + 2);
            flush_plain(&mut spans, &mut cur);
            let bold = string_of_range(&v, i + 2, j);
            spans.push(span(bold, Style::new().fg(Theme::TEXT_PRIMARY).bold()));
            i = if j < n { j + 2 } else { n };
            proof {
                assert(line_view(spans@) =~= before + flush(c0) + seq![(until_pair(r.drop_first()), Style::new().fg(Theme::TEXT_PRIMARY).bold())]);
                assert(cur@ =~= Seq::<char>::empty());
            }
        } else if ch == '*' || ch == '_' {
            let j = find_from(&v, i + 1, ch);
            flush_plain(&mut spans, &mut cur);
            let it = string_of_range(&v, i + 1, j);
            spans.push(span(it, Style::new().fg(Theme::TEXT_SECONDARY).italic()));
            i = if j < n { j + 1 } else { n };
            proof {
                assert(line_view(spans@) =~= before + flush(c0) + seq![(until(r, ch), Style::new().fg(Theme::TEXT_SECONDARY).italic())]);
                assert(cur@ =~= Seq::<char>::empty());
            }
        } else if ch == '[' {
            let j = find_from(&v, i + 1, ']');
            flush_plain(&mut spans, &mut cur);
            let link = string_of_range(&v, i + 1, j);
            spans.push(span(link, Style::new().fg(Theme::INFO).underlined()));
            if j < n {
                let k = j + 1;
                if k < n && v[k] == '(' {
                    let m = find_from(&v, k + 1, ')');
                    proof {
                        assert(after(r, ']').drop_first() =~= v@.skip(k + 1));
                    }
                    i = if m < n { m + 1 } else { n };
                } else {
                    i = k;
                }
            } else {
                i = n;
            }
            proof {
                assert(line_view(spans@) =~= before + flush(c0) + seq![(until(r, ']'), Style::new().fg(Theme::INFO).underlined())]);
                assert(cur@ =~= Seq::<char>::empty());
                assert(after_link(r) =~= v@.skip(i as int));
            }
        } else {
            cur.push(ch);
            i = i + 1;
        }
    }
    let ghost before = line_view(spans@);
    proof {
        assert(v@.skip(n as int) =~= Seq::<char>::empty());
    }
    flush_plain(&mut spans, &mut cur);
    if spans.len() == 0 {
        spans.push(span(String::new(), Style::new()));
        assert(line_view(spans@) =~= seq![(Seq::<char>::empty(), Style::new())]);
    }
    spans
}

// ---------------------------------------------------------------------
// Block markdown
// ---------------------------------------------------------------------

/// A line without its trailing carriage return, if it has one.
pub open spec fn strip_cr(l: Seq<char>) -> Seq<char> {
    if l.len() > 0 && l.last() == '\r' {
        l.drop_last()
    } else {
        l
    }
}

/// The lines of `s` as `str::lines` yields them: split at `\n`, a `\r`
/// before the `\n` dropped, no empty line after a final `\n`.
pub open spec fn lines_of(s: Seq<char>) -> Seq<Seq<char>>
    decreases s.len(),
{
    if s.len() == 0 {
        seq![]
    } else {
        proof {
            lemma_index_of(s, '\n');
        }
        if index_of(s, '\n') < s.len() {
            seq![strip_cr(until(s, '\n'))] + lines_of(after(s, '\n'))
        } else {
            seq![s]
        }
    }
}

/// Splits `v` into lines.
pub fn split_lines(v: &Vec<char>) -> (ls: Vec<Vec<char>>)
    ensures
        chars_view(ls@) == lines_of(v@),
{
    let n = v.len();
    let mut ls: Vec<Vec<char>> = Vec::new();
    let mut i: usize = 0;
    proof {
        assert(v@.skip(0) =~= v@);
        assert(chars_view(ls@) + lines_of(v@) =~= lines_of(v@));
    }
    while i < n
        invariant
            i <= n,
            n == v@.len(),
            lines_of(v@) == chars_view(ls@) + lines_of(v@.skip(i as int)),
        decreases n - i,
    {
        let ghost before = chars_view(ls@);
        let ghost i0 = i as int;
        let j = find_from(v, i, '\n');
        proof {
            lemma_index_of(v@.skip(i0), '\n');
        }
        if j < n {
            let mut line = copy_range(v, i, j);
            if line.len() > 0 && line[line.len() - 1] == '\r' {
                line.pop();
                assert(line@ =~= strip_cr(v@.subrange(i0, j as int)));
            }
            ls.push(line);
            i = j + 1;
            proof {
                assert(chars_view(ls@) =~= before + seq![strip_cr(until(v@.skip(i0), '\n'))]);
            }
        } else {
            let line = copy_range(v, i, n);
            ls.push(line);
            proof {
                assert(line@ =~= v@.skip(i0));
                assert(chars_view(ls@) =~= before + seq![v@.skip(i0)]);
                assert(v@.skip(n as int) =~= Seq::<char>::empty());
            }
            i = n;
        }
    }
    proof {
        assert(v@.skip(n as int) =~= Seq::<char>::empty());
        assert(chars_view(ls@) + Seq::<Seq<char>>::empty() =~= chars_view(ls@));
    }
    ls
}

/// The opening or closing line of a code block starts with three backticks.
pub open spec fn fence() -> Seq<char> {
    seq!['`', '`', '`']
}

/// `a - b`, or 0 when `b` exceeds `a`.
pub open spec fn sat_sub(a: nat, b: nat) -> nat {
    if a >= b {
        (a - b) as nat
    } else {
        0
    }
}

/// A line of a code block: a bar, then the code cut to the width left.
pub open spec fn code_line(l: Seq<char>, width: nat) -> LineV {
    seq![
        (seq!['\u{2502}', ' '], Style::new().fg(Theme::BORDER)),
        (truncate_spec(l, sat_sub(width, 2)), Style::new().fg(Theme::TEXT_SECONDARY).bg(Theme::BG_ELEVATED)),
    ]
}

pub open spec fn code_lines(code: Seq<Seq<char>>, width: nat) -> Seq<LineV> {
    code.map_values(|l: Seq<char>| code_line(l, width))
}

pub open spec fn is_digit(c: char) -> bool {
    '0' <= c <= '9'
}

/// Number of ASCII digits at the start of `l`.
pub open spec fn digit_run(l: Seq<char>) -> int
    decreases l.len(),
{
    if l.len() == 0 || !is_digit(l[0]) {
        0
    } else {
        1 + digit_run(l.drop_first())
    }
}

/// `l` is a numbered list item: at most three digits, then `. `.
pub open spec fn is_numbered(l: Seq<char>) -> bool {
    let k = digit_run(l);
    k <= 3 && k + 1 < l.len() && l[k] == '.' && l[k + 1] == ' '
}

pub open spec fn bullet() -> Seq<char> {
    seq![' ', ' ', '\u{2022}', ' ']
}

/// The rendered lines of one markdown line outside a code block.
pub open spec fn md_line(l: Seq<char>, width: nat) -> Seq<LineV> {
    if starts_with(l, seq!['#', '#', '#', ' ']) {
        seq![seq![(truncate_spec(l.skip(4), width), Style::new().fg(Theme::TEXT_PRIMARY).bold())]]
    } else if starts_with(l, seq!['#', '#', ' ']) {
        seq![seq![(truncate_spec(l.skip(3), width), Style::new().fg(Theme::GOLD).bold())]]
    } else if starts_with(l, seq!['#', ' ']) {
        seq![seq![(truncate_spec(l.skip(2), width), Style::new().fg(Theme::CRANBERRY).bold())]]
    } else if starts_with(l, seq!['-', ' ']) || starts_with(l, seq!['*', ' ']) {
        seq![seq![(bullet(), Style::new().fg(Theme::TEAL))] + inline_spans(l.skip(2))]
    } else if is_numbered(l) {
        let k = digit_run(l);
        seq![
            seq![(seq![' ', ' '] + l.take(k + 1) + seq![' '], Style::new().fg(Theme::TEAL))]
                + inline_spans(l.skip(k + 2)),
        ]
    } else if l.len() == 0 {
        seq![seq![]]
    } else {
        wrap_spec(l, width).map_values(|w: Seq<char>| inline_spans(w))
    }
}

/// The rendered lines of the markdown lines `ls`, inside a code block that
/// has collected `code` when `in_code` holds. A code block that is never
/// closed is shown as if it were.
pub open spec fn md_blocks(ls: Seq<Seq<char>>, width: nat, in_code: bool, code: Seq<Seq<char>>) -> Seq<
    LineV,
>
    decreases ls.len(),
{
    if ls.len() == 0 {
        if in_code {
            code_lines(code, width)
        } else {
            seq![]
        }
    } else {
        let l = ls[0];
        let rest = ls.drop_first();
        if starts_with(l, fence()) {
            if in_code {
                code_lines(code, width) + md_blocks(rest, width, false, seq![])
            } else {
                md_blocks(rest, width, true, seq![])
            }
        } else if in_code {
            md_blocks(rest, width, true, code.push(l))
        } else {
            md_line(l, width) + md_blocks(rest, width, false, seq![])
        }
    }
}

/// The rendered lines of the markdown `text` at `width` columns.
pub open spec fn markdown_spec(text: Seq<char>, width: nat) -> Seq<LineV> {
    md_blocks(lines_of(text), width, false, seq![])
}

fn chars_vec2(a: char, b: char) -> (v: Vec<char>)
    ensures
        v@ == seq![a, b],
{
    let mut v: Vec<char> = Vec::new();
    v.push(a);
    v.push(b);
    assert(v@ =~= seq![a, b]);
    v
}

fn code_line_exec(l: &Vec<char>, width: usize) -> (line: Vec<StyledSpan>)
    ensures
        line_view(line@) == code_line(l@, width as nat),
{
    let bar = string_from_chars(&chars_vec2('\u{2502}', ' '));
    let text = string_from_chars(l);
    let w = if width >= 2 { width - 2 } else { 0 };
    let cut = truncate_str(text.as_str(), w);
    let mut line: Vec<StyledSpan> = Vec::new();
    line.push(span(bar, Style::new().fg(Theme::BORDER)));
    line.push(span(cut, Style::new().fg(Theme::TEXT_SECONDARY).bg(Theme::BG_ELEVATED)));
    assert(line_view(line@) =~= code_line(l@, width as nat));
    line
}

fn push_code_lines(out: &mut Vec<Vec<StyledSpan>>, code: &Vec<Vec<char>>, width: usize)
    ensures
        lines_view(final(out)@) == lines_view(old(out)@) + code_lines(chars_view(code@), width as nat),
{
    let n = code.len();
    let mut i: usize = 0;
    while i < n
        invariant
            i <= n,
            n == code@.len(),
            lines_view(out@) == lines_view(old(out)@) + code_lines(chars_view(code@), width as nat).take(i as int),
        decreases n - i,
    {
        let line = code_line_exec(&code[i], width);
        let ghost before = lines_view(out@);
        out.push(line);
        proof {
            assert(lines_view(out@) =~= before + seq![line_view(line@)]);
            assert(code_lines(chars_view(code@), width as nat).take(i + 1) =~= code_lines(
                chars_view(code@),
                width as nat,
            ).take(i as int) + seq![code_line(code@[i as int]@, width as nat)]);
        }
        i = i + 1;
    }
    assert(code_lines(chars_view(code@), width as nat).take(n as int) =~= code_lines(
        chars_view(code@),
        width as nat,
    ));
}

/// One line holding a single span.
fn single(text: String, style: Style) -> (line: Vec<StyledSpan>)
    ensures
        line_view(line@) == seq![(text@, style)],
{
    let mut line: Vec<StyledSpan> = Vec::new();
    line.push(span(text, style));
    assert(line_view(line@) =~= seq![(text@, style)]);
    line
}

/// One line holding `first` followed by `rest`.
fn prepend(first: StyledSpan, rest: Vec<StyledSpan>) -> (line: Vec<StyledSpan>)
    ensures
        line_view(line@) == seq![first@] + line_view(rest@),
{
    let mut line: Vec<StyledSpan> = Vec::new();
    let ghost f = first@;
    line.push(first);
    let mut rest = rest;
    let ghost r = line_view(rest@);
    line.append(&mut rest);
    assert(line_view(line@) =~= seq![f] + r);
    line
}

fn digit_run_exec(l: &Vec<char>) -> (k: usize)
    ensures
        k == digit_run(l@),
{
    let n = l.len();
    let mut k: usize = 0;
    assert(l@.skip(0) =~= l@);
    while k < n && '0' <= l[k] && l[k] <= '9'
        invariant
            k <= n,
            n == l@.len(),
            digit_run(l@) == k + digit_run(l@.skip(k as int)),
        decreases n - k,
    {
        proof {
            let t = l@.skip(k as int);
            assert(t[0] == l@[k as int]);
            assert(t.drop_first() =~= l@.skip(k + 1));
        }
        k = k + 1;
    }
    proof {
        let t = l@.skip(k as int);
        if k < n {
            assert(t[0] == l@[k as int]);
        }
    }
    k
}

fn skip_string(l: &Vec<char>, k: usize) -> (s: String)
    requires
        k <= l@.len(),
    ensures
        s@ == l@.skip(k as int),
{
    let s = string_of_range(l, k, l.len());
    assert(l@.subrange(k as int, l@.len() as int) =~= l@.skip(k as int));
    s
}

/// The rendered lines of one markdown line outside a code block.
fn md_line_exec(l: &Vec<char>, width: usize) -> (out: Vec<Vec<StyledSpan>>)
    ensures
        lines_view(out@) == md_line(l@, width as nat),
{
    let n = l.len();
    let mut out: Vec<Vec<StyledSpan>> = Vec::new();
    let mut h3: Vec<char> = Vec::new();
    h3.push('#');
    h3.push('#');
    h3.push('#');
    h3.push(' ');
    let mut h2: Vec<char> = Vec::new();
    h2.push('#');
    h2.push('#');
    h2.push(' ');
    let h1 = chars_vec2('#', ' ');
    let dash = chars_vec2('-', ' ');
    let star = chars_vec2('*', ' ');
    assert(h3@ =~= seq!['#', '#', '#', ' ']);
    assert(h2@ =~= seq!['#', '#', ' ']);
    if has_prefix(l, &h3) {
        let t = truncate_str(skip_string(l, 4).as_str(), width);
        out.push(single(t, Style::new().fg(Theme::TEXT_PRIMARY).bold()));
    } else if has_prefix(l, &h2) {
        let t = truncate_str(skip_string(l, 3).as_str(), width);
        out.push(single(t, Style::new().fg(Theme::GOLD).bold()));
    } else if has_prefix(l, &h1) {
        let t = truncate_str(skip_string(l, 2).as_str(), width);
        out.push(single(t, Style::new().fg(Theme::CRANBERRY).bold()));
    } else if has_prefix(l, &dash) || has_prefix(l, &star) {
        let mut b: Vec<char> = Vec::new();
        b.push(' ');
        b.push(' ');
        b.push('\u{2022}');
        b.push(' ');
        assert(b@ =~= bullet());
        let head = span(string_from_chars(&b), Style::new().fg(Theme::TEAL));
        let spans = parse_inline_markdown(skip_string(l, 2).as_str());
        out.push(prepend(head, spans));
    } else {
        let k = digit_run_exec(l);
        if k <= 3 && k + 1 < n && l[k] == '.' && l[k + 1] == ' ' {
            let mut p: Vec<char> = Vec::new();
            p.push(' ');
            p.push(' ');
            let mut digits = copy_range(l, 0, k + 1);
            p.append(&mut digits);
            p.push(' ');
            assert(p@ =~= seq![' ', ' '] + l@.take(k + 1) + seq![' ']);
            let head = span(string_from_chars(&p), Style::new().fg(Theme::TEAL));
            let spans = parse_inline_markdown(skip_string(l, k + 2).as_str());
            out.push(prepend(head, spans));
        } else if n == 0 {
            out.push(Vec::new());
            assert(line_view(Seq::<StyledSpan>::empty()) =~= Seq::<SpanV>::empty());
        } else {
            let text = string_from_chars(l);
            let wrapped = wrap_text(text.as_str(), width);
            let ghost ws = strings_view(wrapped@);
            let m = wrapped.len();
            let mut i: usize = 0;
            while i < m
                invariant
                    i <= m,
                    m == wrapped@.len(),
                    ws == strings_view(wrapped@),
                    ws == wrap_spec(l@, width as nat),
                    lines_view(out@) == ws.take(i as int).map_values(|w: Seq<char>| inline_spans(w)),
                decreases m - i,
            {
                let spans = parse_inline_markdown(wrapped[i].as_str());
                let ghost before = lines_view(out@);
                let ghost sv = line_view(spans@);
                out.push(spans);
                proof {
                    assert(ws[i as int] == wrapped@[i as int]@);
                    assert(lines_view(out@) =~= before + seq![sv]);
                    assert(lines_view(out@) =~= ws.take(i + 1).map_values(|w: Seq<char>| inline_spans(w)));
                }
                i = i + 1;
            }
            assert(ws.take(m as int) =~= ws);
        }
    }
    assert(lines_view(out@) =~= md_line(l@, width as nat));
    out
}

/// Renders markdown into styled lines at `width` columns.
pub fn render_markdown(text: &str, width: usize) -> (lines: Vec<Vec<StyledSpan>>)
    ensures
        lines_view(lines@) == markdown_spec(text@, width as nat),
{
    let v = chars_of(text);
    let ls = split_lines(&v);
    let ghost all = chars_view(ls@);
    let mut lines: Vec<Vec<StyledSpan>> = Vec::new();
    let mut in_code = false;
    let mut code: Vec<Vec<char>> = Vec::new();
    let mut fence_v: Vec<char> = Vec::new();
    fence_v.push('`');
    fence_v.push('`');
    fence_v.push('`');
    assert(fence_v@ =~= fence());
    let n = ls.len();
    let mut i: usize = 0;
    proof {
        assert(all.skip(0) =~= all);
        assert(chars_view(code@) =~= Seq::<Seq<char>>::empty());
        assert(lines_view(lines@) + md_blocks(all, width as nat, false, seq![]) =~= md_blocks(
            all,
            width as nat,
            false,
            seq![],
        ));
    }
    while i < n
        invariant
            i <= n,
            n == ls@.len(),
            all == chars_view(ls@),
            all == lines_of(text@),
            fence_v@ == fence(),
            !in_code ==> code@.len() == 0,
            md_blocks(all, width as nat, false, seq![]) == lines_view(lines@) + md_blocks(
                all.skip(i as int),
                width as nat,
                in_code,
                chars_view(code@),
            ),
        decreases n - i,
    {
        let ghost rest = all.skip(i as int);
        let ghost before = lines_view(lines@);
        let ghost c0 = chars_view(code@);
        proof {
            assert(rest[0] == ls@[i as int]@);
            assert(rest.drop_first() =~= all.skip(i + 1));
        }
        if has_prefix(&ls[i], &fence_v) {
            if in_code {
                push_code_lines(&mut lines, &code, width);
                code = Vec::new();
                in_code = false;
                proof {
                    assert(chars_view(code@) =~= Seq::<Seq<char>>::empty());
                    assert(before + (code_lines(c0, width as nat) + md_blocks(all.skip(i + 1), width as nat, false, seq![])) =~= (before + code_lines(c0, width as nat)) + md_blocks(all.skip(i + 1), width as nat, false, seq![]));
                }
            } else {
                in_code = true;
                proof {
                    assert(c0 =~= Seq::<Seq<char>>::empty());
                }
            }
        } else if in_code {
            let line = copy_range(&ls[i], 0, ls[i].len());
            code.push(line);
            proof {
                assert(line@ =~= ls@[i as int]@);
                assert(chars_view(code@) =~= c0.push(ls@[i as int]@));
            }
        } else {
            let mut more = md_line_exec(&ls[i], width);
            let ghost m = lines_view(more@);
            lines.append(&mut more);
            proof {
                assert(lines_view(lines@) =~= before + m);
                assert(c0 =~= Seq::<Seq<char>>::empty());
                assert(before + (m + md_blocks(all.skip(i + 1), width as nat, false, seq![])) =~= (before + m) + md_blocks(all.skip(i + 1), width as nat, false, seq![]));
            }
        }
        i = i + 1;
    }
    proof {
        assert(all.skip(n as int) =~= Seq::<Seq<char>>::empty());
    }
    let ghost before = lines_view(lines@);
    if in_code {
        push_code_lines(&mut lines, &code, width);
    } else {
        assert(before + Seq::<LineV>::empty() =~= before);
    }
    lines
}

// ---------------------------------------------------------------------
// Laws of wrapping, truncation and inline parsing
// ---------------------------------------------------------------------

/// The lines `ls` joined with single spaces.
pub open spec fn join_spaced(ls: Seq<Seq<char>>) -> Seq<char>
    decreases ls.len(),
{
    if ls.len() == 0 {
        seq![]
    } else if ls.len() == 1 {
        ls[0]
    } else {
        ls[0] + seq![' '] + join_spaced(ls.drop_first())
    }
}

proof fn lemma_join_cons(a: Seq<char>, t: Seq<Seq<char>>)
    ensures
        join_spaced(seq![a] + t) == (if t.len() == 0 {
            a
        } else {
            a + seq![' '] + join_spaced(t)
        }),
{
    assert((seq![a] + t).drop_first() =~= t);
    assert((seq![a] + t)[0] == a);
}

proof fn lemma_wrap_from_nonempty(ws: Seq<Seq<char>>, width: nat, line: Seq<char>)
    requires
        line.len() > 0,
    ensures
        wrap_from(ws, width, line).len() > 0,
    decreases ws.len(),
{
    if ws.len() > 0 {
        if utf8_len(line) + 1 + utf8_len(ws[0]) <= width {
            lemma_wrap_from_nonempty(ws.drop_first(), width, line + seq![' '] + ws[0]);
        }
    }
}

proof fn lemma_wrap_from_join(ws: Seq<Seq<char>>, width: nat, line: Seq<char>)
    requires
        forall|i: int| 0 <= i < ws.len() ==> (#[trigger] ws[i]).len() > 0,
    ensures
        join_spaced(wrap_from(ws, width, line)) == join_spaced(pending(line) + ws),
    decreases ws.len(),
{
    if ws.len() == 0 {
        assert(pending(line) + ws =~= pending(line));
    } else {
        let w = ws[0];
        let rest = ws.drop_first();
        assert forall|i: int| 0 <= i < rest.len() implies (#[trigger] rest[i]).len() > 0 by {
            assert(rest[i] == ws[i + 1]);
        }
        assert(w.len() > 0);
        assert(ws =~= seq![w] + rest);
        if line.len() == 0 {
            lemma_wrap_from_join(rest, width, w);
            assert(pending(line) + ws =~= ws);
            assert(pending(w) + rest =~= ws);
        } else if utf8_len(line) + 1 + utf8_len(w) <= width {
            let joined = line + seq![' '] + w;
            lemma_wrap_from_join(rest, width, joined);
            assert(pending(joined) + rest =~= seq![joined] + rest);
            lemma_join_cons(joined, rest);
            assert(pending(line) + ws =~= seq![line] + (seq![w] + rest));
            lemma_join_cons(line, seq![w] + rest);
            lemma_join_cons(w, rest);
            if rest.len() == 0 {
                assert(joined == line + seq![' '] + w);
            } else {
                assert(joined + seq![' '] + join_spaced(rest) =~= line + seq![' '] + (w + seq![' ']
                    + join_spaced(rest)));
            }
        } else {
            lemma_wrap_from_join(rest, width, w);
            lemma_wrap_from_nonempty(rest, width, w);
            let tail = wrap_from(rest, width, w);
            lemma_join_cons(line, tail);
            assert(pending(w) + rest =~= ws);
            assert(pending(line) + ws =~= seq![line] + ws);
            lemma_join_cons(line, ws);
        }
    }
}

/// Wrapping breaks lines only between words: the wrapped lines joined with
/// single spaces are the words of the text joined with single spaces.
pub proof fn law_wrap_keeps_words(text: Seq<char>, width: nat)
    requires
        width > 0,
    ensures
        join_spaced(wrap_spec(text, width)) == join_spaced(words(text)),
{
    let ws = words(text);
    lemma_words_nonempty(text, seq![]);
    assert forall|i: int| 0 <= i < ws.len() implies (#[trigger] ws[i]).len() > 0 by {
        assert(words_from(text, seq![])[i].len() > 0);
    }
    lemma_wrap_from_join(ws, width, seq![]);
    assert(pending(Seq::<char>::empty()) + ws =~= ws);
    let r = wrap_from(ws, width, seq![]);
    if r.len() == 0 {
        assert(join_spaced(seq![Seq::<char>::empty()]) == Seq::<char>::empty());
    }
}

proof fn lemma_wrap_from_fit(ws: Seq<Seq<char>>, width: nat, line: Seq<char>, all: Seq<Seq<char>>)
    requires
        forall|i: int| 0 <= i < ws.len() ==> all.contains(#[trigger] ws[i]),
        line.len() == 0 || utf8_len(line) <= width || all.contains(line),
    ensures
        forall|i: int|
            0 <= i < wrap_from(ws, width, line).len() ==> utf8_len(
                #[trigger] wrap_from(ws, width, line)[i],
            ) <= width || all.contains(wrap_from(ws, width, line)[i]),
    decreases ws.len(),
{
    let r = wrap_from(ws, width, line);
    if ws.len() == 0 {
        if line.len() > 0 {
            assert(r == seq![line]);
            assert forall|i: int| 0 <= i < r.len() implies utf8_len(#[trigger] r[i]) <= width
                || all.contains(r[i]) by {
                assert(r[i] == line);
            }
        } else {
            assert(r.len() == 0);
        }
    } else {
        let w = ws[0];
        let rest = ws.drop_first();
        assert(all.contains(w));
        assert forall|i: int| 0 <= i < rest.len() implies all.contains(#[trigger] rest[i]) by {
            assert(rest[i] == ws[i + 1]);
        }
        if line.len() == 0 {
            lemma_wrap_from_fit(rest, width, w, all);
            assert(r == wrap_from(rest, width, w));
        } else if utf8_len(line) + 1 + utf8_len(w) <= width {
            let joined = line + seq![' '] + w;
            lemma_utf8_len_concat(line + seq![' '], w);
            lemma_utf8_len_push(line, ' ');
            assert(line + seq![' '] =~= line.push(' '));
            lemma_wrap_from_fit(rest, width, joined, all);
            assert(r == wrap_from(rest, width, joined));
        } else {
            lemma_wrap_from_fit(rest, width, w, all);
            let tail = wrap_from(rest, width, w);
            assert(r == seq![line] + tail);
            assert forall|i: int| 0 <= i < r.len() implies utf8_len(#[trigger] r[i]) <= width
                || all.contains(r[i]) by {
                if i > 0 {
                    assert(r[i] == tail[i - 1]);
                } else {
                    assert(r[i] == line);
                }
            }
        }
    }
}

/// Every wrapped line fits in the width, except a line that holds a single
/// word longer than the width.
pub proof fn law_wrap_lines_fit(text: Seq<char>, width: nat)
    requires
        width > 0,
    ensures
        forall|i: int|
            0 <= i < wrap_spec(text, width).len() ==> utf8_len(#[trigger] wrap_spec(text, width)[i])
                <= width || words(text).contains(wrap_spec(text, width)[i]),
{
    let ws = words(text);
    assert forall|i: int| 0 <= i < ws.len() implies ws.contains(#[trigger] ws[i]) by {}
    lemma_wrap_from_fit(ws, width, seq![], ws);
    let r = wrap_from(ws, width, seq![]);
    if r.len() == 0 {
        assert(wrap_spec(text, width) == seq![Seq::<char>::empty()]);
        assert(utf8_len(Seq::<char>::empty()) == 0);
    }
}

/// A cut string is exactly `max` characters long (one when `max` is 0 or
/// 1), and all but its final ellipsis is the start of the uncut string.
pub proof fn law_truncate(s: Seq<char>, max: nat)
    ensures
        s.len() <= max ==> truncate_spec(s, max) == s,
        s.len() > max ==> truncate_spec(s, max).len() == (if max > 1 {
            max
        } else {
            1
        }),
        s.len() > max ==> truncate_spec(s, max).last() == '\u{2026}',
        s.len() > max ==> truncate_spec(s, max).drop_last() == s.take(
            truncate_spec(s, max).len() - 1,
        ),
{
    if s.len() > max {
        if max > 1 {
            assert(truncate_spec(s, max).drop_last() =~= s.take(max - 1));
        } else {
            assert(truncate_spec(s, max).drop_last() =~= s.take(0));
        }
    }
}

/// The characters that start inline markup.
pub open spec fn is_markup(c: char) -> bool {
    c == '`' || c == '*' || c == '_' || c == '['
}

proof fn lemma_inline_plain(s: Seq<char>, cur: Seq<char>)
    requires
        forall|i: int| 0 <= i < s.len() ==> !is_markup(#[trigger] s[i]),
    ensures
        inline_from(s, cur) == flush(cur + s),
    decreases s.len(),
{
    if s.len() == 0 {
        assert(cur + s =~= cur);
    } else {
        assert(!is_markup(s[0]));
        let r = s.drop_first();
        assert forall|i: int| 0 <= i < r.len() implies !is_markup(#[trigger] r[i]) by {
            assert(r[i] == s[i + 1]);
        }
        lemma_inline_plain(r, cur.push(s[0]));
        assert(cur.push(s[0]) + r =~= cur + s);
    }
}

/// Text without markup characters is one plain span, unchanged.
pub proof fn law_plain_text_one_span(s: Seq<char>)
    requires
        s.len() > 0,
        forall|i: int| 0 <= i < s.len() ==> !is_markup(#[trigger] s[i]),
    ensures
        inline_spans(s) == seq![(s, plain_style())],
{
    lemma_inline_plain(s, seq![]);
    assert(Seq::<char>::empty() + s =~= s);
}

proof fn lemma_code_lines_collect(code: Seq<Seq<char>>, tail: Seq<Seq<char>>, width: nat, acc: Seq<Seq<char>>)
    requires
        forall|i: int| 0 <= i < code.len() ==> !starts_with(#[trigger] code[i], fence()),
    ensures
        md_blocks(code + tail, width, true, acc) == md_blocks(tail, width, true, acc + code),
    decreases code.len(),
{
    if code.len() == 0 {
        assert(code + tail =~= tail);
        assert(acc + code =~= acc);
    } else {
        let rest = code.drop_first();
        assert forall|i: int| 0 <= i < rest.len() implies !starts_with(#[trigger] rest[i], fence()) by {
            assert(rest[i] == code[i + 1]);
        }
        assert((code + tail)[0] == code[0]);
        assert((code + tail).drop_first() =~= rest + tail);
        lemma_code_lines_collect(rest, tail, width, acc.push(code[0]));
        assert(acc.push(code[0]) + rest =~= acc + code);
    }
}

/// The lines between two code fences are shown as code, each cut to the
/// width, and never read as markdown.
pub proof fn law_code_block_verbatim(
    open: Seq<char>,
    code: Seq<Seq<char>>,
    close: Seq<char>,
    rest: Seq<Seq<char>>,
    width: nat,
)
    requires
        starts_with(open, fence()),
        starts_with(close, fence()),
        forall|i: int| 0 <= i < code.len() ==> !starts_with(#[trigger] code[i], fence()),
    ensures
        md_blocks(seq![open] + code + seq![close] + rest, width, false, seq![]) == code_lines(
            code,
            width,
        ) + md_blocks(rest, width, false, seq![]),
{
    let all = seq![open] + code + seq![close] + rest;
    assert(all[0] == open);
    assert(all.drop_first() =~= code + (seq![close] + rest));
    lemma_code_lines_collect(code, seq![close] + rest, width, seq![]);
    assert(Seq::<Seq<char>>::empty() + code =~= code);
    let t = seq![close] + rest;
    assert(t[0] == close);
    assert(t.drop_first() =~= rest);
}

/// A line ended by "\r\n" is the text before the "\r\n", without the
/// carriage return, and the lines after it are those of the rest; a line
/// ended by a bare "\n" is likewise the text before it.
pub proof fn law_line_endings(a: Seq<char>, b: Seq<char>)
    requires
        forall|i: int| 0 <= i < a.len() ==> a[i] != '\n',
    ensures
        lines_of(a + seq!['\r', '\n'] + b) == seq![a] + lines_of(b),
        !(a.len() > 0 && a.last() == '\r') ==> lines_of(a + seq!['\n'] + b) == seq![a] + lines_of(
            b,
        ),
        !(a.len() > 0 && a.last() == '\r') ==> lines_of(a + seq!['\r', '\n'] + b) == lines_of(
            a + seq!['\n'] + b,
        ),
{
    let s1 = a + seq!['\r', '\n'] + b;
    assert forall|j: int| 0 <= j < a.len() + 1 implies s1[j] != '\n' by {
        if j < a.len() {
            assert(s1[j] == a[j]);
        } else {
            assert(s1[j] == '\r');
        }
    }
    assert(s1[a.len() + 1int] == '\n');
    lemma_index_of_unique(s1, '\n', a.len() + 1int);
    assert(until(s1, '\n') =~= a.push('\r'));
    assert(a.push('\r').drop_last() =~= a);
    assert(after(s1, '\n') =~= b);
    let s2 = a + seq!['\n'] + b;
    assert forall|j: int| 0 <= j < a.len() implies s2[j] != '\n' by {
        assert(s2[j] == a[j]);
    }
    assert(s2[a.len() as int] == '\n');
    lemma_index_of_unique(s2, '\n', a.len() as int);
    assert(until(s2, '\n') =~= a);
    assert(after(s2, '\n') =~= b);
}

} // verus!
