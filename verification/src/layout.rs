//! The text of each screen, line by line: the chat transcript with its
//! status, help and input bars, the rows of the list views, and the splash
//! spinner. Where these lines go on the terminal is left to the drawing code.

use vstd::prelude::*;
use crate::acp::{ExtensionInfo, ProviderInfo, SessionInfo};
use crate::chat::{word_wrap, ChatMessage, ChatState, MessageRole, ToolCallDisplay};
use crate::markdown::{
    line_view, lines_view, markdown_spec, render_markdown, span, strings_view, wrap_spec,
    LineV, StyledSpan,
};
use crate::text::{chars_of, string_from_chars};
use crate::theme::{Style, Theme};

verus! {

// ---------------------------------------------------------------------
// Numbers and fixed pieces of text
// ---------------------------------------------------------------------

pub open spec fn digit_char(d: nat) -> char {
    seq!['0', '1', '2', '3', '4', '5', '6', '7', '8', '9'][d as int]
}

/// The decimal digits of `n`, without leading zeros.
pub open spec fn decimal(n: nat) -> Seq<char>
    decreases n,
{
    if n < 10 {
        seq![digit_char(n)]
    } else {
        decimal(n / 10).push(digit_char(n % 10))
    }
}

fn digit(d: u64) -> (c: char)
    requires
        d < 10,
    ensures
        c == digit_char(d as nat),
{
    match d {
        0 => '0',
        1 => '1',
        2 => '2',
        3 => '3',
        4 => '4',
        5 => '5',
        6 => '6',
        7 => '7',
        8 => '8',
        _ => '9',
    }
}

fn push_decimal(out: &mut Vec<char>, n: u64)
    ensures
        final(out)@ == old(out)@ + decimal(n as nat),
    decreases n,
{
    if n >= 10 {
        push_decimal(out, n / 10);
    }
    let ghost mid = out@;
    out.push(digit(n % 10));
    proof {
        if n >= 10 {
            assert(out@ =~= old(out)@ + decimal(n as nat));
        } else {
            assert(out@ =~= old(out)@ + decimal(n as nat));
        }
    }
}

/// `n` written in decimal, as `format!("{}", n)` writes it.
pub fn decimal_string(n: usize) -> (s: String)
    ensures
        s@ == decimal(n as nat),
{
    let mut v: Vec<char> = Vec::new();
    push_decimal(&mut v, n as u64);
    assert(v@ =~= decimal(n as nat));
    string_from_chars(&v)
}

/// Four spaces, the indent of message bodies.
pub open spec fn indent() -> Seq<char> {
    seq![' ', ' ', ' ', ' ']
}

fn spaces(n: usize) -> (v: Vec<char>)
    ensures
        v@ == Seq::new(n as nat, |i: int| ' '),
{
    let mut v: Vec<char> = Vec::new();
    let mut i: usize = 0;
    while i < n
        invariant
            i <= n,
            v@ == Seq::new(i as nat, |j: int| ' '),
        decreases n - i,
    {
        v.push(' ');
        i = i + 1;
        assert(v@ =~= Seq::new(i as nat, |j: int| ' '));
    }
    v
}

fn chars_from(a: &Vec<char>, b: &Vec<char>) -> (v: Vec<char>)
    ensures
        v@ == a@ + b@,
{
    let mut v: Vec<char> = Vec::new();
    let mut i: usize = 0;
    while i < a.len()
        invariant
            i <= a@.len(),
            v@ == a@.take(i as int),
        decreases a@.len() - i,
    {
        v.push(a[i]);
        i = i + 1;
        assert(v@ =~= a@.take(i as int));
    }
    let mut j: usize = 0;
    while j < b.len()
        invariant
            j <= b@.len(),
            i == a@.len(),
            v@ == a@ + b@.take(j as int),
        decreases b@.len() - j,
    {
        v.push(b[j]);
        j = j + 1;
        assert(v@ =~= a@ + b@.take(j as int));
    }
    assert(a@.take(a@.len() as int) =~= a@);
    assert(b@.take(b@.len() as int) =~= b@);
    v
}

/// The characters of `s` followed by those of `t`.
fn concat_str(s: &str, t: &str) -> (r: String)
    ensures
        r@ == s@ + t@,
{
    let a = chars_of(s);
    let b = chars_of(t);
    let v = chars_from(&a, &b);
    string_from_chars(&v)
}

// ---------------------------------------------------------------------
// Spinners
// ---------------------------------------------------------------------

/// The frames of the working spinner.
pub open spec fn work_frames() -> Seq<char> {
    seq![
        '\u{28FE}',
        '\u{28FD}',
        '\u{28FB}',
        '\u{28BF}',
        '\u{287F}',
        '\u{28DF}',
        '\u{28EF}',
        '\u{28F7}',
    ]
}

/// The working spinner's frame at `tick`.
pub open spec fn work_frame(tick: u64) -> char {
    work_frames()[(tick % 8) as int]
}

pub fn work_spinner(tick: u64) -> (c: char)
    ensures
        c == work_frame(tick),
{
    match tick % 8 {
        0 => '\u{28FE}',
        1 => '\u{28FD}',
        2 => '\u{28FB}',
        3 => '\u{28BF}',
        4 => '\u{287F}',
        5 => '\u{28DF}',
        6 => '\u{28EF}',
        _ => '\u{28F7}',
    }
}

/// The frames of the splash screen's spinner.
pub open spec fn splash_frames() -> Seq<char> {
    seq![
        '\u{280B}',
        '\u{2819}',
        '\u{2839}',
        '\u{2838}',
        '\u{283C}',
        '\u{2834}',
        '\u{2826}',
        '\u{2827}',
        '\u{2807}',
        '\u{280F}',
    ]
}

/// The splash spinner's frame at `tick`; it turns every second tick.
pub open spec fn splash_frame(tick: u64) -> char {
    splash_frames()[(((tick as usize) / 2) % 10) as int]
}

pub fn splash_spinner(tick: u64) -> (c: char)
    ensures
        c == splash_frame(tick),
{
    let i = ((tick as usize) / 2) % 10;
    match i {
        0 => '\u{280B}',
        1 => '\u{2819}',
        2 => '\u{2839}',
        3 => '\u{2838}',
        4 => '\u{283C}',
        5 => '\u{2834}',
        6 => '\u{2826}',
        7 => '\u{2827}',
        8 => '\u{2807}',
        _ => '\u{280F}',
    }
}

// ---------------------------------------------------------------------
// The chat transcript
// ---------------------------------------------------------------------

/// An empty line.
pub open spec fn blank() -> LineV {
    seq![]
}

/// A rendered markdown line, indented under its header.
pub open spec fn padded(l: LineV) -> LineV {
    seq![(indent(), Style::new())] + l
}

pub open spec fn user_header() -> LineV {
    seq![
        ("  \u{25B8} "@, Style::new().fg(Theme::GOLD)),
        ("you"@, Style::new().fg(Theme::GOLD).bold()),
    ]
}

pub open spec fn goose_header() -> LineV {
    seq![
        ("  \u{25C6} "@, Style::new().fg(Theme::CRANBERRY)),
        ("goose"@, Style::new().fg(Theme::CRANBERRY).bold()),
    ]
}

/// Line `i` of a system note: an info mark on the first line, an indent on
/// the others.
pub open spec fn system_line(i: int, t: Seq<char>) -> LineV {
    seq![
        (if i == 0 {
            "  \u{2139}  "@
        } else {
            "     "@
        }, Style::new().fg(Theme::TEAL)),
        (t, Style::new().fg(Theme::TEXT_DIM)),
    ]
}

/// The lines of one message at content width `w`.
pub open spec fn message_block(m: ChatMessage, w: nat) -> Seq<LineV> {
    match m.role {
        MessageRole::User => seq![user_header(), blank()] + markdown_spec(m.content@, w).map_values(
            |l: LineV| padded(l),
        ) + seq![blank()],
        MessageRole::Assistant => seq![goose_header(), blank()] + markdown_spec(
            m.content@,
            w,
        ).map_values(|l: LineV| padded(l)) + seq![blank()],
        MessageRole::System => wrap_spec(m.content@, w).map(|i: int, t: Seq<char>| system_line(i, t)),
    }
}

/// The lines of the messages `msgs`, a blank line between two messages.
pub open spec fn transcript_lines(msgs: Seq<ChatMessage>, w: nat, started: bool) -> Seq<LineV>
    decreases msgs.len(),
{
    if msgs.len() == 0 {
        seq![]
    } else {
        (if started {
            seq![blank()]
        } else {
            seq![]
        }) + message_block(msgs[0], w) + transcript_lines(msgs.drop_first(), w, true)
    }
}

/// The reply being streamed, if any, below the transcript.
pub open spec fn stream_lines(c: ChatState, w: nat, started: bool) -> Seq<LineV> {
    if c.is_streaming && c.streaming_text@.len() > 0 {
        (if started {
            seq![blank()]
        } else {
            seq![]
        }) + seq![goose_header(), blank()] + markdown_spec(c.streaming_text@, w).map_values(
            |l: LineV| padded(l),
        )
    } else {
        seq![]
    }
}

/// A running tool call: spinner, title, status.
pub open spec fn tool_line(tc: ToolCallDisplay, tick: u64) -> LineV {
    seq![
        (indent() + seq![work_frame(tick), ' '], Style::new().fg(Theme::TEAL)),
        (tc.title@, Style::new().fg(Theme::TEXT_SECONDARY)),
        ("  "@ + tc.status@, Style::new().fg(Theme::TEXT_DIM)),
    ]
}

/// All lines of the message area.
pub open spec fn message_lines_spec(c: ChatState, w: nat, tick: u64) -> Seq<LineV> {
    transcript_lines(c.messages@, w, false) + stream_lines(c, w, c.messages@.len() > 0)
        + c.tool_calls@.map_values(|tc: ToolCallDisplay| tool_line(tc, tick))
}

fn line2(a: String, sa: Style, b: String, sb: Style) -> (l: Vec<StyledSpan>)
    ensures
        line_view(l@) == seq![(a@, sa), (b@, sb)],
{
    let mut l: Vec<StyledSpan> = Vec::new();
    l.push(span(a, sa));
    l.push(span(b, sb));
    assert(line_view(l@) =~= seq![(a@, sa), (b@, sb)]);
    l
}

fn push_line(out: &mut Vec<Vec<StyledSpan>>, l: Vec<StyledSpan>)
    ensures
        lines_view(final(out)@) == lines_view(old(out)@).push(line_view(l@)),
{
    let ghost lv = line_view(l@);
    out.push(l);
    assert(lines_view(out@) =~= lines_view(old(out)@).push(lv));
}

fn push_blank(out: &mut Vec<Vec<StyledSpan>>)
    ensures
        lines_view(final(out)@) == lines_view(old(out)@).push(blank()),
{
    let l: Vec<StyledSpan> = Vec::new();
    assert(line_view(l@) =~= blank());
    push_line(out, l);
}

/// Appends the markdown lines `md`, each indented.
fn push_padded(out: &mut Vec<Vec<StyledSpan>>, md: Vec<Vec<StyledSpan>>)
    ensures
        lines_view(final(out)@) == lines_view(old(out)@) + lines_view(md@).map_values(
            |l: LineV| padded(l),
        ),
{
    let n = md.len();
    let mut md = md;
    let ghost all = lines_view(md@);
    let mut i: usize = 0;
    let mut rest: Vec<Vec<StyledSpan>> = Vec::new();
    let mut k: usize = 0;
    while k < n
        invariant
            k <= n,
            n == md@.len(),
            all == lines_view(md@),
            lines_view(out@) == lines_view(old(out)@) + all.take(k as int).map_values(
                |l: LineV| padded(l),
            ),
        decreases n - k,
    {
        let mut l: Vec<StyledSpan> = Vec::new();
        let sp4 = spaces(4);
        assert(sp4@ =~= indent());
        l.push(span(string_from_chars(&sp4), Style::new()));
        let mut i2: usize = 0;
        let src = &md[k];
        assert(line_view(l@) =~= seq![(indent(), Style::new())] + line_view(src@).take(0));
        while i2 < src.len()
            invariant
                i2 <= src@.len(),
                line_view(l@) == seq![(indent(), Style::new())] + line_view(src@).take(i2 as int),
            decreases src@.len() - i2,
        {
            let sp = span(src[i2].content.clone(), src[i2].style);
            assert(sp@ == line_view(src@)[i2 as int]);
            let ghost l0 = line_view(l@);
            let ghost spv = sp@;
            l.push(sp);
            assert(line_view(l@) =~= l0.push(spv));
            assert(line_view(src@).take(i2 + 1) =~= line_view(src@).take(i2 as int).push(spv));
            i2 = i2 + 1;
            assert(line_view(l@) =~= seq![(indent(), Style::new())] + line_view(src@).take(i2 as int));
        }
        assert(line_view(src@).take(src@.len() as int) =~= line_view(src@));
        assert(all[k as int] == line_view(src@));
        push_line(out, l);
        k = k + 1;
        assert(all.take(k as int).map_values(|l: LineV| padded(l)) =~= all.take(k - 1).map_values(
            |l: LineV| padded(l),
        ).push(padded(all[k - 1])));
    }
    assert(all.take(n as int) =~= all);
}

/// Appends the lines of one message.
fn push_message(out: &mut Vec<Vec<StyledSpan>>, m: &ChatMessage, w: usize)
    ensures
        lines_view(final(out)@) == lines_view(old(out)@) + message_block(*m, w as nat),
        message_block(*m, w as nat).len() > 0,
{
    match m.role {
        MessageRole::User => {
            push_line(out, line2(String::from_str("  \u{25B8} "), Style::new().fg(Theme::GOLD), String::from_str("you"), Style::new().fg(Theme::GOLD).bold()));
            push_blank(out);
            let md = render_markdown(m.content.as_str(), w);
            push_padded(out, md);
            push_blank(out);
        },
        MessageRole::Assistant => {
            push_line(out, line2(String::from_str("  \u{25C6} "), Style::new().fg(Theme::CRANBERRY), String::from_str("goose"), Style::new().fg(Theme::CRANBERRY).bold()));
            push_blank(out);
            let md = render_markdown(m.content.as_str(), w);
            push_padded(out, md);
            push_blank(out);
        },
        MessageRole::System => {
            let wrapped = word_wrap(m.content.as_str(), w);
            let ghost ws = strings_view(wrapped@);
            let n = wrapped.len();
            let mut i: usize = 0;
            while i < n
                invariant
                    i <= n,
                    n == wrapped@.len(),
                    ws == strings_view(wrapped@),
                    lines_view(out@) == lines_view(old(out)@) + ws.take(i as int).map(
                        |j: int, t: Seq<char>| system_line(j, t),
                    ),
                decreases n - i,
            {
                let prefix = if i == 0 {
                    String::from_str("  \u{2139}  ")
                } else {
                    String::from_str("     ")
                };
                let t = string_from_chars(&chars_of(wrapped[i].as_str()));
                push_line(out, line2(prefix, Style::new().fg(Theme::TEAL), t, Style::new().fg(Theme::TEXT_DIM)));
                i = i + 1;
                assert(ws.take(i as int).map(|j: int, t: Seq<char>| system_line(j, t)) =~= ws.take(
                    i - 1,
                ).map(|j: int, t: Seq<char>| system_line(j, t)).push(system_line(i - 1, ws[i - 1])));
            }
            assert(ws.take(n as int) =~= ws);
        },
    }
    assert(lines_view(out@) =~= lines_view(old(out)@) + message_block(*m, w as nat));
}

/// The lines of the message area of the chat view, at content width
/// `content_width`, with the spinners at `tick`.
pub fn message_lines(state: &ChatState, content_width: usize, tick: u64) -> (lines: Vec<Vec<StyledSpan>>)
    ensures
        lines_view(lines@) == message_lines_spec(*state, content_width as nat, tick),
{
    let w = content_width;
    let mut out: Vec<Vec<StyledSpan>> = Vec::new();
    let ghost all = state.messages@;
    let n = state.messages.len();
    let mut i: usize = 0;
    proof {
        assert(all.skip(0) =~= all);
        assert(lines_view(out@) + transcript_lines(all, w as nat, false) =~= transcript_lines(all, w as nat, false));
    }
    while i < n
        invariant
            i <= n,
            n == all.len(),
            all == state.messages@,
            (out@.len() > 0) == (i > 0),
            transcript_lines(all, w as nat, false) == lines_view(out@) + transcript_lines(
                all.skip(i as int),
                w as nat,
                i > 0,
            ),
        decreases n - i,
    {
        let ghost before = lines_view(out@);
        proof {
            assert(all.skip(i as int)[0] == all[i as int]);
            assert(all.skip(i as int).drop_first() =~= all.skip(i + 1));
        }
        if out.len() > 0 {
            push_blank(&mut out);
        }
        let ghost mid = lines_view(out@);
        push_message(&mut out, &state.messages[i], w);
        proof {
            let sep = if i > 0 { seq![blank()] } else { Seq::<LineV>::empty() };
            assert(mid =~= before + sep);
            let blk = message_block(all[i as int], w as nat);
            assert(before + (sep + blk + transcript_lines(all.skip(i + 1), w as nat, true)) =~= (
            before + sep + blk) + transcript_lines(all.skip(i + 1), w as nat, true));
        }
        i = i + 1;
    }
    proof {
        assert(all.skip(n as int) =~= Seq::<ChatMessage>::empty());
        assert(lines_view(out@) + Seq::<LineV>::empty() =~= lines_view(out@));
    }
    let ghost after_msgs = lines_view(out@);
    if state.is_streaming && !state.streaming_text.as_str().is_empty() {
        if out.len() > 0 {
            push_blank(&mut out);
        }
        push_line(&mut out, line2(String::from_str("  \u{25C6} "), Style::new().fg(Theme::CRANBERRY), String::from_str("goose"), Style::new().fg(Theme::CRANBERRY).bold()));
        push_blank(&mut out);
        let md = render_markdown(state.streaming_text.as_str(), w);
        push_padded(&mut out, md);
    }
    proof {
        assert(lines_view(out@) =~= after_msgs + stream_lines(*state, w as nat, n > 0));
    }
    let ghost after_stream = lines_view(out@);
    let m = state.tool_calls.len();
    let mut j: usize = 0;
    let ghost tcs = state.tool_calls@;
    while j < m
        invariant
            j <= m,
            m == tcs.len(),
            tcs == state.tool_calls@,
            lines_view(out@) == after_stream + tcs.take(j as int).map_values(
                |tc: ToolCallDisplay| tool_line(tc, tick),
            ),
        decreases m - j,
    {
        let tc = &state.tool_calls[j];
        let mut head = spaces(4);
        head.push(work_spinner(tick));
        head.push(' ');
        assert(head@ =~= indent() + seq![work_frame(tick), ' ']);
        let mut l: Vec<StyledSpan> = Vec::new();
        l.push(span(string_from_chars(&head), Style::new().fg(Theme::TEAL)));
        l.push(span(string_from_chars(&chars_of(tc.title.as_str())), Style::new().fg(Theme::TEXT_SECONDARY)));
        l.push(span(concat_str("  ", tc.status.as_str()), Style::new().fg(Theme::TEXT_DIM)));
        assert(line_view(l@) =~= tool_line(tcs[j as int], tick));
        push_line(&mut out, l);
        j = j + 1;
        assert(tcs.take(j as int).map_values(|tc: ToolCallDisplay| tool_line(tc, tick)) =~= tcs.take(
            j - 1,
        ).map_values(|tc: ToolCallDisplay| tool_line(tc, tick)).push(tool_line(tcs[j - 1], tick)));
    }
    assert(tcs.take(m as int) =~= tcs);
    out
}

/// How far the message area scrolls so that its last line is shown.
pub fn scroll_offset(total: usize, visible: usize) -> (s: u16)
    ensures
        s == (if total > visible {
            (total - visible) as u16
        } else {
            0
        }),
{
    if total > visible {
        ((total - visible) as u16)
    } else {
        0
    }
}

// ---------------------------------------------------------------------
// Bars of the chat view
// ---------------------------------------------------------------------

/// "1 message" or "n messages".
pub open spec fn count_text(n: nat) -> Seq<char> {
    if n == 1 {
        "1 message"@
    } else {
        decimal(n) + " messages"@
    }
}

/// The status bar: a spinner while a reply streams, else the name and the
/// number of messages.
pub open spec fn status_spans(c: ChatState, tick: u64) -> LineV {
    if c.is_streaming {
        seq![
            (seq![' ', work_frame(tick), ' '], Style::new().fg(Theme::TEAL)),
            ("generating\u{2026}"@, Style::new().fg(Theme::TEXT_SECONDARY)),
        ]
    } else {
        seq![
            (" \u{25C6} "@, Style::new().fg(Theme::CRANBERRY)),
            ("goose"@, Style::new().fg(Theme::TEXT_PRIMARY).bold()),
            ("  \u{2502}  "@, Style::new().fg(Theme::BORDER)),
            (count_text(c.messages@.len()), Style::new().fg(Theme::TEXT_DIM)),
        ]
    }
}

pub fn status_bar(state: &ChatState, tick: u64) -> (l: Vec<StyledSpan>)
    ensures
        line_view(l@) == status_spans(*state, tick),
{
    let mut l: Vec<StyledSpan> = Vec::new();
    if state.is_streaming {
        let mut f: Vec<char> = Vec::new();
        f.push(' ');
        f.push(work_spinner(tick));
        f.push(' ');
        assert(f@ =~= seq![' ', work_frame(tick), ' ']);
        l.push(span(string_from_chars(&f), Style::new().fg(Theme::TEAL)));
        l.push(span(String::from_str("generating\u{2026}"), Style::new().fg(Theme::TEXT_SECONDARY)));
    } else {
        let n = state.messages.len();
        let count = if n == 1 {
            String::from_str("1 message")
        } else {
            concat_str(decimal_string(n).as_str(), " messages")
        };
        l.push(span(String::from_str(" \u{25C6} "), Style::new().fg(Theme::CRANBERRY)));
        l.push(span(String::from_str("goose"), Style::new().fg(Theme::TEXT_PRIMARY).bold()));
        l.push(span(String::from_str("  \u{2502}  "), Style::new().fg(Theme::BORDER)));
        l.push(span(count, Style::new().fg(Theme::TEXT_DIM)));
    }
    assert(line_view(l@) =~= status_spans(*state, tick));
    l
}

/// The help bar under the input.
pub open spec fn help_spans() -> LineV {
    seq![
        (" /help "@, Style::new().fg(Theme::GOLD)),
        ("commands"@, Style::new().fg(Theme::TEXT_DIM)),
        ("  \u{2502}  "@, Style::new().fg(Theme::BORDER)),
        ("ctrl+c "@, Style::new().fg(Theme::GOLD)),
        ("quit"@, Style::new().fg(Theme::TEXT_DIM)),
        ("  \u{2502}  "@, Style::new().fg(Theme::BORDER)),
        ("ctrl+l "@, Style::new().fg(Theme::GOLD)),
        ("clear"@, Style::new().fg(Theme::TEXT_DIM)),
    ]
}

pub fn help_bar() -> (l: Vec<StyledSpan>)
    ensures
        line_view(l@) == help_spans(),
{
    let mut l: Vec<StyledSpan> = Vec::new();
    l.push(span(String::from_str(" /help "), Style::new().fg(Theme::GOLD)));
    l.push(span(String::from_str("commands"), Style::new().fg(Theme::TEXT_DIM)));
    l.push(span(String::from_str("  \u{2502}  "), Style::new().fg(Theme::BORDER)));
    l.push(span(String::from_str("ctrl+c "), Style::new().fg(Theme::GOLD)));
    l.push(span(String::from_str("quit"), Style::new().fg(Theme::TEXT_DIM)));
    l.push(span(String::from_str("  \u{2502}  "), Style::new().fg(Theme::BORDER)));
    l.push(span(String::from_str("ctrl+l "), Style::new().fg(Theme::GOLD)));
    l.push(span(String::from_str("clear"), Style::new().fg(Theme::TEXT_DIM)));
    assert(line_view(l@) =~= help_spans());
    l
}

/// A horizontal rule `width` columns wide.
pub fn separator(width: usize) -> (s: String)
    ensures
        s@ == Seq::new(width as nat, |i: int| '\u{2500}'),
{
    let mut v: Vec<char> = Vec::new();
    let mut i: usize = 0;
    while i < width
        invariant
            i <= width,
            v@ == Seq::new(i as nat, |j: int| '\u{2500}'),
        decreases width - i,
    {
        v.push('\u{2500}');
        i = i + 1;
        assert(v@ =~= Seq::new(i as nat, |j: int| '\u{2500}'));
    }
    string_from_chars(&v)
}

/// The input box's border: dim while a reply streams.
pub fn input_border(state: &ChatState) -> (st: Style)
    ensures
        st == (if state.is_streaming {
            Style::new().fg(Theme::BORDER)
        } else {
            Style::new().fg(Theme::BORDER_ACTIVE)
        }),
{
    if state.is_streaming {
        Style::new().fg(Theme::BORDER)
    } else {
        Style::new().fg(Theme::BORDER_ACTIVE)
    }
}

/// The text in the input box: a hint when it is empty and idle, else the
/// input itself.
pub fn input_text(state: &ChatState) -> (sp: StyledSpan)
    ensures
        sp@ == (if state.input@.len() == 0 && !state.is_streaming {
            ("Type a message or /help for commands\u{2026}"@, Style::new().fg(Theme::TEXT_DIM))
        } else {
            (state.input@, Style::new().fg(Theme::TEXT_PRIMARY))
        }),
{
    if state.input.as_str().is_empty() && !state.is_streaming {
        span(String::from_str("Type a message or /help for commands\u{2026}"), Style::new().fg(Theme::TEXT_DIM))
    } else {
        span(state.input.clone(), Style::new().fg(Theme::TEXT_PRIMARY))
    }
}

// ---------------------------------------------------------------------
// Rows of the list views
// ---------------------------------------------------------------------

/// The style of a row's name: highlighted when selected.
pub open spec fn row_style(selected: bool) -> Style {
    if selected {
        Theme::selected()
    } else {
        Style::new().fg(Theme::TEXT_PRIMARY)
    }
}

fn row_style_exec(selected: bool) -> (st: Style)
    ensures
        st == row_style(selected),
{
    if selected {
        Theme::selected()
    } else {
        Style::new().fg(Theme::TEXT_PRIMARY)
    }
}

fn line3(a: String, sa: Style, b: String, sb: Style, c: String, sc: Style) -> (l: Vec<StyledSpan>)
    ensures
        line_view(l@) == seq![(a@, sa), (b@, sb), (c@, sc)],
{
    let mut l: Vec<StyledSpan> = Vec::new();
    l.push(span(a, sa));
    l.push(span(b, sb));
    l.push(span(c, sc));
    assert(line_view(l@) =~= seq![(a@, sa), (b@, sb), (c@, sc)]);
    l
}

/// A row of the extensions list: whether it is on, its name, its kind.
pub open spec fn extension_row_spec(ext: ExtensionInfo, selected: bool) -> LineV {
    seq![
        (if ext.enabled {
            " \u{2713} "@
        } else {
            " \u{25CB} "@
        }, Style::new().fg(if ext.enabled {
            Theme::SUCCESS
        } else {
            Theme::TEXT_DIM
        })),
        (ext.name@, row_style(selected)),
        ("  ["@ + ext.ext_type@ + "]"@, Theme::dim()),
    ]
}

pub fn extension_row(ext: &ExtensionInfo, selected: bool) -> (l: Vec<StyledSpan>)
    ensures
        line_view(l@) == extension_row_spec(*ext, selected),
{
    let mark = if ext.enabled {
        String::from_str(" \u{2713} ")
    } else {
        String::from_str(" \u{25CB} ")
    };
    let color = if ext.enabled {
        Theme::SUCCESS
    } else {
        Theme::TEXT_DIM
    };
    let kind = concat_str(concat_str("  [", ext.ext_type.as_str()).as_str(), "]");
    line3(mark, Style::new().fg(color), ext.name.clone(), row_style_exec(selected), kind, Theme::dim())
}

/// A row of the provider list: whether it is configured, its name, its
/// description.
pub open spec fn provider_row_spec(p: ProviderInfo, selected: bool) -> LineV {
    seq![
        (if p.configured {
            " \u{25CF} "@
        } else {
            " \u{25CB} "@
        }, Style::new().fg(if p.configured {
            Theme::SUCCESS
        } else {
            Theme::TEXT_DIM
        })),
        (p.name@, row_style(selected)),
        ("  "@ + p.description@, Theme::dim()),
    ]
}

pub fn provider_row(p: &ProviderInfo, selected: bool) -> (l: Vec<StyledSpan>)
    ensures
        line_view(l@) == provider_row_spec(*p, selected),
{
    let mark = if p.configured {
        String::from_str(" \u{25CF} ")
    } else {
        String::from_str(" \u{25CB} ")
    };
    let color = if p.configured {
        Theme::SUCCESS
    } else {
        Theme::TEXT_DIM
    };
    let desc = concat_str("  ", p.description.as_str());
    line3(mark, Style::new().fg(color), p.name.clone(), row_style_exec(selected), desc, Theme::dim())
}

/// A row of the sessions list: a marker on the selected row, the title
/// (or a placeholder for an untitled one), the time of the last update.
pub open spec fn session_row_spec(s: SessionInfo, selected: bool) -> LineV {
    seq![
        (if selected {
            " \u{25B8} "@
        } else {
            "   "@
        }, Style::new().fg(Theme::CRANBERRY)),
        (if s.title@.len() == 0 {
            "Untitled Session"@
        } else {
            s.title@
        }, row_style(selected)),
        ("  "@ + s.updated_at@, Theme::dim()),
    ]
}

pub fn session_row(s: &SessionInfo, selected: bool) -> (l: Vec<StyledSpan>)
    ensures
        line_view(l@) == session_row_spec(*s, selected),
{
    let mark = if selected {
        String::from_str(" \u{25B8} ")
    } else {
        String::from_str("   ")
    };
    let title = if s.title.as_str().is_empty() {
        String::from_str("Untitled Session")
    } else {
        s.title.clone()
    };
    let when = concat_str("  ", s.updated_at.as_str());
    line3(mark, Style::new().fg(Theme::CRANBERRY), title, row_style_exec(selected), when, Theme::dim())
}

/// `prefix`, the number `n` in decimal, then `suffix`.
pub fn counted(prefix: &str, n: usize, suffix: &str) -> (s: String)
    ensures
        s@ == prefix@ + decimal(n as nat) + suffix@,
{
    let d = decimal_string(n);
    concat_str(concat_str(prefix, d.as_str()).as_str(), suffix)
}

/// The header of a message is set by its role: an assistant's message opens
/// with the cranberry "◆ goose" line, a user's with the gold "▸ you" line,
/// a system note with the info mark; the three never coincide.
pub proof fn law_message_header_by_role(m: ChatMessage, w: nat)
    ensures
        message_block(m, w).len() > 0,
        m.role == MessageRole::Assistant ==> message_block(m, w)[0] == seq![
            ("  \u{25C6} "@, Style::new().fg(Theme::CRANBERRY)),
            ("goose"@, Style::new().fg(Theme::CRANBERRY).bold()),
        ],
        m.role == MessageRole::User ==> message_block(m, w)[0] == seq![
            ("  \u{25B8} "@, Style::new().fg(Theme::GOLD)),
            ("you"@, Style::new().fg(Theme::GOLD).bold()),
        ],
        m.role == MessageRole::System ==> message_block(m, w)[0][0] == (
            "  \u{2139}  "@,
            Style::new().fg(Theme::TEAL),
        ),
        m.role != MessageRole::User ==> message_block(m, w)[0][0].1 != Style::new().fg(Theme::GOLD),
        m.role != MessageRole::Assistant ==> message_block(m, w)[0][0].1 != Style::new().fg(
            Theme::CRANBERRY,
        ),
{
    if m.role == MessageRole::System {
        let ws = wrap_spec(m.content@, w);
        assert(ws.len() > 0);
        assert(message_block(m, w)[0] == system_line(0, ws[0]));
    }
}

/// The message area opens with the header of the first message, chosen by
/// its role.
pub proof fn law_first_line_is_first_header(c: ChatState, w: nat, tick: u64)
    requires
        c.messages@.len() > 0,
    ensures
        c.messages@[0].role == MessageRole::Assistant ==> message_lines_spec(c, w, tick)[0] == seq![
            ("  \u{25C6} "@, Style::new().fg(Theme::CRANBERRY)),
            ("goose"@, Style::new().fg(Theme::CRANBERRY).bold()),
        ],
        c.messages@[0].role == MessageRole::User ==> message_lines_spec(c, w, tick)[0] == seq![
            ("  \u{25B8} "@, Style::new().fg(Theme::GOLD)),
            ("you"@, Style::new().fg(Theme::GOLD).bold()),
        ],
{
    let m = c.messages@[0];
    law_message_header_by_role(m, w);
    let t = transcript_lines(c.messages@, w, false);
    assert(Seq::<LineV>::empty() + message_block(m, w) =~= message_block(m, w));
    assert(t == message_block(m, w) + transcript_lines(c.messages@.drop_first(), w, true));
    assert(t[0] == message_block(m, w)[0]);
    let all = message_lines_spec(c, w, tick);
    assert(all[0] == t[0]);
}

/// A session row shows the session's own title whenever it has one; the
/// placeholder shows only for an empty title. The marker column shows
/// whether the row is selected, and the last column the update time.
pub proof fn law_session_row_title(s: SessionInfo, selected: bool)
    ensures
        session_row_spec(s, selected).len() == 3,
        s.title@.len() > 0 ==> session_row_spec(s, selected)[1].0 == s.title@,
        s.title@.len() == 0 ==> session_row_spec(s, selected)[1].0 == "Untitled Session"@,
        session_row_spec(s, selected)[1].1 == (if selected {
            Theme::selected()
        } else {
            Style::new().fg(Theme::TEXT_PRIMARY)
        }),
        session_row_spec(s, selected)[2].0 == "  "@ + s.updated_at@,
        selected ==> session_row_spec(s, selected)[0].0 == " \u{25B8} "@,
        !selected ==> session_row_spec(s, selected)[0].0 == "   "@,
{
}

} // verus!
