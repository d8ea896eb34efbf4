//! The 50/72 rule, enforced on whatever the model returns. The system
//! prompt asks for the format, but asking is not enforcing: a reply goes
//! through [`sanitize`], [`parse`], the subject check and [`wrap_body`], so
//! the printed message obeys the rule even when the model does not.

use vstd::prelude::*;
use vstd::slice::slice_subrange;
use vstd::string::StringExecFns;

use crate::chars;
use crate::text;

verus! {

/// The columns that a subject may take.
pub const SUBJECT_LIMIT: usize = 50;

/// The columns that a line of the body may take.
pub const BODY_WIDTH: usize = 72;

/// A commit message pulled apart for enforcement: the subject is checked
/// against `SUBJECT_LIMIT`, the body wrapped to `BODY_WIDTH`. An empty body
/// means a subject-only message, the common case.
#[derive(Debug)]
pub struct Formatted {
    pub subject: String,
    pub body: String,
}

/// What a [`Formatted`] holds.
pub struct FormattedView {
    pub subject: Seq<char>,
    pub body: Seq<char>,
}

impl View for Formatted {
    type V = FormattedView;

    open spec fn view(&self) -> FormattedView {
        FormattedView { subject: self.subject@, body: self.body@ }
    }
}

/// `s` with each carriage return and line feed pair made one line feed.
pub open spec fn normalized(s: Seq<char>) -> Seq<char>
    decreases s.len(),
{
    if s.len() == 0 {
        s
    } else if s.len() >= 2 && s[0] == '\r' && s[1] == '\n' {
        seq!['\n'] + normalized(s.skip(2))
    } else {
        seq![s[0]] + normalized(s.skip(1))
    }
}

/// The text inside a code fence that encloses all of `s`, trimmed; the line
/// that opens the fence goes with it. A text that no fence encloses stays.
pub open spec fn unfenced(s: Seq<char>) -> Seq<char> {
    let inner = s.take(s.len() - 3);
    let at = text::find(inner, '\n');
    if text::starts_with(s, "```"@) && text::ends_with(s, "```"@) && at < inner.len() {
        text::trim(inner.skip(at + 1))
    } else {
        s
    }
}

/// The text inside one pair of quotes around all of `s`, trimmed. A text
/// without such a pair stays.
pub open spec fn unquoted(s: Seq<char>, quote: char) -> Seq<char> {
    if s.len() >= 2 && s[0] == quote && s.last() == quote {
        text::trim(s.subrange(1, s.len() - 1))
    } else {
        s
    }
}

/// The message inside a reply. Of quotes inside quotes only the outer pair
/// goes.
pub open spec fn sanitized(raw: Seq<char>) -> Seq<char> {
    let open = unfenced(text::trim(normalized(raw)));
    if open.len() >= 2 && open[0] == '"' {
        unquoted(open, '"')
    } else {
        unquoted(open, '\'')
    }
}

fn normalize(s: &[char]) -> (r: Vec<char>)
    ensures
        r@ == normalized(s@),
{
    let mut out: Vec<char> = Vec::new();
    let mut at: usize = 0;
    assert(s@.skip(0) == s@);
    while at < s.len()
        invariant
            at <= s@.len(),
            normalized(s@) == out@ + normalized(s@.skip(at as int)),
        decreases s@.len() - at,
    {
        let ghost rest = s@.skip(at as int);
        let ghost before = out@;
        if s.len() - at >= 2 && s[at] == '\r' && s[at + 1] == '\n' {
            out.push('\n');
            assert(rest.skip(2) == s@.skip(at + 2));
            at = at + 2;
            assert(before + (seq!['\n'] + normalized(s@.skip(at as int))) == out@ + normalized(
                s@.skip(at as int),
            ));
        } else {
            let c: char = s[at];
            out.push(c);
            assert(rest.skip(1) == s@.skip(at + 1));
            at = at + 1;
            assert(before + (seq![c] + normalized(s@.skip(at as int))) == out@ + normalized(
                s@.skip(at as int),
            ));
        }
    }
    out
}

fn unfence(s: &[char]) -> (r: &[char])
    ensures
        r@ == unfenced(s@),
{
    proof {
        reveal_strlit("```");
    }
    if chars::starts_with(s, "```") && chars::ends_with(s, "```") {
        let inner = slice_subrange(s, 0, s.len() - 3);
        assert(inner@ == s@.take(s@.len() - 3));
        let at: usize = chars::find(inner, '\n');
        if at < inner.len() {
            return chars::trim(slice_subrange(inner, at + 1, inner.len()));
        }
    }
    s
}

fn unquote(s: &[char], quote: char) -> (r: &[char])
    ensures
        r@ == unquoted(s@, quote),
{
    if s.len() >= 2 && s[0] == quote && s[s.len() - 1] == quote {
        chars::trim(slice_subrange(s, 1, s.len() - 1))
    } else {
        s
    }
}

/// Strip the wrapping a model tends to add around a commit message: code
/// fences, a single pair of quotes, and CRLF line endings.
pub fn sanitize(raw: &str) -> (r: String)
    ensures
        r@ == sanitized(raw@),
{
    let source = chars::of(raw);
    let clean = normalize(source.as_slice());
    let open = unfence(chars::trim(clean.as_slice()));
    if open.len() >= 2 && open[0] == '"' {
        chars::string(unquote(open, '"'))
    } else {
        chars::string(unquote(open, '\''))
    }
}

/// The place of the first line with anything on it, or the number of lines.
pub open spec fn first_full(lines: Seq<Seq<char>>) -> int
    decreases lines.len(),
{
    if lines.len() == 0 || !text::is_blank(lines[0]) {
        0
    } else {
        1 + first_full(lines.drop_first())
    }
}

/// The subject on a line: trimmed, with trailing periods stripped.
pub open spec fn subject_of(line: Seq<char>) -> Seq<char> {
    text::trim_end(text::trim_end_char(text::trim(line), '.'))
}

/// The body on the lines after the subject: each without white space at its
/// end, with no empty line before or after them.
pub open spec fn body_of(lines: Seq<Seq<char>>) -> Seq<char> {
    let trimmed = lines.map_values(|line: Seq<char>| text::trim_end(line));
    text::trim_end_char(text::trim_start_char(text::join(trimmed, "\n"@), '\n'), '\n')
}

/// The message on the lines of a reply.
pub open spec fn parsed(raw: Seq<char>) -> FormattedView {
    let lines = text::lines(raw);
    let at = first_full(lines);
    if at < lines.len() {
        FormattedView { subject: subject_of(lines[at]), body: body_of(lines.skip(at + 1)) }
    } else {
        FormattedView { subject: Seq::empty(), body: Seq::empty() }
    }
}

/// First non-empty line becomes the subject (trailing periods stripped);
/// everything after it becomes the body.
pub fn parse(raw: &str) -> (r: Formatted)
    ensures
        r@ == parsed(raw@),
{
    let source = chars::of(raw);
    let lines = chars::lines(source.as_slice());
    let ghost all = chars::views(lines@);
    let mut at: usize = 0;
    assert(all.skip(0) == all);
    while at < lines.len() && chars::is_blank(lines[at])
        invariant
            at <= lines@.len(),
            all == chars::views(lines@),
            first_full(all) == at + first_full(all.skip(at as int)),
        decreases lines@.len() - at,
    {
        assert(all.skip(at as int).drop_first() == all.skip(at + 1));
        assert(all.skip(at as int)[0] == all[at as int]);
        at = at + 1;
    }
    if at >= lines.len() {
        assert(all.skip(at as int).len() == 0);
        return Formatted { subject: String::new(), body: String::new() };
    }
    assert(all.skip(at as int)[0] == all[at as int]);
    let subject = chars::trim_end(chars::trim_end_char(chars::trim(lines[at]), '.'));
    let mut rest: Vec<Vec<char>> = Vec::new();
    let ghost trimmed = all.skip(at + 1).map_values(|line: Seq<char>| text::trim_end(line));
    for i in (at + 1)..lines.len()
        invariant
            at < lines@.len(),
            all == chars::views(lines@),
            trimmed == all.skip(at + 1).map_values(|line: Seq<char>| text::trim_end(line)),
            chars::rows(rest@) == trimmed.take(i - at - 1),
    {
        let ghost before = chars::rows(rest@);
        let line = chars::copy(chars::trim_end(lines[i]));
        rest.push(line);
        assert(chars::rows(rest@) == before.push(line@));
        assert(trimmed[i - at - 1] == line@);
    }
    assert(trimmed.take(trimmed.len() as int) == trimmed);
    let joined = chars::join(&rest, "\n");
    let body = chars::trim_end_char(chars::trim_start_char(joined.as_slice(), '\n'), '\n');
    Formatted { subject: chars::string(subject), body: chars::string(body) }
}

/// Columns as chars. Wide glyphs count as one; a width table is not worth a
/// dependency for commit messages.
pub fn width(s: &str) -> (r: usize)
    ensures
        r == s@.len(),
{
    let source = chars::of(s);
    source.len()
}

/// Whether a subject keeps to the limit.
pub open spec fn fits(subject: Seq<char>) -> bool {
    subject.len() <= SUBJECT_LIMIT
}

/// Whether a subject keeps to `SUBJECT_LIMIT`.
pub fn subject_fits(subject: &str) -> (r: bool)
    ensures
        r == fits(subject@),
{
    width(subject) <= SUBJECT_LIMIT
}

/// A subject cut down to the limit: at the last space within it, or hard
/// when there is none after the first column.
pub open spec fn truncated(subject: Seq<char>) -> Seq<char> {
    let cut = subject.take(SUBJECT_LIMIT as int);
    let at = text::rfind(cut, ' ');
    if fits(subject) {
        subject
    } else if at > 0 {
        text::trim_end(cut.take(at))
    } else {
        cut
    }
}

/// Cut at the last word boundary within the limit; hard cut if the subject
/// is a single long word. No ellipsis: git subjects conventionally just end.
pub fn truncate_subject(subject: &str) -> (r: String)
    ensures
        r@ == truncated(subject@),
{
    if subject_fits(subject) {
        return subject.to_owned();
    }
    let source = chars::of(subject);
    let cut = slice_subrange(source.as_slice(), 0, SUBJECT_LIMIT);
    match chars::rfind(cut, ' ') {
        Some(at) if at > 0 => {
            proof {
                text::lemma_rfind(cut@, ' ');
            }
            chars::string(chars::trim_end(slice_subrange(cut, 0, at)))
        },
        _ => chars::string(cut),
    }
}

/// Words set one after another on a line already begun, a new line being
/// begun with `indent` wherever the next word would pass the limit. A word
/// alone on its line is never broken, however long.
pub open spec fn fill(
    line: Seq<char>,
    words: Seq<Seq<char>>,
    indent: Seq<char>,
    limit: nat,
) -> Seq<Seq<char>>
    decreases words.len(),
{
    if words.len() == 0 {
        seq![line]
    } else if line.len() + 1 + words[0].len() > limit {
        seq![line] + fill(indent + words[0], words.drop_first(), indent, limit)
    } else {
        fill(line.push(' ') + words[0], words.drop_first(), indent, limit)
    }
}

/// The white space that a line begins with.
pub open spec fn indent_of(line: Seq<char>) -> Seq<char> {
    line.take(line.len() - text::trim_start(line).len())
}

/// Whether a line is an item of a bullet list.
pub open spec fn is_bullet(line: Seq<char>) -> bool {
    let content = text::trim_start(line);
    text::starts_with(content, "- "@) || text::starts_with(content, "* "@)
}

/// What the lines that continue `line` begin with. A wrapped bullet keeps
/// its text aligned under itself, not under the marker.
pub open spec fn hanging_indent(line: Seq<char>) -> Seq<char> {
    if is_bullet(line) {
        indent_of(line) + "  "@
    } else {
        indent_of(line)
    }
}

/// A line wrapped to `limit` columns.
pub open spec fn wrapped(line: Seq<char>, limit: nat) -> Seq<Seq<char>> {
    let words = text::words(text::trim_start(line));
    if words.len() == 0 {
        Seq::empty()
    } else {
        fill(indent_of(line) + words[0], words.drop_first(), hanging_indent(line), limit)
    }
}

fn wrap_chars(line: &[char], limit: usize) -> (r: Vec<Vec<char>>)
    ensures
        chars::rows(r@) == wrapped(line@, limit as nat),
{
    let content = chars::trim_start(line);
    proof {
        text::lemma_trim_start(line@);
    }
    let indent = slice_subrange(line, 0, line.len() - content.len());
    let bullet = chars::starts_with(content, "- ") || chars::starts_with(content, "* ");
    let mut hanging = chars::copy(indent);
    if bullet {
        chars::append_str(&mut hanging, "  ");
    }
    let words = chars::words(content);
    let ghost all = chars::views(words@);
    let mut lines: Vec<Vec<char>> = Vec::new();
    if words.len() == 0 {
        return lines;
    }
    let mut current = chars::copy(indent);
    chars::append(&mut current, words[0]);
    assert(all.skip(1) == all.drop_first());
    for i in 1..words.len()
        invariant
            all == chars::views(words@),
            hanging@ == hanging_indent(line@),
            wrapped(line@, limit as nat) == chars::rows(lines@) + fill(
                current@,
                all.skip(i as int),
                hanging@,
                limit as nat,
            ),
    {
        let word = words[i];
        let ghost before = chars::rows(lines@);
        let ghost begun = current@;
        assert(all.skip(i as int)[0] == word@);
        assert(all.skip(i as int).drop_first() == all.skip(i + 1));
        if word.len() >= limit || current.len() >= limit - word.len() {
            let mut next = chars::copy(hanging.as_slice());
            chars::append(&mut next, word);
            lines.push(current);
            current = next;
            assert(chars::rows(lines@) == before.push(begun));
        } else {
            current.push(' ');
            chars::append(&mut current, word);
        }
    }
    let ghost before = chars::rows(lines@);
    let ghost begun = current@;
    assert(all.skip(words@.len() as int).len() == 0);
    lines.push(current);
    assert(chars::rows(lines@) == before.push(begun));
    lines
}

/// Greedy word wrap of one over-long line, preserving its indentation.
pub fn wrap_line(line: &str, limit: usize) -> (r: Vec<String>)
    ensures
        chars::texts(r@) == wrapped(line@, limit as nat),
{
    let source = chars::of(line);
    let rows = wrap_chars(source.as_slice(), limit);
    chars::strings(&rows)
}

/// One line of a body that is not blank, held to the width.
pub open spec fn held(line: Seq<char>) -> Seq<Seq<char>> {
    if text::trim_end(line).len() <= BODY_WIDTH {
        seq![text::trim_end(line)]
    } else {
        wrapped(line, BODY_WIDTH as nat)
    }
}

/// The lines of a body, each held to the width. A run of blank lines is one
/// empty line, and none comes first.
pub open spec fn held_lines(lines: Seq<Seq<char>>) -> Seq<Seq<char>>
    decreases lines.len(),
{
    if lines.len() == 0 {
        Seq::empty()
    } else {
        let before = held_lines(lines.drop_last());
        if !text::is_blank(lines.last()) {
            before + held(lines.last())
        } else if before.len() > 0 && before.last().len() > 0 {
            before.push(Seq::empty())
        } else {
            before
        }
    }
}

/// The rows without the empty ones at their end.
pub open spec fn without_trailing_empty(rows: Seq<Seq<char>>) -> Seq<Seq<char>>
    decreases rows.len(),
{
    if rows.len() > 0 && rows.last().len() == 0 {
        without_trailing_empty(rows.drop_last())
    } else {
        rows
    }
}

/// The lines of a wrapped body.
pub open spec fn wrapped_lines(body: Seq<char>) -> Seq<Seq<char>> {
    without_trailing_empty(held_lines(text::lines(body)))
}

/// A wrapped body.
pub open spec fn wrapped_body(body: Seq<char>) -> Seq<char> {
    text::join(wrapped_lines(body), "\n"@)
}

/// Wrap body lines at 72 columns. Lines are never joined, so bullet lists
/// and intentional short lines survive; runs of blank lines collapse to one.
pub fn wrap_body(body: &str) -> (r: String)
    ensures
        r@ == wrapped_body(body@),
{
    let source = chars::of(body);
    let lines = chars::lines(source.as_slice());
    let ghost all = chars::views(lines@);
    let mut out: Vec<Vec<char>> = Vec::new();
    for i in 0..lines.len()
        invariant
            all == chars::views(lines@),
            chars::rows(out@) == held_lines(all.take(i as int)),
    {
        let line = lines[i];
        let ghost before = chars::rows(out@);
        assert(all.take(i + 1).drop_last() == all.take(i as int));
        assert(all.take(i + 1).last() == line@);
        if chars::is_blank(line) {
            if out.len() > 0 && out[out.len() - 1].len() > 0 {
                assert(before.last() == out@.last()@);
                let empty: Vec<char> = Vec::new();
                out.push(empty);
                assert(chars::rows(out@) == before.push(empty@));
                assert(empty@ == Seq::<char>::empty());
            } else {
                assert(before.len() > 0 ==> before.last() == out@.last()@);
            }
        } else {
            let kept = chars::trim_end(line);
            if kept.len() <= BODY_WIDTH {
                let row = chars::copy(kept);
                out.push(row);
                assert(chars::rows(out@) == before + seq![row@]);
            } else {
                let mut rows = wrap_chars(line, BODY_WIDTH);
                let ghost added = chars::rows(rows@);
                out.append(&mut rows);
                assert(chars::rows(out@) == before + added);
            }
        }
    }
    assert(all.take(all.len() as int) == all);
    let ghost full = chars::rows(out@);
    while out.len() > 0 && out[out.len() - 1].len() == 0
        invariant
            without_trailing_empty(full) == without_trailing_empty(chars::rows(out@)),
        decreases out@.len(),
    {
        let ghost before = chars::rows(out@);
        assert(before.last() == out@.last()@);
        out.pop();
        assert(chars::rows(out@) == before.drop_last());
    }
    assert(out@.len() > 0 ==> chars::rows(out@).last() == out@.last()@);
    chars::string(chars::join(&out, "\n").as_slice())
}

/// The text of a message: the subject, then one blank line and the body
/// when there is one.
pub open spec fn rendered(message: FormattedView) -> Seq<char> {
    if message.body.len() == 0 {
        message.subject
    } else {
        message.subject + "\n\n"@ + message.body
    }
}

/// The final output shape: the subject, then one blank line and the body
/// when there is one. It is printed with a single trailing newline, which
/// `$(lede generate)` strips, so `git commit -m` receives exactly the message.
pub fn render(message: &Formatted) -> (r: String)
    ensures
        r@ == rendered(message@),
{
    if message.body.as_str().is_empty() {
        message.subject.clone()
    } else {
        let mut out = message.subject.clone();
        out.append("\n\n");
        out.append(message.body.as_str());
        out
    }
}

/// The text of a message with its subject cut to the limit and its body
/// wrapped.
pub open spec fn finished(message: FormattedView) -> Seq<char> {
    rendered(
        FormattedView { subject: truncated(message.subject), body: wrapped_body(message.body) },
    )
}

/// Hold a message to the rule and render it.
pub fn finish(message: &Formatted) -> (r: String)
    ensures
        r@ == finished(message@),
{
    let held = Formatted {
        subject: truncate_subject(message.subject.as_str()),
        body: wrap_body(message.body.as_str()),
    };
    render(&held)
}

} // verus!
