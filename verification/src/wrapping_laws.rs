//! What wrapping makes of a body, said part by part: how one line is wrapped,
//! and how the lines of a body come together again.

use vstd::prelude::*;

use crate::message;
use crate::message_laws;
use crate::text;
use crate::text_laws;
use crate::text_lemmas;

verus! {

/// Whether every line is blank.
pub open spec fn all_blank(lines: Seq<Seq<char>>) -> bool {
    forall|i: int| 0 <= i < lines.len() ==> text::is_blank(#[trigger] lines[i])
}

spec fn has_no_feed(lines: Seq<Seq<char>>) -> bool {
    forall|i: int| 0 <= i < lines.len() ==> !(#[trigger] lines[i]).contains('\n')
}

/// Lines that begin with a full one are held alone as they are held below
/// others.
proof fn lemma_held_below(a: Seq<Seq<char>>, b: Seq<Seq<char>>)
    requires
        has_no_feed(b),
        b.len() > 0,
        !text::is_blank(b[0]),
    ensures
        message::held_lines(a + b) == message::held_lines(a) + message::held_lines(b),
        message::held_lines(b).len() > 0,
        message::held_lines(b)[0].len() > 0,
    decreases b.len(),
{
    let front = b.drop_last();
    let last = b.last();
    let above = message::held_lines(a);
    assert((a + b).drop_last() == a + front);
    assert((a + b).last() == last);
    assert(!b[b.len() - 1].contains('\n'));
    if front.len() == 0 {
        assert(a + front == a);
        assert(message::held_lines(front) == Seq::<Seq<char>>::empty());
        message_laws::lemma_held(last);
        assert(message_laws::is_full_row(message::held(last)[0]));
        assert(message::held_lines(b) == message::held_lines(front) + message::held(last));
        assert(message::held_lines(b) == message::held(last));
    } else {
        assert forall|i: int| 0 <= i < front.len() implies !(#[trigger] front[i]).contains(
            '\n',
        ) by {
            assert(!b[i].contains('\n'));
        }
        assert(front[0] == b[0]);
        lemma_held_below(a, front);
        let before = message::held_lines(front);
        assert((above + before).last() == before.last());
        if !text::is_blank(last) {
            assert(above + before + message::held(last) == above + (before + message::held(last)));
        } else if before.last().len() > 0 {
            assert((above + before).push(Seq::empty()) == above + before.push(Seq::empty()));
        }
    }
}

/// Blank lines at the front are as good as none.
proof fn lemma_held_below_blanks(blanks: Seq<Seq<char>>, b: Seq<Seq<char>>)
    requires
        all_blank(blanks),
    ensures
        message::held_lines(blanks + b) == message::held_lines(b),
    decreases blanks.len() + b.len(),
{
    if b.len() > 0 {
        assert((blanks + b).drop_last() == blanks + b.drop_last());
        assert((blanks + b).last() == b.last());
        lemma_held_below_blanks(blanks, b.drop_last());
    } else if blanks.len() > 0 {
        assert(blanks + b == blanks);
        let fewer = blanks.drop_last();
        assert(text::is_blank(blanks[blanks.len() - 1]));
        assert forall|i: int| 0 <= i < fewer.len() implies text::is_blank(#[trigger] fewer[i]) by {
            assert(text::is_blank(blanks[i]));
        }
        lemma_held_below_blanks(fewer, b);
        assert(fewer + b == fewer);
        assert(message::held_lines(fewer).len() == 0);
    } else {
        assert(blanks + b == b);
    }
}

/// Blank lines below a row with something on it are one empty row.
proof fn lemma_held_above_blanks(a: Seq<Seq<char>>, blanks: Seq<Seq<char>>)
    requires
        all_blank(blanks),
        blanks.len() > 0,
    ensures
        message::held_lines(a).len() > 0 && message::held_lines(a).last().len() > 0
            ==> message::held_lines(a + blanks) == message::held_lines(a).push(Seq::empty()),
        !(message::held_lines(a).len() > 0 && message::held_lines(a).last().len() > 0)
            ==> message::held_lines(a + blanks) == message::held_lines(a),
    decreases blanks.len(),
{
    let fewer = blanks.drop_last();
    assert(text::is_blank(blanks[blanks.len() - 1]));
    assert((a + blanks).drop_last() == a + fewer);
    assert((a + blanks).last() == blanks.last());
    if fewer.len() > 0 {
        assert forall|i: int| 0 <= i < fewer.len() implies text::is_blank(#[trigger] fewer[i]) by {
            assert(text::is_blank(blanks[i]));
        }
        lemma_held_above_blanks(a, fewer);
    } else {
        assert(a + fewer == a);
    }
}

proof fn lemma_trailing_of(a: Seq<Seq<char>>, b: Seq<Seq<char>>)
    requires
        b.len() > 0,
        b[0].len() > 0,
    ensures
        message::without_trailing_empty(a + b) == a + message::without_trailing_empty(b),
    decreases b.len(),
{
    assert((a + b).last() == b.last());
    if b.last().len() == 0 {
        assert((a + b).drop_last() == a + b.drop_last());
        assert(b.drop_last()[0] == b[0]);
        lemma_trailing_of(a, b.drop_last());
    }
}

/// The rows of lines that end with a full one end with something on them.
proof fn lemma_held_ends_full(lines: Seq<Seq<char>>)
    requires
        has_no_feed(lines),
        lines.len() > 0,
        !text::is_blank(lines.last()),
    ensures
        message::held_lines(lines).len() > 0,
        message::held_lines(lines).last().len() > 0,
        message::without_trailing_empty(message::held_lines(lines)) == message::held_lines(lines),
{
    let last = lines.last();
    let rows = message::held(last);
    assert(!lines[lines.len() - 1].contains('\n'));
    message_laws::lemma_held(last);
    assert(message_laws::is_full_row(rows[rows.len() - 1]));
    assert(message::held_lines(lines).last() == rows[rows.len() - 1]);
}

/// Paragraphs stay apart and lines stay lines. Where the lines of a body are
/// those of two others, the first ending and the second beginning with a full
/// line, the wrapped body is the two wrapped bodies one below the other: with
/// one empty line between them if blank lines stand between the two, however
/// many, and with none if none do.
pub proof fn law_paragraphs_are_kept_apart_by_one_blank_line(
    body: Seq<char>,
    above: Seq<char>,
    blanks: Seq<Seq<char>>,
    below: Seq<char>,
)
    requires
        text::lines(body) == text::lines(above) + blanks + text::lines(below),
        all_blank(blanks),
        text::lines(above).len() > 0,
        !text::is_blank(text::lines(above).last()),
        text::lines(below).len() > 0,
        !text::is_blank(text::lines(below)[0]),
    ensures
        blanks.len() > 0 ==> message::wrapped_body(body) == message::wrapped_body(above) + seq![
            '\n',
            '\n',
        ] + message::wrapped_body(below),
        blanks.len() == 0 ==> message::wrapped_body(body) == message::wrapped_body(above) + seq![
            '\n',
        ] + message::wrapped_body(below),
{
    let first = text::lines(above);
    let second = text::lines(below);
    text_lemmas::lemma_lines_hold_no_feed(above);
    text_lemmas::lemma_lines_hold_no_feed(below);
    lemma_held_ends_full(first);
    lemma_held_below(first + blanks, second);
    let upper = message::held_lines(first);
    let lower = message::held_lines(second);
    reveal_strlit("\n");
    assert("\n"@ == seq!['\n']);
    let none = Seq::<char>::empty();
    assert(message::wrapped_lines(above) == upper);
    let rest = message::wrapped_lines(below);
    assert(rest.len() > 0 && rest[0].len() > 0) by {
        lemma_trailing_of(Seq::empty(), lower);
        assert(Seq::<Seq<char>>::empty() + lower == lower);
        message_laws::lemma_without_trailing_empty(lower);
        lemma_trailing_keeps_the_first(lower);
    }
    if blanks.len() > 0 {
        lemma_held_above_blanks(first, blanks);
        let gap = upper.push(none);
        assert(message::held_lines(text::lines(body)) == gap + lower);
        lemma_trailing_of(gap, lower);
        text_laws::law_joining_puts_the_separator_between(gap, rest, none, "\n"@);
        assert(gap == upper + seq![none]);
        text_laws::law_joining_puts_the_separator_between(upper, seq![none], none, "\n"@);
        assert(message::wrapped_body(body) == message::wrapped_body(above) + "\n"@ + none + "\n"@
            + message::wrapped_body(below));
        assert(message::wrapped_body(above) + "\n"@ + none + "\n"@ + message::wrapped_body(below)
            == message::wrapped_body(above) + seq!['\n', '\n'] + message::wrapped_body(below));
    } else {
        assert(first + blanks == first);
        lemma_trailing_of(upper, lower);
        text_laws::law_joining_puts_the_separator_between(upper, rest, none, "\n"@);
    }
}

proof fn lemma_trailing_keeps_the_first(rows: Seq<Seq<char>>)
    requires
        rows.len() > 0,
        rows[0].len() > 0,
    ensures
        message::without_trailing_empty(rows).len() > 0,
        message::without_trailing_empty(rows)[0] == rows[0],
    decreases rows.len(),
{
    if rows.last().len() == 0 {
        assert(rows.drop_last()[0] == rows[0]);
        lemma_trailing_keeps_the_first(rows.drop_last());
    }
}

/// Blank lines above or below a body do not show in the wrapped body, and a
/// body of blank lines wraps to nothing.
pub proof fn law_outer_blank_lines_drop(
    body: Seq<char>,
    above: Seq<Seq<char>>,
    inner: Seq<char>,
    below: Seq<Seq<char>>,
)
    requires
        text::lines(body) == above + text::lines(inner) + below,
        all_blank(above),
        all_blank(below),
    ensures
        message::wrapped_body(body) == message::wrapped_body(inner),
        inner.len() == 0 ==> message::wrapped_body(body).len() == 0,
{
    let middle = text::lines(inner);
    let rows = message::held_lines(middle);
    lemma_held_below_blanks(above, middle);
    if below.len() > 0 {
        lemma_held_above_blanks(above + middle, below);
        assert(rows.push(Seq::empty()).drop_last() == rows);
    } else {
        assert(above + middle + below == above + middle);
    }
    if inner.len() == 0 {
        assert(middle.len() == 0);
        assert(rows.len() == 0);
        assert(message::without_trailing_empty(rows).len() == 0);
    }
}

/// A body of one full line that keeps to 72 columns is left as it is, but for
/// white space at its end. A longer one becomes the rows of the wrapped line.
pub proof fn law_one_line_is_wrapped_by_itself(body: Seq<char>, line: Seq<char>)
    requires
        text::lines(body) == seq![line],
        !text::is_blank(line),
    ensures
        text::trim_end(line).len() <= 72 ==> message::wrapped_body(body) == text::trim_end(line),
        text::trim_end(line).len() > 72 ==> text::lines(message::wrapped_body(body))
            == message::wrapped(line, 72),
        text::trim_end(line).len() > 72 ==> message::wrapped_body(body) == text::join(
            message::wrapped(line, 72),
            seq!['\n'],
        ),
{
    let one = seq![line];
    text_lemmas::lemma_lines_hold_no_feed(body);
    assert(one[0] == line);
    lemma_held_ends_full(one);
    assert(one.drop_last().len() == 0);
    assert(message::held_lines(one.drop_last()) == Seq::<Seq<char>>::empty());
    assert(message::held_lines(one) == message::held(line));
    message_laws::lemma_wrapped_lines(body);
    reveal_strlit("\n");
    assert("\n"@ == seq!['\n']);
    let kept = text::trim_end(line);
    if kept.len() <= 72 {
        assert(message::wrapped_lines(body) == seq![kept]);
        assert(text::join(seq![kept], "\n"@) == kept);
    }
}

/// Every line of a wrapped body that a line feed ends is one of its lines: the
/// text is its lines with a line feed between each two.
pub proof fn law_a_wrapped_body_is_its_lines(body: Seq<char>)
    ensures
        message::wrapped_body(body) == text::join(
            text::lines(message::wrapped_body(body)),
            seq!['\n'],
        ),
{
    reveal_strlit("\n");
    assert("\n"@ == seq!['\n']);
    message_laws::lemma_wrapped_lines(body);
}

/// The words on a line, set with one space between each two behind a prefix.
pub open spec fn set_out(prefix: Seq<char>, words: Seq<Seq<char>>) -> Seq<char> {
    prefix + text::join(words, seq![' '])
}

spec fn are_words(words: Seq<Seq<char>>) -> bool {
    forall|i: int| 0 <= i < words.len() ==> text_lemmas::is_word(#[trigger] words[i])
}

proof fn lemma_words_set_out(prefix: Seq<char>, words: Seq<Seq<char>>)
    requires
        text::is_blank(prefix),
        are_words(words),
        words.len() > 0,
    ensures
        text::words(set_out(prefix, words)) == words,
    decreases words.len(),
{
    let gap = seq![' '];
    let front = words.drop_last();
    let last = words.last();
    assert(text_lemmas::is_word(words[words.len() - 1]));
    if front.len() == 0 {
        message_laws::lemma_words_of_indent_and_word(prefix, last);
        assert(words == seq![last]);
    } else {
        assert forall|i: int| 0 <= i < front.len() implies text_lemmas::is_word(
            #[trigger] front[i],
        ) by {
            assert(text_lemmas::is_word(words[i]));
        }
        lemma_words_set_out(prefix, front);
        let before = set_out(prefix, front);
        assert(set_out(prefix, words) == before + (gap + last));
        text_lemmas::lemma_words_add(before, gap + last);
        assert(text::is_blank(gap));
        message_laws::lemma_words_of_indent_and_word(gap, last);
        assert(front + seq![last] == words);
    }
}

/// Whether rows are set out behind their indents: the first behind `first`,
/// the others behind `later`.
pub open spec fn are_set_out(rows: Seq<Seq<char>>, first: Seq<char>, later: Seq<char>) -> bool {
    forall|i: int|
        0 <= i < rows.len() ==> (#[trigger] rows[i]) == set_out(
            if i == 0 {
                first
            } else {
                later
            },
            text::words(rows[i]),
        )
}

proof fn lemma_fill_sets_out(
    first: Seq<char>,
    set: Seq<Seq<char>>,
    rest: Seq<Seq<char>>,
    indent: Seq<char>,
    limit: nat,
)
    requires
        text::is_blank(first),
        text::is_blank(indent),
        set.len() > 0,
        are_words(set),
        are_words(rest),
        set.len() == 1 || set_out(first, set).len() <= limit,
    ensures
        ({
            let rows = message::fill(set_out(first, set), rest, indent, limit);
            &&& rows.len() > 0
            &&& are_set_out(rows, first, indent)
            &&& text_lemmas::all_words(rows) == set + rest
            &&& forall|i: int|
                0 <= i < rows.len() ==> (#[trigger] rows[i]).len() <= limit || text::words(
                    rows[i],
                ).len() == 1
        }),
    decreases rest.len(),
{
    let line = set_out(first, set);
    let rows = message::fill(line, rest, indent, limit);
    let gap = seq![' '];
    lemma_words_set_out(first, set);
    if rest.len() == 0 {
        assert(rows == seq![line]);
        text_lemmas::lemma_all_words_one(line);
        assert(set + rest == set);
    } else {
        let word = rest[0];
        let others = rest.drop_first();
        assert(text_lemmas::is_word(word));
        assert forall|i: int| 0 <= i < others.len() implies text_lemmas::is_word(
            #[trigger] others[i],
        ) by {
            assert(text_lemmas::is_word(rest[i + 1]));
        }
        if line.len() + 1 + word.len() > limit {
            let fresh = seq![word];
            assert forall|i: int| 0 <= i < fresh.len() implies text_lemmas::is_word(
                #[trigger] fresh[i],
            ) by {}
            assert(set_out(indent, fresh) == indent + word);
            lemma_fill_sets_out(indent, fresh, others, indent, limit);
            let more = message::fill(indent + word, others, indent, limit);
            assert(rows == seq![line] + more);
            text_lemmas::lemma_all_words_one(line);
            text_lemmas::lemma_all_words_add(seq![line], more);
            assert(set + (fresh + others) == set + rest);
            assert forall|i: int| 0 <= i < rows.len() implies (#[trigger] rows[i]) == set_out(
                if i == 0 {
                    first
                } else {
                    indent
                },
                text::words(rows[i]),
            ) && (rows[i].len() <= limit || text::words(rows[i]).len() == 1) by {
                if i > 0 {
                    assert(rows[i] == more[i - 1]);
                }
            }
        } else {
            let longer = set.push(word);
            assert forall|i: int| 0 <= i < longer.len() implies text_lemmas::is_word(
                #[trigger] longer[i],
            ) by {
                if i < set.len() {
                    assert(longer[i] == set[i]);
                }
            }
            assert(longer.drop_last() == set);
            assert(set_out(first, longer) == line.push(' ') + word);
            lemma_fill_sets_out(first, longer, others, indent, limit);
            assert(longer + others == set + rest);
        }
    }
}

/// What a wrapped line is. Its words come in order, one space between each two
/// on a row, and none is lost, broken or added. The first row keeps the
/// indent of the line, and the others have it too, two columns deeper below a
/// bullet. Each row keeps to the limit unless it holds a single word. That the
/// rows are broken only where they must be is stated with the greedy law.
pub proof fn law_what_a_wrapped_line_is(
    line: Seq<char>,
    indent: Seq<char>,
    content: Seq<char>,
    limit: nat,
)
    requires
        line == indent + content,
        forall|i: int| 0 <= i < indent.len() ==> text::is_white(#[trigger] indent[i]),
        content.len() > 0,
        !text::is_white(content[0]),
    ensures
        ({
            let rows = message::wrapped(line, limit);
            let bullet = content.len() >= 2 && (content[0] == '-' || content[0] == '*')
                && content[1] == ' ';
            &&& rows.len() > 0
            &&& are_set_out(
                rows,
                indent,
                if bullet {
                    indent + seq![' ', ' ']
                } else {
                    indent
                },
            )
            &&& text_lemmas::all_words(rows) == text::words(line)
            &&& text::words(text::join(rows, seq!['\n'])) == text::words(line)
            &&& forall|i: int|
                0 <= i < rows.len() ==> (#[trigger] rows[i]).len() <= limit || text::words(
                    rows[i],
                ).len() == 1
            &&& message_laws::is_greedy(rows, limit)
        }),
{
    reveal_strlit("- ");
    reveal_strlit("* ");
    reveal_strlit("  ");
    reveal_strlit("\n");
    assert("  "@ == seq![' ', ' ']);
    assert("\n"@ == seq!['\n']);
    let bullet = content.len() >= 2 && (content[0] == '-' || content[0] == '*') && content[1]
        == ' ';
    lemma_trim_start_content(indent, content);
    assert(message::indent_of(line) == indent);
    let dash = content.take(2);
    assert(message::is_bullet(line) == bullet) by {
        if content.len() >= 2 {
            assert(dash[0] == content[0] && dash[1] == content[1]);
            assert("- "@ == seq!['-', ' ']);
            assert("* "@ == seq!['*', ' ']);
            if bullet {
                assert(dash == seq![content[0], ' ']);
            }
        }
    }
    let hanging = message::hanging_indent(line);
    assert(text::is_blank(hanging)) by {
        assert forall|i: int| 0 <= i < hanging.len() implies text::is_white(
            #[trigger] hanging[i],
        ) by {
            if i < indent.len() {
                assert(text::is_white(indent[i]));
                assert(hanging[i] == indent[i]);
            }
        }
    }
    let all = text::words(content);
    text_lemmas::lemma_words_are_words(content);
    assert(all.len() > 0) by {
        if all.len() == 0 {
            text_lemmas::lemma_wordless_is_blank(content);
            assert(text::is_white(content[0]));
        }
    }
    let fresh = seq![all[0]];
    let rest = all.drop_first();
    assert(text_lemmas::is_word(all[0]));
    assert forall|i: int| 0 <= i < rest.len() implies text_lemmas::is_word(#[trigger] rest[i]) by {
        assert(text_lemmas::is_word(all[i + 1]));
    }
    assert(text::is_blank(indent));
    assert(set_out(indent, fresh) == indent + all[0]);
    lemma_fill_sets_out(indent, fresh, rest, hanging, limit);
    assert(fresh + rest == all);
    text_lemmas::lemma_words_trim_start(line);
    text_lemmas::lemma_words_join(message::wrapped(line, limit));
    message_laws::law_wrapping_is_greedy(line, limit);
}

proof fn lemma_trim_start_content(indent: Seq<char>, content: Seq<char>)
    requires
        forall|i: int| 0 <= i < indent.len() ==> text::is_white(#[trigger] indent[i]),
        content.len() > 0,
        !text::is_white(content[0]),
    ensures
        text::trim_start(indent + content) == content,
    decreases indent.len(),
{
    if indent.len() > 0 {
        let fewer = indent.drop_first();
        assert forall|i: int| 0 <= i < fewer.len() implies text::is_white(#[trigger] fewer[i]) by {
            assert(text::is_white(indent[i + 1]));
        }
        lemma_trim_start_content(fewer, content);
        assert(text::is_white(indent[0]));
        assert((indent + content).drop_first() == fewer + content);
    } else {
        assert(indent + content == content);
    }
}

/// A blank line wraps to nothing.
pub proof fn law_a_blank_line_wraps_to_nothing(line: Seq<char>, limit: nat)
    requires
        text::is_blank(line),
    ensures
        message::wrapped(line, limit).len() == 0,
{
    text_lemmas::lemma_words_trim_start(line);
    text_lemmas::lemma_blank_has_no_words(line);
}

} // verus!
