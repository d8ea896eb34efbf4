//! What holds of every message that [`crate::message`] makes.

use vstd::prelude::*;

use crate::message;
use crate::message::{FormattedView, BODY_WIDTH, SUBJECT_LIMIT};
use crate::text;
use crate::text_lemmas;

verus! {

/// A truncated subject keeps to the limit and is the beginning of the
/// subject; one that keeps to the limit already is left alone; and one that
/// was cut does not end with a space.
pub proof fn law_truncated_subject_fits(subject: Seq<char>)
    ensures
        message::fits(message::truncated(subject)),
        text::starts_with(subject, message::truncated(subject)),
        message::fits(subject) ==> message::truncated(subject) == subject,
        !message::fits(subject) && message::truncated(subject).len() > 0 ==> message::truncated(subject).last() != ' ',
{
    if message::fits(subject) {
        assert(subject.take(subject.len() as int) == subject);
    } else {
        let cut = subject.take(SUBJECT_LIMIT as int);
        let at = text::rfind(cut, ' ');
        text::lemma_rfind(cut, ' ');
        if at > 0 {
            text::lemma_trim_end(cut.take(at));
            let kept = message::truncated(subject);
            assert(subject.take(kept.len() as int) == kept);
        } else {
            assert(cut.last() == cut[SUBJECT_LIMIT - 1]);
            assert(subject.take(cut.len() as int) == cut);
        }
    }
}

/// Whether `row` is a line with something on it and no white space at its
/// end.
pub open spec fn is_full_row(row: Seq<char>) -> bool {
    row.len() > 0 && !text::is_white(row.last()) && !row.contains('\n')
}

/// Whether `row` keeps to `limit` columns, or holds one word that cannot.
pub open spec fn is_narrow(row: Seq<char>, limit: nat) -> bool {
    row.len() <= limit || text::words(row).len() == 1
}

proof fn lemma_row_of_indent_and_word(indent: Seq<char>, word: Seq<char>)
    requires
        text::is_blank(indent),
        !indent.contains('\n'),
        text_lemmas::is_word(word),
    ensures
        is_full_row(indent + word),
        text::words(indent + word) == seq![word],
{
    let row = indent + word;
    assert(row.last() == word[word.len() - 1]);
    assert forall|i: int| 0 <= i < row.len() implies row[i] != '\n' by {
        if i >= indent.len() {
            assert(!text::is_white(word[i - indent.len()]));
        } else {
            assert(row[i] == indent[i]);
        }
    }
    lemma_words_of_indent_and_word(indent, word);
}

proof fn lemma_fill(line: Seq<char>, rest: Seq<Seq<char>>, indent: Seq<char>, limit: nat)
    requires
        is_full_row(line),
        is_narrow(line, limit),
        text::is_blank(indent),
        !indent.contains('\n'),
        forall|i: int| 0 <= i < rest.len() ==> text_lemmas::is_word(#[trigger] rest[i]),
    ensures
        text_lemmas::all_words(message::fill(line, rest, indent, limit)) == text::words(line) + rest,
        message::fill(line, rest, indent, limit).len() > 0,
        forall|i: int|
            0 <= i < message::fill(line, rest, indent, limit).len() ==> {
                &&& is_full_row(#[trigger] message::fill(line, rest, indent, limit)[i])
                &&& is_narrow(message::fill(line, rest, indent, limit)[i], limit)
            },
    decreases rest.len(),
{
    let out = message::fill(line, rest, indent, limit);
    if rest.len() == 0 {
        text_lemmas::lemma_all_words_one(line);
        assert(text::words(line) + rest == text::words(line));
    } else {
        let word = rest[0];
        let others = rest.drop_first();
        assert(text_lemmas::is_word(word));
        assert forall|i: int| 0 <= i < others.len() implies text_lemmas::is_word(#[trigger] others[i]) by {
            assert(text_lemmas::is_word(rest[i + 1]));
        }
        if line.len() + 1 + word.len() > limit {
            let next = indent + word;
            lemma_row_of_indent_and_word(indent, word);
            lemma_fill(next, others, indent, limit);
            let more = message::fill(next, others, indent, limit);
            text_lemmas::lemma_all_words_one(line);
            text_lemmas::lemma_all_words_add(seq![line], more);
            assert(out == seq![line] + more);
            assert(text::words(line) + (seq![word] + others) == text::words(line) + rest);
            assert forall|i: int| 0 <= i < out.len() implies {
                &&& is_full_row(#[trigger] out[i])
                &&& is_narrow(out[i], limit)
            } by {
                if i > 0 {
                    assert(out[i] == more[i - 1]);
                }
            }
        } else {
            let longer = line.push(' ') + word;
            assert(longer.last() == word[word.len() - 1]);
            assert forall|i: int| 0 <= i < longer.len() implies longer[i] != '\n' by {
                if i > line.len() {
                    assert(!text::is_white(word[i - line.len() - 1]));
                } else if i < line.len() {
                    assert(longer[i] == line[i]);
                }
            }
            let gap = seq![' '];
            assert(longer == line + (gap + word));
            text_lemmas::lemma_words_add(line, gap + word);
            lemma_row_of_indent_and_word(gap, word);
            lemma_fill(longer, others, indent, limit);
            assert(text::words(longer) + others == text::words(line) + rest);
        }
    }
}

proof fn lemma_wrapped(line: Seq<char>, limit: nat)
    requires
        !line.contains('\n'),
    ensures
        text_lemmas::all_words(message::wrapped(line, limit)) == text::words(line),
        !text::is_blank(line) ==> message::wrapped(line, limit).len() > 0,
        forall|i: int|
            0 <= i < message::wrapped(line, limit).len() ==> {
                &&& is_full_row(#[trigger] message::wrapped(line, limit)[i])
                &&& is_narrow(message::wrapped(line, limit)[i], limit)
            },
{
    let content = text::trim_start(line);
    let all = text::words(content);
    let indent = message::indent_of(line);
    let hanging = message::hanging_indent(line);
    text::lemma_trim_start(line);
    text_lemmas::lemma_words_trim_start(line);
    text_lemmas::lemma_words_are_words(content);
    if all.len() == 0 {
        text_lemmas::lemma_wordless_is_blank(line);
    } else {
        assert(text_lemmas::is_word(all[0]));
        let rest = all.drop_first();
        assert forall|i: int| 0 <= i < rest.len() implies text_lemmas::is_word(#[trigger] rest[i]) by {
            assert(text_lemmas::is_word(all[i + 1]));
        }
        assert forall|i: int| 0 <= i < indent.len() implies indent[i] != '\n' by {
            assert(indent[i] == line[i]);
        }
        assert(text::is_blank(hanging) && !hanging.contains('\n')) by {
            reveal_strlit("  ");
            assert forall|i: int| 0 <= i < hanging.len() implies text::is_white(#[trigger] hanging[i])
                && hanging[i] != '\n' by {
                if i < indent.len() {
                    assert(text::is_white(indent[i]));
                    assert(hanging[i] == indent[i]);
                }
            }
        }
        lemma_row_of_indent_and_word(indent, all[0]);
        lemma_fill(indent + all[0], rest, hanging, limit);
        assert(seq![all[0]] + rest == all);
    }
}

pub proof fn lemma_held(line: Seq<char>)
    requires
        !line.contains('\n'),
        !text::is_blank(line),
    ensures
        text_lemmas::all_words(message::held(line)) == text::words(line),
        message::held(line).len() > 0,
        forall|i: int|
            0 <= i < message::held(line).len() ==> {
                &&& is_full_row(#[trigger] message::held(line)[i])
                &&& is_narrow(message::held(line)[i], BODY_WIDTH as nat)
            },
{
    let kept = text::trim_end(line);
    text::lemma_trim_end(line);
    if kept.len() <= BODY_WIDTH {
        if kept.len() == 0 {
            assert(line.skip(0) == line);
        }
        assert forall|i: int| 0 <= i < kept.len() implies kept[i] != '\n' by {
            assert(kept[i] == line[i]);
        }
        text_lemmas::lemma_words_trim_end(line);
        text_lemmas::lemma_all_words_one(kept);
    } else {
        lemma_wrapped(line, BODY_WIDTH as nat);
    }
}

/// Whether the first word of `next` would pass the limit on `row`.
pub open spec fn must_break(row: Seq<char>, next: Seq<char>, limit: nat) -> bool {
    text::words(next).len() > 0 && row.len() + 1 + text::words(next)[0].len() > limit
}

/// Whether the rows are broken only where they must be.
pub open spec fn is_greedy(rows: Seq<Seq<char>>, limit: nat) -> bool {
    forall|i: int, j: int|
        0 <= i < rows.len() && j == i + 1 && j < rows.len() ==> #[trigger] must_break(
            rows[i],
            rows[j],
            limit,
        )
}

proof fn lemma_fill_is_greedy(
    line: Seq<char>,
    rest: Seq<Seq<char>>,
    indent: Seq<char>,
    limit: nat,
)
    requires
        text::words(line).len() > 0,
        text::is_blank(indent),
        forall|i: int| 0 <= i < rest.len() ==> text_lemmas::is_word(#[trigger] rest[i]),
    ensures
        message::fill(line, rest, indent, limit).len() > 0,
        text::words(message::fill(line, rest, indent, limit)[0]).len() > 0,
        text::words(message::fill(line, rest, indent, limit)[0])[0] == text::words(line)[0],
        is_greedy(message::fill(line, rest, indent, limit), limit),
    decreases rest.len(),
{
    let out = message::fill(line, rest, indent, limit);
    if rest.len() > 0 {
        let word = rest[0];
        let others = rest.drop_first();
        assert(text_lemmas::is_word(word));
        assert forall|i: int| 0 <= i < others.len() implies text_lemmas::is_word(
            #[trigger] others[i],
        ) by {
            assert(text_lemmas::is_word(rest[i + 1]));
        }
        if line.len() + 1 + word.len() > limit {
            lemma_words_of_indent_and_word(indent, word);
            lemma_fill_is_greedy(indent + word, others, indent, limit);
            let more = message::fill(indent + word, others, indent, limit);
            assert(out == seq![line] + more);
            assert(text::words(more[0])[0] == word);
            assert forall|i: int, j: int|
                0 <= i < out.len() && j == i + 1 && j < out.len() implies #[trigger] must_break(
                out[i],
                out[j],
                limit,
            ) by {
                assert(out[j] == more[j - 1]);
                if i > 0 {
                    assert(out[i] == more[i - 1]);
                } else {
                    assert(out[i] == line);
                }
            }
        } else {
            let gap = seq![' '];
            let longer = line.push(' ') + word;
            assert(longer == line + (gap + word));
            text_lemmas::lemma_words_add(line, gap + word);
            lemma_fill_is_greedy(longer, others, indent, limit);
            assert(out == message::fill(longer, others, indent, limit));
        }
    }
}

pub proof fn lemma_words_of_indent_and_word(indent: Seq<char>, word: Seq<char>)
    requires
        text::is_blank(indent),
        text_lemmas::is_word(word),
    ensures
        text::words(indent + word) == seq![word],
{
    if indent.len() > 0 {
        assert(text::is_white(indent[indent.len() - 1]));
    }
    text_lemmas::lemma_words_add(indent, word);
    text_lemmas::lemma_blank_has_no_words(indent);
    text_lemmas::lemma_word_is_its_words(word);
    assert(text::words(indent) + text::words(word) == seq![word]);
}

/// Wrapping is greedy: a line is broken only where the next word would pass
/// the limit.
pub proof fn law_wrapping_is_greedy(line: Seq<char>, limit: nat)
    ensures
        is_greedy(message::wrapped(line, limit), limit),
{
    let content = text::trim_start(line);
    let all = text::words(content);
    let indent = message::indent_of(line);
    let hanging = message::hanging_indent(line);
    text::lemma_trim_start(line);
    text_lemmas::lemma_words_are_words(content);
    if all.len() > 0 {
        let rest = all.drop_first();
        assert(text_lemmas::is_word(all[0]));
        assert forall|i: int| 0 <= i < rest.len() implies text_lemmas::is_word(
            #[trigger] rest[i],
        ) by {
            assert(text_lemmas::is_word(all[i + 1]));
        }
        assert(text::is_blank(hanging)) by {
            reveal_strlit("  ");
            assert forall|i: int| 0 <= i < hanging.len() implies text::is_white(
                #[trigger] hanging[i],
            ) by {
                if i < indent.len() {
                    assert(text::is_white(indent[i]));
                    assert(hanging[i] == indent[i]);
                }
            }
        }
        lemma_words_of_indent_and_word(indent, all[0]);
        lemma_fill_is_greedy(indent + all[0], rest, hanging, limit);
    }
}

/// Whether an empty row stands between two that are not, wherever it stands:
/// never first, never after another.
pub open spec fn is_spaced(rows: Seq<Seq<char>>) -> bool {
    forall|i: int| #![trigger rows[i]]
        0 <= i < rows.len() && rows[i].len() == 0 ==> i > 0 && rows[i - 1].len() > 0
}

/// Whether each row is empty or a full row that keeps to the width as far as
/// it can.
pub open spec fn is_held(rows: Seq<Seq<char>>) -> bool {
    forall|i: int|
        0 <= i < rows.len() && (#[trigger] rows[i]).len() > 0 ==> is_full_row(rows[i])
            && is_narrow(rows[i], BODY_WIDTH as nat)
}

pub proof fn lemma_held_lines(all: Seq<Seq<char>>)
    requires
        forall|i: int| 0 <= i < all.len() ==> !(#[trigger] all[i]).contains('\n'),
    ensures
        text_lemmas::all_words(message::held_lines(all)) == text_lemmas::all_words(all),
        is_held(message::held_lines(all)),
        is_spaced(message::held_lines(all)),
    decreases all.len(),
{
    if all.len() > 0 {
        let front = all.drop_last();
        let line = all.last();
        let before = message::held_lines(front);
        let out = message::held_lines(all);
        assert forall|i: int| 0 <= i < front.len() implies !(#[trigger] front[i]).contains(
            '\n',
        ) by {
            assert(!all[i].contains('\n'));
        }
        assert(!all[all.len() - 1].contains('\n'));
        lemma_held_lines(front);
        if !text::is_blank(line) {
            let added = message::held(line);
            lemma_held(line);
            text_lemmas::lemma_all_words_add(before, added);
            assert forall|i: int| 0 <= i < out.len() && (#[trigger] out[i]).len() > 0 implies
                is_full_row(out[i]) && is_narrow(out[i], BODY_WIDTH as nat) by {
                if i >= before.len() {
                    assert(out[i] == added[i - before.len()]);
                } else {
                    assert(out[i] == before[i]);
                }
            }
            assert forall|i: int| #![trigger out[i]] 0 <= i < out.len() && out[i].len() == 0 implies i
                > 0 && out[i - 1].len() > 0 by {
                if i >= before.len() {
                    assert(is_full_row(added[i - before.len()]));
                } else {
                    assert(out[i] == before[i]);
                    assert(out[i - 1] == before[i - 1]);
                }
            }
        } else {
            text_lemmas::lemma_blank_has_no_words(line);
            assert(text_lemmas::all_words(front) + text::words(line) == text_lemmas::all_words(front));
            if before.len() > 0 && before.last().len() > 0 {
                let none = Seq::<char>::empty();
                text_lemmas::lemma_all_words_one(none);
                text_lemmas::lemma_all_words_add(before, seq![none]);
                assert(out == before + seq![none]);
                assert(text::words(none) == Seq::<Seq<char>>::empty());
                assert(text_lemmas::all_words(before) + text::words(none) == text_lemmas::all_words(before));
                assert forall|i: int| 0 <= i < out.len() && (#[trigger] out[i]).len() > 0 implies
                    is_full_row(out[i]) && is_narrow(out[i], BODY_WIDTH as nat) by {
                    assert(out[i] == before[i]);
                }
                assert forall|i: int|
                    #![trigger out[i]]
                    0 <= i < out.len() && out[i].len() == 0 implies i > 0 && out[i - 1].len()
                    > 0 by {
                    assert(out[i - 1] == before[i - 1]);
                    if i < before.len() {
                        assert(out[i] == before[i]);
                    }
                }
            }
        }
    }
}

pub proof fn lemma_without_trailing_empty(rows: Seq<Seq<char>>)
    ensures
        message::without_trailing_empty(rows).len() <= rows.len(),
        message::without_trailing_empty(rows) == rows.take(message::without_trailing_empty(rows).len() as int),
        text_lemmas::all_words(message::without_trailing_empty(rows)) == text_lemmas::all_words(rows),
        message::without_trailing_empty(rows).len() > 0 ==> message::without_trailing_empty(rows).last().len() > 0,
    decreases rows.len(),
{
    if rows.len() > 0 && rows.last().len() == 0 {
        let front = rows.drop_last();
        lemma_without_trailing_empty(front);
        let kept = message::without_trailing_empty(front).len() as int;
        assert(front.take(kept) == rows.take(kept));
        assert(text::words(rows.last()) == Seq::<Seq<char>>::empty());
        assert(text_lemmas::all_words(front) + text::words(rows.last()) == text_lemmas::all_words(front));
    } else {
        assert(rows.take(rows.len() as int) == rows);
    }
}

/// Every line of a wrapped body keeps to the width, or holds one word that
/// cannot.
pub proof fn law_wrapped_lines_keep_to_the_width(body: Seq<char>)
    ensures
        text::lines(message::wrapped_body(body)) == message::wrapped_lines(body),
        forall|i: int|
            0 <= i < message::wrapped_lines(body).len() ==> {
                ||| (#[trigger] message::wrapped_lines(body)[i]).len() <= BODY_WIDTH
                ||| text::words(message::wrapped_lines(body)[i]).len() == 1
            },
{
    lemma_wrapped_lines(body);
    let rows = message::wrapped_lines(body);
    assert forall|i: int| 0 <= i < rows.len() implies {
        ||| (#[trigger] rows[i]).len() <= BODY_WIDTH
        ||| text::words(rows[i]).len() == 1
    } by {
        if rows[i].len() > 0 {
            assert(is_narrow(rows[i], BODY_WIDTH as nat));
        }
    }
}

pub proof fn lemma_wrapped_lines(body: Seq<char>)
    ensures
        text::lines(message::wrapped_body(body)) == message::wrapped_lines(body),
        text_lemmas::all_words(message::wrapped_lines(body)) == text::words(body),
        is_held(message::wrapped_lines(body)),
        is_spaced(message::wrapped_lines(body)),
        message::wrapped_lines(body).len() > 0 ==> message::wrapped_lines(body).last().len() > 0,
{
    let all = message::held_lines(text::lines(body));
    let rows = message::wrapped_lines(body);
    text_lemmas::lemma_lines_hold_no_feed(body);
    lemma_held_lines(text::lines(body));
    lemma_without_trailing_empty(all);
    text_lemmas::lemma_words_lines(body);
    assert forall|i: int| 0 <= i < rows.len() && (#[trigger] rows[i]).len() > 0 implies is_full_row(
        rows[i],
    ) && is_narrow(rows[i], BODY_WIDTH as nat) by {
        assert(rows[i] == all[i]);
    }
    assert forall|i: int| #![trigger rows[i]] 0 <= i < rows.len() && rows[i].len() == 0 implies i
        > 0 && rows[i - 1].len() > 0 by {
        assert(rows[i] == all[i]);
        assert(rows[i - 1] == all[i - 1]);
    }
    assert forall|i: int| 0 <= i < rows.len() implies text_lemmas::is_line(#[trigger] rows[i]) by {
        if rows[i].len() > 0 {
            assert(is_full_row(rows[i]));
        }
    }
    text_lemmas::lemma_lines_join(rows);
}

/// Wrapping neither loses, adds, breaks nor reorders a word.
pub proof fn law_wrapping_keeps_the_words(body: Seq<char>)
    ensures
        text::words(message::wrapped_body(body)) == text::words(body),
{
    lemma_wrapped_lines(body);
    text_lemmas::lemma_words_join(message::wrapped_lines(body));
}

/// In a wrapped body every blank line is empty and stands between two lines
/// that are not: none comes first, none comes last, and no two follow each
/// other.
pub proof fn law_blank_lines_stand_alone(body: Seq<char>)
    ensures
        forall|i: int| #![trigger message::wrapped_lines(body)[i]]
            0 <= i < message::wrapped_lines(body).len() && text::is_blank(message::wrapped_lines(body)[i]) ==> {
                &&& message::wrapped_lines(body)[i].len() == 0
                &&& 0 < i < message::wrapped_lines(body).len() - 1
                &&& message::wrapped_lines(body)[i - 1].len() > 0
                &&& message::wrapped_lines(body)[i + 1].len() > 0
            },
{
    lemma_wrapped_lines(body);
    let rows = message::wrapped_lines(body);
    assert forall|i: int| #![trigger rows[i]] 0 <= i < rows.len() && text::is_blank(rows[i]) implies {
        &&& rows[i].len() == 0
        &&& 0 < i < rows.len() - 1
        &&& rows[i - 1].len() > 0
        &&& rows[i + 1].len() > 0
    } by {
        if rows[i].len() > 0 {
            assert(is_full_row(rows[i]));
            assert(text::is_white(rows[i][rows[i].len() - 1]));
        }
        assert(i + 1 < rows.len() ==> (rows[i + 1].len() == 0 ==> rows[i].len() > 0));
    }
}

/// The rows with anything on them.
pub open spec fn full_rows(rows: Seq<Seq<char>>) -> Seq<Seq<char>>
    decreases rows.len(),
{
    if rows.len() == 0 {
        Seq::empty()
    } else if rows.last().len() == 0 {
        full_rows(rows.drop_last())
    } else {
        full_rows(rows.drop_last()).push(rows.last())
    }
}

/// The lines that are not blank, each held to the width by itself.
pub open spec fn held_one_by_one(all: Seq<Seq<char>>) -> Seq<Seq<char>>
    decreases all.len(),
{
    if all.len() == 0 {
        Seq::empty()
    } else if text::is_blank(all.last()) {
        held_one_by_one(all.drop_last())
    } else {
        held_one_by_one(all.drop_last()) + message::held(all.last())
    }
}

proof fn lemma_full_rows_add(a: Seq<Seq<char>>, b: Seq<Seq<char>>)
    requires
        forall|i: int| 0 <= i < b.len() ==> (#[trigger] b[i]).len() > 0,
    ensures
        full_rows(a + b) == full_rows(a) + b,
    decreases b.len(),
{
    if b.len() == 0 {
        assert(a + b == a);
        assert(full_rows(a) + b == full_rows(a));
    } else {
        let front = b.drop_last();
        assert forall|i: int| 0 <= i < front.len() implies (#[trigger] front[i]).len() > 0 by {
            assert(b[i].len() > 0);
        }
        assert((a + b).drop_last() == a + front);
        assert((a + b).last() == b[b.len() - 1]);
        lemma_full_rows_add(a, front);
        assert(full_rows(a + b) == full_rows(a) + b);
    }
}

proof fn lemma_held_one_by_one(all: Seq<Seq<char>>)
    requires
        forall|i: int| 0 <= i < all.len() ==> !(#[trigger] all[i]).contains('\n'),
    ensures
        full_rows(message::held_lines(all)) == held_one_by_one(all),
    decreases all.len(),
{
    if all.len() > 0 {
        let front = all.drop_last();
        let line = all.last();
        let before = message::held_lines(front);
        assert forall|i: int| 0 <= i < front.len() implies !(#[trigger] front[i]).contains(
            '\n',
        ) by {
            assert(!all[i].contains('\n'));
        }
        assert(!all[all.len() - 1].contains('\n'));
        lemma_held_one_by_one(front);
        if !text::is_blank(line) {
            let added = message::held(line);
            lemma_held(line);
            assert forall|i: int| 0 <= i < added.len() implies (#[trigger] added[i]).len() > 0 by {
                assert(is_full_row(added[i]));
            }
            lemma_full_rows_add(before, added);
        } else if before.len() > 0 && before.last().len() > 0 {
            let out = before.push(Seq::empty());
            assert(out.drop_last() == before);
            assert(out.last().len() == 0);
        }
    }
}

proof fn lemma_full_rows_of_trimmed(rows: Seq<Seq<char>>)
    ensures
        full_rows(message::without_trailing_empty(rows)) == full_rows(rows),
    decreases rows.len(),
{
    if rows.len() > 0 && rows.last().len() == 0 {
        lemma_full_rows_of_trimmed(rows.drop_last());
    }
}

/// Lines are never joined: what is on the wrapped lines is what each line of
/// the body is by itself, and a line that keeps to the width stays one line.
pub proof fn law_lines_are_never_joined(body: Seq<char>)
    ensures
        full_rows(message::wrapped_lines(body)) == held_one_by_one(text::lines(body)),
        forall|line: Seq<char>|
            text::trim_end(line).len() <= BODY_WIDTH ==> #[trigger] message::held(line) == seq![text::trim_end(line)],
{
    text_lemmas::lemma_lines_hold_no_feed(body);
    lemma_held_one_by_one(text::lines(body));
    lemma_full_rows_of_trimmed(message::held_lines(text::lines(body)));
}

proof fn lemma_held_again(row: Seq<char>)
    requires
        is_full_row(row),
        is_narrow(row, BODY_WIDTH as nat),
    ensures
        message::held(row) == seq![row],
{
    text_lemmas::lemma_trim_end_is_kept(row);
    if row.len() > BODY_WIDTH {
        let content = text::trim_start(row);
        text::lemma_trim_start(row);
        text_lemmas::lemma_words_trim_start(row);
        if content.len() == 0 {
            assert(row.take(row.len() as int) == row);
            assert(text::is_white(row[row.len() - 1]));
        }
        assert(content.last() == row.last());
        text_lemmas::lemma_lone_word(content);
        assert(text::words(content).drop_first().len() == 0);
        assert(message::indent_of(row) + content == row);
    }
}

proof fn lemma_held_lines_again(rows: Seq<Seq<char>>)
    requires
        is_held(rows),
        is_spaced(rows),
    ensures
        message::held_lines(rows) == rows,
    decreases rows.len(),
{
    if rows.len() > 0 {
        let front = rows.drop_last();
        let row = rows.last();
        assert forall|i: int| 0 <= i < front.len() && (#[trigger] front[i]).len() > 0 implies
            is_full_row(front[i]) && is_narrow(front[i], BODY_WIDTH as nat) by {
            assert(front[i] == rows[i]);
        }
        assert forall|i: int| #![trigger front[i]] 0 <= i < front.len() && front[i].len() == 0 implies i
            > 0 && front[i - 1].len() > 0 by {
            assert(front[i] == rows[i]);
            assert(front[i - 1] == rows[i - 1]);
        }
        lemma_held_lines_again(front);
        assert(row == rows[rows.len() - 1]);
        if row.len() > 0 {
            assert(is_full_row(row));
            assert(!text::is_blank(row)) by {
                if text::is_blank(row) {
                    assert(text::is_white(row[row.len() - 1]));
                }
            }
            lemma_held_again(row);
            assert(front + seq![row] == rows);
        } else {
            assert(rows[rows.len() - 2].len() > 0);
            assert(front.last() == rows[rows.len() - 2]);
            assert(row == Seq::<char>::empty());
            assert(front.push(row) == rows);
        }
    }
}

/// A wrapped body is not changed by wrapping it again.
pub proof fn law_wrapping_twice_is_wrapping_once(body: Seq<char>)
    ensures
        message::wrapped_body(message::wrapped_body(body)) == message::wrapped_body(body),
{
    lemma_wrapped_lines(body);
    lemma_held_lines_again(message::wrapped_lines(body));
}

proof fn lemma_trim_end_char(s: Seq<char>, c: char)
    ensures
        text::trim_end_char(s, c).len() <= s.len(),
        text::trim_end_char(s, c) == s.take(text::trim_end_char(s, c).len() as int),
    decreases s.len(),
{
    if s.len() > 0 && s.last() == c {
        let front = s.drop_last();
        lemma_trim_end_char(front, c);
        let kept = text::trim_end_char(front, c).len() as int;
        assert(front.take(kept) == s.take(kept));
    } else {
        assert(s.take(s.len() as int) == s);
    }
}

/// A subject is part of one line, and white space stands neither before nor
/// after it.
proof fn lemma_subject(line: Seq<char>)
    requires
        !line.contains('\n'),
    ensures
        !message::subject_of(line).contains('\n'),
        message::subject_of(line).len() > 0 ==> {
            &&& !text::is_white(message::subject_of(line)[0])
            &&& !text::is_white(message::subject_of(line).last())
        },
{
    let whole = text::trim(line);
    let front = text::trim_start(line);
    let bare = text::trim_end_char(whole, '.');
    let subject = message::subject_of(line);
    text::lemma_trim_start(line);
    text::lemma_trim_end(front);
    text_lemmas::lemma_trim_twice(line);
    lemma_trim_end_char(whole, '.');
    text::lemma_trim_end(bare);
    assert forall|i: int| 0 <= i < subject.len() implies subject[i] != '\n' by {
        assert(subject[i] == front[i]);
        assert(front[i] == line[i + (line.len() - front.len())]);
    }
    if subject.len() > 0 {
        assert(subject[0] == whole[0]);
    }
}

pub proof fn lemma_first_full(all: Seq<Seq<char>>)
    ensures
        0 <= message::first_full(all) <= all.len(),
    decreases all.len(),
{
    if all.len() > 0 && text::is_blank(all[0]) {
        lemma_first_full(all.drop_first());
    }
}

/// The subject of a parsed message is on one line.
pub proof fn law_a_parsed_subject_is_one_line(raw: Seq<char>)
    ensures
        !message::parsed(raw).subject.contains('\n'),
{
    let all = text::lines(raw);
    let at = message::first_full(all);
    text_lemmas::lemma_lines_hold_no_feed(raw);
    lemma_first_full(all);
    if at < all.len() {
        assert(!all[at].contains('\n'));
        lemma_subject(all[at]);
    }
}

/// The 50/72 rule: the first line has at most 50 columns, the second is empty,
/// and every other line has at most 72 or holds one word that cannot be
/// shorter. A second line comes only with a body below it, which neither
/// begins nor ends with an empty line, and no line feed ends the text.
pub open spec fn obeys_the_rule(printed: Seq<char>) -> bool {
    let lines = text::lines(printed);
    &&& lines.len() > 0 ==> lines[0].len() <= SUBJECT_LIMIT
    &&& lines.len() > 1 ==> lines[1].len() == 0
    &&& lines.len() > 1 ==> lines.len() > 2 && lines[2].len() > 0 && lines.last().len() > 0
    &&& printed.len() > 0 ==> printed.last() != '\n'
    &&& forall|i: int|
        2 <= i < lines.len() ==> (#[trigger] lines[i]).len() <= BODY_WIDTH || text::words(
            lines[i],
        ).len() == 1
}

/// Whatever the model replied, the text that is printed obeys the rule.
pub proof fn law_the_printed_message_obeys_the_rule(raw: Seq<char>)
    ensures
        obeys_the_rule(message::finished(message::parsed(message::sanitized(raw)))),
{
    let parsed = message::parsed(message::sanitized(raw));
    let subject = message::truncated(parsed.subject);
    let body = message::wrapped_body(parsed.body);
    law_a_parsed_subject_is_one_line(message::sanitized(raw));
    law_truncated_subject_fits(parsed.subject);
    law_wrapped_lines_keep_to_the_width(parsed.body);
    lemma_wrapped_lines(parsed.body);
    assert forall|i: int| 0 <= i < subject.len() implies subject[i] != '\n' by {
        assert(subject[i] == parsed.subject[i]);
    }
    let all = text::lines(message::finished(parsed));
    if body.len() == 0 {
        if subject.len() > 0 {
            text_lemmas::lemma_lines_one(subject);
        }
    } else {
        reveal_strlit("\n");
        reveal_strlit("\n\n");
        let none = Seq::<char>::empty();
        let below = none + "\n"@ + body;
        assert(subject + "\n\n"@ + body == subject + "\n"@ + below);
        text_lemmas::lemma_lines_front(subject, below);
        text_lemmas::lemma_lines_front(none, body);
        let rows = message::wrapped_lines(parsed.body);
        assert(all == seq![text::chomp(subject)] + (seq![none] + rows));
        assert forall|i: int| 2 <= i < all.len() implies (#[trigger] all[i]).len() <= BODY_WIDTH
            || text::words(all[i]).len() == 1 by {
            assert(all[i] == rows[i - 2]);
        }
        assert(rows.len() > 0);
        assert(all[2] == rows[0]);
        assert(all.last() == rows[rows.len() - 1]);
        assert(is_full_row(rows[rows.len() - 1]));
        assert(body.last() == rows.last().last());
    }
}

/// The rows without the empty ones at their front.
pub open spec fn without_leading_empty(rows: Seq<Seq<char>>) -> Seq<Seq<char>>
    decreases rows.len(),
{
    if rows.len() > 0 && rows[0].len() == 0 {
        without_leading_empty(rows.drop_first())
    } else {
        rows
    }
}

/// Whether no row holds a line feed or has white space at its end.
pub open spec fn is_tidy(rows: Seq<Seq<char>>) -> bool {
    forall|i: int|
        0 <= i < rows.len() ==> !(#[trigger] rows[i]).contains('\n') && (rows[i].len() > 0
            ==> !text::is_white(rows[i].last()))
}

proof fn lemma_trim_leading_feeds(rows: Seq<Seq<char>>)
    requires
        is_tidy(rows),
    ensures
        text::trim_start_char(text::join(rows, "\n"@), '\n') == text::join(
            without_leading_empty(rows),
            "\n"@,
        ),
        is_tidy(without_leading_empty(rows)),
        without_leading_empty(rows).len() > 0 ==> without_leading_empty(rows)[0].len() > 0,
    decreases rows.len(),
{
    reveal_strlit("\n");
    let all = text::join(rows, "\n"@);
    if rows.len() == 0 {
    } else if rows[0].len() == 0 {
        let rest = rows.drop_first();
        assert forall|i: int| 0 <= i < rest.len() implies !(#[trigger] rest[i]).contains('\n') && (
        rest[i].len() > 0 ==> !text::is_white(rest[i].last())) by {
            assert(!rows[i + 1].contains('\n'));
        }
        lemma_trim_leading_feeds(rest);
        if rows.len() >= 2 {
            text_lemmas::lemma_join_front(rows, "\n"@);
            assert(all[0] == '\n');
            assert(all.drop_first() == text::join(rest, "\n"@));
        } else {
            assert(rest.len() == 0);
            assert(text::join(rest, "\n"@) == Seq::<char>::empty());
        }
    } else {
        if rows.len() >= 2 {
            text_lemmas::lemma_join_front(rows, "\n"@);
        }
        assert(all[0] == rows[0][0]);
        assert(!rows[0].contains('\n'));
    }
}

proof fn lemma_trim_trailing_feeds(rows: Seq<Seq<char>>)
    requires
        is_tidy(rows),
    ensures
        text::trim_end_char(text::join(rows, "\n"@), '\n') == text::join(
            message::without_trailing_empty(rows),
            "\n"@,
        ),
    decreases rows.len(),
{
    reveal_strlit("\n");
    let all = text::join(rows, "\n"@);
    if rows.len() == 0 {
    } else if rows.last().len() == 0 {
        let rest = rows.drop_last();
        assert forall|i: int| 0 <= i < rest.len() implies !(#[trigger] rest[i]).contains('\n') && (
        rest[i].len() > 0 ==> !text::is_white(rest[i].last())) by {
            assert(!rows[i].contains('\n'));
        }
        lemma_trim_trailing_feeds(rest);
        if rows.len() >= 2 {
            assert(all.last() == '\n');
            assert(all.drop_last() == text::join(rest, "\n"@));
        } else {
            assert(rest.len() == 0);
            assert(text::join(rest, "\n"@) == Seq::<char>::empty());
        }
    } else {
        let row = rows[rows.len() - 1];
        assert(all.last() == row.last());
        assert(!row.contains('\n'));
        assert(row[row.len() - 1] != '\n');
    }
}

/// The rows that a body is made of.
pub open spec fn body_rows(all: Seq<Seq<char>>) -> Seq<Seq<char>> {
    let trimmed = all.map_values(|line: Seq<char>| text::trim_end(line));
    message::without_trailing_empty(without_leading_empty(trimmed))
}

pub proof fn lemma_body(all: Seq<Seq<char>>)
    requires
        forall|i: int| 0 <= i < all.len() ==> !(#[trigger] all[i]).contains('\n'),
    ensures
        message::body_of(all) == text::join(body_rows(all), "\n"@),
        is_tidy(body_rows(all)),
        body_rows(all).len() > 0 ==> body_rows(all)[0].len() > 0 && body_rows(all).last().len() > 0,
{
    let trimmed = all.map_values(|line: Seq<char>| text::trim_end(line));
    assert forall|i: int| 0 <= i < trimmed.len() implies !(#[trigger] trimmed[i]).contains('\n') && (
    trimmed[i].len() > 0 ==> !text::is_white(trimmed[i].last())) by {
        text::lemma_trim_end(all[i]);
        let row = trimmed[i];
        assert(!all[i].contains('\n'));
        assert forall|j: int| 0 <= j < row.len() implies row[j] != '\n' by {
            assert(row[j] == all[i][j]);
        }
    }
    lemma_trim_leading_feeds(trimmed);
    let front = without_leading_empty(trimmed);
    lemma_trim_trailing_feeds(front);
    lemma_without_trailing_empty(front);
    let rows = body_rows(all);
    assert forall|i: int| 0 <= i < rows.len() implies !(#[trigger] rows[i]).contains('\n') && (
    rows[i].len() > 0 ==> !text::is_white(rows[i].last())) by {
        assert(rows[i] == front[i]);
    }
}

/// Whether no white space stands at the end of a line of `s`, and no line feed
/// at either end of `s`.
pub open spec fn is_clean_body(s: Seq<char>) -> bool {
    &&& s.len() > 0 ==> s[0] != '\n' && s.last() != '\n'
    &&& forall|i: int|
        0 <= i < s.len() && #[trigger] text::is_white(s[i]) && s[i] != '\n' ==> i + 1 < s.len()
            && s[i + 1] != '\n'
}

/// Whether a message is one that parsing can give: a subject on one line with
/// no white space around it and no period after it, and a clean body, which
/// takes a subject.
pub open spec fn is_clean(message: FormattedView) -> bool {
    &&& text::trim(message.subject) == message.subject
    &&& !message.subject.contains('\n')
    &&& message.subject.len() > 0 ==> message.subject.last() != '.'
    &&& message.subject.len() == 0 ==> message.body.len() == 0
    &&& is_clean_body(message.body)
}

/// Parsing a rendered message gives the message back.
pub proof fn law_parsing_a_rendered_message(message: FormattedView)
    requires
        is_clean(message),
    ensures
        message::parsed(message::rendered(message)) == message,
{
    let none = Seq::<char>::empty();
    if message.subject.len() > 0 {
        let rows = text::lines(message.body);
        text_lemmas::lemma_trim_twice(message.subject);
        if message.body.len() > 0 {
            lemma_clean_lines(message.body);
        } else {
            assert(message.body == none);
        }
        lemma_parsing_a_rendered_message(message, rows);
    } else {
        assert(message.subject == none);
        assert(message.body == none);
        assert(text::lines(none).len() == 0);
    }
}

/// A message that was parsed is given back by parsing it again once it is
/// rendered: unless a period ends the subject, or there is a body without a
/// subject.
pub proof fn law_a_parsed_message_survives_rendering(raw: Seq<char>)
    requires
        message::parsed(raw).subject.len() == 0 ==> message::parsed(raw).body.len() == 0,
        message::parsed(raw).subject.len() > 0 ==> message::parsed(raw).subject.last() != '.',
    ensures
        message::parsed(message::rendered(message::parsed(raw))) == message::parsed(raw),
{
    let all = text::lines(raw);
    let at = message::first_full(all);
    let parsed = message::parsed(raw);
    let none = Seq::<char>::empty();
    if parsed.subject.len() > 0 {
        let below = all.skip(at + 1);
        text_lemmas::lemma_lines_hold_no_feed(raw);
        lemma_first_full(all);
        assert(!all[at].contains('\n'));
        lemma_subject(all[at]);
        assert forall|i: int| 0 <= i < below.len() implies !(#[trigger] below[i]).contains(
            '\n',
        ) by {
            assert(!all[i + at + 1].contains('\n'));
        }
        lemma_body(below);
        lemma_parsing_a_rendered_message(parsed, body_rows(below));
    } else {
        assert(parsed.subject == none);
        assert(parsed.body == none);
        assert(text::lines(none).len() == 0);
    }
}

/// The lines of a clean text give the text back when they are joined.
proof fn lemma_clean_lines(s: Seq<char>)
    requires
        s.len() > 0,
        s.last() != '\n',
        forall|i: int|
            0 <= i < s.len() && #[trigger] text::is_white(s[i]) && s[i] != '\n' ==> i + 1 < s.len()
                && s[i + 1] != '\n',
    ensures
        text::join(text::lines(s), "\n"@) == s,
        is_tidy(text::lines(s)),
        text::lines(s).len() > 0,
        s[0] != '\n' ==> text::lines(s)[0].len() > 0,
        text::lines(s).last().len() > 0,
    decreases s.len(),
{
    reveal_strlit("\n");
    let rows = text::lines(s);
    let at = text::find(s, '\n');
    text::lemma_find(s, '\n');
    if at >= s.len() {
        assert(rows == seq![s]);
        assert(text::is_white(s[s.len() - 1]) ==> false);
    } else {
        let row = s.take(at);
        let rest = s.skip(at + 1);
        assert(rest.len() > 0);
        assert(rest.last() == s.last());
        assert forall|i: int|
            0 <= i < rest.len() && #[trigger] text::is_white(rest[i]) && rest[i] != '\n' implies i + 1
            < rest.len() && rest[i + 1] != '\n' by {
            assert(text::is_white(s[i + at + 1]));
        }
        lemma_clean_lines(rest);
        if row.len() > 0 {
            assert(row.last() == s[at - 1]);
            assert(!text::is_white(s[at - 1]));
        }
        assert(text::chomp(row) == row);
        let more = text::lines(rest);
        assert(rows == seq![row] + more);
        assert(rows.drop_first() == more);
        text_lemmas::lemma_join_front(rows, "\n"@);
        assert(row + "\n"@ + rest == s);
        assert forall|i: int| 0 <= i < rows.len() implies !(#[trigger] rows[i]).contains('\n') && (
        rows[i].len() > 0 ==> !text::is_white(rows[i].last())) by {
            if i > 0 {
                assert(rows[i] == more[i - 1]);
            } else {
                assert forall|j: int| 0 <= j < row.len() implies row[j] != '\n' by {
                    assert(row[j] == s[j]);
                }
            }
        }
        assert(rows.last() == more.last());
    }
}

proof fn lemma_parsing_a_rendered_message(parsed: FormattedView, rows: Seq<Seq<char>>)
    requires
        parsed.subject.len() > 0,
        !text::is_white(parsed.subject[0]),
        !text::is_white(parsed.subject.last()),
        !parsed.subject.contains('\n'),
        parsed.subject.last() != '.',
        parsed.body == text::join(rows, "\n"@),
        is_tidy(rows),
        rows.len() > 0 ==> rows[0].len() > 0 && rows.last().len() > 0,
    ensures
        message::parsed(message::rendered(parsed)) == parsed,
{
    let subject = parsed.subject;
    let body = parsed.body;
    assert(text::trim_start(subject) == subject);
    assert(message::subject_of(subject) == subject);
    assert(!text::is_blank(subject)) by {
        if text::is_blank(subject) {
            assert(text::is_white(subject[0]));
        }
    }
    let again = text::lines(message::rendered(parsed));
    let none = Seq::<char>::empty();
    if rows.len() == 0 {
        assert(body == none);
        text_lemmas::lemma_lines_one(subject);
        assert(again.skip(1).len() == 0);
        let trimmed = again.skip(1).map_values(|line: Seq<char>| text::trim_end(line));
        assert(trimmed.len() == 0);
        assert(message::body_of(again.skip(1)) == none);
    } else {
        reveal_strlit("\n");
        reveal_strlit("\n\n");
        assert forall|i: int| 0 <= i < rows.len() implies text_lemmas::is_line(
            #[trigger] rows[i],
        ) by {
            assert(!rows[i].contains('\n'));
        }
        text_lemmas::lemma_lines_join(rows);
        assert(body.len() > 0) by {
            if body.len() == 0 {
                assert(text::lines(body).len() == 0);
            }
        }
        let under = none + "\n"@ + body;
        assert(subject + "\n\n"@ + body == subject + "\n"@ + under);
        text_lemmas::lemma_lines_front(subject, under);
        text_lemmas::lemma_lines_front(none, body);
        assert(text::chomp(subject) == subject);
        let spaced = seq![none] + rows;
        assert(again == seq![subject] + spaced);
        assert(again.skip(1) == spaced);
        assert forall|i: int| 0 <= i < spaced.len() implies !(#[trigger] spaced[i]).contains(
            '\n',
        ) by {
            if i > 0 {
                assert(spaced[i] == rows[i - 1]);
            }
        }
        lemma_body(spaced);
        let trimmed = spaced.map_values(|line: Seq<char>| text::trim_end(line));
        assert(trimmed == spaced) by {
            assert forall|i: int| 0 <= i < spaced.len() implies trimmed[i] == spaced[i] by {
                if i > 0 {
                    assert(spaced[i] == rows[i - 1]);
                    text_lemmas::lemma_trim_end_is_kept(spaced[i]);
                }
            }
        }
        assert(spaced.drop_first() == rows);
        assert(without_leading_empty(rows) == rows);
        assert(without_leading_empty(spaced) == rows);
        assert(message::without_trailing_empty(rows) == rows);
        assert(body_rows(spaced) == rows);
    }
    assert(message::first_full(again) == 0);
}

/// A sanitized reply has no white space around it.
pub proof fn law_a_sanitized_reply_is_trimmed(raw: Seq<char>)
    ensures
        text::trim(message::sanitized(raw)) == message::sanitized(raw),
{
    let bare = text::trim(message::normalized(raw));
    let open = message::unfenced(bare);
    let inner = open.subrange(1, open.len() - 1);
    text_lemmas::lemma_trim_twice(message::normalized(raw));
    let fenced = bare.take(bare.len() - 3);
    text_lemmas::lemma_trim_twice(fenced.skip(text::find(fenced, '\n') + 1));
    text_lemmas::lemma_trim_twice(inner);
}

pub proof fn lemma_normalized_is_kept(s: Seq<char>)
    requires
        has_no_crlf(s),
    ensures
        message::normalized(s) == s,
    decreases s.len(),
{
    if s.len() > 0 {
        let rest = s.skip(1);
        assert forall|i: int| 0 <= i < rest.len() - 1 implies !((#[trigger] rest[i]) == '\r'
            && rest[i + 1] == '\n') by {
            assert(rest[i] == s[i + 1]);
        }
        lemma_normalized_is_kept(rest);
        assert(s.len() >= 2 ==> !(s[0] == '\r' && s[1] == '\n'));
        assert(seq![s[0]] + rest == s);
    }
}

/// `s` with each line feed made a carriage return and line feed pair.
pub open spec fn with_crlf(s: Seq<char>) -> Seq<char>
    decreases s.len(),
{
    if s.len() == 0 {
        s
    } else if s[0] == '\n' {
        seq!['\r', '\n'] + with_crlf(s.skip(1))
    } else {
        seq![s[0]] + with_crlf(s.skip(1))
    }
}

/// The style of the line endings does not change a sanitized reply.
pub proof fn law_line_endings_do_not_matter(raw: Seq<char>)
    requires
        !raw.contains('\r'),
    ensures
        message::sanitized(with_crlf(raw)) == message::sanitized(raw),
{
    assert(has_no_crlf(raw));
    lemma_normalized_is_kept(raw);
    lemma_normalized_with_crlf(raw);
}

proof fn lemma_normalized_with_crlf(s: Seq<char>)
    requires
        !s.contains('\r'),
    ensures
        message::normalized(with_crlf(s)) == s,
    decreases s.len(),
{
    if s.len() > 0 {
        let rest = s.skip(1);
        let ended = with_crlf(s);
        assert forall|i: int| 0 <= i < rest.len() implies rest[i] != '\r' by {
            assert(rest[i] == s[i + 1]);
        }
        lemma_normalized_with_crlf(rest);
        assert(s[0] != '\r');
        if s[0] == '\n' {
            assert(ended.skip(2) == with_crlf(rest));
        } else {
            assert(ended.skip(1) == with_crlf(rest));
        }
        assert(seq![s[0]] + rest == s);
    }
}

/// Whether a code fence encloses all of `s`.
pub open spec fn is_fenced(s: Seq<char>) -> bool {
    text::starts_with(s, "```"@) && text::ends_with(s, "```"@) && s.take(s.len() - 3).contains('\n')
}

/// Whether a pair of quotes encloses all of `s`.
pub open spec fn is_quoted(s: Seq<char>, quote: char) -> bool {
    s.len() >= 2 && s[0] == quote && s.last() == quote
}

/// Whether no carriage return stands right before a line feed in `s`.
pub open spec fn has_no_crlf(s: Seq<char>) -> bool {
    forall|i: int| 0 <= i < s.len() - 1 ==> !((#[trigger] s[i]) == '\r' && s[i + 1] == '\n')
}

/// A reply that nothing encloses is only trimmed and rid of its CRLF line
/// endings; one that has neither is left alone.
pub proof fn law_a_bare_reply_is_kept(raw: Seq<char>)
    requires
        !is_fenced(text::trim(message::normalized(raw))),
        !is_quoted(text::trim(message::normalized(raw)), '"'),
        !is_quoted(text::trim(message::normalized(raw)), '\''),
    ensures
        message::sanitized(raw) == text::trim(message::normalized(raw)),
        has_no_crlf(raw) && text::trim(raw) == raw ==> message::sanitized(raw) == raw,
{
    let bare = text::trim(message::normalized(raw));
    let inner = bare.take(bare.len() - 3);
    text::lemma_find(inner, '\n');
    if has_no_crlf(raw) {
        lemma_normalized_is_kept(raw);
    }
}

/// A trimmed message inside a code fence is what is left of the reply, whatever
/// language the fence names, unless quotes enclose the message in turn.
pub proof fn law_a_fence_is_stripped(raw: Seq<char>, language: Seq<char>, inside: Seq<char>)
    requires
        text::trim(message::normalized(raw)) == "```"@ + language + "\n"@ + inside + "\n```"@,
        !language.contains('\n'),
        text::trim(inside) == inside,
        !is_quoted(inside, '"'),
        !is_quoted(inside, '\''),
    ensures
        message::sanitized(raw) == inside,
{
    reveal_strlit("```");
    reveal_strlit("\n");
    reveal_strlit("\n```");
    let fenced = "```"@ + language + "\n"@ + inside + "\n```"@;
    text_lemmas::lemma_trim_twice(inside);
    assert(fenced.take(3) == "```"@);
    assert(fenced.skip(fenced.len() - 3) == "```"@);
    let inner = fenced.take(fenced.len() - 3);
    let at = text::find(inner, '\n');
    let line = 3 + language.len();
    text::lemma_find(inner, '\n');
    assert(inner[line as int] == '\n');
    assert(at == line) by {
        if at < line {
            if at >= 3 {
                assert(inner[at] == language[at - 3]);
            }
        }
    }
    let rest = inner.skip(at + 1);
    assert(rest == inside + "\n"@);
    assert(text::trim(rest) == inside) by {
        if inside.len() == 0 {
            assert(rest == "\n"@);
            assert(rest.drop_first() == Seq::<char>::empty());
            assert(text::trim_start(rest) == text::trim_start(rest.drop_first()));
            assert(text::trim_end(Seq::<char>::empty()) == Seq::<char>::empty());
        } else {
            assert(rest[0] == inside[0]);
            assert(text::trim_start(rest) == rest);
            assert(rest.drop_last() == inside);
            assert(text::trim_end(rest) == text::trim_end(inside));
            assert(text::trim_end(inside) == inside);
        }
    }
}

/// A trimmed message inside a pair of quotes is what is left of the reply,
/// whatever quotes it holds itself.
pub proof fn law_quotes_are_stripped(raw: Seq<char>, quote: char, inside: Seq<char>)
    requires
        quote == '"' || quote == '\'',
        text::trim(message::normalized(raw)) == seq![quote] + inside + seq![quote],
        text::trim(inside) == inside,
    ensures
        message::sanitized(raw) == inside,
{
    reveal_strlit("```");
    let whole = seq![quote] + inside + seq![quote];
    assert(whole[0] == quote);
    assert(whole.last() == quote);
    assert(!text::starts_with(whole, "```"@)) by {
        if whole.len() >= 3 {
            assert(whole.take(3)[0] == quote);
        }
    }
    assert(whole.subrange(1, whole.len() - 1) == inside);
}

} // verus!
