//! What becomes of a reply, said part by part: what is stripped around it,
//! which line is the subject, what is the body, where a subject is cut, and
//! what is printed in the end.

use vstd::prelude::*;

use crate::message;
use crate::message::FormattedView;
use crate::message_laws;
use crate::text;
use crate::text_laws;
use crate::text_lemmas;
use crate::wrapping_laws;

verus! {

/// Each CRLF becomes a line feed, and every other character stays: the first
/// pair in a text is replaced, what stands before it is kept, and what stands
/// after it is treated in the same way.
pub proof fn law_each_crlf_becomes_a_line_feed(before: Seq<char>, after: Seq<char>)
    requires
        message_laws::has_no_crlf(before),
    ensures
        message::normalized(before) == before,
        message::normalized(before + seq!['\r', '\n'] + after) == before + seq!['\n']
            + message::normalized(after),
    decreases before.len(),
{
    message_laws::lemma_normalized_is_kept(before);
    let pair = seq!['\r', '\n'];
    let whole = before + pair + after;
    if before.len() == 0 {
        assert(whole.skip(2) == after);
        assert(whole[0] == '\r' && whole[1] == '\n');
        assert(before + seq!['\n'] + message::normalized(after) == seq!['\n']
            + message::normalized(after));
    } else {
        let rest = before.skip(1);
        assert forall|i: int| 0 <= i < rest.len() - 1 implies !((#[trigger] rest[i]) == '\r'
            && rest[i + 1] == '\n') by {
            assert(rest[i] == before[i + 1]);
        }
        law_each_crlf_becomes_a_line_feed(rest, after);
        assert(whole.skip(1) == rest + pair + after);
        assert(whole[0] == before[0]);
        assert(!(whole[0] == '\r' && whole[1] == '\n')) by {
            if before.len() >= 2 {
                assert(!(before[0] == '\r' && before[1] == '\n'));
            } else {
                assert(whole[1] == '\r');
            }
        }
        assert(seq![before[0]] + (rest + seq!['\n'] + message::normalized(after)) == before + seq![
            '\n',
        ] + message::normalized(after));
    }
}

/// Quotes around a whole reply go, one pair of them, with the white space
/// inside them.
pub proof fn law_one_pair_of_quotes_goes(raw: Seq<char>, quote: char, inside: Seq<char>)
    requires
        quote == '"' || quote == '\'',
        text::trim(message::normalized(raw)) == seq![quote] + inside + seq![quote],
    ensures
        message::sanitized(raw) == text::trim(inside),
{
    reveal_strlit("```");
    let whole = seq![quote] + inside + seq![quote];
    assert(whole[0] == quote);
    assert(whole.last() == quote);
    assert(!text::starts_with(whole, "```"@)) by {
        if whole.len() >= 3 {
            assert(whole.take(3)[0] == quote);
        }
    }
    assert(whole.subrange(1, whole.len() - 1) == inside);
}

/// A fence around a whole reply goes, with the line that opens it and the
/// white space inside it. One pair of quotes around all that it held goes too.
pub proof fn law_what_a_fence_held_is_kept(raw: Seq<char>, language: Seq<char>, inside: Seq<char>)
    requires
        text::trim(message::normalized(raw)) == seq!['`', '`', '`'] + language + seq!['\n'] + inside
            + seq!['`', '`', '`'],
        !language.contains('\n'),
    ensures
        !message_laws::is_quoted(text::trim(inside), '"') && !message_laws::is_quoted(
            text::trim(inside),
            '\'',
        ) ==> message::sanitized(raw) == text::trim(inside),
        forall|quote: char, held: Seq<char>|
            (quote == '"' || quote == '\'') && text::trim(inside) == #[trigger] (seq![quote] + held
                + seq![quote]) ==> message::sanitized(raw) == text::trim(held),
{
    reveal_strlit("```");
    let fence = seq!['`', '`', '`'];
    assert("```"@ == fence);
    let whole = fence + language + seq!['\n'] + inside + fence;
    assert(whole.take(3) == fence);
    assert(whole.skip(whole.len() - 3) == fence);
    let inner = whole.take(whole.len() - 3);
    let at = text::find(inner, '\n');
    let line = 3 + language.len();
    text::lemma_find(inner, '\n');
    assert(inner[line as int] == '\n');
    assert(at == line) by {
        if at < line {
            if at >= 3 {
                assert(inner[at] == language[at - 3]);
            }
        }
    }
    assert(inner.skip(at + 1) == inside);
    let open = text::trim(inside);
    assert(message::unfenced(whole) == open);
    assert forall|quote: char, held: Seq<char>|
        (quote == '"' || quote == '\'') && open == #[trigger] (seq![quote] + held + seq![
            quote,
        ]) implies message::sanitized(raw) == text::trim(held) by {
        assert(open[0] == quote);
        assert(open.last() == quote);
        assert(open.subrange(1, open.len() - 1) == held);
    }
}

proof fn lemma_first_full_is(before: Seq<Seq<char>>, line: Seq<char>, below: Seq<Seq<char>>)
    requires
        wrapping_laws::all_blank(before),
        !text::is_blank(line),
    ensures
        message::first_full(before + seq![line] + below) == before.len(),
    decreases before.len(),
{
    let all = before + seq![line] + below;
    if before.len() > 0 {
        let fewer = before.drop_first();
        assert(text::is_blank(before[0]));
        assert forall|i: int| 0 <= i < fewer.len() implies text::is_blank(#[trigger] fewer[i]) by {
            assert(text::is_blank(before[i + 1]));
        }
        lemma_first_full_is(fewer, line, below);
        assert(all.drop_first() == fewer + seq![line] + below);
        assert(all[0] == before[0]);
    } else {
        assert(all[0] == line);
    }
}

/// The subject is on the first line that is not blank: what stands there
/// without white space around it, without the periods at its end, and without
/// the white space before those.
pub proof fn law_the_subject_is_the_first_full_line(
    raw: Seq<char>,
    before: Seq<Seq<char>>,
    line: Seq<char>,
    below: Seq<Seq<char>>,
    subject: Seq<char>,
    gap: Seq<char>,
    periods: Seq<char>,
)
    requires
        text::lines(raw) == before + seq![line] + below,
        wrapping_laws::all_blank(before),
        !text::is_blank(line),
        text::trim(line) == subject + gap + periods,
        text::is_blank(gap),
        forall|i: int| 0 <= i < periods.len() ==> (#[trigger] periods[i]) == '.',
        subject.len() > 0 ==> !text::is_white(subject.last()),
        gap.len() == 0 && subject.len() > 0 ==> subject.last() != '.',
    ensures
        message::parsed(raw).subject == subject,
{
    let all = text::lines(raw);
    lemma_first_full_is(before, line, below);
    assert(all[before.len() as int] == line);
    let kept = subject + gap;
    assert(kept.len() > 0 ==> kept.last() != '.') by {
        if gap.len() > 0 {
            assert(kept.last() == gap[gap.len() - 1]);
            assert(text::is_white(gap[gap.len() - 1]));
        } else if subject.len() > 0 {
            assert(kept == subject);
        }
    }
    lemma_periods_go(kept, periods);
    text_laws::law_a_blank_text_trims_to_nothing(gap);
    lemma_trim_end_keeps(subject, gap);
}

proof fn lemma_periods_go(kept: Seq<char>, periods: Seq<char>)
    requires
        forall|i: int| 0 <= i < periods.len() ==> (#[trigger] periods[i]) == '.',
        kept.len() > 0 ==> kept.last() != '.',
    ensures
        text::trim_end_char(kept + periods, '.') == kept,
    decreases periods.len(),
{
    if periods.len() > 0 {
        let fewer = periods.drop_last();
        assert(periods[periods.len() - 1] == '.');
        assert forall|i: int| 0 <= i < fewer.len() implies (#[trigger] fewer[i]) == '.' by {
            assert(periods[i] == '.');
        }
        lemma_periods_go(kept, fewer);
        assert((kept + periods).drop_last() == kept + fewer);
    } else {
        assert(kept + periods == kept);
    }
}

proof fn lemma_trim_end_keeps(kept: Seq<char>, gap: Seq<char>)
    requires
        text::is_blank(gap),
        kept.len() > 0 ==> !text::is_white(kept.last()),
    ensures
        text::trim_end(kept + gap) == kept,
    decreases gap.len(),
{
    if gap.len() > 0 {
        let fewer = gap.drop_last();
        assert(text::is_white(gap[gap.len() - 1]));
        assert forall|i: int| 0 <= i < fewer.len() implies text::is_white(#[trigger] fewer[i]) by {
            assert(text::is_white(gap[i]));
        }
        lemma_trim_end_keeps(kept, fewer);
        assert((kept + gap).drop_last() == kept + fewer);
    } else {
        assert(kept + gap == kept);
    }
}

/// The body is every line below the subject, whether or not a blank line
/// follows it: each without the white space at its end, and without the blank
/// lines above the first and below the last of them.
pub proof fn law_the_body_is_every_line_below_the_subject(
    raw: Seq<char>,
    before: Seq<Seq<char>>,
    line: Seq<char>,
    above: Seq<Seq<char>>,
    middle: Seq<Seq<char>>,
    below: Seq<Seq<char>>,
)
    requires
        text::lines(raw) == before + seq![line] + above + middle + below,
        wrapping_laws::all_blank(before),
        !text::is_blank(line),
        wrapping_laws::all_blank(above),
        wrapping_laws::all_blank(below),
        middle.len() > 0 ==> !text::is_blank(middle[0]) && !text::is_blank(middle.last()),
    ensures
        message::parsed(raw).body == text::join(
            middle.map_values(|row: Seq<char>| text::trim_end(row)),
            seq!['\n'],
        ),
{
    let all = text::lines(raw);
    let rest = above + middle + below;
    reveal_strlit("\n");
    assert("\n"@ == seq!['\n']);
    assert(all == before + seq![line] + rest);
    lemma_first_full_is(before, line, rest);
    assert(all.skip(before.len() as int + 1) == rest);
    text_lemmas::lemma_lines_hold_no_feed(raw);
    assert forall|i: int| 0 <= i < rest.len() implies !(#[trigger] rest[i]).contains('\n') by {
        assert(rest[i] == all[i + before.len() + 1]);
    }
    message_laws::lemma_body(rest);
    let rows = rest.map_values(|row: Seq<char>| text::trim_end(row));
    let head = above.map_values(|row: Seq<char>| text::trim_end(row));
    let core = middle.map_values(|row: Seq<char>| text::trim_end(row));
    let tail = below.map_values(|row: Seq<char>| text::trim_end(row));
    assert(rows == head + (core + tail));
    assert forall|i: int| 0 <= i < head.len() implies (#[trigger] head[i]).len() == 0 by {
        assert(text::is_blank(above[i]));
        lemma_blank_trims_away(above[i]);
    }
    assert forall|i: int| 0 <= i < tail.len() implies (#[trigger] tail[i]).len() == 0 by {
        assert(text::is_blank(below[i]));
        lemma_blank_trims_away(below[i]);
    }
    if middle.len() > 0 {
        lemma_full_stays_full(middle[0]);
        lemma_full_stays_full(middle.last());
        assert(core[0] == text::trim_end(middle[0]));
        assert((core + tail)[0] == core[0]);
        assert(core.last() == text::trim_end(middle.last()));
    } else {
        assert(core + tail == tail);
    }
    lemma_empty_rows_go(head, core, tail);
}

proof fn lemma_blank_trims_away(row: Seq<char>)
    requires
        text::is_blank(row),
    ensures
        text::trim_end(row).len() == 0,
{
    text::lemma_trim_end(row);
    let kept = text::trim_end(row);
    if kept.len() > 0 {
        assert(kept.last() == row[kept.len() - 1]);
        assert(text::is_white(row[kept.len() - 1]));
    }
}

proof fn lemma_full_stays_full(row: Seq<char>)
    requires
        !text::is_blank(row),
    ensures
        text::trim_end(row).len() > 0,
{
    text::lemma_trim_end(row);
    if text::trim_end(row).len() == 0 {
        assert(row.skip(0) == row);
    }
}

proof fn lemma_empty_rows_go(head: Seq<Seq<char>>, core: Seq<Seq<char>>, tail: Seq<Seq<char>>)
    requires
        forall|i: int| 0 <= i < head.len() ==> (#[trigger] head[i]).len() == 0,
        forall|i: int| 0 <= i < tail.len() ==> (#[trigger] tail[i]).len() == 0,
        core.len() > 0 ==> core[0].len() > 0 && core.last().len() > 0,
    ensures
        message::without_trailing_empty(
            message_laws::without_leading_empty(head + (core + tail)),
        ) == core,
    decreases head.len() + tail.len(),
{
    let rows = head + (core + tail);
    if head.len() > 0 {
        let fewer = head.drop_first();
        assert(head[0].len() == 0);
        assert forall|i: int| 0 <= i < fewer.len() implies (#[trigger] fewer[i]).len() == 0 by {
            assert(head[i + 1].len() == 0);
        }
        assert(rows.drop_first() == fewer + (core + tail));
        assert(rows[0] == head[0]);
        lemma_empty_rows_go(fewer, core, tail);
    } else if core.len() == 0 {
        if tail.len() > 0 {
            let fewer = tail.drop_first();
            assert(tail[0].len() == 0);
            assert forall|i: int| 0 <= i < fewer.len() implies (#[trigger] fewer[i]).len() == 0 by {
                assert(tail[i + 1].len() == 0);
            }
            assert(rows == tail);
            assert(rows.drop_first() == head + (core + fewer));
            lemma_empty_rows_go(head, core, fewer);
        } else {
            assert(rows == core);
        }
    } else {
        assert(rows == core + tail);
        assert(rows[0] == core[0]);
        lemma_empty_tail_goes(core, tail);
    }
}

proof fn lemma_empty_tail_goes(core: Seq<Seq<char>>, tail: Seq<Seq<char>>)
    requires
        forall|i: int| 0 <= i < tail.len() ==> (#[trigger] tail[i]).len() == 0,
        core.len() > 0 ==> core.last().len() > 0,
    ensures
        message::without_trailing_empty(core + tail) == core,
    decreases tail.len(),
{
    if tail.len() > 0 {
        let fewer = tail.drop_last();
        assert(tail[tail.len() - 1].len() == 0);
        assert forall|i: int| 0 <= i < fewer.len() implies (#[trigger] fewer[i]).len() == 0 by {
            assert(tail[i].len() == 0);
        }
        assert((core + tail).drop_last() == core + fewer);
        lemma_empty_tail_goes(core, fewer);
    } else {
        assert(core + tail == core);
    }
}

/// Parsing loses no word of the body: it holds the words of all the lines
/// below the subject, in order, whether or not a blank line follows the
/// subject.
pub proof fn law_parsing_loses_no_word_of_the_body(raw: Seq<char>, at: int)
    requires
        0 <= at < text::lines(raw).len(),
        !text::is_blank(text::lines(raw)[at]),
        wrapping_laws::all_blank(text::lines(raw).take(at)),
    ensures
        text::words(message::parsed(raw).body) == text_lemmas::all_words(
            text::lines(raw).skip(at + 1),
        ),
{
    let all = text::lines(raw);
    let before = all.take(at);
    let rest = all.skip(at + 1);
    assert(all == before + seq![all[at]] + rest);
    lemma_first_full_is(before, all[at], rest);
    text_lemmas::lemma_lines_hold_no_feed(raw);
    assert forall|i: int| 0 <= i < rest.len() implies !(#[trigger] rest[i]).contains('\n') by {
        assert(rest[i] == all[i + at + 1]);
    }
    message_laws::lemma_body(rest);
    let rows = rest.map_values(|row: Seq<char>| text::trim_end(row));
    lemma_words_of_trimmed_rows(rest);
    lemma_words_below_empty(rows);
    message_laws::lemma_without_trailing_empty(message_laws::without_leading_empty(rows));
    text_lemmas::lemma_words_join(message_laws::body_rows(rest));
}

proof fn lemma_words_of_trimmed_rows(rows: Seq<Seq<char>>)
    ensures
        text_lemmas::all_words(rows.map_values(|row: Seq<char>| text::trim_end(row)))
            == text_lemmas::all_words(rows),
    decreases rows.len(),
{
    let trimmed = rows.map_values(|row: Seq<char>| text::trim_end(row));
    if rows.len() > 0 {
        let front = rows.drop_last();
        assert(trimmed.drop_last() == front.map_values(|row: Seq<char>| text::trim_end(row)));
        lemma_words_of_trimmed_rows(front);
        text_lemmas::lemma_words_trim_end(rows.last());
    }
}

proof fn lemma_words_below_empty(rows: Seq<Seq<char>>)
    ensures
        text_lemmas::all_words(message_laws::without_leading_empty(rows))
            == text_lemmas::all_words(rows),
    decreases rows.len(),
{
    if rows.len() > 0 && rows[0].len() == 0 {
        let first = seq![rows[0]];
        let rest = rows.drop_first();
        lemma_words_below_empty(rest);
        assert(rows == first + rest);
        text_lemmas::lemma_all_words_one(rows[0]);
        text_lemmas::lemma_all_words_add(first, rest);
        assert(text::words(rows[0]) == Seq::<Seq<char>>::empty());
        assert(text::words(rows[0]) + text_lemmas::all_words(rest) == text_lemmas::all_words(rest));
    }
}

/// A reply without a full line is an empty message.
pub proof fn law_a_blank_reply_is_an_empty_message(raw: Seq<char>)
    requires
        wrapping_laws::all_blank(text::lines(raw)),
    ensures
        message::parsed(raw).subject.len() == 0,
        message::parsed(raw).body.len() == 0,
{
    lemma_first_full_of_blanks(text::lines(raw));
}

proof fn lemma_first_full_of_blanks(all: Seq<Seq<char>>)
    requires
        wrapping_laws::all_blank(all),
    ensures
        message::first_full(all) == all.len(),
    decreases all.len(),
{
    if all.len() > 0 {
        let fewer = all.drop_first();
        assert(text::is_blank(all[0]));
        assert forall|i: int| 0 <= i < fewer.len() implies text::is_blank(#[trigger] fewer[i]) by {
            assert(text::is_blank(all[i + 1]));
        }
        lemma_first_full_of_blanks(fewer);
    }
}

/// A subject fits exactly when it has at most 50 characters.
pub proof fn law_fifty_characters_fit(subject: Seq<char>)
    ensures
        message::fits(subject) <==> subject.len() <= 50,
{
}

/// A subject that is too long is cut at the last space within the limit that
/// does not come first.
pub proof fn law_a_subject_is_cut_at_its_last_space(before: Seq<char>, after: Seq<char>)
    requires
        0 < before.len() < 50,
        (before + seq![' '] + after).len() > 50,
        forall|i: int| 0 <= i < after.len() && i < 49 - before.len() ==> (#[trigger] after[i]) != ' ',
    ensures
        message::truncated(before + seq![' '] + after) == text::trim_end(before),
{
    let subject = before + seq![' '] + after;
    let cut = subject.take(50);
    text::lemma_rfind(cut, ' ');
    let at = text::rfind(cut, ' ');
    assert(cut[before.len() as int] == ' ');
    assert(at == before.len()) by {
        if at > before.len() {
            assert(cut[at] == after[at - before.len() - 1]);
        }
    }
    assert(cut.take(at) == before);
}

/// A subject that is too long and has no space to be cut at is cut after 50
/// characters.
pub proof fn law_one_long_word_is_cut_hard(subject: Seq<char>)
    requires
        subject.len() > 50,
        forall|i: int| 0 < i < 50 ==> (#[trigger] subject[i]) != ' ',
    ensures
        message::truncated(subject) == subject.take(50),
{
    let cut = subject.take(50);
    text::lemma_rfind(cut, ' ');
    let at = text::rfind(cut, ' ');
    assert(at <= 0) by {
        if at > 0 {
            assert(cut[at] == subject[at]);
        }
    }
}

/// A message is its subject, and where it has a body, that body below one
/// empty line, with nothing before, between or after.
pub proof fn law_a_message_is_its_subject_and_its_body(subject: Seq<char>, body: Seq<char>)
    ensures
        message::rendered(FormattedView { subject, body: Seq::empty() }) == subject,
        body.len() > 0 ==> message::rendered(FormattedView { subject, body }) == subject + seq![
            '\n',
            '\n',
        ] + body,
{
    reveal_strlit("\n\n");
    assert("\n\n"@ == seq!['\n', '\n']);
}

/// What is printed is the subject, cut where it is too long, and the body,
/// wrapped: the one never changes the other. A message that keeps the rule is
/// printed as it is.
pub proof fn law_what_is_printed_of_a_message(message: FormattedView)
    ensures
        message::wrapped_body(message.body).len() == 0 ==> message::finished(message)
            == message::truncated(message.subject),
        message::wrapped_body(message.body).len() > 0 ==> message::finished(message)
            == message::truncated(message.subject) + seq!['\n', '\n'] + message::wrapped_body(
            message.body,
        ),
        message.subject.len() <= 50 && message::wrapped_body(message.body) == message.body
            ==> message::finished(message) == message::rendered(message),
{
    reveal_strlit("\n\n");
    assert("\n\n"@ == seq!['\n', '\n']);
}

/// A reply that is a clean message within the rule comes through sanitizing,
/// parsing and printing as it is.
pub proof fn law_a_good_reply_is_printed_as_it_is(message: FormattedView)
    requires
        message_laws::is_clean(message),
        message.subject.len() <= 50,
        message::wrapped_body(message.body) == message.body,
        message::sanitized(message::rendered(message)) == message::rendered(message),
    ensures
        message::finished(
            message::parsed(message::sanitized(message::rendered(message))),
        ) == message::rendered(message),
{
    message_laws::law_parsing_a_rendered_message(message);
    law_what_is_printed_of_a_message(message);
}

} // verus!
