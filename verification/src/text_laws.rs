//! What lines, words, trimming and numbers are, each said by what it does to a
//! text put together from known parts.

use vstd::prelude::*;

use crate::text;
use crate::text_lemmas;

verus! {

/// Trimming takes the white space around a text off, and nothing else: not
/// the white space inside, and no other character.
pub proof fn law_trimming_takes_the_white_space_around_a_text(
    before: Seq<char>,
    kept: Seq<char>,
    after: Seq<char>,
)
    requires
        forall|i: int| 0 <= i < before.len() ==> text::is_white(#[trigger] before[i]),
        forall|i: int| 0 <= i < after.len() ==> text::is_white(#[trigger] after[i]),
        kept.len() > 0 ==> !text::is_white(kept[0]) && !text::is_white(kept.last()),
    ensures
        text::trim(before + kept + after) == kept,
        text::trim_end(kept + after) == kept,
        text::trim_start(before + kept) == kept,
{
    lemma_trim_start_of(before, kept + after);
    assert(before + kept + after == before + (kept + after));
    lemma_trim_end_of(kept, after);
    lemma_trim_start_of(before, kept);
    if kept.len() == 0 {
        assert(kept == Seq::<char>::empty());
        lemma_trim_start_of(before + after, kept);
        assert(before + kept + after == before + after + kept);
        assert forall|i: int| 0 <= i < (before + after).len() implies text::is_white(
            #[trigger] (before + after)[i],
        ) by {
            if i >= before.len() {
                assert(text::is_white(after[i - before.len()]));
            } else {
                assert(text::is_white(before[i]));
            }
        }
        assert(text::trim_start(before + after + kept) == kept);
        assert(text::trim_end(kept) == kept);
    } else {
        assert((kept + after)[0] == kept[0]);
        assert(text::trim_start(kept + after) == kept + after);
    }
}

proof fn lemma_trim_start_of(before: Seq<char>, rest: Seq<char>)
    requires
        forall|i: int| 0 <= i < before.len() ==> text::is_white(#[trigger] before[i]),
    ensures
        text::trim_start(before + rest) == text::trim_start(rest),
    decreases before.len(),
{
    if before.len() > 0 {
        let fewer = before.drop_first();
        assert forall|i: int| 0 <= i < fewer.len() implies text::is_white(#[trigger] fewer[i]) by {
            assert(text::is_white(before[i + 1]));
        }
        lemma_trim_start_of(fewer, rest);
        assert(text::is_white(before[0]));
        assert((before + rest).drop_first() == fewer + rest);
    } else {
        assert(before + rest == rest);
    }
}

proof fn lemma_trim_end_of(rest: Seq<char>, after: Seq<char>)
    requires
        forall|i: int| 0 <= i < after.len() ==> text::is_white(#[trigger] after[i]),
    ensures
        text::trim_end(rest + after) == text::trim_end(rest),
    decreases after.len(),
{
    if after.len() > 0 {
        let fewer = after.drop_last();
        assert forall|i: int| 0 <= i < fewer.len() implies text::is_white(#[trigger] fewer[i]) by {
            assert(text::is_white(after[i]));
        }
        lemma_trim_end_of(rest, fewer);
        assert(text::is_white(after[after.len() - 1]));
        assert((rest + after).drop_last() == rest + fewer);
    } else {
        assert(rest + after == rest);
    }
}

/// A text is blank exactly when trimming leaves nothing of it.
pub proof fn law_a_blank_text_trims_to_nothing(s: Seq<char>)
    ensures
        text::is_blank(s) <==> text::trim(s).len() == 0,
        text::is_blank(s) <==> text::words(s).len() == 0,
{
    let front = text::trim_start(s);
    text::lemma_trim_start(s);
    text::lemma_trim_end(front);
    if text::is_blank(s) {
        text_lemmas::lemma_blank_has_no_words(s);
        if front.len() > 0 {
            assert(front[0] == s[s.len() - front.len()]);
            assert(text::is_white(s[s.len() - front.len()]));
        }
    }
    if text::words(s).len() == 0 {
        text_lemmas::lemma_wordless_is_blank(s);
    }
    if text::trim(s).len() == 0 {
        if front.len() > 0 {
            assert(front.skip(0) == front);
            assert(text::is_white(front[0]));
        }
        assert(s.take(s.len() as int) == s);
    }
}

/// Taking a run of one character off an end of a text takes all of the run,
/// and nothing else.
pub proof fn law_a_run_is_taken_off_whole(
    before: Seq<char>,
    kept: Seq<char>,
    after: Seq<char>,
    c: char,
)
    requires
        forall|i: int| 0 <= i < before.len() ==> (#[trigger] before[i]) == c,
        forall|i: int| 0 <= i < after.len() ==> (#[trigger] after[i]) == c,
        kept.len() > 0 ==> kept[0] != c && kept.last() != c,
    ensures
        text::trim_start_char(before + kept, c) == kept,
        text::trim_end_char(kept + after, c) == kept,
    decreases before.len() + after.len(),
{
    if before.len() > 0 {
        let fewer = before.drop_first();
        assert forall|i: int| 0 <= i < fewer.len() implies (#[trigger] fewer[i]) == c by {
            assert(before[i + 1] == c);
        }
        law_a_run_is_taken_off_whole(fewer, kept, after, c);
        assert(before[0] == c);
        assert((before + kept).drop_first() == fewer + kept);
    } else {
        assert(before + kept == kept);
        if after.len() > 0 {
            let fewer = after.drop_last();
            assert forall|i: int| 0 <= i < fewer.len() implies (#[trigger] fewer[i]) == c by {
                assert(after[i] == c);
            }
            law_a_run_is_taken_off_whole(before, kept, fewer, c);
            assert(after[after.len() - 1] == c);
            assert((kept + after).drop_last() == kept + fewer);
        } else {
            assert(kept + after == kept);
        }
    }
}

/// The first line of a text stands before its first line feed, and the rest
/// of the lines are those of what follows. A carriage return right before the
/// line feed belongs to neither. Without a line feed there is one line, and of
/// an empty text none.
pub proof fn law_a_line_feed_ends_a_line(line: Seq<char>, rest: Seq<char>)
    requires
        !line.contains('\n'),
    ensures
        text::lines(Seq::empty()).len() == 0,
        line.len() > 0 ==> text::lines(line) == seq![line],
        text::lines(line + seq!['\r', '\n'] + rest) == seq![line] + text::lines(rest),
        (line.len() == 0 || line.last() != '\r') ==> text::lines(line + seq!['\n'] + rest) == seq![
            line,
        ] + text::lines(rest),
{
    reveal_strlit("\n");
    let returned = line.push('\r');
    assert forall|i: int| 0 <= i < returned.len() implies returned[i] != '\n' by {
        if i < line.len() {
            assert(returned[i] == line[i]);
        }
    }
    text_lemmas::lemma_lines_front(returned, rest);
    assert(returned + "\n"@ + rest == line + seq!['\r', '\n'] + rest);
    assert(text::chomp(returned) == line);
    text_lemmas::lemma_lines_front(line, rest);
    assert("\n"@ == seq!['\n']);
    if line.len() > 0 {
        text_lemmas::lemma_lines_one(line);
    }
}

/// White space parts words: the words of two texts with white space between
/// them are the words of both, in order. What has no white space in it is one
/// word, and white space holds none.
pub proof fn law_white_space_parts_words(a: Seq<char>, gap: Seq<char>, b: Seq<char>, word: Seq<char>)
    requires
        gap.len() > 0,
        forall|i: int| 0 <= i < gap.len() ==> text::is_white(#[trigger] gap[i]),
        word.len() > 0,
        forall|i: int| 0 <= i < word.len() ==> !text::is_white(#[trigger] word[i]),
    ensures
        text::words(a + gap + b) == text::words(a) + text::words(b),
        text::words(word) == seq![word],
        text::words(gap).len() == 0,
{
    assert(text::is_white(gap[0]));
    assert(text::is_white(gap[gap.len() - 1]));
    text_lemmas::lemma_words_add(gap, b);
    assert((gap + b)[0] == gap[0]);
    text_lemmas::lemma_words_add(a, gap + b);
    assert(a + gap + b == a + (gap + b));
    text_lemmas::lemma_blank_has_no_words(gap);
    assert(text::words(gap) + text::words(b) == text::words(b));
    text_lemmas::lemma_word_is_its_words(word);
}

/// Joined pieces stand in order with the separator between each two, and
/// nowhere else.
pub proof fn law_joining_puts_the_separator_between(
    a: Seq<Seq<char>>,
    b: Seq<Seq<char>>,
    piece: Seq<char>,
    separator: Seq<char>,
)
    requires
        a.len() > 0,
        b.len() > 0,
    ensures
        text::join(Seq::empty(), separator).len() == 0,
        text::join(seq![piece], separator) == piece,
        text::join(a + b, separator) == text::join(a, separator) + separator + text::join(
            b,
            separator,
        ),
    decreases b.len(),
{
    assert(seq![piece].len() == 1);
    let front = b.drop_last();
    assert((a + b).drop_last() == a + front);
    assert((a + b).last() == b.last());
    if front.len() == 0 {
        assert(a + front == a);
    } else {
        law_joining_puts_the_separator_between(a, front, piece, separator);
        assert(text::join(a + b, separator) == text::join(a, separator) + separator + text::join(
            b,
            separator,
        ));
    }
}

/// A text starts or ends with another exactly when something completes the
/// other to it.
pub proof fn law_a_text_starts_and_ends_with_its_parts(s: Seq<char>, part: Seq<char>, rest: Seq<char>)
    ensures
        text::starts_with(part + rest, part),
        text::ends_with(rest + part, part),
        text::starts_with(s, part) ==> part + s.skip(part.len() as int) == s,
        text::ends_with(s, part) ==> s.take(s.len() - part.len()) + part == s,
{
    assert((part + rest).take(part.len() as int) == part);
    assert((rest + part).skip((rest + part).len() - part.len()) == part);
    if text::starts_with(s, part) {
        assert(s.take(part.len() as int) + s.skip(part.len() as int) == s);
    }
    if text::ends_with(s, part) {
        let at = s.len() - part.len();
        assert(s.take(at) + s.skip(at) == s);
    }
}

/// The number that decimal digits denote.
pub open spec fn denoted(digits: Seq<char>) -> int
    decreases digits.len(),
{
    if digits.len() == 0 {
        0
    } else {
        10 * denoted(digits.drop_last()) + (digits.last() as int - '0' as int)
    }
}

/// A number is written in decimal digits that denote it, without a zero in
/// front.
pub proof fn law_decimal_digits_denote_the_number(n: nat)
    ensures
        denoted(text::decimal(n)) == n,
        text::decimal(n).len() > 0,
        text::decimal(n)[0] == '0' ==> n == 0 && text::decimal(n).len() == 1,
        forall|i: int|
            0 <= i < text::decimal(n).len() ==> '0' <= (#[trigger] text::decimal(n)[i]) <= '9',
    decreases n,
{
    let digits = text::decimal(n);
    if n < 10 {
        assert(digits.drop_last().len() == 0);
        assert(denoted(digits.drop_last()) == 0);
        assert(digits.last() as int == '0' as int + n);
    } else {
        let front = text::decimal(n / 10);
        law_decimal_digits_denote_the_number(n / 10);
        assert(digits.drop_last() == front);
        assert(digits.last() as int == '0' as int + n % 10);
        assert(digits[0] == front[0]);
        assert forall|i: int| 0 <= i < digits.len() implies '0' <= (#[trigger] digits[i]) <= '9' by {
            if i < front.len() {
                assert(digits[i] == front[i]);
            }
        }
    }
}

/// The size of a text is the number of its bytes in UTF-8, and each of its
/// characters counts by itself.
pub proof fn law_the_size_of_a_text_is_its_bytes(a: Seq<char>, b: Seq<char>)
    ensures
        text::utf8_len(a) == vstd::utf8::encode_utf8(a).len(),
        text::utf8_len(a + b) == text::utf8_len(a) + text::utf8_len(b),
{
    text::lemma_utf8_len_add(a, b);
}

/// The first place of a character is one where it stands and before which it
/// does not, the last place is one after which it does not, and a character
/// that does not occur has neither.
pub proof fn law_where_a_character_is_found(before: Seq<char>, after: Seq<char>, c: char)
    ensures
        !before.contains(c) ==> text::find(before + seq![c] + after, c) == before.len(),
        !before.contains(c) ==> text::find(before, c) == before.len(),
        !after.contains(c) ==> text::rfind(before + seq![c] + after, c) == before.len(),
        !before.contains(c) ==> text::rfind(before, c) == -1,
{
    let s = before + seq![c] + after;
    let at = before.len() as int;
    text::lemma_find(s, c);
    text::lemma_rfind(s, c);
    text::lemma_find(before, c);
    text::lemma_rfind(before, c);
    assert(s[at] == c);
    if !before.contains(c) && text::find(s, c) < at {
        assert(s[text::find(s, c)] == before[text::find(s, c)]);
    }
    if !after.contains(c) && text::rfind(s, c) > at {
        assert(s[text::rfind(s, c)] == after[text::rfind(s, c) - at - 1]);
    }
}

} // verus!
