//! How the lines, the words and the blanks of a text relate.

use vstd::prelude::*;

use crate::text;

verus! {

/// The words of all the rows, in order.
pub open spec fn all_words(rows: Seq<Seq<char>>) -> Seq<Seq<char>>
    decreases rows.len(),
{
    if rows.len() == 0 {
        Seq::empty()
    } else {
        all_words(rows.drop_last()) + text::words(rows.last())
    }
}

/// Whether `s` is a word: something without white space.
pub open spec fn is_word(s: Seq<char>) -> bool {
    s.len() > 0 && forall|i: int| 0 <= i < s.len() ==> !text::is_white(#[trigger] s[i])
}

pub proof fn lemma_word_is_its_words(s: Seq<char>)
    requires
        is_word(s),
    ensures
        text::words(s) == seq![s],
{
    text::lemma_word_len(s);
    assert(text::word_len(s) == s.len());
    assert(s.take(s.len() as int) == s);
    assert(s.skip(s.len() as int).len() == 0);
    assert(text::words(s.skip(s.len() as int)) == Seq::<Seq<char>>::empty());
    assert(text::words(s) == seq![s] + Seq::<Seq<char>>::empty());
}

pub proof fn lemma_words_are_words(s: Seq<char>)
    ensures
        forall|i: int| 0 <= i < text::words(s).len() ==> is_word(#[trigger] text::words(s)[i]),
    decreases s.len(),
{
    if s.len() == 0 {
    } else if text::is_white(s[0]) {
        lemma_words_are_words(s.drop_first());
        assert(text::words(s) == text::words(s.drop_first()));
    } else {
        text::lemma_word_len(s);
        let n = text::word_len(s);
        lemma_words_are_words(s.skip(n));
        assert(is_word(s.take(n)));
        assert forall|i: int| 0 <= i < text::words(s).len() implies is_word(#[trigger] text::words(s)[i]) by {
            if i > 0 {
                assert(text::words(s)[i] == text::words(s.skip(n))[i - 1]);
            }
        }
    }
}

pub proof fn lemma_blank_has_no_words(s: Seq<char>)
    requires
        text::is_blank(s),
    ensures
        text::words(s) == Seq::<Seq<char>>::empty(),
    decreases s.len(),
{
    if s.len() > 0 {
        assert(text::is_white(s[0]));
        assert forall|i: int| 0 <= i < s.drop_first().len() implies text::is_white(
            #[trigger] s.drop_first()[i],
        ) by {
            assert(text::is_white(s[i + 1]));
        }
        lemma_blank_has_no_words(s.drop_first());
    }
}

pub proof fn lemma_wordless_is_blank(s: Seq<char>)
    requires
        text::words(s).len() == 0,
    ensures
        text::is_blank(s),
    decreases s.len(),
{
    if s.len() > 0 {
        text::lemma_word_len(s);
        assert(text::is_white(s[0]));
        lemma_wordless_is_blank(s.drop_first());
        assert forall|i: int| 0 <= i < s.len() implies text::is_white(#[trigger] s[i]) by {
            if i > 0 {
                assert(text::is_white(s.drop_first()[i - 1]));
            }
        }
    }
}

/// Where white space stands between two texts, no word crosses.
pub proof fn lemma_words_add(a: Seq<char>, b: Seq<char>)
    requires
        a.len() == 0 || b.len() == 0 || text::is_white(a.last()) || text::is_white(b[0]),
    ensures
        text::words(a + b) == text::words(a) + text::words(b),
    decreases a.len(),
{
    if a.len() == 0 {
        assert(a + b == b);
        assert(text::words(a) + text::words(b) == text::words(b));
    } else if b.len() == 0 {
        assert(a + b == a);
        assert(text::words(a) + text::words(b) == text::words(a));
    } else if text::is_white(a[0]) {
        let rest = a.drop_first();
        assert((a + b).drop_first() == rest + b);
        if rest.len() > 0 {
            assert(rest.last() == a.last());
        }
        lemma_words_add(rest, b);
    } else {
        text::lemma_word_len(a);
        text::lemma_word_len(a + b);
        let n = text::word_len(a);
        let m = text::word_len(a + b);
        assert(n == m) by {
            if n < a.len() {
                assert((a + b)[n] == a[n]);
                if m < n {
                    assert((a + b)[m] == a[m]);
                }
                if m > n {
                    assert(!text::is_white((a + b)[n]));
                }
            } else {
                assert(!text::is_white(a[a.len() - 1]));
                assert((a + b)[n] == b[0]);
                if m > n {
                    assert(!text::is_white((a + b)[n]));
                }
                if m < n {
                    assert((a + b)[m] == a[m]);
                }
            }
        }
        assert((a + b).take(n) == a.take(n));
        assert((a + b).skip(n) == a.skip(n) + b);
        if a.skip(n).len() > 0 {
            assert(a.skip(n).last() == a.last());
        }
        lemma_words_add(a.skip(n), b);
        assert(text::words(a + b) == text::words(a) + text::words(b));
    }
}

pub proof fn lemma_words_trim_start(s: Seq<char>)
    ensures
        text::words(text::trim_start(s)) == text::words(s),
    decreases s.len(),
{
    if s.len() > 0 && text::is_white(s[0]) {
        lemma_words_trim_start(s.drop_first());
    }
}

pub proof fn lemma_words_trim_end(s: Seq<char>)
    ensures
        text::words(text::trim_end(s)) == text::words(s),
{
    text::lemma_trim_end(s);
    let kept = text::trim_end(s);
    let cut = s.skip(kept.len() as int);
    assert(s == kept + cut);
    if cut.len() > 0 {
        assert(text::is_white(cut[0]));
    }
    lemma_words_add(kept, cut);
    lemma_blank_has_no_words(cut);
    assert(text::words(kept) + text::words(cut) == text::words(kept));
}

/// A text that neither begins nor ends with white space and has one word
/// is that word.
pub proof fn lemma_lone_word(s: Seq<char>)
    requires
        s.len() > 0,
        !text::is_white(s[0]),
        !text::is_white(s.last()),
        text::words(s).len() == 1,
    ensures
        text::words(s)[0] == s,
{
    text::lemma_word_len(s);
    let n = text::word_len(s);
    lemma_wordless_is_blank(s.skip(n));
    if n < s.len() {
        let tail = s.skip(n);
        assert(text::is_white(tail[tail.len() - 1]));
    }
    assert(s.take(s.len() as int) == s);
}

pub proof fn lemma_all_words_add(a: Seq<Seq<char>>, b: Seq<Seq<char>>)
    ensures
        all_words(a + b) == all_words(a) + all_words(b),
    decreases b.len(),
{
    if b.len() == 0 {
        assert(a + b == a);
        assert(all_words(a) + all_words(b) == all_words(a));
    } else {
        assert((a + b).drop_last() == a + b.drop_last());
        lemma_all_words_add(a, b.drop_last());
        assert(all_words(a + b) == all_words(a) + all_words(b));
    }
}

pub proof fn lemma_all_words_one(row: Seq<char>)
    ensures
        all_words(seq![row]) == text::words(row),
{
    let one = seq![row];
    assert(one.drop_last().len() == 0);
    assert(all_words(one.drop_last()) == Seq::<Seq<char>>::empty());
    assert(all_words(one) == Seq::<Seq<char>>::empty() + text::words(row));
}

/// Joining rows by line feeds keeps their words.
pub proof fn lemma_words_join(rows: Seq<Seq<char>>)
    ensures
        text::words(text::join(rows, "\n"@)) == all_words(rows),
    decreases rows.len(),
{
    reveal_strlit("\n");
    if rows.len() == 1 {
        lemma_all_words_one(rows[0]);
        assert(rows == seq![rows[0]]);
    } else if rows.len() > 1 {
        let front = text::join(rows.drop_last(), "\n"@);
        let last = rows.last();
        lemma_words_join(rows.drop_last());
        assert("\n"@ == seq!['\n']);
        lemma_words_add(front, "\n"@ + last);
        lemma_words_add("\n"@, last);
        lemma_blank_has_no_words("\n"@);
        assert(front + "\n"@ + last == front + ("\n"@ + last));
        assert(text::words("\n"@) + text::words(last) == text::words(last));
    }
}

/// The words of a text are those on its lines.
pub proof fn lemma_words_lines(s: Seq<char>)
    ensures
        all_words(text::lines(s)) == text::words(s),
    decreases s.len(),
{
    text::lemma_find(s, '\n');
    let at = text::find(s, '\n');
    if s.len() == 0 {
    } else if at >= s.len() {
        lemma_all_words_one(s);
    } else {
        let line = s.take(at);
        let rest = s.skip(at + 1);
        lemma_words_lines(rest);
        lemma_words_chomp(line);
        lemma_all_words_one(text::chomp(line));
        lemma_all_words_add(seq![text::chomp(line)], text::lines(rest));
        let feed = seq!['\n'];
        assert(s == line + (feed + rest));
        lemma_words_add(line, feed + rest);
        lemma_words_add(feed, rest);
        lemma_blank_has_no_words(feed);
        assert(text::words(feed) + text::words(rest) == text::words(rest));
    }
}

proof fn lemma_words_chomp(s: Seq<char>)
    ensures
        text::words(text::chomp(s)) == text::words(s),
{
    if s.len() > 0 && s.last() == '\r' {
        let front = s.drop_last();
        let back = seq!['\r'];
        assert(s == front + back);
        lemma_words_add(front, back);
        lemma_blank_has_no_words(back);
        assert(text::words(front) + text::words(back) == text::words(front));
    }
}

/// No line holds a line feed.
pub proof fn lemma_lines_hold_no_feed(s: Seq<char>)
    ensures
        forall|i: int| 0 <= i < text::lines(s).len() ==> !(#[trigger] text::lines(s)[i]).contains('\n'),
    decreases s.len(),
{
    text::lemma_find(s, '\n');
    let at = text::find(s, '\n');
    if s.len() == 0 {
    } else if at >= s.len() {
    } else {
        lemma_lines_hold_no_feed(s.skip(at + 1));
        let line = text::chomp(s.take(at));
        assert forall|j: int| 0 <= j < line.len() implies line[j] != '\n' by {
            assert(line[j] == s[j]);
        }
        assert forall|i: int| 0 <= i < text::lines(s).len() implies !(#[trigger] text::lines(s)[i]).contains(
            '\n',
        ) by {
            if i > 0 {
                assert(text::lines(s)[i] == text::lines(s.skip(at + 1))[i - 1]);
            }
        }
    }
}

/// The first of several rows comes before the rest of their join.
pub proof fn lemma_join_front(rows: Seq<Seq<char>>, separator: Seq<char>)
    requires
        rows.len() >= 2,
    ensures
        text::join(rows, separator) == rows[0] + separator + text::join(rows.drop_first(), separator),
    decreases rows.len(),
{
    if rows.len() == 2 {
        assert(rows.drop_last() == seq![rows[0]]);
        assert(rows.drop_first() == seq![rows[1]]);
        assert(text::join(rows.drop_last(), separator) == rows[0]);
        assert(text::join(rows.drop_first(), separator) == rows[1]);
    } else {
        lemma_join_front(rows.drop_last(), separator);
        assert(rows.drop_last().drop_first() == rows.drop_first().drop_last());
        assert(text::join(rows, separator) == rows[0] + separator + text::join(rows.drop_first(), separator));
    }
}

/// Whether `row` can be a line of its own: without a line feed, and without
/// a carriage return at its end.
pub open spec fn is_line(row: Seq<char>) -> bool {
    !row.contains('\n') && (row.len() > 0 ==> row.last() != '\r')
}

/// What stands before a line feed is a line, and the rest follows.
pub proof fn lemma_lines_front(row: Seq<char>, rest: Seq<char>)
    requires
        !row.contains('\n'),
    ensures
        text::lines(row + "\n"@ + rest) == seq![text::chomp(row)] + text::lines(rest),
{
    reveal_strlit("\n");
    let s = row + "\n"@ + rest;
    text::lemma_find(s, '\n');
    let at = text::find(s, '\n');
    assert(s[row.len() as int] == '\n');
    assert(at == row.len()) by {
        if at < row.len() {
            assert(s[at] == row[at]);
            assert(row.contains('\n'));
        }
    }
    assert(s.take(at) == row);
    assert(s.skip(at + 1) == rest);
}

/// A text without a line feed is one line, if it is anything.
pub proof fn lemma_lines_one(row: Seq<char>)
    requires
        !row.contains('\n'),
        row.len() > 0,
    ensures
        text::lines(row) == seq![row],
{
    text::lemma_find(row, '\n');
}

/// Splitting a join into lines gives the rows back.
pub proof fn lemma_lines_join(rows: Seq<Seq<char>>)
    requires
        forall|i: int| 0 <= i < rows.len() ==> is_line(#[trigger] rows[i]),
        rows.len() > 0 ==> rows.last().len() > 0,
    ensures
        text::lines(text::join(rows, "\n"@)) == rows,
    decreases rows.len(),
{
    if rows.len() == 0 {
        assert(text::lines(text::join(rows, "\n"@)) == rows);
    } else if rows.len() == 1 {
        assert(is_line(rows[0]));
        lemma_lines_one(rows[0]);
        assert(rows == seq![rows[0]]);
    } else {
        let rest = rows.drop_first();
        assert forall|i: int| 0 <= i < rest.len() implies is_line(#[trigger] rest[i]) by {
            assert(is_line(rows[i + 1]));
        }
        assert(rest.last() == rows.last());
        lemma_lines_join(rest);
        lemma_join_front(rows, "\n"@);
        assert(is_line(rows[0]));
        lemma_lines_front(rows[0], text::join(rest, "\n"@));
        assert(seq![rows[0]] + rest == rows);
    }
}

/// A text that does not end with white space is not changed by trimming
/// its end.
pub proof fn lemma_trim_end_is_kept(s: Seq<char>)
    requires
        s.len() == 0 || !text::is_white(s.last()),
    ensures
        text::trim_end(s) == s,
{
}

/// Trimming twice is trimming once.
pub proof fn lemma_trim_twice(s: Seq<char>)
    ensures
        text::trim(text::trim(s)) == text::trim(s),
        text::trim(s).len() > 0 ==> !text::is_white(text::trim(s)[0]) && !text::is_white(text::trim(s).last()),
{
    let front = text::trim_start(s);
    text::lemma_trim_start(s);
    text::lemma_trim_end(front);
    let both = text::trim_end(front);
    if both.len() > 0 {
        assert(both[0] == front[0]);
        assert(text::trim_start(both) == both);
    }
}

} // verus!
