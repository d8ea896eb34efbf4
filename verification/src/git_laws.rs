//! What holds of every staged change that lede reads.

use vstd::prelude::*;

use crate::git;
use crate::git::{GitErrorView, StagedChangeView, MAX_DIFF_BYTES};
use crate::process;
use crate::process::OutputView;
use crate::text;
use crate::text_lemmas;

verus! {

/// A diff that fits is left alone.
pub proof fn law_a_diff_that_fits_is_kept(diff: Seq<char>, max: int)
    requires
        text::utf8_len(diff) <= max,
    ensures
        git::truncated(diff, max) == diff,
{
}

/// A diff that does not fit is cut to a prefix of at most `max` bytes, which
/// is made of whole characters, and what follows the prefix says that the diff
/// was cut.
pub proof fn law_a_truncated_diff_starts_with_a_prefix(diff: Seq<char>, max: int)
    requires
        0 <= max < text::utf8_len(diff),
    ensures
        0 <= git::cut_at(diff, max) < diff.len(),
        text::utf8_len(diff.take(git::cut_at(diff, max))) <= max,
        git::truncated(diff, max).take(git::cut_at(diff, max)) == diff.take(
            git::cut_at(diff, max),
        ),
        text::starts_with(
            git::truncated(diff, max).skip(git::cut_at(diff, max)),
            "\n\n[diff truncated: showing first "@,
        ),
{
    let kept = git::fitting(diff, max);
    let cut = git::cut_at(diff, max);
    git::lemma_fitting(diff, max);
    text::lemma_rfind(diff.take(kept), '\n');
    assert(diff.take(diff.len() as int) == diff);
    assert(diff.take(cut) + diff.take(kept).skip(cut) == diff.take(kept));
    text::lemma_utf8_len_add(diff.take(cut), diff.take(kept).skip(cut));
    let note = "\n\n[diff truncated: showing first "@;
    let rest = text::decimal(git::kib(text::utf8_len(diff.take(cut)))) + " KiB of "@
        + text::decimal(git::kib(text::utf8_len(diff))) + " KiB]"@;
    assert(git::truncated(diff, max) == diff.take(cut) + (note + rest));
    assert(git::truncated(diff, max).skip(cut) == note + rest);
    assert((note + rest).take(note.len() as int) == note);
}

/// The cut falls on a line boundary, the last one of what fits, unless what
/// fits is all of one line: then the prefix is as long as it can be.
pub proof fn law_a_diff_is_cut_at_a_line_boundary(diff: Seq<char>, max: int)
    requires
        0 <= max < text::utf8_len(diff),
    ensures
        ({
            let kept = git::fitting(diff, max);
            let cut = git::cut_at(diff, max);
            &&& 0 <= cut <= kept < diff.len()
            &&& text::utf8_len(diff.take(kept)) <= max
            &&& text::utf8_len(diff.take(kept + 1)) > max
            &&& diff.take(kept).contains('\n') ==> cut < kept && diff[cut] == '\n'
            &&& !diff.take(kept).contains('\n') ==> cut == kept
            &&& forall|i: int| cut < i < kept ==> diff[i] != '\n'
        }),
{
    let kept = git::fitting(diff, max);
    let cut = git::cut_at(diff, max);
    git::lemma_fitting(diff, max);
    text::lemma_rfind(diff.take(kept), '\n');
    assert(diff.take(diff.len() as int) == diff);
    assert forall|i: int| cut < i < kept implies diff[i] != '\n' by {
        assert(diff.take(kept)[i] == diff[i]);
    }
}

/// A raw entry keeps its paths as they are, tabs included, so a rename carries
/// both of its paths through.
pub proof fn law_an_entry_keeps_its_paths(metadata: Seq<char>, paths: Seq<char>)
    requires
        !metadata.contains('\t'),
        text::words(metadata).len() > 0,
    ensures
        git::entry(metadata + "\t"@ + paths) == Ok::<Seq<char>, GitErrorView>(
            text::words(metadata).last() + "\t"@ + paths,
        ),
{
    reveal_strlit("\t");
    let line = metadata + "\t"@ + paths;
    let at = metadata.len() as int;
    text::lemma_find(line, '\t');
    assert(line[at] == '\t');
    assert(text::find(line, '\t') == at) by {
        let found = text::find(line, '\t');
        if found < at {
            assert(metadata[found] == '\t');
        }
    }
    assert(line.take(at) == metadata);
    assert(line.skip(at + 1) == paths);
}

/// The summary is never cut: it has one line for each raw entry, in order.
pub proof fn law_the_summary_names_every_entry(lines: Seq<Seq<char>>)
    ensures
        match git::entries(lines) {
            Ok(rows) => rows.len() == lines.len() && forall|i: int|
                0 <= i < lines.len() ==> git::entry(lines[i]) == Ok::<Seq<char>, GitErrorView>(
                    #[trigger] rows[i],
                ),
            Err(error) => exists|i: int|
                0 <= i < lines.len() && #[trigger] git::entry(lines[i]) == Err::<
                    Seq<char>,
                    GitErrorView,
                >(error) && git::entries(lines.take(i)) is Ok,
        },
    decreases lines.len(),
{
    if lines.len() > 0 {
        let front = lines.drop_last();
        let last = lines.len() - 1;
        law_the_summary_names_every_entry(front);
        match git::entries(front) {
            Ok(rows) => {
                assert(lines.take(last) == front);
                assert(lines[last] == lines.last());
            },
            Err(error) => {
                let i = choose|i: int|
                    0 <= i < front.len() && #[trigger] git::entry(front[i]) == Err::<
                        Seq<char>,
                        GitErrorView,
                    >(error) && git::entries(front.take(i)) is Ok;
                assert(lines.take(i) == front.take(i));
                assert(git::entry(lines[i]) == git::entry(front[i]));
            },
        }
    }
}

/// git writes the raw entries, one blank line, then the patch. Entries that
/// hold no blank line come back as the summary, and the patch as the diff.
pub proof fn law_the_summary_and_the_diff_come_apart(
    output: OutputView,
    raw: Seq<char>,
    patch: Seq<char>,
)
    requires
        output.success,
        process::lossy_text(output.stdout) == raw + "\n\n"@ + patch,
        git::blank_line(raw) == raw.len(),
        raw.len() == 0 || raw.last() != '\n',
    ensures
        git::staged(Ok(output)) == match git::summary(raw) {
            Ok(summary) => Ok::<StagedChangeView, GitErrorView>(
                StagedChangeView { summary, diff: git::truncated(patch, MAX_DIFF_BYTES as int) },
            ),
            Err(error) => Err(error),
        },
{
    reveal_strlit("\n\n");
    let out = raw + "\n\n"@ + patch;
    lemma_blank_line_after(raw, patch);
    assert(out.take(raw.len() as int) == raw);
    assert(out.skip(raw.len() as int + 2) == patch);
}

proof fn lemma_blank_line_after(raw: Seq<char>, patch: Seq<char>)
    requires
        git::blank_line(raw) == raw.len(),
        raw.len() == 0 || raw.last() != '\n',
    ensures
        git::blank_line(raw + "\n\n"@ + patch) == raw.len(),
    decreases raw.len(),
{
    reveal_strlit("\n\n");
    let out = raw + "\n\n"@ + patch;
    if raw.len() > 0 {
        assert(out.drop_first() == raw.drop_first() + "\n\n"@ + patch);
        git::lemma_blank_line(raw.drop_first());
        lemma_blank_line_after(raw.drop_first(), patch);
    }
}

/// The summary lists every staged file. It is made of one row for each raw
/// entry, in order, each row being what that entry says. As long as no entry
/// ends in a carriage return these rows are the lines of the summary.
pub proof fn law_the_summary_lists_every_file(raw: Seq<char>, listed: Seq<char>)
    requires
        git::summary(raw) == Ok::<Seq<char>, GitErrorView>(listed),
    ensures
        exists|rows: Seq<Seq<char>>|
            #![trigger text::join(rows, seq!['\n'])]
            listed == text::join(rows, seq!['\n']) && rows.len() == text::lines(raw).len() && forall|
                i: int,
            |
                0 <= i < rows.len() ==> git::entry(text::lines(raw)[i]) == Ok::<
                    Seq<char>,
                    GitErrorView,
                >(#[trigger] rows[i]),
        (forall|i: int|
            0 <= i < text::lines(raw).len() && (#[trigger] text::lines(raw)[i]).len() > 0
                ==> text::lines(raw)[i].last() != '\r') ==> {
            &&& text::lines(listed).len() == text::lines(raw).len()
            &&& forall|i: int|
                0 <= i < text::lines(raw).len() ==> git::entry(text::lines(raw)[i]) == Ok::<
                    Seq<char>,
                    GitErrorView,
                >(#[trigger] text::lines(listed)[i])
        },
{
    reveal_strlit("\n");
    assert("\n"@ == seq!['\n']);
    let all = text::lines(raw);
    law_the_summary_names_every_entry(all);
    let rows = git::entries(all)->Ok_0;
    assert(listed == text::join(rows, seq!['\n']));
    if forall|i: int|
        0 <= i < all.len() && (#[trigger] all[i]).len() > 0 ==> all[i].last() != '\r' {
        text_lemmas::lemma_lines_hold_no_feed(raw);
        assert forall|i: int| 0 <= i < rows.len() implies text_lemmas::is_line(#[trigger] rows[i])
            && rows[i].len() > 0 by {
            assert(git::entry(all[i]) == Ok::<Seq<char>, GitErrorView>(rows[i]));
            assert(!all[i].contains('\n'));
            lemma_entry_is_a_line(all[i], rows[i]);
        }
        if rows.len() > 0 {
            assert(rows.last() == rows[rows.len() - 1]);
        }
        text_lemmas::lemma_lines_join(rows);
    }
}

proof fn lemma_entry_is_a_line(line: Seq<char>, row: Seq<char>)
    requires
        !line.contains('\n'),
        line.len() > 0 ==> line.last() != '\r',
        git::entry(line) == Ok::<Seq<char>, GitErrorView>(row),
    ensures
        text_lemmas::is_line(row),
        row.len() > 0,
{
    reveal_strlit("\t");
    let at = text::find(line, '\t');
    text::lemma_find(line, '\t');
    let metadata = line.take(at);
    let status = text::words(metadata).last();
    let paths = line.skip(at + 1);
    text_lemmas::lemma_words_are_words(metadata);
    let words = text::words(metadata);
    assert(text_lemmas::is_word(words[words.len() - 1]));
    assert forall|i: int| 0 <= i < row.len() implies row[i] != '\n' by {
        if i < status.len() {
            assert(row[i] == status[i]);
            assert(!text::is_white(status[i]));
        } else if i > status.len() {
            assert(row[i] == line[at + (i - status.len())]);
        }
    }
    if paths.len() > 0 {
        assert(row.last() == paths.last());
        assert(paths.last() == line.last());
    } else {
        assert(row.last() == '\t');
    }
}

/// There is a summary exactly when every raw entry has a status and a path.
/// Otherwise the first entry without them says what is wrong.
pub proof fn law_a_summary_takes_good_entries(raw: Seq<char>)
    ensures
        (forall|i: int|
            0 <= i < text::lines(raw).len() ==> #[trigger] git::entry(text::lines(raw)[i]) is Ok)
            <==> git::summary(raw) is Ok,
        git::summary(raw) matches Err(error) ==> exists|i: int|
            0 <= i < text::lines(raw).len() && #[trigger] git::entry(text::lines(raw)[i]) == Err::<
                Seq<char>,
                GitErrorView,
            >(error) && forall|j: int|
                0 <= j < i ==> #[trigger] git::entry(text::lines(raw)[j]) is Ok,
{
    let all = text::lines(raw);
    law_the_summary_names_every_entry(all);
    match git::entries(all) {
        Ok(rows) => {
            assert forall|i: int| 0 <= i < all.len() implies #[trigger] git::entry(all[i]) is Ok by {
                assert(git::entry(all[i]) == Ok::<Seq<char>, GitErrorView>(rows[i]));
            }
        },
        Err(error) => {
            let i = choose|i: int|
                0 <= i < all.len() && #[trigger] git::entry(all[i]) == Err::<
                    Seq<char>,
                    GitErrorView,
                >(error) && git::entries(all.take(i)) is Ok;
            law_the_summary_names_every_entry(all.take(i));
            assert forall|j: int| 0 <= j < i implies #[trigger] git::entry(all[j]) is Ok by {
                let rows = git::entries(all.take(i))->Ok_0;
                assert(all.take(i)[j] == all[j]);
                assert(git::entry(all.take(i)[j]) == Ok::<Seq<char>, GitErrorView>(rows[j]));
            }
        },
    }
}

/// An entry without a tab has no path, and one with nothing but white space
/// before its first tab has no status.
pub proof fn law_an_entry_needs_a_status_and_a_path(metadata: Seq<char>, paths: Seq<char>)
    requires
        !metadata.contains('\t'),
    ensures
        git::entry(metadata) == Err::<Seq<char>, GitErrorView>(GitErrorView::NoPath),
        text::words(metadata).len() == 0 ==> git::entry(metadata + seq!['\t'] + paths) == Err::<
            Seq<char>,
            GitErrorView,
        >(GitErrorView::NoStatus),
{
    text::lemma_find(metadata, '\t');
    let line = metadata + seq!['\t'] + paths;
    let at = metadata.len() as int;
    text::lemma_find(line, '\t');
    assert(line[at] == '\t');
    assert(text::find(line, '\t') == at) by {
        let found = text::find(line, '\t');
        if found < at {
            assert(metadata[found] == '\t');
        }
    }
    assert(line.take(at) == metadata);
}

/// What follows the kept prefix of a cut diff says how much of it is shown, in
/// KiB rounded up, and is all that follows.
pub proof fn law_a_cut_diff_says_how_much_is_shown(
    diff: Seq<char>,
    max: int,
    shown: nat,
    total: nat,
)
    requires
        0 <= max < text::utf8_len(diff),
        1024 * (shown - 1) < text::utf8_len(diff.take(git::cut_at(diff, max))) <= 1024 * shown,
        1024 * (total - 1) < text::utf8_len(diff) <= 1024 * total,
    ensures
        git::truncated(diff, max) == diff.take(git::cut_at(diff, max))
            + "\n\n[diff truncated: showing first "@ + text::decimal(shown) + " KiB of "@
            + text::decimal(total) + " KiB]"@,
{
}

/// What is staged cannot be told when git could not be started, when it failed,
/// when it wrote nothing, or when no blank line parts what it wrote.
pub proof fn law_when_nothing_can_be_told_of_the_staged_change(
    output: OutputView,
    cause: Seq<char>,
)
    ensures
        git::staged(Err(cause)) == Err::<StagedChangeView, GitErrorView>(
            GitErrorView::NotRun(cause),
        ),
        !output.success ==> git::staged(Ok(output)) == Err::<StagedChangeView, GitErrorView>(
            GitErrorView::Failed(text::trim(process::lossy_text(output.stderr))),
        ),
        output.success && process::lossy_text(output.stdout).len() == 0 ==> git::staged(Ok(output))
            == Err::<StagedChangeView, GitErrorView>(GitErrorView::NothingStaged),
        output.success && process::lossy_text(output.stdout).len() > 0 && (forall|i: int|
            0 <= i < process::lossy_text(output.stdout).len() - 1 ==> !(
            #[trigger] process::lossy_text(output.stdout)[i] == '\n' && process::lossy_text(
                output.stdout,
            )[i + 1] == '\n')) ==> git::staged(Ok(output)) == Err::<StagedChangeView, GitErrorView>(
            GitErrorView::NoPatch,
        ),
{
    let out = process::lossy_text(output.stdout);
    git::lemma_blank_line(out);
    if git::blank_line(out) < out.len() {
        assert(out[git::blank_line(out)] == '\n');
    }
}

/// Everything up to the first blank line that git writes is summed up, and
/// everything after it is the patch, which is cut only beyond 64 KiB.
pub proof fn law_the_staged_change_is_all_that_git_wrote(
    output: OutputView,
    raw: Seq<char>,
    patch: Seq<char>,
    summary: Seq<char>,
)
    requires
        output.success,
        process::lossy_text(output.stdout) == raw + seq!['\n', '\n'] + patch,
        forall|i: int| 0 <= i < raw.len() - 1 ==> !(#[trigger] raw[i] == '\n' && raw[i + 1] == '\n'),
        raw.len() > 0 ==> raw.last() != '\n',
    ensures
        git::summary(raw) == Ok::<Seq<char>, GitErrorView>(summary) ==> {
            &&& git::staged(Ok(output)) == Ok::<StagedChangeView, GitErrorView>(
                StagedChangeView { summary, diff: git::truncated(patch, 65536) },
            )
            &&& text::utf8_len(patch) <= 65536 ==> git::staged(Ok(output)) == Ok::<
                StagedChangeView,
                GitErrorView,
            >(StagedChangeView { summary, diff: patch })
        },
        git::summary(raw) matches Err(error) ==> git::staged(Ok(output)) == Err::<
            StagedChangeView,
            GitErrorView,
        >(error),
{
    reveal_strlit("\n\n");
    assert("\n\n"@ == seq!['\n', '\n']);
    git::lemma_blank_line(raw);
    if git::blank_line(raw) < raw.len() {
        assert(raw[git::blank_line(raw)] == '\n');
    }
    law_the_summary_and_the_diff_come_apart(output, raw, patch);
}

/// What git said when it failed reaches the user whole, and so does the reason
/// why it did not start.
pub proof fn law_the_words_of_git_reach_the_user(words: Seq<char>)
    ensures
        GitErrorView::NotRun(words).message() == "failed to run git; is it installed?: "@ + words,
        GitErrorView::Failed(words).message()
            == "git diff --cached --raw --patch --no-color --no-ext-diff -M failed: "@ + words,
        GitErrorView::NothingStaged.message() == "nothing staged (use git add)"@,
        GitErrorView::NoPatch.message() == "failed to parse staged diff"@,
        GitErrorView::NoPath.message() == "raw diff entry has no path"@,
        GitErrorView::NoStatus.message() == "raw diff entry has no status"@,
{
    let front = "git "@ + text::join(git::diff_arguments(), " "@) + " failed: "@;
    assert(front == "git diff --cached --raw --patch --no-color --no-ext-diff -M failed: "@) by {
        reveal_strlit("git ");
        reveal_strlit(" ");
        reveal_strlit(" failed: ");
        reveal_strlit("diff");
        reveal_strlit("--cached");
        reveal_strlit("--raw");
        reveal_strlit("--patch");
        reveal_strlit("--no-color");
        reveal_strlit("--no-ext-diff");
        reveal_strlit("-M");
        reveal_strlit("git diff --cached --raw --patch --no-color --no-ext-diff -M failed: ");
        let args = git::diff_arguments();
        assert(args.take(7) == args);
        assert(args.take(7).drop_last() == args.take(6));
        assert(args.take(6).drop_last() == args.take(5));
        assert(args.take(5).drop_last() == args.take(4));
        assert(args.take(4).drop_last() == args.take(3));
        assert(args.take(3).drop_last() == args.take(2));
        assert(args.take(2).drop_last() == args.take(1));
        assert(text::join(args.take(1), " "@) == "diff"@);
        assert(text::join(args.take(2), " "@) == "diff"@ + " "@ + "--cached"@);
        assert(text::join(args.take(3), " "@) == text::join(args.take(2), " "@) + " "@ + "--raw"@);
        assert(text::join(args.take(4), " "@) == text::join(args.take(3), " "@) + " "@
            + "--patch"@);
        assert(text::join(args.take(5), " "@) == text::join(args.take(4), " "@) + " "@
            + "--no-color"@);
        assert(text::join(args.take(6), " "@) == text::join(args.take(5), " "@) + " "@
            + "--no-ext-diff"@);
        assert(text::join(args, " "@) == text::join(args.take(6), " "@) + " "@ + "-M"@);
    }
    assert(GitErrorView::Failed(words).message() == front + words);
}

} // verus!
