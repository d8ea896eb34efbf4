//! What the installed git reports of the staged change. lede reads the staged
//! state and nothing else: what the user staged is the contract for what the
//! message describes, so an unstaged or untracked change never reaches the
//! model.

use vstd::prelude::*;
use vstd::slice::slice_subrange;
use vstd::string::StringExecFns;

use crate::chars;
use crate::process;
use crate::process::{Output, OutputView};
use crate::text;

verus! {

/// Diffs beyond this are cut before the API call. About 16k tokens: enough
/// context for any commit worth one message, cheap enough to send blindly.
/// No token counting; bytes are a good enough proxy at this margin.
pub const MAX_DIFF_BYTES: usize = 64 * 1024;

#[derive(Debug)]
pub struct StagedChange {
    /// Name-status lines, e.g. "M\tsrc/main.rs". Never truncated, so the
    /// model sees the full scope of the commit even when the diff is cut.
    pub summary: String,
    /// The staged patch, truncated to `MAX_DIFF_BYTES`.
    pub diff: String,
}

/// What a [`StagedChange`] holds.
pub struct StagedChangeView {
    pub summary: Seq<char>,
    pub diff: Seq<char>,
}

impl View for StagedChange {
    type V = StagedChangeView;

    open spec fn view(&self) -> StagedChangeView {
        StagedChangeView { summary: self.summary@, diff: self.diff@ }
    }
}

/// Why there is no staged change to describe.
#[derive(Debug)]
pub enum GitError {
    /// git could not be started, for the reason given.
    NotRun(String),
    /// git failed, and wrote this to its stderr.
    Failed(String),
    NothingStaged,
    /// No blank line parts the raw entries from the patch.
    NoPatch,
    NoPath,
    NoStatus,
}

/// What a [`GitError`] holds.
pub enum GitErrorView {
    NotRun(Seq<char>),
    Failed(Seq<char>),
    NothingStaged,
    NoPatch,
    NoPath,
    NoStatus,
}

impl View for GitError {
    type V = GitErrorView;

    open spec fn view(&self) -> GitErrorView {
        match self {
            GitError::NotRun(cause) => GitErrorView::NotRun(cause@),
            GitError::Failed(stderr) => GitErrorView::Failed(stderr@),
            GitError::NothingStaged => GitErrorView::NothingStaged,
            GitError::NoPatch => GitErrorView::NoPatch,
            GitError::NoPath => GitErrorView::NoPath,
            GitError::NoStatus => GitErrorView::NoStatus,
        }
    }
}

/// The name-status line of a raw diff entry: the status is the last word
/// before the first tab, and the paths after that tab stay as they are.
pub open spec fn entry(line: Seq<char>) -> Result<Seq<char>, GitErrorView> {
    let at = text::find(line, '\t');
    let metadata = text::words(line.take(at));
    if at >= line.len() {
        Err(GitErrorView::NoPath)
    } else if metadata.len() == 0 {
        Err(GitErrorView::NoStatus)
    } else {
        Ok(metadata.last() + "\t"@ + line.skip(at + 1))
    }
}

/// The name-status lines of all entries, or what is wrong with the first
/// entry that has none.
pub open spec fn entries(lines: Seq<Seq<char>>) -> Result<Seq<Seq<char>>, GitErrorView>
    decreases lines.len(),
{
    if lines.len() == 0 {
        Ok(Seq::empty())
    } else {
        match entries(lines.drop_last()) {
            Err(error) => Err(error),
            Ok(before) => match entry(lines.last()) {
                Err(error) => Err(error),
                Ok(last) => Ok(before.push(last)),
            },
        }
    }
}

/// The summary of the raw entries of a diff.
pub open spec fn summary(raw: Seq<char>) -> Result<Seq<char>, GitErrorView> {
    match entries(text::lines(raw)) {
        Err(error) => Err(error),
        Ok(rows) => Ok(text::join(rows, "\n"@)),
    }
}

proof fn lemma_entries_stop(lines: Seq<Seq<char>>, at: int)
    requires
        0 <= at <= lines.len(),
        entries(lines.take(at)) is Err,
    ensures
        entries(lines) == entries(lines.take(at)),
    decreases lines.len() - at,
{
    if at == lines.len() {
        assert(lines.take(at) == lines);
    } else {
        assert(lines.take(at + 1).drop_last() == lines.take(at));
        lemma_entries_stop(lines, at + 1);
    }
}

fn raw_entry(line: &[char]) -> (r: Result<Vec<char>, GitError>)
    ensures
        match r {
            Ok(row) => entry(line@) == Ok::<Seq<char>, GitErrorView>(row@),
            Err(error) => entry(line@) == Err::<Seq<char>, GitErrorView>(error@),
        },
{
    let at: usize = chars::find(line, '\t');
    if at >= line.len() {
        return Err(GitError::NoPath);
    }
    let metadata = chars::words(slice_subrange(line, 0, at));
    if metadata.len() == 0 {
        return Err(GitError::NoStatus);
    }
    assert(chars::views(metadata@).last() == metadata@.last()@);
    let mut row = chars::copy(metadata[metadata.len() - 1]);
    chars::append_str(&mut row, "\t");
    chars::append(&mut row, slice_subrange(line, at + 1, line.len()));
    Ok(row)
}

fn raw_chars(raw: &[char]) -> (r: Result<Vec<char>, GitError>)
    ensures
        match r {
            Ok(joined) => summary(raw@) == Ok::<Seq<char>, GitErrorView>(joined@),
            Err(error) => summary(raw@) == Err::<Seq<char>, GitErrorView>(error@),
        },
{
    let lines = chars::lines(raw);
    let ghost all = chars::views(lines@);
    let mut rows: Vec<Vec<char>> = Vec::new();
    assert(chars::rows(rows@) == Seq::<Seq<char>>::empty());
    for i in 0..lines.len()
        invariant
            all == chars::views(lines@),
            all == text::lines(raw@),
            entries(all.take(i as int)) == Ok::<Seq<Seq<char>>, GitErrorView>(chars::rows(rows@)),
    {
        let ghost before = chars::rows(rows@);
        assert(all.take(i + 1).drop_last() == all.take(i as int));
        assert(all.take(i + 1).last() == lines@[i as int]@);
        match raw_entry(lines[i]) {
            Ok(row) => {
                rows.push(row);
                assert(chars::rows(rows@) == before.push(row@));
            },
            Err(error) => {
                proof {
                    lemma_entries_stop(all, i + 1);
                }
                return Err(error);
            },
        }
    }
    assert(all.take(all.len() as int) == all);
    Ok(chars::join(&rows, "\n"))
}

/// Convert raw diff entries to the name-status lines sent to the model.
/// One entry looks like ":100644 100644 abc1234 def5678 M\tsrc/main.rs";
/// the status is the last metadata field and the paths keep their tabs, so
/// a rename ("R100\told\tnew") carries both of its paths through.
pub fn raw_summary(raw: &str) -> (r: Result<String, GitError>)
    ensures
        match r {
            Ok(joined) => summary(raw@) == Ok::<Seq<char>, GitErrorView>(joined@),
            Err(error) => summary(raw@) == Err::<Seq<char>, GitErrorView>(error@),
        },
{
    let source = chars::of(raw);
    match raw_chars(source.as_slice()) {
        Ok(joined) => Ok(chars::string(joined.as_slice())),
        Err(error) => Err(error),
    }
}

/// How many characters at the front of `s` fit in `max` bytes.
pub open spec fn fitting(s: Seq<char>, max: int) -> int
    decreases s.len(),
{
    if s.len() == 0 || text::utf8_len(seq![s[0]]) > max {
        0
    } else {
        1 + fitting(s.drop_first(), max - text::utf8_len(seq![s[0]]))
    }
}

/// Where a diff of more than `max` bytes is cut: at the last line feed of
/// what fits, or after all that fits when there is none.
pub open spec fn cut_at(diff: Seq<char>, max: int) -> int {
    let kept = fitting(diff, max);
    let feed = text::rfind(diff.take(kept), '\n');
    if feed >= 0 {
        feed
    } else {
        kept
    }
}

/// The KiB that hold `bytes`.
pub open spec fn kib(bytes: nat) -> nat {
    ((bytes + 1023) / 1024) as nat
}

/// A diff held to `max` bytes, with a line that says so where it was cut.
pub open spec fn truncated(diff: Seq<char>, max: int) -> Seq<char> {
    let kept = diff.take(cut_at(diff, max));
    if text::utf8_len(diff) <= max {
        diff
    } else {
        kept + "\n\n[diff truncated: showing first "@ + text::decimal(kib(text::utf8_len(kept)))
            + " KiB of "@ + text::decimal(kib(text::utf8_len(diff))) + " KiB]"@
    }
}

pub proof fn lemma_fitting(s: Seq<char>, max: int)
    requires
        max >= 0,
    ensures
        0 <= fitting(s, max) <= s.len(),
        text::utf8_len(s.take(fitting(s, max))) <= max,
        fitting(s, max) < s.len() ==> text::utf8_len(s.take(fitting(s, max) + 1)) > max,
    decreases s.len(),
{
    let kept = fitting(s, max);
    if s.len() == 0 {
    } else {
        let first = seq![s[0]];
        let rest = s.drop_first();
        if text::utf8_len(first) > max {
            assert(s.take(1) == first);
        } else {
            let left = max - text::utf8_len(first);
            lemma_fitting(rest, left);
            assert(s.take(kept) == first + rest.take(kept - 1));
            text::lemma_utf8_len_add(first, rest.take(kept - 1));
            if kept < s.len() {
                assert(s.take(kept + 1) == first + rest.take(kept));
                text::lemma_utf8_len_add(first, rest.take(kept));
            }
        }
    }
}

fn fit(s: &[char], max: usize) -> (r: usize)
    ensures
        r == fitting(s@, max as int),
{
    let mut kept: usize = 0;
    let mut left: usize = max;
    assert(s@.skip(0) == s@);
    while kept < s.len() && chars::utf8_width(s[kept]) <= left
        invariant
            kept <= s@.len(),
            fitting(s@, max as int) == kept + fitting(s@.skip(kept as int), left as int),
        decreases s@.len() - kept,
    {
        assert(s@.skip(kept as int).drop_first() == s@.skip(kept + 1));
        left = left - chars::utf8_width(s[kept]);
        kept = kept + 1;
    }
    kept
}

fn kib_of(bytes: usize) -> (r: usize)
    ensures
        r == kib(bytes as nat),
{
    if bytes % 1024 == 0 {
        bytes / 1024
    } else {
        bytes / 1024 + 1
    }
}

/// Cut at the last line boundary under `max`, never mid-codepoint, and say
/// so, so the model knows it is reading a prefix.
pub fn truncate_diff(diff: String, max: usize) -> (r: String)
    ensures
        r@ == truncated(diff@, max as int),
{
    let total: usize = diff.as_str().as_bytes().len();
    if total <= max {
        return diff;
    }
    let source = chars::of(diff.as_str());
    let kept: usize = fit(source.as_slice(), max);
    proof {
        lemma_fitting(diff@, max as int);
    }
    let prefix = slice_subrange(source.as_slice(), 0, kept);
    let cut: usize = match chars::rfind(prefix, '\n') {
        Some(feed) => feed,
        None => kept,
    };
    proof {
        text::lemma_rfind(prefix@, '\n');
        assert(prefix@ == diff@.take(kept as int));
        text::lemma_utf8_len_add(diff@.take(cut as int), prefix@.skip(cut as int));
        assert(diff@.take(cut as int) + prefix@.skip(cut as int) == prefix@);
    }
    let shown = slice_subrange(source.as_slice(), 0, cut);
    assert(shown@ == diff@.take(cut as int));
    let mut out = chars::copy(shown);
    chars::append_str(&mut out, "\n\n[diff truncated: showing first ");
    chars::append(&mut out, chars::decimal(kib_of(chars::utf8_len(shown))).as_slice());
    chars::append_str(&mut out, " KiB of ");
    chars::append(&mut out, chars::decimal(kib_of(total)).as_slice());
    chars::append_str(&mut out, " KiB]");
    chars::string(out.as_slice())
}

/// The arguments that make git report the staged change. `--raw --patch`
/// emits the complete file metadata and patch from one index read, so the two
/// cannot describe different staged states. `--no-ext-diff` guards against
/// user diff tools and `-M` collapses renames, so a moved file does not bloat
/// the diff with its whole contents.
pub open spec fn diff_arguments() -> Seq<Seq<char>> {
    seq![
        "diff"@,
        "--cached"@,
        "--raw"@,
        "--patch"@,
        "--no-color"@,
        "--no-ext-diff"@,
        "-M"@,
    ]
}

fn arguments() -> (r: Vec<Vec<char>>)
    ensures
        chars::rows(r@) == diff_arguments(),
{
    let mut args: Vec<Vec<char>> = Vec::new();
    args.push(chars::of("diff"));
    args.push(chars::of("--cached"));
    args.push(chars::of("--raw"));
    args.push(chars::of("--patch"));
    args.push(chars::of("--no-color"));
    args.push(chars::of("--no-ext-diff"));
    args.push(chars::of("-M"));
    args
}

/// The arguments to run git with.
pub fn diff_args() -> (r: Vec<String>)
    ensures
        chars::texts(r@) == diff_arguments(),
{
    chars::strings(&arguments())
}

/// Where the first two line feeds in a row stand in `s`, or its length when
/// there are none.
pub open spec fn blank_line(s: Seq<char>) -> int
    decreases s.len(),
{
    if s.len() < 2 {
        s.len() as int
    } else if s[0] == '\n' && s[1] == '\n' {
        0
    } else {
        1 + blank_line(s.drop_first())
    }
}

/// What a run of git with [`diff_args`] says of the staged change: the raw
/// entries, one blank line, then the patch. `ran` is what git left behind, or
/// why it could not be started.
pub open spec fn staged(ran: Result<OutputView, Seq<char>>) -> Result<
    StagedChangeView,
    GitErrorView,
> {
    match ran {
        Err(cause) => Err(GitErrorView::NotRun(cause)),
        Ok(output) => {
            let out = process::lossy_text(output.stdout);
            let at = blank_line(out);
            if !output.success {
                Err(GitErrorView::Failed(text::trim(process::lossy_text(output.stderr))))
            } else if out.len() == 0 {
                Err(GitErrorView::NothingStaged)
            } else if at >= out.len() {
                Err(GitErrorView::NoPatch)
            } else {
                match summary(out.take(at)) {
                    Err(error) => Err(error),
                    Ok(summary) => Ok(
                        StagedChangeView {
                            summary,
                            diff: truncated(out.skip(at + 2), MAX_DIFF_BYTES as int),
                        },
                    ),
                }
            }
        },
    }
}

fn find_blank_line(s: &[char]) -> (r: usize)
    ensures
        r == blank_line(s@),
{
    let mut at: usize = 0;
    assert(s@.skip(0) == s@);
    while at < s.len()
        invariant
            at <= s@.len(),
            blank_line(s@) == at + blank_line(s@.skip(at as int)),
        decreases s@.len() - at,
    {
        if s.len() - at < 2 {
            return s.len();
        }
        if s[at] == '\n' && s[at + 1] == '\n' {
            return at;
        }
        assert(s@.skip(at as int).drop_first() == s@.skip(at + 1));
        at = at + 1;
    }
    at
}

/// One view of the staged change, read from what git wrote when it was run
/// with [`diff_args`]. `ran` holds why git could not be started where it could
/// not.
pub fn staged_change(ran: Result<Output, String>) -> (r: Result<StagedChange, GitError>)
    ensures
        match r {
            Ok(change) => staged(process::ran_view(ran)) == Ok::<StagedChangeView, GitErrorView>(change@),
            Err(error) => staged(process::ran_view(ran)) == Err::<StagedChangeView, GitErrorView>(error@),
        },
{
    let output = match ran {
        Ok(output) => output,
        Err(cause) => {
            return Err(GitError::NotRun(cause));
        },
    };
    if !output.success {
        let stderr = chars::of(process::decode_lossy(output.stderr.as_slice()).as_str());
        return Err(GitError::Failed(chars::string(chars::trim(stderr.as_slice()))));
    }
    let out = chars::of(process::decode_lossy(output.stdout.as_slice()).as_str());
    if out.len() == 0 {
        return Err(GitError::NothingStaged);
    }
    let at: usize = find_blank_line(out.as_slice());
    if at >= out.len() {
        return Err(GitError::NoPatch);
    }
    proof {
        lemma_blank_line(out@);
    }
    let raw = slice_subrange(out.as_slice(), 0, at);
    assert(raw@ == out@.take(at as int));
    let patch = slice_subrange(out.as_slice(), at + 2, out.len());
    assert(patch@ == out@.skip(at + 2));
    match raw_chars(raw) {
        Err(error) => Err(error),
        Ok(joined) => Ok(
            StagedChange {
                summary: chars::string(joined.as_slice()),
                diff: truncate_diff(chars::string(patch), MAX_DIFF_BYTES),
            },
        ),
    }
}

pub proof fn lemma_blank_line(s: Seq<char>)
    ensures
        0 <= blank_line(s) <= s.len(),
        blank_line(s) < s.len() ==> blank_line(s) + 2 <= s.len() && s[blank_line(s)] == '\n'
            && s[blank_line(s) + 1] == '\n',
    decreases s.len(),
{
    if s.len() >= 2 && !(s[0] == '\n' && s[1] == '\n') {
        lemma_blank_line(s.drop_first());
    }
}

impl GitErrorView {
    /// The words in which an error reaches the user.
    pub open spec fn message(self) -> Seq<char> {
        match self {
            GitErrorView::NotRun(cause) => "failed to run git; is it installed?: "@ + cause,
            GitErrorView::Failed(stderr) => "git "@ + text::join(diff_arguments(), " "@)
                + " failed: "@ + stderr,
            GitErrorView::NothingStaged => "nothing staged (use git add)"@,
            GitErrorView::NoPatch => "failed to parse staged diff"@,
            GitErrorView::NoPath => "raw diff entry has no path"@,
            GitErrorView::NoStatus => "raw diff entry has no status"@,
        }
    }
}

impl GitError {
    /// The words in which the error reaches the user.
    pub fn message(&self) -> (r: String)
        ensures
            r@ == self@.message(),
    {
        match self {
            GitError::NotRun(cause) => {
                let mut out = "failed to run git; is it installed?: ".to_owned();
                out.append(cause.as_str());
                out
            },
            GitError::Failed(stderr) => {
                let mut out = chars::of("git ");
                chars::append(&mut out, chars::join(&arguments(), " ").as_slice());
                chars::append_str(&mut out, " failed: ");
                chars::append_str(&mut out, stderr.as_str());
                chars::string(out.as_slice())
            },
            GitError::NothingStaged => "nothing staged (use git add)".to_owned(),
            GitError::NoPatch => "failed to parse staged diff".to_owned(),
            GitError::NoPath => "raw diff entry has no path".to_owned(),
            GitError::NoStatus => "raw diff entry has no status".to_owned(),
        }
    }
}

} // verus!
