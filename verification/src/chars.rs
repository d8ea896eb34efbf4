//! The operations of [`crate::text`] on character slices. Every function here
//! bears the name of the spec function that it computes.

use vstd::prelude::*;
use vstd::slice::slice_subrange;

use crate::text;

verus! {

/// The characters of `s`.
pub fn of(s: &str) -> (r: Vec<char>)
    ensures
        r@ == s@,
{
    let mut out: Vec<char> = Vec::new();
    for c in it: s.chars()
        invariant
            it.seq() == s@,
            out@ == s@.take(it.index()),
    {
        assert(s@.take(it.index() + 1) == s@.take(it.index()).push(s@[it.index()]));
        out.push(c);
    }
    assert(s@.take(s@.len() as int) == s@);
    out
}

/// The string that holds `s`.
pub fn string(s: &[char]) -> (r: String)
    ensures
        r@ == s@,
{
    let mut out = String::new();
    for i in 0..s.len()
        invariant
            out@ == s@.take(i as int),
    {
        assert(s@.take(i + 1) == s@.take(i as int).push(s@[i as int]));
        out.push(s[i]);
    }
    assert(s@.take(s@.len() as int) == s@);
    out
}

/// A copy of `s`.
pub fn copy(s: &[char]) -> (r: Vec<char>)
    ensures
        r@ == s@,
{
    let mut out: Vec<char> = Vec::new();
    append(&mut out, s);
    assert(out@ == s@);
    out
}

/// Puts `s` at the end of `out`.
pub fn append(out: &mut Vec<char>, s: &[char])
    ensures
        final(out)@ == old(out)@ + s@,
{
    let ghost before = out@;
    for i in 0..s.len()
        invariant
            out@ == before + s@.take(i as int),
    {
        assert(s@.take(i + 1) == s@.take(i as int).push(s@[i as int]));
        out.push(s[i]);
    }
    assert(s@.take(s@.len() as int) == s@);
}

/// Puts `s` at the end of `out`.
pub fn append_str(out: &mut Vec<char>, s: &str)
    ensures
        final(out)@ == old(out)@ + s@,
{
    let piece = of(s);
    append(out, piece.as_slice());
}

pub fn is_white(c: char) -> (r: bool)
    ensures
        r == text::is_white(c),
{
    let code: u32 = c as u32;
    (0x09 <= code && code <= 0x0d) || code == 0x20 || code == 0x85 || code == 0xa0 || code
        == 0x1680 || (0x2000 <= code && code <= 0x200a) || code == 0x2028 || code == 0x2029
        || code == 0x202f || code == 0x205f || code == 0x3000
}

pub fn is_blank(s: &[char]) -> (r: bool)
    ensures
        r == text::is_blank(s@),
{
    for i in 0..s.len()
        invariant
            forall|j: int| 0 <= j < i ==> text::is_white(#[trigger] s@[j]),
    {
        if !is_white(s[i]) {
            return false;
        }
    }
    true
}

pub fn trim_start(s: &[char]) -> (r: &[char])
    ensures
        r@ == text::trim_start(s@),
{
    let mut from: usize = 0;
    assert(s@.skip(0) == s@);
    while from < s.len() && is_white(s[from])
        invariant
            from <= s@.len(),
            text::trim_start(s@) == text::trim_start(s@.skip(from as int)),
        decreases s@.len() - from,
    {
        assert(s@.skip(from as int).drop_first() == s@.skip(from + 1));
        from = from + 1;
    }
    slice_subrange(s, from, s.len())
}

pub fn trim_end(s: &[char]) -> (r: &[char])
    ensures
        r@ == text::trim_end(s@),
{
    let mut to: usize = s.len();
    assert(s@.take(to as int) == s@);
    while to > 0 && is_white(s[to - 1])
        invariant
            to <= s@.len(),
            text::trim_end(s@) == text::trim_end(s@.take(to as int)),
        decreases to,
    {
        assert(s@.take(to as int).drop_last() == s@.take(to - 1));
        to = to - 1;
    }
    slice_subrange(s, 0, to)
}

pub fn trim(s: &[char]) -> (r: &[char])
    ensures
        r@ == text::trim(s@),
{
    trim_end(trim_start(s))
}

pub fn trim_start_char(s: &[char], c: char) -> (r: &[char])
    ensures
        r@ == text::trim_start_char(s@, c),
{
    let mut from: usize = 0;
    assert(s@.skip(0) == s@);
    while from < s.len() && s[from] == c
        invariant
            from <= s@.len(),
            text::trim_start_char(s@, c) == text::trim_start_char(s@.skip(from as int), c),
        decreases s@.len() - from,
    {
        assert(s@.skip(from as int).drop_first() == s@.skip(from + 1));
        from = from + 1;
    }
    slice_subrange(s, from, s.len())
}

pub fn trim_end_char(s: &[char], c: char) -> (r: &[char])
    ensures
        r@ == text::trim_end_char(s@, c),
{
    let mut to: usize = s.len();
    assert(s@.take(to as int) == s@);
    while to > 0 && s[to - 1] == c
        invariant
            to <= s@.len(),
            text::trim_end_char(s@, c) == text::trim_end_char(s@.take(to as int), c),
        decreases to,
    {
        assert(s@.take(to as int).drop_last() == s@.take(to - 1));
        to = to - 1;
    }
    slice_subrange(s, 0, to)
}

pub fn find(s: &[char], c: char) -> (r: usize)
    ensures
        r == text::find(s@, c),
{
    let mut at: usize = 0;
    assert(s@.skip(0) == s@);
    while at < s.len() && s[at] != c
        invariant
            at <= s@.len(),
            text::find(s@, c) == at + text::find(s@.skip(at as int), c),
        decreases s@.len() - at,
    {
        assert(s@.skip(at as int).drop_first() == s@.skip(at + 1));
        at = at + 1;
    }
    at
}

/// The place of the last `c`, if there is one.
pub fn rfind(s: &[char], c: char) -> (r: Option<usize>)
    ensures
        match r {
            Some(at) => at == text::rfind(s@, c),
            None => text::rfind(s@, c) == -1,
        },
{
    let mut to: usize = s.len();
    assert(s@.take(to as int) == s@);
    while to > 0
        invariant
            to <= s@.len(),
            text::rfind(s@, c) == text::rfind(s@.take(to as int), c),
        decreases to,
    {
        if s[to - 1] == c {
            return Some(to - 1);
        }
        assert(s@.take(to as int).drop_last() == s@.take(to - 1));
        to = to - 1;
    }
    None
}

/// Whether the two hold the same characters.
pub fn same(a: &[char], b: &[char]) -> (r: bool)
    ensures
        r == (a@ == b@),
{
    if a.len() != b.len() {
        return false;
    }
    for i in 0..a.len()
        invariant
            a@.len() == b@.len(),
            forall|j: int| 0 <= j < i ==> a@[j] == b@[j],
    {
        if a[i] != b[i] {
            return false;
        }
    }
    assert(a@ == b@);
    true
}

pub fn starts_with(s: &[char], prefix: &str) -> (r: bool)
    ensures
        r == text::starts_with(s@, prefix@),
{
    let wanted = of(prefix);
    wanted.len() <= s.len() && same(slice_subrange(s, 0, wanted.len()), wanted.as_slice())
}

pub fn ends_with(s: &[char], suffix: &str) -> (r: bool)
    ensures
        r == text::ends_with(s@, suffix@),
{
    let wanted = of(suffix);
    wanted.len() <= s.len() && same(
        slice_subrange(s, s.len() - wanted.len(), s.len()),
        wanted.as_slice(),
    )
}

/// What the slices hold.
pub open spec fn views(pieces: Seq<&[char]>) -> Seq<Seq<char>> {
    pieces.map_values(|piece: &[char]| piece@)
}

/// What the vectors hold.
pub open spec fn rows(pieces: Seq<Vec<char>>) -> Seq<Seq<char>> {
    pieces.map_values(|piece: Vec<char>| piece@)
}

/// What an optional text holds.
pub open spec fn optional(piece: Option<String>) -> Option<Seq<char>> {
    match piece {
        Some(piece) => Some(piece@),
        None => None,
    }
}

/// What the strings hold.
pub open spec fn texts(pieces: Seq<String>) -> Seq<Seq<char>> {
    pieces.map_values(|piece: String| piece@)
}

/// The strings that hold `rows`.
pub fn strings(pieces: &Vec<Vec<char>>) -> (r: Vec<String>)
    ensures
        texts(r@) == rows(pieces@),
{
    let mut out: Vec<String> = Vec::new();
    for i in 0..pieces.len()
        invariant
            texts(out@) == rows(pieces@).take(i as int),
    {
        let ghost before = texts(out@);
        let piece = string(pieces[i].as_slice());
        out.push(piece);
        assert(texts(out@) == before.push(piece@));
        assert(rows(pieces@)[i as int] == piece@);
    }
    assert(rows(pieces@).take(pieces@.len() as int) == rows(pieces@));
    out
}

pub fn chomp(s: &[char]) -> (r: &[char])
    ensures
        r@ == text::chomp(s@),
{
    if s.len() > 0 && s[s.len() - 1] == '\r' {
        slice_subrange(s, 0, s.len() - 1)
    } else {
        s
    }
}

pub fn lines<'a>(s: &'a [char]) -> (r: Vec<&'a [char]>)
    ensures
        views(r@) == text::lines(s@),
{
    let mut out: Vec<&'a [char]> = Vec::new();
    let mut rest: &'a [char] = s;
    while rest.len() > 0
        invariant
            text::lines(s@) == views(out@) + text::lines(rest@),
        decreases rest@.len(),
    {
        let ghost before = views(out@);
        let ghost left = rest@;
        let at: usize = find(rest, '\n');
        proof {
            text::lemma_find(left, '\n');
        }
        if at >= rest.len() {
            out.push(rest);
            rest = slice_subrange(rest, rest.len(), rest.len());
            assert(views(out@) == before.push(left));
            assert(text::lines(rest@) == Seq::<Seq<char>>::empty());
        } else {
            let line: &'a [char] = chomp(slice_subrange(rest, 0, at));
            out.push(line);
            rest = slice_subrange(rest, at + 1, rest.len());
            assert(left.subrange(0, at as int) == left.take(at as int));
            assert(rest@ == left.skip(at + 1));
            assert(views(out@) == before.push(line@));
        }
    }
    assert(text::lines(rest@) == Seq::<Seq<char>>::empty());
    out
}

pub fn word_len(s: &[char]) -> (r: usize)
    ensures
        r == text::word_len(s@),
{
    let mut at: usize = 0;
    assert(s@.skip(0) == s@);
    while at < s.len() && !is_white(s[at])
        invariant
            at <= s@.len(),
            text::word_len(s@) == at + text::word_len(s@.skip(at as int)),
        decreases s@.len() - at,
    {
        assert(s@.skip(at as int).drop_first() == s@.skip(at + 1));
        at = at + 1;
    }
    at
}

pub fn words<'a>(s: &'a [char]) -> (r: Vec<&'a [char]>)
    ensures
        views(r@) == text::words(s@),
{
    let mut out: Vec<&'a [char]> = Vec::new();
    let mut rest: &'a [char] = s;
    while rest.len() > 0
        invariant
            text::words(s@) == views(out@) + text::words(rest@),
        decreases rest@.len(),
    {
        let ghost before = views(out@);
        let ghost left = rest@;
        proof {
            text::lemma_word_len(left);
        }
        if is_white(rest[0]) {
            rest = slice_subrange(rest, 1, rest.len());
            assert(rest@ == left.drop_first());
        } else {
            let len: usize = word_len(rest);
            let word: &'a [char] = slice_subrange(rest, 0, len);
            out.push(word);
            rest = slice_subrange(rest, len, rest.len());
            assert(word@ == left.take(len as int));
            assert(rest@ == left.skip(len as int));
            assert(views(out@) == before.push(word@));
        }
    }
    assert(text::words(rest@) == Seq::<Seq<char>>::empty());
    out
}

pub fn join(pieces: &Vec<Vec<char>>, separator: &str) -> (r: Vec<char>)
    ensures
        r@ == text::join(rows(pieces@), separator@),
{
    let mut out: Vec<char> = Vec::new();
    for i in 0..pieces.len()
        invariant
            out@ == text::join(rows(pieces@).take(i as int), separator@),
    {
        let ghost all = rows(pieces@);
        assert(all.take(i + 1).drop_last() == all.take(i as int));
        if i > 0 {
            append_str(&mut out, separator);
        }
        append(&mut out, pieces[i].as_slice());
    }
    assert(rows(pieces@).take(pieces@.len() as int) == rows(pieces@));
    out
}

pub fn decimal(n: usize) -> (r: Vec<char>)
    ensures
        r@ == text::decimal(n as nat),
    decreases n,
{
    if n < 10 {
        let mut out: Vec<char> = Vec::new();
        out.push(digit(n));
        out
    } else {
        let mut out = decimal(n / 10);
        out.push(digit(n % 10));
        out
    }
}

fn digit(n: usize) -> (r: char)
    requires
        n < 10,
    ensures
        r == text::digit(n as nat),
{
    let code: u8 = 48 + (n as u8);
    code as char
}

/// The number of bytes that `c` takes in UTF-8.
pub fn utf8_width(c: char) -> (r: usize)
    ensures
        r == text::utf8_len(seq![c]),
        1 <= r <= 4,
{
    proof {
        text::lemma_utf8_width(c);
    }
    let code: u32 = c as u32;
    if code <= 0x7f {
        1
    } else if code <= 0x7ff {
        2
    } else if code <= 0xffff {
        3
    } else {
        4
    }
}

pub fn utf8_len(s: &[char]) -> (r: usize)
    requires
        text::utf8_len(s@) <= usize::MAX,
    ensures
        r == text::utf8_len(s@),
{
    let mut total: usize = 0;
    assert(s@.take(0) == Seq::<char>::empty());
    for i in 0..s.len()
        invariant
            text::utf8_len(s@) <= usize::MAX,
            total == text::utf8_len(s@.take(i as int)),
    {
        proof {
            text::lemma_utf8_len_add(s@.take(i as int), seq![s@[i as int]]);
            assert(s@.take(i as int) + seq![s@[i as int]] == s@.take(i + 1));
            text::lemma_utf8_len_add(s@.take(i + 1), s@.skip(i + 1));
            assert(s@.take(i + 1) + s@.skip(i + 1) == s@);
        }
        total = total + utf8_width(s[i]);
    }
    assert(s@.take(s@.len() as int) == s@);
    total
}

} // verus!
