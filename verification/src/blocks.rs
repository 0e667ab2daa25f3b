use crate::config::{holds_name, name_set};
use crate::text::{
    append_chars, chars_of, matches_at, occurs_at, same_chars, slice_chars, string_of,
};
use vstd::prelude::*;

verus! {

/// Why a template could not be rendered.
#[derive(Debug, Clone, Copy, PartialEq, Eq, Structural)]
pub enum RenderError {
    /// The template library holds no text under the path asked for.
    NotFound,
    /// A start marker without its end marker, an end marker without a start
    /// marker before it, or a start marker inside a block.
    MalformedBlock,
}

/// Where a scan stands between two lines: outside any block, inside a block
/// whose lines are kept, or inside one whose lines are dropped.
#[derive(Debug, Clone, Copy, PartialEq, Eq, Structural)]
pub enum Scan {
    Normal,
    Kept,
    Dropped,
}

/// What a line is: ordinary text, an end marker, or a start marker with the
/// name between its quotes.
pub enum Marker {
    Plain,
    End,
    Start(Vec<char>),
}

/// The first position from `i` on at which `s` does not hold `c`.
pub open spec fn skip_run(s: Seq<char>, i: int, c: char) -> int
    decreases s.len() - i,
{
    if 0 <= i < s.len() && s[i] == c {
        skip_run(s, i + 1, c)
    } else {
        i
    }
}

/// The end of the line that starts at `i`: the position of the next line
/// feed, or the end of the text.
pub open spec fn line_end(s: Seq<char>, i: int) -> int
    decreases s.len() - i,
{
    if 0 <= i < s.len() && s[i] != '\n' {
        line_end(s, i + 1)
    } else {
        i
    }
}

/// The line that starts at `i` ends in the text, holds no line feed, and is
/// followed by one unless the text ends there.
pub proof fn lemma_line_end(s: Seq<char>, i: int)
    requires
        0 <= i <= s.len(),
    ensures
        i <= line_end(s, i) <= s.len(),
        line_end(s, i) < s.len() ==> s[line_end(s, i)] == '\n',
        forall|k: int| i <= k < line_end(s, i) ==> s[k] != '\n',
    decreases s.len() - i,
{
    if i < s.len() && s[i] != '\n' {
        lemma_line_end(s, i + 1);
    }
}

/// A line without its indentation: the spaces at its start, then the tabs
/// after them.
pub open spec fn unindented(line: Seq<char>) -> Seq<char> {
    line.subrange(skip_run(line, skip_run(line, 0, ' '), '\t'), line.len() as int)
}

/// The length of the start sentinel, with the space and the opening quote,
/// that `body` begins with; -1 where it begins with neither spelling.
pub open spec fn start_prefix_len(body: Seq<char>) -> int {
    if occurs_at(body, "#!startExtra \""@, 0) {
        "#!startExtra \""@.len() as int
    } else if occurs_at(body, "//!startExtra \""@, 0) {
        "//!startExtra \""@.len() as int
    } else {
        -1
    }
}

/// Whether `line` is a start marker: indentation, a start sentinel, a space,
/// and a name in double quotes that ends the line.
pub open spec fn is_start(line: Seq<char>) -> bool {
    let body = unindented(line);
    let p = start_prefix_len(body);
    p >= 0 && body.len() > p && body[body.len() - 1] == '"'
}

/// The name between the quotes of a start marker.
pub open spec fn start_name(line: Seq<char>) -> Seq<char> {
    let body = unindented(line);
    body.subrange(start_prefix_len(body), body.len() - 1)
}

/// Whether `line` is an end marker: indentation and an end sentinel.
pub open spec fn is_end(line: Seq<char>) -> bool {
    let body = unindented(line);
    body == "#!endExtra"@ || body == "//!endExtra"@
}

/// Whether `line` is a marker of either kind.
pub open spec fn is_marker(line: Seq<char>) -> bool {
    is_start(line) || is_end(line)
}

/// Whether the name of a block is negated: it begins with `!`.
pub open spec fn is_negated(name: Seq<char>) -> bool {
    name.len() > 0 && name[0] == '!'
}

/// The selector of a block: its name, without the `!` of a negated one.
pub open spec fn selector_of(name: Seq<char>) -> Seq<char> {
    if is_negated(name) {
        name.subrange(1, name.len() as int)
    } else {
        name
    }
}

/// Whether a block named `name` keeps its lines under the selection `sel`.
/// A plain block keeps them exactly where its name is selected. A negated
/// block keeps them where its selector is not selected, and also where its
/// name as written, with the `!`, is selected.
pub open spec fn keeps(name: Seq<char>, sel: Set<Seq<char>>) -> bool {
    if is_negated(name) {
        sel.contains(name) || !sel.contains(selector_of(name))
    } else {
        sel.contains(name)
    }
}

/// The state inside a block named `name`.
pub open spec fn entered(name: Seq<char>, sel: Set<Seq<char>>) -> Scan {
    if keeps(name, sel) {
        Scan::Kept
    } else {
        Scan::Dropped
    }
}

/// The line that starts at `i` as a marker is read: without the carriage
/// return that stands before its line feed, where there is one.
pub open spec fn marker_text(s: Seq<char>, i: int) -> Seq<char> {
    let e = line_end(s, i);
    if i < e < s.len() && s[e - 1] == '\r' {
        s.subrange(i, e - 1)
    } else {
        s.subrange(i, e)
    }
}

/// Whether a start marker stands at `i`. Its line feed is part of it: the
/// same text on a last line without a line feed is ordinary text.
pub open spec fn start_at(s: Seq<char>, i: int) -> bool {
    line_end(s, i) < s.len() && is_start(marker_text(s, i))
}

/// Whether an end marker stands at `i`; its line feed may be missing at the
/// end of the text.
pub open spec fn end_at(s: Seq<char>, i: int) -> bool {
    !is_start(marker_text(s, i)) && is_end(marker_text(s, i))
}

/// Whether a marker of either kind stands at `i`.
pub open spec fn marker_at(s: Seq<char>, i: int) -> bool {
    start_at(s, i) || end_at(s, i)
}

/// The resolved text of `s` from the line that starts at `i`, read in state
/// `st`; `None` where the blocks are malformed. Marker lines leave with
/// their line ends, the lines of a dropped block leave, and every other
/// line stays as it is written, with its own line end.
pub open spec fn resolved_from(s: Seq<char>, i: int, st: Scan, sel: Set<Seq<char>>) -> Option<
    Seq<char>,
>
    decreases s.len() - i,
    via resolved_from_decreases
{
    if i < 0 || i > s.len() {
        None
    } else {
        let e = line_end(s, i);
        let line = s.subrange(i, e);
        let last = e >= s.len();
        if start_at(s, i) {
            if st == Scan::Normal {
                resolved_from(s, e + 1, entered(start_name(marker_text(s, i)), sel), sel)
            } else {
                None
            }
        } else if end_at(s, i) {
            if st == Scan::Normal {
                None
            } else if last {
                Some(Seq::empty())
            } else {
                resolved_from(s, e + 1, Scan::Normal, sel)
            }
        } else if last {
            if st == Scan::Normal {
                Some(line)
            } else {
                None
            }
        } else {
            match resolved_from(s, e + 1, st, sel) {
                None => None,
                Some(rest) => Some(
                    if st == Scan::Dropped {
                        rest
                    } else {
                        line + seq!['\n'] + rest
                    },
                ),
            }
        }
    }
}

#[via_fn]
proof fn resolved_from_decreases(s: Seq<char>, i: int, st: Scan, sel: Set<Seq<char>>) {
    if 0 <= i <= s.len() {
        lemma_line_end(s, i);
    }
}

/// The text `s` with every block resolved under the selection `sel`.
pub open spec fn resolved(s: Seq<char>, sel: Set<Seq<char>>) -> Option<Seq<char>> {
    resolved_from(s, 0, Scan::Normal, sel)
}

/// `rest` with `out` before it.
pub open spec fn after(out: Seq<char>, rest: Option<Seq<char>>) -> Option<Seq<char>> {
    match rest {
        None => None,
        Some(t) => Some(out + t),
    }
}

/// The first position from `i` on at which `s` does not hold `c`.
pub fn skip_chars(s: &Vec<char>, i: usize, c: char) -> (r: usize)
    requires
        i <= s.len(),
    ensures
        r == skip_run(s@, i as int, c),
        i <= r <= s.len(),
{
    let mut k: usize = i;
    while k < s.len() && s[k] == c
        invariant
            i <= k <= s.len(),
            skip_run(s@, k as int, c) == skip_run(s@, i as int, c),
        decreases s.len() - k,
    {
        k += 1;
    }
    k
}

/// The end of the line that starts at `i`.
pub fn find_line_end(s: &Vec<char>, i: usize) -> (r: usize)
    requires
        i <= s.len(),
    ensures
        r == line_end(s@, i as int),
        i <= r <= s.len(),
{
    let mut k: usize = i;
    while k < s.len() && s[k] != '\n'
        invariant
            i <= k <= s.len(),
            line_end(s@, k as int) == line_end(s@, i as int),
        decreases s.len() - k,
    {
        k += 1;
    }
    k
}

/// Tells what `line` is.
pub fn classify(line: &Vec<char>) -> (r: Marker)
    ensures
        match r {
            Marker::Start(name) => is_start(line@) && name@ == start_name(line@),
            Marker::End => !is_start(line@) && is_end(line@),
            Marker::Plain => !is_marker(line@),
        },
{
    let a = skip_chars(line, 0, ' ');
    let b = skip_chars(line, a, '\t');
    let body = slice_chars(line, b, line.len());
    let hash = chars_of("#!startExtra \"");
    let slashes = chars_of("//!startExtra \"");
    let p: Option<usize> = if matches_at(&body, &hash, 0) {
        Some(hash.len())
    } else if matches_at(&body, &slashes, 0) {
        Some(slashes.len())
    } else {
        None
    };
    if let Some(p) = p {
        if body.len() > p && body[body.len() - 1] == '"' {
            return Marker::Start(slice_chars(&body, p, body.len() - 1));
        }
    }
    if same_chars(&body, &chars_of("#!endExtra")) || same_chars(&body, &chars_of("//!endExtra")) {
        Marker::End
    } else {
        Marker::Plain
    }
}

/// Whether a block named `name` keeps its lines when `extras` are selected.
pub fn block_kept(name: &Vec<char>, extras: &Vec<String>) -> (r: bool)
    ensures
        r == keeps(name@, name_set(extras@)),
{
    if holds_name(extras, name) {
        return true;
    }
    if name.len() > 0 && name[0] == '!' {
        let base = slice_chars(name, 1, name.len());
        !holds_name(extras, &base)
    } else {
        false
    }
}

/// Resolves the blocks of `text`: each block whose name keeps it under
/// `extras` is replaced by its lines, each other block is removed, and every
/// marker line leaves. Malformed blocks are an error.
pub fn resolve_chars(text: &Vec<char>, extras: &Vec<String>) -> (r: Result<Vec<char>, RenderError>)
    ensures
        match resolved(text@, name_set(extras@)) {
            Some(t) => r is Ok && r->Ok_0@ == t,
            None => r == Err::<Vec<char>, RenderError>(RenderError::MalformedBlock),
        },
{
    let ghost sel = name_set(extras@);
    let mut out: Vec<char> = Vec::new();
    let mut st = Scan::Normal;
    let mut i: usize = 0;
    loop
        invariant
            i <= text.len(),
            sel == name_set(extras@),
            resolved(text@, sel) == after(out@, resolved_from(text@, i as int, st, sel)),
        decreases text.len() - i,
    {
        let e = find_line_end(text, i);
        let line = slice_chars(text, i, e);
        let last = e >= text.len();
        let bare_end = if !last && e > i && text[e - 1] == '\r' {
            e - 1
        } else {
            e
        };
        let bare = slice_chars(text, i, bare_end);
        assert(bare@ == marker_text(text@, i as int));
        let ghost before = out@;
        match classify(&bare) {
            Marker::Start(name) if !last => {
                if st != Scan::Normal {
                    return Err(RenderError::MalformedBlock);
                }
                st = if block_kept(&name, extras) {
                    Scan::Kept
                } else {
                    Scan::Dropped
                };
            },
            Marker::End => {
                if st == Scan::Normal {
                    return Err(RenderError::MalformedBlock);
                }
                if last {
                    assert(out@ + Seq::<char>::empty() =~= out@);
                    return Ok(out);
                }
                st = Scan::Normal;
            },
            _ => {
                if last {
                    if st != Scan::Normal {
                        return Err(RenderError::MalformedBlock);
                    }
                    append_chars(&mut out, &line);
                    return Ok(out);
                }
                if st != Scan::Dropped {
                    append_chars(&mut out, &line);
                    out.push('\n');
                    proof {
                        let rest = resolved_from(text@, e + 1, st, sel);
                        if rest is Some {
                            assert(out@ + rest->Some_0 =~= before + (line@ + seq!['\n']
                                + rest->Some_0));
                        }
                    }
                }
            },
        }
        i = e + 1;
    }
}

/// Resolves the blocks of `text` under the selection `extras`.
pub fn resolve_blocks(text: &str, extras: &Vec<String>) -> (r: Result<String, RenderError>)
    ensures
        match resolved(text@, name_set(extras@)) {
            Some(t) => r is Ok && r->Ok_0@ == t,
            None => r == Err::<String, RenderError>(RenderError::MalformedBlock),
        },
{
    match resolve_chars(&chars_of(text), extras) {
        Ok(v) => Ok(string_of(&v)),
        Err(e) => Err(e),
    }
}

} // verus!
