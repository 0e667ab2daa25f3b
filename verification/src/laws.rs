use crate::blocks::{
    after, end_at, entered, is_marker, is_negated, keeps, lemma_line_end, line_end, marker_at,
    marker_text, resolved, resolved_from, selector_of, skip_run, start_at, start_name, unindented,
    Scan,
};
use crate::config::ProjectConfig;
use crate::parse::InitConfig;
use crate::render::outcomes;
use vstd::prelude::*;

verus! {

/// Whether no marker stands in `s`.
pub open spec fn marker_free(s: Seq<char>) -> bool
    decreases s.len(),
    via marker_free_decreases
{
    let e = line_end(s, 0);
    !marker_at(s, 0) && (e < s.len() ==> marker_free(
        s.subrange(e + 1, s.len() as int),
    ))
}

#[via_fn]
proof fn marker_free_decreases(s: Seq<char>) {
    lemma_line_end(s, 0);
}

/// Whether the text from `i` up to `j` is made of whole lines, each ended
/// by a line feed, none of them a marker.
pub open spec fn plain_until(s: Seq<char>, i: int, j: int) -> bool
    decreases j - i,
    via plain_until_decreases
{
    if i < 0 || j > s.len() || i > j {
        false
    } else if i == j {
        true
    } else {
        let e = line_end(s, i);
        e < j && !marker_at(s, i) && plain_until(s, e + 1, j)
    }
}

#[via_fn]
proof fn plain_until_decreases(s: Seq<char>, i: int, j: int) {
    if 0 <= i <= s.len() {
        lemma_line_end(s, i);
    }
}

/// The end of a line is the one position from its start on that holds a
/// line feed, or ends the text, with no line feed before it.
pub proof fn lemma_line_end_unique(s: Seq<char>, i: int, e: int)
    requires
        0 <= i <= e <= s.len(),
        e < s.len() ==> s[e] == '\n',
        forall|k: int| i <= k < e ==> s[k] != '\n',
    ensures
        line_end(s, i) == e,
    decreases e - i,
{
    if i < e {
        lemma_line_end_unique(s, i + 1, e);
    }
}

/// The empty line is no marker.
pub proof fn lemma_empty_line_plain()
    ensures
        !is_marker(Seq::<char>::empty()),
{
    reveal_strlit("#!startExtra \"");
    reveal_strlit("//!startExtra \"");
    reveal_strlit("#!endExtra");
    reveal_strlit("//!endExtra");
    let line = Seq::<char>::empty();
    assert(skip_run(line, 0, ' ') == 0);
    assert(skip_run(line, 0, '\t') == 0);
    assert(unindented(line).len() == 0);
}

/// A line reads the same as a marker wherever it stands: in `s` at `i`, or
/// at the start of a text `t` that begins with that line and, where the line
/// has a line feed in `s`, with that line feed.
pub proof fn lemma_marker_moved(s: Seq<char>, i: int, t: Seq<char>)
    requires
        0 <= i <= s.len(),
        line_end(s, i) - i <= t.len(),
        t.subrange(0, line_end(s, i) - i) == s.subrange(i, line_end(s, i)),
        line_end(s, i) < s.len() ==> line_end(s, i) - i < t.len() && t[line_end(s, i) - i] == '\n',
        line_end(s, i) >= s.len() ==> t.len() == line_end(s, i) - i,
    ensures
        line_end(t, 0) == line_end(s, i) - i,
        marker_text(t, 0) == marker_text(s, i),
        start_at(t, 0) == start_at(s, i),
        end_at(t, 0) == end_at(s, i),
        marker_at(t, 0) == marker_at(s, i),
{
    lemma_line_end(s, i);
    let e = line_end(s, i);
    let line = s.subrange(i, e);
    assert forall|k: int| 0 <= k < e - i implies t[k] != '\n' by {
        assert(t.subrange(0, e - i)[k] == line[k]);
    }
    lemma_line_end_unique(t, 0, e - i);
    if i < e {
        assert(t.subrange(0, e - i)[e - i - 1] == line[e - i - 1]);
        assert(t.subrange(0, e - i - 1) =~= t.subrange(0, e - i).subrange(0, e - i - 1));
        assert(s.subrange(i, e - 1) =~= line.subrange(0, e - i - 1));
    }
    assert(marker_text(t, 0) =~= marker_text(s, i));
}

/// What the resolver returns from any line on, in any state, holds no
/// marker.
pub proof fn lemma_resolved_from_marker_free(s: Seq<char>, i: int, st: Scan, sel: Set<Seq<char>>)
    requires
        resolved_from(s, i, st, sel) is Some,
    ensures
        marker_free(resolved_from(s, i, st, sel)->Some_0),
    decreases s.len() - i,
{
    lemma_line_end(s, i);
    lemma_empty_line_plain();
    let e = line_end(s, i);
    let line = s.subrange(i, e);
    let last = e >= s.len();
    let out = resolved_from(s, i, st, sel)->Some_0;
    let nothing = Seq::<char>::empty();
    if start_at(s, i) {
        lemma_resolved_from_marker_free(s, e + 1, entered(start_name(marker_text(s, i)), sel), sel);
    } else if end_at(s, i) {
        if last {
            assert(line_end(nothing, 0) == 0);
            assert(nothing.subrange(0, 0) =~= nothing);
        } else {
            lemma_resolved_from_marker_free(s, e + 1, Scan::Normal, sel);
        }
    } else if last {
        assert(line.subrange(0, e - i) =~= line);
        lemma_marker_moved(s, i, line);
    } else {
        lemma_resolved_from_marker_free(s, e + 1, st, sel);
        if st != Scan::Dropped {
            let rest = resolved_from(s, e + 1, st, sel)->Some_0;
            assert(out == line + seq!['\n'] + rest);
            assert(out.subrange(0, e - i) =~= line);
            lemma_marker_moved(s, i, out);
            assert(out.subrange(e - i + 1, out.len() as int) =~= rest);
        }
    }
}

/// Where the blocks of a text are well formed, the resolved text holds no
/// marker line of either kind.
pub proof fn lemma_resolved_marker_free(s: Seq<char>, sel: Set<Seq<char>>)
    requires
        resolved(s, sel) is Some,
    ensures
        marker_free(resolved(s, sel)->Some_0),
{
    lemma_resolved_from_marker_free(s, 0, Scan::Normal, sel);
}

/// Lines that are no markers pass through: kept outside a block and inside a
/// kept one, dropped inside a dropped one.
pub proof fn lemma_plain_run(s: Seq<char>, i: int, j: int, st: Scan, sel: Set<Seq<char>>)
    requires
        plain_until(s, i, j),
    ensures
        resolved_from(s, i, st, sel) == after(
            if st == Scan::Dropped {
                Seq::<char>::empty()
            } else {
                s.subrange(i, j)
            },
            resolved_from(s, j, st, sel),
        ),
    decreases j - i,
{
    let tail = resolved_from(s, j, st, sel);
    if i == j {
        if tail is Some {
            assert(Seq::<char>::empty() + tail->Some_0 =~= tail->Some_0);
            assert(s.subrange(i, j) + tail->Some_0 =~= tail->Some_0);
        }
    } else {
        lemma_line_end(s, i);
        let e = line_end(s, i);
        let line = s.subrange(i, e);
        lemma_plain_run(s, e + 1, j, st, sel);
        if tail is Some {
            let t = tail->Some_0;
            assert(line + seq!['\n'] + (s.subrange(e + 1, j) + t) =~= s.subrange(i, j) + t);
        }
    }
}

/// The text from `i` on holds no marker: read outside any block, it stays
/// as it is.
pub proof fn lemma_plain_tail(s: Seq<char>, i: int, sel: Set<Seq<char>>)
    requires
        0 <= i <= s.len(),
        marker_free(s.subrange(i, s.len() as int)),
    ensures
        resolved_from(s, i, Scan::Normal, sel) == Some(s.subrange(i, s.len() as int)),
    decreases s.len() - i,
{
    lemma_line_end(s, i);
    let n = s.len() as int;
    let e = line_end(s, i);
    let tail = s.subrange(i, n);
    assert(tail.subrange(0, e - i) =~= s.subrange(i, e));
    lemma_marker_moved(s, i, tail);
    if e < n {
        assert(tail.subrange(e - i + 1, tail.len() as int) =~= s.subrange(e + 1, n));
        lemma_plain_tail(s, e + 1, sel);
        assert(s.subrange(i, e) + seq!['\n'] + s.subrange(e + 1, n) =~= tail);
    } else {
        assert(s.subrange(i, e) =~= tail);
    }
}

/// A text without markers resolves to itself, whatever is selected.
pub proof fn lemma_plain_text_unchanged(s: Seq<char>, sel: Set<Seq<char>>)
    requires
        marker_free(s),
    ensures
        resolved(s, sel) == Some(s),
{
    assert(s.subrange(0, s.len() as int) =~= s);
    lemma_plain_tail(s, 0, sel);
}

/// Resolving a resolved text changes nothing.
pub proof fn lemma_resolution_idempotent(s: Seq<char>, sel: Set<Seq<char>>, other: Set<Seq<char>>)
    requires
        resolved(s, sel) is Some,
    ensures
        resolved(resolved(s, sel)->Some_0, other) == resolved(s, sel),
{
    lemma_resolved_marker_free(s, sel);
    lemma_plain_text_unchanged(resolved(s, sel)->Some_0, other);
}

/// A plain block is kept exactly where its name is selected. A negated
/// block whose name as written is not selected is kept exactly where its
/// selector is not selected.
pub proof fn lemma_selector(name: Seq<char>, sel: Set<Seq<char>>)
    ensures
        !is_negated(name) ==> (keeps(name, sel) <==> sel.contains(name)),
        is_negated(name) && !sel.contains(name) ==> (keeps(name, sel) <==> !sel.contains(
            selector_of(name),
        )),
{
}

/// One block, wherever it stands: a start marker at `i` read outside any
/// block, lines that are no markers up to `j`, and an end marker at `j`. What
/// the resolver returns from `i` is the lines between the markers where the
/// name keeps the block, nothing where it does not, and then the resolution
/// of what follows the end marker.
pub proof fn lemma_block_at(s: Seq<char>, sel: Set<Seq<char>>, i: int, j: int)
    requires
        0 <= i <= s.len(),
        start_at(s, i),
        plain_until(s, line_end(s, i) + 1, j),
        end_at(s, j),
    ensures
        resolved_from(s, i, Scan::Normal, sel) == after(
            if keeps(start_name(marker_text(s, i)), sel) {
                s.subrange(line_end(s, i) + 1, j)
            } else {
                Seq::<char>::empty()
            },
            if line_end(s, j) >= s.len() {
                Some(Seq::<char>::empty())
            } else {
                resolved_from(s, line_end(s, j) + 1, Scan::Normal, sel)
            },
        ),
{
    lemma_line_end(s, i);
    let b = line_end(s, i) + 1;
    let st = entered(start_name(marker_text(s, i)), sel);
    lemma_plain_run(s, b, j, st, sel);
}

/// Selector correctness, for a block as in `lemma_block_at`. A plain block
/// named `X` leaves its lines in the result exactly where `X` is selected. A
/// negated block named `!X`, where `!X` itself is not selected, leaves them
/// exactly where `X` is not selected.
pub proof fn lemma_selector_correct(s: Seq<char>, sel: Set<Seq<char>>, i: int, j: int)
    requires
        0 <= i <= s.len(),
        start_at(s, i),
        plain_until(s, line_end(s, i) + 1, j),
        end_at(s, j),
    ensures
        ({
            let name = start_name(marker_text(s, i));
            let body = s.subrange(line_end(s, i) + 1, j);
            let tail = if line_end(s, j) >= s.len() {
                Some(Seq::<char>::empty())
            } else {
                resolved_from(s, line_end(s, j) + 1, Scan::Normal, sel)
            };
            &&& !is_negated(name) ==> resolved_from(s, i, Scan::Normal, sel) == after(
                if sel.contains(name) {
                    body
                } else {
                    Seq::<char>::empty()
                },
                tail,
            )
            &&& is_negated(name) && !sel.contains(name) ==> resolved_from(s, i, Scan::Normal, sel)
                == after(
                if !sel.contains(selector_of(name)) {
                    body
                } else {
                    Seq::<char>::empty()
                },
                tail,
            )
        }),
{
    lemma_block_at(s, sel, i, j);
    lemma_selector(start_name(marker_text(s, i)), sel);
}

/// Selector correctness for the first block of a text: where only lines that
/// are no markers stand before it, the resolved text is those lines, then the
/// block's lines exactly where its name keeps it, then the resolution of the
/// rest.
pub proof fn lemma_first_block(s: Seq<char>, sel: Set<Seq<char>>, i: int, j: int)
    requires
        plain_until(s, 0, i),
        start_at(s, i),
        plain_until(s, line_end(s, i) + 1, j),
        end_at(s, j),
    ensures
        resolved(s, sel) == after(
            s.subrange(0, i) + (if keeps(start_name(marker_text(s, i)), sel) {
                s.subrange(line_end(s, i) + 1, j)
            } else {
                Seq::<char>::empty()
            }),
            if line_end(s, j) >= s.len() {
                Some(Seq::<char>::empty())
            } else {
                resolved_from(s, line_end(s, j) + 1, Scan::Normal, sel)
            },
        ),
{
    lemma_plain_run(s, 0, i, Scan::Normal, sel);
    lemma_block_at(s, sel, i, j);
    let body = if keeps(start_name(marker_text(s, i)), sel) {
        s.subrange(line_end(s, i) + 1, j)
    } else {
        Seq::<char>::empty()
    };
    let tail = if line_end(s, j) >= s.len() {
        Some(Seq::<char>::empty())
    } else {
        resolved_from(s, line_end(s, j) + 1, Scan::Normal, sel)
    };
    if tail is Some {
        assert(s.subrange(0, i) + (body + tail->Some_0) =~= (s.subrange(0, i) + body)
            + tail->Some_0);
    }
}

/// What follows the end marker at `j`: nothing where the text ends with
/// the marker.
pub open spec fn text_after(s: Seq<char>, j: int) -> Seq<char> {
    if line_end(s, j) >= s.len() {
        Seq::empty()
    } else {
        s.subrange(line_end(s, j) + 1, s.len() as int)
    }
}

/// A text with one block: lines without markers, a start marker at `i`,
/// lines without markers up to the end marker at `j`, and a rest without
/// markers. It resolves to the text before the block, the lines between the
/// markers exactly where the block's name keeps them, and the rest, each as
/// it is written.
pub proof fn lemma_one_block(s: Seq<char>, sel: Set<Seq<char>>, i: int, j: int)
    requires
        plain_until(s, 0, i),
        start_at(s, i),
        plain_until(s, line_end(s, i) + 1, j),
        end_at(s, j),
        marker_free(text_after(s, j)),
    ensures
        resolved(s, sel) == Some(
            s.subrange(0, i) + (if keeps(start_name(marker_text(s, i)), sel) {
                s.subrange(line_end(s, i) + 1, j)
            } else {
                Seq::<char>::empty()
            }) + text_after(s, j),
        ),
{
    lemma_first_block(s, sel, i, j);
    lemma_line_end(s, i);
    lemma_line_end(s, j);
    if line_end(s, j) < s.len() {
        lemma_plain_tail(s, line_end(s, j) + 1, sel);
    }
}

/// Whether no end marker stands on any line from `i` on.
pub open spec fn no_end_from(s: Seq<char>, i: int) -> bool
    decreases s.len() - i,
    via no_end_from_decreases
{
    if i < 0 || i > s.len() {
        true
    } else {
        !end_at(s, i) && (line_end(s, i) < s.len() ==> no_end_from(s, line_end(s, i) + 1))
    }
}

#[via_fn]
proof fn no_end_from_decreases(s: Seq<char>, i: int) {
    if 0 <= i <= s.len() {
        lemma_line_end(s, i);
    }
}

/// Inside a block, a text without an end marker does not resolve.
pub proof fn lemma_no_end_in_block(s: Seq<char>, i: int, st: Scan, sel: Set<Seq<char>>)
    requires
        0 <= i <= s.len(),
        st != Scan::Normal,
        no_end_from(s, i),
    ensures
        resolved_from(s, i, st, sel) is None,
    decreases s.len() - i,
{
    lemma_line_end(s, i);
    if !start_at(s, i) && line_end(s, i) < s.len() {
        lemma_no_end_in_block(s, line_end(s, i) + 1, st, sel);
    }
}

/// A start marker without an end marker after it is malformed, whatever is
/// selected and whatever stands before it outside any block.
pub proof fn lemma_unclosed_block(s: Seq<char>, sel: Set<Seq<char>>, i: int)
    requires
        plain_until(s, 0, i),
        start_at(s, i),
        no_end_from(s, line_end(s, i) + 1),
    ensures
        resolved(s, sel) is None,
{
    lemma_line_end(s, i);
    lemma_plain_run(s, 0, i, Scan::Normal, sel);
    lemma_no_end_in_block(s, line_end(s, i) + 1, entered(start_name(marker_text(s, i)), sel), sel);
}

/// Rendering keeps no state between files: the outcome of a file is that
/// of the file alone, so rendering `a` and then `b` gives each of them what
/// rendering `b` and then `a` gives it.
pub proof fn lemma_order_independent(
    dir: include_dir::Dir<'static>,
    config: ProjectConfig,
    init_config: InitConfig,
    a: Seq<char>,
    b: Seq<char>,
)
    ensures
        outcomes(dir, seq![a, b], config, init_config)[0] == outcomes(
            dir,
            seq![b, a],
            config,
            init_config,
        )[1],
        outcomes(dir, seq![a, b], config, init_config)[1] == outcomes(
            dir,
            seq![b, a],
            config,
            init_config,
        )[0],
{
}

} // verus!
