use vstd::prelude::*;

verus! {

/// The characters of `s`, in order.
pub fn chars_of(s: &str) -> (r: Vec<char>)
    ensures
        r@ == s@,
{
    let mut r: Vec<char> = Vec::new();
    for c in it: s.chars()
        invariant
            it.seq() == s@,
            r@ == s@.subrange(0, it.index() as int),
    {
        r.push(c);
        assert(r@ =~= s@.subrange(0, it.index() + 1));
    }
    assert(r@ =~= s@);
    r
}

/// `String::push`: appends the one character `c` to `s`.
#[verifier::external_body]
fn push_char(s: &mut String, c: char)
    ensures
        final(s)@ == old(s)@.push(c),
{
    s.push(c)
}

/// The string whose characters are those of `v`, in order.
pub fn string_of(v: &Vec<char>) -> (r: String)
    ensures
        r@ == v@,
{
    let mut r = String::new();
    let mut i: usize = 0;
    while i < v.len()
        invariant
            i <= v.len(),
            r@ == v@.subrange(0, i as int),
        decreases v.len() - i,
    {
        push_char(&mut r, v[i]);
        i += 1;
        assert(r@ =~= v@.subrange(0, i as int));
    }
    assert(r@ =~= v@);
    r
}

/// Whether `pat` stands in `s` at position `i`.
pub open spec fn occurs_at(s: Seq<char>, pat: Seq<char>, i: int) -> bool {
    0 <= i && i + pat.len() <= s.len() && s.subrange(i, i + pat.len()) == pat
}

/// Whether `pat` stands anywhere in `s`.
pub open spec fn occurs_in(s: Seq<char>, pat: Seq<char>) -> bool {
    exists|i: int| occurs_at(s, pat, i)
}

/// The text of `s` from position `i` on, with every occurrence of `from`
/// replaced by `to`: occurrences are taken from the left and do not overlap.
/// An empty pattern occurs nowhere.
pub open spec fn replaced_from(s: Seq<char>, from: Seq<char>, to: Seq<char>, i: int) -> Seq<char>
    decreases s.len() - i,
{
    if i < 0 || i >= s.len() {
        Seq::empty()
    } else if from.len() > 0 && occurs_at(s, from, i) {
        to + replaced_from(s, from, to, i + from.len())
    } else {
        seq![s[i]] + replaced_from(s, from, to, i + 1)
    }
}

/// `s` with every occurrence of `from` replaced by `to`.
pub open spec fn replaced(s: Seq<char>, from: Seq<char>, to: Seq<char>) -> Seq<char> {
    replaced_from(s, from, to, 0)
}

/// Whether `pat` stands in `s` at position `i`.
pub fn matches_at(s: &Vec<char>, pat: &Vec<char>, i: usize) -> (r: bool)
    ensures
        r == occurs_at(s@, pat@, i as int),
{
    if i > s.len() || pat.len() > s.len() - i {
        return false;
    }
    let mut j: usize = 0;
    while j < pat.len()
        invariant
            i + pat.len() <= s.len(),
            j <= pat.len(),
            forall|k: int| 0 <= k < j ==> s@[i + k] == pat@[k],
        decreases pat.len() - j,
    {
        if s[i + j] != pat[j] {
            proof {
                let sub = s@.subrange(i as int, i + pat@.len());
                assert(sub[j as int] == s@[i + j]);
            }
            return false;
        }
        j += 1;
    }
    assert(s@.subrange(i as int, i + pat@.len()) =~= pat@);
    true
}

/// Whether `a` and `b` hold the same characters.
pub fn same_chars(a: &Vec<char>, b: &Vec<char>) -> (r: bool)
    ensures
        r == (a@ == b@),
{
    if a.len() != b.len() {
        return false;
    }
    let r = matches_at(a, b, 0);
    assert(a@.subrange(0, a@.len() as int) =~= a@);
    r
}

/// The characters of `s` from `from` up to `to`.
pub fn slice_chars(s: &Vec<char>, from: usize, to: usize) -> (r: Vec<char>)
    requires
        from <= to <= s.len(),
    ensures
        r@ == s@.subrange(from as int, to as int),
{
    let mut out: Vec<char> = Vec::new();
    let mut k: usize = from;
    while k < to
        invariant
            from <= k <= to,
            to <= s.len(),
            out@ == s@.subrange(from as int, k as int),
        decreases to - k,
    {
        out.push(s[k]);
        k += 1;
        assert(out@ =~= s@.subrange(from as int, k as int));
    }
    out
}

/// Appends the characters of `tail` to `out`.
pub fn append_chars(out: &mut Vec<char>, tail: &Vec<char>)
    ensures
        final(out)@ == old(out)@ + tail@,
{
    let mut j: usize = 0;
    while j < tail.len()
        invariant
            j <= tail.len(),
            out@ == old(out)@ + tail@.subrange(0, j as int),
        decreases tail.len() - j,
    {
        out.push(tail[j]);
        j += 1;
        assert(out@ =~= old(out)@ + tail@.subrange(0, j as int));
    }
    assert(tail@.subrange(0, tail.len() as int) =~= tail@);
}

/// Replaces every occurrence of `from` in `s` by `to`, from the left.
pub fn replace_all(s: &Vec<char>, from: &Vec<char>, to: &Vec<char>) -> (r: Vec<char>)
    ensures
        r@ == replaced(s@, from@, to@),
{
    let mut out: Vec<char> = Vec::new();
    let mut i: usize = 0;
    while i < s.len()
        invariant
            i <= s.len(),
            replaced(s@, from@, to@) == out@ + replaced_from(s@, from@, to@, i as int),
        decreases s.len() - i,
    {
        let ghost before = out@;
        if from.len() > 0 && matches_at(s, from, i) {
            append_chars(&mut out, to);
            assert(out@ + replaced_from(s@, from@, to@, i + from@.len()) =~= before
                + replaced_from(s@, from@, to@, i as int));
            i += from.len();
        } else {
            out.push(s[i]);
            assert(out@ + replaced_from(s@, from@, to@, i + 1) =~= before + replaced_from(
                s@,
                from@,
                to@,
                i as int,
            ));
            i += 1;
        }
    }
    assert(out@ + Seq::<char>::empty() =~= out@);
    out
}

/// The lower-case form of an ASCII capital; any other character is itself.
pub open spec fn lower_char(c: char) -> char {
    if 'A' <= c && c <= 'Z' {
        ((c as u8 + 32) as u8) as char
    } else {
        c
    }
}

/// `s` with each ASCII capital in lower case.
pub open spec fn lowered(s: Seq<char>) -> Seq<char> {
    Seq::new(s.len(), |i: int| lower_char(s[i]))
}

/// Puts each ASCII capital of `s` in lower case.
pub fn to_lower(s: &Vec<char>) -> (r: Vec<char>)
    ensures
        r@ == lowered(s@),
{
    let mut out: Vec<char> = Vec::new();
    let mut i: usize = 0;
    while i < s.len()
        invariant
            i <= s.len(),
            out@.len() == i,
            forall|k: int| 0 <= k < i ==> out@[k] == lower_char(s@[k]),
        decreases s.len() - i,
    {
        let c: char = s[i];
        if 'A' <= c && c <= 'Z' {
            let b: u8 = c as u8;
            out.push((b + 32) as char);
        } else {
            out.push(c);
        }
        i += 1;
    }
    assert(out@ =~= lowered(s@));
    out
}

} // verus!
