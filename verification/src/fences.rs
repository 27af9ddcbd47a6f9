use vstd::prelude::*;

use crate::text::{chars_of, is_white_space, slice_part, spec_is_white_space, string_of, trim, trim_bounds, trim_end};

verus! {

/// The Markdown code fence, three backticks.
pub open spec fn fence() -> Seq<char> {
    seq!['`', '`', '`']
}

/// Whether `s` begins with `p`.
pub open spec fn starts_with(s: Seq<char>, p: Seq<char>) -> bool {
    p.len() <= s.len() && s.subrange(0, p.len() as int) == p
}

/// Whether `s` ends with `p`.
pub open spec fn ends_with(s: Seq<char>, p: Seq<char>) -> bool {
    p.len() <= s.len() && s.subrange(s.len() - p.len(), s.len() as int) == p
}

/// The position of the first line feed in `s`, or its length when there is none.
pub open spec fn first_newline(s: Seq<char>) -> nat
    decreases s.len(),
{
    if s.len() == 0 {
        0
    } else if s[0] == '\n' {
        0
    } else {
        1 + first_newline(s.drop_first())
    }
}

/// A line without the carriage return that preceded its line feed.
pub open spec fn strip_cr(line: Seq<char>) -> Seq<char> {
    if line.len() > 0 && line.last() == '\r' {
        line.drop_last()
    } else {
        line
    }
}

/// The lines of `s` as `str::lines` yields them: split at each `\n`, a `\r` just
/// before a `\n` dropped, and no empty line after a final line feed.
pub open spec fn lines(s: Seq<char>) -> Seq<Seq<char>>
    decreases s.len(),
{
    if s.len() == 0 {
        seq![]
    } else {
        let i = first_newline(s);
        if i >= s.len() {
            seq![s]
        } else {
            seq![strip_cr(s.take(i as int))] + lines(s.skip((i + 1) as int))
        }
    }
}

/// The pieces joined with `sep` between each two of them, as `[T]::join` does.
pub open spec fn join(pieces: Seq<Seq<char>>, sep: Seq<char>) -> Seq<char>
    decreases pieces.len(),
{
    if pieces.len() == 0 {
        seq![]
    } else if pieces.len() == 1 {
        pieces[0]
    } else {
        join(pieces.drop_last(), sep) + sep + pieces.last()
    }
}

/// The sequence with every trailing fence removed, as `str::trim_end_matches("```")` does.
pub open spec fn trim_end_fences(s: Seq<char>) -> Seq<char>
    decreases s.len(),
{
    if ends_with(s, fence()) {
        trim_end_fences(s.subrange(0, s.len() - 3))
    } else {
        s
    }
}

/// The content of a reply with a surrounding Markdown code fence taken off.
///
/// The reply is trimmed; when it opens with a fence, its first line is dropped,
/// the other lines are joined with `\n` and trimmed at the end, and a closing
/// fence (with any fences right before it) is removed together with the white
/// space around what is left.
pub open spec fn spec_strip_code_fences(s: Seq<char>) -> Seq<char> {
    let t = trim(s);
    if starts_with(t, fence()) {
        let trimmed = trim_end(join(lines(t).drop_first(), seq!['\n']));
        if ends_with(trimmed, fence()) {
            trim(trim_end_fences(trimmed))
        } else {
            trimmed
        }
    } else {
        t
    }
}

proof fn lemma_first_newline(s: Seq<char>, q: int)
    requires
        0 <= q <= s.len(),
        forall|k: int| 0 <= k < q ==> s[k] != '\n',
        q == s.len() || s[q] == '\n',
    ensures
        first_newline(s) == q,
    decreases q,
{
    if q > 0 {
        assert(s[0] != '\n');
        let d = s.drop_first();
        assert forall|k: int| 0 <= k < q - 1 implies d[k] != '\n' by {
            assert(d[k] == s[k + 1]);
        }
        if q < s.len() {
            assert(d[q - 1] == s[q]);
        }
        lemma_first_newline(d, q - 1);
    }
}

/// Appends the characters of `x` to `out`.
pub fn append_chars(out: &mut Vec<char>, x: &[char])
    ensures
        final(out)@ == old(out)@ + x@,
{
    let mut i: usize = 0;
    while i < x.len()
        invariant
            i <= x.len(),
            out@ == old(out)@ + x@.take(i as int),
        decreases x.len() - i,
    {
        out.push(x[i]);
        assert(x@.take(i + 1) == x@.take(i as int).push(x@[i as int]));
        i += 1;
    }
    assert(x@.take(x.len() as int) == x@);
}

/// Splits `t` into its lines, as `str::lines` does.
pub fn lines_of(t: &[char]) -> (r: Vec<Vec<char>>)
    ensures
        r.deep_view() == lines(t@),
{
    let n = t.len();
    let mut out: Vec<Vec<char>> = Vec::new();
    let mut p: usize = 0;
    assert(t@.skip(0) == t@);
    while p < n
        invariant
            n == t.len(),
            p <= n,
            lines(t@) == out.deep_view() + lines(t@.skip(p as int)),
        decreases n - p,
    {
        let mut q = p;
        while q < n && t[q] != '\n'
            invariant
                n == t.len(),
                p <= q <= n,
                forall|k: int| p <= k < q ==> t@[k] != '\n',
            decreases n - q,
        {
            q += 1;
        }
        let ghost rest = t@.skip(p as int);
        proof {
            assert forall|k: int| 0 <= k < q - p implies rest[k] != '\n' by {
                assert(rest[k] == t@[p + k]);
            }
            if q < n {
                assert(rest[q - p] == t@[q as int]);
            }
            lemma_first_newline(rest, q - p);
        }
        let ghost before = out.deep_view();
        if q == n {
            let line = slice_part(t, p, n);
            assert(line@ == rest);
            assert(line.deep_view() =~= line@);
            out.push(line);
            p = n;
            assert(out.deep_view() =~= before.push(rest));
            assert(lines(t@.skip(n as int)) == Seq::<Seq<char>>::empty());
            assert(lines(rest) == seq![rest]);
            assert(lines(t@) == out.deep_view() + lines(t@.skip(p as int)));
        } else {
            let mut line = slice_part(t, p, q);
            assert(line@ == rest.take(q - p));
            if q > p && t[q - 1] == '\r' {
                line.pop();
            }
            assert(line@ == strip_cr(rest.take(q - p)));
            assert(line.deep_view() =~= line@);
            let ghost lv = line@;
            out.push(line);
            assert(rest.skip(q - p + 1) == t@.skip(q + 1));
            assert(out.deep_view() =~= before.push(lv));
            assert(lines(rest) == seq![lv] + lines(t@.skip(q + 1)));
            p = q + 1;
            assert(lines(t@) == out.deep_view() + lines(t@.skip(p as int)));
        }
    }
    assert(t@.skip(n as int) == Seq::<char>::empty());
    assert(out.deep_view() + Seq::<Seq<char>>::empty() == out.deep_view());
    out
}

/// Joins `ls[from..]` with line feeds between them.
pub fn join_lines_from(ls: &Vec<Vec<char>>, from: usize) -> (r: Vec<char>)
    requires
        from <= ls.len(),
    ensures
        r@ == join(ls.deep_view().skip(from as int), seq!['\n']),
{
    let ghost dv = ls.deep_view();
    let mut out: Vec<char> = Vec::new();
    let mut i = from;
    assert(dv.subrange(from as int, from as int) == Seq::<Seq<char>>::empty());
    while i < ls.len()
        invariant
            dv == ls.deep_view(),
            from <= i <= ls.len(),
            out@ == join(dv.subrange(from as int, i as int), seq!['\n']),
        decreases ls.len() - i,
    {
        let ghost prev = dv.subrange(from as int, i as int);
        let ghost next = dv.subrange(from as int, i + 1);
        assert(next.drop_last() == prev);
        assert(next.last() == ls[i as int]@);
        if i > from {
            out.push('\n');
        }
        append_chars(&mut out, ls[i].as_slice());
        if i == from {
            assert(next.len() == 1);
            assert(out@ == ls[i as int]@);
        } else {
            assert(out@ == join(prev, seq!['\n']) + seq!['\n'] + ls[i as int]@);
        }
        i += 1;
    }
    assert(dv.subrange(from as int, ls.len() as int) == dv.skip(from as int));
    out
}

/// Whether `s` opens with a code fence.
pub fn starts_with_fence(s: &[char]) -> (r: bool)
    ensures
        r == starts_with(s@, fence()),
{
    let r = s.len() >= 3 && s[0] == '`' && s[1] == '`' && s[2] == '`';
    assert(r ==> s@.subrange(0, 3) == fence());
    r
}

/// Whether `s[..end]` closes with a code fence.
pub fn ends_with_fence(s: &[char], end: usize) -> (r: bool)
    requires
        end <= s.len(),
    ensures
        r == ends_with(s@.subrange(0, end as int), fence()),
{
    let r = end >= 3 && s[end - 3] == '`' && s[end - 2] == '`' && s[end - 1] == '`';
    proof {
        let p = s@.subrange(0, end as int);
        if end >= 3 {
            let tail = p.subrange(end - 3, end as int);
            assert(tail[0] == s@[end - 3]);
            assert(tail[1] == s@[end - 2]);
            assert(tail[2] == s@[end - 1]);
            if r {
                assert(tail == fence());
            }
        }
    }
    r
}

/// Takes a surrounding Markdown code fence off a model reply.
pub fn strip_code_fences(s: &str) -> (r: String)
    ensures
        r@ == spec_strip_code_fences(s@),
{
    let v = chars_of(s);
    let (a, b) = trim_bounds(v.as_slice());
    let t = slice_part(v.as_slice(), a, b);
    if !starts_with_fence(t.as_slice()) {
        return string_of(t.as_slice());
    }
    let ls = lines_of(t.as_slice());
    let rest = if ls.len() == 0 {
        Vec::new()
    } else {
        join_lines_from(&ls, 1)
    };
    assert(ls.len() > 0 ==> ls.deep_view().skip(1) == lines(t@).drop_first());
    proof {
        if ls.len() == 0 {
            assert(lines(t@).drop_first() =~= Seq::<Seq<char>>::empty());
        }
    }
    let mut end = rest.len();
    assert(rest@.subrange(0, end as int) == rest@);
    while end > 0 && is_white_space(rest[end - 1])
        invariant
            end <= rest.len(),
            trim_end(rest@) == trim_end(rest@.subrange(0, end as int)),
        decreases end,
    {
        assert(rest@.subrange(0, end - 1) == rest@.subrange(0, end as int).drop_last());
        end -= 1;
    }
    let ghost trimmed = rest@.subrange(0, end as int);
    assert(trim_end(rest@) == trimmed);
    if !ends_with_fence(rest.as_slice(), end) {
        return string_of(slice_part(rest.as_slice(), 0, end).as_slice());
    }
    while ends_with_fence(rest.as_slice(), end)
        invariant
            end <= rest.len(),
            trim_end_fences(trimmed) == trim_end_fences(rest@.subrange(0, end as int)),
        decreases end,
    {
        assert(rest@.subrange(0, end as int).subrange(0, end - 3) == rest@.subrange(0, end - 3));
        end -= 3;
    }
    let body = slice_part(rest.as_slice(), 0, end);
    let (c, d) = trim_bounds(body.as_slice());
    string_of(slice_part(body.as_slice(), c, d).as_slice())
}

} // verus!
