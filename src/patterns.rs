//! Pattern lists: reading them from text, writing them back, and dropping a
//! satisfied pattern.
use vstd::prelude::*;

use crate::text::{same_text, trim, trim_text};

verus! {

/// The pattern a line contributes: its trimmed text, unless that is empty.
pub open spec fn line_pattern(line: Seq<char>) -> Seq<Seq<char>> {
    if trim(line).len() > 0 {
        seq![trim(line)]
    } else {
        seq![]
    }
}

/// Patterns of the text `s`, where `cur` is the part of the current line that
/// has been read already.
pub open spec fn scan_lines(s: Seq<char>, cur: Seq<char>) -> Seq<Seq<char>>
    decreases s.len(),
{
    if s.len() == 0 {
        line_pattern(cur)
    } else if s[0] == '\n' {
        line_pattern(cur) + scan_lines(s.drop_first(), seq![])
    } else {
        scan_lines(s.drop_first(), cur.push(s[0]))
    }
}

/// One pattern per line of `s` whose trimmed text is non-empty, in line order.
pub open spec fn patterns_of(s: Seq<char>) -> Seq<Seq<char>> {
    scan_lines(s, seq![])
}

/// Each pattern followed by a line break.
pub open spec fn render(ps: Seq<Seq<char>>) -> Seq<char>
    decreases ps.len(),
{
    if ps.len() == 0 {
        seq![]
    } else {
        ps[0] + seq!['\n'] + render(ps.drop_first())
    }
}

/// `ps` with every occurrence of `p` taken out.
pub open spec fn without(ps: Seq<Seq<char>>, p: Seq<char>) -> Seq<Seq<char>> {
    ps.filter(other_than(p))
}

/// Holds of every text but `p`.
pub open spec fn other_than(p: Seq<char>) -> spec_fn(Seq<char>) -> bool {
    |x: Seq<char>| x != p
}

/// A pattern as the text form holds it: non-empty, trimmed, on one line.
pub open spec fn is_line_pattern(p: Seq<char>) -> bool {
    &&& p.len() > 0
    &&& trim(p) == p
    &&& forall|k: int| 0 <= k < p.len() ==> p[k] != '\n'
}

fn push_line_pattern(out: &mut Vec<String>, line: &str)
    ensures
        final(out).deep_view() == old(out).deep_view() + line_pattern(line@),
{
    let t = trim_text(line);
    if t.unicode_len() > 0 {
        let ghost before = out.deep_view();
        out.push(t);
        assert(out.deep_view() =~= before + line_pattern(line@));
    } else {
        assert(old(out).deep_view() + line_pattern(line@) =~= old(out).deep_view());
    }
}

/// Reads a pattern list from its text form: each line, trimmed, that is not
/// empty becomes one pattern.
pub fn parse_patterns(text: &str) -> (r: Vec<String>)
    ensures
        r.deep_view() == patterns_of(text@),
{
    let ghost s = text@;
    let n = text.unicode_len();
    let mut out: Vec<String> = Vec::new();
    let mut start: usize = 0;
    let mut i: usize = 0;
    assert(s.subrange(0, n as int) =~= s);
    assert(s.subrange(0, 0) =~= Seq::<char>::empty());
    while i < n
        invariant
            s == text@,
            n == s.len(),
            start <= i <= n,
            out.deep_view() + scan_lines(s.subrange(i as int, n as int), s.subrange(start as int, i as int))
                == patterns_of(s),
        decreases n - i,
    {
        let ghost rest = s.subrange(i as int, n as int);
        let ghost cur = s.subrange(start as int, i as int);
        assert(rest.drop_first() =~= s.subrange(i + 1, n as int));
        if text.get_char(i) == '\n' {
            let ghost before = out.deep_view();
            push_line_pattern(&mut out, text.substring_char(start, i));
            assert(before + (line_pattern(cur) + scan_lines(rest.drop_first(), seq![]))
                =~= out.deep_view() + scan_lines(rest.drop_first(), seq![]));
            start = i + 1;
            assert(s.subrange(start as int, i + 1) =~= Seq::<char>::empty());
        } else {
            assert(cur.push(s[i as int]) =~= s.subrange(start as int, i + 1));
        }
        i = i + 1;
    }
    push_line_pattern(&mut out, text.substring_char(start, n));
    assert(s.subrange(n as int, n as int) =~= Seq::<char>::empty());
    out
}

/// Patterns of one role: a pattern given directly wins, alone, and the
/// source file's text is not read; otherwise the file's patterns.
pub fn patterns_from(literal: &Option<String>, file_text: &str) -> (r: Vec<String>)
    ensures
        r.deep_view() == (match literal {
            Some(l) => seq![l@],
            None => patterns_of(file_text@),
        }),
{
    match literal {
        Some(l) => {
            let r = vec![l.clone()];
            assert(r.deep_view() =~= seq![l@]);
            r
        },
        None => parse_patterns(file_text),
    }
}

/// Writes a pattern list in its text form: one pattern per line, each line
/// ended by a line break.
pub fn render_patterns(ps: &Vec<String>) -> (r: String)
    ensures
        r@ == render(ps.deep_view()),
{
    let ghost v = ps.deep_view();
    let n = ps.len();
    let mut out = String::new();
    let mut i: usize = 0;
    proof {
        reveal_strlit("\n");
    }
    assert(v.subrange(0, n as int) =~= v);
    assert(out@ =~= Seq::<char>::empty());
    while i < n
        invariant
            v == ps.deep_view(),
            n == v.len(),
            i <= n,
            out@ + render(v.subrange(i as int, n as int)) == render(v),
            "\n"@ == seq!['\n'],
        decreases n - i,
    {
        let ghost rest = v.subrange(i as int, n as int);
        assert(rest.drop_first() =~= v.subrange(i + 1, n as int));
        let ghost before = out@;
        out.append(ps[i].as_str());
        out.append("\n");
        assert(before + render(rest) =~= out@ + render(v.subrange(i + 1, n as int)));
        i = i + 1;
    }
    assert(render(v.subrange(n as int, n as int)) == Seq::<char>::empty());
    assert(out@ =~= out@ + Seq::<char>::empty());
    out
}

/// The list `ps` with every pattern equal to `pat` taken out, the others kept
/// in order.
pub fn remove_pattern(ps: &Vec<String>, pat: &str) -> (r: Vec<String>)
    ensures
        r.deep_view() == without(ps.deep_view(), pat@),
{
    let ghost v = ps.deep_view();
    let mut out: Vec<String> = Vec::new();
    let mut i: usize = 0;
    assert(v.subrange(0, 0) =~= Seq::<Seq<char>>::empty());
    while i < ps.len()
        invariant
            v == ps.deep_view(),
            i <= v.len(),
            out.deep_view() == without(v.subrange(0, i as int), pat@),
        decreases v.len() - i,
    {
        assert(v.subrange(0, i + 1) =~= v.subrange(0, i as int).push(v[i as int]));
        proof {
            v.subrange(0, i as int).lemma_filter_push(v[i as int], other_than(pat@));
        }
        if !same_text(ps[i].as_str(), pat) {
            let ghost before = out.deep_view();
            out.push(ps[i].clone());
            assert(out.deep_view() =~= before.push(v[i as int]));
        }
        i = i + 1;
    }
    assert(v.subrange(0, v.len() as int) =~= v);
    out
}

proof fn lemma_scan_line(p: Seq<char>, rest: Seq<char>, cur: Seq<char>)
    requires
        forall|k: int| 0 <= k < p.len() ==> p[k] != '\n',
    ensures
        scan_lines(p + seq!['\n'] + rest, cur) == line_pattern(cur + p) + scan_lines(rest, seq![]),
    decreases p.len(),
{
    let s = p + seq!['\n'] + rest;
    if p.len() == 0 {
        assert(s.drop_first() =~= rest);
        assert(cur + p =~= cur);
    } else {
        assert(s.drop_first() =~= p.drop_first() + seq!['\n'] + rest);
        lemma_scan_line(p.drop_first(), rest, cur.push(p[0]));
        assert(cur.push(p[0]) + p.drop_first() =~= cur + p);
    }
}

/// Reading back the text form of a list of line patterns gives the same list,
/// in the same order.
pub proof fn lemma_parse_render(ps: Seq<Seq<char>>)
    requires
        forall|i: int| 0 <= i < ps.len() ==> is_line_pattern(#[trigger] ps[i]),
    ensures
        patterns_of(render(ps)) == ps,
    decreases ps.len(),
{
    if ps.len() == 0 {
        assert(trim(Seq::<char>::empty()).len() == 0);
    } else {
        let rest = ps.drop_first();
        assert(is_line_pattern(ps[0]));
        lemma_scan_line(ps[0], render(rest), seq![]);
        assert(Seq::<char>::empty() + ps[0] =~= ps[0]);
        lemma_parse_render(rest);
        assert(seq![ps[0]] + rest =~= ps);
    }
}

/// After removal no element equals the removed pattern, and a list that does
/// not hold it is left as it was.
pub proof fn lemma_remove_law(ps: Seq<Seq<char>>, p: Seq<char>)
    ensures
        forall|i: int| 0 <= i < without(ps, p).len() ==> without(ps, p)[i] != p,
        (forall|i: int| 0 <= i < ps.len() ==> ps[i] != p) ==> without(ps, p) == ps,
        without(ps, p).len() <= ps.len(),
{
    broadcast use vstd::seq_lib::group_filter_ensures;

    if forall|i: int| 0 <= i < ps.len() ==> ps[i] != p {
        lemma_without_absent(ps, p);
    }
}

proof fn lemma_without_absent(ps: Seq<Seq<char>>, p: Seq<char>)
    requires
        forall|i: int| 0 <= i < ps.len() ==> ps[i] != p,
    ensures
        without(ps, p) == ps,
    decreases ps.len(),
{
    reveal(Seq::filter);
    if ps.len() > 0 {
        lemma_without_absent(ps.drop_last(), p);
        assert(ps.drop_last().push(ps.last()) =~= ps);
    }
}

} // verus!
