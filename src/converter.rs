//! The clean-up of Markdown converted from HTML, and what is read from a
//! page's head.
use vstd::prelude::*;
use crate::page::{all_text, all_text_of, meta_pairs, meta_pairs_of};
use crate::text::{blank_chars, chars_vec, is_blank, string_of_chars};

verus! {

/// Runs of three or more line breaks shrink to two.
pub open spec fn collapse_breaks(s: Seq<char>) -> Seq<char>
    decreases s.len(),
{
    if s.len() == 0 {
        Seq::<char>::empty()
    } else {
        let p = collapse_breaks(s.drop_last());
        if s.last() == '\n' && p.len() >= 2 && p.last() == '\n' && p[p.len() - 2] == '\n' {
            p
        } else {
            p.push(s.last())
        }
    }
}

/// An empty fenced code block: three backticks, a line break, three backticks.
pub open spec fn empty_fence() -> Seq<char> {
    seq!['`', '`', '`', '\n', '`', '`', '`']
}

/// Every empty fenced code block is removed, scanning from the left.
pub open spec fn drop_empty_fences(s: Seq<char>) -> Seq<char>
    decreases s.len(),
{
    if s.len() == 0 {
        Seq::<char>::empty()
    } else if s.len() >= 7 && s.take(7) == empty_fence() {
        drop_empty_fences(s.skip(7))
    } else {
        seq![s[0]] + drop_empty_fences(s.skip(1))
    }
}

/// The pieces of `s` between line breaks (one more than there are breaks).
pub open spec fn split_breaks(s: Seq<char>) -> Seq<Seq<char>>
    decreases s.len(),
{
    if s.len() == 0 {
        seq![Seq::<char>::empty()]
    } else {
        let p = split_breaks(s.drop_last());
        if s.last() == '\n' {
            p.push(Seq::<char>::empty())
        } else {
            p.update(p.len() - 1, p.last().push(s.last()))
        }
    }
}

/// A line ended by `\r\n` loses its carriage return.
pub open spec fn strip_cr(l: Seq<char>) -> Seq<char> {
    if l.len() > 0 && l.last() == '\r' {
        l.drop_last()
    } else {
        l
    }
}

/// The lines of `s`: pieces between line breaks, a carriage return before a
/// break dropped, and no empty last line after a final break.
pub open spec fn lines_of(s: Seq<char>) -> Seq<Seq<char>> {
    let g = split_breaks(s);
    let n = g.len();
    let k: int = if g.last().len() == 0 { n - 1 } else { n as int };
    Seq::new(k as nat, |i: int| if i < n - 1 { strip_cr(g[i]) } else { g[i] })
}

/// A blank line right after a kept blank line is dropped.
pub open spec fn keep_lines(ls: Seq<Seq<char>>) -> Seq<Seq<char>>
    decreases ls.len(),
{
    if ls.len() == 0 {
        Seq::<Seq<char>>::empty()
    } else {
        let p = keep_lines(ls.drop_last());
        if is_blank(ls.last()) && p.len() > 0 && is_blank(p.last()) {
            p
        } else {
            p.push(ls.last())
        }
    }
}

/// The lines joined by line breaks.
pub open spec fn join_lines(ls: Seq<Seq<char>>) -> Seq<char>
    decreases ls.len(),
{
    if ls.len() == 0 {
        Seq::<char>::empty()
    } else if ls.len() == 1 {
        ls[0]
    } else {
        join_lines(ls.drop_last()) + seq!['\n'] + ls.last()
    }
}

/// The cleaned Markdown: line-break runs collapsed, empty code blocks
/// removed, no two blank lines in a row.
pub open spec fn clean_spec(s: Seq<char>) -> Seq<char> {
    join_lines(keep_lines(lines_of(drop_empty_fences(collapse_breaks(s)))))
}

fn collapse_breaks_exec(v: &Vec<char>) -> (r: Vec<char>)
    ensures
        r@ == collapse_breaks(v@),
{
    let mut out: Vec<char> = Vec::new();
    let mut i: usize = 0;
    while i < v.len()
        invariant
            i <= v@.len(),
            out@ == collapse_breaks(v@.take(i as int)),
        decreases v@.len() - i,
    {
        assert(v@.take(i as int + 1).drop_last() =~= v@.take(i as int));
        let c = v[i];
        let n = out.len();
        if !(c == '\n' && n >= 2 && out[n - 1] == '\n' && out[n - 2] == '\n') {
            out.push(c);
        }
        i = i + 1;
    }
    assert(v@.take(v@.len() as int) =~= v@);
    out
}

fn drop_empty_fences_exec(v: &Vec<char>) -> (r: Vec<char>)
    ensures
        r@ == drop_empty_fences(v@),
{
    let fence = chars_vec("```\n```");
    proof {
        reveal_strlit("```\n```");
        assert(fence@ =~= empty_fence());
    }
    let mut out: Vec<char> = Vec::new();
    let mut i: usize = 0;
    let n: usize = v.len();
    assert(v@.skip(0) =~= v@);
    while i < v.len()
        invariant
            i <= v@.len(),
            n == v@.len(),
            fence@ == empty_fence(),
            drop_empty_fences(v@) == out@ + drop_empty_fences(v@.skip(i as int)),
        decreases v@.len() - i,
    {
        let ghost rest = v@.skip(i as int);
        let mut is_fence = n >= 7 && i <= n - 7;
        let mut k: usize = 0;
        while is_fence && k < 7
            invariant
                k <= 7,
                is_fence ==> i + 7 <= v@.len(),
                is_fence ==> forall|m: int| 0 <= m < k ==> v@[i + m] == fence@[m],
                !is_fence ==> !(rest.len() >= 7 && rest.take(7) == empty_fence()),
                rest == v@.skip(i as int),
                n == v@.len(),
                i < n,
                fence@ == empty_fence(),
            decreases 7 - k,
        {
            if v[i + k] != fence[k] {
                is_fence = false;
                assert(rest.take(7)[k as int] != empty_fence()[k as int]);
            }
            k = k + 1;
        }
        if is_fence {
            assert(rest.take(7) =~= empty_fence());
            assert(rest.skip(7) =~= v@.skip(i as int + 7));
            i = i + 7;
        } else {
            assert(rest.skip(1) =~= v@.skip(i as int + 1));
            assert(rest[0] == v@[i as int]);
            let ghost before = out@;
            out.push(v[i]);
            assert(out@ =~= before + seq![rest[0]]);
            assert(out@ + drop_empty_fences(rest.skip(1)) =~= before + (seq![rest[0]] + drop_empty_fences(rest.skip(1))));
            i = i + 1;
        }
    }
    assert(v@.skip(v@.len() as int) =~= Seq::<char>::empty());
    assert(out@ + Seq::<char>::empty() =~= out@);
    out
}

/// The vectors as character sequences.
pub open spec fn views(v: Seq<Vec<char>>) -> Seq<Seq<char>> {
    v.map_values(|x: Vec<char>| x@)
}

proof fn lemma_split_nonempty(s: Seq<char>)
    ensures
        split_breaks(s).len() >= 1,
    decreases s.len(),
{
    if s.len() > 0 {
        lemma_split_nonempty(s.drop_last());
    }
}

/// The pieces between line breaks, as vectors.
fn split_breaks_exec(v: &Vec<char>) -> (r: Vec<Vec<char>>)
    ensures
        views(r@) == split_breaks(v@),
{
    let mut done: Vec<Vec<char>> = Vec::new();
    let mut cur: Vec<char> = Vec::new();
    let mut i: usize = 0;
    while i < v.len()
        invariant
            i <= v@.len(),
            views(done@).push(cur@) == split_breaks(v@.take(i as int)),
        decreases v@.len() - i,
    {
        assert(v@.take(i as int + 1).drop_last() =~= v@.take(i as int));
        let ghost p = split_breaks(v@.take(i as int));
        proof {
            lemma_split_nonempty(v@.take(i as int));
        }
        let c = v[i];
        if c == '\n' {
            let ghost d = views(done@);
            let ghost old_cur = cur@;
            let finished = cur;
            done.push(finished);
            cur = Vec::new();
            assert(views(done@) =~= d.push(old_cur));
            assert(views(done@).push(cur@) =~= p.push(Seq::<char>::empty()));
        } else {
            let ghost d = views(done@);
            cur.push(c);
            assert(views(done@).push(cur@) =~= p.update(p.len() - 1, p.last().push(c)));
        }
        i = i + 1;
    }
    assert(v@.take(v@.len() as int) =~= v@);
    let ghost d = views(done@);
    done.push(cur);
    assert(views(done@) =~= d.push(cur@));
    done
}

fn strip_cr_exec(l: Vec<char>) -> (r: Vec<char>)
    ensures
        r@ == strip_cr(l@),
{
    let ghost orig = l@;
    let mut l = l;
    let n = l.len();
    if n > 0 && l[n - 1] == '\r' {
        l.pop();
        assert(l@ =~= strip_cr(orig));
    }
    l
}

/// Tidies converted Markdown: runs of three or more line breaks shrink to
/// two, empty fenced code blocks are removed, and of consecutive blank
/// lines only the first is kept. Lines are re-joined with `\n`.
pub fn clean_markdown(markdown: &str) -> (r: String)
    ensures
        r@ == clean_spec(markdown@),
{
    let v = chars_vec(markdown);
    let c = collapse_breaks_exec(&v);
    let w = drop_empty_fences_exec(&c);
    let g = split_breaks_exec(&w);
    let ghost ls = lines_of(w@);
    proof {
        lemma_split_nonempty(w@);
    }
    let n = g.len();
    let k = if g[n - 1].len() == 0 { n - 1 } else { n };
    let mut out: Vec<char> = Vec::new();
    let mut last_blank = false;
    let mut any_kept = false;
    let mut j: usize = 0;
    while j < k
        invariant
            views(g@) == split_breaks(w@),
            n == g@.len(),
            n >= 1,
            k <= n,
            k == ls.len(),
            ls == lines_of(w@),
            j <= k,
            out@ == join_lines(keep_lines(ls.take(j as int))),
            keep_lines(ls.take(j as int)).len() > 0 ==> last_blank == is_blank(
                keep_lines(ls.take(j as int)).last(),
            ),
            any_kept == (keep_lines(ls.take(j as int)).len() > 0),
            last_blank ==> any_kept,
        decreases k - j,
    {
        let ghost kept = keep_lines(ls.take(j as int));
        assert(ls.take(j as int + 1).drop_last() =~= ls.take(j as int));
        let mut line = g[j].clone();
        assert(line@ == views(g@)[j as int]);
        if j < n - 1 {
            line = strip_cr_exec(line);
        }
        assert(line@ == ls[j as int]);
        let b = blank_chars(&line);
        assert(ls.take(j as int + 1).last() == line@);
        if b && last_blank {
            assert(keep_lines(ls.take(j as int + 1)) == kept);
        } else {
            let ghost before = out@;
            if any_kept {
                out.push('\n');
            }
            let mut m: usize = 0;
            let ghost base = out@;
            while m < line.len()
                invariant
                    m <= line@.len(),
                    out@ == base + line@.take(m as int),
                decreases line@.len() - m,
            {
                out.push(line[m]);
                assert(line@.take(m as int + 1) =~= line@.take(m as int).push(line@[m as int]));
                m = m + 1;
            }
            assert(line@.take(line@.len() as int) =~= line@);
            if any_kept {
                assert(out@ =~= join_lines(kept) + seq!['\n'] + line@);
                assert(keep_lines(ls.take(j as int + 1)) == kept.push(line@));
                assert(kept.push(line@).drop_last() =~= kept);
            } else {
                assert(out@ =~= line@);
                assert(keep_lines(ls.take(j as int + 1)) == kept.push(line@));
            }
            last_blank = b;
            any_kept = true;
        }
        j = j + 1;
    }
    assert(ls.take(k as int) =~= ls);
    string_of_chars(&out)
}

/// The text of a page's `title` element, all its text nodes joined; `None`
/// where the page has no title.
pub fn extract_title(html: &str) -> (r: Option<String>)
    ensures
        r matches Some(t) ==> all_text_of(html@, "title"@) == Some(t@),
        r is None ==> all_text_of(html@, "title"@) is None,
{
    all_text(html, "title")
}

/// The (name, content) pairs of a page's `meta` elements that carry both,
/// in the order in which scraper's `select` yields the elements.
pub fn extract_metadata(html: &str) -> (r: Vec<(String, String)>)
    ensures
        r@.map_values(|p: (String, String)| (p.0@, p.1@)) == meta_pairs_of(html@),
{
    meta_pairs(html)
}

} // verus!
