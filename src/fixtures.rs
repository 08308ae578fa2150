//! Required strings for the PDF content check, read from the CV's Markdown:
//! each heading `### <role> @ <Company>` contributes its company.

use vstd::prelude::*;
use crate::text::{
    back_space, back_space_at, char_vec, find_in, find_in_at, has_text, is_space,
    lemma_text_views_push, skip_space, skip_space_at, space_char, text_views,
};

verus! {

/// The company that the line `s[i..e]` names, where, trimmed, it is a
/// third-level heading `### <role> @ <company>` with a role and a company.
pub open spec fn heading_company(s: Seq<char>, i: int, e: int) -> Option<Seq<char>> {
    let a = skip_space(s, i, e);
    let b = back_space(s, a, e);
    if !(a + 3 < b && s[a] == '#' && s[a + 1] == '#' && s[a + 2] == '#' && is_space(s[a + 3])) {
        None
    } else {
        let at = find_in(s, a + 3, b, '@');
        if !(at < b) {
            None
        } else {
            let ra = skip_space(s, a + 3, at);
            let rb = back_space(s, ra, at);
            let ca = skip_space(s, at + 1, b);
            let cb = back_space(s, ca, b);
            if ra < rb && ca < cb {
                Some(s.subrange(ca, cb))
            } else {
                None
            }
        }
    }
}

/// The companies named by the headings of `s` from the line at `i` on, in
/// order, repeats included.
pub open spec fn companies_from(s: Seq<char>, i: int) -> Seq<Seq<char>>
    decreases s.len() - i,
{
    if i < 0 || i > s.len() {
        Seq::empty()
    } else {
        let e = find_in(s, i, s.len() as int, '\n');
        let rest = if i <= e < s.len() {
            companies_from(s, e + 1)
        } else {
            Seq::empty()
        };
        match heading_company(s, i, e) {
            Some(c) => seq![c] + rest,
            None => rest,
        }
    }
}

/// `names` without repeats, each kept where it first appears.
pub open spec fn distinct(names: Seq<Seq<char>>) -> Seq<Seq<char>>
    decreases names.len(),
{
    if names.len() == 0 {
        Seq::empty()
    } else {
        let prev = distinct(names.drop_last());
        if prev.contains(names.last()) {
            prev
        } else {
            prev.push(names.last())
        }
    }
}

fn heading_company_at(text: &str, v: &Vec<char>, i: usize, e: usize) -> (r: Option<String>)
    requires
        v@ == text@,
        i <= e <= v@.len(),
    ensures
        match r {
            Some(c) => heading_company(v@, i as int, e as int) == Some(c@),
            None => heading_company(v@, i as int, e as int) is None,
        },
{
    let a = skip_space_at(v, i, e);
    let b = back_space_at(v, a, e);
    if !(b > 3 && a < b - 3 && v[a] == '#' && v[a + 1] == '#' && v[a + 2] == '#' && space_char(v[a + 3])) {
        return None;
    }
    let at = find_in_at(v, a + 3, b, '@');
    if !(at < b) {
        return None;
    }
    let ra = skip_space_at(v, a + 3, at);
    let rb = back_space_at(v, ra, at);
    let ca = skip_space_at(v, at + 1, b);
    let cb = back_space_at(v, ca, b);
    if ra < rb && ca < cb {
        Some(String::from_str(text.substring_char(ca, cb)))
    } else {
        None
    }
}

fn company_lines(markdown: &str) -> (r: Vec<String>)
    ensures
        text_views(r@) == companies_from(markdown@, 0),
{
    let v = char_vec(markdown);
    let n = v.len();
    let mut found: Vec<String> = Vec::new();
    let mut pos: usize = 0;
    loop
        invariant
            v@ == markdown@,
            n == v@.len(),
            pos <= n,
            text_views(found@) + companies_from(v@, pos as int) == companies_from(v@, 0),
        decreases n - pos,
    {
        let e = find_in_at(&v, pos, n, '\n');
        let ghost before = found@;
        let ghost rest = if e < n { companies_from(v@, e + 1) } else { Seq::<Seq<char>>::empty() };
        match heading_company_at(markdown, &v, pos, e) {
            Some(c) => {
                found.push(c);
                proof {
                    lemma_text_views_push(before, c);
                    assert(text_views(found@) + rest =~= text_views(before) + companies_from(v@, pos as int));
                }
            },
            None => {},
        }
        if e < n {
            pos = e + 1;
        } else {
            assert(text_views(found@) =~= text_views(found@) + rest);
            return found;
        }
    }
}

/// The companies that the headings `### <role> @ <company>` of a Markdown
/// text name, each once, in order of first appearance.
pub fn required_companies(markdown: &str) -> (r: Vec<String>)
    ensures
        text_views(r@) == distinct(companies_from(markdown@, 0)),
{
    let found = company_lines(markdown);
    let ghost all = text_views(found@);
    let mut out: Vec<String> = Vec::new();
    let mut i: usize = 0;
    while i < found.len()
        invariant
            all == text_views(found@),
            all == companies_from(markdown@, 0),
            i <= found@.len(),
            text_views(out@) == distinct(all.take(i as int)),
        decreases found@.len() - i,
    {
        let ghost prefix = all.take(i as int + 1);
        assert(prefix.drop_last() =~= all.take(i as int));
        assert(prefix.last() == found@[i as int]@);
        if !has_text(&out, &found[i]) {
            let ghost before = out@;
            let name = found[i].clone();
            out.push(name);
            proof {
                lemma_text_views_push(before, name);
            }
        }
        i = i + 1;
    }
    assert(all.take(found@.len() as int) =~= all);
    out
}

} // verus!
