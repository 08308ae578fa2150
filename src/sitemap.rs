//! Seeds from a sitemap: one absolute or relative URL per line; blank lines
//! and lines starting with `#` are ignored, and each line is trimmed.

use vstd::prelude::*;
use crate::location::{joined_url, lemma_location_views_push, location_views, Location, UrlParts};
use crate::text::{
    back_space, back_space_at, char_vec, find_in, find_in_at, lemma_text_views_push, skip_space,
    skip_space_at, text_views,
};

verus! {

/// The entries of the sitemap text `s` from the line that starts at `i` on.
pub open spec fn sitemap_from(s: Seq<char>, i: int) -> Seq<Seq<char>>
    decreases s.len() - i,
{
    if i < 0 || i > s.len() {
        Seq::empty()
    } else {
        let e = find_in(s, i, s.len() as int, '\n');
        let a = skip_space(s, i, e);
        let b = back_space(s, a, e);
        let rest = if i <= e < s.len() {
            sitemap_from(s, e + 1)
        } else {
            Seq::empty()
        };
        if a < b && s[a] != '#' {
            seq![s.subrange(a, b)] + rest
        } else {
            rest
        }
    }
}

/// The entries of a sitemap text, in order.
pub open spec fn sitemap_lines(s: Seq<char>) -> Seq<Seq<char>> {
    sitemap_from(s, 0)
}

/// The entries that resolve against the URL serialized as `base`, resolved,
/// in order.
pub open spec fn resolved_entries(base: Seq<char>, entries: Seq<Seq<char>>) -> Seq<UrlParts>
    decreases entries.len(),
{
    if entries.len() == 0 {
        Seq::empty()
    } else {
        let prev = resolved_entries(base, entries.drop_last());
        match joined_url(base, entries.last()) {
            Some(l) => prev.push(l),
            None => prev,
        }
    }
}

/// The entries of a sitemap text, each trimmed, without blank and comment
/// lines.
pub fn sitemap_entries(text: &str) -> (r: Vec<String>)
    ensures
        text_views(r@) == sitemap_lines(text@),
{
    let v = char_vec(text);
    let n = v.len();
    let mut out: Vec<String> = Vec::new();
    let mut pos: usize = 0;
    loop
        invariant
            v@ == text@,
            n == v@.len(),
            pos <= n,
            text_views(out@) + sitemap_from(v@, pos as int) == sitemap_from(v@, 0),
        decreases n - pos,
    {
        let e = find_in_at(&v, pos, n, '\n');
        let a = skip_space_at(&v, pos, e);
        let b = back_space_at(&v, a, e);
        let ghost before = out@;
        let ghost rest = if e < n { sitemap_from(v@, e + 1) } else { Seq::<Seq<char>>::empty() };
        if a < b && v[a] != '#' {
            let entry = String::from_str(text.substring_char(a, b));
            out.push(entry);
            proof {
                lemma_text_views_push(before, entry);
                assert(text_views(out@) + rest =~= text_views(before) + sitemap_from(v@, pos as int));
            }
        } else {
            assert(sitemap_from(v@, pos as int) == rest);
        }
        if e < n {
            pos = e + 1;
        } else {
            assert(text_views(out@) =~= text_views(out@) + rest);
            return out;
        }
    }
}

/// The seeds that a sitemap text gives a crawl rooted at `base`: each entry
/// resolved against `base`, entries that do not resolve left out.
pub fn sitemap_seeds(base: &Location, text: &str) -> (r: Vec<Location>)
    ensures
        location_views(r@) == resolved_entries(base@.0, sitemap_lines(text@)),
{
    let entries = sitemap_entries(text);
    let ghost all = text_views(entries@);
    let mut out: Vec<Location> = Vec::new();
    let mut i: usize = 0;
    while i < entries.len()
        invariant
            all == text_views(entries@),
            all == sitemap_lines(text@),
            i <= entries@.len(),
            location_views(out@) == resolved_entries(base@.0, all.take(i as int)),
        decreases entries@.len() - i,
    {
        let ghost prefix = all.take(i as int + 1);
        assert(prefix.drop_last() =~= all.take(i as int));
        assert(prefix.last() == entries@[i as int]@);
        let ghost before = out@;
        match base.join(entries[i].as_str()) {
            Some(l) => {
                out.push(l);
                proof {
                    lemma_location_views_push(before, l);
                }
            },
            None => {},
        }
        i = i + 1;
    }
    assert(all.take(entries@.len() as int) =~= all);
    out
}

} // verus!
