//! Character-level helpers over `String` and `&str`.

use vstd::prelude::*;
use vstd::std_specs::iter::IteratorSpec;
use vstd::string::next_post;

verus! {

/// The views of a sequence of strings.
pub open spec fn text_views(v: Seq<String>) -> Seq<Seq<char>> {
    v.map_values(|s: String| s@)
}

/// Viewing a sequence of strings commutes with pushing onto it.
pub proof fn lemma_text_views_push(v: Seq<String>, s: String)
    ensures
        text_views(v.push(s)) == text_views(v).push(s@),
{
    assert(text_views(v.push(s)) =~= text_views(v).push(s@));
}

/// The character of a decimal digit.
pub open spec fn digit_char(d: nat) -> char {
    if d == 0 { '0' }
    else if d == 1 { '1' }
    else if d == 2 { '2' }
    else if d == 3 { '3' }
    else if d == 4 { '4' }
    else if d == 5 { '5' }
    else if d == 6 { '6' }
    else if d == 7 { '7' }
    else if d == 8 { '8' }
    else { '9' }
}

/// The decimal notation of `n`, without sign or leading zeros.
pub open spec fn decimal(n: nat) -> Seq<char>
    decreases n,
{
    if n < 10 {
        seq![digit_char(n)]
    } else {
        decimal(n / 10).push(digit_char(n % 10))
    }
}

fn digit_text(d: u64) -> (r: &'static str)
    requires
        d < 10,
    ensures
        r@ == seq![digit_char(d as nat)],
{
    proof {
        reveal_strlit("0");
        reveal_strlit("1");
        reveal_strlit("2");
        reveal_strlit("3");
        reveal_strlit("4");
        reveal_strlit("5");
        reveal_strlit("6");
        reveal_strlit("7");
        reveal_strlit("8");
        reveal_strlit("9");
    }
    if d == 0 { "0" }
    else if d == 1 { "1" }
    else if d == 2 { "2" }
    else if d == 3 { "3" }
    else if d == 4 { "4" }
    else if d == 5 { "5" }
    else if d == 6 { "6" }
    else if d == 7 { "7" }
    else if d == 8 { "8" }
    else { "9" }
}

/// Renders `n` in decimal.
pub fn decimal_text(n: u64) -> (r: String)
    ensures
        r@ == decimal(n as nat),
    decreases n,
{
    if n < 10 {
        String::from_str(digit_text(n))
    } else {
        let mut s = decimal_text(n / 10);
        s.append(digit_text(n % 10));
        s
    }
}

} // verus!

verus! {

/// The characters of `s`, in order.
pub fn char_vec(s: &str) -> (r: Vec<char>)
    ensures
        r@ == s@,
{
    let mut out: Vec<char> = Vec::new();
    let mut it = s.chars();
    let ghost all = s@;
    proof {
        broadcast use vstd::string::group_string_axioms;
        assert(it.remaining() == all);
    }
    loop
        invariant
            all == s@,
            it.remaining() == all.skip(out@.len() as int),
            out@ == all.take(out@.len() as int),
            out@.len() <= all.len(),
        decreases all.len() - out@.len(),
    {
        let ghost before = it;
        let next = it.next();
        proof {
            broadcast use vstd::string::group_string_axioms;
            assert(next_post(&before, &it, next));
        }
        match next {
            Some(c) => {
                out.push(c);
            }
            None => {
                assert(out@ =~= all);
                return out;
            }
        }
    }
}

} // verus!

verus! {

/// The index of the first `c` in `s`, or the length of `s` when there is none.
pub open spec fn first_index(s: Seq<char>, c: char) -> int
    decreases s.len(),
{
    if s.len() == 0 {
        0
    } else if s[0] == c {
        0
    } else {
        1 + first_index(s.drop_first(), c)
    }
}

/// `first_index` is the position before which `c` does not occur.
pub proof fn lemma_first_index(s: Seq<char>, c: char, k: int)
    requires
        0 <= k <= s.len(),
        k == s.len() || s[k] == c,
        forall|j: int| 0 <= j < k ==> s[j] != c,
    ensures
        first_index(s, c) == k,
    decreases s.len(),
{
    if s.len() > 0 && k > 0 {
        lemma_first_index(s.drop_first(), c, k - 1);
    }
}

/// The position of the first `c` in `v`, or its length when there is none.
pub fn find_char(v: &Vec<char>, c: char) -> (r: usize)
    ensures
        r == first_index(v@, c),
        r <= v@.len(),
{
    let mut i: usize = 0;
    while i < v.len() && v[i] != c
        invariant
            i <= v@.len(),
            forall|j: int| 0 <= j < i ==> v@[j] != c,
        decreases v@.len() - i,
    {
        i = i + 1;
    }
    proof {
        lemma_first_index(v@, c, i as int);
    }
    i
}

/// Whether `prefix` is the start of `whole`.
pub fn has_prefix(whole: &Vec<char>, prefix: &Vec<char>) -> (r: bool)
    ensures
        r == prefix@.is_prefix_of(whole@),
{
    if prefix.len() > whole.len() {
        return false;
    }
    let mut i: usize = 0;
    while i < prefix.len()
        invariant
            prefix@.len() <= whole@.len(),
            i <= prefix@.len(),
            forall|j: int| 0 <= j < i ==> prefix@[j] == whole@[j],
        decreases prefix@.len() - i,
    {
        if prefix[i] != whole[i] {
            return false;
        }
        i = i + 1;
    }
    assert(prefix@ =~= whole@.subrange(0, prefix@.len() as int));
    true
}

/// Whether `needle` occurs in `hay` starting at position `at`.
pub open spec fn occurs_at(hay: Seq<char>, needle: Seq<char>, at: int) -> bool {
    0 <= at && at + needle.len() <= hay.len() && hay.subrange(at, at + needle.len()) == needle
}

/// Whether `needle` occurs anywhere in `hay`.
pub open spec fn occurs_in(hay: Seq<char>, needle: Seq<char>) -> bool {
    exists|at: int| occurs_at(hay, needle, at)
}

/// Whether `needle` occurs in `hay`.
pub fn contains_text(hay: &Vec<char>, needle: &Vec<char>) -> (r: bool)
    ensures
        r == occurs_in(hay@, needle@),
{
    if needle.len() > hay.len() {
        return false;
    }
    if needle.len() == 0 {
        assert(hay@.subrange(0, 0) =~= needle@);
        assert(occurs_at(hay@, needle@, 0));
        return true;
    }
    let last: usize = hay.len() - needle.len();
    let mut at: usize = 0;
    while at <= last
        invariant
            0 < needle@.len() <= hay@.len() <= usize::MAX,
            last == hay@.len() - needle@.len(),
            at <= last + 1,
            forall|a: int| 0 <= a < at ==> !occurs_at(hay@, needle@, a),
        decreases last + 1 - at,
    {
        let mut j: usize = 0;
        while j < needle.len() && hay[at + j] == needle[j]
            invariant
                0 < needle@.len() <= hay@.len() <= usize::MAX,
                last == hay@.len() - needle@.len(),
                at <= last,
                j <= needle@.len(),
                forall|k: int| 0 <= k < j ==> hay@[at + k] == needle@[k],
            decreases needle@.len() - j,
        {
            j = j + 1;
        }
        if j == needle.len() {
            assert(hay@.subrange(at as int, at + needle@.len()) =~= needle@);
            assert(occurs_at(hay@, needle@, at as int));
            return true;
        }
        assert(hay@.subrange(at as int, at + needle@.len())[j as int] != needle@[j as int]);
        at = at + 1;
    }
    assert forall|a: int| !occurs_at(hay@, needle@, a) by {
        if 0 <= a && a + needle@.len() <= hay@.len() {
            assert(a < at);
        }
    }
    false
}

} // verus!

verus! {

/// `a` followed by `b`.
pub fn cat(a: &str, b: &str) -> (r: String)
    ensures
        r@ == a@ + b@,
{
    let mut s = String::from_str(a);
    s.append(b);
    s
}

/// `a`, `b` and `c` in a row.
pub fn cat3(a: &str, b: &str, c: &str) -> (r: String)
    ensures
        r@ == a@ + b@ + c@,
{
    let mut s = String::from_str(a);
    s.append(b);
    s.append(c);
    s
}

/// `a`, `b`, `c` and `d` in a row.
pub fn cat4(a: &str, b: &str, c: &str, d: &str) -> (r: String)
    ensures
        r@ == a@ + b@ + c@ + d@,
{
    let mut s = String::from_str(a);
    s.append(b);
    s.append(c);
    s.append(d);
    s
}

} // verus!

verus! {

/// Whether `needle` occurs in `hay` starting at position `at`.
pub open spec fn bytes_at(hay: Seq<u8>, needle: Seq<u8>, at: int) -> bool {
    0 <= at && at + needle.len() <= hay.len() && hay.subrange(at, at + needle.len()) == needle
}

/// Whether `needle` occurs anywhere in `hay`.
pub open spec fn bytes_in(hay: Seq<u8>, needle: Seq<u8>) -> bool {
    exists|at: int| bytes_at(hay, needle, at)
}

/// Whether `needle` occurs in `hay`.
pub fn contains_bytes(hay: &Vec<u8>, needle: &Vec<u8>) -> (r: bool)
    ensures
        r == bytes_in(hay@, needle@),
{
    if needle.len() > hay.len() {
        return false;
    }
    if needle.len() == 0 {
        assert(hay@.subrange(0, 0) =~= needle@);
        assert(bytes_at(hay@, needle@, 0));
        return true;
    }
    let last: usize = hay.len() - needle.len();
    let mut at: usize = 0;
    while at <= last
        invariant
            0 < needle@.len() <= hay@.len() <= usize::MAX,
            last == hay@.len() - needle@.len(),
            at <= last + 1,
            forall|a: int| 0 <= a < at ==> !bytes_at(hay@, needle@, a),
        decreases last + 1 - at,
    {
        let mut j: usize = 0;
        while j < needle.len() && hay[at + j] == needle[j]
            invariant
                0 < needle@.len() <= hay@.len() <= usize::MAX,
                last == hay@.len() - needle@.len(),
                at <= last,
                j <= needle@.len(),
                forall|k: int| 0 <= k < j ==> hay@[at + k] == needle@[k],
            decreases needle@.len() - j,
        {
            j = j + 1;
        }
        if j == needle.len() {
            assert(hay@.subrange(at as int, at + needle@.len()) =~= needle@);
            assert(bytes_at(hay@, needle@, at as int));
            return true;
        }
        assert(hay@.subrange(at as int, at + needle@.len())[j as int] != needle@[j as int]);
        at = at + 1;
    }
    assert forall|a: int| !bytes_at(hay@, needle@, a) by {
        if 0 <= a && a + needle@.len() <= hay@.len() {
            assert(a < at);
        }
    }
    false
}

} // verus!

verus! {

/// Whether `a` and `b` hold the same characters.
pub fn same_text(a: &str, b: &str) -> (r: bool)
    ensures
        r == (a@ == b@),
{
    let x = char_vec(a);
    let y = char_vec(b);
    if x.len() != y.len() {
        return false;
    }
    let mut i: usize = 0;
    while i < x.len()
        invariant
            x@ == a@,
            y@ == b@,
            x@.len() == y@.len(),
            i <= x@.len(),
            forall|j: int| 0 <= j < i ==> x@[j] == y@[j],
        decreases x@.len() - i,
    {
        if x[i] != y[i] {
            return false;
        }
        i = i + 1;
    }
    assert(x@ =~= y@);
    true
}

} // verus!

verus! {

/// Unicode `White_Space`, the characters that `char::is_whitespace` accepts.
pub open spec fn is_space(c: char) -> bool {
    let u = c as u32;
    (0x09 <= u <= 0x0d) || u == 0x20 || u == 0x85 || u == 0xa0 || u == 0x1680 || (0x2000 <= u
        <= 0x200a) || u == 0x2028 || u == 0x2029 || u == 0x202f || u == 0x205f || u == 0x3000
}

/// Whether `c` is Unicode white space.
pub fn space_char(c: char) -> (r: bool)
    ensures
        r == is_space(c),
{
    let u = c as u32;
    (0x09 <= u && u <= 0x0d) || u == 0x20 || u == 0x85 || u == 0xa0 || u == 0x1680 || (0x2000 <= u
        && u <= 0x200a) || u == 0x2028 || u == 0x2029 || u == 0x202f || u == 0x205f || u == 0x3000
}

/// The first position from `i` on, before `to`, that is not white space;
/// `to` where there is none.
pub open spec fn skip_space(s: Seq<char>, i: int, to: int) -> int
    decreases to - i,
{
    if i < to && is_space(s[i]) {
        skip_space(s, i + 1, to)
    } else {
        i
    }
}

/// The end of `s[from..j]` once its trailing white space is gone.
pub open spec fn back_space(s: Seq<char>, from: int, j: int) -> int
    decreases j - from,
{
    if from < j && is_space(s[j - 1]) {
        back_space(s, from, j - 1)
    } else {
        j
    }
}

/// The first position from `i` on, before `to`, that holds `c`; `to`
/// where there is none.
pub open spec fn find_in(s: Seq<char>, i: int, to: int, c: char) -> int
    decreases to - i,
{
    if i < to && s[i] != c {
        find_in(s, i + 1, to, c)
    } else {
        i
    }
}

/// The first position from `i` on, before `to`, that is white space; `to`
/// where there is none.
pub open spec fn word_end(s: Seq<char>, i: int, to: int) -> int
    decreases to - i,
{
    if i < to && !is_space(s[i]) {
        word_end(s, i + 1, to)
    } else {
        i
    }
}

/// The bounds of the white-space separated words of `s[i..to]`, in order.
pub open spec fn words_in(s: Seq<char>, i: int, to: int) -> Seq<(int, int)>
    decreases to - i,
{
    if i >= to {
        Seq::empty()
    } else if is_space(s[i]) {
        words_in(s, i + 1, to)
    } else {
        let e = word_end(s, i + 1, to);
        if i < e <= to {
            seq![(i, e)] + words_in(s, e, to)
        } else {
            Seq::empty()
        }
    }
}

/// `skip_space` over a character vector.
pub fn skip_space_at(v: &Vec<char>, i: usize, to: usize) -> (r: usize)
    requires
        i <= to <= v@.len(),
    ensures
        r == skip_space(v@, i as int, to as int),
        i <= r <= to,
{
    let mut k = i;
    while k < to && space_char(v[k])
        invariant
            i <= k <= to <= v@.len(),
            skip_space(v@, k as int, to as int) == skip_space(v@, i as int, to as int),
        decreases to - k,
    {
        k = k + 1;
    }
    k
}

/// `back_space` over a character vector.
pub fn back_space_at(v: &Vec<char>, from: usize, j: usize) -> (r: usize)
    requires
        from <= j <= v@.len(),
    ensures
        r == back_space(v@, from as int, j as int),
        from <= r <= j,
{
    let mut k = j;
    while k > from && space_char(v[k - 1])
        invariant
            from <= k <= j <= v@.len(),
            back_space(v@, from as int, k as int) == back_space(v@, from as int, j as int),
        decreases k - from,
    {
        k = k - 1;
    }
    k
}

/// `find_in` over a character vector.
pub fn find_in_at(v: &Vec<char>, i: usize, to: usize, c: char) -> (r: usize)
    requires
        i <= to <= v@.len(),
    ensures
        r == find_in(v@, i as int, to as int, c),
        i <= r <= to,
        r < to ==> v@[r as int] == c,
{
    let mut k = i;
    while k < to && v[k] != c
        invariant
            i <= k <= to <= v@.len(),
            find_in(v@, k as int, to as int, c) == find_in(v@, i as int, to as int, c),
        decreases to - k,
    {
        k = k + 1;
    }
    k
}

/// `words_in` over a character vector.
pub fn words_at(v: &Vec<char>, i: usize, to: usize) -> (r: Vec<(usize, usize)>)
    requires
        i <= to <= v@.len(),
    ensures
        r@.len() == words_in(v@, i as int, to as int).len(),
        forall|w: int| 0 <= w < r@.len() ==> {
            &&& (#[trigger] r@[w]).0 as int == words_in(v@, i as int, to as int)[w].0
            &&& r@[w].1 as int == words_in(v@, i as int, to as int)[w].1
            &&& r@[w].0 <= r@[w].1 <= to
        },
{
    let ghost all = words_in(v@, i as int, to as int);
    let mut out: Vec<(usize, usize)> = Vec::new();
    let mut k = i;
    while k < to
        invariant
            i <= k <= to <= v@.len(),
            all == words_in(v@, i as int, to as int),
            all.len() == out@.len() + words_in(v@, k as int, to as int).len(),
            forall|w: int| 0 <= w < out@.len() ==> {
                &&& (#[trigger] out@[w]).0 as int == all[w].0
                &&& out@[w].1 as int == all[w].1
                &&& out@[w].0 <= out@[w].1 <= to
            },
            forall|w: int| 0 <= w < words_in(v@, k as int, to as int).len() ==>
                #[trigger] words_in(v@, k as int, to as int)[w] == all[out@.len() + w],
        decreases to - k,
    {
        if space_char(v[k]) {
            k = k + 1;
        } else {
            let mut e = k + 1;
            while e < to && !space_char(v[e])
                invariant
                    k < e <= to <= v@.len(),
                    word_end(v@, e as int, to as int) == word_end(v@, k + 1, to as int),
                decreases to - e,
            {
                e = e + 1;
            }
            let ghost rest = words_in(v@, e as int, to as int);
            assert(words_in(v@, k as int, to as int) == seq![(k as int, e as int)] + rest);
            assert(words_in(v@, k as int, to as int)[0] == (k as int, e as int));
            assert(all[out@.len() as int] == (k as int, e as int));
            out.push((k, e));
            assert forall|w: int| 0 <= w < rest.len() implies #[trigger] rest[w] == all[out@.len() + w] by {
                assert(rest[w] == (seq![(k as int, e as int)] + rest)[w + 1]);
            }
            k = e;
        }
    }
    out
}

} // verus!

verus! {

/// Whether `whole` ends with `suffix`.
pub fn has_suffix(whole: &Vec<char>, suffix: &Vec<char>) -> (r: bool)
    ensures
        r == suffix@.is_suffix_of(whole@),
{
    if suffix.len() > whole.len() {
        return false;
    }
    let off: usize = whole.len() - suffix.len();
    let mut i: usize = 0;
    while i < suffix.len()
        invariant
            suffix@.len() <= whole@.len() <= usize::MAX,
            off == whole@.len() - suffix@.len(),
            i <= suffix@.len(),
            forall|j: int| 0 <= j < i ==> suffix@[j] == whole@[off + j],
        decreases suffix@.len() - i,
    {
        if suffix[i] != whole[off + i] {
            assert(whole@.subrange(off as int, whole@.len() as int)[i as int] != suffix@[i as int]);
            return false;
        }
        i = i + 1;
    }
    assert(suffix@ =~= whole@.subrange(off as int, whole@.len() as int));
    true
}

} // verus!

verus! {

/// Whether `list` holds a string equal to `s`.
pub fn has_text(list: &Vec<String>, s: &String) -> (r: bool)
    ensures
        r == text_views(list@).contains(s@),
{
    let mut i: usize = 0;
    while i < list.len()
        invariant
            i <= list@.len(),
            forall|j: int| 0 <= j < i ==> list@[j]@ != s@,
        decreases list@.len() - i,
    {
        if list[i].eq(s) {
            assert(text_views(list@)[i as int] == s@);
            return true;
        }
        i = i + 1;
    }
    assert forall|j: int| 0 <= j < text_views(list@).len() implies text_views(list@)[j] != s@ by {
        assert(text_views(list@)[j] == list@[j]@);
    }
    false
}

/// A list of the one line `line`.
pub fn single_line(line: String) -> (r: Vec<String>)
    ensures
        r@ == seq![line],
        text_views(r@) == seq![line@],
{
    let mut v: Vec<String> = Vec::new();
    v.push(line);
    assert(v@ =~= seq![line]);
    assert(text_views(v@) =~= seq![line@]);
    v
}

} // verus!
