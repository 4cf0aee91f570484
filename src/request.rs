use vstd::prelude::*;
use crate::path::{
    params_view, range_eq, range_string, ranges_view, ranges_within, seg_of, split_on, split_ranges,
    to_chars, ParamView,
};
use crate::response::str_eq_string;

verus! {

/// The value of the last pair of `ps` named `key`: later pairs override
/// earlier ones.
pub open spec fn last_value(ps: Seq<ParamView>, key: Seq<char>) -> Option<Seq<char>>
    decreases ps.len(),
{
    if ps.len() == 0 {
        None
    } else if ps.last().0 == key {
        Some(ps.last().1)
    } else {
        last_value(ps.drop_last(), key)
    }
}

/// The value of the last pair named `key`.
pub fn lookup(pairs: &Vec<(String, String)>, key: &str) -> (r: Option<String>)
    ensures
        match r {
            Some(v) => last_value(params_view(pairs@), key@) == Some(v@),
            None => last_value(params_view(pairs@), key@) is None,
        },
{
    let ghost ps = params_view(pairs@);
    let mut i: usize = pairs.len();
    assert(ps.take(ps.len() as int) =~= ps);
    while i > 0
        invariant
            ps == params_view(pairs@),
            i <= pairs@.len(),
            last_value(ps.take(i as int), key@) == last_value(ps, key@),
        decreases i,
    {
        let ghost t = ps.take(i as int);
        assert(t.last() == ps[i - 1]);
        assert(t.drop_last() =~= ps.take(i - 1));
        if str_eq_string(&pairs[i - 1].0, key) {
            return Some(pairs[i - 1].1.clone());
        }
        i = i - 1;
    }
    assert(ps.take(0).len() == 0);
    None
}

/// A route parameter by name, or the empty string when the route has none
/// of that name. A name captured twice has its last value.
pub fn param(params: &Vec<(String, String)>, key: &str) -> (r: String)
    ensures
        match last_value(params_view(params@), key@) {
            Some(v) => r@ == v,
            None => r@.len() == 0,
        },
{
    match lookup(params, key) {
        Some(v) => v,
        None => String::new(),
    }
}

/// The name/value pairs of an `application/x-www-form-urlencoded` text,
/// decoded, in order.
pub uninterp spec fn form_pairs_of(q: Seq<char>) -> Seq<ParamView>;

/// Relies on url::form_urlencoded::parse: the decoded pairs of the text, in
/// the order they occur, and no pairs for an empty text.
#[verifier::external_body]
fn form_pairs(q: &str) -> (r: Vec<(String, String)>)
    ensures
        params_view(r@) == form_pairs_of(q@),
        q@.len() == 0 ==> r@.len() == 0,
{
    url::form_urlencoded::parse(q.as_bytes()).into_owned().collect()
}

/// The pairs of a query string, decoded; no query gives no pairs.
pub fn query_pairs(query: Option<&str>) -> (r: Vec<(String, String)>)
    ensures
        query matches Some(q) ==> params_view(r@) == form_pairs_of(q@),
        query is None ==> r@.len() == 0,
{
    match query {
        Some(q) => form_pairs(q),
        None => Vec::new(),
    }
}

/// One query parameter by name: the last value given for it.
pub fn query_param(query: Option<&str>, key: &str) -> (r: Option<String>)
    ensures
        query is None ==> r is None,
        query matches Some(q) ==> match r {
            Some(v) => last_value(form_pairs_of(q@), key@) == Some(v@),
            None => last_value(form_pairs_of(q@), key@) is None,
        },
{
    let pairs = query_pairs(query);
    match query {
        Some(q) => lookup(&pairs, key),
        None => None,
    }
}

/// Whitespace as `char::is_whitespace` defines it: the characters with the
/// Unicode `White_Space` property.
pub open spec fn is_ws(c: char) -> bool {
    let u = c as u32;
    (0x9 <= u && u <= 0xD) || u == 0x20 || u == 0x85 || u == 0xA0 || u == 0x1680 || (0x2000 <= u && u
        <= 0x200A) || u == 0x2028 || u == 0x2029 || u == 0x202F || u == 0x205F || u == 0x3000
}

/// Whether `c` is whitespace.
pub fn char_is_ws(c: char) -> (r: bool)
    ensures
        r == is_ws(c),
{
    let u = c as u32;
    (0x9 <= u && u <= 0xD) || u == 0x20 || u == 0x85 || u == 0xA0 || u == 0x1680 || (0x2000 <= u && u
        <= 0x200A) || u == 0x2028 || u == 0x2029 || u == 0x202F || u == 0x205F || u == 0x3000
}

/// Index of the first non-whitespace character of `s` at or after `i`.
pub open spec fn ws_start(s: Seq<char>, i: int) -> int
    decreases s.len() - i,
{
    if 0 <= i < s.len() && is_ws(s[i]) {
        ws_start(s, i + 1)
    } else {
        i
    }
}

/// Index just past the last non-whitespace character of `s[..j]`.
pub open spec fn ws_end(s: Seq<char>, j: int) -> int
    decreases j,
{
    if 0 < j <= s.len() && is_ws(s[j - 1]) {
        ws_end(s, j - 1)
    } else {
        j
    }
}

/// `s` without whitespace at either end.
pub open spec fn trim_ws(s: Seq<char>) -> Seq<char> {
    let t = s.subrange(ws_start(s, 0), s.len() as int);
    t.subrange(0, ws_end(t, t.len() as int))
}

/// Index of the first `=` of `s` at or after `i`, or the length of `s`.
pub open spec fn eq_index(s: Seq<char>, i: int) -> int
    decreases s.len() - i,
{
    if 0 <= i < s.len() && s[i] != '=' {
        eq_index(s, i + 1)
    } else {
        i
    }
}

/// The value of the first `name=value` pair among `pieces`, each piece
/// trimmed of whitespace first; pieces without `=` are skipped.
pub open spec fn cookie_in(pieces: Seq<Seq<char>>, name: Seq<char>) -> Option<Seq<char>>
    decreases pieces.len(),
{
    if pieces.len() == 0 {
        None
    } else {
        let t = trim_ws(pieces[0]);
        let e = eq_index(t, 0);
        if e < t.len() && t.subrange(0, e) == name {
            Some(t.subrange(e + 1, t.len() as int))
        } else {
            cookie_in(pieces.drop_first(), name)
        }
    }
}

/// The value of cookie `name` in a `Cookie` header.
pub open spec fn cookie_spec(header: Seq<char>, name: Seq<char>) -> Option<Seq<char>> {
    cookie_in(split_on(header, ';'), name)
}

proof fn lemma_ws_start_bounds(s: Seq<char>, i: int)
    requires
        0 <= i <= s.len(),
    ensures
        i <= ws_start(s, i) <= s.len(),
    decreases s.len() - i,
{
    if i < s.len() && is_ws(s[i]) {
        lemma_ws_start_bounds(s, i + 1);
    }
}

proof fn lemma_ws_end_bounds(s: Seq<char>, j: int)
    requires
        0 <= j <= s.len(),
    ensures
        0 <= ws_end(s, j) <= j,
    decreases j,
{
    if 0 < j && is_ws(s[j - 1]) {
        lemma_ws_end_bounds(s, j - 1);
    }
}

proof fn lemma_eq_index_bounds(s: Seq<char>, i: int)
    requires
        0 <= i <= s.len(),
    ensures
        i <= eq_index(s, i) <= s.len(),
        eq_index(s, i) < s.len() ==> s[eq_index(s, i)] == '=',
    decreases s.len() - i,
{
    if i < s.len() && s[i] != '=' {
        lemma_eq_index_bounds(s, i + 1);
    }
}

/// Range of `c[r]` without whitespace at either end.
fn trim_range(c: &Vec<char>, r: (usize, usize)) -> (out: (usize, usize))
    requires
        r.0 <= r.1 <= c@.len(),
    ensures
        r.0 <= out.0 <= out.1 <= r.1,
        seg_of(c@, out) == trim_ws(seg_of(c@, r)),
{
    let ghost seg = seg_of(c@, r);
    let mut s: usize = r.0;
    while s < r.1 && char_is_ws(c[s])
        invariant
            r.0 <= s <= r.1 <= c@.len(),
            seg == seg_of(c@, r),
            ws_start(seg, s - r.0) == ws_start(seg, 0),
        decreases r.1 - s,
    {
        s = s + 1;
    }
    proof {
        lemma_ws_start_bounds(seg, 0);
        assert(ws_start(seg, 0) == s - r.0);
    }
    let ghost t = seg_of(c@, (s, r.1));
    assert(t =~= seg.subrange(ws_start(seg, 0), seg.len() as int));
    let mut e: usize = r.1;
    while e > s && char_is_ws(c[e - 1])
        invariant
            r.0 <= s <= e <= r.1 <= c@.len(),
            t == seg_of(c@, (s, r.1)),
            ws_end(t, e - s) == ws_end(t, t.len() as int),
        decreases e,
    {
        e = e - 1;
    }
    proof {
        lemma_ws_end_bounds(t, t.len() as int);
        assert(ws_end(t, t.len() as int) == e - s);
        assert(seg_of(c@, (s, e)) =~= trim_ws(seg));
    }
    (s, e)
}

/// The value of cookie `name` in the text of a `Cookie` header: the first
/// `;`-separated pair whose name is `name`.
pub fn cookie_value(header: &str, name: &str) -> (r: Option<String>)
    ensures
        match r {
            Some(v) => cookie_spec(header@, name@) == Some(v@),
            None => cookie_spec(header@, name@) is None,
        },
{
    let hc = to_chars(header);
    let nc = to_chars(name);
    let rs = split_ranges(&hc, 0, hc.len(), ';');
    let ghost pieces = ranges_view(hc@, rs@);
    assert(hc@.subrange(0, hc@.len() as int) =~= hc@);
    assert(pieces.subrange(0, pieces.len() as int) =~= pieces);
    assert(seg_of(nc@, (0, nc.len())) =~= name@);
    let mut i: usize = 0;
    while i < rs.len()
        invariant
            hc@ == header@,
            nc@ == name@,
            ranges_within(rs@, hc@.len()),
            pieces == ranges_view(hc@, rs@),
            pieces == split_on(header@, ';'),
            seg_of(nc@, (0, nc@.len() as usize)) == name@,
            i <= rs@.len(),
            cookie_in(pieces.subrange(i as int, pieces.len() as int), name@) == cookie_spec(header@, name@),
        decreases rs.len() - i,
    {
        let ghost rest = pieces.subrange(i as int, pieces.len() as int);
        assert(rest[0] == seg_of(hc@, rs@[i as int]));
        assert(rest.drop_first() =~= pieces.subrange(i + 1, pieces.len() as int));
        let ghost piece = rest[0];
        let (s, e) = trim_range(&hc, rs[i]);
        let ghost t = trim_ws(piece);
        let mut q: usize = s;
        while q < e && hc[q] != '='
            invariant
                s <= q <= e <= hc@.len(),
                t == seg_of(hc@, (s, e)),
                eq_index(t, q - s) == eq_index(t, 0),
            decreases e - q,
        {
            q = q + 1;
        }
        proof {
            lemma_eq_index_bounds(t, 0);
            assert(eq_index(t, 0) == q - s);
            assert(t.subrange(0, q - s) =~= seg_of(hc@, (s, q)));
        }
        if q < e && range_eq(&hc, (s, q), &nc, (0, nc.len())) {
            let v = range_string(header, &hc, (q + 1, e));
            assert(v@ =~= t.subrange(q - s + 1, t.len() as int));
            return Some(v);
        }
        i = i + 1;
    }
    None
}

} // verus!
