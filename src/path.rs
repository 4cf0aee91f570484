use vstd::prelude::*;

verus! {

/// A captured route parameter: its name and the text it matched.
pub type ParamView = (Seq<char>, Seq<char>);

/// Drops a single leading `/` and then a single trailing `/`.
pub open spec fn trim_slashes(s: Seq<char>) -> Seq<char> {
    let a = if s.len() > 0 && s[0] == '/' {
        s.drop_first()
    } else {
        s
    };
    if a.len() > 0 && a.last() == '/' {
        a.drop_last()
    } else {
        a
    }
}

/// The pieces of `s` between `sep` separators. The empty text has one empty
/// piece, and every separator starts a new piece.
pub open spec fn split_on(s: Seq<char>, sep: char) -> Seq<Seq<char>>
    decreases s.len(),
{
    if s.len() == 0 {
        seq![Seq::<char>::empty()]
    } else {
        let prev = split_on(s.drop_last(), sep);
        if s.last() == sep {
            prev.push(Seq::<char>::empty())
        } else {
            prev.update(prev.len() - 1, prev.last().push(s.last()))
        }
    }
}

/// The pieces of `s` between `/` separators.
pub open spec fn split_segments(s: Seq<char>) -> Seq<Seq<char>> {
    split_on(s, '/')
}

/// The segments of a pattern or of a request path.
pub open spec fn segments(s: Seq<char>) -> Seq<Seq<char>> {
    split_segments(trim_slashes(s))
}

/// Segments joined back together with `/`.
pub open spec fn join_segments(segs: Seq<Seq<char>>) -> Seq<char>
    decreases segs.len(),
{
    if segs.len() == 0 {
        Seq::<char>::empty()
    } else if segs.len() == 1 {
        segs[0]
    } else {
        join_segments(segs.drop_last()) + seq!['/'] + segs.last()
    }
}

/// Index of the first character at or after `i` that is not a `:`.
pub open spec fn colon_end(s: Seq<char>, i: int) -> int
    decreases s.len() - i,
{
    if 0 <= i < s.len() && s[i] == ':' {
        colon_end(s, i + 1)
    } else {
        i
    }
}

/// Start of the run of `*` that ends just before index `j`.
pub open spec fn star_start(s: Seq<char>, j: int) -> int
    decreases j,
{
    if 0 < j <= s.len() && s[j - 1] == '*' {
        star_start(s, j - 1)
    } else {
        j
    }
}

/// The name of a `:name` segment: the segment without its leading colons.
pub open spec fn param_name(seg: Seq<char>) -> Seq<char> {
    seg.subrange(colon_end(seg, 0), seg.len() as int)
}

/// The name of a `:name*` segment: without leading colons and trailing stars.
pub open spec fn rest_name(seg: Seq<char>) -> Seq<char> {
    let t = param_name(seg);
    t.subrange(0, star_start(t, t.len() as int))
}

/// A plain catch-all segment `*`.
pub open spec fn is_glob(seg: Seq<char>) -> bool {
    seg == seq!['*']
}

/// A segment that ends in `*`: a catch-all when it is the pattern's last
/// segment, named unless it is `*` itself.
pub open spec fn is_rest(seg: Seq<char>) -> bool {
    seg.len() > 0 && seg.last() == '*'
}

/// A `:name` parameter segment.
pub open spec fn is_param(seg: Seq<char>) -> bool {
    seg.len() > 0 && seg[0] == ':'
}

/// A literal segment: not empty, not a parameter and not a catch-all.
pub open spec fn is_literal(seg: Seq<char>) -> bool {
    seg.len() > 0 && !is_param(seg) && !is_rest(seg)
}

/// Matching of pattern segments `p` against path segments `u`, from position
/// `i` on, with the parameters `acc` captured so far. A catch-all takes the
/// remaining path segments (at least one) only as the pattern's last segment;
/// elsewhere a `:name*` segment is a parameter and a `*` segment a literal,
/// and the segment counts must be equal.
pub open spec fn match_from(
    p: Seq<Seq<char>>,
    u: Seq<Seq<char>>,
    i: int,
    acc: Seq<ParamView>,
) -> Option<Seq<ParamView>>
    decreases p.len() - i,
{
    if i < 0 || i >= p.len() {
        if u.len() == p.len() {
            Some(acc)
        } else {
            None
        }
    } else if i < u.len() {
        if i == p.len() - 1 && is_glob(p[i]) {
            Some(acc)
        } else if i == p.len() - 1 && is_rest(p[i]) {
            Some(acc.push((rest_name(p[i]), join_segments(u.subrange(i, u.len() as int)))))
        } else if is_param(p[i]) {
            match_from(p, u, i + 1, acc.push((param_name(p[i]), u[i])))
        } else if p[i] != u[i] {
            None
        } else {
            match_from(p, u, i + 1, acc)
        }
    } else {
        None
    }
}

/// The parameters that `path` binds when it matches `pattern`, in the order
/// of the pattern's segments, or `None` when it does not match.
pub open spec fn match_spec(pattern: Seq<char>, path: Seq<char>) -> Option<Seq<ParamView>> {
    match_from(segments(pattern), segments(path), 0, Seq::empty())
}

/// Number of literal segments among `segs`.
pub open spec fn count_literal(segs: Seq<Seq<char>>) -> nat
    decreases segs.len(),
{
    if segs.len() == 0 {
        0
    } else {
        count_literal(segs.drop_last()) + if is_literal(segs.last()) {
            1nat
        } else {
            0nat
        }
    }
}

/// Specificity of a pattern: how many of its segments are literal.
pub open spec fn specificity(pattern: Seq<char>) -> nat {
    count_literal(segments(pattern))
}

/// The text of a character range.
pub open spec fn seg_of(c: Seq<char>, r: (usize, usize)) -> Seq<char> {
    c.subrange(r.0 as int, r.1 as int)
}

/// The texts of a list of character ranges.
pub open spec fn ranges_view(c: Seq<char>, rs: Seq<(usize, usize)>) -> Seq<Seq<char>> {
    rs.map_values(|r: (usize, usize)| seg_of(c, r))
}

/// Ranges that lie inside a text of length `n`.
pub open spec fn ranges_within(rs: Seq<(usize, usize)>, n: nat) -> bool {
    forall|j: int| 0 <= j < rs.len() ==> (#[trigger] rs[j]).0 <= rs[j].1 && rs[j].1 <= n
}

/// The view of captured parameters.
pub open spec fn params_view(v: Seq<(String, String)>) -> Seq<ParamView> {
    v.map_values(|p: (String, String)| (p.0@, p.1@))
}

proof fn lemma_colon_end_bounds(s: Seq<char>, i: int)
    requires
        0 <= i <= s.len(),
    ensures
        i <= colon_end(s, i) <= s.len(),
    decreases s.len() - i,
{
    if i < s.len() && s[i] == ':' {
        lemma_colon_end_bounds(s, i + 1);
    }
}

proof fn lemma_star_start_bounds(s: Seq<char>, j: int)
    requires
        0 <= j <= s.len(),
    ensures
        0 <= star_start(s, j) <= j,
    decreases j,
{
    if 0 < j && s[j - 1] == '*' {
        lemma_star_start_bounds(s, j - 1);
    }
}

/// The characters of a string.
pub fn to_chars(s: &str) -> (r: Vec<char>)
    ensures
        r@ == s@,
{
    let n = s.unicode_len();
    let mut v: Vec<char> = Vec::new();
    let mut i: usize = 0;
    while i < n
        invariant
            n == s@.len(),
            i <= n,
            v@ == s@.take(i as int),
        decreases n - i,
    {
        v.push(s.get_char(i));
        assert(s@.take(i + 1) == s@.take(i as int).push(s@[i as int]));
        i = i + 1;
    }
    assert(s@.take(n as int) == s@);
    v
}

/// Bounds of the text left after `trim_slashes`.
fn trim_bounds(c: &Vec<char>) -> (r: (usize, usize))
    ensures
        r.0 <= r.1 <= c@.len(),
        c@.subrange(r.0 as int, r.1 as int) == trim_slashes(c@),
{
    let n = c.len();
    let lo: usize = if n > 0 && c[0] == '/' {
        1
    } else {
        0
    };
    let hi: usize = if n > lo && c[n - 1] == '/' {
        n - 1
    } else {
        n
    };
    let ghost s = c@;
    let ghost a = if s.len() > 0 && s[0] == '/' {
        s.drop_first()
    } else {
        s
    };
    assert(a == s.subrange(lo as int, n as int));
    if n > lo && c[n - 1] == '/' {
        assert(a.drop_last() == s.subrange(lo as int, hi as int));
    }
    (lo, hi)
}

/// Character ranges of the `sep`-separated pieces of `c[lo..hi]`.
pub fn split_ranges(c: &Vec<char>, lo: usize, hi: usize, sep: char) -> (r: Vec<(usize, usize)>)
    requires
        lo <= hi <= c@.len(),
    ensures
        ranges_view(c@, r@) == split_on(c@.subrange(lo as int, hi as int), sep),
        r@.len() >= 1,
        ranges_within(r@, c@.len()),
{
    let mut segs: Vec<(usize, usize)> = Vec::new();
    segs.push((lo, lo));
    let mut k: usize = lo;
    proof {
        assert(segs@[0] == (lo, lo));
        assert(seg_of(c@, segs@[0]) =~= Seq::<char>::empty());
        assert(c@.subrange(lo as int, lo as int) =~= Seq::<char>::empty());
        assert(ranges_view(c@, segs@) =~= seq![Seq::<char>::empty()]);
    }
    while k < hi
        invariant
            lo <= k <= hi <= c@.len(),
            segs@.len() >= 1,
            segs@.last().1 == k,
            ranges_within(segs@, k as nat),
            ranges_view(c@, segs@) == split_on(c@.subrange(lo as int, k as int), sep),
        decreases hi - k,
    {
        let ghost before = segs@;
        let ghost s1 = c@.subrange(lo as int, k + 1);
        assert(s1.drop_last() == c@.subrange(lo as int, k as int));
        assert(s1.last() == c@[k as int]);
        if c[k] == sep {
            segs.push((k + 1, k + 1));
            assert(seg_of(c@, segs@.last()) =~= Seq::<char>::empty());
            assert(ranges_view(c@, segs@) =~= ranges_view(c@, before).push(Seq::<char>::empty()));
        } else {
            let last = segs.len() - 1;
            let (a, _) = segs[last];
            assert(before[last as int].0 <= before[last as int].1);
            segs.set(last, (a, k + 1));
            assert(segs@[last as int].0 <= segs@[last as int].1);
            let ghost prev = ranges_view(c@, before);
            assert(seg_of(c@, (a, (k + 1) as usize)) =~= seg_of(c@, before[last as int]).push(
                c@[k as int],
            ));
            assert(ranges_view(c@, segs@) =~= prev.update(
                prev.len() - 1,
                prev.last().push(c@[k as int]),
            ));
        }
        assert forall|j: int| 0 <= j < segs@.len() implies (#[trigger] segs@[j]).0 <= segs@[j].1 && segs@[j].1 <= (k
            + 1) as nat by {
            if j < before.len() {
                assert(before[j].0 <= before[j].1 <= k);
                if j != before.len() - 1 {
                    assert(segs@[j] == before[j]);
                }
            }
        }
        assert(ranges_within(segs@, (k + 1) as nat));
        k = k + 1;
    }
    segs
}

/// Character ranges of the segments of `c`.
pub fn segment_ranges(c: &Vec<char>) -> (r: Vec<(usize, usize)>)
    ensures
        ranges_view(c@, r@) == segments(c@),
        ranges_within(r@, c@.len()),
        r@.len() >= 1,
{
    let (lo, hi) = trim_bounds(c);
    split_ranges(c, lo, hi, '/')
}

/// Whether two character ranges hold the same text.
pub fn range_eq(a: &Vec<char>, ra: (usize, usize), b: &Vec<char>, rb: (usize, usize)) -> (r: bool)
    requires
        ra.0 <= ra.1 <= a@.len(),
        rb.0 <= rb.1 <= b@.len(),
    ensures
        r == (seg_of(a@, ra) == seg_of(b@, rb)),
{
    let n = ra.1 - ra.0;
    if n != rb.1 - rb.0 {
        assert(seg_of(a@, ra).len() != seg_of(b@, rb).len());
        return false;
    }
    let mut i: usize = 0;
    while i < n
        invariant
            n == ra.1 - ra.0,
            n == rb.1 - rb.0,
            ra.0 <= ra.1 <= a@.len(),
            rb.0 <= rb.1 <= b@.len(),
            i <= n,
            forall|j: int| 0 <= j < i ==> #[trigger] seg_of(a@, ra)[j] == seg_of(b@, rb)[j],
        decreases n - i,
    {
        if a[ra.0 + i] != b[rb.0 + i] {
            assert(seg_of(a@, ra)[i as int] != seg_of(b@, rb)[i as int]);
            return false;
        }
        i = i + 1;
    }
    assert(seg_of(a@, ra) =~= seg_of(b@, rb));
    true
}

/// The text of a character range of `s`, as a string.
pub fn range_string(s: &str, c: &Vec<char>, r: (usize, usize)) -> (out: String)
    requires
        c@ == s@,
        r.0 <= r.1 <= c@.len(),
    ensures
        out@ == seg_of(c@, r),
{
    let sub = s.substring_char(r.0, r.1);
    String::from_str(sub)
}

/// Range of the name of a parameter or catch-all segment.
fn name_range(c: &Vec<char>, r: (usize, usize), rest: bool) -> (out: (usize, usize))
    requires
        r.0 <= r.1 <= c@.len(),
    ensures
        out.0 <= out.1 <= c@.len(),
        rest ==> seg_of(c@, out) == rest_name(seg_of(c@, r)),
        !rest ==> seg_of(c@, out) == param_name(seg_of(c@, r)),
{
    let ghost seg = seg_of(c@, r);
    let mut k: usize = r.0;
    while k < r.1 && c[k] == ':'
        invariant
            r.0 <= k <= r.1 <= c@.len(),
            seg == seg_of(c@, r),
            colon_end(seg, k - r.0) == colon_end(seg, 0),
        decreases r.1 - k,
    {
        k = k + 1;
    }
    proof {
        lemma_colon_end_bounds(seg, 0);
        assert(colon_end(seg, 0) == k - r.0);
        assert(seg_of(c@, (k, r.1)) =~= param_name(seg));
    }
    if !rest {
        return (k, r.1);
    }
    let ghost t = param_name(seg);
    let mut j: usize = r.1;
    while j > k && c[j - 1] == '*'
        invariant
            r.0 <= k <= j <= r.1 <= c@.len(),
            t == seg_of(c@, (k, r.1)),
            star_start(t, j - k) == star_start(t, t.len() as int),
        decreases j,
    {
        j = j - 1;
    }
    proof {
        lemma_star_start_bounds(t, t.len() as int);
        assert(star_start(t, t.len() as int) == j - k);
        assert(seg_of(c@, (k, j)) =~= rest_name(seg));
    }
    (k, j)
}

/// The segments `i..` of a path joined with `/`.
fn join_from(s: &str, c: &Vec<char>, rs: &Vec<(usize, usize)>, i: usize) -> (out: String)
    requires
        c@ == s@,
        ranges_within(rs@, c@.len()),
        i <= rs@.len(),
    ensures
        out@ == join_segments(ranges_view(c@, rs@).subrange(i as int, rs@.len() as int)),
{
    let ghost u = ranges_view(c@, rs@);
    let mut out = String::new();
    let mut k: usize = i;
    proof {
        assert(u.subrange(i as int, i as int).len() == 0);
    }
    while k < rs.len()
        invariant
            c@ == s@,
            ranges_within(rs@, c@.len()),
            u == ranges_view(c@, rs@),
            i <= k <= rs@.len(),
            out@ == join_segments(u.subrange(i as int, k as int)),
        decreases rs.len() - k,
    {
        let part = range_string(s, c, rs[k]);
        let ghost prev = u.subrange(i as int, k as int);
        let ghost next = u.subrange(i as int, k + 1);
        assert(next.drop_last() =~= prev);
        assert(next.last() == u[k as int]);
        if k > i {
            out.append("/");
            proof {
                reveal_strlit("/");
            }
        } else {
            assert(next =~= seq![u[k as int]]);
        }
        out.append(part.as_str());
        assert(out@ =~= join_segments(next));
        k = k + 1;
    }
    out
}

/// Matches a request path against a route pattern. On a match, returns the
/// captured parameters in the order of the pattern's segments.
pub fn match_path(route: &str, uri: &str) -> (r: Option<Vec<(String, String)>>)
    ensures
        match r {
            Some(v) => match_spec(route@, uri@) == Some(params_view(v@)),
            None => match_spec(route@, uri@) is None,
        },
{
    let pc = to_chars(route);
    let uc = to_chars(uri);
    let ps = segment_ranges(&pc);
    let us = segment_ranges(&uc);
    let ghost p = segments(route@);
    let ghost u = segments(uri@);
    let mut params: Vec<(String, String)> = Vec::new();
    let mut i: usize = 0;
    proof {
        assert(params_view(params@) =~= Seq::<ParamView>::empty());
    }
    while i < ps.len()
        invariant
            pc@ == route@,
            uc@ == uri@,
            ranges_within(ps@, pc@.len()),
            ranges_within(us@, uc@.len()),
            ranges_view(pc@, ps@) == p,
            ranges_view(uc@, us@) == u,
            p == segments(route@),
            u == segments(uri@),
            i <= ps@.len(),
            i <= us@.len(),
            match_from(p, u, i as int, params_view(params@)) == match_spec(route@, uri@),
        decreases ps.len() - i,
    {
        let (a, b) = ps[i];
        assert(p[i as int] == seg_of(pc@, (a, b)));
        let ghost seg = p[i as int];
        if i >= us.len() {
            return None;
        }
        let last = i + 1 == ps.len();
        if last && b > a && b - a == 1 && pc[a] == '*' {
            assert(seg =~= seq!['*']);
            return Some(params);
        }
        assert(!(last && is_glob(seg))) by {
            if last && is_glob(seg) {
                assert(seg.len() == 1 && seg[0] == '*');
            }
        }
        if last && b > a && pc[b - 1] == '*' {
            let nr = name_range(&pc, (a, b), true);
            let key = range_string(route, &pc, nr);
            let val = join_from(uri, &uc, &us, i);
            let ghost before = params@;
            params.push((key, val));
            assert(params_view(params@) =~= params_view(before).push((key@, val@)));
            return Some(params);
        }
        {
            assert(u[i as int] == seg_of(uc@, us@[i as int]));
            if b > a && pc[a] == ':' {
                let nr = name_range(&pc, (a, b), false);
                let key = range_string(route, &pc, nr);
                let val = range_string(uri, &uc, us[i]);
                let ghost before = params@;
                params.push((key, val));
                assert(params_view(params@) =~= params_view(before).push((key@, val@)));
            } else if !range_eq(&pc, (a, b), &uc, us[i]) {
                return None;
            }
        }
        i = i + 1;
    }
    if us.len() == ps.len() {
        Some(params)
    } else {
        None
    }
}

/// A pattern none of whose segments is a parameter or a catch-all.
pub open spec fn is_static(p: Seq<char>) -> bool {
    forall|i: int| 0 <= i < segments(p).len() ==> !is_param(#[trigger] segments(p)[i]) && !is_rest(segments(p)[i])
}

proof fn lemma_count_take(s: Seq<Seq<char>>, n: int)
    requires
        0 <= n <= s.len(),
    ensures
        count_literal(s.take(n)) <= count_literal(s),
    decreases s.len(),
{
    if n < s.len() {
        assert(s.take(n) =~= s.drop_last().take(n));
        lemma_count_take(s.drop_last(), n);
    } else {
        assert(s.take(n) =~= s);
    }
}

proof fn lemma_count_pointwise(q: Seq<Seq<char>>, r: Seq<Seq<char>>)
    requires
        q.len() == r.len(),
        forall|j: int| 0 <= j < q.len() && is_literal(#[trigger] q[j]) ==> is_literal(r[j]),
    ensures
        count_literal(q) <= count_literal(r),
    decreases q.len(),
{
    if q.len() > 0 {
        let q2 = q.drop_last();
        let r2 = r.drop_last();
        assert forall|j: int| 0 <= j < q2.len() && is_literal(#[trigger] q2[j]) implies is_literal(r2[j]) by {
            assert(q2[j] == q[j] && r2[j] == r[j]);
        }
        lemma_count_pointwise(q2, r2);
        assert(is_literal(q.last()) ==> is_literal(r.last()));
    }
}

proof fn lemma_match_literals(q: Seq<Seq<char>>, u: Seq<Seq<char>>, i: int, acc: Seq<ParamView>)
    requires
        0 <= i <= q.len(),
        match_from(q, u, i, acc) is Some,
    ensures
        q.len() <= u.len(),
        forall|j: int| i <= j < q.len() && is_literal(#[trigger] q[j]) ==> is_literal(u[j]),
    decreases q.len() - i,
{
    if i < q.len() {
        if i < u.len() && ((i == q.len() - 1 && is_glob(q[i])) || (i == q.len() - 1 && is_rest(q[i]))) {
            assert(is_glob(q[i]) ==> q[i].len() == 1 && q[i].last() == '*');
        } else if is_param(q[i]) {
            lemma_match_literals(q, u, i + 1, acc.push((param_name(q[i]), u[i])));
        } else {
            lemma_match_literals(q, u, i + 1, acc);
        }
    }
}

/// A pattern that matches a path has no more literal segments than the path
/// has non-empty segments without `:` at the start or `*` at the end.
pub proof fn lemma_match_specificity(pattern: Seq<char>, path: Seq<char>)
    requires
        match_spec(pattern, path) is Some,
    ensures
        specificity(pattern) <= count_literal(segments(path)),
{
    let q = segments(pattern);
    let u = segments(path);
    lemma_match_literals(q, u, 0, Seq::empty());
    let r = u.take(q.len() as int);
    assert forall|j: int| 0 <= j < q.len() && is_literal(#[trigger] q[j]) implies is_literal(r[j]) by {
        assert(r[j] == u[j]);
    }
    lemma_count_pointwise(q, r);
    lemma_count_take(u, q.len() as int);
}

/// Text without `:` and `*`.
pub open spec fn plain_text(s: Seq<char>) -> bool {
    forall|i: int| 0 <= i < s.len() ==> s[i] != ':' && s[i] != '*'
}

proof fn lemma_split_plain(s: Seq<char>, sep: char)
    requires
        plain_text(s),
    ensures
        forall|k: int| 0 <= k < split_on(s, sep).len() ==> plain_text(#[trigger] split_on(s, sep)[k]),
    decreases s.len(),
{
    if s.len() > 0 {
        let d = s.drop_last();
        assert(plain_text(d)) by {
            assert forall|i: int| 0 <= i < d.len() implies d[i] != ':' && d[i] != '*' by {
                assert(d[i] == s[i]);
            }
        }
        lemma_split_plain(d, sep);
        let prev = split_on(d, sep);
        if s.last() != sep {
            lemma_split_nonempty(d, sep);
            let last = prev.last().push(s.last());
            assert(plain_text(last)) by {
                assert forall|i: int| 0 <= i < last.len() implies last[i] != ':' && last[i] != '*' by {
                    if i < prev.last().len() {
                        assert(plain_text(prev[prev.len() - 1]));
                    }
                }
            }
        }
    }
}

proof fn lemma_split_nonempty(s: Seq<char>, sep: char)
    ensures
        split_on(s, sep).len() >= 1,
    decreases s.len(),
{
    if s.len() > 0 {
        lemma_split_nonempty(s.drop_last(), sep);
    }
}

/// A pattern with no `:` and no `*` anywhere has neither parameters nor
/// catch-alls.
pub proof fn lemma_plain_is_static(p: Seq<char>)
    requires
        plain_text(p),
    ensures
        is_static(p),
{
    let t = trim_slashes(p);
    assert(plain_text(t)) by {
        assert forall|i: int| 0 <= i < t.len() implies t[i] != ':' && t[i] != '*' by {
            if p.len() > 0 && p[0] == '/' {
                assert(t[i] == p[i + 1]);
            } else {
                assert(t[i] == p[i]);
            }
        }
    }
    lemma_split_plain(t, '/');
    assert forall|i: int| 0 <= i < segments(p).len() implies !is_param(#[trigger] segments(p)[i]) && !is_rest(
        segments(p)[i],
    ) by {
        assert(plain_text(segments(p)[i]));
    }
}

/// Whether a route pattern has neither parameters nor catch-alls.
pub fn route_is_static(route: &str) -> (r: bool)
    ensures
        r == is_static(route@),
{
    let pc = to_chars(route);
    let ps = segment_ranges(&pc);
    let ghost p = segments(route@);
    let mut i: usize = 0;
    while i < ps.len()
        invariant
            pc@ == route@,
            ranges_within(ps@, pc@.len()),
            ranges_view(pc@, ps@) == p,
            p == segments(route@),
            i <= ps@.len(),
            forall|j: int| 0 <= j < i ==> !is_param(#[trigger] p[j]) && !is_rest(p[j]),
        decreases ps.len() - i,
    {
        let (a, b) = ps[i];
        assert(p[i as int] == seg_of(pc@, (a, b)));
        if b > a && (pc[a] == ':' || pc[b - 1] == '*') {
            return false;
        }
        i = i + 1;
    }
    true
}

/// Number of literal segments of a route pattern.
pub fn route_specificity(route: &str) -> (r: usize)
    ensures
        r as nat == specificity(route@),
{
    let pc = to_chars(route);
    let ps = segment_ranges(&pc);
    let ghost p = segments(route@);
    let mut count: usize = 0;
    let mut i: usize = 0;
    proof {
        assert(p.subrange(0, 0).len() == 0);
    }
    while i < ps.len()
        invariant
            pc@ == route@,
            ranges_within(ps@, pc@.len()),
            ranges_view(pc@, ps@) == p,
            i <= ps@.len(),
            count as nat == count_literal(p.subrange(0, i as int)),
            count <= i,
        decreases ps.len() - i,
    {
        let (a, b) = ps[i];
        assert(p[i as int] == seg_of(pc@, (a, b)));
        let ghost next = p.subrange(0, i + 1);
        assert(next.drop_last() =~= p.subrange(0, i as int));
        assert(next.last() == p[i as int]);
        if b > a && pc[a] != ':' && pc[b - 1] != '*' {
            count = count + 1;
        }
        i = i + 1;
    }
    assert(p.subrange(0, ps@.len() as int) =~= p);
    count
}

} // verus!
