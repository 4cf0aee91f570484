use vstd::prelude::*;
use vstd::utf8::*;
use radixmap::RadixMap;
use crate::path::{
    is_glob, is_param, is_rest, is_static, match_from, match_path, match_spec, params_view,
    route_is_static, route_specificity, segments, specificity, lemma_match_specificity, ParamView,
};
use crate::types::{method_index, Method, METHOD_COUNT};

verus! {

broadcast use encode_utf8_decode_utf8;

/// What is registered under one pattern: per method, a handler and an
/// ordered list of middleware, both given by their identifiers.
pub struct Node {
    pub pattern: String,
    pub handlers: Vec<Option<usize>>,
    pub middleware: Vec<Vec<usize>>,
}

#[verifier::external_type_specification]
#[verifier::external_body]
#[verifier::reject_recursive_types(V)]
pub struct ExRadixMap<V>(RadixMap<V>);

/// The entries of a radix map, by key as written.
pub uninterp spec fn radix_entries(m: RadixMap<Node>) -> Map<Seq<u8>, Node>;

/// Whether the radix map accepts a key: it must parse as a path.
pub uninterp spec fn radix_key_ok(k: Seq<u8>) -> bool;

/// Relies on RadixMap::new: a new map has no entries.
#[verifier::external_body]
fn radix_new() -> (r: RadixMap<Node>)
    ensures
        radix_entries(r).dom() == Set::<Seq<u8>>::empty(),
{
    RadixMap::new()
}

/// Relies on RadixMap::raw: the entry stored under exactly this key, with no
/// parameter or glob matching.
#[verifier::external_body]
fn radix_raw<'a>(m: &'a RadixMap<Node>, key: &[u8]) -> (r: Option<&'a Node>)
    ensures
        r is Some <==> radix_entries(*m).contains_key(key@),
        r matches Some(n) ==> *n == radix_entries(*m)[key@],
{
    m.raw(key)
}

/// Relies on RadixMap::insert: whether a key is accepted depends on the key
/// alone (an empty one is refused; a non-empty one without `{`, with `*` at
/// most as its last byte, parses as plain text, `:` parameters and a final
/// `*` glob, and is accepted); an accepted key stores the value, replacing what the same key
/// held; a refused key leaves the entries as they were.
#[verifier::external_body]
fn radix_insert(m: &mut RadixMap<Node>, key: Vec<u8>, node: Node) -> (ok: bool)
    ensures
        ok == radix_key_ok(key@),
        key@.len() == 0 ==> !ok,
        accepted_key(key@) ==> ok,
        ok ==> radix_entries(*final(m)) == radix_entries(*old(m)).insert(key@, node),
        !ok ==> radix_entries(*final(m)) == radix_entries(*old(m)),
{
    m.insert(key, node).is_ok()
}

/// Relies on RadixMap::values: every entry's value is visited, and only those.
#[verifier::external_body]
fn radix_values<'a>(m: &'a RadixMap<Node>) -> (r: Vec<&'a Node>)
    ensures
        forall|i: int| 0 <= i < r@.len() ==> holds_value(radix_entries(*m), *#[trigger] r@[i]),
        forall|k: Seq<u8>|
            #[trigger] radix_entries(*m).contains_key(k) ==> exists|i: int|
                0 <= i < r@.len() && *r@[i] == radix_entries(*m)[k],
{
    m.values().collect()
}

/// Keys that the radix map always accepts: not empty, no `{`, and `*` at
/// most as the last byte.
pub open spec fn accepted_key(b: Seq<u8>) -> bool {
    b.len() > 0 && forall|i: int| 0 <= i < b.len() ==> b[i] != 123u8 && (b[i] == 42u8 ==> i == b.len() - 1)
}

/// Patterns that the route table always accepts: not empty, no `{`, and `*`
/// at most as the last character (so `/files/*` and `/files/:rest*` are).
pub open spec fn accepted_pattern(p: Seq<char>) -> bool {
    p.len() > 0 && forall|i: int| 0 <= i < p.len() ==> p[i] != '{' && (p[i] == '*' ==> i == p.len() - 1)
}

proof fn lemma_high_bit(x: u8)
    by (bit_vector)
    ensures
        (0x80u8 | x) >= 0x80u8,
        (0xC0u8 | x) >= 0x80u8,
        (0xE0u8 | x) >= 0x80u8,
        (0xF0u8 | x) >= 0x80u8,
{
}

proof fn lemma_low_byte(u: u32)
    by (bit_vector)
    requires
        u <= 0x7F,
    ensures
        (u & 0x7F) == u,
{
}

/// The bytes of one character: `*` is the single byte 42, and no other
/// character has a byte 42 or 123 (`{`).
proof fn lemma_scalar_bytes(c: char)
    ensures
        encode_scalar(c as u32).len() >= 1,
        c == '*' ==> encode_scalar(c as u32) == seq![42u8],
        c != '*' && c != '{' ==> forall|i: int|
            0 <= i < encode_scalar(c as u32).len() ==> #[trigger] encode_scalar(c as u32)[i] != 42u8
                && encode_scalar(c as u32)[i] != 123u8,
{
    let u = c as u32;
    char_is_scalar(c);
    if has_width_1_encoding(u) {
        lemma_low_byte(u);
        assert(leading_byte_width_1(u) == u as u8);
        char_u32_cast(c, u);
        if u == 42 {
            char_u32_cast('*', 42u32);
        }
        if u == 123 {
            char_u32_cast('{', 123u32);
        }
    } else if has_width_2_encoding(u) {
        lemma_high_bit(((u >> 6) & 0x1F) as u8);
        lemma_high_bit((u & 0x3F) as u8);
        assert(c != '*' && c != '{');
    } else if has_width_3_encoding(u) {
        lemma_high_bit(((u >> 12) & 0x0F) as u8);
        lemma_high_bit(((u >> 6) & 0x3F) as u8);
        lemma_high_bit((u & 0x3F) as u8);
        assert(c != '*' && c != '{');
    } else {
        lemma_high_bit(((u >> 18) & 0x7) as u8);
        lemma_high_bit(((u >> 12) & 0x3F) as u8);
        lemma_high_bit(((u >> 6) & 0x3F) as u8);
        lemma_high_bit((u & 0x3F) as u8);
        assert(c != '*' && c != '{');
    }
}

/// The UTF-8 bytes of an accepted pattern form an accepted key.
pub proof fn lemma_accepted_encoding(p: Seq<char>)
    requires
        accepted_pattern(p),
    ensures
        accepted_key(encode_utf8(p)),
    decreases p.len(),
{
    let e0 = encode_scalar(p[0] as u32);
    let rest = p.drop_first();
    lemma_scalar_bytes(p[0]);
    let b = encode_utf8(p);
    assert(b == e0 + encode_utf8(rest));
    if p.len() == 1 {
        assert(encode_utf8(rest) == Seq::<u8>::empty());
        assert(b =~= e0);
    } else {
        assert(p[0] != '*');
        assert(accepted_pattern(rest)) by {
            assert forall|i: int| 0 <= i < rest.len() implies rest[i] != '{' && (rest[i] == '*' ==> i
                == rest.len() - 1) by {
                assert(rest[i] == p[i + 1]);
            }
        }
        lemma_accepted_encoding(rest);
        let r = encode_utf8(rest);
        assert forall|j: int| 0 <= j < b.len() implies b[j] != 123u8 && (b[j] == 42u8 ==> j == b.len()
            - 1) by {
            if j < e0.len() {
                assert(b[j] == e0[j]);
            } else {
                assert(b[j] == r[j - e0.len()]);
            }
        }
    }
}

/// `n` is the value of some entry of `t`.
pub open spec fn holds_value(t: Map<Seq<u8>, Node>, n: Node) -> bool {
    exists|k: Seq<u8>| t.contains_key(k) && t[k] == n
}

/// The view of a route lookup's result.
pub open spec fn route_view(r: Option<(usize, Vec<(String, String)>)>) -> Option<(usize, Seq<ParamView>)> {
    match r {
        Some((h, ps)) => Some((h, params_view(ps@))),
        None => None,
    }
}

proof fn lemma_static_from(s: Seq<Seq<char>>, i: int, acc: Seq<ParamView>)
    requires
        0 <= i <= s.len(),
        forall|j: int| 0 <= j < s.len() ==> !is_param(#[trigger] s[j]) && !is_rest(s[j]),
    ensures
        match_from(s, s, i, acc) == Some(acc),
    decreases s.len() - i,
{
    if i < s.len() {
        assert(!is_param(s[i]) && !is_rest(s[i]));
        assert(!is_glob(s[i])) by {
            if is_glob(s[i]) {
                assert(s[i].len() == 1 && s[i].last() == '*');
            }
        }
        lemma_static_from(s, i + 1, acc);
    }
}

/// A pattern without parameters or catch-alls matches only paths with the
/// same segments.
proof fn lemma_static_match_same_segments(q: Seq<Seq<char>>, u: Seq<Seq<char>>, i: int, acc: Seq<ParamView>)
    requires
        0 <= i <= q.len(),
        forall|j: int| 0 <= j < q.len() ==> !is_param(#[trigger] q[j]) && !is_rest(q[j]),
        match_from(q, u, i, acc) is Some,
    ensures
        q.len() == u.len(),
        forall|j: int| i <= j < q.len() ==> q[j] == u[j],
    decreases q.len() - i,
{
    if i < q.len() {
        assert(!is_param(q[i]) && !is_rest(q[i]));
        assert(!is_glob(q[i])) by {
            if is_glob(q[i]) {
                assert(q[i].len() == 1 && q[i].last() == '*');
            }
        }
        lemma_static_match_same_segments(q, u, i + 1, acc);
    }
}

/// A pattern without parameters or catch-alls matches itself as a request
/// path, capturing nothing.
pub proof fn lemma_static_matches_itself(p: Seq<char>)
    requires
        is_static(p),
    ensures
        match_spec(p, p) == Some(Seq::<ParamView>::empty()),
{
    lemma_static_from(segments(p), 0, Seq::empty());
}

/// A node with one slot per method.
pub open spec fn node_wf(n: Node) -> bool {
    n.handlers@.len() == METHOD_COUNT && n.middleware@.len() == METHOD_COUNT
}

impl Node {
    /// A node for `pattern` with nothing registered.
    pub fn new(pattern: &str) -> (r: Node)
        ensures
            node_wf(r),
            r.pattern@ == pattern@,
            forall|i: int| 0 <= i < METHOD_COUNT ==> r.handlers@[i] is None,
            forall|i: int| 0 <= i < METHOD_COUNT ==> r.middleware@[i]@.len() == 0,
    {
        let mut handlers: Vec<Option<usize>> = Vec::new();
        let mut middleware: Vec<Vec<usize>> = Vec::new();
        let mut i: usize = 0;
        while i < METHOD_COUNT
            invariant
                i <= METHOD_COUNT,
                handlers@.len() == i,
                middleware@.len() == i,
                forall|j: int| 0 <= j < i ==> handlers@[j] is None,
                forall|j: int| 0 <= j < i ==> middleware@[j]@.len() == 0,
            decreases METHOD_COUNT - i,
        {
            handlers.push(None);
            middleware.push(Vec::new());
            i = i + 1;
        }
        Node { pattern: String::from_str(pattern), handlers, middleware }
    }

    /// A copy of this node.
    pub fn copy(&self) -> (r: Node)
        ensures
            r.pattern@ == self.pattern@,
            r.handlers@ == self.handlers@,
            r.middleware@.len() == self.middleware@.len(),
            forall|i: int| 0 <= i < r.middleware@.len() ==> r.middleware@[i]@ == self.middleware@[i]@,
    {
        let mut handlers: Vec<Option<usize>> = Vec::new();
        let mut i: usize = 0;
        while i < self.handlers.len()
            invariant
                i <= self.handlers@.len(),
                handlers@ == self.handlers@.take(i as int),
            decreases self.handlers.len() - i,
        {
            handlers.push(self.handlers[i]);
            assert(self.handlers@.take(i + 1) == self.handlers@.take(i as int).push(self.handlers@[i as int]));
            i = i + 1;
        }
        assert(self.handlers@.take(self.handlers@.len() as int) == self.handlers@);
        let mut middleware: Vec<Vec<usize>> = Vec::new();
        let mut j: usize = 0;
        while j < self.middleware.len()
            invariant
                j <= self.middleware@.len(),
                middleware@.len() == j,
                forall|k: int| 0 <= k < j ==> middleware@[k]@ == self.middleware@[k]@,
            decreases self.middleware.len() - j,
        {
            middleware.push(copy_ids(&self.middleware[j]));
            j = j + 1;
        }
        Node { pattern: self.pattern.clone(), handlers, middleware }
    }
}

/// A copy of a list of identifiers.
pub fn copy_ids(v: &Vec<usize>) -> (r: Vec<usize>)
    ensures
        r@ == v@,
{
    let mut out: Vec<usize> = Vec::new();
    let mut i: usize = 0;
    while i < v.len()
        invariant
            i <= v@.len(),
            out@ == v@.take(i as int),
        decreases v.len() - i,
    {
        out.push(v[i]);
        assert(v@.take(i + 1) == v@.take(i as int).push(v@[i as int]));
        i = i + 1;
    }
    assert(v@.take(v@.len() as int) == v@);
    out
}

/// Route table: from pattern to the handlers and middleware registered
/// under it.
pub struct Router {
    router: RadixMap<Node>,
}

impl Router {
    /// The stored entries, by the UTF-8 bytes of their pattern.
    pub closed spec fn table(&self) -> Map<Seq<u8>, Node> {
        radix_entries(self.router)
    }

    /// Every entry is stored under the bytes of its own pattern and has one
    /// slot per method.
    pub open spec fn wf(&self) -> bool {
        forall|k: Seq<u8>|
            #[trigger] self.table().contains_key(k) ==> node_wf(self.table()[k])
                && encode_utf8(self.table()[k].pattern@) == k
    }

    /// Whether something is registered under `p`.
    pub open spec fn has_pattern(&self, p: Seq<char>) -> bool {
        self.table().contains_key(encode_utf8(p))
    }

    /// The handler registered for pattern `p` and method `m`.
    pub open spec fn handler_for(&self, p: Seq<char>, m: Method) -> Option<usize> {
        if self.has_pattern(p) {
            self.table()[encode_utf8(p)].handlers@[method_index(m) as int]
        } else {
            None
        }
    }

    /// The middleware registered for pattern `p` and method `m`, in order of
    /// registration.
    pub open spec fn middleware_for(&self, p: Seq<char>, m: Method) -> Seq<usize> {
        if self.has_pattern(p) {
            self.table()[encode_utf8(p)].middleware@[method_index(m) as int]@
        } else {
            Seq::empty()
        }
    }

    /// Pattern `p` has a handler for `m` and matches `path`.
    pub open spec fn resolves(&self, p: Seq<char>, path: Seq<char>, m: Method) -> bool {
        self.handler_for(p, m) is Some && match_spec(p, path) is Some
    }

    /// What a route lookup for `path` and `m` may return: `None` exactly when
    /// no pattern with a handler for `m` matches; otherwise the handler and
    /// parameters of a matching pattern that no other matching pattern beats
    /// in specificity, and that is static if an equally specific static one
    /// matches.
    pub open spec fn find_post(&self, path: Seq<char>, m: Method, r: Option<(usize, Seq<ParamView>)>) -> bool {
        match r {
            None => forall|p: Seq<char>| !#[trigger] self.resolves(p, path, m),
            Some((h, ps)) => exists|p: Seq<char>|
                #[trigger] self.resolves(p, path, m) && self.handler_for(p, m) == Some(h)
                    && match_spec(p, path) == Some(ps) && (forall|q: Seq<char>|
                    #[trigger] self.resolves(q, path, m) ==> specificity(q) <= specificity(p)) && (
                forall|q: Seq<char>|
                    #[trigger] self.resolves(q, path, m) && specificity(q) == specificity(p) && is_static(q)
                        ==> is_static(p)),
        }
    }

    /// A pattern without parameters or catch-alls that has a handler for `m`
    /// is the route found for a request to that very path, with no
    /// parameters, unless another pattern with the same segments (such as
    /// `/a/` beside `/a`) also has a handler for `m`.
    pub proof fn lemma_static_route_found(
        &self,
        p: Seq<char>,
        m: Method,
        r: Option<(usize, Seq<ParamView>)>,
    )
        requires
            self.wf(),
            is_static(p),
            self.handler_for(p, m) is Some,
            forall|q: Seq<char>|
                q != p && #[trigger] segments(q) == segments(p) ==> self.handler_for(q, m) is None,
            self.find_post(p, m, r),
        ensures
            r == Some((self.handler_for(p, m).unwrap(), Seq::<ParamView>::empty())),
    {
        lemma_static_matches_itself(p);
        assert(self.resolves(p, p, m));
        match r {
            None => {},
            Some((h, ps)) => {
                let w = choose|w: Seq<char>|
                    #[trigger] self.resolves(w, p, m) && self.handler_for(w, m) == Some(h)
                        && match_spec(w, p) == Some(ps) && (forall|q: Seq<char>|
                        #[trigger] self.resolves(q, p, m) ==> specificity(q) <= specificity(w)) && (
                    forall|q: Seq<char>|
                        #[trigger] self.resolves(q, p, m) && specificity(q) == specificity(w)
                            && is_static(q) ==> is_static(w));
                if w != p {
                    lemma_match_specificity(w, p);
                    assert(specificity(p) <= specificity(w));
                    assert(specificity(w) <= specificity(p));
                    assert(is_static(w));
                    lemma_static_match_same_segments(segments(w), segments(p), 0, Seq::empty());
                    assert(segments(w) =~= segments(p));
                }
            },
        }
    }

    /// Middleware that applies to a path whose UTF-8 bytes are `b`, gathered
    /// over the prefixes of `b` shorter than `k`, shortest first.
    pub open spec fn middleware_upto(&self, b: Seq<u8>, m: Method, k: nat) -> Seq<usize>
        decreases k,
    {
        if k == 0 {
            Seq::empty()
        } else {
            let prev = self.middleware_upto(b, m, (k - 1) as nat);
            let key = b.take(k - 1);
            if self.table().contains_key(key) {
                prev + self.table()[key].middleware@[method_index(m) as int]@
            } else {
                prev
            }
        }
    }

    /// All middleware that applies to `path` for `m`: that of every pattern
    /// which is a prefix of the path, shorter patterns first, each pattern's
    /// own list in registration order.
    pub open spec fn applicable_middleware(&self, path: Seq<char>, m: Method) -> Seq<usize> {
        self.middleware_upto(encode_utf8(path), m, encode_utf8(path).len() + 1)
    }

    /// Every middleware identifier that applies to a path is one registered
    /// under some pattern, so a bound on the registered ones bounds them.
    pub proof fn lemma_applicable_below(&self, path: Seq<char>, m: Method, bound: nat)
        requires
            self.wf(),
            forall|p: Seq<char>, j: int|
                0 <= j < self.middleware_for(p, m).len() ==> #[trigger] self.middleware_for(p, m)[j]
                    < bound,
        ensures
            forall|j: int|
                0 <= j < self.applicable_middleware(path, m).len() ==> #[trigger] self.applicable_middleware(
                    path,
                    m,
                )[j] < bound,
    {
        let b = encode_utf8(path);
        self.lemma_upto_below(b, m, b.len() + 1, bound);
    }

    proof fn lemma_upto_below(&self, b: Seq<u8>, m: Method, k: nat, bound: nat)
        requires
            self.wf(),
            forall|p: Seq<char>, j: int|
                0 <= j < self.middleware_for(p, m).len() ==> #[trigger] self.middleware_for(p, m)[j]
                    < bound,
        ensures
            forall|j: int|
                0 <= j < self.middleware_upto(b, m, k).len() ==> #[trigger] self.middleware_upto(b, m, k)[j]
                    < bound,
        decreases k,
    {
        if k > 0 {
            self.lemma_upto_below(b, m, (k - 1) as nat, bound);
            let key = b.take(k - 1);
            if self.table().contains_key(key) {
                let p = self.table()[key].pattern@;
                self.lemma_entry(key);
                let prev = self.middleware_upto(b, m, (k - 1) as nat);
                let list = self.table()[key].middleware@[method_index(m) as int]@;
                assert(list == self.middleware_for(p, m));
                assert(self.middleware_upto(b, m, k) == prev + list);
                assert forall|j: int| 0 <= j < self.middleware_upto(b, m, k).len() implies #[trigger] self.middleware_upto(b, m, k)[j] < bound by {
                    if j >= prev.len() {
                        assert(self.middleware_upto(b, m, k)[j] == list[j - prev.len()]);
                        assert(self.middleware_for(p, m)[j - prev.len()] < bound);
                    } else {
                        assert(self.middleware_upto(b, m, k)[j] == prev[j]);
                    }
                }
            } else {
                assert(self.middleware_upto(b, m, k) == self.middleware_upto(b, m, (k - 1) as nat));
            }
        }
    }

    /// An empty table.
    pub fn new() -> (r: Router)
        ensures
            r.wf(),
            forall|p: Seq<char>| !r.has_pattern(p),
    {
        Router { router: radix_new() }
    }

    /// The node stored under `key`, known to belong to pattern `p`.
    proof fn lemma_entry(&self, key: Seq<u8>)
        requires
            self.wf(),
            self.table().contains_key(key),
        ensures
            self.has_pattern(self.table()[key].pattern@),
            encode_utf8(self.table()[key].pattern@) == key,
            node_wf(self.table()[key]),
    {
    }

    /// Registers `handler` for `method` under `path`, replacing the handler
    /// that was there. A pattern that the table cannot hold (the empty one,
    /// for instance) leaves the table unchanged.
    pub fn insert(&mut self, path: &str, method: Method, handler: usize)
        requires
            old(self).wf(),
        ensures
            final(self).wf(),
            radix_key_ok(encode_utf8(path@)) ==> final(self).handler_for(path@, method) == Some(
                handler,
            ),
            accepted_pattern(path@) ==> radix_key_ok(encode_utf8(path@)),
            accepted_pattern(path@) ==> final(self).handler_for(path@, method) == Some(handler),
            accepted_pattern(path@) ==> final(self).has_pattern(path@),
            !radix_key_ok(encode_utf8(path@)) ==> final(self).table() == old(self).table(),
            forall|p: Seq<char>, m: Method|
                !(p == path@ && m == method) ==> #[trigger] final(self).handler_for(p, m)
                    == old(self).handler_for(p, m),
            forall|p: Seq<char>, m: Method|
                #[trigger] final(self).middleware_for(p, m) == old(self).middleware_for(p, m),
            forall|p: Seq<char>|
                #[trigger] final(self).has_pattern(p) == (old(self).has_pattern(p) || (p == path@
                    && radix_key_ok(encode_utf8(path@)))),
    {
        let key = path.as_bytes_vec();
        let idx = method.index();
        let ghost k = key@;
        proof {
            if accepted_pattern(path@) {
                lemma_accepted_encoding(path@);
            }
        }
        let mut node = match radix_raw(&self.router, key.as_slice()) {
            Some(n) => {
                proof {
                    self.lemma_entry(k);
                }
                n.copy()
            },
            None => Node::new(path),
        };
        node.handlers.set(idx, Some(handler));
        let ghost placed = node;
        let _ = radix_insert(&mut self.router, key, node);
        proof {
            assert forall|p: Seq<char>| encode_utf8(p) == k implies p == path@ by {
                assert(decode_utf8(encode_utf8(p)) == p);
                assert(decode_utf8(encode_utf8(path@)) == path@);
            }
            assert forall|kk: Seq<u8>| #[trigger] self.table().contains_key(kk) implies node_wf(
                self.table()[kk],
            ) && encode_utf8(self.table()[kk].pattern@) == kk by {
                if kk != k {
                    assert(old(self).table().contains_key(kk));
                }
            }
        }
    }

    /// Appends `mw` to the middleware registered for `method` under `path`.
    /// A pattern that the table cannot hold leaves the table unchanged.
    pub fn insert_middleware(&mut self, path: &str, method: Method, mw: usize)
        requires
            old(self).wf(),
        ensures
            final(self).wf(),
            radix_key_ok(encode_utf8(path@)) ==> final(self).middleware_for(path@, method)
                == old(self).middleware_for(path@, method).push(mw),
            accepted_pattern(path@) ==> radix_key_ok(encode_utf8(path@)),
            accepted_pattern(path@) ==> final(self).middleware_for(path@, method) == old(self).middleware_for(
                path@,
                method,
            ).push(mw),
            accepted_pattern(path@) ==> final(self).has_pattern(path@),
            !radix_key_ok(encode_utf8(path@)) ==> final(self).table() == old(self).table(),
            forall|p: Seq<char>, m: Method|
                !(p == path@ && m == method) ==> #[trigger] final(self).middleware_for(p, m)
                    == old(self).middleware_for(p, m),
            forall|p: Seq<char>, m: Method|
                #[trigger] final(self).handler_for(p, m) == old(self).handler_for(p, m),
            forall|p: Seq<char>|
                #[trigger] final(self).has_pattern(p) == (old(self).has_pattern(p) || (p == path@
                    && radix_key_ok(encode_utf8(path@)))),
    {
        let key = path.as_bytes_vec();
        let idx = method.index();
        let ghost k = key@;
        proof {
            if accepted_pattern(path@) {
                lemma_accepted_encoding(path@);
            }
        }
        let mut node = match radix_raw(&self.router, key.as_slice()) {
            Some(n) => {
                proof {
                    self.lemma_entry(k);
                }
                n.copy()
            },
            None => Node::new(path),
        };
        let mut list = copy_ids(&node.middleware[idx]);
        list.push(mw);
        node.middleware.set(idx, list);
        let _ = radix_insert(&mut self.router, key, node);
        proof {
            assert forall|p: Seq<char>| encode_utf8(p) == k implies p == path@ by {
                assert(decode_utf8(encode_utf8(p)) == p);
                assert(decode_utf8(encode_utf8(path@)) == path@);
            }
            assert forall|kk: Seq<u8>| #[trigger] self.table().contains_key(kk) implies node_wf(
                self.table()[kk],
            ) && encode_utf8(self.table()[kk].pattern@) == kk by {
                if kk != k {
                    assert(old(self).table().contains_key(kk));
                }
            }
        }
    }

    /// The middleware that applies to a request for `path` with `method`, in
    /// the order it runs: patterns that are a prefix of the path (as plain
    /// text, not by segments), shorter ones first, and for each pattern its
    /// middleware in registration order.
    pub fn collect_middleware(&self, path: &str, method: Method) -> (r: Vec<usize>)
        requires
            self.wf(),
        ensures
            r@ == self.applicable_middleware(path@, method),
    {
        let bytes = path.as_bytes_vec();
        let ghost b = bytes@;
        let idx = method.index();
        let mut out: Vec<usize> = Vec::new();
        let mut key: Vec<u8> = Vec::new();
        let mut k: usize = 0;
        assert(key@ == b.take(0));
        self.append_middleware(&key, idx, &mut out);
        proof {
            assert(self.middleware_upto(b, method, 0) == Seq::<usize>::empty());
            if self.table().contains_key(b.take(0)) {
                assert(out@ =~= Seq::<usize>::empty() + self.table()[b.take(0)].middleware@[idx as int]@);
            }
        }
        assert(out@ == self.middleware_upto(b, method, 1));
        while k < bytes.len()
            invariant
                self.wf(),
                b == bytes@,
                b == encode_utf8(path@),
                idx == method_index(method),
                k <= b.len(),
                key@ == b.take(k as int),
                out@ == self.middleware_upto(b, method, (k + 1) as nat),
            decreases bytes.len() - k,
        {
            key.push(bytes[k]);
            assert(key@ == b.take(k + 1));
            k = k + 1;
            self.append_middleware(&key, idx, &mut out);
        }
        out
    }

    /// Appends the middleware stored under `key` for the method at `idx`.
    fn append_middleware(&self, key: &Vec<u8>, idx: usize, out: &mut Vec<usize>)
        requires
            self.wf(),
            idx < METHOD_COUNT,
        ensures
            self.table().contains_key(key@) ==> final(out)@ == old(out)@ + self.table()[key@].middleware@[idx as int]@,
            !self.table().contains_key(key@) ==> final(out)@ == old(out)@,
    {
        match radix_raw(&self.router, key.as_slice()) {
            Some(n) => {
                proof {
                    self.lemma_entry(key@);
                }
                let list = &n.middleware[idx];
                let ghost start = out@;
                let mut j: usize = 0;
                while j < list.len()
                    invariant
                        j <= list@.len(),
                        out@ == start + list@.take(j as int),
                    decreases list.len() - j,
                {
                    out.push(list[j]);
                    assert(list@.take(j + 1) == list@.take(j as int).push(list@[j as int]));
                    j = j + 1;
                }
                assert(list@.take(list@.len() as int) == list@);
            },
            None => {},
        }
    }

    /// Matches a request path against a route pattern; see
    /// [`match_path`](crate::path::match_path).
    pub fn match_path(&self, route: &str, uri: &str) -> (r: Option<Vec<(String, String)>>)
        ensures
            match r {
                Some(v) => match_spec(route@, uri@) == Some(params_view(v@)),
                None => match_spec(route@, uri@) is None,
            },
    {
        match_path(route, uri)
    }

    /// The handler for a request with `method` and `path`, with the captured
    /// parameters. Among the patterns that match, one with the highest
    /// specificity is chosen; between equally specific ones the choice is
    /// left open.
    pub fn find(&self, path: &str, method: Method) -> (r: Option<(usize, Vec<(String, String)>)>)
        requires
            self.wf(),
        ensures
            self.find_post(path@, method, route_view(r)),
    {
        let values = radix_values(&self.router);
        let idx = method.index();
        proof {
            assert(self.table() == radix_entries(self.router));
        }
        let mut best: Option<(usize, Vec<(String, String)>, usize, bool)> = None;
        let ghost mut best_p: Seq<char> = Seq::empty();
        let mut i: usize = 0;
        while i < values.len()
            invariant
                self.wf(),
                idx == method_index(method),
                i <= values@.len(),
                forall|j: int| 0 <= j < values@.len() ==> holds_value(self.table(), *#[trigger] values@[j]),
                forall|k: Seq<u8>|
                    #[trigger] self.table().contains_key(k) ==> exists|j: int|
                        0 <= j < values@.len() && *values@[j] == self.table()[k],
                best is None ==> forall|j: int|
                    0 <= j < i ==> !self.resolves(#[trigger] values@[j].pattern@, path@, method),
                best matches Some(b) ==> {
                    &&& self.resolves(best_p, path@, method)
                    &&& self.handler_for(best_p, method) == Some(b.0)
                    &&& match_spec(best_p, path@) == Some(params_view(b.1@))
                    &&& b.2 == specificity(best_p)
                    &&& b.3 == is_static(best_p)
                    &&& forall|j: int|
                        0 <= j < i && self.resolves(#[trigger] values@[j].pattern@, path@, method)
                            ==> specificity(values@[j].pattern@) <= b.2
                    &&& forall|j: int|
                        0 <= j < i && self.resolves(#[trigger] values@[j].pattern@, path@, method)
                            && specificity(values@[j].pattern@) == b.2 && is_static(values@[j].pattern@) ==> b.3
                },
            decreases values.len() - i,
        {
            let n = values[i];
            proof {
                assert(holds_value(self.table(), *values@[i as int]));
                let k = choose|k: Seq<u8>| self.table().contains_key(k) && self.table()[k] == *values@[i as int];
                self.lemma_entry(k);
            }
            let ghost np = n.pattern@;
            match n.handlers[idx] {
                Some(h) => {
                    match match_path(n.pattern.as_str(), path) {
                        Some(params) => {
                            let score = route_specificity(n.pattern.as_str());
                            let fixed = route_is_static(n.pattern.as_str());
                            let better = match &best {
                                None => true,
                                Some(b) => score > b.2 || (score == b.2 && fixed && !b.3),
                            };
                            if better {
                                best = Some((h, params, score, fixed));
                                proof {
                                    best_p = np;
                                }
                            }
                        },
                        None => {},
                    }
                },
                None => {},
            }
            i = i + 1;
        }
        proof {
            assert forall|q: Seq<char>| #[trigger] self.resolves(q, path@, method) implies exists|j: int|
                0 <= j < values@.len() && values@[j].pattern@ == q by {
                let k = encode_utf8(q);
                assert(self.table().contains_key(k));
                let j = choose|j: int| 0 <= j < values@.len() && *values@[j] == self.table()[k];
                self.lemma_entry(k);
                assert(decode_utf8(encode_utf8(q)) == q);
                assert(decode_utf8(encode_utf8(values@[j].pattern@)) == values@[j].pattern@);
            }
        }
        let r = match best {
            None => None,
            Some((h, ps, _, _)) => Some((h, ps)),
        };
        proof {
            if let Some(rv) = route_view(r) {
                assert(self.resolves(best_p, path@, method));
            }
        }
        r
    }
}

} // verus!
