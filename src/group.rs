use vstd::prelude::*;
use vstd::utf8::*;
use crate::router::{accepted_pattern, radix_key_ok};
use crate::server::App;
use crate::types::Method;

verus! {

/// Index just past the last character of `s[..j]` that is not a `/`.
pub open spec fn slash_trim_end(s: Seq<char>, j: int) -> int
    decreases j,
{
    if 0 < j <= s.len() && s[j - 1] == '/' {
        slash_trim_end(s, j - 1)
    } else {
        j
    }
}

/// Index of the first character of `s[i..]` that is not a `/`.
pub open spec fn slash_trim_start(s: Seq<char>, i: int) -> int
    decreases s.len() - i,
{
    if 0 <= i < s.len() && s[i] == '/' {
        slash_trim_start(s, i + 1)
    } else {
        i
    }
}

/// The prefix of a nested group: the parent's prefix without trailing `/`,
/// one `/`, and the child path without leading `/`.
pub open spec fn nested_prefix(base: Seq<char>, child: Seq<char>) -> Seq<char> {
    base.subrange(0, slash_trim_end(base, base.len() as int)) + seq!['/'] + child.subrange(
        slash_trim_start(child, 0),
        child.len() as int,
    )
}

proof fn lemma_trim_end_bounds(s: Seq<char>, j: int)
    requires
        0 <= j <= s.len(),
    ensures
        0 <= slash_trim_end(s, j) <= j,
    decreases j,
{
    if 0 < j && s[j - 1] == '/' {
        lemma_trim_end_bounds(s, j - 1);
    }
}

proof fn lemma_trim_start_bounds(s: Seq<char>, i: int)
    requires
        0 <= i <= s.len(),
    ensures
        i <= slash_trim_start(s, i) <= s.len(),
    decreases s.len() - i,
{
    if i < s.len() && s[i] == '/' {
        lemma_trim_start_bounds(s, i + 1);
    }
}

/// Joins a group prefix and a child path; see [`nested_prefix`].
pub fn join_prefix(base: &str, child: &str) -> (r: String)
    ensures
        r@ == nested_prefix(base@, child@),
{
    let bn = base.unicode_len();
    let mut j: usize = bn;
    while j > 0 && base.get_char(j - 1) == '/'
        invariant
            j <= bn,
            bn == base@.len(),
            slash_trim_end(base@, j as int) == slash_trim_end(base@, bn as int),
        decreases j,
    {
        j = j - 1;
    }
    let cn = child.unicode_len();
    let mut i: usize = 0;
    while i < cn && child.get_char(i) == '/'
        invariant
            i <= cn,
            cn == child@.len(),
            slash_trim_start(child@, i as int) == slash_trim_start(child@, 0),
        decreases cn - i,
    {
        i = i + 1;
    }
    proof {
        lemma_trim_end_bounds(base@, bn as int);
        lemma_trim_start_bounds(child@, 0);
        reveal_strlit("/");
    }
    let mut out = String::from_str(base.substring_char(0, j));
    out.append("/");
    out.append(child.substring_char(i, cn));
    out
}

/// Registers routes and middleware of an application under a common path
/// prefix. It lives only while the application is being set up.
pub struct Group<'a, H, M, E> {
    pub prefix: String,
    pub app: &'a mut App<H, M, E>,
}

impl<H, M, E> App<H, M, E> {
    /// A group whose registrations all go under `path`.
    pub fn group<'a>(&'a mut self, path: &str) -> (r: Group<'a, H, M, E>)
        ensures
            r.prefix@ == path@,
            *r.app == *old(self),
            *final(self) == *final(r.app),
    {
        Group { prefix: String::from_str(path), app: self }
    }
}

impl<'a, H, M, E> Group<'a, H, M, E> {
    /// Registers a handler for `method` under the prefix followed by `path`.
    fn add(&mut self, method: Method, path: &str, handler: H)
        requires
            old(self).app.wf(),
        ensures
            final(self).app.wf(),
            final(self).prefix == old(self).prefix,
            (radix_key_ok(encode_utf8(old(self).prefix@ + path@)) || accepted_pattern(old(self).prefix@ + path@)) ==> final(self).app.handler_of(
                old(self).prefix@ + path@,
                method,
            ) == Some(handler),
            forall|p: Seq<char>, m: Method|
                !(p == old(self).prefix@ + path@ && m == method) ==> #[trigger] final(self).app.handler_of(p, m)
                    == old(self).app.handler_of(p, m),
            forall|p: Seq<char>, m: Method|
                #[trigger] final(self).app.middleware_of(p, m) == old(self).app.middleware_of(p, m),
            final(self).app.error_handler_view() == old(self).app.error_handler_view(),
            final(self).app.limits_view() == old(self).app.limits_view(),
    {
        let mut full = self.prefix.clone();
        full.append(path);
        self.app.add_route(method, full.as_str(), handler);
    }

    /// Registers a handler for `GET` requests under the prefix.
    pub fn get(&mut self, path: &str, handler: H)
        requires
            old(self).app.wf(),
        ensures
            final(self).app.wf(),
            final(self).prefix == old(self).prefix,
            (radix_key_ok(encode_utf8(old(self).prefix@ + path@)) || accepted_pattern(old(self).prefix@ + path@)) ==> final(self).app.handler_of(
                old(self).prefix@ + path@,
                Method::GET,
            ) == Some(handler),
            forall|p: Seq<char>, m: Method|
                !(p == old(self).prefix@ + path@ && m == Method::GET) ==> #[trigger] final(self).app.handler_of(p, m)
                    == old(self).app.handler_of(p, m),
            forall|p: Seq<char>, m: Method|
                #[trigger] final(self).app.middleware_of(p, m) == old(self).app.middleware_of(p, m),
            final(self).app.error_handler_view() == old(self).app.error_handler_view(),
            final(self).app.limits_view() == old(self).app.limits_view(),
    {
        self.add(Method::GET, path, handler);
    }

    /// Registers a handler for `POST` requests under the prefix.
    pub fn post(&mut self, path: &str, handler: H)
        requires
            old(self).app.wf(),
        ensures
            final(self).app.wf(),
            final(self).prefix == old(self).prefix,
            (radix_key_ok(encode_utf8(old(self).prefix@ + path@)) || accepted_pattern(old(self).prefix@ + path@)) ==> final(self).app.handler_of(
                old(self).prefix@ + path@,
                Method::POST,
            ) == Some(handler),
            forall|p: Seq<char>, m: Method|
                !(p == old(self).prefix@ + path@ && m == Method::POST) ==> #[trigger] final(self).app.handler_of(p, m)
                    == old(self).app.handler_of(p, m),
            forall|p: Seq<char>, m: Method|
                #[trigger] final(self).app.middleware_of(p, m) == old(self).app.middleware_of(p, m),
            final(self).app.error_handler_view() == old(self).app.error_handler_view(),
            final(self).app.limits_view() == old(self).app.limits_view(),
    {
        self.add(Method::POST, path, handler);
    }

    /// Registers a handler for `PUT` requests under the prefix.
    pub fn put(&mut self, path: &str, handler: H)
        requires
            old(self).app.wf(),
        ensures
            final(self).app.wf(),
            final(self).prefix == old(self).prefix,
            (radix_key_ok(encode_utf8(old(self).prefix@ + path@)) || accepted_pattern(old(self).prefix@ + path@)) ==> final(self).app.handler_of(
                old(self).prefix@ + path@,
                Method::PUT,
            ) == Some(handler),
            forall|p: Seq<char>, m: Method|
                !(p == old(self).prefix@ + path@ && m == Method::PUT) ==> #[trigger] final(self).app.handler_of(p, m)
                    == old(self).app.handler_of(p, m),
            forall|p: Seq<char>, m: Method|
                #[trigger] final(self).app.middleware_of(p, m) == old(self).app.middleware_of(p, m),
            final(self).app.error_handler_view() == old(self).app.error_handler_view(),
            final(self).app.limits_view() == old(self).app.limits_view(),
    {
        self.add(Method::PUT, path, handler);
    }

    /// Registers a handler for `PATCH` requests under the prefix.
    pub fn patch(&mut self, path: &str, handler: H)
        requires
            old(self).app.wf(),
        ensures
            final(self).app.wf(),
            final(self).prefix == old(self).prefix,
            (radix_key_ok(encode_utf8(old(self).prefix@ + path@)) || accepted_pattern(old(self).prefix@ + path@)) ==> final(self).app.handler_of(
                old(self).prefix@ + path@,
                Method::PATCH,
            ) == Some(handler),
            forall|p: Seq<char>, m: Method|
                !(p == old(self).prefix@ + path@ && m == Method::PATCH) ==> #[trigger] final(self).app.handler_of(p, m)
                    == old(self).app.handler_of(p, m),
            forall|p: Seq<char>, m: Method|
                #[trigger] final(self).app.middleware_of(p, m) == old(self).app.middleware_of(p, m),
            final(self).app.error_handler_view() == old(self).app.error_handler_view(),
            final(self).app.limits_view() == old(self).app.limits_view(),
    {
        self.add(Method::PATCH, path, handler);
    }

    /// Registers a handler for `DELETE` requests under the prefix.
    pub fn delete(&mut self, path: &str, handler: H)
        requires
            old(self).app.wf(),
        ensures
            final(self).app.wf(),
            final(self).prefix == old(self).prefix,
            (radix_key_ok(encode_utf8(old(self).prefix@ + path@)) || accepted_pattern(old(self).prefix@ + path@)) ==> final(self).app.handler_of(
                old(self).prefix@ + path@,
                Method::DELETE,
            ) == Some(handler),
            forall|p: Seq<char>, m: Method|
                !(p == old(self).prefix@ + path@ && m == Method::DELETE) ==> #[trigger] final(self).app.handler_of(p, m)
                    == old(self).app.handler_of(p, m),
            forall|p: Seq<char>, m: Method|
                #[trigger] final(self).app.middleware_of(p, m) == old(self).app.middleware_of(p, m),
            final(self).app.error_handler_view() == old(self).app.error_handler_view(),
            final(self).app.limits_view() == old(self).app.limits_view(),
    {
        self.add(Method::DELETE, path, handler);
    }

    /// Registers middleware under the prefix followed by `path`, for one
    /// method or, when `method` is `None`, for all of them.
    pub fn middleware(&mut self, path: &str, method: Option<Method>, mw: M)
        requires
            old(self).app.wf(),
        ensures
            final(self).app.wf(),
            final(self).prefix == old(self).prefix,
            forall|m: Method|
                (radix_key_ok(encode_utf8(old(self).prefix@ + path@)) || accepted_pattern(old(self).prefix@ + path@)) && (method is None || method == Some(m))
                    ==> #[trigger] final(self).app.middleware_of(old(self).prefix@ + path@, m)
                    == old(self).app.middleware_of(old(self).prefix@ + path@, m).push(mw),
            forall|p: Seq<char>, m: Method|
                !(p == old(self).prefix@ + path@ && (method is None || method == Some(m))) ==> #[trigger] final(self).app.middleware_of(p, m)
                    == old(self).app.middleware_of(p, m),
            forall|p: Seq<char>, m: Method|
                #[trigger] final(self).app.handler_of(p, m) == old(self).app.handler_of(p, m),
            final(self).app.error_handler_view() == old(self).app.error_handler_view(),
            final(self).app.limits_view() == old(self).app.limits_view(),
    {
        let mut full = self.prefix.clone();
        full.append(path);
        self.app.middleware(full.as_str(), method, mw);
    }

    /// A nested group: see [`nested_prefix`] for how the prefixes combine.
    pub fn group(&'a mut self, path: &str) -> (r: Group<'a, H, M, E>)
        ensures
            r.prefix@ == nested_prefix(old(self).prefix@, path@),
            *r.app == *old(self).app,
    {
        let prefix = join_prefix(self.prefix.as_str(), path);
        Group { prefix, app: self.app }
    }
}

} // verus!
