use vstd::prelude::*;
use crate::errors::decimal_spec;
use crate::types::str_eq;

verus! {

/// The `SameSite` policy of a cookie.
#[derive(Clone, Copy, Debug, PartialEq, Eq, Structural)]
pub enum SameSitePolicy {
    Lax,
    Strict,
    /// Sent on cross-site requests too; such a cookie must be secure.
    Unrestricted,
}

/// The lowercase form of a text, as `str::to_lowercase` gives it.
pub uninterp spec fn lower_of(s: Seq<char>) -> Seq<char>;

/// Relies on str::to_lowercase: the result depends on the characters alone,
/// and the empty text stays empty.
#[verifier::external_body]
fn lowercase(s: &str) -> (r: String)
    ensures
        r@ == lower_of(s@),
        s@.len() == 0 ==> r@.len() == 0,
{
    s.to_lowercase()
}

/// The policy that a lowercase `SameSite` setting names, if any.
pub open spec fn same_site_policy(lower: Seq<char>) -> Option<SameSitePolicy> {
    if lower == "lax"@ {
        Some(SameSitePolicy::Lax)
    } else if lower == "strict"@ {
        Some(SameSitePolicy::Strict)
    } else if lower == "none"@ {
        Some(SameSitePolicy::Unrestricted)
    } else {
        None
    }
}

/// The policy named by an already lowercased setting.
pub fn same_site_from_lower(lower: &str) -> (r: Option<SameSitePolicy>)
    ensures
        r == same_site_policy(lower@),
{
    if str_eq(lower, "lax") {
        Some(SameSitePolicy::Lax)
    } else if str_eq(lower, "strict") {
        Some(SameSitePolicy::Strict)
    } else if str_eq(lower, "none") {
        Some(SameSitePolicy::Unrestricted)
    } else {
        None
    }
}

/// Attributes of a cookie to set, apart from its name, value, domain and
/// age.
pub struct CookieAttrs {
    pub path: String,
    pub secure: bool,
    pub http_only: bool,
    pub same_site: Option<SameSitePolicy>,
}

/// The attributes of a cookie: the path defaults to `/`; the `SameSite`
/// setting is read without regard to case, and an unknown one is ignored; a
/// cookie sent cross-site is always secure.
pub fn cookie_attrs(path: Option<&str>, secure: bool, http_only: bool, same_site: Option<&str>) -> (r: CookieAttrs)
    ensures
        r.path@ == (match path {
            Some(p) => p@,
            None => "/"@,
        }),
        r.same_site == (match same_site {
            Some(s) => same_site_policy(lower_of(s@)),
            None => None,
        }),
        r.secure == (secure || r.same_site == Some(SameSitePolicy::Unrestricted)),
        r.http_only == http_only,
{
    let p = match path {
        Some(p) => String::from_str(p),
        None => String::from_str("/"),
    };
    let policy = match same_site {
        Some(s) => {
            let lower = lowercase(s);
            same_site_from_lower(lower.as_str())
        },
        None => None,
    };
    let forced = match policy {
        Some(SameSitePolicy::Unrestricted) => true,
        _ => false,
    };
    CookieAttrs { path: p, secure: secure || forced, http_only, same_site: policy }
}

/// Decimal notation of a whole number, with `-` when negative.
pub open spec fn int_decimal(n: int) -> Seq<char> {
    if n < 0 {
        seq!['-'] + decimal_spec((-n) as nat)
    } else {
        decimal_spec(n as nat)
    }
}

/// A domain without one leading `.`.
pub open spec fn strip_dot(d: Seq<char>) -> Seq<char> {
    if d.len() > 0 && d[0] == '.' {
        d.drop_first()
    } else {
        d
    }
}

/// The `Set-Cookie` value that the cookie crate writes for a cookie: `name=value`,
/// then `HttpOnly`, `SameSite`, `Secure`, `Path`, `Domain` and `Max-Age`
/// in that order, each present only when set, joined by `; `.
pub open spec fn set_cookie_text_of(
    name: Seq<char>,
    value: Seq<char>,
    path: Seq<char>,
    secure: bool,
    http_only: bool,
    same_site: Option<SameSitePolicy>,
    domain: Option<Seq<char>>,
    max_age: Option<i64>,
) -> Seq<char> {
    name + "="@ + value + (if http_only {
        "; HttpOnly"@
    } else {
        Seq::empty()
    }) + (match same_site {
        Some(SameSitePolicy::Lax) => "; SameSite=Lax"@,
        Some(SameSitePolicy::Strict) => "; SameSite=Strict"@,
        Some(SameSitePolicy::Unrestricted) => "; SameSite=None"@,
        None => Seq::empty(),
    }) + (if secure {
        "; Secure"@
    } else {
        Seq::empty()
    }) + "; Path="@ + path + (match domain {
        Some(d) => "; Domain="@ + strip_dot(d),
        None => Seq::empty(),
    }) + (match max_age {
        Some(n) => "; Max-Age="@ + int_decimal(n as int),
        None => Seq::empty(),
    })
}

/// The view of an optional text.
pub open spec fn opt_view(o: Option<&str>) -> Option<Seq<char>> {
    match o {
        Some(s) => Some(s@),
        None => None,
    }
}

/// Relies on cookie::CookieBuilder and its `Display`: the `Set-Cookie` text
/// of a cookie with these attributes, as `set_cookie_text_of` states it (the
/// secure flag is always set explicitly, and `Max-Age` is the whole seconds
/// given).
#[verifier::external_body]
fn set_cookie_text(name: &str, value: &str, attrs: &CookieAttrs, domain: Option<&str>, max_age: Option<i64>) -> (r: String)
    ensures
        r@ == set_cookie_text_of(name@, value@, attrs.path@, attrs.secure, attrs.http_only, attrs.same_site, opt_view(domain), max_age),
{
    let mut b = cookie::Cookie::build((name, value)).path(attrs.path.clone()).secure(attrs.secure).http_only(attrs.http_only);
    if let Some(d) = domain {
        b = b.domain(d);
    }
    if let Some(age) = max_age {
        b = b.max_age(time::Duration::seconds(age));
    }
    match attrs.same_site {
        Some(SameSitePolicy::Lax) => b = b.same_site(cookie::SameSite::Lax),
        Some(SameSitePolicy::Strict) => b = b.same_site(cookie::SameSite::Strict),
        Some(SameSitePolicy::Unrestricted) => b = b.same_site(cookie::SameSite::None),
        None => {},
    }
    b.to_string()
}

/// The policy a `SameSite` setting names, read without regard to case.
pub open spec fn policy_of(same_site: Option<Seq<char>>) -> Option<SameSitePolicy> {
    match same_site {
        Some(s) => same_site_policy(lower_of(s)),
        None => None,
    }
}

/// The `Set-Cookie` value for a cookie with the attributes of
/// [`cookie_attrs`].
pub open spec fn set_cookie_spec(
    name: Seq<char>,
    value: Seq<char>,
    max_age: Option<i64>,
    path: Option<Seq<char>>,
    domain: Option<Seq<char>>,
    secure: bool,
    http_only: bool,
    same_site: Option<Seq<char>>,
) -> Seq<char> {
    let policy = policy_of(same_site);
    set_cookie_text_of(
        name,
        value,
        match path {
            Some(p) => p,
            None => "/"@,
        },
        secure || policy == Some(SameSitePolicy::Unrestricted),
        http_only,
        policy,
        domain,
        max_age,
    )
}

/// The `Set-Cookie` value for a cookie: its attributes are those of
/// [`cookie_attrs`], written by the cookie crate.
pub fn set_cookie_value(
    name: &str,
    value: &str,
    max_age: Option<i64>,
    path: Option<&str>,
    domain: Option<&str>,
    secure: bool,
    http_only: bool,
    same_site: Option<&str>,
) -> (r: String)
    ensures
        r@ == set_cookie_spec(name@, value@, max_age, opt_view(path), opt_view(domain), secure, http_only, opt_view(same_site)),
{
    let attrs = cookie_attrs(path, secure, http_only, same_site);
    set_cookie_text(name, value, &attrs, domain, max_age)
}

} // verus!
