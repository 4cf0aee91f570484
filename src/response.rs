use vstd::prelude::*;
use crate::http::{status_number, StatusCode};
use base64::Engine;
use crate::cookies::{opt_view, set_cookie_spec, set_cookie_value};

verus! {

/// A header: its name and its value.
pub type HeaderView = (Seq<char>, Seq<char>);

/// The view of a header list.
pub open spec fn headers_view(v: Seq<(String, String)>) -> Seq<HeaderView> {
    v.map_values(|h: (String, String)| (h.0@, h.1@))
}

/// A character code with ASCII upper case letters folded to lower case.
pub open spec fn lower_code(u: u32) -> u32 {
    if 65 <= u <= 90 {
        (u + 32) as u32
    } else {
        u
    }
}

/// Header names are the same when they differ at most in ASCII case.
pub open spec fn same_name(a: Seq<char>, b: Seq<char>) -> bool {
    a.len() == b.len() && forall|i: int| 0 <= i < a.len() ==> lower_code(a[i] as u32) == lower_code(#[trigger] b[i] as u32)
}

/// Whether two header names are the same, ignoring ASCII case.
pub fn names_eq(a: &str, b: &str) -> (r: bool)
    ensures
        r == same_name(a@, b@),
{
    let n = a.unicode_len();
    if n != b.unicode_len() {
        return false;
    }
    let mut i: usize = 0;
    while i < n
        invariant
            n == a@.len(),
            n == b@.len(),
            i <= n,
            forall|j: int| 0 <= j < i ==> lower_code(a@[j] as u32) == lower_code(#[trigger] b@[j] as u32),
        decreases n - i,
    {
        let x = a.get_char(i) as u32;
        let y = b.get_char(i) as u32;
        let lx = if 65 <= x && x <= 90 { x + 32 } else { x };
        let ly = if 65 <= y && y <= 90 { y + 32 } else { y };
        if lx != ly {
            return false;
        }
        i = i + 1;
    }
    true
}

/// The headers of `hs` whose name is not `name` (ignoring ASCII case), in
/// their order.
pub open spec fn without_name(hs: Seq<HeaderView>, name: Seq<char>) -> Seq<HeaderView>
    decreases hs.len(),
{
    if hs.len() == 0 {
        Seq::empty()
    } else {
        let prev = without_name(hs.drop_last(), name);
        if same_name(hs.last().0, name) {
            prev
        } else {
            prev.push(hs.last())
        }
    }
}

/// The value of the first header of `hs` named `name`, ignoring ASCII case.
pub open spec fn first_value(hs: Seq<HeaderView>, name: Seq<char>) -> Option<Seq<char>>
    decreases hs.len(),
{
    if hs.len() == 0 {
        None
    } else if same_name(hs[0].0, name) {
        Some(hs[0].1)
    } else {
        first_value(hs.drop_first(), name)
    }
}

/// The standard base64 alphabet.
pub open spec fn base64_alphabet() -> Seq<char> {
    seq!['A', 'B', 'C', 'D', 'E', 'F', 'G', 'H', 'I', 'J', 'K', 'L', 'M', 'N', 'O', 'P', 'Q', 'R', 'S', 'T', 'U', 'V', 'W', 'X', 'Y', 'Z', 'a', 'b', 'c', 'd', 'e', 'f', 'g', 'h', 'i', 'j', 'k', 'l', 'm', 'n', 'o', 'p', 'q', 'r', 's', 't', 'u', 'v', 'w', 'x', 'y', 'z', '0', '1', '2', '3', '4', '5', '6', '7', '8', '9', '+', '/']
}

/// The base64 character of the low six bits of `v`.
pub open spec fn b64(v: u8) -> char {
    base64_alphabet()[(v & 63u8) as int]
}

/// Standard base64 text, with `=` padding, of some bytes: each group of
/// three bytes gives four characters, a last group of one or two bytes
/// gives two or three and is padded to four.
pub open spec fn base64_spec(b: Seq<u8>) -> Seq<char>
    decreases b.len(),
{
    if b.len() == 0 {
        Seq::empty()
    } else if b.len() == 1 {
        seq![b64(b[0] >> 2u8), b64((b[0] & 3u8) << 4u8), '=', '=']
    } else if b.len() == 2 {
        seq![b64(b[0] >> 2u8), b64(((b[0] & 3u8) << 4u8) | (b[1] >> 4u8)), b64((b[1] & 15u8) << 2u8), '=']
    } else {
        seq![
            b64(b[0] >> 2u8),
            b64(((b[0] & 3u8) << 4u8) | (b[1] >> 4u8)),
            b64(((b[1] & 15u8) << 2u8) | (b[2] >> 6u8)),
            b64(b[2] & 63u8),
        ] + base64_spec(b.subrange(3, b.len() as int))
    }
}

/// Relies on base64's standard engine: `encode` gives the padded standard
/// alphabet text.
#[verifier::external_body]
fn base64_text(b: &[u8]) -> (r: String)
    ensures
        r@ == base64_spec(b@),
{
    base64::engine::general_purpose::STANDARD.encode(b)
}

/// The response being built for one request: status, headers, body, and the
/// error flag that stops the middleware pipeline.
pub struct ResponseWriter {
    pub body: String,
    pub headers: Vec<(String, String)>,
    pub status: StatusCode,
    pub has_error: bool,
}

impl ResponseWriter {
    /// An empty `200 OK` response without error.
    pub fn new() -> (r: ResponseWriter)
        ensures
            r.body@.len() == 0,
            r.headers@.len() == 0,
            r.status == StatusCode::OK,
            !r.has_error,
    {
        ResponseWriter { body: String::new(), headers: Vec::new(), status: StatusCode::OK, has_error: false }
    }

    /// Sets the status.
    pub fn status(&mut self, status: StatusCode) -> (r: &mut Self)
        ensures
            r.status == status,
            r.body == old(self).body,
            r.headers == old(self).headers,
            r.has_error == old(self).has_error,
            *final(self) == *final(r),
    {
        self.status = status;
        self
    }

    /// Sets header `key` to `value`, replacing the headers of that name in
    /// any ASCII case.
    pub fn set_header(&mut self, key: &str, value: &str) -> (r: &mut Self)
        ensures
            headers_view(r.headers@) == without_name(headers_view(old(self).headers@), key@).push(
                (key@, value@),
            ),
            r.status == old(self).status,
            r.body == old(self).body,
            r.has_error == old(self).has_error,
            *final(self) == *final(r),
    {
        self.strip_header(key);
        self.headers.push((String::from_str(key), String::from_str(value)));
        proof {
            assert(headers_view(self.headers@) =~= without_name(
                headers_view(old(self).headers@),
                key@,
            ).push((key@, value@)));
        }
        self
    }

    /// Adds a header after the others, keeping those of the same name.
    pub fn append_header(&mut self, key: &str, value: &str)
        ensures
            headers_view(final(self).headers@) == headers_view(old(self).headers@).push((key@, value@)),
            final(self).status == old(self).status,
            final(self).body == old(self).body,
            final(self).has_error == old(self).has_error,
    {
        self.headers.push((String::from_str(key), String::from_str(value)));
        proof {
            assert(headers_view(self.headers@) =~= headers_view(old(self).headers@).push(
                (key@, value@),
            ));
        }
    }

    /// The value of the first header named `key`.
    pub fn get_header(&self, key: &str) -> (r: Option<String>)
        ensures
            match r {
                Some(v) => first_value(headers_view(self.headers@), key@) == Some(v@),
                None => first_value(headers_view(self.headers@), key@) is None,
            },
    {
        let ghost hs = headers_view(self.headers@);
        let mut i: usize = 0;
        assert(hs.subrange(0, hs.len() as int) =~= hs);
        while i < self.headers.len()
            invariant
                hs == headers_view(self.headers@),
                i <= self.headers@.len(),
                first_value(hs.subrange(i as int, hs.len() as int), key@) == first_value(hs, key@),
            decreases self.headers.len() - i,
        {
            let ghost rest = hs.subrange(i as int, hs.len() as int);
            assert(rest[0] == hs[i as int]);
            assert(rest.drop_first() =~= hs.subrange(i + 1, hs.len() as int));
            if names_eq(self.headers[i].0.as_str(), key) {
                return Some(self.headers[i].1.clone());
            }
            i = i + 1;
        }
        assert(hs.subrange(i as int, hs.len() as int).len() == 0);
        None
    }

    /// Removes every header named `key`.
    pub fn strip_header(&mut self, key: &str)
        ensures
            headers_view(final(self).headers@) == without_name(headers_view(old(self).headers@), key@),
            final(self).status == old(self).status,
            final(self).body == old(self).body,
            final(self).has_error == old(self).has_error,
    {
        let ghost hs = headers_view(self.headers@);
        let mut kept: Vec<(String, String)> = Vec::new();
        let mut i: usize = 0;
        assert(hs.take(0) =~= Seq::<HeaderView>::empty());
        while i < self.headers.len()
            invariant
                hs == headers_view(self.headers@),
                self.headers == old(self).headers,
                i <= self.headers@.len(),
                headers_view(kept@) == without_name(hs.take(i as int), key@),
            decreases self.headers.len() - i,
        {
            let ghost next = hs.take(i + 1);
            assert(next.drop_last() =~= hs.take(i as int));
            assert(next.last() == hs[i as int]);
            if !names_eq(self.headers[i].0.as_str(), key) {
                let ghost before = kept@;
                kept.push((self.headers[i].0.clone(), self.headers[i].1.clone()));
                assert(headers_view(kept@) =~= headers_view(before).push(hs[i as int]));
            }
            i = i + 1;
        }
        assert(hs.take(hs.len() as int) =~= hs);
        self.headers = kept;
    }

    /// Sets the body.
    pub fn send(&mut self, body: &str) -> (r: &mut Self)
        ensures
            r.body@ == body@,
            r.status == old(self).status,
            r.headers == old(self).headers,
            r.has_error == old(self).has_error,
            *final(self) == *final(r),
    {
        self.body = String::from_str(body);
        self
    }

    /// Sets an HTML body and its content type.
    pub fn html(&mut self, html: &str) -> (r: &mut Self)
        ensures
            r.body@ == html@,
            headers_view(r.headers@) == without_name(
                headers_view(old(self).headers@),
                "Content-Type"@,
            ).push(("Content-Type"@, "text/html; charset=utf-8"@)),
            r.status == old(self).status,
            r.has_error == old(self).has_error,
            *final(self) == *final(r),
    {
        self.set_header("Content-Type", "text/html; charset=utf-8");
        self.body = String::from_str(html);
        self
    }

    /// Sets a binary body, sent as base64 text, and its content type.
    pub fn bytes(&mut self, bytes: &[u8]) -> (r: &mut Self)
        ensures
            r.body@ == base64_spec(bytes@),
            headers_view(r.headers@) == without_name(
                headers_view(old(self).headers@),
                "Content-Type"@,
            ).push(("Content-Type"@, "application/octet-stream"@)),
            r.status == old(self).status,
            r.has_error == old(self).has_error,
            *final(self) == *final(r),
    {
        self.body = base64_text(bytes);
        self.set_header("Content-Type", "application/octet-stream");
        self
    }

    /// Adds a `Set-Cookie` header; see [`set_cookie_value`].
    pub fn cookie(
        &mut self,
        name: &str,
        value: &str,
        max_age: Option<i64>,
        path: Option<&str>,
        domain: Option<&str>,
        secure: bool,
        http_only: bool,
        same_site: Option<&str>,
    ) -> (r: &mut Self)
        ensures
            headers_view(r.headers@) == headers_view(old(self).headers@).push(
                (
                    "Set-Cookie"@,
                    set_cookie_spec(name@, value@, max_age, opt_view(path), opt_view(domain), secure, http_only, opt_view(same_site)),
                ),
            ),
            r.status == old(self).status,
            r.body == old(self).body,
            r.has_error == old(self).has_error,
            *final(self) == *final(r),
    {
        let text = set_cookie_value(name, value, max_age, path, domain, secure, http_only, same_site);
        self.append_header("Set-Cookie", text.as_str());
        self
    }

    /// The numeric code of a status.
    pub fn get_code(&self, code: StatusCode) -> (r: u16)
        ensures
            r == status_number(code),
    {
        code.code()
    }

    /// Marks the response as failed, with a status and a message as body.
    pub fn error(&mut self, status: StatusCode, msg: &str) -> (r: &mut Self)
        ensures
            r.status == status,
            r.body@ == msg@,
            r.has_error,
            r.headers == old(self).headers,
            *final(self) == *final(r),
    {
        self.status = status;
        self.body = String::from_str(msg);
        self.has_error = true;
        self
    }

    /// Whether the response was marked as failed.
    pub fn has_error(&self) -> (r: bool)
        ensures
            r == self.has_error,
    {
        self.has_error
    }
}

/// Compares a string with a string slice.
pub fn str_eq_string(a: &String, b: &str) -> (r: bool)
    ensures
        r == (a@ == b@),
{
    crate::types::str_eq(a.as_str(), b)
}

} // verus!
