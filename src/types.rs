use vstd::prelude::*;

verus! {

/// The request methods that routing knows about.
#[derive(Clone, Copy, Debug, PartialEq, Eq, Hash, Structural)]
pub enum Method {
    GET,
    POST,
    PUT,
    PATCH,
    DELETE,
    OPTIONS,
    HEAD,
    TRACE,
}

/// Number of methods in the closed set.
pub const METHOD_COUNT: usize = 8;

/// Position of a method in the closed set, in declaration order.
pub open spec fn method_index(m: Method) -> nat {
    match m {
        Method::GET => 0,
        Method::POST => 1,
        Method::PUT => 2,
        Method::PATCH => 3,
        Method::DELETE => 4,
        Method::OPTIONS => 5,
        Method::HEAD => 6,
        Method::TRACE => 7,
    }
}

/// The wire name of each method.
pub open spec fn method_name(m: Method) -> Seq<char> {
    match m {
        Method::GET => seq!['G', 'E', 'T'],
        Method::POST => seq!['P', 'O', 'S', 'T'],
        Method::PUT => seq!['P', 'U', 'T'],
        Method::PATCH => seq!['P', 'A', 'T', 'C', 'H'],
        Method::DELETE => seq!['D', 'E', 'L', 'E', 'T', 'E'],
        Method::OPTIONS => seq!['O', 'P', 'T', 'I', 'O', 'N', 'S'],
        Method::HEAD => seq!['H', 'E', 'A', 'D'],
        Method::TRACE => seq!['T', 'R', 'A', 'C', 'E'],
    }
}

/// The method with the given position in the closed set.
pub open spec fn method_at(i: nat) -> Method
    recommends
        i < 8,
{
    if i == 0 {
        Method::GET
    } else if i == 1 {
        Method::POST
    } else if i == 2 {
        Method::PUT
    } else if i == 3 {
        Method::PATCH
    } else if i == 4 {
        Method::DELETE
    } else if i == 5 {
        Method::OPTIONS
    } else if i == 6 {
        Method::HEAD
    } else {
        Method::TRACE
    }
}

impl Method {
    /// Position of this method in the closed set.
    pub fn index(&self) -> (r: usize)
        ensures
            r as nat == method_index(*self),
            r < METHOD_COUNT,
    {
        match self {
            Method::GET => 0,
            Method::POST => 1,
            Method::PUT => 2,
            Method::PATCH => 3,
            Method::DELETE => 4,
            Method::OPTIONS => 5,
            Method::HEAD => 6,
            Method::TRACE => 7,
        }
    }

    /// The method at position `i` of the closed set.
    pub fn at(i: usize) -> (r: Method)
        requires
            i < METHOD_COUNT,
        ensures
            r == method_at(i as nat),
            method_index(r) == i,
    {
        if i == 0 {
            Method::GET
        } else if i == 1 {
            Method::POST
        } else if i == 2 {
            Method::PUT
        } else if i == 3 {
            Method::PATCH
        } else if i == 4 {
            Method::DELETE
        } else if i == 5 {
            Method::OPTIONS
        } else if i == 6 {
            Method::HEAD
        } else {
            Method::TRACE
        }
    }

    /// The wire name of this method.
    pub fn as_str(&self) -> (r: &'static str)
        ensures
            r@ == method_name(*self),
    {
        proof {
            reveal_strlit("GET");
            reveal_strlit("POST");
            reveal_strlit("PUT");
            reveal_strlit("PATCH");
            reveal_strlit("DELETE");
            reveal_strlit("OPTIONS");
            reveal_strlit("HEAD");
            reveal_strlit("TRACE");
        }
        match self {
            Method::GET => "GET",
            Method::POST => "POST",
            Method::PUT => "PUT",
            Method::PATCH => "PATCH",
            Method::DELETE => "DELETE",
            Method::OPTIONS => "OPTIONS",
            Method::HEAD => "HEAD",
            Method::TRACE => "TRACE",
        }
    }

    /// Normalizes a transport method name into the closed set. Names are
    /// compared exactly: no case folding is done here.
    pub fn from_name(name: &str) -> (r: Option<Method>)
        ensures
            r matches Some(m) ==> method_name(m) == name@,
            r is None ==> forall|m: Method| method_name(m) != name@,
    {
        let mut i: usize = 0;
        while i < METHOD_COUNT
            invariant
                i <= METHOD_COUNT,
                forall|j: nat| j < i ==> method_name(#[trigger] method_at(j)) != name@,
            decreases METHOD_COUNT - i,
        {
            let m = Method::at(i);
            if str_eq(m.as_str(), name) {
                return Some(m);
            }
            i = i + 1;
        }
        proof {
            assert forall|m: Method| method_name(m) != name@ by {
                assert(method_at(method_index(m)) == m);
            }
        }
        None
    }
}

/// Compares two strings character by character.
pub fn str_eq(a: &str, b: &str) -> (r: bool)
    ensures
        r == (a@ == b@),
{
    let n = a.unicode_len();
    if n != b.unicode_len() {
        return false;
    }
    let mut i: usize = 0;
    while i < n
        invariant
            n == a@.len(),
            n == b@.len(),
            i <= n,
            a@.take(i as int) == b@.take(i as int),
        decreases n - i,
    {
        if a.get_char(i) != b.get_char(i) {
            return false;
        }
        assert(a@.take(i + 1) == a@.take(i as int).push(a@[i as int]));
        assert(b@.take(i + 1) == b@.take(i as int).push(b@[i as int]));
        i = i + 1;
    }
    assert(a@ == a@.take(n as int));
    assert(b@ == b@.take(n as int));
    true
}

/// Protocol spoken on accepted connections.
#[derive(Clone, Copy, Debug, PartialEq, Eq, Structural)]
pub enum Mode {
    Http1,
    Http2,
}

/// An uploaded file of a multipart form, stored under a temporary path.
#[derive(Clone, Debug)]
pub struct FormFile {
    pub field_name: String,
    pub file_name: String,
    pub content_type: String,
    pub temp_path: String,
}

/// The parsed parts of a multipart form: its files and its plain fields.
/// Fields set through `set_field` keep one entry per name, the latest.
#[derive(Clone, Debug)]
pub struct FormData {
    pub files: Vec<FormFile>,
    pub fields: Vec<(String, String)>,
}

/// The view of a list of name/value pairs.
pub open spec fn pairs_view(v: Seq<(String, String)>) -> Seq<(Seq<char>, Seq<char>)> {
    v.map_values(|p: (String, String)| (p.0@, p.1@))
}

/// `fields` after setting `name` to `value`: other names keep their order,
/// and the field goes last.
pub open spec fn field_set(fields: Seq<(Seq<char>, Seq<char>)>, name: Seq<char>, value: Seq<char>) -> Seq<(Seq<char>, Seq<char>)> {
    fields.filter(|f: (Seq<char>, Seq<char>)| f.0 != name).push((name, value))
}

impl FormData {
    /// An empty form.
    pub fn new() -> (r: FormData)
        ensures
            r.files@.len() == 0,
            r.fields@.len() == 0,
    {
        FormData { files: Vec::new(), fields: Vec::new() }
    }

    /// Sets a plain field, replacing an earlier value of the same name.
    pub fn set_field(&mut self, name: String, value: String)
        ensures
            pairs_view(final(self).fields@) == field_set(pairs_view(old(self).fields@), name@, value@),
            final(self).files == old(self).files,
    {
        let ghost fs = pairs_view(self.fields@);
        let mut kept: Vec<(String, String)> = Vec::new();
        let mut i: usize = 0;
        assert(fs.take(0).filter(|f: (Seq<char>, Seq<char>)| f.0 != name@) =~= Seq::empty());
        while i < self.fields.len()
            invariant
                fs == pairs_view(self.fields@),
                i <= self.fields@.len(),
                pairs_view(kept@) == fs.take(i as int).filter(|f: (Seq<char>, Seq<char>)| f.0 != name@),
            decreases self.fields.len() - i,
        {
            let ghost before = kept@;
            assert(fs.take(i + 1) =~= fs.take(i as int).push(fs[i as int]));
            proof {
                fs.take(i as int).lemma_filter_push(fs[i as int], |f: (Seq<char>, Seq<char>)| f.0 != name@);
            }
            if !str_eq(self.fields[i].0.as_str(), name.as_str()) {
                kept.push((self.fields[i].0.clone(), self.fields[i].1.clone()));
                assert(pairs_view(kept@) =~= pairs_view(before).push(fs[i as int]));
            }
            i = i + 1;
        }
        assert(fs.take(fs.len() as int) =~= fs);
        let ghost kept_view = pairs_view(kept@);
        kept.push((name, value));
        assert(pairs_view(kept@) =~= kept_view.push((name@, value@)));
        self.fields = kept;
    }
}

} // verus!
