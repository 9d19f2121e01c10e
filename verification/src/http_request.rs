//! The request side of the message model: method, version and resource
//! variants, and the parser that turns raw request text into a request.
//!
//! A raw request is read line by line.  A line containing `HTTP` is the
//! start line and is split on whitespace into method, path and version; a
//! line containing `:` is a header, split at the first `:` with the value
//! kept verbatim (leading space included); any other line is the body,
//! where only the last such line is kept.
use crate::text::{
    contains4, contains_seq, find_char, lemma_find_char_absent, lemma_find_char_at, lines_of,
    scan_char, spec_lines, str_eq, tokens_of, tokens_vec,
};
use vstd::prelude::*;

verus! {

/// Request method, one variant per recognized token.
#[derive(Debug, PartialEq, Eq, Structural, Clone, Copy)]
pub enum Method {
    Get,
    Post,
    Put,
    Delete,
    Head,
    Options,
    Trace,
    Connect,
    Patch,
}

/// Protocol version of the start line; unrecognized version strings
/// degrade to `Uninitialized` rather than failing.
#[derive(Debug, PartialEq, Eq, Structural, Clone, Copy)]
pub enum Version {
    V1_1,
    V2_0,
    Uninitialized,
}

/// The requested path, kept as the raw string from the start line.
#[derive(Debug, PartialEq, Eq)]
pub enum Resource {
    Path(String),
}

/// The method a token stands for, or `None` for an unrecognized token.
pub open spec fn method_of_token(s: Seq<char>) -> Option<Method> {
    if s == "GET"@ {
        Some(Method::Get)
    } else if s == "POST"@ {
        Some(Method::Post)
    } else if s == "PUT"@ {
        Some(Method::Put)
    } else if s == "DELETE"@ {
        Some(Method::Delete)
    } else if s == "HEAD"@ {
        Some(Method::Head)
    } else if s == "OPTIONS"@ {
        Some(Method::Options)
    } else if s == "TRACE"@ {
        Some(Method::Trace)
    } else if s == "CONNECT"@ {
        Some(Method::Connect)
    } else if s == "PATCH"@ {
        Some(Method::Patch)
    } else {
        None
    }
}

/// The version a token stands for; anything unrecognized is
/// `Uninitialized`.
pub open spec fn version_of_token(s: Seq<char>) -> Version {
    if s == "HTTP/1.1"@ {
        Version::V1_1
    } else if s == "HTTP/2.0"@ {
        Version::V2_0
    } else {
        Version::Uninitialized
    }
}

impl Method {
    /// Total lookup of a method token.
    pub fn try_from_token(s: &str) -> (r: Option<Method>)
        ensures
            r == method_of_token(s@),
    {
        if str_eq(s, "GET") {
            Some(Method::Get)
        } else if str_eq(s, "POST") {
            Some(Method::Post)
        } else if str_eq(s, "PUT") {
            Some(Method::Put)
        } else if str_eq(s, "DELETE") {
            Some(Method::Delete)
        } else if str_eq(s, "HEAD") {
            Some(Method::Head)
        } else if str_eq(s, "OPTIONS") {
            Some(Method::Options)
        } else if str_eq(s, "TRACE") {
            Some(Method::Trace)
        } else if str_eq(s, "CONNECT") {
            Some(Method::Connect)
        } else if str_eq(s, "PATCH") {
            Some(Method::Patch)
        } else {
            None
        }
    }

    /// The variant a recognized token names.  Unrecognized tokens are
    /// excluded up front: the protocol treats them as fatal, so no
    /// result exists for them.
    pub fn from(s: &str) -> (r: Method)
        requires
            method_of_token(s@) is Some,
        ensures
            Some(r) == method_of_token(s@),
    {
        Method::try_from_token(s).unwrap()
    }
}

impl Version {
    /// The variant a version token names; unrecognized tokens give
    /// `Uninitialized`.
    pub fn from(s: &str) -> (r: Version)
        ensures
            r == version_of_token(s@),
    {
        if str_eq(s, "HTTP/1.1") {
            Version::V1_1
        } else if str_eq(s, "HTTP/2.0") {
            Version::V2_0
        } else {
            Version::Uninitialized
        }
    }
}

impl Resource {
    /// The characters of the wrapped path.
    pub open spec fn path_view(&self) -> Seq<char> {
        match self {
            Resource::Path(p) => p@,
        }
    }

    /// The wrapped path string.
    pub fn path(&self) -> (r: &String)
        ensures
            r@ == self.path_view(),
    {
        match self {
            Resource::Path(p) => p,
        }
    }
}

/// A parsed request.  The headers hold name/value pairs in the order met;
/// their logical content is the mapping `headers_map` over them, where a
/// later occurrence of a name wins.
#[derive(Debug)]
pub struct HttpRequest {
    pub method: Method,
    pub version: Version,
    pub resource: Resource,
    pub headers: Vec<(String, String)>,
    pub body: String,
}

/// Splits a start line on whitespace and builds the method, resource and
/// version from its first three tokens.  A line short of three tokens or
/// with an unrecognized method token is excluded up front: the protocol
/// treats such a line as fatal.
pub fn process_req_line(line: &str) -> (r: (Method, Resource, Version))
    requires
        tokens_of(line@).len() >= 3,
        method_of_token(tokens_of(line@)[0]) is Some,
    ensures
        Some(r.0) == method_of_token(tokens_of(line@)[0]),
        r.1.path_view() == tokens_of(line@)[1],
        r.2 == version_of_token(tokens_of(line@)[2]),
{
    let toks = tokens_vec(line);
    proof {
        assert(toks.deep_view()[0] == toks@[0]@);
        assert(toks.deep_view()[1] == toks@[1]@);
        assert(toks.deep_view()[2] == toks@[2]@);
    }
    let method = Method::from(toks[0].as_str());
    let resource = Resource::Path(toks[1].clone());
    let version = Version::from(toks[2].as_str());
    (method, resource, version)
}

/// Splits a header line at its first `:`: the part before it is the key,
/// everything after it is the value, kept verbatim with any leading
/// whitespace.  A line without `:` gives the whole line as key and an
/// empty value.
pub fn process_req_header(line: &str) -> (r: (String, String))
    ensures
        find_char(line@, ':') >= 0 ==> (r.0@ == line@.take(find_char(line@, ':')) && r.1@
            == line@.skip(find_char(line@, ':') + 1)),
        find_char(line@, ':') < 0 ==> (r.0@ == line@ && r.1@.len() == 0),
{
    let j = scan_char(line, 0, ':');
    let n = line.unicode_len();
    if j < n {
        proof {
            lemma_find_char_at(line@, ':', j as int);
        }
        let key = String::from_str(line.substring_char(0, j));
        let value = String::from_str(line.substring_char(j + 1, n));
        proof {
            assert(key@ =~= line@.take(find_char(line@, ':')));
            assert(value@ =~= line@.skip(find_char(line@, ':') + 1));
        }
        (key, value)
    } else {
        proof {
            lemma_find_char_absent(line@, ':');
        }
        (String::from_str(line), String::new())
    }
}

/// The mapping that a sequence of header pairs stands for: each name maps
/// to the value of its last occurrence.
pub open spec fn headers_map(h: Seq<(String, String)>) -> Map<Seq<char>, Seq<char>>
    decreases h.len(),
{
    if h.len() == 0 {
        Map::empty()
    } else {
        headers_map(h.drop_last()).insert(h.last().0@, h.last().1@)
    }
}

pub proof fn lemma_headers_map_lookup(h: Seq<(String, String)>, k: Seq<char>, i: int)
    requires
        0 <= i < h.len(),
        h[i].0@ == k,
        forall|j: int| i < j < h.len() ==> h[j].0@ != k,
    ensures
        headers_map(h).contains_key(k),
        headers_map(h)[k] == h[i].1@,
    decreases h.len(),
{
    if i == h.len() - 1 {
    } else {
        assert(h.drop_last()[i] == h[i]);
        assert forall|j: int| i < j < h.drop_last().len() implies h.drop_last()[j].0@ != k by {
            assert(h.drop_last()[j] == h[j]);
        }
        lemma_headers_map_lookup(h.drop_last(), k, i);
    }
}

pub proof fn lemma_headers_map_absent(h: Seq<(String, String)>, k: Seq<char>)
    requires
        forall|j: int| 0 <= j < h.len() ==> h[j].0@ != k,
    ensures
        !headers_map(h).contains_key(k),
    decreases h.len(),
{
    if h.len() > 0 {
        assert forall|j: int| 0 <= j < h.drop_last().len() implies h.drop_last()[j].0@ != k by {
            assert(h.drop_last()[j] == h[j]);
        }
        lemma_headers_map_absent(h.drop_last(), k);
    }
}

/// The logical content of a request: what the parser is specified to
/// extract from the raw text.
pub ghost struct RequestModel {
    pub method: Method,
    pub version: Version,
    pub path: Seq<char>,
    pub headers: Map<Seq<char>, Seq<char>>,
    pub body: Seq<char>,
}

/// The state before any line is read: defaults for every field.
pub open spec fn init_model() -> RequestModel {
    RequestModel {
        method: Method::Get,
        version: Version::V1_1,
        path: Seq::empty(),
        headers: Map::empty(),
        body: Seq::empty(),
    }
}

/// One line's effect on the accumulated request: a start line resets
/// method, path and version; a header line extends the mapping; any other
/// line replaces the body.
pub open spec fn step_line(m: RequestModel, line: Seq<char>) -> RequestModel {
    if contains_seq(line, "HTTP"@) {
        let t = tokens_of(line);
        RequestModel {
            method: match method_of_token(t[0]) {
                Some(mm) => mm,
                None => Method::Get,
            },
            path: t[1],
            version: version_of_token(t[2]),
            ..m
        }
    } else if find_char(line, ':') >= 0 {
        let i = find_char(line, ':');
        RequestModel { headers: m.headers.insert(line.take(i), line.skip(i + 1)), ..m }
    } else {
        RequestModel { body: line, ..m }
    }
}

/// Header extraction, stated of the parser itself: a header line built
/// from any colon-free key, a colon, and any value (for instance
/// `"Key: value"`) extends the mapping with the value verbatim — leading
/// whitespace included — under exactly that key.
pub proof fn lemma_header_value_verbatim(m: RequestModel, key: Seq<char>, value: Seq<char>)
    requires
        !contains_seq(key + seq![':'] + value, "HTTP"@),
        forall|j: int| 0 <= j < key.len() ==> key[j] != ':',
    ensures
        step_line(m, key + seq![':'] + value).headers == m.headers.insert(key, value),
        step_line(m, key + seq![':'] + value).headers[key] == value,
        step_line(m, key + seq![':'] + value).method == m.method,
        step_line(m, key + seq![':'] + value).body == m.body,
{
    let line = key + seq![':'] + value;
    assert(line[key.len() as int] == ':');
    assert forall|j: int| 0 <= j < key.len() implies line[j] != ':' by {
        assert(line[j] == key[j]);
    }
    lemma_find_char_at(line, ':', key.len() as int);
    assert(line.take(key.len() as int) =~= key);
    assert(line.skip(key.len() as int + 1) =~= value);
}

pub open spec fn parse_lines_model(lines: Seq<Seq<char>>) -> RequestModel
    decreases lines.len(),
{
    if lines.len() == 0 {
        init_model()
    } else {
        step_line(parse_lines_model(lines.drop_last()), lines.last())
    }
}

/// What a raw request's text denotes.
pub open spec fn request_model(s: Seq<char>) -> RequestModel {
    parse_lines_model(spec_lines(s))
}

/// Every start line of the raw text has at least three tokens and a
/// recognized method token; only then does parsing succeed.
pub open spec fn request_parseable(s: Seq<char>) -> bool {
    forall|i: int|
        0 <= i < spec_lines(s).len() && contains_seq(#[trigger] spec_lines(s)[i], "HTTP"@)
            ==> tokens_of(spec_lines(s)[i]).len() >= 3 && method_of_token(
            tokens_of(spec_lines(s)[i])[0],
        ) is Some
}

impl HttpRequest {
    /// The logical content this request holds.
    pub open spec fn model(&self) -> RequestModel {
        RequestModel {
            method: self.method,
            version: self.version,
            path: self.resource.path_view(),
            headers: headers_map(self.headers@),
            body: self.body@,
        }
    }

    /// Parses raw request text.  Fails exactly when some start line is
    /// short of three tokens or names an unrecognized method; on success
    /// the request holds precisely what the text denotes.
    pub fn parse(req: &str) -> (r: Option<HttpRequest>)
        ensures
            r is Some <==> request_parseable(req@),
            match r {
                Some(q) => q.model() == request_model(req@),
                None => true,
            },
    {
        proof {
            reveal_strlit("HTTP");
        }
        let lines = lines_of(req);
        let mut method = Method::Get;
        let mut version = Version::V1_1;
        let mut path = String::new();
        let mut headers: Vec<(String, String)> = Vec::new();
        let mut body = String::new();
        let mut k: usize = 0;
        proof {
            assert(spec_lines(req@).take(0) =~= Seq::<Seq<char>>::empty());
            assert(headers_map(headers@) =~= Map::<Seq<char>, Seq<char>>::empty());
        }
        while k < lines.len()
            invariant
                lines.deep_view() == spec_lines(req@),
                "HTTP"@.len() == 4,
                0 <= k <= lines.len(),
                forall|i: int|
                    0 <= i < k && contains_seq(#[trigger] spec_lines(req@)[i], "HTTP"@)
                        ==> tokens_of(spec_lines(req@)[i]).len() >= 3 && method_of_token(
                        tokens_of(spec_lines(req@)[i])[0],
                    ) is Some,
                (RequestModel {
                    method: method,
                    version: version,
                    path: path@,
                    headers: headers_map(headers@),
                    body: body@,
                }) == parse_lines_model(spec_lines(req@).take(k as int)),
            decreases lines.len() - k,
        {
            let line = &lines[k];
            let ghost lv = spec_lines(req@)[k as int];
            proof {
                assert(lines.deep_view()[k as int] == lines@[k as int]@);
            }
            let ghost pre = RequestModel {
                method: method,
                version: version,
                path: path@,
                headers: headers_map(headers@),
                body: body@,
            };
            if contains4(line.as_str(), "HTTP") {
                let toks = tokens_vec(line.as_str());
                if toks.len() < 3 {
                    proof {
                        assert(tokens_of(lv).len() < 3);
                        assert(!request_parseable(req@));
                    }
                    return None;
                }
                let m2 = match Method::try_from_token(toks[0].as_str()) {
                    Some(m2) => m2,
                    None => {
                        proof {
                            assert(toks.deep_view()[0] == toks@[0]@);
                            assert(method_of_token(tokens_of(lv)[0]) is None);
                            assert(!request_parseable(req@));
                        }
                        return None;
                    },
                };
                proof {
                    assert(toks.deep_view()[0] == toks@[0]@);
                    assert(toks.deep_view()[1] == toks@[1]@);
                    assert(toks.deep_view()[2] == toks@[2]@);
                }
                method = m2;
                path = toks[1].clone();
                version = Version::from(toks[2].as_str());
            } else {
                let j = scan_char(line.as_str(), 0, ':');
                let n = line.as_str().unicode_len();
                if j < n {
                    proof {
                        lemma_find_char_at(lv, ':', j as int);
                    }
                    let key = String::from_str(line.as_str().substring_char(0, j));
                    let value = String::from_str(line.as_str().substring_char(j + 1, n));
                    proof {
                        assert(key@ =~= lv.take(find_char(lv, ':')));
                        assert(value@ =~= lv.skip(find_char(lv, ':') + 1));
                    }
                    let ghost hprev = headers@;
                    headers.push((key, value));
                    proof {
                        assert(headers@.drop_last() =~= hprev);
                        assert(headers_map(headers@) == headers_map(hprev).insert(key@, value@));
                    }
                } else {
                    proof {
                        lemma_find_char_absent(lv, ':');
                    }
                    body = line.clone();
                }
            }
            proof {
                let taken = spec_lines(req@).take(k + 1);
                assert(taken.drop_last() =~= spec_lines(req@).take(k as int));
                assert(taken.last() == lv);
                assert(parse_lines_model(taken) == step_line(
                    parse_lines_model(spec_lines(req@).take(k as int)),
                    lv,
                ));
                assert((RequestModel {
                    method: method,
                    version: version,
                    path: path@,
                    headers: headers_map(headers@),
                    body: body@,
                }) == step_line(pre, lv));
            }
            k = k + 1;
        }
        proof {
            assert(spec_lines(req@).take(k as int) =~= spec_lines(req@));
        }
        Some(
            HttpRequest {
                method,
                version,
                resource: Resource::Path(path),
                headers,
                body,
            },
        )
    }

    /// Parses raw request text whose start lines are known well formed; on
    /// such input the result is exactly what the text denotes.
    pub fn from(req: String) -> (r: HttpRequest)
        requires
            request_parseable(req@),
        ensures
            r.model() == request_model(req@),
    {
        HttpRequest::parse(req.as_str()).unwrap()
    }

    /// The value of the last occurrence of `name` among the headers, as
    /// the header mapping gives it.
    pub fn header(&self, name: &str) -> (r: Option<&String>)
        ensures
            match r {
                Some(v) => headers_map(self.headers@).contains_key(name@) && headers_map(
                    self.headers@,
                )[name@] == v@,
                None => !headers_map(self.headers@).contains_key(name@),
            },
    {
        let mut i: usize = self.headers.len();
        while i > 0
            invariant
                i <= self.headers@.len(),
                forall|j: int| i <= j < self.headers@.len() ==> self.headers@[j].0@ != name@,
            decreases i,
        {
            i = i - 1;
            if str_eq(self.headers[i].0.as_str(), name) {
                proof {
                    lemma_headers_map_lookup(self.headers@, name@, i as int);
                }
                return Some(&self.headers[i].1);
            }
        }
        proof {
            lemma_headers_map_absent(self.headers@, name@);
        }
        None
    }
}

} // verus!
