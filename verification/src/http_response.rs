//! The response side of the message model: construction with the fixed
//! status-message table and default headers, and serialization to the
//! exact wire text
//! `<version> <code> <message>\r\nContent-Length:<n>\r\n<headers>\r\n<body>`,
//! where `<n>` is the byte length of the body.
//!
//! A response with no body serializes with an empty body and
//! `Content-Length:0`; a response with no headers serializes with no
//! header lines.
use vstd::prelude::*;
use vstd::string::StringSliceAdditionalSpecFns;
use vstd::utf8::encode_utf8;

verus! {

/// A response to be written back to the client.  Headers are an ordered
/// sequence of name/value pairs: their order is kept on the wire.
#[derive(Debug, Clone, PartialEq, Eq)]
pub struct HttpResponse {
    pub version: String,
    pub status_code: u16,
    pub status_message: String,
    pub headers: Option<Vec<(String, String)>>,
    pub body: Option<String>,
}

/// The decimal digit characters of a nonnegative number, most significant
/// first.
pub open spec fn digit_char(d: int) -> char {
    if d == 0 {
        '0'
    } else if d == 1 {
        '1'
    } else if d == 2 {
        '2'
    } else if d == 3 {
        '3'
    } else if d == 4 {
        '4'
    } else if d == 5 {
        '5'
    } else if d == 6 {
        '6'
    } else if d == 7 {
        '7'
    } else if d == 8 {
        '8'
    } else {
        '9'
    }
}

pub open spec fn dec_digits(n: int) -> Seq<char>
    decreases n,
{
    if n < 10 {
        seq![digit_char(n)]
    } else {
        dec_digits(n / 10) + seq![digit_char(n % 10)]
    }
}

/// The fixed table from status code to status message; every code outside
/// the table reads "Unknown Error".
pub open spec fn status_message_of(code: u16) -> Seq<char> {
    if code == 200 {
        "OK"@
    } else if code == 400 {
        "Bad Request"@
    } else if code == 401 {
        "Unauthorized"@
    } else if code == 403 {
        "Forbidden"@
    } else if code == 404 {
        "Not Found"@
    } else if code == 500 {
        "Internal Server Error"@
    } else {
        "Unknown Error"@
    }
}

/// One wire line per header pair, in sequence order.
pub open spec fn header_lines(h: Seq<(String, String)>) -> Seq<char>
    decreases h.len(),
{
    if h.len() == 0 {
        Seq::empty()
    } else {
        header_lines(h.drop_last()) + h.last().0@ + ":"@ + h.last().1@ + "\r\n"@
    }
}

/// The characters of an optional body; absent means empty.
pub open spec fn body_chars(b: Option<String>) -> Seq<char> {
    match b {
        Some(s) => s@,
        None => Seq::empty(),
    }
}

/// The header pairs an optional header list holds; absent means none.
pub open spec fn header_pairs(h: Option<Vec<(String, String)>>) -> Seq<(String, String)> {
    match h {
        Some(v) => v@,
        None => Seq::empty(),
    }
}

/// The UTF-8 byte length of an optional body, as `str::len` reports it.
pub open spec fn body_byte_len(b: Option<String>) -> int {
    (encode_utf8(body_chars(b)).len() as usize) as int
}

/// The exact serialized form of a response.  The Content-Length field is
/// the UTF-8 byte length of the body, not its character count.
pub open spec fn wire_of(r: HttpResponse) -> Seq<char> {
    r.version@ + " "@ + dec_digits(r.status_code as int) + " "@ + r.status_message@ + "\r\n"@
        + "Content-Length:"@ + dec_digits(body_byte_len(r.body)) + "\r\n"@ + header_lines(
        header_pairs(r.headers),
    ) + "\r\n"@ + body_chars(r.body)
}

/// Appends one decimal digit.
fn push_digit(out: &mut String, d: u64)
    requires
        d < 10,
    ensures
        final(out)@ == old(out)@ + seq![digit_char(d as int)],
{
    if d == 0 {
        proof {
            reveal_strlit("0");
            assert("0"@ =~= seq![digit_char(0)]);
        }
        out.append("0");
    } else if d == 1 {
        proof {
            reveal_strlit("1");
            assert("1"@ =~= seq![digit_char(1)]);
        }
        out.append("1");
    } else if d == 2 {
        proof {
            reveal_strlit("2");
            assert("2"@ =~= seq![digit_char(2)]);
        }
        out.append("2");
    } else if d == 3 {
        proof {
            reveal_strlit("3");
            assert("3"@ =~= seq![digit_char(3)]);
        }
        out.append("3");
    } else if d == 4 {
        proof {
            reveal_strlit("4");
            assert("4"@ =~= seq![digit_char(4)]);
        }
        out.append("4");
    } else if d == 5 {
        proof {
            reveal_strlit("5");
            assert("5"@ =~= seq![digit_char(5)]);
        }
        out.append("5");
    } else if d == 6 {
        proof {
            reveal_strlit("6");
            assert("6"@ =~= seq![digit_char(6)]);
        }
        out.append("6");
    } else if d == 7 {
        proof {
            reveal_strlit("7");
            assert("7"@ =~= seq![digit_char(7)]);
        }
        out.append("7");
    } else if d == 8 {
        proof {
            reveal_strlit("8");
            assert("8"@ =~= seq![digit_char(8)]);
        }
        out.append("8");
    } else {
        proof {
            reveal_strlit("9");
            assert("9"@ =~= seq![digit_char(9)]);
        }
        out.append("9");
    }
}

/// Appends the decimal digits of `n`.
pub fn push_dec(out: &mut String, n: u64)
    ensures
        final(out)@ == old(out)@ + dec_digits(n as int),
    decreases n,
{
    if n >= 10 {
        push_dec(out, n / 10);
        push_digit(out, n % 10);
        proof {
            assert(final(out)@ =~= old(out)@ + dec_digits(n as int));
        }
    } else {
        push_digit(out, n);
    }
}

/// The message the status table fixes for `code`.
pub fn status_message_for(code: u16) -> (r: &'static str)
    ensures
        r@ == status_message_of(code),
{
    if code == 200 {
        "OK"
    } else if code == 400 {
        "Bad Request"
    } else if code == 401 {
        "Unauthorized"
    } else if code == 403 {
        "Forbidden"
    } else if code == 404 {
        "Not Found"
    } else if code == 500 {
        "Internal Server Error"
    } else {
        "Unknown Error"
    }
}

impl Default for HttpResponse {
    /// The baseline response: HTTP/1.1, 200 OK, no headers, no body.
    fn default() -> (r: HttpResponse)
        ensures
            r.version@ == "HTTP/1.1"@,
            r.status_code == 200,
            r.status_message@ == "OK"@,
            r.headers is None,
            r.body is None,
    {
        HttpResponse {
            version: String::from_str("HTTP/1.1"),
            status_code: 200,
            status_message: String::from_str("OK"),
            headers: None,
            body: None,
        }
    }
}

impl HttpResponse {
    /// Builds a response from a status code, optional headers and an
    /// optional body.  The version is always HTTP/1.1, the message comes
    /// from the status table, and when no headers are given the single
    /// default header `Content-Type: text/html` is put in.
    pub fn new(status_code: u16, headers: Option<Vec<(String, String)>>, body: Option<String>) -> (r:
        HttpResponse)
        ensures
            r.version@ == "HTTP/1.1"@,
            r.status_code == status_code,
            r.status_message@ == status_message_of(status_code),
            r.body == body,
            headers is Some ==> r.headers == headers,
            headers is None ==> (r.headers matches Some(h) && h@.len() == 1 && h@[0].0@
                == "Content-Type"@ && h@[0].1@ == "text/html"@),
    {
        let mut response = HttpResponse::default();
        response.status_code = status_code;
        response.headers = match headers {
            Some(h) => Some(h),
            None => {
                let mut h: Vec<(String, String)> = Vec::new();
                h.push((String::from_str("Content-Type"), String::from_str("text/html")));
                Some(h)
            },
        };
        response.status_message = String::from_str(status_message_for(status_code));
        response.body = body;
        response
    }

    pub fn version(&self) -> (r: &str)
        ensures
            r@ == self.version@,
    {
        self.version.as_str()
    }

    pub fn status_code(&self) -> (r: u16)
        ensures
            r == self.status_code,
    {
        self.status_code
    }

    pub fn status_message(&self) -> (r: &str)
        ensures
            r@ == self.status_message@,
    {
        self.status_message.as_str()
    }

    /// The concatenated wire lines of the headers.
    pub fn headers(&self) -> (r: String)
        ensures
            r@ == header_lines(header_pairs(self.headers)),
    {
        let mut out = String::new();
        match &self.headers {
            None => {
                proof {
                    assert(out@ =~= header_lines(header_pairs(self.headers)));
                }
            },
            Some(h) => {
                let ghost hv = h@;
                let mut i: usize = 0;
                proof {
                    assert(hv.take(0) =~= Seq::<(String, String)>::empty());
                    assert(out@ =~= header_lines(hv.take(0)));
                }
                while i < h.len()
                    invariant
                        hv == h@,
                        0 <= i <= hv.len(),
                        out@ == header_lines(hv.take(i as int)),
                    decreases hv.len() - i,
                {
                    out.append(h[i].0.as_str());
                    out.append(":");
                    out.append(h[i].1.as_str());
                    out.append("\r\n");
                    proof {
                        assert(hv.take(i + 1).drop_last() =~= hv.take(i as int));
                        assert(out@ =~= header_lines(hv.take(i + 1)));
                    }
                    i = i + 1;
                }
                proof {
                    assert(hv.take(hv.len() as int) =~= hv);
                }
            },
        }
        out
    }

    /// The body's text, or the empty string when there is none.
    pub fn body(&self) -> (r: &str)
        ensures
            r@ == body_chars(self.body),
    {
        match &self.body {
            Some(b) => b.as_str(),
            None => {
                proof {
                    reveal_strlit("");
                    assert(""@ =~= Seq::<char>::empty());
                }
                ""
            },
        }
    }

    /// Serializes the response to its exact wire text.
    pub fn serialize(&self) -> (r: String)
        ensures
            r@ == wire_of(*self),
    {
        let mut out = String::new();
        out.append(self.version.as_str());
        out.append(" ");
        push_dec(&mut out, self.status_code as u64);
        out.append(" ");
        out.append(self.status_message.as_str());
        out.append("\r\n");
        out.append("Content-Length:");
        let blen: usize = match &self.body {
            Some(b) => {
                let bs = b.as_str();
                proof {
                    assert(bs.spec_bytes() == encode_utf8(bs@));
                    assert(bs@ == body_chars(self.body));
                }
                bs.len()
            },
            None => {
                proof {
                    assert(encode_utf8(body_chars(self.body)) =~= Seq::<u8>::empty());
                }
                0
            },
        };
        proof {
            assert(blen as int == body_byte_len(self.body));
        }
        push_dec(&mut out, blen as u64);
        out.append("\r\n");
        let hdrs = self.headers();
        out.append(hdrs.as_str());
        out.append("\r\n");
        match &self.body {
            Some(b) => out.append(b.as_str()),
            None => {},
        }
        proof {
            assert(out@ =~= wire_of(*self));
        }
        out
    }

    /// Serializes the response and writes it to the stream; a write
    /// error is swallowed and the call reports success.
    pub fn send_response<W: std::io::Write>(&self, stream: &mut W) -> (r: Result<
        (),
        std::io::Error,
    >)
        ensures
            r is Ok,
    {
        let s = self.serialize();
        stream_write(stream, s.as_str());
        Ok(())
    }
}

/// Relies on std::io::Write::write_fmt, through the write! macro, to put
/// the given text on the stream; the write result is deliberately
/// dropped, so nothing is promised of the stream.
#[verifier::external_body]
fn stream_write<W: std::io::Write>(stream: &mut W, s: &str) {
    let _ = write!(stream, "{}", s);
}

#[verifier::external_type_specification]
#[verifier::external_body]
pub struct ExIoError(std::io::Error);

} // verus!
