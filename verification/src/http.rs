//! The line-based HTTP text layer.
//!
//! Requests and responses are plain text: a start line, one "key: value"
//! line per header, a blank line, and the body. This module formats and
//! parses that text; reading lines off a stream and writing bytes back stay
//! with the caller, which hands `Vec<String>` lines in and takes plain
//! values back.

use crate::split::{
    glue_first, lemma_split_nonempty, lemma_split_step_match, lemma_split_step_nomatch, split_seq,
};
use vstd::prelude::*;
use vstd::string::StrSliceExecFns;
use vstd::string::StringExecFns;

verus! {

/// The request methods the layer speaks.
#[derive(Clone, Copy, Debug, PartialEq, Eq, Structural)]
pub enum HttpMethod {
    /// Fetch a resource.
    Get,
    /// Submit data to a resource.
    Post,
    /// Replace a resource.
    Put,
    /// Change part of a resource.
    Patch,
    /// Remove a resource.
    Delete,
}

/// The request-line text of each method.
pub open spec fn method_view(m: HttpMethod) -> Seq<char> {
    match m {
        HttpMethod::Get => "GET"@,
        HttpMethod::Post => "POST"@,
        HttpMethod::Put => "PUT"@,
        HttpMethod::Patch => "PATCH"@,
        HttpMethod::Delete => "DELETE"@,
    }
}

/// The method a request-line token names, if any.
pub open spec fn parse_method(s: Seq<char>) -> Option<HttpMethod> {
    if s == "GET"@ {
        Some(HttpMethod::Get)
    } else if s == "POST"@ {
        Some(HttpMethod::Post)
    } else if s == "PUT"@ {
        Some(HttpMethod::Put)
    } else if s == "PATCH"@ {
        Some(HttpMethod::Patch)
    } else if s == "DELETE"@ {
        Some(HttpMethod::Delete)
    } else {
        None
    }
}

impl HttpMethod {
    /// The method's request-line text.
    pub fn to_string(&self) -> (r: String)
        ensures
            r@ == method_view(*self),
    {
        match self {
            HttpMethod::Get => String::from_str("GET"),
            HttpMethod::Post => String::from_str("POST"),
            HttpMethod::Put => String::from_str("PUT"),
            HttpMethod::Patch => String::from_str("PATCH"),
            HttpMethod::Delete => String::from_str("DELETE"),
        }
    }

    /// The method a token names, or a message quoting the token when no
    /// method matches.
    pub fn from_string(text: &str) -> (r: Result<HttpMethod, String>)
        ensures
            parse_method(text@) is Some ==> (r matches Ok(m) && Some(m) == parse_method(text@)),
            parse_method(text@) is None ==> (r matches Err(e) && e@ == "Invalid HTTP Method: "@
                + text@),
    {
        let t = String::from_str(text);
        if t == String::from_str("GET") {
            Ok(HttpMethod::Get)
        } else if t == String::from_str("POST") {
            Ok(HttpMethod::Post)
        } else if t == String::from_str("PUT") {
            Ok(HttpMethod::Put)
        } else if t == String::from_str("PATCH") {
            Ok(HttpMethod::Patch)
        } else if t == String::from_str("DELETE") {
            Ok(HttpMethod::Delete)
        } else {
            Err(String::from_str("Invalid HTTP Method: ").concat(text))
        }
    }
}

/// One "key: value" header.
pub struct HttpHeader {
    /// The header's name.
    pub key: String,
    /// The header's value.
    pub value: String,
}

impl HttpHeader {
    /// The header's one-line text.
    pub fn to_string(&self) -> (r: String)
        ensures
            r@ == self.key@ + ": "@ + self.value@,
    {
        let mut s = self.key.clone();
        s.append(": ");
        s.append(self.value.as_str());
        s
    }
}

/// A message body: the text after the blank line.
pub struct HttpBody {
    /// The body's text.
    pub data: String,
}

/// A parsed request: start line, headers, body.
pub struct HttpMessage {
    /// The request method.
    pub method: HttpMethod,
    /// The path asked for.
    pub path: String,
    /// The protocol version.
    pub version: String,
    /// The headers, in the order they arrived.
    pub headers: Vec<HttpHeader>,
    /// The body, when one was read.
    pub body: Option<HttpBody>,
}

/// A parsed response: status line, headers, body.
pub struct HttpResponse {
    /// The protocol version.
    pub version: String,
    /// The status code text.
    pub status: String,
    /// The headers, in the order they arrived.
    pub headers: Vec<HttpHeader>,
    /// The body.
    pub body: HttpBody,
}

/// One header line of a request dump: a tab, the key, " : ", the value.
pub open spec fn msg_header_line(h: HttpHeader) -> Seq<char> {
    "\t"@ + h.key@ + " : "@ + h.value@
}

/// One header line of a response dump: the header's own text.
pub open spec fn resp_header_line(h: HttpHeader) -> Seq<char> {
    h.key@ + ": "@ + h.value@
}

/// Pieces joined with `sep` in reverse order: the last piece comes first.
/// This is the order the dumps below print headers in.
pub open spec fn rev_join(ls: Seq<Seq<char>>, sep: Seq<char>) -> Seq<char>
    recommends
        ls.len() >= 1,
    decreases ls.len(),
{
    if ls.len() <= 1 {
        ls[0]
    } else {
        rev_join(ls.drop_first(), sep) + sep + ls[0]
    }
}

/// One more piece lands at the front of a reverse join.
proof fn lemma_rev_join_push(ls: Seq<Seq<char>>, sep: Seq<char>, x: Seq<char>)
    requires
        ls.len() >= 1,
    ensures
        rev_join(ls.push(x), sep) == x + sep + rev_join(ls, sep),
    decreases ls.len(),
{
    if ls.len() == 1 {
        assert(ls.push(x).drop_first() =~~= seq![x]);
        assert(ls.push(x)[0] == ls[0]);
        assert(rev_join(seq![x], sep) == x);
        assert(rev_join(ls.push(x), sep) =~= x + sep + rev_join(ls, sep));
    } else {
        assert(ls.push(x).drop_first() =~~= ls.drop_first().push(x));
        lemma_rev_join_push(ls.drop_first(), sep, x);
        assert(rev_join(ls.push(x), sep) =~= x + sep + rev_join(ls, sep));
    }
}

/// The text a body prints as: its data, or nothing when there is none.
pub open spec fn body_text(b: Option<HttpBody>) -> Seq<char> {
    match b {
        Some(bb) => bb.data@,
        None => Seq::empty(),
    }
}

/// The one-string dump of a request: each field labelled on its own line,
/// the headers printed last arrived first.
pub open spec fn message_text(m: HttpMessage) -> Seq<char> {
    "Method: "@ + method_view(m.method) + "\r\n Path: "@ + m.path@ + "\r\n Version: "@ + m.version@
        + "\r\n Headers:\r\n"@ + rev_join(
        m.headers@.map_values(|h: HttpHeader| msg_header_line(h)),
        "\r\n"@,
    ) + "\r\n Body: "@ + body_text(m.body)
}

/// The one-string dump of a response: version and status labelled, then the
/// headers printed last arrived first, then the body.
pub open spec fn response_text(m: HttpResponse) -> Seq<char> {
    "Version: "@ + m.version@ + "\r\nStatus Code: "@ + m.status@ + "\r\nHeaders:\r\n\t"@ + rev_join(
        m.headers@.map_values(|h: HttpHeader| resp_header_line(h)),
        "\r\n\t"@,
    ) + "\r\nBody:\r\n"@ + m.body.data@
}

/// Builds one request-dump header line.
fn msg_header_line_string(h: &HttpHeader) -> (r: String)
    ensures
        r@ == msg_header_line(*h),
{
    let mut s = String::from_str("\t");
    s.append(h.key.as_str());
    s.append(" : ");
    s.append(h.value.as_str());
    s
}

impl HttpMessage {
    /// The request's dump. At least one header must be present: the dump
    /// format always prints a header block.
    pub fn to_string(&self) -> (r: String)
        requires
            self.headers@.len() >= 1,
        ensures
            r@ == message_text(*self),
    {
        let ghost lines = self.headers@.map_values(|h: HttpHeader| msg_header_line(h));
        let ghost sep: Seq<char> = "\r\n"@;
        let mut acc = msg_header_line_string(&self.headers[0]);
        proof {
            assert(lines.take(1) =~~= seq![lines[0]]);
        }
        let mut j: usize = 1;
        while j < self.headers.len()
            invariant
                1 <= j <= self.headers@.len(),
                lines == self.headers@.map_values(|h: HttpHeader| msg_header_line(h)),
                sep == "\r\n"@,
                acc@ == rev_join(lines.take(j as int), sep),
            decreases self.headers@.len() - j,
        {
            let mut piece = msg_header_line_string(&self.headers[j]);
            piece.append("\r\n");
            let acc2 = piece.concat(acc.as_str());
            proof {
                assert(lines.take(j as int + 1) =~~= lines.take(j as int).push(lines[j as int]));
                lemma_rev_join_push(lines.take(j as int), sep, lines[j as int]);
                assert(acc2@ =~= rev_join(lines.take(j as int + 1), sep));
            }
            acc = acc2;
            j = j + 1;
        }
        proof {
            assert(lines.take(self.headers@.len() as int) =~~= lines);
        }
        let mut out = String::from_str("Method: ");
        let method_name = self.method.to_string();
        out.append(method_name.as_str());
        out.append("\r\n Path: ");
        out.append(self.path.as_str());
        out.append("\r\n Version: ");
        out.append(self.version.as_str());
        out.append("\r\n Headers:\r\n");
        out.append(acc.as_str());
        out.append("\r\n Body: ");
        match &self.body {
            Some(b) => out.append(b.data.as_str()),
            None => {},
        }
        proof {
            assert(out@ =~= message_text(*self));
        }
        out
    }
}

impl HttpResponse {
    /// The response's dump. At least one header must be present: the dump
    /// format always prints a header block.
    pub fn to_string(&self) -> (r: String)
        requires
            self.headers@.len() >= 1,
        ensures
            r@ == response_text(*self),
    {
        let ghost lines = self.headers@.map_values(|h: HttpHeader| resp_header_line(h));
        let ghost sep: Seq<char> = "\r\n\t"@;
        let mut acc = self.headers[0].to_string();
        proof {
            assert(lines.take(1) =~~= seq![lines[0]]);
        }
        let mut j: usize = 1;
        while j < self.headers.len()
            invariant
                1 <= j <= self.headers@.len(),
                lines == self.headers@.map_values(|h: HttpHeader| resp_header_line(h)),
                sep == "\r\n\t"@,
                acc@ == rev_join(lines.take(j as int), sep),
            decreases self.headers@.len() - j,
        {
            let mut piece = self.headers[j].to_string();
            piece.append("\r\n\t");
            let acc2 = piece.concat(acc.as_str());
            proof {
                assert(lines.take(j as int + 1) =~~= lines.take(j as int).push(lines[j as int]));
                lemma_rev_join_push(lines.take(j as int), sep, lines[j as int]);
                assert(acc2@ =~= rev_join(lines.take(j as int + 1), sep));
            }
            acc = acc2;
            j = j + 1;
        }
        proof {
            assert(lines.take(self.headers@.len() as int) =~~= lines);
        }
        let mut out = String::from_str("Version: ");
        out.append(self.version.as_str());
        out.append("\r\nStatus Code: ");
        out.append(self.status.as_str());
        out.append("\r\nHeaders:\r\n\t");
        out.append(acc.as_str());
        out.append("\r\nBody:\r\n");
        out.append(self.body.data.as_str());
        proof {
            assert(out@ =~= response_text(*self));
        }
        out
    }
}

/// Cuts `s` at each occurrence of `sep`, scanning left to right.
pub fn split_string(s: &str, sep: &str) -> (r: Vec<String>)
    requires
        sep@.len() >= 1,
    ensures
        r.deep_view() == split_seq(s@, sep@),
        r@.len() >= 1,
{
    let n = s.unicode_len();
    let sl = sep.unicode_len();
    let mut parts: Vec<String> = Vec::new();
    let mut cur: String = String::new();
    let mut i: usize = 0;
    proof {
        lemma_split_nonempty(s@, sep@);
        assert(s@.skip(0) =~= s@);
        assert(parts.deep_view() + glue_first(cur@, split_seq(s@, sep@)) =~~= split_seq(s@, sep@));
    }
    while i < n
        invariant
            i <= n,
            n == s@.len(),
            sl == sep@.len(),
            1 <= sl,
            split_seq(s@, sep@) == parts.deep_view() + glue_first(
                cur@,
                split_seq(s@.skip(i as int), sep@),
            ),
        decreases n - i,
    {
        let ghost prev_parts = parts.deep_view();
        let ghost prev_cur = cur@;
        let ghost tail = split_seq(s@.skip(i as int), sep@);
        let matched: bool = if sl <= n - i {
            let piece = s.substring_char(i, i + sl);
            String::from_str(piece) == String::from_str(sep)
        } else {
            false
        };
        proof {
            if matched {
                assert(s@.subrange(i as int, i as int + sl as int) == sep@);
            }
        }
        if matched {
            proof {
                lemma_split_step_match(s@, sep@, i as int);
                lemma_split_nonempty(s@.skip(i as int + sl as int), sep@);
                assert(glue_first(prev_cur, tail) =~~= seq![prev_cur] + glue_first(
                    Seq::<char>::empty(),
                    split_seq(s@.skip(i as int + sl as int), sep@),
                ));
            }
            parts.push(cur);
            cur = String::new();
            proof {
                assert(parts.deep_view() =~~= prev_parts.push(prev_cur));
                assert(parts.deep_view() + glue_first(
                    cur@,
                    split_seq(s@.skip(i as int + sl as int), sep@),
                ) =~~= prev_parts + glue_first(prev_cur, tail));
            }
            i = i + sl;
        } else {
            proof {
                if i + sl <= n {
                    assert(s@.subrange(i as int, i as int + sl as int) != sep@);
                }
                lemma_split_step_nomatch(s@, sep@, i as int);
                lemma_split_nonempty(s@.skip(i as int + 1), sep@);
            }
            let one = s.substring_char(i, i + 1);
            cur.append(one);
            proof {
                assert(cur@ =~= prev_cur + seq![s@[i as int]]);
                assert(glue_first(prev_cur, tail) =~~= glue_first(
                    cur@,
                    split_seq(s@.skip(i as int + 1), sep@),
                ));
            }
            i = i + 1;
        }
    }
    let ghost prev_parts = parts.deep_view();
    let ghost prev_cur = cur@;
    proof {
        assert(s@.skip(i as int) =~= Seq::<char>::empty());
        assert(split_seq(s@.skip(i as int), sep@) == seq![Seq::<char>::empty()]);
        assert(glue_first(prev_cur, seq![Seq::<char>::empty()]) =~~= seq![prev_cur]);
    }
    parts.push(cur);
    proof {
        assert(parts.deep_view() =~~= prev_parts.push(prev_cur));
        assert(parts.deep_view() =~~= split_seq(s@, sep@));
    }
    parts
}

/// The index of the first blank line at or after `i`, or `lines.len()` when
/// none is left.
pub open spec fn first_blank(lines: Seq<Seq<char>>, i: int) -> int
    decreases lines.len() - i
        when 0 <= i <= lines.len()
{
    if i >= lines.len() {
        i
    } else if lines[i].len() == 0 {
        i
    } else {
        first_blank(lines, i + 1)
    }
}

/// The first blank line at or after `i` lies between `i` and the end.
proof fn lemma_first_blank_bounds(lines: Seq<Seq<char>>, i: int)
    requires
        0 <= i <= lines.len(),
    ensures
        i <= first_blank(lines, i) <= lines.len(),
    decreases lines.len() - i,
{
    if i < lines.len() && lines[i].len() != 0 {
        lemma_first_blank_bounds(lines, i + 1);
    }
}

/// The body text: every non-blank line at or after `i`, run together.
pub open spec fn body_concat(lines: Seq<Seq<char>>, i: int) -> Seq<char>
    decreases lines.len() - i
        when 0 <= i <= lines.len()
{
    if i >= lines.len() {
        Seq::empty()
    } else if lines[i].len() == 0 {
        body_concat(lines, i + 1)
    } else {
        lines[i] + body_concat(lines, i + 1)
    }
}

/// The key and value a header line splits into, when it has both.
pub open spec fn header_of_line(l: Seq<char>) -> Option<(Seq<char>, Seq<char>)> {
    let toks = split_seq(l, ": "@);
    if toks.len() < 2 {
        None
    } else {
        Some((toks[0], toks[1]))
    }
}

/// Every line of `lines` in `[i, k)` parses as a header.
pub open spec fn headers_all_ok(lines: Seq<Seq<char>>, i: int, k: int) -> bool {
    forall|j: int| i <= j < k ==> (#[trigger] header_of_line(lines[j])) is Some
}

/// `hs` are exactly the headers of lines `[1, k)`, in order.
pub open spec fn headers_match(hs: Seq<HttpHeader>, lines: Seq<Seq<char>>, k: int) -> bool {
    &&& hs.len() == k - 1
    &&& forall|j: int|
        0 <= j < hs.len() ==> header_of_line(lines[j + 1]) == Some(
            (((#[trigger] hs[j]).key)@, hs[j].value@),
        )
}

impl HttpMessage {
    /// Parses the lines of a request. The first line gives method, path and
    /// version; lines up to the first blank line are headers; non-blank
    /// lines after it run together as the body. Without any lines the
    /// request is all defaults. A token that names no method, a start line
    /// without path or version, or a header line without a value is
    /// reported, quoting the offending token for an unknown method.
    pub fn from_lines(lines: &Vec<String>) -> (r: Result<HttpMessage, String>)
        ensures
            ({
                let lv = lines.deep_view();
                if lv.len() == 0 {
                    r matches Ok(m) && m.method == HttpMethod::Get && m.path@ == Seq::<
                        char,
                    >::empty() && m.version@ == Seq::<char>::empty() && m.headers@.len() == 0 && (
                    m.body matches Some(bb) && bb.data@ == Seq::<char>::empty())
                } else {
                    let toks = split_seq(lv[0], " "@);
                    let k = first_blank(lv, 1);
                    if parse_method(toks[0]) is None {
                        r matches Err(e) && e@ == "Invalid HTTP Method: "@ + toks[0]
                    } else if toks.len() < 2 {
                        r matches Err(e) && e@ == "Expected a Path"@
                    } else if toks.len() < 3 {
                        r matches Err(e) && e@ == "Expected a Version"@
                    } else if !headers_all_ok(lv, 1, k) {
                        r matches Err(e) && e@ == "Expected a Header value"@
                    } else {
                        r matches Ok(m) && Some(m.method) == parse_method(toks[0]) && m.path@
                            == toks[1] && m.version@ == toks[2] && headers_match(m.headers@, lv, k)
                            && (m.body matches Some(bb) && bb.data@ == body_concat(lv, k))
                    }
                }
            }),
    {
        let ghost lv = lines.deep_view();
        if lines.len() == 0 {
            return Ok(
                HttpMessage {
                    method: HttpMethod::Get,
                    path: String::new(),
                    version: String::new(),
                    headers: Vec::new(),
                    body: Some(HttpBody { data: String::new() }),
                },
            );
        }
        proof {
            assert(lv[0] == lines@[0]@);
            reveal_strlit(" ");
        }
        let toks = split_string(lines[0].as_str(), " ");
        proof {
            assert(toks.deep_view() == split_seq(lv[0], " "@));
            assert(toks@[0]@ == toks.deep_view()[0]);
        }
        let method = match HttpMethod::from_string(toks[0].as_str()) {
            Ok(m) => m,
            Err(e) => {
                return Err(e);
            },
        };
        if toks.len() < 2 {
            return Err(String::from_str("Expected a Path"));
        }
        proof {
            assert(toks@[1]@ == toks.deep_view()[1]);
        }
        if toks.len() < 3 {
            return Err(String::from_str("Expected a Version"));
        }
        proof {
            assert(toks@[2]@ == toks.deep_view()[2]);
        }
        let path = toks[1].clone();
        let version = toks[2].clone();
        let mut headers: Vec<HttpHeader> = Vec::new();
        let mut j: usize = 1;
        while j < lines.len() && !lines[j].as_str().is_empty()
            invariant
                1 <= j <= lv.len(),
                lv == lines.deep_view(),
                lv.len() >= 1,
                parse_method(split_seq(lv[0], " "@)[0]) is Some,
                split_seq(lv[0], " "@).len() >= 3,
                first_blank(lv, 1) == first_blank(lv, j as int),
                headers_all_ok(lv, 1, j as int),
                headers_match(headers@, lv, j as int),
            decreases lv.len() - j,
        {
            proof {
                assert(lv[j as int] == lines@[j as int]@);
                assert(lv[j as int].len() != 0);
                reveal_strlit(": ");
            }
            let htoks = split_string(lines[j].as_str(), ": ");
            proof {
                assert(htoks.deep_view() == split_seq(lv[j as int], ": "@));
                lemma_first_blank_bounds(lv, j as int + 1);
            }
            if htoks.len() < 2 {
                proof {
                    assert(header_of_line(lv[j as int]) is None);
                    assert(first_blank(lv, 1) >= j + 1);
                    if headers_all_ok(lv, 1, first_blank(lv, 1)) {
                        assert(header_of_line(lv[j as int]) is Some);
                    }
                }
                return Err(String::from_str("Expected a Header value"));
            }
            proof {
                assert(htoks@[0]@ == htoks.deep_view()[0]);
                assert(htoks@[1]@ == htoks.deep_view()[1]);
            }
            headers.push(HttpHeader { key: htoks[0].clone(), value: htoks[1].clone() });
            j = j + 1;
        }
        let ghost k = first_blank(lv, 1);
        proof {
            if j < lv.len() {
                assert(lv[j as int] == lines@[j as int]@);
                assert(lv[j as int].len() == 0);
            }
            assert(first_blank(lv, j as int) == j);
            assert(k == j);
        }
        let mut data = String::new();
        let mut t: usize = j;
        while t < lines.len()
            invariant
                j <= t <= lv.len(),
                lv == lines.deep_view(),
                j <= lv.len(),
                body_concat(lv, j as int) == data@ + body_concat(lv, t as int),
            decreases lv.len() - t,
        {
            let ghost before = data@;
            proof {
                assert(lv[t as int] == lines@[t as int]@);
            }
            if !lines[t].as_str().is_empty() {
                data.append(lines[t].as_str());
                proof {
                    assert(before + (lv[t as int] + body_concat(lv, t as int + 1)) =~= data@
                        + body_concat(lv, t as int + 1));
                }
            }
            t = t + 1;
        }
        proof {
            assert(data@ + Seq::<char>::empty() =~= data@);
        }
        Ok(HttpMessage { method, path, version, headers, body: Some(HttpBody { data }) })
    }
}

impl HttpResponse {
    /// Parses the lines of a response. The first line gives version and
    /// status; lines up to the first blank line are headers; non-blank
    /// lines after it run together as the body. Without any lines the
    /// response is all defaults. A start line without a status or a header
    /// line without a value yields nothing.
    pub fn from_lines(lines: &Vec<String>) -> (r: Option<HttpResponse>)
        ensures
            ({
                let lv = lines.deep_view();
                if lv.len() == 0 {
                    r matches Some(m) && m.version@ == Seq::<char>::empty() && m.status@ == Seq::<
                        char,
                    >::empty() && m.headers@.len() == 0 && m.body.data@ == Seq::<char>::empty()
                } else {
                    let toks = split_seq(lv[0], " "@);
                    let k = first_blank(lv, 1);
                    if toks.len() < 2 {
                        r is None
                    } else if !headers_all_ok(lv, 1, k) {
                        r is None
                    } else {
                        r matches Some(m) && m.version@ == toks[0] && m.status@ == toks[1]
                            && headers_match(m.headers@, lv, k) && m.body.data@ == body_concat(
                            lv,
                            k,
                        )
                    }
                }
            }),
    {
        let ghost lv = lines.deep_view();
        if lines.len() == 0 {
            return Some(
                HttpResponse {
                    version: String::new(),
                    status: String::new(),
                    headers: Vec::new(),
                    body: HttpBody { data: String::new() },
                },
            );
        }
        proof {
            assert(lv[0] == lines@[0]@);
            reveal_strlit(" ");
        }
        let toks = split_string(lines[0].as_str(), " ");
        proof {
            assert(toks.deep_view() == split_seq(lv[0], " "@));
            assert(toks@[0]@ == toks.deep_view()[0]);
        }
        if toks.len() < 2 {
            return None;
        }
        proof {
            assert(toks@[1]@ == toks.deep_view()[1]);
        }
        let version = toks[0].clone();
        let status = toks[1].clone();
        let mut headers: Vec<HttpHeader> = Vec::new();
        let mut j: usize = 1;
        while j < lines.len() && !lines[j].as_str().is_empty()
            invariant
                1 <= j <= lv.len(),
                lv == lines.deep_view(),
                first_blank(lv, 1) == first_blank(lv, j as int),
                headers_all_ok(lv, 1, j as int),
                headers_match(headers@, lv, j as int),
            decreases lv.len() - j,
        {
            proof {
                assert(lv[j as int] == lines@[j as int]@);
                assert(lv[j as int].len() != 0);
                reveal_strlit(": ");
            }
            let htoks = split_string(lines[j].as_str(), ": ");
            proof {
                assert(htoks.deep_view() == split_seq(lv[j as int], ": "@));
                lemma_first_blank_bounds(lv, j as int + 1);
            }
            if htoks.len() < 2 {
                proof {
                    assert(header_of_line(lv[j as int]) is None);
                    assert(first_blank(lv, 1) >= j + 1);
                    if headers_all_ok(lv, 1, first_blank(lv, 1)) {
                        assert(header_of_line(lv[j as int]) is Some);
                    }
                }
                return None;
            }
            proof {
                assert(htoks@[0]@ == htoks.deep_view()[0]);
                assert(htoks@[1]@ == htoks.deep_view()[1]);
            }
            headers.push(HttpHeader { key: htoks[0].clone(), value: htoks[1].clone() });
            j = j + 1;
        }
        let ghost k = first_blank(lv, 1);
        proof {
            if j < lv.len() {
                assert(lv[j as int] == lines@[j as int]@);
                assert(lv[j as int].len() == 0);
            }
            assert(first_blank(lv, j as int) == j);
            assert(k == j);
        }
        let mut data = String::new();
        let mut t: usize = j;
        while t < lines.len()
            invariant
                j <= t <= lv.len(),
                lv == lines.deep_view(),
                j <= lv.len(),
                body_concat(lv, j as int) == data@ + body_concat(lv, t as int),
            decreases lv.len() - t,
        {
            let ghost before = data@;
            proof {
                assert(lv[t as int] == lines@[t as int]@);
            }
            if !lines[t].as_str().is_empty() {
                data.append(lines[t].as_str());
                proof {
                    assert(before + (lv[t as int] + body_concat(lv, t as int + 1)) =~= data@
                        + body_concat(lv, t as int + 1));
                }
            }
            t = t + 1;
        }
        proof {
            assert(data@ + Seq::<char>::empty() =~= data@);
        }
        Some(HttpResponse { version, status, headers, body: HttpBody { data } })
    }
}

/// The wire text of one request header line.
pub open spec fn header_wire_text(h: HttpHeader) -> Seq<char> {
    h.key@ + ": "@ + h.value@ + "\r\n"@
}

/// The wire text of a header block, in arrival order.
pub open spec fn headers_wire_text(hs: Seq<HttpHeader>) -> Seq<char>
    decreases hs.len(),
{
    if hs.len() == 0 {
        Seq::empty()
    } else {
        header_wire_text(hs[0]) + headers_wire_text(hs.drop_first())
    }
}

/// A header block's wire text splits around any cut of the block.
proof fn lemma_headers_wire_concat(a: Seq<HttpHeader>, b: Seq<HttpHeader>)
    ensures
        headers_wire_text(a + b) == headers_wire_text(a) + headers_wire_text(b),
    decreases a.len(),
{
    if a.len() == 0 {
        assert(a + b =~= b);
        assert(headers_wire_text(a) + headers_wire_text(b) =~= headers_wire_text(b));
    } else {
        assert((a + b).drop_first() =~= a.drop_first() + b);
        lemma_headers_wire_concat(a.drop_first(), b);
        assert(headers_wire_text(a + b) =~= headers_wire_text(a) + headers_wire_text(b));
    }
}

/// The full wire text of a request: the request line, the header block, and
/// the closing blank line.
pub open spec fn request_text(m: HttpMessage) -> Seq<char> {
    method_view(m.method) + " "@ + m.path@ + " "@ + m.version@ + "\r\n"@ + headers_wire_text(
        m.headers@,
    ) + "\r\n"@
}

/// A client that prepares requests; the caller owns the stream that carries
/// them.
pub struct HttpClient {}

impl HttpClient {
    /// A fresh client.
    pub fn new() -> HttpClient {
        HttpClient {  }
    }

    /// The request `get` sends for a path on a host: a GET under HTTP/1.1
    /// with the Host, User-Agent and Connection headers, and no body.
    pub fn request_message(host: &str, path: &str) -> (r: HttpMessage)
        ensures
            r.method == HttpMethod::Get,
            r.path@ == path@,
            r.version@ == "HTTP/1.1"@,
            r.headers@.len() == 3,
            r.headers@[0].key@ == "Host"@,
            r.headers@[0].value@ == host@,
            r.headers@[1].key@ == "User-Agent"@,
            r.headers@[1].value@ == "rustlib"@,
            r.headers@[2].key@ == "Connection"@,
            r.headers@[2].value@ == "keep-alive"@,
            r.body is None,
    {
        let mut headers: Vec<HttpHeader> = Vec::new();
        headers.push(
            HttpHeader { key: String::from_str("Host"), value: String::from_str(host) },
        );
        headers.push(
            HttpHeader {
                key: String::from_str("User-Agent"),
                value: String::from_str("rustlib"),
            },
        );
        headers.push(
            HttpHeader {
                key: String::from_str("Connection"),
                value: String::from_str("keep-alive"),
            },
        );
        HttpMessage {
            method: HttpMethod::Get,
            path: String::from_str(path),
            version: String::from_str("HTTP/1.1"),
            headers,
            body: None,
        }
    }

    /// The exact bytes a request goes onto the wire as: its wire text in
    /// UTF-8.
    pub fn request_bytes(message: &HttpMessage) -> (r: Vec<u8>)
        ensures
            r@ == vstd::utf8::encode_utf8(request_text(*message)),
    {
        let mut out = message.method.to_string();
        out.append(" ");
        out.append(message.path.as_str());
        out.append(" ");
        out.append(message.version.as_str());
        out.append("\r\n");
        let ghost hs = message.headers@;
        let ghost head = out@;
        let mut j: usize = 0;
        proof {
            assert(hs.take(0) =~= Seq::<HttpHeader>::empty());
            assert(head + headers_wire_text(hs.take(0)) =~= head);
        }
        while j < message.headers.len()
            invariant
                j <= hs.len(),
                hs == message.headers@,
                out@ == head + headers_wire_text(hs.take(j as int)),
            decreases hs.len() - j,
        {
            let ghost before = out@;
            out.append(message.headers[j].key.as_str());
            out.append(": ");
            out.append(message.headers[j].value.as_str());
            out.append("\r\n");
            proof {
                assert(hs.take(j as int + 1) =~= hs.take(j as int) + seq![hs[j as int]]);
                lemma_headers_wire_concat(hs.take(j as int), seq![hs[j as int]]);
                assert(seq![hs[j as int]].drop_first() =~= Seq::<HttpHeader>::empty());
                assert(headers_wire_text(Seq::<HttpHeader>::empty()) == Seq::<char>::empty());
                assert(headers_wire_text(seq![hs[j as int]]) == header_wire_text(hs[j as int])
                    + headers_wire_text(Seq::<HttpHeader>::empty()));
                assert(headers_wire_text(seq![hs[j as int]]) =~= header_wire_text(hs[j as int]));
                assert(out@ =~= before + header_wire_text(hs[j as int]));
            }
            j = j + 1;
        }
        out.append("\r\n");
        proof {
            assert(hs.take(hs.len() as int) =~= hs);
            assert(out@ =~= request_text(*message));
        }
        out.as_str().as_bytes_vec()
    }
}

/// Whether a received buffer opens like a request this layer answers: with
/// the bytes of "GET" or of "POST".
pub fn is_http_request_start(buf: &[u8]) -> (r: bool)
    ensures
        r == ((buf@.len() >= 3 && buf@[0] == 71 && buf@[1] == 69 && buf@[2] == 84) || (buf@.len()
            >= 4 && buf@[0] == 80 && buf@[1] == 79 && buf@[2] == 83 && buf@[3] == 84)),
{
    let n = buf.len();
    if n >= 3 && buf[0] == 71 && buf[1] == 69 && buf[2] == 84 {
        return true;
    }
    if n >= 4 && buf[0] == 80 && buf[1] == 79 && buf[2] == 83 && buf[3] == 84 {
        return true;
    }
    false
}

} // verus!
