//! HTTP/1.1 requests, parsed from the bytes read off a connection.
//!
//! A request is a head and a body separated by an empty line:
//!
//! ```text
//! Method Request-URI HTTP-Version CRLF
//! headers CRLF
//! message-body
//! ```
use crate::error::{Error, Result};
use vstd::prelude::*;

verus! {

/// Marker type for the protocol this crate speaks.
pub struct Http;

/// The request methods this server knows.
#[derive(Debug, Clone, Copy, PartialEq, Eq, Structural)]
pub enum Method {
    Get,
    Put,
    Post,
    Delete,
}

/// The protocol versions this server knows.
#[derive(Debug, Clone, Copy, PartialEq, Eq, Structural)]
pub enum Version {
    OnePointOne,
}

/// Response status codes.
#[derive(Debug, Clone, Copy, PartialEq, Eq, Structural)]
pub enum StatusCode {
    Success,
    NotFound,
    InternalServerError,
}

/// What a parsed request holds, in the model.
pub struct RequestView {
    pub method: Method,
    pub uri: Seq<char>,
    pub version: Version,
    /// Header names in lower case; a name given twice keeps its last value.
    pub headers: Map<Seq<char>, Seq<char>>,
    pub body: Seq<u8>,
}

/// A parsed HTTP request.
pub struct Request {
    method: Method,
    uri: String,
    path: Vec<char>,
    version: Version,
    headers: Vec<(Vec<char>, Vec<char>)>,
    body: Vec<u8>,
}

// ---------------------------------------------------------------------------
// The grammar, as spec functions.

/// `s[i..i + 4]` is the empty line `\r\n\r\n` that ends the head.
pub open spec fn is_separator_at(b: Seq<u8>, i: int) -> bool {
    &&& 0 <= i
    &&& i + 4 <= b.len()
    &&& b[i] == 13u8
    &&& b[i + 1] == 10u8
    &&& b[i + 2] == 13u8
    &&& b[i + 3] == 10u8
}

/// The first position at or after `i` where the separator starts.
pub open spec fn separator_from(b: Seq<u8>, i: int) -> Option<int>
    decreases b.len() - i,
{
    if i < 0 || i + 4 > b.len() {
        None
    } else if is_separator_at(b, i) {
        Some(i)
    } else {
        separator_from(b, i + 1)
    }
}

/// `s` ends in a line break.
pub open spec fn ends_with_crlf(s: Seq<char>) -> bool {
    s.len() >= 2 && s[s.len() - 2] == '\r' && s[s.len() - 1] == '\n'
}

/// The pieces of `s` between line breaks `\r\n`; there is always at least one.
pub open spec fn lines(s: Seq<char>) -> Seq<Seq<char>>
    decreases s.len(),
{
    if s.len() == 0 {
        seq![Seq::<char>::empty()]
    } else if ends_with_crlf(s) {
        lines(s.subrange(0, s.len() - 2)).push(Seq::<char>::empty())
    } else {
        let l = lines(s.drop_last());
        l.update(l.len() - 1, l.last().push(s.last()))
    }
}

/// Unicode white space, as `char::is_whitespace` has it.
pub open spec fn is_white(c: char) -> bool {
    let u = c as u32;
    (9 <= u <= 13) || u == 32 || u == 0x85 || u == 0xA0 || u == 0x1680 || (0x2000 <= u
        <= 0x200A) || u == 0x2028 || u == 0x2029 || u == 0x202F || u == 0x205F || u == 0x3000
}

/// The maximal runs of non-white characters of `s`, in order.
pub open spec fn words(s: Seq<char>) -> Seq<Seq<char>>
    decreases s.len(),
{
    if s.len() == 0 {
        Seq::empty()
    } else {
        let w = words(s.drop_last());
        let c = s.last();
        if is_white(c) {
            w
        } else if s.len() >= 2 && !is_white(s[s.len() - 2]) {
            w.update(w.len() - 1, w.last().push(c))
        } else {
            w.push(seq![c])
        }
    }
}

/// The first position at or after `k` where `": "` starts in `l`.
pub open spec fn colon_from(l: Seq<char>, k: int) -> Option<int>
    decreases l.len() - k,
{
    if k < 0 || k + 2 > l.len() {
        None
    } else if l[k] == ':' && l[k + 1] == ' ' {
        Some(k)
    } else {
        colon_from(l, k + 1)
    }
}

/// ASCII upper case letters become lower case; all else stays.
pub open spec fn lower_char(c: char) -> char {
    if 'A' <= c <= 'Z' {
        (((c as u32) + 32) as u8) as char
    } else {
        c
    }
}

pub open spec fn lower(s: Seq<char>) -> Seq<char> {
    s.map_values(|c: char| lower_char(c))
}

/// The name (lower case) and value of header line `l`, split at its first `": "`.
pub open spec fn header_of(l: Seq<char>) -> (Seq<char>, Seq<char>) {
    let k = colon_from(l, 0)->Some_0;
    (lower(l.subrange(0, k)), l.subrange(k + 2, l.len() as int))
}

pub open spec fn all_headers_valid(ls: Seq<Seq<char>>) -> bool {
    forall|i: int| 0 <= i < ls.len() ==> (#[trigger] colon_from(ls[i], 0)) is Some
}

/// Header name and value pairs folded into a map, later pairs overriding
/// earlier ones.
pub open spec fn header_map(ps: Seq<(Seq<char>, Seq<char>)>) -> Map<Seq<char>, Seq<char>>
    decreases ps.len(),
{
    if ps.len() == 0 {
        Map::empty()
    } else {
        header_map(ps.drop_last()).insert(ps.last().0, ps.last().1)
    }
}

pub open spec fn method_of(w: Seq<char>) -> Option<Method> {
    if w == seq!['G', 'E', 'T'] {
        Some(Method::Get)
    } else if w == seq!['P', 'U', 'T'] {
        Some(Method::Put)
    } else if w == seq!['P', 'O', 'S', 'T'] {
        Some(Method::Post)
    } else if w == seq!['D', 'E', 'L', 'E', 'T', 'E'] {
        Some(Method::Delete)
    } else {
        None
    }
}

pub open spec fn version_of(w: Seq<char>) -> Option<Version> {
    if w == seq!['H', 'T', 'T', 'P', '/', '1', '.', '1'] {
        Some(Version::OnePointOne)
    } else {
        None
    }
}

/// The request that a decoded head and a body make, or why they make none.
pub open spec fn request_of(head: Seq<char>, body: Seq<u8>) -> core::result::Result<
    RequestView,
    Error,
> {
    let ls = lines(head);
    let parts = words(ls[0]);
    let header_lines = ls.drop_first();
    if parts.len() != 3 {
        Err(Error::InvalidRequestLine)
    } else if method_of(parts[0]) is None {
        Err(Error::InvalidMethod)
    } else if version_of(parts[2]) is None {
        Err(Error::InvalidVersion)
    } else if !all_headers_valid(header_lines) {
        Err(Error::InvalidHeader)
    } else {
        Ok(
            RequestView {
                method: method_of(parts[0])->Some_0,
                uri: parts[1],
                version: version_of(parts[2])->Some_0,
                headers: header_map(header_lines.map_values(|l: Seq<char>| header_of(l))),
                body,
            },
        )
    }
}

/// What `String::from_utf8_lossy` makes of `b`.
pub uninterp spec fn lossy_utf8(b: Seq<u8>) -> Seq<char>;

/// The request read from buffer `b`, or why there is none.
pub open spec fn request_from_buffer(b: Seq<u8>) -> core::result::Result<RequestView, Error> {
    match separator_from(b, 0) {
        None => Err(Error::MissingSeparator),
        Some(p) => request_of(lossy_utf8(b.subrange(0, p)), b.subrange(p + 4, b.len() as int)),
    }
}

pub open spec fn views(v: Seq<Vec<char>>) -> Seq<Seq<char>> {
    v.map_values(|x: Vec<char>| x@)
}

// ---------------------------------------------------------------------------
// Calls into std.

/// Relies on `String::from_utf8_lossy`: the bytes decoded as UTF-8, with each
/// invalid sequence replaced by U+FFFD. Valid UTF-8, and ASCII in particular,
/// comes back unchanged, one character per byte.
#[verifier::external_body]
fn decode_lossy(b: &[u8]) -> (r: Vec<char>)
    ensures
        r@ == lossy_utf8(b@),
        (forall|i: int| 0 <= i < b@.len() ==> b@[i] < 128) ==> {
            &&& r@.len() == b@.len()
            &&& forall|i: int| 0 <= i < b@.len() ==> r@[i] as u32 == b@[i] as u32
        },
{
    String::from_utf8_lossy(b).chars().collect()
}

/// Relies on `String::from_iter` over chars: the string holds them in order.
#[verifier::external_body]
pub(crate) fn string_from_chars(c: &Vec<char>) -> (r: String)
    ensures
        r@ == c@,
{
    String::from_iter(c.iter())
}

// ---------------------------------------------------------------------------
// Executable parsing.

fn is_white_char(c: char) -> (r: bool)
    ensures
        r == is_white(c),
{
    let u = c as u32;
    (9 <= u && u <= 13) || u == 32 || u == 0x85 || u == 0xA0 || u == 0x1680 || (0x2000 <= u
        && u <= 0x200A) || u == 0x2028 || u == 0x2029 || u == 0x202F || u == 0x205F || u
        == 0x3000
}

fn lower_char_exec(c: char) -> (r: char)
    ensures
        r == lower_char(c),
{
    if 'A' <= c && c <= 'Z' {
        (((c as u32) + 32) as u8) as char
    } else {
        c
    }
}

/// The first position of `\r\n\r\n` in `b`.
fn find_separator(b: &[u8]) -> (r: Option<usize>)
    ensures
        match r {
            Some(p) => separator_from(b@, 0) == Some(p as int),
            None => separator_from(b@, 0) is None,
        },
{
    if b.len() < 4 {
        return None;
    }
    let mut i: usize = 0;
    while i <= b.len() - 4
        invariant
            b@.len() >= 4,
            i <= b@.len() - 3,
            separator_from(b@, 0) == separator_from(b@, i as int),
        decreases b@.len() - i,
    {
        if b[i] == 13u8 && b[i + 1] == 10u8 && b[i + 2] == 13u8 && b[i + 3] == 10u8 {
            return Some(i);
        }
        i = i + 1;
    }
    None
}

/// `s` cut at every `\r\n`.
fn split_lines(s: &Vec<char>) -> (r: Vec<Vec<char>>)
    ensures
        views(r@) == lines(s@),
{
    let mut done: Vec<Vec<char>> = Vec::new();
    let mut cur: Vec<char> = Vec::new();
    let mut i: usize = 0;
    while i < s.len()
        invariant
            i <= s@.len(),
            lines(s@.subrange(0, i as int)) == views(done@).push(cur@),
            0 < i < s@.len() ==> !(s@[i - 1] == '\r' && s@[i as int] == '\n'),
        decreases s@.len() - i,
    {
        let ghost before = s@.subrange(0, i as int);
        if i + 1 < s.len() && s[i] == '\r' && s[i + 1] == '\n' {
            let ghost after = s@.subrange(0, i + 2);
            assert(after.subrange(0, after.len() - 2) =~= before);
            assert(ends_with_crlf(after));
            done.push(cur);
            cur = Vec::new();
            i = i + 2;
            assert(views(done@).push(cur@) =~= lines(before).push(Seq::<char>::empty()));
        } else {
            let ghost after = s@.subrange(0, i + 1);
            assert(after.drop_last() =~= before);
            assert(!ends_with_crlf(after));
            cur.push(s[i]);
            i = i + 1;
            assert(views(done@).push(cur@) =~= lines(after));
        }
    }
    assert(s@.subrange(0, s@.len() as int) =~= s@);
    done.push(cur);
    done
}

/// The maximal runs of non-white characters of `s`.
fn split_words(s: &Vec<char>) -> (r: Vec<Vec<char>>)
    ensures
        views(r@) == words(s@),
{
    let mut done: Vec<Vec<char>> = Vec::new();
    let mut cur: Vec<char> = Vec::new();
    let mut i: usize = 0;
    while i < s.len()
        invariant
            i <= s@.len(),
            cur@.len() > 0 <==> (i > 0 && !is_white(s@[i - 1])),
            words(s@.subrange(0, i as int)) == if cur@.len() > 0 {
                views(done@).push(cur@)
            } else {
                views(done@)
            },
        decreases s@.len() - i,
    {
        let ghost before = s@.subrange(0, i as int);
        let ghost after = s@.subrange(0, i + 1);
        assert(after.drop_last() =~= before);
        let c = s[i];
        proof {
            assert(after.last() == c);
            if i > 0 {
                assert(after[i - 1] == s@[i - 1]);
            }
        }
        let ghost old_done = views(done@);
        let ghost old_cur = cur@;
        let ghost w = words(before);
        if is_white_char(c) {
            if cur.len() > 0 {
                done.push(cur);
                cur = Vec::new();
                assert(views(done@) =~= old_done.push(old_cur));
            }
            assert(words(after) == w);
        } else {
            if cur.len() > 0 {
                assert(words(after) == w.update(w.len() - 1, w.last().push(c)));
                assert(w == old_done.push(old_cur));
                cur.push(c);
                assert(cur@ =~= old_cur.push(c));
                assert(w.last() == old_cur);
                assert(w.update(w.len() - 1, old_cur.push(c)) =~= old_done.push(cur@));
                assert(views(done@) == old_done);
            } else {
                assert(words(after) == w.push(seq![c]));
                cur.push(c);
                assert(cur@ =~= seq![c]);
                assert(views(done@) == old_done);
            }
        }
        i = i + 1;
    }
    assert(s@.subrange(0, s@.len() as int) =~= s@);
    if cur.len() > 0 {
        done.push(cur);
    }
    assert(views(done@) =~= words(s@));
    done
}

/// The position of the first `": "` in `l`.
fn find_colon(l: &Vec<char>) -> (r: Option<usize>)
    ensures
        match r {
            Some(k) => colon_from(l@, 0) == Some(k as int),
            None => colon_from(l@, 0) is None,
        },
{
    let mut k: usize = 0;
    while l.len() >= 2 && k <= l.len() - 2
        invariant
            colon_from(l@, 0) == colon_from(l@, k as int),
        decreases l@.len() - k,
    {
        if l[k] == ':' && l[k + 1] == ' ' {
            return Some(k);
        }
        k = k + 1;
    }
    None
}

/// The lower-case name and the value of a valid header line.
fn split_header(l: &Vec<char>, k: usize) -> (r: (Vec<char>, Vec<char>))
    requires
        colon_from(l@, 0) == Some(k as int),
    ensures
        (r.0@, r.1@) == header_of(l@),
{
    proof {
        lemma_colon_from_in_range(l@, 0);
    }
    let n = l.len();
    let mut name: Vec<char> = Vec::new();
    let mut i: usize = 0;
    while i < k
        invariant
            k + 2 <= l@.len(),
            i <= k,
            name@ =~= lower(l@.subrange(0, i as int)),
        decreases k - i,
    {
        name.push(lower_char_exec(l[i]));
        i = i + 1;
    }
    let mut value: Vec<char> = Vec::new();
    let mut j: usize = k + 2;
    while j < n
        invariant
            n == l@.len(),
            k + 2 <= j <= l@.len(),
            value@ =~= l@.subrange(k + 2, j as int),
        decreases l@.len() - j,
    {
        value.push(l[j]);
        j = j + 1;
    }
    (name, value)
}

proof fn lemma_lines_nonempty(s: Seq<char>)
    ensures
        lines(s).len() >= 1,
    decreases s.len(),
{
    if s.len() > 0 {
        if ends_with_crlf(s) {
            lemma_lines_nonempty(s.subrange(0, s.len() - 2));
        } else {
            lemma_lines_nonempty(s.drop_last());
        }
    }
}

proof fn lemma_colon_from_in_range(l: Seq<char>, k: int)
    requires
        colon_from(l, k) is Some,
    ensures
        k <= colon_from(l, k)->Some_0,
        colon_from(l, k)->Some_0 + 2 <= l.len(),
    decreases l.len() - k,
{
    if !(k < 0 || k + 2 > l.len()) && !(l[k] == ':' && l[k + 1] == ' ') {
        lemma_colon_from_in_range(l, k + 1);
    }
}

fn copy_range(b: &[u8], lo: usize, hi: usize) -> (r: Vec<u8>)
    requires
        lo <= hi <= b@.len(),
    ensures
        r@ == b@.subrange(lo as int, hi as int),
{
    let mut out: Vec<u8> = Vec::new();
    let mut i: usize = lo;
    while i < hi
        invariant
            lo <= i <= hi,
            hi <= b@.len(),
            out@ =~= b@.subrange(lo as int, i as int),
        decreases hi - i,
    {
        out.push(b[i]);
        i = i + 1;
    }
    out
}

proof fn lemma_separator_in_range(b: Seq<u8>, i: int)
    requires
        separator_from(b, i) is Some,
    ensures
        i <= separator_from(b, i)->Some_0,
        separator_from(b, i)->Some_0 + 4 <= b.len(),
    decreases b.len() - i,
{
    if !(i < 0 || i + 4 > b.len()) && !is_separator_at(b, i) {
        lemma_separator_in_range(b, i + 1);
    }
}

impl Method {
    /// The method named by `w`, if any.
    pub fn parse(w: &Vec<char>) -> (r: Option<Method>)
        ensures
            r == method_of(w@),
    {
        let n = w.len();
        if n == 3 && w[0] == 'G' && w[1] == 'E' && w[2] == 'T' {
            assert(w@ =~= seq!['G', 'E', 'T']);
            Some(Method::Get)
        } else if n == 3 && w[0] == 'P' && w[1] == 'U' && w[2] == 'T' {
            assert(w@ =~= seq!['P', 'U', 'T']);
            Some(Method::Put)
        } else if n == 4 && w[0] == 'P' && w[1] == 'O' && w[2] == 'S' && w[3] == 'T' {
            assert(w@ =~= seq!['P', 'O', 'S', 'T']);
            Some(Method::Post)
        } else if n == 6 && w[0] == 'D' && w[1] == 'E' && w[2] == 'L' && w[3] == 'E' && w[4]
            == 'T' && w[5] == 'E' {
            assert(w@ =~= seq!['D', 'E', 'L', 'E', 'T', 'E']);
            Some(Method::Delete)
        } else {
            proof {
                assert(seq!['G', 'E', 'T'][0] == 'G');
                assert(seq!['P', 'U', 'T'][1] == 'U');
                assert(seq!['P', 'O', 'S', 'T'][1] == 'O');
                assert(seq!['D', 'E', 'L', 'E', 'T', 'E'][5] == 'E');
            }
            None
        }
    }
}

impl Version {
    /// The version named by `w`: only `HTTP/1.1` is known.
    pub fn parse(w: &Vec<char>) -> (r: Option<Version>)
        ensures
            r == version_of(w@),
    {
        if w.len() == 8 && w[0] == 'H' && w[1] == 'T' && w[2] == 'T' && w[3] == 'P' && w[4]
            == '/' && w[5] == '1' && w[6] == '.' && w[7] == '1' {
            assert(w@ =~= seq!['H', 'T', 'T', 'P', '/', '1', '.', '1']);
            Some(Version::OnePointOne)
        } else {
            proof {
                let v = seq!['H', 'T', 'T', 'P', '/', '1', '.', '1'];
                assert(v.len() == 8);
                if w@ == v {
                    assert(w@[0] == v[0] && w@[1] == v[1] && w@[2] == v[2] && w@[3] == v[3]);
                    assert(w@[4] == v[4] && w@[5] == v[5] && w@[6] == v[6] && w@[7] == v[7]);
                }
            }
            None
        }
    }
}

impl StatusCode {
    /// The numeric code.
    pub fn code(&self) -> (r: u32)
        ensures
            r == match self {
                StatusCode::Success => 200u32,
                StatusCode::NotFound => 404u32,
                StatusCode::InternalServerError => 505u32,
            },
    {
        match self {
            StatusCode::Success => 200,
            StatusCode::NotFound => 404,
            StatusCode::InternalServerError => 505,
        }
    }

    /// The reason phrase.
    pub fn reason(&self) -> (r: &'static str)
        ensures
            r@ == match self {
                StatusCode::Success => "OK"@,
                StatusCode::NotFound => "NOT FOUND"@,
                StatusCode::InternalServerError => "INTERNAL SERVER ERROR"@,
            },
    {
        match self {
            StatusCode::Success => "OK",
            StatusCode::NotFound => "NOT FOUND",
            StatusCode::InternalServerError => "INTERNAL SERVER ERROR",
        }
    }
}

impl From<StatusCode> for u32 {
    fn from(value: StatusCode) -> (r: u32) {
        value.code()
    }
}

impl vstd::std_specs::convert::FromSpecImpl<StatusCode> for u32 {
    open spec fn obeys_from_spec() -> bool {
        true
    }

    open spec fn from_spec(v: StatusCode) -> u32 {
        match v {
            StatusCode::Success => 200u32,
            StatusCode::NotFound => 404u32,
            StatusCode::InternalServerError => 505u32,
        }
    }
}

impl Request {
    /// What the request holds.
    pub closed spec fn view(&self) -> RequestView {
        RequestView {
            method: self.method,
            uri: self.path@,
            version: self.version,
            headers: header_map(
                self.headers@.map_values(|h: (Vec<char>, Vec<char>)| (h.0@, h.1@)),
            ),
            body: self.body@,
        }
    }

    pub closed spec fn wf(&self) -> bool {
        self.uri@ == self.path@
    }

    /// Parses the bytes of a request: the head up to the first empty line,
    /// decoded as UTF-8 with invalid sequences replaced, and the body after it.
    pub fn from_buffer(buffer: &[u8]) -> (r: Result<Self>)
        ensures
            match r {
                Ok(req) => req.wf() && request_from_buffer(buffer@) == Ok::<RequestView, Error>(
                    req.view(),
                ),
                Err(e) => request_from_buffer(buffer@) == Err::<RequestView, Error>(e),
            },
    {
        let pos = match find_separator(buffer) {
            Some(p) => p,
            None => return Err(Error::MissingSeparator),
        };
        proof {
            lemma_separator_in_range(buffer@, 0);
        }
        let n = buffer.len();
        let head_bytes = copy_range(buffer, 0, pos);
        let body = copy_range(buffer, pos + 4, n);
        let head = decode_lossy(head_bytes.as_slice());
        Self::from_head(&head, body)
    }

    /// Parses a request from its head, already decoded, and its body.
    pub fn from_head(head: &Vec<char>, body: Vec<u8>) -> (r: Result<Self>)
        ensures
            match r {
                Ok(req) => req.wf() && request_of(head@, body@) == Ok::<RequestView, Error>(
                    req.view(),
                ),
                Err(e) => request_of(head@, body@) == Err::<RequestView, Error>(e),
            },
    {
        let ls = split_lines(head);
        proof {
            lemma_lines_nonempty(head@);
        }
        if ls.len() == 0 {
            return Err(Error::MissingRequestLine);
        }
        let parts = split_words(&ls[0]);
        proof {
            assert(views(ls@)[0] == ls@[0]@);
            if parts@.len() == 3 {
                assert(views(parts@)[0] == parts@[0]@);
                assert(views(parts@)[1] == parts@[1]@);
                assert(views(parts@)[2] == parts@[2]@);
            }
        }
        if parts.len() != 3 {
            return Err(Error::InvalidRequestLine);
        }
        let method = match Method::parse(&parts[0]) {
            Some(m) => m,
            None => return Err(Error::InvalidMethod),
        };
        let version = match Version::parse(&parts[2]) {
            Some(v) => v,
            None => return Err(Error::InvalidVersion),
        };
        let ghost header_lines = views(ls@).drop_first();
        let ghost first = words(lines(head@)[0]);
        let mut headers: Vec<(Vec<char>, Vec<char>)> = Vec::new();
        let mut k: usize = 1;
        while k < ls.len()
            invariant
                1 <= k <= ls@.len(),
                header_lines == views(ls@).drop_first(),
                views(ls@) == lines(head@),
                first == words(lines(head@)[0]),
                parts@.len() == 3,
                views(parts@) == first,
                method_of(first[0]) == Some(method),
                version_of(first[2]) == Some(version),
                all_headers_valid(header_lines.subrange(0, k - 1)),
                headers@.len() == k - 1,
                forall|i: int|
                    0 <= i < k - 1 ==> (#[trigger] headers@[i].0@, headers@[i].1@) == header_of(
                        header_lines[i],
                    ),
            decreases ls@.len() - k,
        {
            match find_colon(&ls[k]) {
                None => {
                    proof {
                        assert(header_lines[k - 1] == ls@[k as int]@);
                        assert(colon_from(header_lines[k - 1], 0) is None);
                        assert(!all_headers_valid(header_lines));
                        assert(request_of(head@, body@) == Err::<RequestView, Error>(
                            Error::InvalidHeader,
                        ));
                    }
                    return Err(Error::InvalidHeader);
                },
                Some(c) => {
                    assert(header_lines[k - 1] == ls@[k as int]@);
                    let h = split_header(&ls[k], c);
                    headers.push(h);
                    k = k + 1;
                    proof {
                        assert forall|i: int| 0 <= i < k - 1 implies (#[trigger] colon_from(
                            header_lines.subrange(0, k - 1)[i],
                            0,
                        )) is Some by {
                            if i < k - 2 {
                                assert(header_lines.subrange(0, k - 2)[i] == header_lines[i]);
                            }
                        }
                    }
                },
            }
        }
        proof {
            assert(header_lines.subrange(0, k - 1) =~= header_lines);
            assert(headers@.map_values(|h: (Vec<char>, Vec<char>)| (h.0@, h.1@))
                =~= header_lines.map_values(|l: Seq<char>| header_of(l)));
        }
        let mut parts = parts;
        let path = parts.remove(1);
        let uri = string_from_chars(&path);
        Ok(Request { method, uri, path, version, headers, body })
    }

    /// The request URI, as characters.
    pub fn uri_chars(&self) -> (r: &Vec<char>)
        ensures
            r@ == self.view().uri,
    {
        &self.path
    }

    pub fn is_get(&self) -> (r: bool)
        ensures
            r == (self.view().method == Method::Get),
    {
        self.method == Method::Get
    }

    pub fn uri(&self) -> (r: &str)
        requires
            self.wf(),
        ensures
            r@ == self.view().uri,
    {
        self.uri.as_str()
    }
}

} // verus!
