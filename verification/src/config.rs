use vstd::prelude::*;
use vstd::string::StringSliceAdditionalSpecFns;
use vstd::utf8::{decode_utf8, encode_utf8, is_char_boundary};

verus! {

/// HTTP method of a configured request.
#[allow(clippy::upper_case_acronyms)]
#[derive(Clone, Copy, Debug, PartialEq, Eq)]
pub enum HttpMethod {
    GET,
    POST,
    PUT,
    DELETE,
    PATCH,
    HEAD,
}

/// The name of a method as it is written in a request line.
pub open spec fn method_name(m: HttpMethod) -> Seq<char> {
    match m {
        HttpMethod::GET => "GET"@,
        HttpMethod::POST => "POST"@,
        HttpMethod::PUT => "PUT"@,
        HttpMethod::DELETE => "DELETE"@,
        HttpMethod::PATCH => "PATCH"@,
        HttpMethod::HEAD => "HEAD"@,
    }
}

impl HttpMethod {
    /// The method's name, as displayed and as sent.
    pub fn as_str(&self) -> (r: &'static str)
        ensures
            r@ == method_name(*self),
    {
        match self {
            HttpMethod::GET => "GET",
            HttpMethod::POST => "POST",
            HttpMethod::PUT => "PUT",
            HttpMethod::DELETE => "DELETE",
            HttpMethod::PATCH => "PATCH",
            HttpMethod::HEAD => "HEAD",
        }
    }
}

/// Configuration for a single HTTP request, loaded from TOML.
pub struct RequestConfig {
    /// Target URL
    pub url: String,
    /// HTTP method
    pub method: HttpMethod,
    /// Headers (name, value)
    pub headers: Vec<(String, String)>,
    /// Optional request body as string
    pub body: Option<String>,
}

impl RequestConfig {
    /// No header name occurs twice (as in the TOML table the headers come from).
    pub open spec fn has_distinct_header_names(&self) -> bool {
        forall|i: int, j: int|
            0 <= i < j < self.headers@.len() ==> (#[trigger] self.headers@[i]).0@
                != (#[trigger] self.headers@[j]).0@
    }
}

/// The ellipsis that marks a shortened text.
pub open spec fn ellipsis() -> Seq<char> {
    seq!['\u{2026}']
}

/// The bytes a cut may keep before the ellipsis when a text is shortened to
/// `max` bytes: `max - 3` (none when `max` is below 3).
pub open spec fn cut_limit(max: int) -> int {
    if max >= 3 {
        max - 3
    } else {
        0
    }
}

/// The last character boundary of `bytes` at or before byte `i`.
pub open spec fn boundary_at_or_before(bytes: Seq<u8>, i: int) -> int
    decreases i,
{
    if i <= 0 {
        0
    } else if is_char_boundary(bytes, i) {
        i
    } else {
        boundary_at_or_before(bytes, i - 1)
    }
}

/// `s` (given by its UTF-8 bytes) shortened to `max` bytes: when longer, its
/// characters up to the last character boundary at or before byte `max - 3`,
/// followed by an ellipsis.
pub open spec fn truncated_text(bytes: Seq<u8>, max: int) -> Seq<char> {
    if bytes.len() > max {
        decode_utf8(bytes.subrange(0, boundary_at_or_before(bytes, cut_limit(max)))) + ellipsis()
    } else {
        decode_utf8(bytes)
    }
}

proof fn lemma_boundary_at_or_before(bytes: Seq<u8>, i: int)
    requires
        vstd::utf8::valid_utf8(bytes),
        i <= bytes.len(),
    ensures
        0 <= boundary_at_or_before(bytes, i),
        i >= 0 ==> boundary_at_or_before(bytes, i) <= i,
        is_char_boundary(bytes, boundary_at_or_before(bytes, i)),
    decreases i,
{
    vstd::utf8::is_char_boundary_start_end_of_seq(bytes);
    if i > 0 && !is_char_boundary(bytes, i) {
        lemma_boundary_at_or_before(bytes, i - 1);
    }
}

proof fn lemma_encode_utf8_concat(a: Seq<char>, b: Seq<char>)
    ensures
        encode_utf8(a + b) == encode_utf8(a) + encode_utf8(b),
    decreases a.len(),
{
    if a.len() == 0 {
        assert(a + b =~= b);
        assert(encode_utf8(a) + encode_utf8(b) =~= encode_utf8(b));
    } else {
        lemma_encode_utf8_concat(a.drop_first(), b);
        assert((a + b).drop_first() =~= a.drop_first() + b);
        assert(encode_utf8(a + b) =~= encode_utf8(a) + encode_utf8(b));
    }
}

proof fn lemma_ellipsis_bytes()
    ensures
        encode_utf8(ellipsis()).len() == 3,
{
    let e = ellipsis();
    assert(e.drop_first() =~= Seq::<char>::empty());
    assert(encode_utf8(e) == vstd::utf8::encode_scalar(0x2026u32) + encode_utf8(e.drop_first()));
    assert(vstd::utf8::has_width_3_encoding(0x2026u32));
}

/// Shorten `s` to at most `max` bytes (for `max` of 3 or more), cutting at a
/// character boundary and marking the cut with an ellipsis.
pub fn truncate(s: &str, max: usize) -> (r: String)
    ensures
        r@ == truncated_text(encode_utf8(s@), max as int),
        encode_utf8(s@).len() <= max ==> r@ == s@,
        max >= 3 ==> encode_utf8(r@).len() <= max,
{
    let bytes = s.as_bytes();
    let n = bytes.len();
    let ghost b = encode_utf8(s@);
    proof {
        vstd::utf8::encode_utf8_decode_utf8(s@);
        vstd::utf8::encode_utf8_valid_utf8(s@);
        assert(bytes@ == b);
    }
    if n > max {
        let limit: usize = if max >= 3 {
            max - 3
        } else {
            0
        };
        let mut cut: usize = limit;
        while cut > 0 && !s.is_char_boundary(cut)
            invariant
                bytes@ == b,
                b == encode_utf8(s@),
                vstd::utf8::valid_utf8(b),
                cut <= limit < n,
                boundary_at_or_before(b, cut as int) == boundary_at_or_before(b, limit as int),
            decreases cut,
        {
            cut = cut - 1;
        }
        proof {
            vstd::utf8::is_char_boundary_start_end_of_seq(b);
            lemma_boundary_at_or_before(b, limit as int);
            assert(boundary_at_or_before(b, cut as int) == cut);
        }
        let (head, _rest) = s.split_at(cut);
        proof {
            vstd::utf8::encode_utf8_decode_utf8(head@);
            reveal_strlit("\u{2026}");
        }
        let mut r = head.to_owned();
        r.append("\u{2026}");
        proof {
            assert("\u{2026}"@ =~= ellipsis());
            assert(head.spec_bytes() == encode_utf8(head@));
            assert(decode_utf8(b.subrange(0, cut as int)) == head@);
            assert(r@ == head@ + ellipsis());
            lemma_encode_utf8_concat(head@, ellipsis());
            lemma_ellipsis_bytes();
            assert(encode_utf8(head@).len() == cut);
        }
        r
    } else {
        s.to_owned()
    }
}

/// `l` without one carriage return at its end.
pub open spec fn strip_cr(l: Seq<char>) -> Seq<char> {
    if l.len() > 0 && l.last() == '\r' {
        l.drop_last()
    } else {
        l
    }
}

/// Reading `s` from the front: the lines ended by a line feed so far, and the
/// characters of the line not yet ended.
pub open spec fn split_state(s: Seq<char>) -> (Seq<Seq<char>>, Seq<char>)
    decreases s.len(),
{
    if s.len() == 0 {
        (Seq::empty(), Seq::empty())
    } else {
        let (done, cur) = split_state(s.drop_last());
        if s.last() == '\n' {
            (done.push(strip_cr(cur)), Seq::empty())
        } else {
            (done, cur.push(s.last()))
        }
    }
}

/// The lines of `s` (what `str::lines` yields): split at each line feed, a
/// carriage return just before the line feed dropped, and no empty line after
/// a final line feed.
pub open spec fn lines_of(s: Seq<char>) -> Seq<Seq<char>> {
    let (done, cur) = split_state(s);
    if cur.len() > 0 {
        done.push(cur)
    } else {
        done
    }
}

/// How many of `total` lines a preview of at most `max` lines shows.
pub open spec fn shown_count(total: int, max: int) -> int {
    if total < max {
        total
    } else {
        max
    }
}

/// `p` is the preview of `text` that shows at most `max` lines: its first
/// lines, and how many lines follow them.
pub open spec fn is_preview(p: (Vec<String>, usize), text: Seq<char>, max: int) -> bool {
    let all = lines_of(text);
    &&& p.0@.len() == shown_count(all.len() as int, max)
    &&& forall|k: int| 0 <= k < p.0@.len() ==> #[trigger] p.0@[k]@ == all[k]
    &&& p.1 == all.len() - p.0@.len()
}

/// The first `max_lines` lines of `content`, and how many lines follow them.
pub fn preview_lines(content: &str, max_lines: usize) -> (r: (Vec<String>, usize))
    ensures
        is_preview(r, content@, max_lines as int),
{
    let cs = crate::text::chars_of(content);
    let n = cs.len();
    let mut shown: Vec<String> = Vec::new();
    let mut count: usize = 0;
    let mut start: usize = 0;
    let ghost mut done: Seq<Seq<char>> = Seq::empty();
    let mut i: usize = 0;
    while i < n
        invariant
            n == cs@.len(),
            cs@ == content@,
            i <= n,
            start <= i,
            split_state(cs@.take(i as int)) == (done, cs@.subrange(start as int, i as int)),
            count == done.len(),
            count <= start,
            shown@.len() == shown_count(count as int, max_lines as int),
            forall|k: int| 0 <= k < shown@.len() ==> #[trigger] shown@[k]@ == done[k],
        decreases n - i,
    {
        proof {
            assert(cs@.take(i + 1).drop_last() =~= cs@.take(i as int));
        }
        if cs[i] == '\n' {
            let cur = Ghost(cs@.subrange(start as int, i as int));
            let end = if i > start && cs[i - 1] == '\r' {
                i - 1
            } else {
                i
            };
            proof {
                assert(strip_cr(cur@) =~= cs@.subrange(start as int, end as int));
            }
            if count < max_lines {
                let line = content.substring_char(start, end).to_owned();
                shown.push(line);
            }
            proof {
                done = done.push(strip_cr(cur@));
                assert(cs@.subrange((i + 1) as int, (i + 1) as int) =~= Seq::<char>::empty());
            }
            count = count + 1;
            start = i + 1;
        } else {
            proof {
                assert(cs@.subrange(start as int, i + 1) =~= cs@.subrange(start as int, i as int).push(cs@[i as int]));
            }
        }
        i = i + 1;
    }
    proof {
        assert(cs@.take(n as int) =~= cs@);
    }
    if start < n {
        if count < max_lines {
            let line = content.substring_char(start, n).to_owned();
            shown.push(line);
        }
        proof {
            done = done.push(cs@.subrange(start as int, n as int));
        }
        count = count + 1;
    }
    let hidden = count - shown.len();
    (shown, hidden)
}

/// Whether `serde_json` reads the text `s` as one JSON document.
pub uninterp spec fn parses_as_json(s: Seq<char>) -> bool;

/// The text `serde_json` renders, with its pretty printer, for the JSON
/// document read from `s`.
pub uninterp spec fn pretty_json(s: Seq<char>) -> Seq<char>;

/// Calls `serde_json::from_str::<serde_json::Value>` and, on the document it
/// reads, `serde_json::to_string_pretty`. A text comes back exactly when the
/// input parses (pretty-printing a parsed `Value` cannot fail: its map keys
/// are strings), and it is the pretty-printed text of that document, which
/// `serde_json` reads back as JSON. That it reads back as the same document is
/// not stated: documents are opaque here.
#[verifier::external_body]
fn pretty_print_json(s: &str) -> (r: Option<String>)
    ensures
        r is Some <==> parses_as_json(s@),
        r matches Some(t) ==> t@ == pretty_json(s@),
        r matches Some(t) ==> parses_as_json(t@),
{
    match serde_json::from_str::<serde_json::Value>(s) {
        Ok(v) => serde_json::to_string_pretty(&v).ok(),
        Err(_) => None,
    }
}

/// A body as the display shows it: the pretty-printed JSON document when the
/// body parses as JSON, else the body itself.
pub open spec fn formatted_body(b: Seq<char>) -> Seq<char> {
    if parses_as_json(b) {
        pretty_json(b)
    } else {
        b
    }
}

/// Every body that parses as JSON is displayed as the pretty-printed
/// document, whatever its length or shape; every other body is displayed as
/// it is, character for character.
pub proof fn lemma_json_bodies_are_pretty_printed(b: Seq<char>)
    ensures
        parses_as_json(b) ==> formatted_body(b) == pretty_json(b),
        !parses_as_json(b) ==> formatted_body(b) == b,
{
}

/// A request body as displayed: pretty-printed when it is JSON, else as it is.
pub fn format_body(body: &str) -> (r: String)
    ensures
        r@ == formatted_body(body@),
        parses_as_json(body@) ==> r@ == pretty_json(body@),
        !parses_as_json(body@) ==> r@ == body@,
        parses_as_json(body@) ==> parses_as_json(r@),
{
    match pretty_print_json(body) {
        Some(pretty) => pretty,
        None => body.to_owned(),
    }
}

/// How wide the displayed URL may be, in bytes.
pub const URL_WIDTH: usize = 60;

/// How wide a displayed header value may be, in bytes.
pub const HEADER_VALUE_WIDTH: usize = 50;

/// How many lines of the body are displayed.
pub const BODY_PREVIEW_LINES: usize = 10;

/// What the configuration display shows.
pub struct ConfigSummary {
    /// The URL, shortened to `URL_WIDTH` bytes
    pub url: String,
    /// The method's name
    pub method: &'static str,
    /// The headers, each value shortened to `HEADER_VALUE_WIDTH` bytes
    pub headers: Vec<(String, String)>,
    /// The first lines of the (formatted) body and how many lines follow
    pub body_preview: Option<(Vec<String>, usize)>,
}

impl RequestConfig {
    /// What the display of the configuration shows: the URL, the method, the
    /// headers and the start of the body.
    pub fn summary(&self) -> (r: ConfigSummary)
        ensures
            r.url@ == truncated_text(encode_utf8(self.url@), URL_WIDTH as int),
            r.method@ == method_name(self.method),
            r.headers@.len() == self.headers@.len(),
            forall|k: int|
                0 <= k < r.headers@.len() ==> {
                    &&& (#[trigger] r.headers@[k]).0@ == self.headers@[k].0@
                    &&& r.headers@[k].1@ == truncated_text(
                        encode_utf8(self.headers@[k].1@),
                        HEADER_VALUE_WIDTH as int,
                    )
                },
            self.body is None <==> r.body_preview is None,
            r.body_preview matches Some(p) ==> p.0@.len() <= BODY_PREVIEW_LINES,
            self.body matches Some(b) ==> is_preview(
                r.body_preview->0,
                formatted_body(b@),
                BODY_PREVIEW_LINES as int,
            ),
            self.body matches Some(b) ==> (parses_as_json(b@) ==> is_preview(
                r.body_preview->0,
                pretty_json(b@),
                BODY_PREVIEW_LINES as int,
            )),
            self.body matches Some(b) ==> (!parses_as_json(b@) ==> is_preview(
                r.body_preview->0,
                b@,
                BODY_PREVIEW_LINES as int,
            )),
    {
        let url = truncate(self.url.as_str(), URL_WIDTH);
        let method = self.method.as_str();
        let mut headers: Vec<(String, String)> = Vec::new();
        let mut k: usize = 0;
        while k < self.headers.len()
            invariant
                k <= self.headers@.len(),
                headers@.len() == k,
                forall|j: int|
                    0 <= j < k ==> {
                        &&& (#[trigger] headers@[j]).0@ == self.headers@[j].0@
                        &&& headers@[j].1@ == truncated_text(
                            encode_utf8(self.headers@[j].1@),
                            HEADER_VALUE_WIDTH as int,
                        )
                    },
            decreases self.headers@.len() - k,
        {
            let name = self.headers[k].0.clone();
            let value = truncate(self.headers[k].1.as_str(), HEADER_VALUE_WIDTH);
            headers.push((name, value));
            k = k + 1;
        }
        let body_preview = match &self.body {
            Some(body) => {
                let formatted = format_body(body.as_str());
                Some(preview_lines(formatted.as_str(), BODY_PREVIEW_LINES))
            },
            None => None,
        };
        ConfigSummary { url, method, headers, body_preview }
    }
}

} // verus!
