use std::str::FromStr;
use vstd::prelude::*;
use vstd::utf8::encode_utf8;

use crate::config::RequestConfig;

verus! {

/// Bytes allowed in an HTTP header name (RFC 7230 token characters).
pub open spec fn is_token_byte(b: u8) -> bool {
    ||| 0x30 <= b <= 0x39  // digits
    ||| 0x41 <= b <= 0x5a  // upper-case letters
    ||| 0x61 <= b <= 0x7a  // lower-case letters
    ||| b == 0x21 || b == 0x23 || b == 0x24 || b == 0x25 || b == 0x26 || b == 0x27  // ! # $ % & '
    ||| b == 0x2a || b == 0x2b || b == 0x2d || b == 0x2e  // * + - .
    ||| b == 0x5e || b == 0x5f || b == 0x60 || b == 0x7c || b == 0x7e  // ^ _ ` | ~
}

/// The longest header name the `http` crate accepts, in bytes.
pub open spec fn max_header_name_len() -> int {
    65535
}

/// Whether the bytes form a header name that `HeaderName::from_str` accepts:
/// between 1 and 65535 token bytes.
pub open spec fn valid_header_name(bytes: Seq<u8>) -> bool {
    &&& 0 < bytes.len() <= max_header_name_len()
    &&& forall|i: int| 0 <= i < bytes.len() ==> is_token_byte(#[trigger] bytes[i])
}

/// Whether the bytes form a header value that `HeaderValue::from_str`
/// accepts: every byte is a tab or at least 32, but not 127.
pub open spec fn valid_header_value(bytes: Seq<u8>) -> bool {
    forall|i: int|
        0 <= i < bytes.len() ==> {
            let b = #[trigger] bytes[i];
            (b >= 32 && b != 127) || b == 9
        }
}

/// Calls `reqwest::header::HeaderName::from_str` (the `http` crate's); its
/// source accepts exactly the non-empty names of at most 65535 token bytes.
#[verifier::external_body]
fn header_name_is_valid(name: &str) -> (r: bool)
    ensures
        r == valid_header_name(encode_utf8(name@)),
{
    reqwest::header::HeaderName::from_str(name).is_ok()
}

/// Calls `reqwest::header::HeaderValue::from_str` (the `http` crate's); its
/// source accepts exactly the texts whose bytes are all tabs or at least 32
/// and not 127.
#[verifier::external_body]
fn header_value_is_valid(value: &str) -> (r: bool)
    ensures
        r == valid_header_value(encode_utf8(value@)),
{
    reqwest::header::HeaderValue::from_str(value).is_ok()
}

/// A header (name, value) that can be sent.
pub open spec fn header_usable(h: (Seq<char>, Seq<char>)) -> bool {
    valid_header_name(encode_utf8(h.0)) && valid_header_value(encode_utf8(h.1))
}

/// The headers, by their texts.
pub open spec fn header_views(hs: Seq<(String, String)>) -> Seq<(Seq<char>, Seq<char>)> {
    hs.map_values(|h: (String, String)| (h.0@, h.1@))
}

/// The headers of `hs` that can be sent, in their order.
pub open spec fn kept_headers(hs: Seq<(Seq<char>, Seq<char>)>) -> Seq<(Seq<char>, Seq<char>)>
    decreases hs.len(),
{
    if hs.len() == 0 {
        Seq::empty()
    } else {
        let prev = kept_headers(hs.drop_last());
        if header_usable(hs.last()) {
            prev.push(hs.last())
        } else {
            prev
        }
    }
}

/// No header name occurs twice in `hs`.
pub open spec fn distinct_names(hs: Seq<(Seq<char>, Seq<char>)>) -> bool {
    forall|i: int, j: int| 0 <= i < j < hs.len() ==> (#[trigger] hs[i]).0 != (#[trigger] hs[j]).0
}

/// The kept headers are headers of `hs`, and keep its names distinct.
pub proof fn lemma_kept_headers(hs: Seq<(Seq<char>, Seq<char>)>)
    ensures
        forall|k: int| 0 <= k < kept_headers(hs).len() ==> hs.contains(#[trigger] kept_headers(hs)[k]),
        distinct_names(hs) ==> distinct_names(kept_headers(hs)),
    decreases hs.len(),
{
    if hs.len() > 0 {
        let prefix = hs.drop_last();
        lemma_kept_headers(prefix);
        let kp = kept_headers(prefix);
        assert forall|k: int| 0 <= k < kp.len() implies hs.contains(#[trigger] kp[k]) by {
            let i = choose|i: int| 0 <= i < prefix.len() && prefix[i] == kp[k];
            assert(hs[i] == prefix[i]);
        }
        if header_usable(hs.last()) {
            let t = kp.push(hs.last());
            assert forall|k: int| 0 <= k < t.len() implies hs.contains(#[trigger] t[k]) by {
                if k < kp.len() {
                    assert(t[k] == kp[k]);
                } else {
                    assert(hs[hs.len() - 1] == t[k]);
                }
            }
            if distinct_names(hs) {
                assert(distinct_names(prefix)) by {
                    assert forall|i: int, j: int| 0 <= i < j < prefix.len() implies (
                    #[trigger] prefix[i]).0 != (#[trigger] prefix[j]).0 by {
                        assert(prefix[i] == hs[i] && prefix[j] == hs[j]);
                    }
                }
                assert forall|i: int, j: int| 0 <= i < j < t.len() implies (#[trigger] t[i]).0
                    != (#[trigger] t[j]).0 by {
                    if j == t.len() - 1 {
                        assert(t[i] == kp[i]);
                        let a = choose|a: int| 0 <= a < prefix.len() && prefix[a] == kp[i];
                        assert(hs[a] == prefix[a]);
                        assert(t[j] == hs[hs.len() - 1]);
                    } else {
                        assert(t[i] == kp[i] && t[j] == kp[j]);
                    }
                }
            }
        } else {
            if distinct_names(hs) {
                assert forall|i: int, j: int| 0 <= i < j < prefix.len() implies (
                #[trigger] prefix[i]).0 != (#[trigger] prefix[j]).0 by {
                    assert(prefix[i] == hs[i] && prefix[j] == hs[j]);
                }
            }
        }
    }
}

/// Every header of `hs` whose name and value are valid HTTP is kept, whatever
/// its length, and every kept header is one of `hs` with a valid name and value.
pub proof fn lemma_kept_headers_are_the_valid_ones(hs: Seq<(Seq<char>, Seq<char>)>)
    ensures
        forall|k: int|
            0 <= k < hs.len() && valid_header_name(encode_utf8((#[trigger] hs[k]).0))
                && valid_header_value(encode_utf8(hs[k].1)) ==> kept_headers(hs).contains(hs[k]),
        forall|k: int|
            0 <= k < kept_headers(hs).len() ==> {
                let h = #[trigger] kept_headers(hs)[k];
                &&& hs.contains(h)
                &&& valid_header_name(encode_utf8(h.0))
                &&& valid_header_value(encode_utf8(h.1))
            },
    decreases hs.len(),
{
    lemma_kept_headers(hs);
    if hs.len() > 0 {
        let prefix = hs.drop_last();
        lemma_kept_headers_are_the_valid_ones(prefix);
        let kp = kept_headers(prefix);
        let t = kept_headers(hs);
        assert forall|k: int|
            0 <= k < hs.len() && valid_header_name(encode_utf8((#[trigger] hs[k]).0))
                && valid_header_value(encode_utf8(hs[k].1)) implies t.contains(hs[k]) by {
            if k < hs.len() - 1 {
                assert(prefix[k] == hs[k]);
                let j = choose|j: int| 0 <= j < kp.len() && kp[j] == prefix[k];
                if header_usable(hs.last()) {
                    assert(t[j] == kp[j]);
                }
            } else {
                assert(t[t.len() - 1] == hs[k]);
            }
        }
        assert forall|k: int| 0 <= k < t.len() implies {
            let h = #[trigger] t[k];
            &&& valid_header_name(encode_utf8(h.0))
            &&& valid_header_value(encode_utf8(h.1))
        } by {
            if header_usable(hs.last()) && k == t.len() - 1 {
            } else {
                assert(t[k] == kp[k]);
            }
        }
    }
}

/// The configured headers that go into a request: those whose name and value
/// are valid in HTTP; the others are skipped.
pub fn request_headers(cfg: &RequestConfig) -> (r: Vec<(String, String)>)
    ensures
        header_views(r@) == kept_headers(header_views(cfg.headers@)),
        cfg.has_distinct_header_names() ==> distinct_names(header_views(r@)),
        forall|k: int|
            0 <= k < cfg.headers@.len() && valid_header_name(
                encode_utf8((#[trigger] cfg.headers@[k]).0@),
            ) && valid_header_value(encode_utf8(cfg.headers@[k].1@)) ==> header_views(
                r@,
            ).contains((cfg.headers@[k].0@, cfg.headers@[k].1@)),
        forall|k: int|
            0 <= k < r@.len() ==> {
                &&& valid_header_name(encode_utf8((#[trigger] r@[k]).0@))
                &&& valid_header_value(encode_utf8(r@[k].1@))
                &&& header_views(cfg.headers@).contains((r@[k].0@, r@[k].1@))
            },
{
    let mut r: Vec<(String, String)> = Vec::new();
    let mut k: usize = 0;
    while k < cfg.headers.len()
        invariant
            k <= cfg.headers@.len(),
            header_views(r@) == kept_headers(header_views(cfg.headers@).take(k as int)),
        decreases cfg.headers@.len() - k,
    {
        let name = &cfg.headers[k].0;
        let value = &cfg.headers[k].1;
        let ghost hv = header_views(cfg.headers@);
        proof {
            assert(hv.take(k + 1).drop_last() =~= hv.take(k as int));
            assert(hv.take(k + 1).last() == (name@, value@));
        }
        if header_name_is_valid(name.as_str()) && header_value_is_valid(value.as_str()) {
            let ghost before = r@;
            r.push((name.clone(), value.clone()));
            proof {
                assert(header_views(r@) =~= header_views(before).push((name@, value@)));
            }
        }
        k = k + 1;
    }
    proof {
        let hv = header_views(cfg.headers@);
        assert(hv.take(k as int) =~= hv);
        lemma_kept_headers(hv);
        lemma_kept_headers_are_the_valid_ones(hv);
        assert forall|k: int|
            0 <= k < cfg.headers@.len() && valid_header_name(
                encode_utf8((#[trigger] cfg.headers@[k]).0@),
            ) && valid_header_value(encode_utf8(cfg.headers@[k].1@)) implies header_views(
            r@,
        ).contains((cfg.headers@[k].0@, cfg.headers@[k].1@)) by {
            assert(hv[k] == (cfg.headers@[k].0@, cfg.headers@[k].1@));
        }
        assert forall|k: int| 0 <= k < r@.len() implies {
            &&& valid_header_name(encode_utf8((#[trigger] r@[k]).0@))
            &&& valid_header_value(encode_utf8(r@[k].1@))
            &&& header_views(cfg.headers@).contains((r@[k].0@, r@[k].1@))
        } by {
            assert(header_views(r@)[k] == (r@[k].0@, r@[k].1@));
        }
        if cfg.has_distinct_header_names() {
            assert forall|i: int, j: int| 0 <= i < j < hv.len() implies (#[trigger] hv[i]).0
                != (#[trigger] hv[j]).0 by {
                assert(hv[i].0 == cfg.headers@[i].0@);
                assert(hv[j].0 == cfg.headers@[j].0@);
            }
        }
    }
    r
}

} // verus!
