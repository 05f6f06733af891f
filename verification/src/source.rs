use vstd::prelude::*;

use crate::error::AppError;
use crate::text::{
    ends_with, has_prefix, has_suffix, lemma_trimmed_idempotent, starts_with, trim, trimmed,
};

verus! {

/// Where the request to benchmark comes from.
#[derive(Clone, Debug)]
pub enum RequestSource {
    /// A URL to request directly.
    Url(String),
    /// The path of a `.toml` request configuration.
    ConfigFile(String),
}

/// `t` names a configuration file.
pub open spec fn names_config_file(t: Seq<char>) -> bool {
    has_suffix(t, ".toml"@)
}

/// `t` is an HTTP or HTTPS URL.
pub open spec fn names_url(t: Seq<char>) -> bool {
    has_prefix(t, "http://"@) || has_prefix(t, "https://"@)
}

/// What a request source text denotes: the trimmed text is a configuration
/// path when it ends in `.toml`, else a URL when it starts with `http://` or
/// `https://`; an empty text and anything else are errors.
pub open spec fn parses_to(s: Seq<char>, r: Result<RequestSource, AppError>) -> bool {
    let t = trimmed(s);
    match r {
        Ok(RequestSource::ConfigFile(p)) => t.len() > 0 && names_config_file(t) && p@ == t,
        Ok(RequestSource::Url(u)) => t.len() > 0 && !names_config_file(t) && names_url(t) && u@
            == t,
        Err(AppError::EmptySource) => t.len() == 0,
        Err(AppError::InvalidSource(m)) => t.len() > 0 && !names_config_file(t) && !names_url(t)
            && m@ == t,
        Err(_) => false,
    }
}

/// White space around a request source does not matter: a text denotes what
/// its trimmed text denotes.
pub proof fn lemma_source_ignores_surrounding_space(s: Seq<char>, r: Result<RequestSource, AppError>)
    ensures
        parses_to(s, r) == parses_to(trimmed(s), r),
{
    lemma_trimmed_idempotent(s);
}

/// Every text whose trimmed form ends in `.toml` names that configuration
/// file, whatever comes before the suffix (an absolute path, a `./` path or a
/// bare file name): the only reading of such a text is `ConfigFile` of the
/// trimmed text.
pub proof fn lemma_toml_paths_are_config_files(s: Seq<char>, r: Result<RequestSource, AppError>)
    requires
        parses_to(s, r),
        has_suffix(trimmed(s), ".toml"@),
    ensures
        r matches Ok(RequestSource::ConfigFile(p)) && p@ == trimmed(s),
{
    reveal_strlit(".toml");
}

/// A trimmed text that starts with `http://` or `https://` and does not end in
/// `.toml` is read as that URL.
pub proof fn lemma_http_texts_are_urls(s: Seq<char>, r: Result<RequestSource, AppError>)
    requires
        parses_to(s, r),
        has_prefix(trimmed(s), "http://"@) || has_prefix(trimmed(s), "https://"@),
        !has_suffix(trimmed(s), ".toml"@),
    ensures
        r matches Ok(RequestSource::Url(u)) && u@ == trimmed(s),
{
    reveal_strlit("http://");
    reveal_strlit("https://");
}

impl RequestSource {
    /// Read a request source from its command-line text.
    pub fn parse_source(s: &str) -> (r: Result<RequestSource, AppError>)
        ensures
            parses_to(s@, r),
            has_suffix(trimmed(s@), ".toml"@) ==> (r matches Ok(RequestSource::ConfigFile(p))
                && p@ == trimmed(s@)),
            (has_prefix(trimmed(s@), "http://"@) || has_prefix(trimmed(s@), "https://"@))
                && !has_suffix(trimmed(s@), ".toml"@) ==> (r matches Ok(RequestSource::Url(u))
                && u@ == trimmed(s@)),
    {
        proof {
            reveal_strlit(".toml");
            reveal_strlit("http://");
            reveal_strlit("https://");
        }
        let input = trim(s);
        if input.unicode_len() == 0 {
            return Err(AppError::EmptySource);
        }
        if ends_with(input, ".toml") {
            return Ok(RequestSource::ConfigFile(input.to_owned()));
        }
        if starts_with(input, "http://") || starts_with(input, "https://") {
            return Ok(RequestSource::Url(input.to_owned()));
        }
        Err(AppError::InvalidSource(input.to_owned()))
    }
}

impl std::str::FromStr for RequestSource {
    type Err = AppError;

    fn from_str(s: &str) -> (r: Result<Self, Self::Err>)
        ensures
            parses_to(s@, r),
    {
        RequestSource::parse_source(s)
    }
}

} // verus!
