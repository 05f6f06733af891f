use vstd::prelude::*;

verus! {

/// Declares `reqwest::Error`, the error of a failed request or client build.
#[verifier::external_type_specification]
#[verifier::external_body]
pub struct ExReqwestError(reqwest::Error);

/// Declares `std::io::Error`, the error of a failed file read.
#[verifier::external_type_specification]
#[verifier::external_body]
pub struct ExIoError(std::io::Error);

/// Declares `toml::de::Error`, the error of a failed configuration parse.
#[verifier::external_type_specification]
#[verifier::external_body]
pub struct ExTomlError(toml::de::Error);

/// Unified error type for all application errors.
#[derive(Debug)]
pub enum AppError {
    /// An HTTP request failed.
    Http(reqwest::Error),
    /// The HTTP client could not be built.
    HttpClient(reqwest::Error),
    /// The configuration file could not be read.
    Io { source: std::io::Error, path: String },
    /// The configuration file is not valid TOML for a request configuration.
    Parse(toml::de::Error),
    /// The command line could not be parsed; holds the parser's rendered message.
    Cli(String),
    /// The request source was empty.
    EmptySource,
    /// The request source is neither a `.toml` path nor an HTTP(S) URL.
    InvalidSource(String),
}

/// The help text for errors about the request source.
pub open spec fn source_help() -> Seq<char> {
    "Provide a full URL (https://api.example.com) or a path to a .toml file."@
}

/// The help text for command-line errors.
pub open spec fn cli_help() -> Seq<char> {
    "Check the usage above. Try: benchmark config.toml or benchmark https://example.com"@
}

/// The help text for errors about the configuration file.
pub open spec fn config_help() -> Seq<char> {
    "Ensure the file exists and is a valid TOML configuration."@
}

/// The help text for network errors.
pub open spec fn network_help() -> Seq<char> {
    "Check the URL is reachable and the request is valid."@
}

/// The help text that belongs to each kind of error.
pub open spec fn help_text(e: AppError) -> Seq<char> {
    match e {
        AppError::EmptySource | AppError::InvalidSource(_) => source_help(),
        AppError::Cli(_) => cli_help(),
        AppError::Io { .. } | AppError::Parse(_) => config_help(),
        AppError::Http(_) | AppError::HttpClient(_) => network_help(),
    }
}

/// Calls `to_string` (its `Display`) on a `reqwest::Error`; the text of an
/// opaque error is not stated.
#[verifier::external_body]
fn reqwest_error_text(e: &reqwest::Error) -> String {
    e.to_string()
}

/// Calls `to_string` (its `Display`) on a `std::io::Error`; the text of an
/// opaque error is not stated.
#[verifier::external_body]
fn io_error_text(e: &std::io::Error) -> String {
    e.to_string()
}

/// Calls `to_string` (its `Display`) on a `toml::de::Error`; the text of an
/// opaque error is not stated.
#[verifier::external_body]
fn toml_error_text(e: &toml::de::Error) -> String {
    e.to_string()
}

/// The message of each kind of error: a fixed lead-in, then the details
/// (the cause's own text for errors of other crates, where `exists` leaves
/// that text open).
pub open spec fn is_message(e: AppError, m: Seq<char>) -> bool {
    match e {
        AppError::Http(_) => exists|t: Seq<char>| m == "HTTP request failed: "@ + t,
        AppError::HttpClient(_) => exists|t: Seq<char>| m == "Failed to build HTTP client: "@ + t,
        AppError::Io { path, .. } => exists|t: Seq<char>|
            m == "Failed to read config file at "@ + path@ + ": "@ + t,
        AppError::Parse(_) => exists|t: Seq<char>| m == "Config parsing failed: "@ + t,
        AppError::Cli(msg) => m == "CLI Argument error: "@ + msg@,
        AppError::EmptySource => m == "Request source cannot be empty"@,
        AppError::InvalidSource(src) => m == "Invalid request source: '"@ + src@ + "'"@,
    }
}

impl AppError {
    /// The error's message, as shown to the user.
    pub fn message(&self) -> (r: String)
        ensures
            is_message(*self, r@),
    {
        match self {
            AppError::Http(e) => {
                let mut r = "HTTP request failed: ".to_owned();
                let t = reqwest_error_text(e);
                let ghost before = r@;
                r.append(t.as_str());
                assert(r@ == before + t@);
                r
            },
            AppError::HttpClient(e) => {
                let mut r = "Failed to build HTTP client: ".to_owned();
                let t = reqwest_error_text(e);
                let ghost before = r@;
                r.append(t.as_str());
                assert(r@ == before + t@);
                r
            },
            AppError::Io { source, path } => {
                let mut r = "Failed to read config file at ".to_owned();
                r.append(path.as_str());
                r.append(": ");
                let t = io_error_text(source);
                let ghost before = r@;
                r.append(t.as_str());
                assert(r@ == before + t@);
                r
            },
            AppError::Parse(e) => {
                let mut r = "Config parsing failed: ".to_owned();
                let t = toml_error_text(e);
                let ghost before = r@;
                r.append(t.as_str());
                assert(r@ == before + t@);
                r
            },
            AppError::Cli(msg) => {
                let mut r = "CLI Argument error: ".to_owned();
                r.append(msg.as_str());
                r
            },
            AppError::EmptySource => "Request source cannot be empty".to_owned(),
            AppError::InvalidSource(src) => {
                let mut r = "Invalid request source: '".to_owned();
                r.append(src.as_str());
                r.append("'");
                r
            },
        }
    }

    /// Return a user-friendly help message for this error.
    pub fn help_message(&self) -> (r: &'static str)
        ensures
            r@ == help_text(*self),
    {
        match self {
            AppError::EmptySource | AppError::InvalidSource(_) => {
                "Provide a full URL (https://api.example.com) or a path to a .toml file."
            },
            AppError::Cli(_) => {
                "Check the usage above. Try: benchmark config.toml or benchmark https://example.com"
            },
            AppError::Io { .. } | AppError::Parse(_) => {
                "Ensure the file exists and is a valid TOML configuration."
            },
            AppError::Http(_) | AppError::HttpClient(_) => {
                "Check the URL is reachable and the request is valid."
            },
        }
    }
}

} // verus!
