use blitz_rs::error::AppError;

#[test]
fn source_errors_point_to_sources() {
    let help = "Provide a full URL (https://api.example.com) or a path to a .toml file.";
    assert_eq!(AppError::EmptySource.help_message(), help);
    assert_eq!(AppError::InvalidSource("x".into()).help_message(), help);
}

#[test]
fn cli_errors_point_to_usage() {
    assert_eq!(
        AppError::Cli("bad flag".into()).help_message(),
        "Check the usage above. Try: benchmark config.toml or benchmark https://example.com"
    );
}

#[test]
fn file_errors_point_to_the_config_file() {
    let help = "Ensure the file exists and is a valid TOML configuration.";
    let io = AppError::Io {
        source: std::io::Error::new(std::io::ErrorKind::NotFound, "missing"),
        path: "api.toml".into(),
    };
    assert_eq!(io.help_message(), help);
    let parse_err = toml::from_str::<toml::Value>("= oops").unwrap_err();
    assert_eq!(AppError::Parse(parse_err).help_message(), help);
}

#[test]
fn network_errors_point_to_the_url() {
    let help = "Check the URL is reachable and the request is valid.";
    let err = reqwest::Client::new().get("not a url").build().unwrap_err();
    assert_eq!(AppError::Http(err).help_message(), help);
    let err = reqwest::Client::new().get("::").build().unwrap_err();
    assert_eq!(AppError::HttpClient(err).help_message(), help);
}

#[test]
fn messages_of_each_error() {
    assert_eq!(AppError::EmptySource.message(), "Request source cannot be empty");
    assert_eq!(
        AppError::InvalidSource("ftp://x".into()).message(),
        "Invalid request source: 'ftp://x'"
    );
    assert_eq!(AppError::Cli("bad".into()).message(), "CLI Argument error: bad");
    let io = AppError::Io {
        source: std::io::Error::new(std::io::ErrorKind::NotFound, "missing"),
        path: "api.toml".into(),
    };
    assert_eq!(io.message(), "Failed to read config file at api.toml: missing");
    let parse_err = toml::from_str::<toml::Value>("= oops").unwrap_err();
    let text = parse_err.to_string();
    assert_eq!(
        AppError::Parse(parse_err).message(),
        format!("Config parsing failed: {}", text)
    );
    let err = reqwest::Client::new().get("not a url").build().unwrap_err();
    let text = err.to_string();
    assert_eq!(AppError::Http(err).message(), format!("HTTP request failed: {}", text));
    let err = reqwest::Client::new().get("::").build().unwrap_err();
    let text = err.to_string();
    assert_eq!(
        AppError::HttpClient(err).message(),
        format!("Failed to build HTTP client: {}", text)
    );
}
