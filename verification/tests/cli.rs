use blitz_rs::cli::{CliArgs, OutputFormat};
use blitz_rs::error::AppError;
use blitz_rs::source::RequestSource;
use std::time::Duration;

fn args(source: RequestSource, n: u64, c: Option<u64>) -> CliArgs {
    CliArgs {
        request_source: source,
        request_count: n,
        concurrency: c,
        format: OutputFormat::Json,
        timeout: Some(Duration::from_secs(30)),
    }
}

#[test]
fn output_format_defaults_to_terminal() {
    assert_eq!(OutputFormat::default(), OutputFormat::Terminal);
}

#[test]
fn concurrency_defaults_to_one() {
    let a = args(RequestSource::ConfigFile("a.toml".into()), 100, None);
    assert_eq!(a.concurrency(), 1);
    assert_eq!(a.concurrency_warning(), None);
}

#[test]
fn concurrency_is_capped_at_request_count() {
    let a = args(RequestSource::ConfigFile("a.toml".into()), 3, Some(10));
    assert_eq!(a.concurrency(), 3);
    assert_eq!(a.concurrency_warning(), Some((10, 3)));
    let a = args(RequestSource::ConfigFile("a.toml".into()), 100, Some(20));
    assert_eq!(a.concurrency(), 20);
    assert_eq!(a.concurrency_warning(), None);
    let a = args(RequestSource::ConfigFile("a.toml".into()), 0, None);
    assert_eq!(a.concurrency(), 0);
    assert_eq!(a.concurrency_warning(), Some((1, 0)));
}

#[test]
fn zero_concurrency_still_sends_requests() {
    let a = args(RequestSource::ConfigFile("a.toml".into()), 5, Some(0));
    assert_eq!(a.concurrency(), 1);
    assert_eq!(a.concurrency_warning(), None);
    let p = match a.plan() {
        Ok(p) => p,
        Err(_) => panic!("expected a plan"),
    };
    assert_eq!(p.concurrency, 1);
    assert!(!p.announce_concurrency);
    let (mut s, n) = blitz_rs::bench::scheduler::Scheduler::start(p.request_count, p.concurrency);
    assert_eq!(n, 1);
    let mut sent = n;
    loop {
        if s.record(blitz_rs::bench::scheduler::RequestResult::Failed) {
            sent += 1;
        } else {
            break;
        }
    }
    assert_eq!(sent, 5);
    let outcome = s.finish(0);
    assert_eq!(outcome.errors, 5);
}

#[test]
fn url_sources_are_not_run() {
    let a = args(RequestSource::Url("https://example.com".into()), 10, None);
    match a.plan() {
        Err(AppError::InvalidSource(m)) => {
            assert_eq!(m, "URL mode not yet implemented, use a .toml config file instead")
        }
        _ => panic!("expected an invalid source"),
    }
}

#[test]
fn config_sources_give_a_plan() {
    let a = args(RequestSource::ConfigFile("api.toml".into()), 1000, Some(20));
    let p = match a.plan() {
        Ok(p) => p,
        Err(_) => panic!("expected a plan"),
    };
    assert_eq!(p.config_path, "api.toml");
    assert_eq!(p.request_count, 1000);
    assert_eq!(p.concurrency, 20);
    assert_eq!(p.format, OutputFormat::Json);
    assert_eq!(p.timeout, Some(Duration::from_secs(30)));
    assert_eq!(p.concurrency_warning, None);
    assert!(p.announce_concurrency);
}

#[test]
fn single_request_plan_is_not_announced_as_concurrent() {
    let a = args(RequestSource::ConfigFile("api.toml".into()), 1, None);
    let p = match a.plan() {
        Ok(p) => p,
        Err(_) => panic!("expected a plan"),
    };
    assert_eq!(p.concurrency, 1);
    assert!(!p.announce_concurrency);
}
