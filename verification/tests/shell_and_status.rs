use radvisor::cli::{format_authors, ParseFailure};
use radvisor::collection::status::{CollectStatus, TermAction};
use radvisor::polling::providers::docker::DockerInitError;
use radvisor::polling::providers::errors::{FetchError, InitializationError};
use radvisor::polling::providers::{KubernetesOptions, ProviderType};
use radvisor::shell::{stream_layout, write_layout, ColorMode, Options, Verbosity};

#[test]
fn verbosity_from_options() {
    let opts = |quiet, verbose| Options { quiet, verbose, color_mode: ColorMode::Auto };
    assert_eq!(Verbosity::from_opts(&opts(true, true)), Verbosity::Quiet);
    assert_eq!(Verbosity::from_opts(&opts(false, true)), Verbosity::Verbose);
    assert_eq!(Verbosity::from_opts(&opts(false, false)), Verbosity::Normal);
    assert!(!Verbosity::Quiet.shows_messages());
    assert!(Verbosity::Normal.shows_messages());
    assert!(Verbosity::Verbose.shows_verbose());
    assert!(!Verbosity::Normal.shows_verbose());
}

#[test]
fn color_mode_parsing() {
    assert_eq!(ColorMode::from_str("Auto").ok(), Some(ColorMode::Auto));
    assert_eq!(ColorMode::from_str("ALWAYS").ok(), Some(ColorMode::Always));
    assert_eq!(ColorMode::from_str("never").ok(), Some(ColorMode::Never));
    let err = ColorMode::from_str("sometimes").err().unwrap();
    assert_eq!(err.message(), "invalid color mode: sometimes");
}

#[test]
fn color_choice_depends_on_terminal() {
    assert_eq!(ColorMode::Auto.into_termcolor(true), ColorMode::Auto);
    assert_eq!(ColorMode::Auto.into_termcolor(false), ColorMode::Never);
    assert_eq!(ColorMode::Always.into_termcolor(false), ColorMode::Always);
    assert_eq!(ColorMode::Never.into_termcolor(true), ColorMode::Never);
}

#[test]
fn stream_layout_justified_on_terminal() {
    let layout = stream_layout("Beginning", Some("collection"), true, true, None);
    assert_eq!(layout.status, "   Beginning");
    assert!(!layout.colon);
    assert_eq!(layout.body, vec![" collection\n".to_string()]);
}

#[test]
fn stream_layout_wraps_to_width() {
    let layout = stream_layout("(info)", Some("aaa bbb ccc"), true, true, Some(20));
    assert_eq!(layout.status, "      (info)");
    assert_eq!(layout.body, vec![" aaa bbb\n".to_string(), "             ccc\n".to_string()]);
}

#[test]
fn stream_layout_not_justified() {
    let layout = stream_layout("error", None, false, true, Some(80));
    assert_eq!(layout.status, "error");
    assert!(layout.colon);
    assert_eq!(layout.body, vec![" ".to_string()]);
}

#[test]
fn write_layout_right_aligns_status() {
    let layout = write_layout("(warning)", Some("careful"), true);
    assert_eq!(layout.status, "   (warning)");
    let info = write_layout("(info)", Some("hi"), true);
    assert_eq!(format!("{}{}", info.status, info.body[0]), "      (info) hi\n");
    assert_eq!(layout.body, vec![" careful\n".to_string()]);
    let plain = write_layout("status", None, false);
    assert_eq!(plain.status, "status:");
    assert_eq!(plain.body, vec![" ".to_string()]);
}

#[test]
fn parse_failure_message() {
    let f = ParseFailure::new("interval".to_string(), "5x".to_string());
    assert_eq!(f.message(), "invalid interval: 5x");
}

#[test]
fn authors_are_comma_separated() {
    assert_eq!(format_authors("Ann <a@x.io>:Bo <b@x.io>"), "Ann <a@x.io>, Bo <b@x.io>");
    assert_eq!(format_authors(""), "");
}

#[test]
fn status_term_during_collection() {
    let mut status = CollectStatus::new();
    assert!(status.begin_tick());
    assert_eq!(status.on_term(), TermAction::FlushAtEndOfTick);
    assert!(status.end_tick());
    assert!(!status.begin_tick());
    assert_eq!(status.on_term(), TermAction::FlushAtEndOfTick);
}

#[test]
fn status_term_between_ticks() {
    let mut status = CollectStatus::new();
    assert!(status.begin_tick());
    assert!(!status.end_tick());
    assert_eq!(status.on_term(), TermAction::FlushNow);
    assert!(status.begin_tick());
}

#[test]
fn provider_errors() {
    assert_eq!(FetchError::new(None).message(), "could not successfully fetch container metadata list");
    assert_eq!(
        FetchError::new(Some("timeout".to_string())).message(),
        "could not successfully fetch container metadata list: timeout"
    );
    assert_eq!(
        InitializationError::new("no socket").description(),
        "could not connect to the provider resources: no socket"
    );
    let e = DockerInitError::ConnectionFailed("refused".to_string());
    assert!(e.suggestion().starts_with("Could not connect to the docker socket."));
    assert_eq!(e.original(), Some(&"refused".to_string()));
    assert!(DockerInitError::InvalidCgroupMount.original().is_none());
}

#[test]
fn provider_type_names() {
    assert_eq!(ProviderType::Docker.name(), "docker");
    assert_eq!(ProviderType::Kubernetes(KubernetesOptions { kube_config: None }).name(), "kubernetes");
}
