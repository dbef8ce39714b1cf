use dcode::home::advance_home_resolution;
use dcode::home::home_env_values;
use dcode::home::start_home_resolution;
use dcode::home::HomeErrorKind;
use dcode::home::HomeEvent;
use dcode::home::HomeLocation;
use dcode::home::HomeStep;
use dcode::home::IoFailure;
use dcode::home::PathProbe;
use dcode::product::codex_product;
use dcode::product::dcode_product;

fn expect_check(step: &HomeStep) -> (&'static str, String) {
    match step {
        HomeStep::CheckPath { env_name, value } => (env_name, value.clone()),
        _ => panic!("expected a path check"),
    }
}

#[test]
fn find_codex_home_env_missing_path_is_fatal() {
    let missing = "/tmp/dcode-home-test/missing-codex-home";
    let step = start_home_resolution(&codex_product(), Some(missing), None);
    assert_eq!(expect_check(&step), ("CODEX_HOME", missing.to_string()));
    let done = advance_home_resolution(step, HomeEvent::Metadata(PathProbe::Missing));
    let err = match done {
        HomeStep::Done(Err(err)) => err,
        _ => panic!("missing CODEX_HOME"),
    };
    assert!(matches!(err.kind(), HomeErrorKind::NotFound));
    let message = err.message();
    assert!(message.contains("CODEX_HOME"), "unexpected error: {message}");
    assert_eq!(
        message,
        "CODEX_HOME points to \"/tmp/dcode-home-test/missing-codex-home\", but that path does not exist"
    );
}

#[test]
fn find_codex_home_env_file_path_is_fatal() {
    let file = "/tmp/dcode-home-test/codex-home.txt";
    let step = start_home_resolution(&codex_product(), Some(file), None);
    let done = advance_home_resolution(step, HomeEvent::Metadata(PathProbe::NotDirectory));
    let err = match done {
        HomeStep::Done(Err(err)) => err,
        _ => panic!("file CODEX_HOME"),
    };
    assert!(matches!(err.kind(), HomeErrorKind::InvalidInput));
    let message = err.message();
    assert!(message.contains("not a directory"), "unexpected error: {message}");
}

#[test]
fn find_codex_home_env_valid_directory_canonicalizes() {
    let dir = "/tmp/dcode-home-test/../dcode-home-test";
    let step = start_home_resolution(&codex_product(), Some(dir), None);
    let step = advance_home_resolution(step, HomeEvent::Metadata(PathProbe::Directory));
    assert!(matches!(step, HomeStep::Canonicalize { env_name: "CODEX_HOME", .. }));
    let done = advance_home_resolution(
        step,
        HomeEvent::Canonical(Ok("/tmp/dcode-home-test".to_string())),
    );
    match done {
        HomeStep::Done(Ok(HomeLocation::Canonical(path))) => {
            assert_eq!(path, "/tmp/dcode-home-test")
        }
        _ => panic!("valid CODEX_HOME"),
    }
}

#[test]
fn find_codex_home_without_env_uses_default_home_dir() {
    let step = start_home_resolution(&codex_product(), None, None);
    assert!(matches!(step, HomeStep::LocateUserHome { dir_name: ".codex" }));
    let done = advance_home_resolution(step, HomeEvent::UserHome(Some("/home/user".to_string())));
    match done {
        HomeStep::Done(Ok(HomeLocation::Joined { base, child })) => {
            assert_eq!(base, "/home/user");
            assert_eq!(child, ".codex");
        }
        _ => panic!("default CODEX_HOME"),
    }
}

#[test]
fn dcode_uses_its_own_default_home_dir() {
    let step = start_home_resolution(&dcode_product(), None, None);
    let done = advance_home_resolution(step, HomeEvent::UserHome(Some("/home/user".to_string())));
    match done {
        HomeStep::Done(Ok(HomeLocation::Joined { base, child })) => {
            assert_eq!(base, "/home/user");
            assert_eq!(child, ".dcode");
        }
        _ => panic!("default DCODE_HOME"),
    }
}

#[test]
fn dcode_home_takes_precedence_over_legacy_codex_home() {
    let step = start_home_resolution(&dcode_product(), Some("/tmp/dcode-a"), Some("/tmp/codex-b"));
    assert_eq!(expect_check(&step), ("DCODE_HOME", "/tmp/dcode-a".to_string()));
    let step = advance_home_resolution(step, HomeEvent::Metadata(PathProbe::Directory));
    let done = advance_home_resolution(step, HomeEvent::Canonical(Ok("/tmp/dcode-a".to_string())));
    assert!(matches!(done, HomeStep::Done(Ok(HomeLocation::Canonical(ref p))) if p == "/tmp/dcode-a"));
}

#[test]
fn legacy_codex_home_is_used_by_dcode_only() {
    let (own, legacy) = home_env_values(&dcode_product(), None, Some("/tmp/legacy"));
    assert_eq!(own, None);
    assert_eq!(legacy, Some("/tmp/legacy".to_string()));
    let step = start_home_resolution(&dcode_product(), own.as_deref(), legacy.as_deref());
    assert_eq!(expect_check(&step), ("CODEX_HOME", "/tmp/legacy".to_string()));

    let (own, legacy) = home_env_values(&codex_product(), Some("/tmp/c"), Some("/tmp/c"));
    assert_eq!(own, Some("/tmp/c".to_string()));
    assert_eq!(legacy, None);
}

#[test]
fn empty_home_values_count_as_unset() {
    let (own, legacy) = home_env_values(&dcode_product(), Some(""), Some(""));
    assert_eq!(own, None);
    assert_eq!(legacy, None);
}

#[test]
fn unreadable_and_uncanonical_homes_keep_their_cause() {
    let step = start_home_resolution(&dcode_product(), Some("/root/x"), None);
    let done = advance_home_resolution(
        step,
        HomeEvent::Metadata(PathProbe::Unreadable(IoFailure {
            kind: std::io::ErrorKind::PermissionDenied,
            detail: "permission denied".to_string(),
        })),
    );
    let err = match done {
        HomeStep::Done(Err(err)) => err,
        _ => panic!("unreadable home"),
    };
    assert!(matches!(err.kind(), HomeErrorKind::Underlying(std::io::ErrorKind::PermissionDenied)));
    assert_eq!(err.message(), "failed to read DCODE_HOME \"/root/x\": permission denied");

    let step = start_home_resolution(&dcode_product(), Some("/root/y"), None);
    let step = advance_home_resolution(step, HomeEvent::Metadata(PathProbe::Directory));
    let done = advance_home_resolution(
        step,
        HomeEvent::Canonical(Err(IoFailure {
            kind: std::io::ErrorKind::Other,
            detail: "loop".to_string(),
        })),
    );
    let err = match done {
        HomeStep::Done(Err(err)) => err,
        _ => panic!("uncanonical home"),
    };
    assert_eq!(err.message(), "failed to canonicalize DCODE_HOME \"/root/y\": loop");
}

#[test]
fn missing_user_home_is_not_found() {
    let step = start_home_resolution(&dcode_product(), None, None);
    let done = advance_home_resolution(step, HomeEvent::UserHome(None));
    let err = match done {
        HomeStep::Done(Err(err)) => err,
        _ => panic!("no home"),
    };
    assert!(matches!(err.kind(), HomeErrorKind::NotFound));
    assert_eq!(err.message(), "Could not find home directory");
}
