use log_setup::build_plan;
use log_setup::current_timestamp;
use log_setup::InitAction;
use log_setup::InitError;
use log_setup::InitGuard;
use log_setup::LogContext;
use log_setup::LogOption;
use log_setup::LogSettings;

#[test]
fn second_initialization_has_no_effect() {
    let mut guard = InitGuard::new();
    let first = guard
        .initialize("/tmp/first.log", &vec![LogOption::Warn])
        .unwrap();
    let plan = match first {
        InitAction::Install(p) => p,
        InitAction::Skip => panic!("a fresh guard must install"),
    };
    assert_eq!(plan.level, "warn");
    let second = guard
        .initialize(
            "/tmp/second.log",
            &vec![LogOption::Error, LogOption::NoConsole, LogOption::RocketOff],
        )
        .unwrap();
    assert!(matches!(second, InitAction::Skip));
    let third = guard.initialize_with("/tmp/third.log", "trace", &vec![], false).unwrap();
    assert!(matches!(third, InitAction::Skip));
}

#[test]
fn unparseable_severity_is_rejected_by_name() {
    let mut guard = InitGuard::new();
    let result = guard.initialize_with("/tmp/bad_level.log", "not-a-level", &vec![], true);
    match result {
        Err(InitError::InvalidLevel(l)) => {
            assert_eq!(l, "not-a-level");
            let message = InitError::InvalidLevel(l).message();
            assert!(message.contains("not-a-level"));
        },
        _ => panic!("an unparseable severity must be rejected as an invalid level"),
    }
    // nothing was installed, and a later well-formed call still installs
    let action = guard.initialize("/tmp/bad_level.log", &vec![LogOption::Info]).unwrap();
    assert!(matches!(action, InitAction::Install(_)));
}

#[test]
fn bad_directive_is_rejected_by_name() {
    let mut guard = InitGuard::new();
    let result = guard.initialize(
        "/tmp/bad_directive.log",
        &vec![LogOption::Debug, LogOption::Custom("===".to_string())],
    );
    match result {
        Err(InitError::InvalidDirective(d)) => {
            assert_eq!(d, "===");
            let message = InitError::InvalidDirective(d).message();
            assert!(message.contains("==="));
            assert!(message.contains("directive"));
        },
        _ => panic!("a malformed directive must be rejected as an invalid directive"),
    }
}

#[test]
fn raw_settings_build_the_expected_plan() {
    let settings = LogSettings {
        level: "debug".to_string(),
        filters: vec!["rocket=off, hyper=warn".to_string()],
        console: false,
    };
    let plan = build_plan("/tmp/raw.log", &settings).unwrap();
    assert_eq!(plan.file_path, "/tmp/raw.log");
    assert_eq!(plan.level, "debug");
    assert_eq!(
        plan.directives,
        vec!["rocket=off".to_string(), "hyper=warn".to_string()]
    );
    assert!(!plan.console);
}

#[test]
fn level_keywords_and_numbers_are_accepted() {
    for level in ["trace", "DEBUG", "Info", "warn", "error", "off", "3", "05"] {
        let settings = LogSettings { level: level.to_string(), filters: vec![], console: true };
        assert!(build_plan("/tmp/levels.log", &settings).is_ok());
    }
    for level in ["not-a-level", "6", "warn ", "infos", ""] {
        let settings = LogSettings { level: level.to_string(), filters: vec![], console: true };
        assert!(build_plan("/tmp/levels.log", &settings).is_err());
    }
}

#[test]
fn timestamps_are_rfc3339() {
    let ts = current_timestamp();
    assert!(!ts.is_empty());
    assert!(chrono::DateTime::parse_from_rfc3339(&ts).is_ok());
    let chars: Vec<char> = ts.chars().collect();
    let n = chars.len();
    assert!(n >= 25);
    assert!(ts.contains('T'));
    assert!(chars[n - 6] == '+' || chars[n - 6] == '-');
    assert!(chars[n - 5].is_ascii_digit());
    assert!(chars[n - 4].is_ascii_digit());
    assert_eq!(chars[n - 3], ':');
    assert!(chars[n - 2].is_ascii_digit());
    assert!(chars[n - 1].is_ascii_digit());
}

#[test]
fn context_carries_nonempty_metadata() {
    let ctx = LogContext::new("my-service", "main");
    assert_eq!(ctx.service, "my-service");
    assert_eq!(ctx.component, "main");
    assert!(!ctx.service.is_empty());
    assert!(!ctx.component.is_empty());
}

#[test]
fn custom_filters_may_carry_comma_lists() {
    let mut guard = InitGuard::new();
    let action = guard
        .initialize(
            "/tmp/custom.log",
            &vec![
                LogOption::Info,
                LogOption::Custom(" my_crate=debug , other=off ".to_string()),
            ],
        )
        .unwrap();
    let plan = match action {
        InitAction::Install(p) => p,
        InitAction::Skip => panic!("a fresh guard must install"),
    };
    assert_eq!(plan.level, "info");
    assert_eq!(
        plan.directives,
        vec!["my_crate=debug".to_string(), "other=off".to_string()]
    );
}
