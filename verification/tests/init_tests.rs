use log_setup::build_env_filter;
use log_setup::InitAction;
use log_setup::InitGuard;
use log_setup::LogContext;
use log_setup::LogOption;
use tracing_subscriber::layer::SubscriberExt;
use tracing_subscriber::util::SubscriberInitExt;

fn install_console_backend(filter: tracing_subscriber::filter::EnvFilter) {
    let layer = tracing_subscriber::fmt::layer()
        .json()
        .with_writer(std::io::stdout)
        .with_current_span(false)
        .with_span_list(false)
        .with_target(false)
        .with_thread_ids(false)
        .with_thread_names(false);
    let _ = tracing_subscriber::registry().with(layer).with(filter).try_init();
}

#[test]
fn test_init_logging() {
    let mut guard = InitGuard::new();
    let options = vec![LogOption::Info];
    let action = guard.initialize("/tmp/test.log", &options).unwrap();
    let plan = match action {
        InitAction::Install(p) => p,
        InitAction::Skip => panic!("a fresh guard must install"),
    };
    assert_eq!(plan.file_path, "/tmp/test.log");
    assert_eq!(plan.level, "info");
    assert!(plan.directives.is_empty());
    assert!(plan.console);
    let filter = build_env_filter(&plan).unwrap();
    install_console_backend(filter);
    let ctx = LogContext::new("test", "component");
    let message = "Test log message";
    assert!(!ctx.service.is_empty());
    assert!(!ctx.component.is_empty());
    assert!(!message.is_empty());
}

#[test]
fn test_init_logging_no_console() {
    let mut guard = InitGuard::new();
    let options = vec![LogOption::Info, LogOption::NoConsole];
    let action = guard.initialize("/tmp/test_no_console.log", &options).unwrap();
    let plan = match action {
        InitAction::Install(p) => p,
        InitAction::Skip => panic!("a fresh guard must install"),
    };
    assert_eq!(plan.file_path, "/tmp/test_no_console.log");
    assert_eq!(plan.level, "info");
    assert!(plan.directives.is_empty());
    assert!(!plan.console);
    let ctx = LogContext::new("test", "component");
    let message = "Test warning";
    assert!(!ctx.service.is_empty());
    assert!(!ctx.component.is_empty());
    assert!(!message.is_empty());
}

#[test]
fn test_logging_with_filters() {
    let mut guard = InitGuard::new();
    let options = vec![LogOption::Debug, LogOption::RocketOff];
    let action = guard.initialize("/tmp/test_filters.log", &options).unwrap();
    let plan = match action {
        InitAction::Install(p) => p,
        InitAction::Skip => panic!("a fresh guard must install"),
    };
    assert_eq!(plan.file_path, "/tmp/test_filters.log");
    assert_eq!(plan.level, "debug");
    assert_eq!(plan.directives, vec!["rocket=off".to_string()]);
    assert!(plan.console);
    let filter = build_env_filter(&plan).unwrap();
    let rendered = format!("{}", filter);
    assert!(rendered.contains("debug"));
    assert!(rendered.contains("rocket=off"));
    let ctx = LogContext::new("test", "component");
    let message = "Testing with filters";
    assert!(!ctx.service.is_empty());
    assert!(!ctx.component.is_empty());
    assert!(!message.is_empty());
}
