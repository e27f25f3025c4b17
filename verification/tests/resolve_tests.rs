use log_setup::clean_directives;
use log_setup::resolve_options;
use log_setup::LogOption;

#[test]
fn defaults_without_options() {
    let settings = resolve_options(&vec![]);
    assert_eq!(settings.level, "info");
    assert!(settings.filters.is_empty());
    assert!(settings.console);
}

#[test]
fn last_severity_option_wins() {
    let settings = resolve_options(&vec![LogOption::Warn, LogOption::Trace, LogOption::Debug]);
    assert_eq!(settings.level, "debug");
    assert!(settings.filters.is_empty());
    assert!(settings.console);
}

#[test]
fn filters_accumulate_in_order() {
    let settings = resolve_options(&vec![
        LogOption::RocketOff,
        LogOption::Custom("my_crate=warn".to_string()),
        LogOption::TokioWarn,
    ]);
    assert_eq!(settings.level, "info");
    assert_eq!(
        settings.filters,
        vec![
            "rocket=off".to_string(),
            "my_crate=warn".to_string(),
            "tokio=warn".to_string(),
        ]
    );
}

#[test]
fn last_console_option_wins() {
    let settings = resolve_options(&vec![LogOption::NoConsole, LogOption::Console, LogOption::NoConsole]);
    assert!(!settings.console);
    let settings = resolve_options(&vec![LogOption::NoConsole, LogOption::Console]);
    assert!(settings.console);
}

#[test]
fn mixed_options_touch_only_their_setting() {
    let settings = resolve_options(&vec![
        LogOption::Error,
        LogOption::HyperOff,
        LogOption::NoConsole,
        LogOption::Warn,
        LogOption::ActixWarn,
    ]);
    assert_eq!(settings.level, "warn");
    assert_eq!(
        settings.filters,
        vec!["hyper=off".to_string(), "actix_web=warn".to_string()]
    );
    assert!(!settings.console);
}

#[test]
fn named_filter_options_produce_their_exact_directives() {
    let cases = vec![
        (LogOption::RocketOff, "rocket=off"),
        (LogOption::ActixOff, "actix_web=off"),
        (LogOption::ActixWarn, "actix_web=warn"),
        (LogOption::HyperOff, "hyper=off"),
        (LogOption::HyperWarn, "hyper=warn"),
        (LogOption::TokioOff, "tokio=off"),
        (LogOption::TokioWarn, "tokio=warn"),
    ];
    for (option, expected) in cases {
        let mut level = "info".to_string();
        let mut filters: Vec<String> = Vec::new();
        let mut console = true;
        option.apply(&mut level, &mut filters, &mut console);
        assert_eq!(filters, vec![expected.to_string()]);
        assert_eq!(level, "info");
        assert!(console);
    }
}

#[test]
fn severity_options_produce_their_exact_levels() {
    let cases = vec![
        (LogOption::Trace, "trace"),
        (LogOption::Debug, "debug"),
        (LogOption::Info, "info"),
        (LogOption::Warn, "warn"),
        (LogOption::Error, "error"),
    ];
    for (option, expected) in cases {
        let mut level = "info".to_string();
        let mut filters: Vec<String> = Vec::new();
        let mut console = true;
        option.apply(&mut level, &mut filters, &mut console);
        assert_eq!(level, expected);
        assert!(filters.is_empty());
        assert!(console);
    }
}

#[test]
fn directives_are_split_trimmed_and_pruned() {
    let filters = vec![
        " rocket=off , hyper=warn ".to_string(),
        "  ".to_string(),
        "a=trace,,b=debug".to_string(),
    ];
    let directives = clean_directives(&filters);
    assert_eq!(
        directives,
        vec![
            "rocket=off".to_string(),
            "hyper=warn".to_string(),
            "a=trace".to_string(),
            "b=debug".to_string(),
        ]
    );
}

#[test]
fn empty_filters_yield_no_directives() {
    assert!(clean_directives(&vec![]).is_empty());
    assert!(clean_directives(&vec!["".to_string(), " \t ".to_string()]).is_empty());
}
