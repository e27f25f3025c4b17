//! The option language: named choices for the severity threshold, common
//! per-framework filter directives, console output, and an escape hatch for
//! arbitrary directive strings.  Applying a sequence of options to the default
//! settings yields the three primitive settings the initializer consumes.

use vstd::prelude::*;

verus! {

/// One configuration choice.  Severity options overwrite the severity
/// threshold, filter options append one directive string, console options
/// overwrite the console flag.
#[derive(Debug, Clone)]
pub enum LogOption {
    Trace,
    Debug,
    Info,
    Warn,
    Error,
    RocketOff,
    ActixOff,
    ActixWarn,
    HyperOff,
    HyperWarn,
    TokioOff,
    TokioWarn,
    Console,
    NoConsole,
    Custom(String),
}

/// The mathematical value of the three settings an option sequence resolves to.
pub struct SettingsModel {
    pub level: Seq<char>,
    pub filters: Seq<Seq<char>>,
    pub console: bool,
}

/// The resolved settings: a severity string, an ordered list of filter
/// directive strings, and whether a console sink is wanted.
pub struct LogSettings {
    pub level: String,
    pub filters: Vec<String>,
    pub console: bool,
}

impl View for LogSettings {
    type V = SettingsModel;

    open spec fn view(&self) -> SettingsModel {
        (SettingsModel { level: self.level@, filters: self.filters.deep_view(), console: self.console })
    }
}

/// The severity string an option selects, if it is a severity option.
pub open spec fn severity_of(o: LogOption) -> Option<Seq<char>> {
    match o {
        LogOption::Trace => Some("trace"@),
        LogOption::Debug => Some("debug"@),
        LogOption::Info => Some("info"@),
        LogOption::Warn => Some("warn"@),
        LogOption::Error => Some("error"@),
        _ => None,
    }
}

/// The directive string an option appends, if it is a filter option.
pub open spec fn directive_of(o: LogOption) -> Option<Seq<char>> {
    match o {
        LogOption::RocketOff => Some("rocket=off"@),
        LogOption::ActixOff => Some("actix_web=off"@),
        LogOption::ActixWarn => Some("actix_web=warn"@),
        LogOption::HyperOff => Some("hyper=off"@),
        LogOption::HyperWarn => Some("hyper=warn"@),
        LogOption::TokioOff => Some("tokio=off"@),
        LogOption::TokioWarn => Some("tokio=warn"@),
        LogOption::Custom(s) => Some(s@),
        _ => None,
    }
}

/// The console flag an option selects, if it is a console option.
pub open spec fn console_of(o: LogOption) -> Option<bool> {
    match o {
        LogOption::Console => Some(true),
        LogOption::NoConsole => Some(false),
        _ => None,
    }
}

/// The effect of one option on the settings: exactly one of the three
/// components changes.
pub open spec fn apply_step(m: SettingsModel, o: LogOption) -> SettingsModel {
    (SettingsModel {
        level: match severity_of(o) {
            Some(l) => l,
            None => m.level,
        },
        filters: match directive_of(o) {
            Some(d) => m.filters.push(d),
            None => m.filters,
        },
        console: match console_of(o) {
            Some(c) => c,
            None => m.console,
        },
    })
}

/// The settings reached by applying a sequence of options in order.
pub open spec fn apply_all(m: SettingsModel, opts: Seq<LogOption>) -> SettingsModel
    decreases opts.len(),
{
    if opts.len() == 0 {
        m
    } else {
        apply_all(apply_step(m, opts[0]), opts.drop_first())
    }
}

/// The settings before any option is applied: severity `info`, no filter
/// directives, console on.
pub open spec fn default_model() -> SettingsModel {
    (SettingsModel { level: "info"@, filters: Seq::empty(), console: true })
}

/// The settings a whole option sequence resolves to.
pub open spec fn resolved(opts: Seq<LogOption>) -> SettingsModel {
    apply_all(default_model(), opts)
}

impl LogOption {
    /// Apply this option to the three settings accumulators.
    pub fn apply(&self, level: &mut String, filters: &mut Vec<String>, console: &mut bool)
        ensures
            ({
                let m0 = (SettingsModel {
                    level: old(level)@,
                    filters: old(filters).deep_view(),
                    console: *old(console),
                });
                let m1 = apply_step(m0, *self);
                &&& final(level)@ == m1.level
                &&& final(filters).deep_view() == m1.filters
                &&& *final(console) == m1.console
            }),
    {
        let ghost before = filters.deep_view();
        match self {
            LogOption::Trace => {
                *level = "trace".to_owned();
            },
            LogOption::Debug => {
                *level = "debug".to_owned();
            },
            LogOption::Info => {
                *level = "info".to_owned();
            },
            LogOption::Warn => {
                *level = "warn".to_owned();
            },
            LogOption::Error => {
                *level = "error".to_owned();
            },
            LogOption::RocketOff => {
                filters.push("rocket=off".to_owned());
                proof {
                    assert(filters.deep_view() =~= before.push("rocket=off"@));
                }
            },
            LogOption::ActixOff => {
                filters.push("actix_web=off".to_owned());
                proof {
                    assert(filters.deep_view() =~= before.push("actix_web=off"@));
                }
            },
            LogOption::ActixWarn => {
                filters.push("actix_web=warn".to_owned());
                proof {
                    assert(filters.deep_view() =~= before.push("actix_web=warn"@));
                }
            },
            LogOption::HyperOff => {
                filters.push("hyper=off".to_owned());
                proof {
                    assert(filters.deep_view() =~= before.push("hyper=off"@));
                }
            },
            LogOption::HyperWarn => {
                filters.push("hyper=warn".to_owned());
                proof {
                    assert(filters.deep_view() =~= before.push("hyper=warn"@));
                }
            },
            LogOption::TokioOff => {
                filters.push("tokio=off".to_owned());
                proof {
                    assert(filters.deep_view() =~= before.push("tokio=off"@));
                }
            },
            LogOption::TokioWarn => {
                filters.push("tokio=warn".to_owned());
                proof {
                    assert(filters.deep_view() =~= before.push("tokio=warn"@));
                }
            },
            LogOption::Console => {
                *console = true;
            },
            LogOption::NoConsole => {
                *console = false;
            },
            LogOption::Custom(f) => {
                let ghost fv = f@;
                filters.push(f.clone());
                proof {
                    assert(filters.deep_view() =~= before.push(fv));
                }
            },
        }
    }
}

proof fn lemma_apply_all_one(m: SettingsModel, o: LogOption)
    ensures
        apply_all(m, seq![o]) == apply_step(m, o),
{
    assert(seq![o][0] == o);
    assert(seq![o].drop_first() =~= Seq::<LogOption>::empty());
    assert(apply_all(apply_step(m, o), Seq::<LogOption>::empty()) == apply_step(m, o));
}

/// Applying a concatenation of option sequences applies the first part, then
/// the second.
pub proof fn lemma_apply_all_concat(m: SettingsModel, a: Seq<LogOption>, b: Seq<LogOption>)
    ensures
        apply_all(m, a + b) == apply_all(apply_all(m, a), b),
    decreases a.len(),
{
    if a.len() == 0 {
        assert(a + b =~= b);
    } else {
        assert((a + b).drop_first() =~= a.drop_first() + b);
        lemma_apply_all_concat(apply_step(m, a[0]), a.drop_first(), b);
    }
}

/// Resolve an option sequence to the settings it denotes, starting from the
/// defaults and applying each option in order.
pub fn resolve_options(options: &Vec<LogOption>) -> (r: LogSettings)
    ensures
        r@ == resolved(options@),
{
    let mut level: String = "info".to_owned();
    let mut filters: Vec<String> = Vec::new();
    let mut console: bool = true;
    proof {
        assert(filters.deep_view() =~= Seq::<Seq<char>>::empty());
        assert(options@.take(0) =~= Seq::<LogOption>::empty());
    }
    let n = options.len();
    for i in 0..n
        invariant
            n == options.len(),
            apply_all(default_model(), options@.take(i as int)) == (SettingsModel {
                level: level@,
                filters: filters.deep_view(),
                console: console,
            }),
    {
        options[i].apply(&mut level, &mut filters, &mut console);
        proof {
            let taken = options@.take(i as int);
            lemma_apply_all_concat(default_model(), taken, seq![options@[i as int]]);
            assert(taken + seq![options@[i as int]] =~= options@.take(i + 1 as int));
            lemma_apply_all_one(apply_all(default_model(), taken), options@[i as int]);
        }
    }
    proof {
        assert(options@.take(n as int) =~= options@);
    }
    LogSettings { level, filters, console }
}

/// The severity selected by the last severity option of the sequence, if any.
pub open spec fn last_severity(opts: Seq<LogOption>) -> Option<Seq<char>>
    decreases opts.len(),
{
    if opts.len() == 0 {
        None
    } else {
        match severity_of(opts.last()) {
            Some(l) => Some(l),
            None => last_severity(opts.drop_last()),
        }
    }
}

/// The directive strings of all filter options of the sequence, in encounter
/// order.
pub open spec fn pushed_directives(opts: Seq<LogOption>) -> Seq<Seq<char>>
    decreases opts.len(),
{
    if opts.len() == 0 {
        Seq::empty()
    } else {
        pushed_directives(opts.drop_last()) + match directive_of(opts.last()) {
            Some(d) => seq![d],
            None => Seq::<Seq<char>>::empty(),
        }
    }
}

/// The console flag selected by the last console option of the sequence, if
/// any.
pub open spec fn last_console(opts: Seq<LogOption>) -> Option<bool>
    decreases opts.len(),
{
    if opts.len() == 0 {
        None
    } else {
        match console_of(opts.last()) {
            Some(c) => Some(c),
            None => last_console(opts.drop_last()),
        }
    }
}

proof fn lemma_apply_all_closed_form(m: SettingsModel, opts: Seq<LogOption>)
    ensures
        apply_all(m, opts).level == match last_severity(opts) {
            Some(l) => l,
            None => m.level,
        },
        apply_all(m, opts).filters == m.filters + pushed_directives(opts),
        apply_all(m, opts).console == match last_console(opts) {
            Some(c) => c,
            None => m.console,
        },
    decreases opts.len(),
{
    if opts.len() == 0 {
        assert(m.filters + pushed_directives(opts) =~= m.filters);
    } else {
        let init = opts.drop_last();
        let last = opts.last();
        lemma_apply_all_concat(m, init, seq![last]);
        assert(init + seq![last] =~= opts);
        lemma_apply_all_closed_form(m, init);
        lemma_apply_all_one(apply_all(m, init), last);
        assert(apply_all(m, opts) == apply_step(apply_all(m, init), last));
        match directive_of(last) {
            Some(d) => {
                assert((m.filters + pushed_directives(init)).push(d) =~= m.filters + (
                pushed_directives(init) + seq![d]));
            },
            None => {
                assert(pushed_directives(init) + Seq::<Seq<char>>::empty() =~= pushed_directives(
                    init,
                ));
            },
        }
    }
}

/// Law: resolving a sequence of options yields as severity the value of the
/// last severity option (or `info` if there is none), as filter list the
/// directive strings of all filter options in encounter order, and as console
/// flag the value of the last console option (or on if there is none).
pub proof fn lemma_resolved_closed_form(opts: Seq<LogOption>)
    ensures
        resolved(opts).level == match last_severity(opts) {
            Some(l) => l,
            None => "info"@,
        },
        resolved(opts).filters == pushed_directives(opts),
        resolved(opts).console == match last_console(opts) {
            Some(c) => c,
            None => true,
        },
{
    lemma_apply_all_closed_form(default_model(), opts);
    assert(Seq::<Seq<char>>::empty() + pushed_directives(opts) =~= pushed_directives(opts));
}

} // verus!
