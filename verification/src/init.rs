//! The initializer's decision logic: turn resolved settings into a validated
//! installation plan, reject bad severity strings and bad directives with an
//! error naming the offending value, build the process filter from a plan,
//! and guarantee that only the first initialization call in a process has any
//! effect.

use vstd::prelude::*;
use vstd::string::StringExecFns;
use crate::filter::directive_ok;
use crate::filter::env_filter_add;
use crate::filter::env_filter_directives;
use crate::filter::env_filter_from_default;
use crate::filter::level_filter_ok;
use crate::filter::level_is_valid;
use crate::filter::parse_directive;
use crate::options::LogOption;
use crate::options::LogSettings;
use crate::options::SettingsModel;
use crate::options::resolve_options;
use crate::options::resolved;
use crate::text::clean_directives;
use crate::text::directives_of;
use crate::text::trim_spec;

verus! {

/// A configuration the initializer rejects; each variant carries the
/// offending value.
#[derive(Debug, Clone)]
pub enum InitError {
    InvalidLevel(String),
    InvalidDirective(String),
}

impl InitError {
    /// The diagnostic for this error; it names the offending value.
    pub fn message(&self) -> (r: String)
        ensures
            match self {
                InitError::InvalidLevel(l) => r@ == "invalid log level '"@ + l@ + "'"@,
                InitError::InvalidDirective(d) => r@ == "invalid filter directive '"@ + d@ + "'"@,
            },
    {
        match self {
            InitError::InvalidLevel(l) => {
                let mut m: String = "invalid log level '".to_owned();
                m.append(l.as_str());
                m.append("'");
                m
            },
            InitError::InvalidDirective(d) => {
                let mut m: String = "invalid filter directive '".to_owned();
                m.append(d.as_str());
                m.append("'");
                m
            },
        }
    }
}

/// Every directive string of the list is well-formed.
pub open spec fn all_directives_ok(ds: Seq<Seq<char>>) -> bool {
    forall|i: int| 0 <= i < ds.len() ==> directive_ok(#[trigger] ds[i])
}

/// A string trimming leaves unchanged: no whitespace at either end.
pub open spec fn trim_stable(s: Seq<char>) -> bool {
    s == trim_spec(s)
}

/// Every string of the list is trim-stable.
pub open spec fn all_trim_stable(ds: Seq<Seq<char>>) -> bool {
    forall|i: int| 0 <= i < ds.len() ==> trim_stable(#[trigger] ds[i])
}

/// A settings value the initializer accepts: the severity is valid both as a
/// severity and as a directive, and every collected directive is well-formed.
pub open spec fn settings_ok(m: SettingsModel) -> bool {
    &&& level_filter_ok(m.level)
    &&& directive_ok(m.level)
    &&& all_directives_ok(directives_of(m.filters))
}

/// The error a settings value is rejected with, matched against its parts.
pub open spec fn rejects(m: SettingsModel, e: InitError) -> bool {
    match e {
        InitError::InvalidLevel(l) => l@ == m.level && !(level_filter_ok(m.level) && directive_ok(
            m.level,
        )),
        InitError::InvalidDirective(d) => {
            let ds = directives_of(m.filters);
            &&& level_filter_ok(m.level)
            &&& directive_ok(m.level)
            &&& exists|i: int|
                0 <= i < ds.len() && !directive_ok(#[trigger] ds[i]) && d@ == ds[i] && (forall|
                    j: int,
                |
                    0 <= j < i ==> directive_ok(#[trigger] ds[j]))
        },
    }
}

/// Everything the first initialization call installs: the log file's path,
/// the validated severity and directive strings, and whether a console sink
/// is wanted.
pub struct InitPlan {
    pub file_path: String,
    pub level: String,
    pub directives: Vec<String>,
    pub console: bool,
}

impl InitPlan {
    /// The plan's strings all parse: the severity is valid and every
    /// directive is well-formed, and all of them are trim-stable, as the
    /// filter engine demands.
    pub open spec fn wf(self) -> bool {
        &&& level_filter_ok(self.level@)
        &&& directive_ok(self.level@)
        &&& all_directives_ok(self.directives.deep_view())
        &&& trim_stable(self.level@)
        &&& all_trim_stable(self.directives.deep_view())
    }

    /// How a plan relates to the settings it was built from, for a given file
    /// path.
    pub open spec fn matches(self, file_path: Seq<char>, m: SettingsModel) -> bool {
        &&& self.file_path@ == file_path
        &&& self.level@ == m.level
        &&& self.directives.deep_view() == directives_of(m.filters)
        &&& self.console == m.console
    }
}

/// Validate resolved settings into an installation plan.  The severity must
/// be a valid severity string and a valid directive; every directive string
/// collected from the filters must be well-formed; a rejection names the
/// first offending value.
pub fn build_plan(file_path: &str, settings: &LogSettings) -> (r: Result<InitPlan, InitError>)
    ensures
        r is Ok <==> settings_ok(settings@),
        (r matches Ok(p) ==> p.wf() && p.matches(file_path@, settings@)),
        (r matches Err(e) ==> rejects(settings@, e)),
{
    let dirs = clean_directives(&settings.filters);
    proof {
        crate::text::lemma_directives_of_trim_stable(settings@.filters);
    }
    if !level_is_valid(settings.level.as_str()) {
        return Err(InitError::InvalidLevel(settings.level.clone()));
    }
    proof {
        crate::filter::lemma_level_ok_trim_stable(settings@.level);
    }
    match parse_directive(settings.level.as_str()) {
        Ok(_) => {},
        Err(_) => {
            return Err(InitError::InvalidLevel(settings.level.clone()));
        },
    }
    let n = dirs.len();
    let mut i: usize = 0;
    while i < n
        invariant
            n == dirs.len(),
            i <= n,
            dirs.deep_view() == directives_of(settings@.filters),
            level_filter_ok(settings@.level),
            directive_ok(settings@.level),
            trim_stable(settings@.level),
            all_trim_stable(dirs.deep_view()),
            forall|j: int| 0 <= j < i ==> directive_ok(#[trigger] dirs.deep_view()[j]),
        decreases n - i,
    {
        proof {
            assert(dirs.deep_view()[i as int] == dirs@[i as int]@);
        }
        match parse_directive(dirs[i].as_str()) {
            Ok(_) => {},
            Err(_) => {
                return Err(InitError::InvalidDirective(dirs[i].clone()));
            },
        }
        i = i + 1;
    }
    Ok(
        InitPlan {
            file_path: file_path.to_owned(),
            level: settings.level.clone(),
            directives: dirs,
            console: settings.console,
        },
    )
}

/// Build the process filter for a plan: the environment's base configuration,
/// with the plan's severity and then each of its directives added on top, in
/// order.  A rejection names the first value the filter engine refuses.  The
/// plan's strings must be trim-stable, as every plan the initializer hands
/// out is, because the engine's parser cannot take untrimmed input.
pub fn build_env_filter(plan: &InitPlan) -> (r: Result<
    tracing_subscriber::filter::EnvFilter,
    InitError,
>)
    requires
        trim_stable(plan.level@),
        all_trim_stable(plan.directives.deep_view()),
    ensures
        r is Ok <==> directive_ok(plan.level@) && all_directives_ok(plan.directives.deep_view()),
        (r matches Ok(f) ==> env_filter_directives(f) == seq![plan.level@]
            + plan.directives.deep_view()),
        (r matches Err(e) ==> match e {
            InitError::InvalidLevel(l) => l@ == plan.level@ && !directive_ok(plan.level@),
            InitError::InvalidDirective(d) => {
                let ds = plan.directives.deep_view();
                &&& directive_ok(plan.level@)
                &&& exists|i: int|
                    0 <= i < ds.len() && !directive_ok(#[trigger] ds[i]) && d@ == ds[i] && (forall|
                        j: int,
                    |
                        0 <= j < i ==> directive_ok(#[trigger] ds[j]))
            },
        }),
{
    let mut f = env_filter_from_default();
    match parse_directive(plan.level.as_str()) {
        Ok(d) => {
            f = env_filter_add(f, d);
        },
        Err(_) => {
            return Err(InitError::InvalidLevel(plan.level.clone()));
        },
    }
    proof {
        assert(Seq::<Seq<char>>::empty().push(plan.level@) =~= seq![plan.level@]
            + plan.directives.deep_view().take(0));
    }
    let n = plan.directives.len();
    let mut i: usize = 0;
    while i < n
        invariant
            n == plan.directives.len(),
            i <= n,
            directive_ok(plan.level@),
            all_trim_stable(plan.directives.deep_view()),
            env_filter_directives(f) == seq![plan.level@] + plan.directives.deep_view().take(
                i as int,
            ),
            forall|j: int| 0 <= j < i ==> directive_ok(#[trigger] plan.directives.deep_view()[j]),
        decreases n - i,
    {
        proof {
            assert(plan.directives.deep_view()[i as int] == plan.directives@[i as int]@);
        }
        match parse_directive(plan.directives[i].as_str()) {
            Ok(d) => {
                f = env_filter_add(f, d);
                proof {
                    assert((seq![plan.level@] + plan.directives.deep_view().take(i as int)).push(
                        plan.directives.deep_view()[i as int],
                    ) =~= seq![plan.level@] + plan.directives.deep_view().take(i as int + 1));
                }
            },
            Err(_) => {
                return Err(InitError::InvalidDirective(plan.directives[i].clone()));
            },
        }
        i = i + 1;
    }
    proof {
        assert(plan.directives.deep_view().take(n as int) =~= plan.directives.deep_view());
    }
    Ok(f)
}

/// The run-once guard: records whether the backend has already been installed
/// in this process.
pub struct InitGuard {
    pub ready: bool,
}

/// What a call to the initializer asks its caller to do: install the plan's
/// sinks and filter, or nothing because a previous call already did.
pub enum InitAction {
    Install(InitPlan),
    Skip,
}

impl InitGuard {
    /// A fresh guard: nothing has been installed yet.
    pub fn new() -> (g: InitGuard)
        ensures
            !g.ready,
    {
        InitGuard { ready: false }
    }

    /// Initialize from an ordered sequence of options.  The first accepted
    /// call yields the installation plan and makes the guard ready; every
    /// later call skips, and its arguments have no effect of any kind.  A
    /// rejected call names the offending value and leaves the guard unready,
    /// so nothing is partially installed.
    pub fn initialize(&mut self, file_path: &str, options: &Vec<LogOption>) -> (r: Result<
        InitAction,
        InitError,
    >)
        ensures
            old(self).ready ==> (r matches Ok(InitAction::Skip) && *final (self) == *old(self)),
            !old(self).ready ==> {
                let m = resolved(options@);
                &&& (settings_ok(m) ==> (r matches Ok(InitAction::Install(p)) && p.wf()
                    && p.matches(file_path@, m)))
                &&& (!settings_ok(m) ==> (r matches Err(e) && rejects(m, e)))
                &&& (final (self).ready <==> settings_ok(m))
            },
    {
        if self.ready {
            return Ok(InitAction::Skip);
        }
        let settings = resolve_options(options);
        match build_plan(file_path, &settings) {
            Ok(p) => {
                self.ready = true;
                Ok(InitAction::Install(p))
            },
            Err(e) => Err(e),
        }
    }

    /// Initialize from a raw severity string, raw filter strings and a
    /// console flag, with the same contract as initializing from options.
    pub fn initialize_with(
        &mut self,
        file_path: &str,
        level: &str,
        filters: &Vec<String>,
        console: bool,
    ) -> (r: Result<InitAction, InitError>)
        ensures
            old(self).ready ==> (r matches Ok(InitAction::Skip) && *final (self) == *old(self)),
            !old(self).ready ==> {
                let m = (SettingsModel {
                    level: level@,
                    filters: filters.deep_view(),
                    console: console,
                });
                &&& (settings_ok(m) ==> (r matches Ok(InitAction::Install(p)) && p.wf()
                    && p.matches(file_path@, m)))
                &&& (!settings_ok(m) ==> (r matches Err(e) && rejects(m, e)))
                &&& (final (self).ready <==> settings_ok(m))
            },
    {
        if self.ready {
            return Ok(InitAction::Skip);
        }
        let settings = LogSettings {
            level: level.to_owned(),
            filters: clone_strings(filters),
            console,
        };
        match build_plan(file_path, &settings) {
            Ok(p) => {
                self.ready = true;
                Ok(InitAction::Install(p))
            },
            Err(e) => Err(e),
        }
    }
}

/// Copy a list of strings.
fn clone_strings(v: &Vec<String>) -> (r: Vec<String>)
    ensures
        r.deep_view() == v.deep_view(),
{
    let mut r: Vec<String> = Vec::new();
    let n = v.len();
    proof {
        assert(r.deep_view() =~= v.deep_view().take(0));
    }
    for i in 0..n
        invariant
            n == v.len(),
            r.deep_view() == v.deep_view().take(i as int),
    {
        let ghost rdv = r.deep_view();
        r.push(v[i].clone());
        proof {
            assert(r.deep_view() =~~= rdv.push(v.deep_view()[i as int]));
            assert(rdv.push(v.deep_view()[i as int]) =~= v.deep_view().take(i as int + 1));
        }
    }
    proof {
        assert(v.deep_view().take(n as int) =~= v.deep_view());
    }
    r
}

} // verus!
