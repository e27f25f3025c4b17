//! The boundary to the filter engine: what counts as a valid severity string,
//! what counts as a well-formed filter directive, and how directives are
//! collected into the process-wide filter on top of the environment's base
//! configuration.

use vstd::prelude::*;

verus! {

/// An ASCII decimal digit.
pub open spec fn ascii_digit(c: char) -> bool {
    ('0' as u32) <= (c as u32) && (c as u32) <= ('9' as u32)
}

/// The digits of a numeric severity string, after an optional leading plus
/// sign.
pub open spec fn digit_body(s: Seq<char>) -> Seq<char> {
    if s.len() > 0 && s[0] == '+' {
        s.drop_first()
    } else {
        s
    }
}

/// A non-empty all-digit sequence whose numeric value is at most five: every
/// digit but the last is a zero, and the last is at most `'5'`.
pub open spec fn digits_value_le_5(s: Seq<char>) -> bool {
    &&& s.len() > 0
    &&& (forall|i: int| 0 <= i < s.len() ==> ascii_digit(#[trigger] s[i]))
    &&& (forall|i: int| 0 <= i < s.len() - 1 ==> #[trigger] s[i] == '0')
    &&& (s.last() as u32) <= ('5' as u32)
}

/// Character-wise ASCII-case-insensitive match against a lowercase keyword
/// character.
pub open spec fn kw_char(c: char, l: char) -> bool {
    c == l || (c as u32) + 32 == (l as u32)
}

/// ASCII-case-insensitive equality with a lowercase keyword.
pub open spec fn matches_kw(s: Seq<char>, kw: Seq<char>) -> bool {
    s.len() == kw.len() && (forall|i: int| 0 <= i < s.len() ==> kw_char(#[trigger] s[i], kw[i]))
}

/// One of the severity keywords, ASCII-case-insensitively.
pub open spec fn level_keyword(s: Seq<char>) -> bool {
    ||| matches_kw(s, "off"@)
    ||| matches_kw(s, "error"@)
    ||| matches_kw(s, "warn"@)
    ||| matches_kw(s, "info"@)
    ||| matches_kw(s, "debug"@)
    ||| matches_kw(s, "trace"@)
}

/// The strings the filter engine accepts as a severity: a severity keyword
/// (ASCII-case-insensitive), a digit string naming a level number of at most
/// five (optionally with a leading plus sign), or the empty string.
pub open spec fn level_filter_ok(s: Seq<char>) -> bool {
    ||| digits_value_le_5(digit_body(s))
    ||| s.len() == 0
    ||| level_keyword(s)
}

/// Relies on `LevelFilter`'s `FromStr` impl (from tracing_core, re-exported by
/// tracing_subscriber): it accepts exactly the severity keywords
/// ASCII-case-insensitively, digit strings with value at most five (with an
/// optional leading plus sign), and the empty string.
#[verifier::external_body]
pub(crate) fn level_is_valid(s: &str) -> (r: bool)
    ensures
        r == level_filter_ok(s@),
{
    s.parse::<tracing_subscriber::filter::LevelFilter>().is_ok()
}

#[verifier::external_type_specification]
#[verifier::external_body]
pub struct ExDirective(tracing_subscriber::filter::Directive);

#[verifier::external_type_specification]
#[verifier::external_body]
pub struct ExParseError(tracing_subscriber::filter::ParseError);

#[verifier::external_type_specification]
#[verifier::external_body]
pub struct ExEnvFilter(tracing_subscriber::filter::EnvFilter);

pub uninterp spec fn directive_ok(s: Seq<char>) -> bool;

pub uninterp spec fn directive_str(d: tracing_subscriber::filter::Directive) -> Seq<char>;

pub uninterp spec fn env_filter_directives(f: tracing_subscriber::filter::EnvFilter) -> Seq<
    Seq<char>,
>;

/// Relies on `Directive`'s `FromStr` impl (tracing_subscriber): parsing
/// succeeds exactly on well-formed filter directives, and a parsed directive
/// stands for the string it was parsed from.  The engine walks the indices of
/// the trimmed string but slices the untrimmed one with them, so it can panic
/// on untrimmed input with multibyte characters; only trim-stable strings are
/// handed to it.
#[verifier::external_body]
pub(crate) fn parse_directive(s: &str) -> (r: Result<
    tracing_subscriber::filter::Directive,
    tracing_subscriber::filter::ParseError,
>)
    requires
        s@ == crate::text::trim_spec(s@),
    ensures
        r is Ok <==> directive_ok(s@),
        (r matches Ok(d) ==> directive_str(d) == s@),
{
    s.parse()
}

/// Law: every string the filter engine accepts as a severity is trim-stable;
/// the keywords, the digit forms and the empty string carry no whitespace at
/// either end.
pub proof fn lemma_level_ok_trim_stable(s: Seq<char>)
    requires
        level_filter_ok(s),
    ensures
        crate::text::trim_spec(s) == s,
{
    if s.len() == 0 {
        assert(crate::text::trim_front(s) == s);
        assert(crate::text::trim_back(s) == s);
    } else {
        reveal_strlit("off");
        reveal_strlit("error");
        reveal_strlit("warn");
        reveal_strlit("info");
        reveal_strlit("debug");
        reveal_strlit("trace");
        if digits_value_le_5(digit_body(s)) {
            let ds = digit_body(s);
            if s[0] == '+' {
                assert(ds.last() == s.last());
                assert(ascii_digit(s.last()));
            } else {
                assert(ascii_digit(s[0]));
                assert(ascii_digit(s.last()));
            }
        } else {
            assert(level_keyword(s));
        }
        assert(!crate::text::ws_char(s[0]));
        assert(!crate::text::ws_char(s.last()));
        assert(crate::text::trim_front(s) == s);
        assert(crate::text::trim_back(s) == s);
    }
}

/// Relies on `EnvFilter::from_default_env` (tracing_subscriber): the returned
/// filter carries only what the environment supplies as its base; no
/// directive has been added to it yet.
#[verifier::external_body]
pub(crate) fn env_filter_from_default() -> (f: tracing_subscriber::filter::EnvFilter)
    ensures
        env_filter_directives(f) == Seq::<Seq<char>>::empty(),
{
    tracing_subscriber::filter::EnvFilter::from_default_env()
}

/// Relies on `EnvFilter::add_directive` (tracing_subscriber): the result is
/// the given filter with the given directive added on top of it.
#[verifier::external_body]
pub(crate) fn env_filter_add(
    f: tracing_subscriber::filter::EnvFilter,
    d: tracing_subscriber::filter::Directive,
) -> (r: tracing_subscriber::filter::EnvFilter)
    ensures
        env_filter_directives(r) == env_filter_directives(f).push(directive_str(d)),
{
    f.add_directive(d)
}

} // verus!
