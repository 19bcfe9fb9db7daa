//! The log filter of the diagnostics pipeline: the directives that the
//! environment asks for, where it asks for any that can be used, and the
//! service's built-in directives otherwise.

use crate::directive::{directive_cut_between_characters, directive_is_cut_between_characters};
use tracing_subscriber::EnvFilter;
use vstd::prelude::*;
use vstd::string::StringExecFns;

verus! {

/// Where the directives of a log filter come from.
#[derive(Clone, Copy, Debug, PartialEq, Eq, Structural)]
pub enum FilterSource {
    /// From the environment's override.
    Environment,
    /// From the service's built-in default.
    Default,
}

/// The directives of the log filter, and where they come from.
#[derive(Debug)]
pub struct LogFilter {
    pub spec: String,
    pub source: FilterSource,
}

/// Whether `EnvFilter::try_new` reads the text as filter directives.
pub uninterp spec fn filter_directives_accepted(directives: Seq<char>) -> bool;

/// Whether the characters from `first` up to `end` are one directive of the
/// text: a stretch without a comma, with a comma or an end of the text on
/// either side.
pub open spec fn is_directive(text: Seq<char>, first: int, end: int) -> bool {
    &&& 0 <= first <= end <= text.len()
    &&& first == 0 || text[first - 1] == ','
    &&& end == text.len() || text[end] == ','
    &&& forall|k: int| first <= k < end ==> #[trigger] text[k] != ','
}

/// Whether the parser cuts every directive of the text between characters
/// only, as [`directive_cut_between_characters`] tells.
///
/// A text that the parser accepts meets this: the parser has then read each
/// of its directives to the end and made every one of these cuts.
pub open spec fn cut_between_characters(text: Seq<char>) -> bool {
    forall|first: int, end: int| #[trigger]
        is_directive(text, first, end) ==> directive_cut_between_characters(
            text.subrange(first, end),
        )
}

/// `EnvFilter::try_new`: whether the text parses as filter directives.
///
/// The call panics where the parser cuts a directive inside a character of
/// several bytes. `requires` leaves out the texts in which it comes to such
/// a cut.
#[verifier::external_body]
pub(crate) fn accepts_filter_directives(directives: &str) -> (accepted: bool)
    requires
        cut_between_characters(directives@),
    ensures
        accepted == filter_directives_accepted(directives@),
{
    EnvFilter::try_new(directives).is_ok()
}

/// Whether the parser cuts every directive of the text between characters
/// only.
pub fn is_cut_between_characters(text: &str) -> (safe: bool)
    ensures
        safe == cut_between_characters(text@),
{
    let mut directive: Vec<char> = Vec::new();
    let ghost mut start: int = 0;
    for c in it: text.chars()
        invariant
            it.seq() == text@,
            0 <= start <= it.index(),
            start == 0 || text@[start - 1] == ',',
            directive@ == text@.subrange(start, it.index() as int),
            forall|k: int| start <= k < it.index() ==> #[trigger] text@[k] != ',',
            forall|first: int, end: int| #[trigger]
                is_directive(text@, first, end) && end < start
                    ==> directive_cut_between_characters(text@.subrange(first, end)),
    {
        let ghost here: int = it.index() as int;
        if c == ',' {
            if !directive_is_cut_between_characters(&directive) {
                assert(is_directive(text@, start, here));
                return false;
            }
            assert forall|first: int, end: int| #[trigger]
                is_directive(text@, first, end) && end <= here
                    implies directive_cut_between_characters(text@.subrange(first, end)) by {
                if end >= start {
                    if first < start {
                        assert(text@[start - 1] != ',');
                    }
                    if first > start {
                        assert(text@[first - 1] == ',');
                    }
                    if end < here {
                        assert(text@[end] == ',');
                    }
                }
            }
            directive.clear();
            proof {
                start = here + 1;
            }
        } else {
            directive.push(c);
            assert(directive@ =~= text@.subrange(start, here + 1));
        }
    }
    let safe: bool = directive_is_cut_between_characters(&directive);
    proof {
        let len: int = text@.len() as int;
        if safe {
            assert forall|first: int, end: int| #[trigger]
                is_directive(text@, first, end) implies directive_cut_between_characters(
                text@.subrange(first, end),
            ) by {
                if end >= start {
                    if first < start {
                        assert(text@[start - 1] != ',');
                    }
                    if first > start {
                        assert(text@[first - 1] == ',');
                    }
                    if end < len {
                        assert(text@[end] == ',');
                    }
                }
            }
        } else {
            assert(is_directive(text@, start, len));
        }
    }
    safe
}

/// The built-in directives of a service: `info` for everything and for the
/// service itself, `warn` for the web framework and its server.
pub open spec fn default_filter_spec(service_name: Seq<char>) -> Seq<char> {
    "info,"@ + service_name + "=info,actix_web=warn,actix_server=warn"@
}

/// Whether the environment's override is used: it is set, the parser comes
/// to no cut inside a character, and it parses as filter directives.
pub open spec fn environment_filter_usable(candidate: Option<Seq<char>>) -> bool {
    candidate matches Some(directives) && cut_between_characters(directives)
        && filter_directives_accepted(directives)
}

/// The built-in directives of the service named `service_name`.
pub fn default_filter(service_name: &str) -> (spec: String)
    ensures
        spec@ == default_filter_spec(service_name@),
{
    let mut spec = "info,".to_owned();
    spec.append(service_name);
    spec.append("=info,actix_web=warn,actix_server=warn");
    spec
}

/// The log filter, given the environment's override and whether it can be
/// used: the override itself where it is set and usable, the built-in
/// directives of the service otherwise.
pub fn select_log_filter(candidate: Option<String>, usable: bool, service_name: &str) -> (filter:
    LogFilter)
    ensures
        candidate is Some && usable ==> filter.spec@ == candidate->0@ && filter.source
            == FilterSource::Environment,
        !(candidate is Some && usable) ==> filter.spec@ == default_filter_spec(service_name@)
            && filter.source == FilterSource::Default,
{
    match candidate {
        Some(directives) if usable => LogFilter {
            spec: directives,
            source: FilterSource::Environment,
        },
        _ => LogFilter { spec: default_filter(service_name), source: FilterSource::Default },
    }
}

/// The log filter of a service, given the environment's override if it is
/// set. An override that does not parse is passed over, and so is one in
/// which the parser comes to a cut inside a character.
pub fn log_filter(candidate: Option<String>, service_name: &str) -> (filter: LogFilter)
    ensures
        environment_filter_usable(candidate.deep_view()) ==> filter.spec@ == candidate->0@
            && filter.source == FilterSource::Environment,
        !environment_filter_usable(candidate.deep_view()) ==> filter.spec@ == default_filter_spec(
            service_name@,
        ) && filter.source == FilterSource::Default,
{
    let usable = match &candidate {
        Some(directives) => is_cut_between_characters(directives.as_str())
            && accepts_filter_directives(directives.as_str()),
        None => false,
    };
    select_log_filter(candidate, usable, service_name)
}

} // verus!
