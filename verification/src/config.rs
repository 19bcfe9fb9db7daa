//! The configuration of the diagnostics pipeline, read once at start-up from
//! what the environment holds.

use crate::filter::{
    default_filter_spec, environment_filter_usable, log_filter, FilterSource, LogFilter,
};
use vstd::prelude::*;

verus! {

/// What the diagnostics pipeline is built from. Nothing changes it once it is
/// made.
#[derive(Debug)]
pub struct DiagnosticsConfig {
    otel_enabled: bool,
    log_filter_spec: String,
    log_filter_source: FilterSource,
    service_name: String,
    service_version: String,
}

/// A configuration as contracts speak of it.
pub struct DiagnosticsConfigView {
    pub otel_enabled: bool,
    pub log_filter_spec: Seq<char>,
    pub log_filter_source: FilterSource,
    pub service_name: Seq<char>,
    pub service_version: Seq<char>,
}

impl View for DiagnosticsConfig {
    type V = DiagnosticsConfigView;

    closed spec fn view(&self) -> DiagnosticsConfigView {
        DiagnosticsConfigView {
            otel_enabled: self.otel_enabled,
            log_filter_spec: self.log_filter_spec@,
            log_filter_source: self.log_filter_source,
            service_name: self.service_name@,
            service_version: self.service_version@,
        }
    }
}

/// The resource attribute that names the service.
pub const SERVICE_NAME_KEY: &'static str = "service.name";

/// The resource attribute that gives the service's version.
pub const SERVICE_VERSION_KEY: &'static str = "service.version";

/// Whether trace export is switched on by the environment's value: only the
/// text `true` does so.
pub open spec fn otel_enabled_by(raw: Option<Seq<char>>) -> bool {
    raw == Some("true"@)
}

/// Reads the switch for trace export. It is on exactly when the value is set
/// and is the text `true`; unset, `false` or anything else leaves it off.
pub fn parse_otel_enabled(raw: &Option<String>) -> (enabled: bool)
    ensures
        enabled == otel_enabled_by(raw.deep_view()),
{
    match raw {
        Some(value) => {
            let on = "true".to_owned();
            *value == on
        },
        None => false,
    }
}

impl DiagnosticsConfig {
    /// The configuration with exactly these values.
    pub fn new(
        otel_enabled: bool,
        log_filter: LogFilter,
        service_name: String,
        service_version: String,
    ) -> (config: DiagnosticsConfig)
        ensures
            config@ == (DiagnosticsConfigView {
                otel_enabled,
                log_filter_spec: log_filter.spec@,
                log_filter_source: log_filter.source,
                service_name: service_name@,
                service_version: service_version@,
            }),
    {
        DiagnosticsConfig {
            otel_enabled,
            log_filter_spec: log_filter.spec,
            log_filter_source: log_filter.source,
            service_name,
            service_version,
        }
    }

    /// The configuration that the environment asks for: `otel_enabled` and
    /// `filter_override` are the values of the two variables, `None` where
    /// one is not set.
    ///
    /// Trace export is on only for the value `true`. The log filter is the
    /// environment's where that is set and usable, and the service's built-in
    /// one otherwise.
    pub fn from_environment(
        otel_enabled: Option<String>,
        filter_override: Option<String>,
        service_name: String,
        service_version: String,
    ) -> (config: DiagnosticsConfig)
        ensures
            config@.otel_enabled == otel_enabled_by(otel_enabled.deep_view()),
            environment_filter_usable(filter_override.deep_view()) ==> config@.log_filter_spec
                == filter_override->0@ && config@.log_filter_source == FilterSource::Environment,
            !environment_filter_usable(filter_override.deep_view()) ==> config@.log_filter_spec
                == default_filter_spec(service_name@) && config@.log_filter_source
                == FilterSource::Default,
            config@.service_name == service_name@,
            config@.service_version == service_version@,
    {
        let enabled = parse_otel_enabled(&otel_enabled);
        let filter = log_filter(filter_override, service_name.as_str());
        DiagnosticsConfig::new(enabled, filter, service_name, service_version)
    }

    /// Whether spans are exported.
    pub fn otel_enabled(&self) -> (enabled: bool)
        ensures
            enabled == self@.otel_enabled,
    {
        self.otel_enabled
    }

    /// The directives of the log filter.
    pub fn log_filter_spec(&self) -> (spec: &str)
        ensures
            spec@ == self@.log_filter_spec,
    {
        self.log_filter_spec.as_str()
    }

    /// Where the directives of the log filter come from.
    pub fn log_filter_source(&self) -> (source: FilterSource)
        ensures
            source == self@.log_filter_source,
    {
        self.log_filter_source
    }

    /// The name under which the service reports.
    pub fn service_name(&self) -> (name: &str)
        ensures
            name@ == self@.service_name,
    {
        self.service_name.as_str()
    }

    /// The version under which the service reports.
    pub fn service_version(&self) -> (version: &str)
        ensures
            version@ == self@.service_version,
    {
        self.service_version.as_str()
    }

    /// The attributes attached to every exported span: the service's name
    /// under [`SERVICE_NAME_KEY`], then its version under
    /// [`SERVICE_VERSION_KEY`].
    pub fn resource_attributes(&self) -> (attributes: Vec<(String, String)>)
        ensures
            attributes@.len() == 2,
            attributes@[0].0@ == SERVICE_NAME_KEY@,
            attributes@[0].1@ == self@.service_name,
            attributes@[1].0@ == SERVICE_VERSION_KEY@,
            attributes@[1].1@ == self@.service_version,
    {
        let mut attributes: Vec<(String, String)> = Vec::new();
        attributes.push((SERVICE_NAME_KEY.to_owned(), self.service_name.clone()));
        attributes.push((SERVICE_VERSION_KEY.to_owned(), self.service_version.clone()));
        attributes
    }
}

} // verus!
