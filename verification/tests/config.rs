use observability_core::config::{
    parse_otel_enabled, DiagnosticsConfig, SERVICE_NAME_KEY, SERVICE_VERSION_KEY,
};
use observability_core::directive::{directive_is_cut_between_characters, white_space};
use observability_core::filter::{
    default_filter, is_cut_between_characters, log_filter, select_log_filter, FilterSource,
    LogFilter,
};
use tracing_subscriber::EnvFilter;

fn text(value: &str) -> Option<String> {
    Some(value.to_string())
}

#[test]
fn otel_is_enabled_only_by_true() {
    assert!(parse_otel_enabled(&text("true")));
}

#[test]
fn otel_stays_off_when_unset_or_false() {
    assert!(!parse_otel_enabled(&None));
    assert!(!parse_otel_enabled(&text("false")));
}

#[test]
fn otel_stays_off_for_values_that_are_no_bool() {
    for raw in ["maybe", "", "TRUE", "True", " true", "true ", "1", "yes", "truefalse", "tru"] {
        assert!(!parse_otel_enabled(&text(raw)), "{:?}", raw);
    }
}

#[test]
fn default_filter_names_the_service() {
    assert_eq!(default_filter("demo"), "info,demo=info,actix_web=warn,actix_server=warn");
    assert_eq!(default_filter(""), "info,=info,actix_web=warn,actix_server=warn");
    assert_eq!(
        default_filter("rust-otel-demo"),
        "info,rust-otel-demo=info,actix_web=warn,actix_server=warn"
    );
}

#[test]
fn selected_filter_follows_the_verdict() {
    let used = select_log_filter(text("debug"), true, "demo");
    assert_eq!(used.spec, "debug");
    assert_eq!(used.source, FilterSource::Environment);

    let passed_over = select_log_filter(text("debug"), false, "demo");
    assert_eq!(passed_over.spec, "info,demo=info,actix_web=warn,actix_server=warn");
    assert_eq!(passed_over.source, FilterSource::Default);

    let unset = select_log_filter(None, true, "demo");
    assert_eq!(unset.spec, "info,demo=info,actix_web=warn,actix_server=warn");
    assert_eq!(unset.source, FilterSource::Default);
}

#[test]
fn environment_filter_is_used_when_it_parses() {
    for directives in ["debug", "warn,demo=trace", "demo::api=debug,hyper=off", "[span{field}]=info"] {
        let filter = log_filter(text(directives), "demo");
        assert_eq!(filter.spec, directives);
        assert_eq!(filter.source, FilterSource::Environment);
    }
}

#[test]
fn empty_environment_filter_is_used_as_it_is() {
    let filter = log_filter(text(""), "demo");
    assert_eq!(filter.spec, "");
    assert_eq!(filter.source, FilterSource::Environment);
}

#[test]
fn environment_filter_that_does_not_parse_is_passed_over() {
    for directives in ["demo=loud", "info,=", "!!", "demo=info,[{}]=debug", "a=b=c"] {
        let filter = log_filter(text(directives), "demo");
        assert_eq!(filter.spec, "info,demo=info,actix_web=warn,actix_server=warn", "{:?}", directives);
        assert_eq!(filter.source, FilterSource::Default, "{:?}", directives);
    }
}

#[test]
fn environment_filter_beyond_ascii_is_used_when_it_parses() {
    for directives in [
        "caf\u{e9}=info",
        "info,\u{65e5}\u{672c}=debug",
        "caf\u{e9}=info, debug",
        "info,\u{65e5}\u{672c}=",
        "[\u{e9}tape]=trace",
    ] {
        let filter = log_filter(text(directives), "demo");
        assert_eq!(filter.spec, directives);
        assert_eq!(filter.source, FilterSource::Environment, "{:?}", directives);
    }
}

#[test]
fn environment_filter_beyond_ascii_that_does_not_parse_is_passed_over() {
    for directives in ["\u{e9}=loud", "\u{e9}\u{e9}=info ", "info,\u{65e5}\u{672c}=loud", "\u{2603}"] {
        let filter = log_filter(text(directives), "demo");
        assert_eq!(filter.spec, "info,demo=info,actix_web=warn,actix_server=warn", "{:?}", directives);
        assert_eq!(filter.source, FilterSource::Default, "{:?}", directives);
    }
}

#[test]
fn environment_filter_cut_inside_a_character_is_passed_over() {
    for directives in [
        " \u{e9}\u{e9}=info",
        "info, caf\u{e9}=debug",
        "\u{a0}a=info",
        "debug,\t\u{65e5}\u{672c}=info,warn",
        "\u{3000}\u{e9}=info",
    ] {
        assert!(!is_cut_between_characters(directives), "{:?}", directives);
        let filter = log_filter(text(directives), "demo");
        assert_eq!(filter.spec, "info,demo=info,actix_web=warn,actix_server=warn", "{:?}", directives);
        assert_eq!(filter.source, FilterSource::Default, "{:?}", directives);
    }
}

#[test]
fn ascii_and_untrimmed_directives_are_cut_between_characters() {
    for directives in [
        "",
        ",",
        "debug",
        " debug",
        "info, demo=debug ,\twarn",
        "caf\u{e9}=info",
        "caf\u{e9} =info",
        "\u{e9} ,\u{e9}",
        " a,\u{e9}",
        "\u{e9}, a",
        "a\u{a0}\u{e9}",
    ] {
        assert!(is_cut_between_characters(directives), "{:?}", directives);
    }
}

#[test]
fn shifted_cuts_between_characters_are_admitted() {
    for directives in [
        " \u{e9}",
        " a\u{e9}",
        "a, \u{e9}",
        "\n,\r\u{80}",
        "\u{2003}x",
        "\u{85}",
        " [\u{e9}a]",
        " \u{e9} a=b",
    ] {
        assert!(is_cut_between_characters(directives), "{:?}", directives);
    }
}

#[test]
fn shifted_cuts_inside_a_character_are_left_out() {
    for directives in [
        " \u{e9}=",
        "  \u{e9}=x",
        " [\u{e9}]",
        "a,\t[x{\u{e9}}]",
        "\u{a0}\u{e9}[x]",
        " \u{e9}[",
        "\u{3000}\u{65e5}\u{672c}=",
        "\u{3000}\u{65e5}=\u{672c}",
    ] {
        assert!(!is_cut_between_characters(directives), "{:?}", directives);
    }
}

#[test]
fn environment_filter_with_shifted_cuts_is_used_when_it_parses() {
    for directives in [" \u{e9}", "\u{2003}x", " [\u{e9}a]", "info, \u{e9}", "\u{a0}\u{a0}\u{e9}"] {
        let filter = log_filter(text(directives), "demo");
        assert_eq!(filter.spec, directives);
        assert_eq!(filter.source, FilterSource::Environment, "{:?}", directives);
    }
}

#[test]
fn one_directive_is_judged_like_the_text_that_holds_only_it() {
    for directive in ["", " ", " \u{e9}", " \u{e9}=", "caf\u{e9}=info", " [\u{e9}]", " [\u{e9}a]"] {
        let chars: Vec<char> = directive.chars().collect();
        assert_eq!(
            directive_is_cut_between_characters(&chars),
            is_cut_between_characters(directive),
            "{:?}",
            directive
        );
    }
}

fn texts_of(alphabet: &[char], longest: usize) -> Vec<String> {
    let mut texts = vec![String::new()];
    let mut from = 0;
    for _ in 0..longest {
        let until = texts.len();
        for index in from..until {
            for c in alphabet {
                let mut longer = texts[index].clone();
                longer.push(*c);
                texts.push(longer);
            }
        }
        from = until;
    }
    texts
}

#[test]
fn every_admitted_text_is_parsed_and_used_when_accepted() {
    let alphabet = [' ', '\u{a0}', '\u{e9}', 'a', '=', '[', ']', '{', '}', ','];
    let mut admitted = 0;
    let mut left_out = 0;
    for directives in texts_of(&alphabet, 4) {
        if is_cut_between_characters(&directives) {
            admitted += 1;
            let accepted = EnvFilter::try_new(&directives).is_ok();
            let filter = log_filter(Some(directives.clone()), "demo");
            if accepted {
                assert_eq!(filter.source, FilterSource::Environment, "{:?}", directives);
                assert_eq!(filter.spec, directives);
            } else {
                assert_eq!(filter.source, FilterSource::Default, "{:?}", directives);
            }
        } else {
            left_out += 1;
            let filter = log_filter(Some(directives.clone()), "demo");
            assert_eq!(filter.source, FilterSource::Default, "{:?}", directives);
        }
    }
    assert!(admitted > 0);
    assert!(left_out > 0);
}

#[test]
fn white_space_is_what_trimming_removes() {
    for code in 0..=0x10ffffu32 {
        if let Some(c) = char::from_u32(code) {
            assert_eq!(white_space(c), c.is_whitespace(), "{:?}", c);
        }
    }
}

#[test]
fn unset_environment_filter_gives_the_default() {
    let filter = log_filter(None, "demo");
    assert_eq!(filter.spec, "info,demo=info,actix_web=warn,actix_server=warn");
    assert_eq!(filter.source, FilterSource::Default);
}

#[test]
fn configuration_defaults_when_the_environment_is_empty() {
    let config =
        DiagnosticsConfig::from_environment(None, None, "demo".to_string(), "1.2.3".to_string());
    assert!(!config.otel_enabled());
    assert_eq!(config.log_filter_spec(), "info,demo=info,actix_web=warn,actix_server=warn");
    assert_eq!(config.log_filter_source(), FilterSource::Default);
    assert_eq!(config.service_name(), "demo");
    assert_eq!(config.service_version(), "1.2.3");
}

#[test]
fn configuration_follows_the_environment() {
    let config = DiagnosticsConfig::from_environment(
        text("true"),
        text("warn,demo=debug"),
        "demo".to_string(),
        "0.1.0".to_string(),
    );
    assert!(config.otel_enabled());
    assert_eq!(config.log_filter_spec(), "warn,demo=debug");
    assert_eq!(config.log_filter_source(), FilterSource::Environment);
    assert_eq!(config.service_name(), "demo");
    assert_eq!(config.service_version(), "0.1.0");
}

#[test]
fn invalid_switch_is_read_as_false() {
    let maybe = DiagnosticsConfig::from_environment(
        text("maybe"),
        None,
        "demo".to_string(),
        "0.1.0".to_string(),
    );
    let off = DiagnosticsConfig::from_environment(
        text("false"),
        None,
        "demo".to_string(),
        "0.1.0".to_string(),
    );
    assert_eq!(maybe.otel_enabled(), off.otel_enabled());
    assert!(!maybe.otel_enabled());
    assert_eq!(maybe.log_filter_spec(), off.log_filter_spec());
}

#[test]
fn configuration_holds_what_it_was_made_of() {
    let filter = LogFilter { spec: "trace".to_string(), source: FilterSource::Environment };
    let config = DiagnosticsConfig::new(true, filter, "svc".to_string(), "9.9.9".to_string());
    assert!(config.otel_enabled());
    assert_eq!(config.log_filter_spec(), "trace");
    assert_eq!(config.log_filter_source(), FilterSource::Environment);
    assert_eq!(config.service_name(), "svc");
    assert_eq!(config.service_version(), "9.9.9");
}

#[test]
fn resource_attributes_are_name_then_version() {
    assert_eq!(SERVICE_NAME_KEY, "service.name");
    assert_eq!(SERVICE_VERSION_KEY, "service.version");
    let config =
        DiagnosticsConfig::from_environment(None, None, "demo".to_string(), "1.2.3".to_string());
    assert_eq!(
        config.resource_attributes(),
        vec![
            ("service.name".to_string(), "demo".to_string()),
            ("service.version".to_string(), "1.2.3".to_string()),
        ]
    );
}
