use sentinel_agent::config::{
    count_setting, flag_setting, parse_count, parse_flag, AgentConfig, EnvSettings,
    DEFAULT_BATCH_SIZE, DEFAULT_DLP_ENABLED, DEFAULT_INGESTOR_URL, DEFAULT_MAX_BUFFER_SIZE,
    DEFAULT_TENANT_ID,
};

fn nothing_set() -> EnvSettings {
    EnvSettings {
        agent_id: None,
        ingestor_url: None,
        tenant_id: None,
        dlp_enabled: None,
        batch_size: None,
        max_buffer_size: None,
    }
}

fn text(s: &str) -> Option<String> {
    Some(s.to_string())
}

#[test]
fn defaults_are_as_documented() {
    assert_eq!(DEFAULT_INGESTOR_URL, "http://127.0.0.1:50051");
    assert_eq!(DEFAULT_TENANT_ID, "default");
    assert!(DEFAULT_DLP_ENABLED);
    assert_eq!(DEFAULT_BATCH_SIZE, 100);
    assert_eq!(DEFAULT_MAX_BUFFER_SIZE, 10000);
}

#[test]
fn an_empty_environment_gives_the_defaults() {
    let config = AgentConfig::load(nothing_set(), "generated-id".to_string());
    assert_eq!(config.agent_id, "generated-id");
    assert_eq!(config.ingestor_url, "http://127.0.0.1:50051");
    assert_eq!(config.tenant_id, "default");
    assert!(config.dlp_enabled);
    assert_eq!(config.batch_size, 100);
    assert_eq!(config.max_buffer_size, 10000);
}

#[test]
fn settings_that_are_present_are_taken() {
    let env = EnvSettings {
        agent_id: text("agent-7"),
        ingestor_url: text("https://ingest.example:443"),
        tenant_id: text("acme"),
        dlp_enabled: text("false"),
        batch_size: text("250"),
        max_buffer_size: text("+5000"),
    };
    let config = AgentConfig::load(env, "generated-id".to_string());
    assert_eq!(config.agent_id, "agent-7");
    assert_eq!(config.ingestor_url, "https://ingest.example:443");
    assert_eq!(config.tenant_id, "acme");
    assert!(!config.dlp_enabled);
    assert_eq!(config.batch_size, 250);
    assert_eq!(config.max_buffer_size, 5000);
}

#[test]
fn unreadable_settings_fall_back_to_the_defaults() {
    let env = EnvSettings {
        agent_id: text(""),
        ingestor_url: text(""),
        tenant_id: text(""),
        dlp_enabled: text("yes"),
        batch_size: text("many"),
        max_buffer_size: text("-1"),
    };
    let config = AgentConfig::load(env, "generated-id".to_string());
    assert_eq!(config.agent_id, "");
    assert_eq!(config.ingestor_url, "");
    assert_eq!(config.tenant_id, "");
    assert!(config.dlp_enabled);
    assert_eq!(config.batch_size, 100);
    assert_eq!(config.max_buffer_size, 10000);
}

#[test]
fn flags_are_true_and_false_in_exactly_these_letters() {
    assert_eq!(parse_flag("true"), Some(true));
    assert_eq!(parse_flag("false"), Some(false));
    for other in ["", "True", "FALSE", "1", "0", " true", "true ", "truee", "fals", "yes", "trué"] {
        assert_eq!(parse_flag(other), None, "{:?}", other);
        assert_eq!(parse_flag(other), other.parse::<bool>().ok(), "{:?}", other);
    }
}

#[test]
fn counts_are_decimal_digits_after_an_optional_plus() {
    assert_eq!(parse_count("0"), Some(0));
    assert_eq!(parse_count("7"), Some(7));
    assert_eq!(parse_count("100"), Some(100));
    assert_eq!(parse_count("+100"), Some(100));
    assert_eq!(parse_count("000123"), Some(123));
    assert_eq!(parse_count("10000"), Some(10000));
    for other in ["", "+", "-", "-1", "++1", "1+", " 1", "1 ", "1_000", "0x10", "1e3", "12a", "٣"] {
        assert_eq!(parse_count(other), None, "{:?}", other);
    }
}

#[test]
fn counts_beyond_the_largest_usize_are_refused() {
    let largest = usize::MAX.to_string();
    assert_eq!(parse_count(&largest), Some(usize::MAX));
    assert_eq!(parse_count(&format!("+{}", largest)), Some(usize::MAX));
    assert_eq!(parse_count(&format!("{}0", largest)), None);
    assert_eq!(parse_count(&format!("1{}", largest)), None);
    let mut above = largest.into_bytes();
    let last = above.len() - 1;
    above[last] += 1;
    assert_eq!(parse_count(std::str::from_utf8(&above).unwrap()), None);
    assert_eq!(parse_count("99999999999999999999999999999999999999999999"), None);
}

#[test]
fn counts_agree_with_the_standard_parser() {
    let samples = [
        "0", "1", "42", "+42", "0042", "18446744073709551615", "18446744073709551616", "+", "",
        "-0", "+-1", "4 2", "42\n", "4294967295", "4294967296", "999999999999999999999",
    ];
    for sample in samples {
        assert_eq!(parse_count(sample), sample.parse::<usize>().ok(), "{:?}", sample);
    }
}

#[test]
fn settings_take_the_fallback_where_absent_or_unreadable() {
    assert!(flag_setting(&None, true));
    assert!(!flag_setting(&None, false));
    assert!(!flag_setting(&text("false"), true));
    assert!(flag_setting(&text("true"), false));
    assert!(flag_setting(&text("maybe"), true));
    assert!(!flag_setting(&text("maybe"), false));
    assert_eq!(count_setting(&None, 9), 9);
    assert_eq!(count_setting(&text("12"), 9), 12);
    assert_eq!(count_setting(&text("twelve"), 9), 9);
}
