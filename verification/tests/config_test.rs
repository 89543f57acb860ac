use job_orchestrator::config::{
    event_driven_from_env_value, executor_config_from_env_values, in_cluster_from_env_value, parse_bool,
    parse_i32_or, parse_topics, parse_unsigned, split_commas_exec, str_eq_ignore_ascii_case, DatabaseConfig,
};

#[test]
fn executor_settings_defaults() {
    let c = executor_config_from_env_values(None, None, None, None, None, Some("node-7".to_string()));
    assert_eq!(c.topics, vec!["default".to_string()]);
    assert_eq!(c.poll_interval, 5000);
    assert_eq!(c.batch_size, 5);
    assert_eq!(c.kubernetes_namespace, "default");
    assert_eq!(c.instance_id, "executor-node-7");

    let c = executor_config_from_env_values(None, None, None, None, None, None);
    assert_eq!(c.instance_id, "executor-unknown");
}

#[test]
fn executor_settings_from_values() {
    let c = executor_config_from_env_values(
        Some(" a, b ,,c".to_string()),
        Some("250".to_string()),
        Some("x".to_string()),
        Some("jobs".to_string()),
        Some("exec-1".to_string()),
        Some("ignored".to_string()),
    );
    assert_eq!(c.topics, vec!["a".to_string(), "b".to_string(), "".to_string(), "c".to_string()]);
    assert_eq!(c.poll_interval, 250);
    assert_eq!(c.batch_size, 5);
    assert_eq!(c.kubernetes_namespace, "jobs");
    assert_eq!(c.instance_id, "exec-1");
}

#[test]
fn numbers_read_as_the_standard_library_reads_them() {
    for s in ["0", "42", "+7", "18446744073709551615", "", "+", "-1", "1_000", " 1", "18446744073709551616"] {
        assert_eq!(parse_unsigned(s, u64::MAX), s.parse::<u64>().ok(), "{:?}", s);
        assert_eq!(parse_unsigned(s, 65535).map(|n| n as u16), s.parse::<u16>().ok(), "{:?}", s);
        assert_eq!(parse_i32_or(s, -9), s.parse::<i32>().unwrap_or(-9), "{:?}", s);
    }
    assert_eq!(parse_unsigned("65536", 65535), None);
    assert_eq!(parse_i32_or("-2147483648", 0), i32::MIN);
}

#[test]
fn flags_read_exactly() {
    assert_eq!(parse_bool("true"), Some(true));
    assert_eq!(parse_bool("false"), Some(false));
    assert_eq!(parse_bool("TRUE"), None);
    assert!(event_driven_from_env_value(Some("true".to_string())));
    assert!(!event_driven_from_env_value(Some("yes".to_string())));
    assert!(!event_driven_from_env_value(None));
    assert!(in_cluster_from_env_value(Some("TrUe".to_string())));
    assert!(!in_cluster_from_env_value(Some("1".to_string())));
    assert!(!in_cluster_from_env_value(None));
    assert!(str_eq_ignore_ascii_case("Hello", "hELLO"));
    assert!(!str_eq_ignore_ascii_case("Hello", "Hell"));
}

#[test]
fn lists_split_at_every_comma() {
    assert_eq!(split_commas_exec(""), vec!["".to_string()]);
    assert_eq!(split_commas_exec("a,"), vec!["a".to_string(), "".to_string()]);
    assert_eq!(parse_topics("  x  "), vec!["x".to_string()]);
    assert_eq!(parse_topics("ALL"), vec!["ALL".to_string()]);
}

#[test]
fn database_settings() {
    let c = DatabaseConfig::from_env_values(None, None, None, None, None);
    assert_eq!(c.host, "localhost");
    assert_eq!(c.port, 5432);
    assert_eq!(c.database, "jobqueue");
    assert_eq!(c.user, "jobqueue");
    assert_eq!(c.password, None);
    assert_eq!(c.max_connections, Some(20));

    let c = DatabaseConfig::from_env_values(
        Some("db".to_string()),
        Some("70000".to_string()),
        Some("q".to_string()),
        Some("u".to_string()),
        Some("pw".to_string()),
    );
    assert_eq!(c.host, "db");
    assert_eq!(c.port, 5432);
    assert_eq!(c.database, "q");
    assert_eq!(c.user, "u");
    assert_eq!(c.password, Some("pw".to_string()));
    assert_eq!(DatabaseConfig::from_env_values(None, Some("6543".to_string()), None, None, None).port, 6543);
}

#[test]
fn topics_are_trimmed_of_unicode_white_space() {
    assert_eq!(parse_topics("\u{3000}a\u{a0},\u{2028} b \t"), vec!["a".to_string(), "b".to_string()]);
}
