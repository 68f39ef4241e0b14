use backend::config::{
    agent_script_candidates, bypass_key_setting, default_agent_script, default_jobs_dir,
    default_logs_dir, default_request_records_file, number_setting, parse_unsigned,
    resolve_settings, text_setting, RawSettings, Settings, MAX_UPLOAD_BYTES,
};

#[test]
fn default_directories() {
    assert_eq!(default_jobs_dir(true), "../jobs");
    assert_eq!(default_jobs_dir(false), "jobs");
    assert_eq!(default_logs_dir(true), "../logs");
    assert_eq!(default_logs_dir(false), "logs");
    assert_eq!(default_request_records_file(true), "../request_records.txt");
    assert_eq!(default_request_records_file(false), "request_records.txt");
}

#[test]
fn upload_limit() {
    assert_eq!(MAX_UPLOAD_BYTES, 536_870_912);
}

#[test]
fn agent_script_candidates_by_working_directory() {
    assert_eq!(
        agent_script_candidates(true),
        vec!["../python/agent.py", "../agent.py", "agent.py"]
    );
    assert_eq!(agent_script_candidates(false), vec!["python/agent.py", "agent.py"]);
}

#[test]
fn default_agent_script_is_the_first_that_is_present() {
    assert_eq!(default_agent_script(true, &vec![true, true, true]), "../python/agent.py");
    assert_eq!(default_agent_script(true, &vec![false, true, true]), "../agent.py");
    assert_eq!(default_agent_script(true, &vec![false, false, true]), "agent.py");
    assert_eq!(default_agent_script(false, &vec![false, true]), "agent.py");
    assert_eq!(default_agent_script(false, &vec![true, false]), "python/agent.py");
}

#[test]
fn default_agent_script_falls_back_to_the_first_candidate() {
    assert_eq!(default_agent_script(true, &vec![false, false, false]), "../python/agent.py");
    assert_eq!(default_agent_script(false, &vec![false, false]), "python/agent.py");
    assert_eq!(default_agent_script(false, &Vec::new()), "python/agent.py");
    assert_eq!(default_agent_script(false, &vec![false, false, true]), "python/agent.py");
    assert_eq!(default_agent_script(true, &vec![false]), "../python/agent.py");
}

#[test]
fn numbers_are_read() {
    assert_eq!(parse_unsigned("0", u64::MAX), Some(0));
    assert_eq!(parse_unsigned("42", u64::MAX), Some(42));
    assert_eq!(parse_unsigned("+42", u64::MAX), Some(42));
    assert_eq!(parse_unsigned("007", u64::MAX), Some(7));
    assert_eq!(parse_unsigned("18446744073709551615", u64::MAX), Some(u64::MAX));
    assert_eq!(parse_unsigned("4294967295", 4_294_967_295), Some(4_294_967_295));
    assert_eq!(parse_unsigned("65535", 65_535), Some(65_535));
}

#[test]
fn other_texts_are_no_numbers() {
    for text in ["", "+", "-1", "-0", " 1", "1 ", "1_000", "0x10", "1.0", "++1", "1+", "１"] {
        assert_eq!(parse_unsigned(text, u64::MAX), None);
        assert_eq!(text.parse::<u64>().ok(), None);
    }
}

#[test]
fn numbers_out_of_range_are_no_numbers() {
    assert_eq!(parse_unsigned("18446744073709551616", u64::MAX), None);
    assert_eq!(parse_unsigned("99999999999999999999999", u64::MAX), None);
    assert_eq!(parse_unsigned("4294967296", 4_294_967_295), None);
    assert_eq!(parse_unsigned("65536", 65_535), None);
    assert_eq!(parse_unsigned("11", 10), None);
    assert_eq!(parse_unsigned("10", 10), Some(10));
    assert_eq!(parse_unsigned("1", 0), None);
    assert_eq!(parse_unsigned("0", 0), Some(0));
}

#[test]
fn numbers_are_read_as_the_standard_library_reads_them() {
    for text in ["0", "1", "+1", "000", "4294967295", "4294967296", "+", "", "12a", "-5"] {
        assert_eq!(
            parse_unsigned(text, u32::MAX as u64),
            text.parse::<u32>().ok().map(u64::from)
        );
        assert_eq!(
            parse_unsigned(text, u16::MAX as u64),
            text.parse::<u16>().ok().map(u64::from)
        );
    }
}

#[test]
fn settings_have_defaults() {
    assert_eq!(number_setting(None, u64::MAX, 3600), 3600);
    assert_eq!(number_setting(Some("abc"), u64::MAX, 3600), 3600);
    assert_eq!(number_setting(Some("70000"), 65_535, 8000), 8000);
    assert_eq!(number_setting(Some("120"), u64::MAX, 3600), 120);
    assert_eq!(text_setting(None, "python3"), "python3");
    assert_eq!(text_setting(Some("/usr/bin/python"), "python3"), "/usr/bin/python");
    assert_eq!(text_setting(Some(""), "python3"), "");
}

#[test]
fn bypass_key_is_trimmed_and_may_be_absent() {
    assert_eq!(bypass_key_setting(None), None);
    assert_eq!(bypass_key_setting(Some("")), None);
    assert_eq!(bypass_key_setting(Some("  \t")), None);
    assert_eq!(bypass_key_setting(Some(" key ")), Some("key".to_string()));
    assert_eq!(bypass_key_setting(Some("k e y")), Some("k e y".to_string()));
}

#[test]
fn settings_without_anything_set() {
    let settings = resolve_settings(&RawSettings::default(), false, &vec![false, true]);
    assert_eq!(
        settings,
        Settings {
            jobs_dir: "jobs".to_string(),
            agent_script: "agent.py".to_string(),
            python_bin: "python3".to_string(),
            daily_limit_per_browser: 0,
            bypass_key: None,
            jobs_ttl_seconds: 3600,
            jobs_cleanup_interval_seconds: 600,
            request_records_file: "request_records.txt".to_string(),
            host: "0.0.0.0".to_string(),
            port: 8000,
            log_dir: "logs".to_string(),
        }
    );
}

#[test]
fn settings_with_everything_set() {
    let raw = RawSettings {
        jobs_dir: Some("/data/jobs".to_string()),
        agent_script: Some("/opt/agent.py".to_string()),
        python_bin: Some("/usr/bin/python3.12".to_string()),
        daily_limit_per_browser: Some("1".to_string()),
        bypass_key: Some(" letmein \n".to_string()),
        jobs_ttl_seconds: Some("0".to_string()),
        jobs_cleanup_interval_seconds: Some("30".to_string()),
        request_records_file: Some("/var/log/requests.txt".to_string()),
        host: Some("127.0.0.1".to_string()),
        port: Some("9000".to_string()),
        log_dir: Some("/var/log/vs".to_string()),
    };
    let settings = resolve_settings(&raw, true, &vec![true, true, true]);
    assert_eq!(
        settings,
        Settings {
            jobs_dir: "/data/jobs".to_string(),
            agent_script: "/opt/agent.py".to_string(),
            python_bin: "/usr/bin/python3.12".to_string(),
            daily_limit_per_browser: 1,
            bypass_key: Some("letmein".to_string()),
            jobs_ttl_seconds: 0,
            jobs_cleanup_interval_seconds: 30,
            request_records_file: "/var/log/requests.txt".to_string(),
            host: "127.0.0.1".to_string(),
            port: 9000,
            log_dir: "/var/log/vs".to_string(),
        }
    );
}

#[test]
fn settings_that_do_not_read_fall_back() {
    let raw = RawSettings {
        daily_limit_per_browser: Some("many".to_string()),
        jobs_ttl_seconds: Some("-1".to_string()),
        jobs_cleanup_interval_seconds: Some("".to_string()),
        port: Some("65536".to_string()),
        ..RawSettings::default()
    };
    let settings = resolve_settings(&raw, true, &Vec::new());
    assert_eq!(settings.daily_limit_per_browser, 0);
    assert_eq!(settings.jobs_ttl_seconds, 3600);
    assert_eq!(settings.jobs_cleanup_interval_seconds, 600);
    assert_eq!(settings.port, 8000);
    assert_eq!(settings.jobs_dir, "../jobs");
    assert_eq!(settings.log_dir, "../logs");
    assert_eq!(settings.request_records_file, "../request_records.txt");
    assert_eq!(settings.agent_script, "../python/agent.py");
}
