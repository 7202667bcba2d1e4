use statslogger::ranker::Process;
use statslogger::stats::{Reading, Stats};
use statslogger::text::{push_decimal, push_padded, push_signed_rounded, push_signed_tenths, push_tenths};

fn sample() -> Stats {
    let mut s = Stats::create(
        false,
        "alice".to_string(),
        "host1".to_string(),
        "Linux".to_string(),
        "Ubuntu 20.04".to_string(),
    );
    s.tick(
        2,
        Reading {
            cpu_temp: Some(452),
            cpu_usage: Some(125),
            mem_usage: 634,
            processes: vec![
                Process { name: "bash".to_string(), cpu_usage: 3 },
                Process { name: "firefox".to_string(), cpu_usage: 251 },
                Process { name: "cargo".to_string(), cpu_usage: 100 },
            ],
            timestamp: "2021-05-01T14:23:05.123+02:00".to_string(),
        },
    );
    s
}

#[test]
fn plain_line_has_fields_in_order() {
    assert_eq!(
        sample().to_string(),
        "host1, alice, 2021-05-01T14:23:05.123+02:00, Linux, Ubuntu 20.04, 13%, 45C, 63%, firefox (25.1%),cargo (10.0%)"
    );
}

#[test]
fn plain_line_without_optional_metrics() {
    let mut s = sample();
    s.cpu_temp = None;
    s.cpu_usage = None;
    s.top_processes = Vec::new();
    let line = s.to_string();
    assert_eq!(line, "host1, alice, 2021-05-01T14:23:05.123+02:00, Linux, Ubuntu 20.04, N/A, N/A, 63%, ");
    assert_eq!(line.split(", ").count(), 9);
}

#[test]
fn plain_line_field_count_independent_of_absent_metrics() {
    let mut s = sample();
    s.top_processes = Vec::new();
    let full = s.to_string();
    s.cpu_temp = None;
    let partial = s.to_string();
    assert_eq!(full.matches(',').count(), 8);
    assert_eq!(partial.matches(',').count(), 8);
}

#[test]
fn json_object_exact() {
    assert_eq!(
        sample().to_json(),
        "{\"cpu_temp\":45.2,\"cpu_usage\":12.5,\"mem_usage\":63.4,\"timestamp\":\"2021-05-01T14:23:05.123+02:00\",\"hostname\":\"host1\",\"username\":\"alice\",\"os\":\"Ubuntu 20.04\",\"platform\":\"Linux\",\"top_processes\":[{\"name\":\"firefox\",\"cpu_usage\":25.1},{\"name\":\"cargo\",\"cpu_usage\":10.0}]}"
    );
}

#[test]
fn json_round_trip_keeps_fields() {
    let mut s = sample();
    s.hostname = "we\"ird\\host\n".to_string();
    let text = s.to_json();
    let v: serde_json::Value = serde_json::from_str(&text).unwrap();
    assert_eq!(v["hostname"].as_str(), Some("we\"ird\\host\n"));
    assert_eq!(v["username"].as_str(), Some("alice"));
    assert_eq!(v["os"].as_str(), Some("Ubuntu 20.04"));
    assert_eq!(v["platform"].as_str(), Some("Linux"));
    assert_eq!(v["timestamp"].as_str(), Some("2021-05-01T14:23:05.123+02:00"));
    assert_eq!(v["cpu_temp"].as_f64(), Some(45.2));
    assert_eq!(v["cpu_usage"].as_f64(), Some(12.5));
    assert_eq!(v["mem_usage"].as_f64(), Some(63.4));
    let procs = v["top_processes"].as_array().unwrap();
    assert_eq!(procs.len(), 2);
    assert_eq!(procs[0]["name"].as_str(), Some("firefox"));
    assert_eq!(procs[0]["cpu_usage"].as_f64(), Some(25.1));
    assert_eq!(procs[1]["name"].as_str(), Some("cargo"));
}

#[test]
fn json_round_trip_absent_fields_are_null() {
    let mut s = sample();
    s.cpu_temp = None;
    s.cpu_usage = None;
    let v: serde_json::Value = serde_json::from_str(&s.to_json()).unwrap();
    assert!(v["cpu_temp"].is_null());
    assert!(v["cpu_usage"].is_null());
    assert_eq!(v["mem_usage"].as_f64(), Some(63.4));
}

#[test]
fn json_escapes_names() {
    let mut s = sample();
    s.top_processes = vec![Process { name: "a\"b".to_string(), cpu_usage: 7 }];
    assert!(s.to_json().contains("[{\"name\":\"a\\\"b\",\"cpu_usage\":0.7}]"));
}

#[test]
fn zero_processes_requested_gives_empty_lists() {
    let mut s = sample();
    s.tick(
        0,
        Reading {
            cpu_temp: None,
            cpu_usage: Some(10),
            mem_usage: 5,
            processes: vec![Process { name: "bash".to_string(), cpu_usage: 3 }],
            timestamp: "t".to_string(),
        },
    );
    assert!(s.top_processes.is_empty());
    assert!(s.to_string().ends_with("1%, N/A, 1%, "));
    assert!(s.to_json().ends_with("\"top_processes\":[]}"));
}

#[test]
fn absent_temperature_is_na_and_null() {
    let mut s = sample();
    s.cpu_temp = None;
    assert!(s.to_string().contains(", 13%, N/A, 63%, "));
    assert!(s.to_json().starts_with("{\"cpu_temp\":null,"));
}

#[test]
fn negative_temperature() {
    let mut s = sample();
    s.cpu_temp = Some(-45);
    assert!(s.to_string().contains(", 13%, -5C, 63%, "));
    assert!(s.to_json().starts_with("{\"cpu_temp\":-4.5,"));
}

#[test]
fn create_starts_without_metrics() {
    let s = Stats::create(true, "alice".to_string(), "h".to_string(), "p".to_string(), "o".to_string());
    assert_eq!(s.username, "2bd806c9");
    assert_eq!(s.hostname, "h");
    assert!(s.cpu_temp.is_none());
    assert!(s.cpu_usage.is_none());
    assert_eq!(s.mem_usage, 0);
    assert!(s.top_processes.is_empty());
}

#[test]
fn numbers_as_text() {
    let mut out = String::new();
    push_decimal(&mut out, 0);
    out.push(' ');
    push_decimal(&mut out, 18446744073709551615);
    out.push(' ');
    push_tenths(&mut out, 7);
    out.push(' ');
    push_signed_tenths(&mut out, -2147483648);
    out.push(' ');
    push_signed_rounded(&mut out, 14);
    out.push(' ');
    push_padded(&mut out, 7, 4);
    out.push(' ');
    push_padded(&mut out, 123, 2);
    assert_eq!(out, "0 18446744073709551615 0.7 -214748364.8 1 0007 123");
}
