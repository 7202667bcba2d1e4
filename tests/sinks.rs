use statslogger::metrics::{get_cpu_temperature, get_mem_percentage, Component};
use statslogger::ranker::Process;
use statslogger::sinks::{
    file_prefix, log_file_path, plan_dispatch, rotation_bucket_text, Action, Config, LocalTime, Sampler,
};
use statslogger::stats::Reading;
use statslogger::Format;

fn config(format: Format, output: Option<&str>, url: Option<&str>) -> Config {
    Config {
        format,
        period_secs: 5,
        output: output.map(|s| s.to_string()),
        url: url.map(|s| s.to_string()),
        max_processes: 10,
        hash_pii: true,
    }
}

fn at_1423() -> LocalTime {
    LocalTime { year: 2021, month: 5, day: 1, hour: 14 }
}

#[test]
fn file_named_by_prefix_and_hour() {
    let prefix = file_prefix(&"host1".to_string());
    assert_eq!(prefix, "statslogger_host1");
    assert_eq!(
        log_file_path(&"/tmp/out".to_string(), &prefix, &at_1423()),
        "/tmp/out/statslogger_host1_20210501_14"
    );
}

#[test]
fn bucket_is_zero_padded() {
    let t = LocalTime { year: 987, month: 12, day: 9, hour: 0 };
    assert_eq!(rotation_bucket_text(&t), "09871209_00");
}

#[test]
fn empty_directory_gives_bare_name() {
    assert_eq!(
        log_file_path(&String::new(), &"statslogger_h".to_string(), &at_1423()),
        "statslogger_h_20210501_14"
    );
}

#[test]
fn tick_with_file_sink_writes_to_hour_file() {
    let mut sampler = Sampler::new(
        config(Format::Plain, Some("/tmp/out"), None),
        "alice".to_string(),
        "host1".to_string(),
        "Linux".to_string(),
        "Debian".to_string(),
    );
    let reading = Reading {
        cpu_temp: None,
        cpu_usage: Some(40),
        mem_usage: 500,
        processes: vec![Process { name: "init".to_string(), cpu_usage: 1 }],
        timestamp: "2021-05-01T14:23:00+00:00".to_string(),
    };
    let actions = sampler.on_tick(reading, &at_1423());
    assert_eq!(actions.len(), 2);
    let expected = "host1, 2bd806c9, 2021-05-01T14:23:00+00:00, Linux, Debian, 4%, N/A, 50%, init (0.1%)";
    match &actions[0] {
        Action::AppendLine { path, line } => {
            assert_eq!(path, "/tmp/out/statslogger_host1_20210501_14");
            assert_eq!(line, expected);
        }
        _ => panic!("expected a file write first"),
    }
    match &actions[1] {
        Action::Print { line } => assert_eq!(line, expected),
        _ => panic!("expected the console line last"),
    }
}

#[test]
fn http_sink_keeps_console_output() {
    let mut sampler = Sampler::new(
        config(Format::Plain, None, Some("http://127.0.0.1:9/unreachable")),
        "alice".to_string(),
        "h".to_string(),
        "p".to_string(),
        "o".to_string(),
    );
    let reading = Reading {
        cpu_temp: Some(300),
        cpu_usage: None,
        mem_usage: 0,
        processes: Vec::new(),
        timestamp: "t".to_string(),
    };
    let actions = sampler.on_tick(reading, &at_1423());
    assert_eq!(actions.len(), 2);
    match &actions[0] {
        Action::Post { url, body } => {
            assert_eq!(url, "http://127.0.0.1:9/unreachable");
            assert!(body.starts_with("{\"cpu_temp\":30.0,\"cpu_usage\":null,"));
        }
        _ => panic!("expected a post first"),
    }
    match &actions[1] {
        Action::Print { line } => assert_eq!(line, "h, 2bd806c9, t, p, o, N/A, 30C, 0%, "),
        _ => panic!("expected the console line last"),
    }
}

#[test]
fn console_only_by_default() {
    let cfg = config(Format::default(), None, None);
    let sampler = Sampler::new(cfg, "u".to_string(), "h".to_string(), "p".to_string(), "o".to_string());
    let actions = plan_dispatch(&sampler.stats, &sampler.config, &at_1423());
    assert_eq!(actions.len(), 1);
    match &actions[0] {
        Action::Print { line } => assert!(line.starts_with("{\"cpu_temp\":null,")),
        _ => panic!("expected the console line"),
    }
}

#[test]
fn all_three_sinks_in_order() {
    let cfg = config(Format::Json, Some("/var/log"), Some("http://example.invalid/"));
    let sampler = Sampler::new(cfg, "u".to_string(), "h".to_string(), "p".to_string(), "o".to_string());
    let actions = plan_dispatch(&sampler.stats, &sampler.config, &at_1423());
    assert_eq!(actions.len(), 3);
    assert!(matches!(actions[0], Action::AppendLine { .. }));
    assert!(matches!(actions[1], Action::Post { .. }));
    assert!(matches!(actions[2], Action::Print { .. }));
}

#[test]
fn cpu_temperature_from_first_cpu_sensor() {
    let cs = vec![
        Component { label: "acpitz".to_string(), temperature: 250 },
        Component { label: "CPU".to_string(), temperature: 612 },
        Component { label: "CPU".to_string(), temperature: 700 },
    ];
    assert_eq!(get_cpu_temperature(&cs), Some(612));
}

#[test]
fn cpu_temperature_absent_without_sensor() {
    let cs = vec![Component { label: "cpu".to_string(), temperature: 250 }];
    assert_eq!(get_cpu_temperature(&cs), None);
    assert_eq!(get_cpu_temperature(&Vec::new()), None);
}

#[test]
fn memory_share_in_tenths() {
    assert_eq!(get_mem_percentage(512, 1024), 500);
    assert_eq!(get_mem_percentage(1, 3), 333);
    assert_eq!(get_mem_percentage(0, 0), 0);
    assert_eq!(get_mem_percentage(2000, 1000), 1000);
    assert_eq!(get_mem_percentage(u64::MAX - 1, u64::MAX), 999);
}
