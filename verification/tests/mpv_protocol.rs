use hifi_core::mpv::{
    cycle_pause_command, extract_mpv_data_value, get_property_command, mpv_bool_value,
    mpv_load_args, seek_command,
};

fn data(reply: &str) -> Option<String> {
    extract_mpv_data_value(reply)
}

#[test]
fn reads_numbers() {
    assert_eq!(
        data("{\"data\":12.500000,\"request_id\":0,\"error\":\"success\"}"),
        Some("12.500000".to_string())
    );
    assert_eq!(data("{\"data\":   42}"), Some("42".to_string()));
    assert_eq!(data("{\"data\":42"), Some("42".to_string()));
    assert_eq!(data("{\"data\":-3.5\n"), Some("-3.5".to_string()));
}

#[test]
fn reads_null_as_nothing() {
    assert_eq!(data("{\"data\":null,\"error\":\"property unavailable\"}"), None);
    assert_eq!(data("{\"data\": nullable}"), None);
}

#[test]
fn reads_flags() {
    assert_eq!(data("{\"data\":true,\"request_id\":0}"), Some("true".to_string()));
    assert_eq!(data("{\"data\":false}"), Some("false".to_string()));
    assert_eq!(data("{\"data\":trueish}"), Some("true".to_string()));
}

#[test]
fn reads_strings_without_quotes() {
    assert_eq!(data("{\"data\":\"yes\",\"error\":\"success\"}"), Some("yes".to_string()));
    assert_eq!(data("{\"data\": \" a b \" }"), Some(" a b ".to_string()));
    assert_eq!(data("{\"data\":\"\"\"x\"\"\"}"), Some("x".to_string()));
    assert_eq!(data("{\"data\":\"héllo\"}"), Some("héllo".to_string()));
}

#[test]
fn reads_nothing_where_there_is_no_value() {
    assert_eq!(data(""), None);
    assert_eq!(data("{\"error\":\"success\"}"), None);
    assert_eq!(data("{\"data\":\"\"}"), None);
    assert_eq!(data("{\"data\":}"), None);
    assert_eq!(data("{\"data\":   ,"), None);
    assert_eq!(data("{\"data\":"), None);
}

#[test]
fn uses_the_first_data_field() {
    assert_eq!(data("{\"x\":{\"data\":1},\"data\":2}"), Some("1".to_string()));
}

#[test]
fn reads_flag_values() {
    assert_eq!(mpv_bool_value("true"), Some(true));
    assert_eq!(mpv_bool_value("false"), Some(false));
    assert_eq!(mpv_bool_value("True"), None);
    assert_eq!(mpv_bool_value(""), None);
    assert_eq!(mpv_bool_value("true "), None);
}

#[test]
fn writes_commands() {
    assert_eq!(get_property_command("time-pos"), "{\"command\":[\"get_property\",\"time-pos\"]}");
    assert_eq!(cycle_pause_command(), "{\"command\":[\"cycle\",\"pause\"]}");
    assert_eq!(seek_command(-5), "{\"command\":[\"seek\",-5,\"relative\"]}");
    assert_eq!(seek_command(5), "{\"command\":[\"seek\",5,\"relative\"]}");
    assert_eq!(seek_command(0), "{\"command\":[\"seek\",0,\"relative\"]}");
    assert_eq!(
        seek_command(i64::MIN),
        format!("{{\"command\":[\"seek\",{},\"relative\"]}}", i64::MIN)
    );
}

#[test]
fn starts_mpv_without_video() {
    assert_eq!(
        mpv_load_args("/tmp/harp.rs-mpv.sock", "https://www.youtube.com/watch?v=abc"),
        vec![
            "--no-video".to_string(),
            "--input-ipc-server=/tmp/harp.rs-mpv.sock".to_string(),
            "https://www.youtube.com/watch?v=abc".to_string(),
        ]
    );
}

#[test]
fn quoted_text_reads_back() {
    for w in ["x", " spaced out ", "null", "true", "héllo wörld", "a:b"] {
        let reply = format!("{{\"data\":\"{}\",\"request_id\":0}}", w);
        assert_eq!(data(&reply), Some(w.to_string()), "reply {:?}", reply);
    }
}
