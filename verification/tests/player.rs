use serde_json::Value;
use ytcli::player::{
    check_ipc_error, check_numeric_data, ensure_ffmpeg, ipc_command_json, ipc_error, ipc_loadfile_json,
    ipc_response_result, ipc_response_value, ipc_set_pause_json, ipc_set_volume_json, lookup_command, start_args,
    bool_data, reply_result, reply_value, IpcReply, Mpv, ReplyField,
};
use ytcli::YtcliError;

fn response_result(socket: &str, response: &str) -> ytcli::Result<()> {
    ipc_response_result(socket, response)
}

fn response_value(socket: &str, response: &str) -> ytcli::Result<IpcReply> {
    ipc_response_value(socket, response)
}

/// The number in `data`, once the library has accepted it.
fn data_as_f64(socket: &str, reply: &IpcReply) -> ytcli::Result<f64> {
    check_numeric_data(socket, reply)?;
    match &reply.data {
        ReplyField::Present { json, .. } => Ok(json.parse::<f64>().unwrap()),
        _ => unreachable!(),
    }
}

#[test]
fn ipc_payload_set_pause_uses_typed_boolean_and_newline() {
    let payload = ipc_set_pause_json(true);

    assert!(payload.ends_with('\n'));
    let value: Value = serde_json::from_str(payload.trim_end()).unwrap();
    assert_eq!(value, json_pause(true));
}

fn json_pause(b: bool) -> Value {
    let mut command = Vec::new();
    command.push(Value::from("set_property"));
    command.push(Value::from("pause"));
    command.push(Value::from(b));
    let mut object = serde_json::Map::new();
    object.insert("command".into(), Value::Array(command));
    Value::Object(object)
}

fn json_command(items: &[&str]) -> Value {
    let mut object = serde_json::Map::new();
    object.insert("command".into(), Value::Array(items.iter().map(|s| Value::from(*s)).collect()));
    Value::Object(object)
}

#[test]
fn ipc_payload_loadfile_uses_replace_mode_and_newline() {
    let payload = ipc_loadfile_json("https://example.com/a.m4a");

    assert!(payload.ends_with('\n'));
    let value: Value = serde_json::from_str(payload.trim_end()).unwrap();
    assert_eq!(value, json_command(&["loadfile", "https://example.com/a.m4a", "replace"]));
}

#[test]
fn mpv_failure_response_is_an_ipc_error() {
    let socket = "/tmp/mpv.sock";
    let error = response_result(socket, r#"{"error":"property unavailable"}"#).unwrap_err();

    assert!(matches!(
        error,
        YtcliError::MpvIpc { path, detail }
            if path == socket && detail == "property unavailable"
    ));
}

#[test]
fn mpv_success_null_and_unparseable_responses_are_best_effort() {
    let socket = "/tmp/mpv.sock";

    assert!(response_result(socket, r#"{"error":"success"}"#).is_ok());
    assert!(response_result(socket, r#"{"error":null}"#).is_ok());
    assert!(response_result(socket, "").is_ok());
    assert!(response_result(socket, "not json").is_ok());
}

#[test]
fn get_property_response_parses_f64_data() {
    let socket = "/tmp/mpv.sock";
    let response = response_value(socket, r#"{"data":42.5,"error":"success","request_id":0}"#).unwrap();

    assert_eq!(data_as_f64(socket, &response).unwrap(), 42.5);
}

#[test]
fn get_property_response_parses_integer_data_as_f64() {
    let socket = "/tmp/mpv.sock";
    let response = response_value(socket, r#"{"data":180,"error":null,"request_id":1}"#).unwrap();

    assert_eq!(data_as_f64(socket, &response).unwrap(), 180.0);
}

#[test]
fn get_property_time_pos_fixture() {
    let socket = "/tmp/mpv.sock";
    let response = response_value(socket, r#"{"data":125.432,"error":"success","request_id":2}"#).unwrap();

    assert_eq!(data_as_f64(socket, &response).unwrap(), 125.432);
}

#[test]
fn get_property_duration_fixture() {
    let socket = "/tmp/mpv.sock";
    let response = response_value(socket, r#"{"data":3661.0,"error":"success","request_id":3}"#).unwrap();

    assert_eq!(data_as_f64(socket, &response).unwrap(), 3661.0);
}

#[test]
fn get_property_error_response_is_ipc_error() {
    let socket = "/tmp/mpv.sock";
    let error = response_value(socket, r#"{"error":"property unavailable"}"#).unwrap_err();

    assert!(matches!(
        error,
        YtcliError::MpvIpc { path, detail }
            if path == socket && detail == "property unavailable"
    ));
}

#[test]
fn get_property_missing_data_is_ipc_error() {
    let socket = "/tmp/mpv.sock";
    let response = response_value(socket, r#"{"error":"success"}"#).unwrap();
    let error = data_as_f64(socket, &response).unwrap_err();

    assert!(matches!(
        error,
        YtcliError::MpvIpc { path, detail }
            if path == socket && detail == "respuesta IPC sin campo data"
    ));
}

#[test]
fn get_property_null_data_is_ipc_error() {
    let socket = "/tmp/mpv.sock";
    let response = response_value(socket, r#"{"data":null,"error":"success"}"#).unwrap();
    let error = data_as_f64(socket, &response).unwrap_err();

    assert!(matches!(
        error,
        YtcliError::MpvIpc { path, detail }
            if path == socket && detail == "propiedad sin valor"
    ));
}

#[test]
fn get_property_non_numeric_data_is_ipc_error() {
    let socket = "/tmp/mpv.sock";
    let response = response_value(socket, r#"{"data":"n/a","error":"success"}"#).unwrap();
    let error = data_as_f64(socket, &response).unwrap_err();

    assert!(matches!(
        error,
        YtcliError::MpvIpc { path, detail }
            if path == socket && detail.starts_with("data no numérica:")
    ));
}

#[test]
fn seek_absolute_payload_uses_absolute_mode() {
    let payload = ipc_command_json(&["seek", "42.5", "absolute"]);

    assert!(payload.ends_with('\n'));
    let value: Value = serde_json::from_str(payload.trim_end()).unwrap();
    assert_eq!(value, json_command(&["seek", "42.5", "absolute"]));
}

#[test]
fn empty_or_invalid_ipc_response_is_error_for_json_path() {
    let socket = "/tmp/mpv.sock";

    assert!(response_value(socket, "").is_err());
    assert!(response_value(socket, "not json").is_err());
}

#[test]
fn payloads_are_compact_json_lines() {
    assert_eq!(ipc_set_pause_json(false), "{\"command\":[\"set_property\",\"pause\",false]}\n");
    assert_eq!(ipc_command_json(&["quit"]), "{\"command\":[\"quit\"]}\n");
    assert_eq!(ipc_command_json(&["a\"b"]), "{\"command\":[\"a\\\"b\"]}\n");
    assert_eq!(ipc_set_volume_json("/s", 40).unwrap(), "{\"command\":[\"set_property\",\"volume\",40]}\n");
    let value: Value = serde_json::from_str(ipc_set_volume_json("/s", 100).unwrap().trim_end()).unwrap();
    let mut object = serde_json::Map::new();
    object.insert(
        "command".into(),
        Value::Array(vec![Value::from("set_property"), Value::from("volume"), Value::from(100)]),
    );
    assert_eq!(value, Value::Object(object));
}

#[test]
fn volume_over_one_hundred_is_refused() {
    let e = ipc_set_volume_json("/tmp/mpv.sock", 101).unwrap_err();
    assert!(matches!(e, YtcliError::MpvIpc { path, detail }
        if path == "/tmp/mpv.sock" && detail == "volumen fuera de rango: 101 (esperado 0..=100)"));
}

#[test]
fn invalid_reply_message_and_non_string_error() {
    let e = response_value("/s", "{").unwrap_err();
    assert!(matches!(e, YtcliError::MpvIpc { detail, .. } if detail.starts_with("respuesta IPC inválida: ")));
    let e = response_value("/s", "   ").unwrap_err();
    assert!(matches!(e, YtcliError::MpvIpc { detail, .. } if detail == "respuesta IPC vacía"));
    let e = response_value("/s", r#"{"error":42}"#).unwrap_err();
    assert!(matches!(e, YtcliError::MpvIpc { detail, .. } if detail == "42"));
    let reply = IpcReply {
        error: ReplyField::Present { json: "42".into(), text: None, number: true },
        data: ReplyField::Absent,
    };
    assert!(matches!(check_ipc_error("/s", &reply), Err(YtcliError::MpvIpc { detail, .. }) if detail == "42"));
    let data = response_value("/s", r#"{"data":"n/a"}"#).unwrap();
    assert!(matches!(check_numeric_data("/s", &data), Err(YtcliError::MpvIpc { detail, .. }) if detail == "data no numérica: \"n/a\""));
}

#[test]
fn starting_mpv() {
    assert_eq!(Mpv::default().bin, "mpv");
    assert_eq!(
        start_args("/run/mpv.sock"),
        vec!["--no-video", "--idle=yes", "--really-quiet", "--no-terminal", "--input-ipc-server=/run/mpv.sock"]
    );
    assert_eq!(lookup_command("mpv"), "command -v mpv");
    let mpv = Mpv::default();
    let running = mpv.ensure_running("/s", Some(12), |_: &String| true, |_: usize| true, || panic!("ya corre"), || {});
    assert_eq!(running.unwrap(), 12);
    let unknown = mpv.ensure_running("/s", None, |_: &String| true, |_: usize| true, || panic!("ya corre"), || {});
    assert_eq!(unknown.unwrap(), 0);
    let missing = mpv.ensure_running("/s", None, |_: &String| false, |_: usize| true, || Ok(1), || {});
    assert!(matches!(missing, Err(YtcliError::MissingBinary(n)) if n == "mpv"));
}

#[test]
fn started_mpv_must_answer_in_time() {
    let mpv = Mpv::default();
    let tries = std::cell::Cell::new(0);
    let up = mpv.ensure_running("/s", None, |_: &String| true, |_: usize| {
        tries.set(tries.get() + 1);
        tries.get() >= 3
    }, || Ok(77), || {});
    assert_eq!(up.unwrap(), 77);
    let never = mpv.ensure_running("/s", None, |_: &String| true, |_: usize| false, || Ok(78), || {});
    assert!(matches!(never, Err(YtcliError::MpvIpc { path, detail }) if path == "/s" && detail == "timeout esperando IPC"));
    let failed = mpv.ensure_running("/s", None, |_: &String| true, |_: usize| false, || Err(YtcliError::MpvIpc { path: "/s".into(), detail: "spawn".into() }), || {});
    assert!(matches!(failed, Err(YtcliError::MpvIpc { detail, .. }) if detail == "spawn"));
}

#[test]
fn ipc_errors_and_tool_checks() {
    assert!(matches!(ipc_error("/s", "refused".into()), YtcliError::MpvIpc { path, detail } if path == "/s" && detail == "refused"));
    assert!(ensure_ffmpeg(|n: &String| n == "ffmpeg").is_ok());
    assert!(matches!(ensure_ffmpeg(|_: &String| false), Err(YtcliError::MissingBinary(n)) if n == "ffmpeg"));
}

#[test]
fn reply_fields_as_parsed() {
    let reply = response_value("/s", "  {\"data\":\"idle\",\"error\":\"success\"}\n").unwrap();
    assert!(matches!(&reply.error, ReplyField::Present { json, text: Some(t), number: false } if json == "\"success\"" && t == "success"));
    assert!(matches!(&reply.data, ReplyField::Present { json, text: Some(t), number: false } if json == "\"idle\"" && t == "idle"));
    let reply = response_value("/s", r#"{"data":null}"#).unwrap();
    assert!(matches!(reply.error, ReplyField::Absent));
    assert!(matches!(reply.data, ReplyField::Null));
    let reply = response_value("/s", r#"{"data":7}"#).unwrap();
    assert!(matches!(&reply.data, ReplyField::Present { json, text: None, number: true } if json == "7"));
}

#[test]
fn parsed_replies_are_judged() {
    assert!(reply_result("/s", Err("expected value".into())).is_ok());
    let failing = IpcReply { error: ReplyField::Present { json: "\"busy\"".into(), text: Some("busy".into()), number: false }, data: ReplyField::Absent };
    assert!(matches!(reply_result("/s", Ok(failing)), Err(YtcliError::MpvIpc { detail, .. }) if detail == "busy"));
    let e = reply_value("/s", Err("expected value at line 1 column 1".into())).unwrap_err();
    assert!(matches!(e, YtcliError::MpvIpc { path, detail } if path == "/s" && detail == "respuesta IPC inválida: expected value at line 1 column 1"));
    let fine = IpcReply { error: ReplyField::Null, data: ReplyField::Null };
    assert!(matches!(reply_value("/s", Ok(fine)), Ok(IpcReply { error: ReplyField::Null, data: ReplyField::Null })));
}

#[test]
fn boolean_property_replies() {
    let yes = response_value("/s", r#"{"data":true,"error":"success"}"#).unwrap();
    assert_eq!(bool_data("/s", &yes).unwrap(), true);
    let no = response_value("/s", r#"{"data":false,"error":"success"}"#).unwrap();
    assert_eq!(bool_data("/s", &no).unwrap(), false);
    let missing = response_value("/s", r#"{"error":"success"}"#).unwrap();
    assert!(matches!(bool_data("/s", &missing), Err(YtcliError::MpvIpc { detail, .. }) if detail == "respuesta IPC sin campo data"));
    let null = response_value("/s", r#"{"data":null}"#).unwrap();
    assert!(matches!(bool_data("/s", &null), Err(YtcliError::MpvIpc { detail, .. }) if detail == "propiedad sin valor"));
    let text = response_value("/s", r#"{"data":"yes"}"#).unwrap();
    assert!(matches!(bool_data("/s", &text), Err(YtcliError::MpvIpc { detail, .. }) if detail == "data no booleana: \"yes\""));
}

#[test]
fn strings_are_escaped_as_json() {
    assert_eq!(ipc_command_json(&["a\u{1}\tb\u{1f}"]), "{\"command\":[\"a\\u0001\\tb\\u001f\"]}\n");
    assert_eq!(ipc_command_json(&["\\ \u{8}\u{c}\r\n é\u{7f}"]), "{\"command\":[\"\\\\ \\b\\f\\r\\n é\u{7f}\"]}\n");
}

#[test]
fn started_mpv_is_tried_by_number() {
    let mpv = Mpv::default();
    let asked = std::cell::RefCell::new(Vec::<usize>::new());
    let never = mpv.ensure_running("/s", None, |_: &String| true, |k: usize| {
        asked.borrow_mut().push(k);
        false
    }, || Ok(5), || {});
    assert!(matches!(never, Err(YtcliError::MpvIpc { detail, .. }) if detail == "timeout esperando IPC"));
    let expected: Vec<usize> = (0..=ytcli::player::START_RETRIES).collect();
    assert_eq!(*asked.borrow(), expected);
    let third = mpv.ensure_running("/s", None, |_: &String| true, |k: usize| k == 3, || Ok(6), || {});
    assert_eq!(third.unwrap(), 6);
}
