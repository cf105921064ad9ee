use themefox_manager::frame::{decode_frame, encode_frame, frame_length, Endian};
use themefox_manager::native_host::{
    answer_json, classify_request, command_args, pong_response, read_input, read_input_checked,
    request_problem, run_response, spawn_error_response, status_debug, unknown_response,
    write_output, HostMessage, HostRequest, InputError, RequestError,
};

fn frame_of(payload: &[u8]) -> Vec<u8> {
    let mut f = (payload.len() as u32).to_le_bytes().to_vec();
    f.extend_from_slice(payload);
    f
}

#[test]
fn frame_round_trip_little_endian() {
    let payload = b"{\"message\":\"ping\"}";
    let f = encode_frame(payload, Endian::Little);
    assert_eq!(&f[..4], &[18, 0, 0, 0]);
    assert_eq!(decode_frame(&f, Endian::Little), Some(payload.to_vec()));
}

#[test]
fn frame_round_trip_big_endian() {
    let payload = vec![7u8; 300];
    let f = encode_frame(&payload, Endian::Big);
    assert_eq!(&f[..4], &[0, 0, 1, 44]);
    assert_eq!(frame_length(&f, Endian::Big), 300);
    assert_eq!(decode_frame(&f, Endian::Big), Some(payload));
}

#[test]
fn frame_length_reads_both_orders() {
    assert_eq!(frame_length(&[1, 2, 3, 4], Endian::Little), 0x04030201);
    assert_eq!(frame_length(&[1, 2, 3, 4], Endian::Big), 0x01020304);
}

#[test]
fn truncated_frame_is_refused() {
    let mut f = frame_of(b"abcdef");
    f.truncate(7);
    assert_eq!(decode_frame(&f, Endian::Little), None);
    assert!(matches!(read_input(&f, Endian::Little), Err(InputError::Truncated)));
}

#[test]
fn read_input_ping() {
    let f = frame_of(b"{\"message\": \"ping\"}");
    let m = read_input(&f, Endian::Little).unwrap();
    assert_eq!(m.message.as_deref(), Some("ping"));
    assert_eq!(m.text, None);
    assert_eq!(classify_request(&m), HostRequest::Ping);
}

#[test]
fn read_input_string_message() {
    let f = frame_of(b"\"DO https://themefox.net/themes/12/\"");
    let m = read_input(&f, Endian::Little).unwrap();
    assert_eq!(m.message, None);
    assert_eq!(m.text.as_deref(), Some("DO https://themefox.net/themes/12/"));
}

#[test]
fn read_input_invalid_json() {
    let f = frame_of(b"{not json");
    assert!(read_input_checked(&f, Endian::Little).is_none());
    let g = frame_of(b"[1, 2]");
    let m = read_input_checked(&g, Endian::Little).unwrap().unwrap();
    assert_eq!(m.message, None);
    assert_eq!(m.text, None);
}

fn msg(message: Option<&str>, text: Option<&str>) -> HostMessage {
    HostMessage { message: message.map(|s| s.to_string()), text: text.map(|s| s.to_string()) }
}

#[test]
fn classify_install_and_git() {
    assert_eq!(
        classify_request(&msg(None, Some("DO  https://themefox.net/themes/7/ extra"))),
        HostRequest::Install("https://themefox.net/themes/7/".to_string())
    );
    assert_eq!(
        classify_request(&msg(None, Some("git\thttps://github.com/a/b.git"))),
        HostRequest::InstallGit("https://github.com/a/b.git".to_string())
    );
    assert_eq!(classify_request(&msg(Some("pong"), Some("hello"))), HostRequest::Unknown);
    assert_eq!(request_problem(&msg(Some("ping"), None)), None);
}

#[test]
fn classify_errors() {
    assert_eq!(request_problem(&msg(Some("pong"), None)), Some(RequestError::NotAString));
    assert_eq!(request_problem(&msg(None, Some("DO"))), Some(RequestError::MissingArgument));
    assert_eq!(request_problem(&msg(None, Some("git   "))), Some(RequestError::MissingArgument));
    assert_eq!(request_problem(&msg(None, Some("gitx y"))), None);
}

#[test]
fn command_arguments() {
    assert_eq!(command_args(&HostRequest::Install("u".to_string())), vec!["u".to_string()]);
    assert_eq!(
        command_args(&HostRequest::InstallGit("r".to_string())),
        vec!["-g".to_string(), "r".to_string()]
    );
}

#[test]
fn fixed_answers() {
    assert_eq!(pong_response(), "{{\"message\": \"pong\" }}");
    assert_eq!(unknown_response(), "{{\"output\": \"umm, no known signal\"}})");
    assert_eq!(spawn_error_response("NotFound"), "{\"error\": Some(NotFound)}");
}

#[test]
fn run_answer() {
    assert_eq!(
        run_response(b"done", b"", Some(0)),
        "{ \"output\": done, \"error\": , \"status\": Some(0)}"
    );
    assert_eq!(
        run_response(b"a", b"b", Some(-12)),
        "{ \"output\": a, \"error\": b, \"status\": Some(-12)}"
    );
    assert_eq!(
        run_response(b"", b"", None),
        "{ \"output\": , \"error\": , \"status\": None}"
    );
    assert_eq!(status_debug(Some(i32::MIN)), "Some(-2147483648)");
}

#[test]
fn answer_json_escapes() {
    assert_eq!(answer_json("ping"), "\"ping\"");
    assert_eq!(answer_json("a\"b\\c\n\u{1}\u{7f}é"), "\"a\\\"b\\\\c\\n\\u0001\u{7f}é\"");
}

#[test]
fn write_output_frames_json_text() {
    let f = write_output(&answer_json("ping"), Endian::Little);
    assert_eq!(f, b"\x06\x00\x00\x00\"ping\"".to_vec());
    let g = write_output(&answer_json("a\"b"), Endian::Big);
    assert_eq!(g, b"\x00\x00\x00\x06\"a\\\"b\"".to_vec());
    let h = write_output("{\"output\": 1}", Endian::Little);
    assert_eq!(decode_frame(&h, Endian::Little), Some(b"{\"output\": 1}".to_vec()));
}

#[test]
fn write_output_then_read_back() {
    let f = write_output(&answer_json("DO x y"), Endian::Little);
    let m = read_input(&f, Endian::Little).unwrap();
    assert_eq!(m.text.as_deref(), Some("DO x y"));
    let g = write_output("{\"message\": \"ping\"}", Endian::Big);
    let n = read_input(&g, Endian::Big).unwrap();
    assert_eq!(n.message.as_deref(), Some("ping"));
    assert_eq!(n.text, None);
}

#[test]
fn written_text_that_is_not_json_reads_back_as_unreadable() {
    let f = write_output("not json", Endian::Little);
    assert!(read_input_checked(&f, Endian::Little).is_none());
    let g = write_output("[1, 2]", Endian::Big);
    let m = read_input_checked(&g, Endian::Big).unwrap().unwrap();
    assert_eq!(m.message, None);
    assert_eq!(m.text, None);
}

#[test]
fn largest_answer_fits() {
    let fits = "x".repeat(1024 * 1024 - 2);
    let json = answer_json(&fits);
    assert_eq!(json.len(), 1024 * 1024);
    assert_eq!(write_output(&json, Endian::Little).len(), 1024 * 1024 + 4);
    assert_eq!(answer_json(&"x".repeat(1024 * 1024)).len(), 1024 * 1024 + 2);
}
