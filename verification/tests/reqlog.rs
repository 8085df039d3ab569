use ai_bridge::reqlog::{report_system_prompt, ReqLog};

#[test]
fn ids_are_four_hexadecimal_digits() {
    assert_eq!(ReqLog::new(1).id, "0001");
    assert_eq!(ReqLog::new(0xabcd).id, "abcd");
    assert_eq!(ReqLog::new(0x1_0002).id, "0002");
}

#[test]
fn request_lines_follow_two_blank_lines() {
    let log = ReqLog::new(1);
    assert_eq!(log.req("sonnet hello"), "\n\n[REQ #0001]: sonnet hello\n");
    assert_eq!(log.append_media_note(" [media]"), " [media]");
    assert_eq!(log.err_req("bad"), "\n\n[ERR-REQ #0001]: bad\n");
}

#[test]
fn streamed_text_stays_on_one_open_line() {
    let mut log = ReqLog::new(2);
    assert_eq!(log.append("too early"), "");
    assert_eq!(log.resp_header(""), "\n\n[RESP #0002]: ");
    assert_eq!(log.resp_header(""), "");
    assert_eq!(log.append("Hello"), "Hello");
    assert_eq!(log.append(" world"), " world");
    assert_eq!(log.done(), "\n");
    assert_eq!(log.done(), "");
    assert_eq!(log.append("too late"), "");
}

#[test]
fn a_whole_response_is_one_line() {
    let mut log = ReqLog::new(3);
    assert_eq!(log.resp("ok"), "\n\n[RESP #0003]: ok\n");
    assert!(log.header_printed && log.done);
}

#[test]
fn an_error_ends_the_response() {
    let mut log = ReqLog::new(4);
    log.resp_header("");
    assert_eq!(log.err_resp("broken"), "\n\n[ERR-RESP #0004]: broken\n\n");
    assert_eq!(log.done(), "");
}

#[test]
fn a_system_prompt_is_reported_once() {
    let mut last = None;
    assert_eq!(report_system_prompt(&mut last, None), None);
    assert_eq!(report_system_prompt(&mut last, Some("  ")), None);
    assert_eq!(report_system_prompt(&mut last, Some(" be brief ")), Some("[REQ SYSTEM]: be brief\n".to_string()));
    assert_eq!(report_system_prompt(&mut last, Some("be brief")), None);
    assert_eq!(report_system_prompt(&mut last, Some("be long")), Some("[REQ SYSTEM]: be long\n".to_string()));
    assert_eq!(report_system_prompt(&mut last, Some("be brief")), Some("[REQ SYSTEM]: be brief\n".to_string()));
    assert_eq!(last, Some("be brief".to_string()));
}
