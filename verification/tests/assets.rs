use type_bridge::assets::HTML;

#[test]
fn test_html_has_doctype() {
    assert!(HTML.starts_with("<!DOCTYPE html>"));
}

#[test]
fn test_html_contains_textarea() {
    assert!(HTML.contains("<textarea"));
}

#[test]
fn test_html_has_no_socket_io_script() {
    assert!(!HTML.contains("socket.io"));
}

#[test]
fn test_html_contains_send_button() {
    assert!(HTML.contains("send to PC"));
}

#[test]
fn test_html_contains_backspace_button() {
    assert!(HTML.contains("backspace"));
}

#[test]
fn test_html_contains_enter_button() {
    assert!(HTML.contains("id=\"enter-btn\""));
}

#[test]
fn test_html_closes_properly() {
    assert!(HTML.ends_with("</html>"));
}

#[test]
fn test_html_contains_script_tag() {
    assert!(HTML.contains("<script>"));
}

#[test]
fn test_html_contains_session_storage() {
    assert!(HTML.contains("sessionStorage"));
}

#[test]
fn test_html_contains_fetch() {
    assert!(HTML.contains("fetch("));
}

#[test]
fn test_html_contains_replace_state() {
    assert!(HTML.contains("replaceState"));
}

#[test]
fn test_html_contains_clear_pc_field() {
    assert!(HTML.contains("Clear PC field"));
}

#[test]
fn test_html_contains_authorization_header() {
    assert!(HTML.contains("Authorization"));
    assert!(HTML.contains("Bearer"));
}

#[test]
fn test_html_contains_promise_queue() {
    assert!(HTML.contains(".then("));
}

#[test]
fn test_html_contains_setinterval() {
    assert!(HTML.contains("setInterval"));
}

#[test]
fn test_html_contains_history_section() {
    assert!(HTML.contains("history-box"));
}

#[test]
fn test_html_contains_clear_text_button() {
    assert!(HTML.contains("Clear text"));
}

#[test]
fn test_html_contains_no_onclick() {
    assert!(!HTML.contains("onclick="));
}

