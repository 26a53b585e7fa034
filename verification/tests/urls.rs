use type_bridge::urls::{access_url, server_url, status_item_text, status_label, tooltip};

#[test]
fn urls_are_built_from_ip_port_and_token() {
    assert_eq!(server_url("192.168.1.42", 12345), "http://192.168.1.42:12345");
    assert_eq!(server_url("10.0.0.1", 0), "http://10.0.0.1:0");
    assert_eq!(
        access_url("192.168.1.42", 8080, "AbC-_9"),
        "http://192.168.1.42:8080/?token=AbC-_9"
    );
}

#[test]
fn tray_texts_follow_the_switch() {
    assert_eq!(status_label(true), "ON");
    assert_eq!(status_label(false), "PAUSED");
    assert_eq!(tooltip(true, "http://h:1/?token=t"), "TypeBridge — ON\nhttp://h:1/?token=t");
    assert_eq!(tooltip(false, "u"), "TypeBridge — PAUSED\nu");
    assert_eq!(status_item_text(false), "Typing: PAUSED");
}
