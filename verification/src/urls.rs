//! The address the phone opens, and the texts of the tray icon.
use vstd::prelude::*;
use crate::text::{decimal, push_decimal};

verus! {

/// `http://<ip>:<port>`.
pub open spec fn server_url_spec(ip: Seq<char>, port: u16) -> Seq<char> {
    "http://"@ + ip + ":"@ + decimal(port as nat)
}

/// `http://<ip>:<port>/?token=<token>`: the address printed, shown as a QR
/// code, and put in the tray menu.
pub open spec fn access_url_spec(ip: Seq<char>, port: u16, token: Seq<char>) -> Seq<char> {
    server_url_spec(ip, port) + "/?token="@ + token
}

/// The server's base address.
pub fn server_url(ip: &str, port: u16) -> (s: String)
    ensures
        s@ == server_url_spec(ip@, port),
{
    let mut s = String::from_str("http://");
    s.append(ip);
    s.append(":");
    push_decimal(&mut s, port as u32);
    s
}

/// The address that opens the page, token included.
pub fn access_url(ip: &str, port: u16, token: &str) -> (s: String)
    ensures
        s@ == access_url_spec(ip@, port, token@),
{
    let mut s = server_url(ip, port);
    s.append("/?token=");
    s.append(token);
    s
}

/// The tray's word for the typing state.
pub open spec fn status_label_spec(on: bool) -> Seq<char> {
    if on {
        "ON"@
    } else {
        "PAUSED"@
    }
}

/// `ON` while typing is on, `PAUSED` while it is paused.
pub fn status_label(on: bool) -> (s: &'static str)
    ensures
        s@ == status_label_spec(on),
{
    if on {
        "ON"
    } else {
        "PAUSED"
    }
}

/// The tray icon's tooltip: `TypeBridge — <state>`, then the URL on a line
/// of its own.
pub fn tooltip(on: bool, url: &str) -> (s: String)
    ensures
        s@ == "TypeBridge \u{2014} "@ + status_label_spec(on) + "\n"@ + url@,
{
    let mut s = String::from_str("TypeBridge \u{2014} ");
    s.append(status_label(on));
    s.append("\n");
    s.append(url);
    s
}

/// The tray menu's status line: `Typing: <state>`.
pub fn status_item_text(on: bool) -> (s: String)
    ensures
        s@ == "Typing: "@ + status_label_spec(on),
{
    let mut s = String::from_str("Typing: ");
    s.append(status_label(on));
    s
}

} // verus!
