//! The decisions of the web server: who may connect (the access token in the
//! query string), the recent-text history shown on the phone, and what each
//! event sent by the phone does.
use std::collections::VecDeque;
use vstd::prelude::*;
use crate::text::{
    chars_of, string_from_chars, chars_between, same_chars, starts_with, starts_with_at,
    trim_chars, trimmed, push_char,
};
use crate::keyboard::{KeyCommand, TypingSwitch, is_enabled};

verus! {

/// The value of a hexadecimal digit, as `char::to_digit(16)` reads it
/// (`0`-`9`, `a`-`f`, `A`-`F`), or `None`.
pub open spec fn hex_value(c: char) -> Option<int> {
    let n = c as u32;
    if 48 <= n <= 57 {
        Some(n - 48)
    } else if 97 <= n <= 102 {
        Some(n - 87)
    } else if 65 <= n <= 70 {
        Some(n - 55)
    } else {
        None
    }
}

/// The character whose code is the byte written as the two hex digits `hi lo`.
pub open spec fn byte_char(hi: char, lo: char) -> char {
    (hex_value(hi)->0 * 16 + hex_value(lo)->0) as char
}

/// Percent-decoding of `s` from index `i` on. `%` and two hex digits give the
/// character with that code; a `%` not followed by two hex digits stays a
/// `%`, and the (at most two) characters after it are dropped; `+` gives a
/// space; any other character stays.
pub open spec fn decode_from(s: Seq<char>, i: int) -> Seq<char>
    decreases s.len() - i,
{
    if i < 0 || i >= s.len() {
        seq![]
    } else if s[i] == '%' {
        if i + 2 < s.len() && hex_value(s[i + 1]) is Some && hex_value(s[i + 2]) is Some {
            seq![byte_char(s[i + 1], s[i + 2])] + decode_from(s, i + 3)
        } else if i + 3 <= s.len() {
            seq!['%'] + decode_from(s, i + 3)
        } else {
            seq!['%']
        }
    } else if s[i] == '+' {
        seq![' '] + decode_from(s, i + 1)
    } else {
        seq![s[i]] + decode_from(s, i + 1)
    }
}

/// Percent-decoding of all of `s`.
pub open spec fn percent_decode(s: Seq<char>) -> Seq<char> {
    decode_from(s, 0)
}

fn hex_digit(c: char) -> (r: Option<u32>)
    ensures
        match r {
            Some(v) => hex_value(c) == Some(v as int) && v < 16,
            None => hex_value(c) is None,
        },
{
    let n = c as u32;
    if 48 <= n && n <= 57 {
        Some(n - 48)
    } else if 97 <= n && n <= 102 {
        Some(n - 87)
    } else if 65 <= n && n <= 70 {
        Some(n - 55)
    } else {
        None
    }
}

/// Percent-decodes the characters of `s`.
pub fn decode_chars(s: &Vec<char>) -> (out: Vec<char>)
    ensures
        out@ == percent_decode(s@),
{
    let n = s.len();
    let mut out: Vec<char> = Vec::new();
    let mut i: usize = 0;
    while i < n
        invariant
            n == s@.len(),
            i <= n,
            percent_decode(s@) == out@ + decode_from(s@, i as int),
        decreases n - i,
    {
        let c = s[i];
        let ghost before = out@;
        let ghost i0 = i as int;
        if c == '%' {
            let hi = if n - i > 1 { hex_digit(s[i + 1]) } else { None };
            let lo = if n - i > 2 { hex_digit(s[i + 2]) } else { None };
            match (hi, lo) {
                (Some(h), Some(l)) => {
                    let code: u8 = (h * 16 + l) as u8;
                    out.push(code as char);
                    proof {
                        assert(byte_char(s@[i + 1], s@[i + 2]) == (code as char));
                    }
                    i = i + 3;
                },
                _ => {
                    out.push('%');
                    i = if n - i >= 3 { i + 3 } else { n };
                },
            }
        } else if c == '+' {
            out.push(' ');
            i = i + 1;
        } else {
            out.push(c);
            i = i + 1;
        }
        assert(before + decode_from(s@, i0) =~= out@ + decode_from(s@, i as int));
    }
    assert(out@ + decode_from(s@, i as int) =~= out@);
    out
}

/// Minimal percent-decoding of a query-string value (see [`decode_from`]).
pub fn urlencoding(s: &str) -> (out: String)
    ensures
        out@ == percent_decode(s@),
{
    let chars = chars_of(s);
    let decoded = decode_chars(&chars);
    string_from_chars(&decoded)
}

/// Scanning the `&`-separated parameters of `q` from left to right, where the
/// parameter being read began at `start` and the scan has reached `i`: the
/// rest (after `key`) of the first parameter that begins with `key`.
pub open spec fn param_from(q: Seq<char>, key: Seq<char>, start: int, i: int) -> Option<Seq<char>>
    decreases q.len() - i,
{
    if i < 0 || i > q.len() || start > i {
        None
    } else if i == q.len() || q[i] == '&' {
        let seg = q.subrange(start, i);
        if starts_with(seg, key) {
            Some(seg.skip(key.len() as int))
        } else if i < q.len() {
            param_from(q, key, i + 1, i + 1)
        } else {
            None
        }
    } else {
        param_from(q, key, start, i + 1)
    }
}

/// The value that the first `&`-separated parameter of `q` beginning with
/// `key` holds after `key`, or `None` where no parameter begins with `key`.
pub open spec fn first_param(q: Seq<char>, key: Seq<char>) -> Option<Seq<char>> {
    param_from(q, key, 0, 0)
}

/// Finds the first parameter of `q` that begins with `key`; returns the
/// bounds of what follows `key` in it.
pub fn find_param(q: &Vec<char>, key: &Vec<char>) -> (r: Option<(usize, usize)>)
    ensures
        match r {
            Some((a, b)) => a <= b <= q@.len() && first_param(q@, key@) == Some(
                q@.subrange(a as int, b as int),
            ),
            None => first_param(q@, key@) is None,
        },
{
    let n = q.len();
    let mut start: usize = 0;
    let mut i: usize = 0;
    loop
        invariant
            n == q@.len(),
            start <= i,
            i <= n,
            first_param(q@, key@) == param_from(q@, key@, start as int, i as int),
        decreases n - i,
    {
        if i == n || q[i] == '&' {
            if starts_with_at(q, start, i, key) {
                let k = key.len();
                proof {
                    let seg = q@.subrange(start as int, i as int);
                    assert(seg.skip(k as int) =~= q@.subrange(start + k, i as int));
                }
                return Some((start + k, i));
            }
            if i == n {
                return None;
            }
            start = i + 1;
        }
        i = i + 1;
    }
}

/// The name under which the access token travels in the query string.
pub open spec fn token_key() -> Seq<char> {
    seq!['t', 'o', 'k', 'e', 'n', '=']
}

/// The name of the session parameter that Socket.IO adds after its handshake.
pub open spec fn sid_key() -> Seq<char> {
    seq!['s', 'i', 'd', '=']
}

/// Whether the query string `query` carries the access token `valid`: the
/// first `token=` parameter, percent-decoded, equals `valid`.
pub open spec fn token_matches(query: Seq<char>, valid: Seq<char>) -> bool {
    match first_param(query, token_key()) {
        Some(v) => percent_decode(v) == valid,
        None => false,
    }
}

/// Checks the access token in a raw query string.
pub fn check_token(query: &str, valid: &str) -> (ok: bool)
    ensures
        ok == token_matches(query@, valid@),
{
    let q = chars_of(query);
    let key: Vec<char> = vec!['t', 'o', 'k', 'e', 'n', '='];
    assert(key@ =~= token_key());
    match find_param(&q, &key) {
        Some((a, b)) => {
            let raw = chars_between(&q, a, b);
            let decoded = decode_chars(&raw);
            let expected = chars_of(valid);
            same_chars(&decoded, &expected)
        },
        None => false,
    }
}

/// Whether the query string carries a Socket.IO session id.
pub open spec fn has_session(query: Seq<char>) -> bool {
    first_param(query, sid_key()) is Some
}

/// The path of the Socket.IO endpoint.
pub open spec fn socket_path() -> Seq<char> {
    seq!['/', 's', 'o', 'c', 'k', 'e', 't', '.', 'i', 'o']
}

/// Whether `path` is the Socket.IO endpoint or lies below it.
pub open spec fn is_socket_path(path: Seq<char>) -> bool {
    path == socket_path() || starts_with(path, socket_path().push('/'))
}

/// Whether the server lets a request for `path` with query string `query`
/// through, the access token being `token`. Requests to the Socket.IO
/// endpoint need the token, unless they carry a session id (they belong to a
/// connection whose handshake had it); the page at `/` needs the token;
/// everything else passes (and is answered by its route, or not found).
pub open spec fn request_allowed_spec(path: Seq<char>, query: Seq<char>, token: Seq<char>) -> bool {
    if is_socket_path(path) {
        has_session(query) || token_matches(query, token)
    } else if path == seq!['/'] {
        token_matches(query, token)
    } else {
        true
    }
}

/// Decides whether a request is let through (`true`) or refused with
/// 403 Forbidden (`false`).
pub fn request_allowed(path: &str, query: &str, token: &str) -> (ok: bool)
    ensures
        ok == request_allowed_spec(path@, query@, token@),
{
    let p = chars_of(path);
    let base: Vec<char> = vec!['/', 's', 'o', 'c', 'k', 'e', 't', '.', 'i', 'o'];
    let below: Vec<char> = vec!['/', 's', 'o', 'c', 'k', 'e', 't', '.', 'i', 'o', '/'];
    let root: Vec<char> = vec!['/'];
    assert(base@ =~= socket_path());
    assert(below@ =~= socket_path().push('/'));
    assert(root@ =~= seq!['/']);
    let n = p.len();
    let socket = same_chars(&p, &base) || starts_with_at(&p, 0, n, &below);
    assert(p@.subrange(0, n as int) =~= p@);
    if socket {
        let q = chars_of(query);
        let sid: Vec<char> = vec!['s', 'i', 'd', '='];
        assert(sid@ =~= sid_key());
        match find_param(&q, &sid) {
            Some(_) => true,
            None => check_token(query, token),
        }
    } else if same_chars(&p, &root) {
        check_token(query, token)
    } else {
        true
    }
}

/// Whether `v` holds no `&`, `%` or `+`: characters that a query string
/// would read as a separator or an escape.
pub open spec fn plain(v: Seq<char>) -> bool {
    forall|i: int| 0 <= i < v.len() ==> #[trigger] v[i] != '&' && v[i] != '%' && v[i] != '+'
}

proof fn lemma_decode_plain(v: Seq<char>, i: int)
    requires
        plain(v),
        0 <= i <= v.len(),
    ensures
        decode_from(v, i) == v.skip(i),
    decreases v.len() - i,
{
    if i < v.len() {
        lemma_decode_plain(v, i + 1);
        assert(v.skip(i) =~= seq![v[i]] + v.skip(i + 1));
    } else {
        assert(v.skip(i) =~= seq![]);
    }
}

proof fn lemma_single_param(q: Seq<char>, key: Seq<char>, i: int)
    requires
        0 <= i <= q.len(),
        key.len() <= q.len(),
        q.take(key.len() as int) == key,
        forall|j: int| 0 <= j < q.len() ==> #[trigger] q[j] != '&',
    ensures
        param_from(q, key, 0, i) == Some(q.skip(key.len() as int)),
    decreases q.len() - i,
{
    if i < q.len() {
        lemma_single_param(q, key, i + 1);
    } else {
        assert(q.subrange(0, i) =~= q);
    }
}

/// A query string `token=<w>` carries the token `t` exactly when `w` is `t`,
/// for tokens and values without `&`, `%` or `+`.
pub proof fn token_query_accepts_exactly(w: Seq<char>, t: Seq<char>)
    requires
        plain(w),
    ensures
        token_matches(token_key() + w, t) == (w == t),
{
    let q = token_key() + w;
    assert(q.take(6) =~= token_key());
    assert forall|j: int| 0 <= j < q.len() implies #[trigger] q[j] != '&' by {
        if j >= 6 {
            assert(q[j] == w[j - 6]);
        }
    }
    lemma_single_param(q, token_key(), 0);
    assert(q.skip(6) =~= w);
    lemma_decode_plain(w, 0);
    assert(w.skip(0) =~= w);
}

/// The central promise: the page at the printed URL opens with the token that
/// was generated for it, a Socket.IO handshake that carries it is accepted,
/// and any other value in its place is refused.
pub proof fn generated_token_opens_page(bytes: Seq<u8>, other: Seq<char>)
    requires
        plain(other),
    ensures
        request_allowed_spec(seq!['/'], token_key() + crate::token::base64url(bytes), crate::token::base64url(bytes)),
        request_allowed_spec(socket_path().push('/'), token_key() + crate::token::base64url(bytes), crate::token::base64url(bytes)),
        other != crate::token::base64url(bytes) ==> !request_allowed_spec(
            seq!['/'],
            token_key() + other,
            crate::token::base64url(bytes),
        ),
{
    let t = crate::token::base64url(bytes);
    crate::token::base64url_shape(bytes);
    assert(plain(t)) by {
        assert forall|i: int| 0 <= i < t.len() implies #[trigger] t[i] != '&' && t[i] != '%' && t[i]
            != '+' by {
            assert(crate::token::is_b64_char(t[i]));
        }
    }
    token_query_accepts_exactly(t, t);
    token_query_accepts_exactly(other, t);
    let p = socket_path().push('/');
    assert(starts_with(p, socket_path().push('/'))) by {
        assert(p.take(p.len() as int) =~= p);
    }
    assert(seq!['/'] != socket_path());
    assert(!starts_with(seq!['/'], socket_path().push('/')));
}

/// How many texts the history keeps.
pub const HISTORY_MAX: usize = 30;

/// The texts of a history, newest first.
pub open spec fn history_model(h: Seq<String>) -> Seq<Seq<char>> {
    h.map_values(|s: String| s@)
}

/// Whether the (already trimmed) text `t` is added to history `h`: it must
/// not be empty, and not the same as the newest entry.
pub open spec fn history_accepts(h: Seq<Seq<char>>, t: Seq<char>) -> bool {
    t.len() > 0 && !(h.len() > 0 && h[0] == t)
}

/// History `h` after adding `t`: `t` comes first, and the oldest entry goes
/// where the history already held `max` entries or more.
pub open spec fn history_after(h: Seq<Seq<char>>, t: Seq<char>, max: nat) -> Seq<Seq<char>> {
    seq![t] + (if h.len() >= max && h.len() > 0 {
        h.drop_last()
    } else {
        h
    })
}

/// Adds `text`, trimmed, at the front of the history, unless it is empty
/// or repeats the newest entry; drops the oldest entry when the history is
/// full. Returns whether the text was added.
pub fn add_to_history(entries: &mut VecDeque<String>, text: &str, max: usize) -> (added: bool)
    ensures
        added == history_accepts(history_model(old(entries)@), trimmed(text@)),
        added ==> history_model(final(entries)@) == history_after(
            history_model(old(entries)@),
            trimmed(text@),
            max as nat,
        ),
        !added ==> final(entries)@ == old(entries)@,
{
    let chars = chars_of(text);
    let t = trim_chars(&chars);
    if t.len() == 0 {
        return false;
    }
    let entry = string_from_chars(&t);
    if entries.len() > 0 && entries[0] == entry {
        return false;
    }
    let ghost before = entries@;
    if entries.len() >= max {
        entries.pop_back();
    }
    entries.push_front(entry);
    proof {
        if before.len() >= max && before.len() > 0 {
            assert(history_model(before).drop_last() =~= history_model(before.drop_last()));
        }
        assert(history_model(entries@) =~= history_after(
            history_model(before),
            trimmed(text@),
            max as nat,
        ));
    }
    true
}

/// Every entry is non-empty and has no surrounding White_Space.
pub open spec fn history_is_clean(h: Seq<Seq<char>>) -> bool {
    forall|i: int| 0 <= i < h.len() ==> #[trigger] h[i].len() > 0 && trimmed(h[i]) == h[i]
}

/// A history that holds at most `max` entries (`max` > 0) still does after
/// a text is added.
pub proof fn history_stays_bounded(h: Seq<Seq<char>>, t: Seq<char>, max: nat)
    requires
        max > 0,
        h.len() <= max,
    ensures
        history_after(h, t, max).len() <= max,
{
}

/// The newest entry is the text just added, and the older entries keep
/// their order behind it (less the oldest one, when the history was full).
pub proof fn history_keeps_order(h: Seq<Seq<char>>, t: Seq<char>, max: nat)
    ensures
        history_after(h, t, max)[0] == t,
        forall|i: int|
            0 < i < history_after(h, t, max).len() ==> #[trigger] history_after(h, t, max)[i]
                == h[i - 1],
{
}

/// Sending the same text twice in a row adds it once: the second time it
/// is refused.
pub proof fn history_refuses_repeat(h: Seq<Seq<char>>, text: Seq<char>, max: nat)
    requires
        history_accepts(h, trimmed(text)),
    ensures
        !history_accepts(history_after(h, trimmed(text), max), trimmed(text)),
{
}

/// Entries are always trimmed and non-empty: adding text keeps a clean
/// history clean.
pub proof fn history_stays_clean(h: Seq<Seq<char>>, text: Seq<char>, max: nat)
    requires
        history_is_clean(h),
        history_accepts(h, trimmed(text)),
    ensures
        history_is_clean(history_after(h, trimmed(text), max)),
{
    crate::text::trim_is_idempotent(text);
    let r = history_after(h, trimmed(text), max);
    assert forall|i: int| 0 <= i < r.len() implies #[trigger] r[i].len() > 0 && trimmed(r[i])
        == r[i] by {
        if i > 0 {
            assert(r[i] == h[i - 1]);
        }
    }
}

/// An event sent by the phone's page.
pub enum ClientEvent {
    /// Text to paste.
    TypeText(String),
    /// The Backspace button.
    Backspace,
    /// A key button, by name (only `"enter"` is known).
    PressKey(String),
    /// The "Clear PC field" button.
    ClearInput,
}

/// The mathematical value of a [`ClientEvent`].
pub enum ClientEventModel {
    TypeText(Seq<char>),
    Backspace,
    PressKey(Seq<char>),
    ClearInput,
}

impl View for ClientEvent {
    type V = ClientEventModel;

    open spec fn view(&self) -> ClientEventModel {
        match self {
            ClientEvent::TypeText(t) => ClientEventModel::TypeText(t@),
            ClientEvent::Backspace => ClientEventModel::Backspace,
            ClientEvent::PressKey(k) => ClientEventModel::PressKey(k@),
            ClientEvent::ClearInput => ClientEventModel::ClearInput,
        }
    }
}

/// What an event leads to: a command for the keyboard, if any, and the
/// history to send back to the phone, if any.
pub struct EventOutcome {
    pub command: Option<KeyCommand>,
    pub history: Option<Vec<String>>,
}

/// The model of an optional command.
pub open spec fn command_model(c: Option<KeyCommand>) -> Option<crate::keyboard::CommandModel> {
    match c {
        Some(k) => Some(k@),
        None => None,
    }
}

/// The command that the event asks for, before the typing switch is
/// consulted.
pub open spec fn requested_command(e: ClientEventModel) -> Option<crate::keyboard::CommandModel> {
    match e {
        ClientEventModel::TypeText(t) => Some(crate::keyboard::CommandModel::TypeText(t)),
        ClientEventModel::Backspace => Some(crate::keyboard::CommandModel::Backspace),
        ClientEventModel::PressKey(k) => if k == seq!['e', 'n', 't', 'e', 'r'] {
            Some(crate::keyboard::CommandModel::Enter)
        } else {
            None
        },
        ClientEventModel::ClearInput => Some(crate::keyboard::CommandModel::ClearPcField),
    }
}

/// The server's shared state: the access token and the recent texts.
pub struct AppState {
    pub token: String,
    pub history: VecDeque<String>,
}

impl AppState {
    /// A state with access token `token` and an empty history.
    pub fn new(token: String) -> (st: AppState)
        ensures
            st.token@ == token@,
            st.history@.len() == 0,
    {
        AppState { token, history: VecDeque::new() }
    }

    /// Whether a Socket.IO connection with query string `query` is accepted.
    pub fn authorized(&self, query: &str) -> (ok: bool)
        ensures
            ok == token_matches(query@, self.token@),
    {
        check_token(query, self.token.as_str())
    }

    /// A copy of the history, newest first.
    pub fn history_entries(&self) -> (out: Vec<String>)
        ensures
            history_model(out@) == history_model(self.history@),
    {
        let mut out: Vec<String> = Vec::new();
        let n = self.history.len();
        for i in 0..n
            invariant
                n == self.history@.len(),
                out@.len() == i,
                forall|j: int| 0 <= j < i ==> #[trigger] out@[j]@ == self.history@[j]@,
        {
            let e = self.history[i].clone();
            out.push(e);
        }
        assert(history_model(out@) =~= history_model(self.history@));
        out
    }

    /// Handles one event from the phone. Text is added to the history (see
    /// [`add_to_history`]) and the whole history is sent back; the command
    /// asked for is passed on while typing is on, and dropped while it is
    /// paused. Text is typed as it was sent, untrimmed.
    pub fn handle_event(&mut self, event: ClientEvent, switch: &TypingSwitch) -> (out: EventOutcome)
        ensures
            final(self).token == old(self).token,
            command_model(out.command) == (if switch@ {
                requested_command(event@)
            } else {
                None
            }),
            match event@ {
                ClientEventModel::TypeText(t) => {
                    &&& (if history_accepts(history_model(old(self).history@), trimmed(t)) {
                        history_model(final(self).history@) == history_after(
                            history_model(old(self).history@),
                            trimmed(t),
                            HISTORY_MAX as nat,
                        )
                    } else {
                        final(self).history@ == old(self).history@
                    })
                    &&& out.history matches Some(h) && history_model(h@) == history_model(
                        final(self).history@,
                    )
                },
                _ => final(self).history@ == old(self).history@ && out.history is None,
            },
    {
        let on = is_enabled(switch);
        match event {
            ClientEvent::TypeText(text) => {
                add_to_history(&mut self.history, text.as_str(), HISTORY_MAX);
                let entries = self.history_entries();
                let command = if on {
                    Some(KeyCommand::TypeText(text))
                } else {
                    None
                };
                EventOutcome { command, history: Some(entries) }
            },
            ClientEvent::Backspace => {
                let command = if on {
                    Some(KeyCommand::Backspace)
                } else {
                    None
                };
                EventOutcome { command, history: None }
            },
            ClientEvent::PressKey(key) => {
                let k = chars_of(key.as_str());
                let enter: Vec<char> = vec!['e', 'n', 't', 'e', 'r'];
                assert(enter@ =~= seq!['e', 'n', 't', 'e', 'r']);
                let command = if on && same_chars(&k, &enter) {
                    Some(KeyCommand::Enter)
                } else {
                    None
                };
                EventOutcome { command, history: None }
            },
            ClientEvent::ClearInput => {
                let command = if on {
                    Some(KeyCommand::ClearPcField)
                } else {
                    None
                };
                EventOutcome { command, history: None }
            },
        }
    }
}

} // verus!
