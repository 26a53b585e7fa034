# type_bridge

A Wi-Fi remote keyboard: the phone's browser opens a page served by the
computer, and what is typed there is pasted into the computer's focused
application.

`src/` is the verified library (Verus):

- `keyboard` — key commands, merging of consecutive text, the typing switch,
  and how each command is carried out (paste, or key events).
- `paste` — the clipboard-and-shortcut paste, as a step-by-step state machine.
- `server` — the access token check, percent-decoding, the request gate,
  the recent-text history, and what each event from the phone does.
- `token` — the random access token in base64url.
- `ip`, `urls` — the address the phone opens, and the tray's texts.
- `qr`, `icon` — the QR code's text and pixels, and the tray icon's picture.
- `text`, `assets` — character helpers, and the page's HTML.

`app/` is the program around it: command line, web server wiring, system
tray, QR window, clipboard and simulated keyboard.
