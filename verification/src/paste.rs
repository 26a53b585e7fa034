//! Pasting text into the focused application: put the text on the clipboard,
//! press the paste shortcut, then put back what the clipboard held before.
//!
//! The clipboard, the keyboard and the pauses are the caller's work; this
//! module decides, step by step, what to do next from what the last step
//! reported.
use vstd::prelude::*;
use crate::keyboard::{Key, KeyStroke, Direction, stroke};

verus! {

/// Milliseconds to wait after filling the clipboard, before pasting.
pub const SETTLE_MS: u64 = 30;

/// Milliseconds to wait after pasting, before restoring the clipboard.
pub const AFTER_PASTE_MS: u64 = 50;

/// The next piece of outside work.
pub enum PasteAction {
    /// Open the system clipboard.
    OpenClipboard,
    /// Read the clipboard's text (to restore it later).
    ReadClipboard,
    /// Put this text on the clipboard.
    WriteClipboard(String),
    /// Wait this many milliseconds.
    Pause(u64),
    /// Send this key event.
    Stroke(KeyStroke),
    /// Nothing more to do.
    Finish,
}

/// What the last piece of outside work reported.
pub enum PasteEvent {
    /// It worked (for a pause or a key event: it was done).
    Succeeded,
    /// It failed.
    Failed,
    /// The clipboard was read: its text, or `None` where it held none.
    Read(Option<String>),
}

/// The mathematical value of a [`PasteAction`].
pub enum ActionModel {
    OpenClipboard,
    ReadClipboard,
    WriteClipboard(Seq<char>),
    Pause(u64),
    Stroke(KeyStroke),
    Finish,
}

/// The mathematical value of a [`PasteEvent`].
pub enum EventModel {
    Succeeded,
    Failed,
    Read(Option<Seq<char>>),
}

impl View for PasteAction {
    type V = ActionModel;

    open spec fn view(&self) -> ActionModel {
        match self {
            PasteAction::OpenClipboard => ActionModel::OpenClipboard,
            PasteAction::ReadClipboard => ActionModel::ReadClipboard,
            PasteAction::WriteClipboard(t) => ActionModel::WriteClipboard(t@),
            PasteAction::Pause(ms) => ActionModel::Pause(*ms),
            PasteAction::Stroke(k) => ActionModel::Stroke(*k),
            PasteAction::Finish => ActionModel::Finish,
        }
    }
}

impl View for PasteEvent {
    type V = EventModel;

    open spec fn view(&self) -> EventModel {
        match self {
            PasteEvent::Succeeded => EventModel::Succeeded,
            PasteEvent::Failed => EventModel::Failed,
            PasteEvent::Read(Some(t)) => EventModel::Read(Some(t@)),
            PasteEvent::Read(None) => EventModel::Read(None),
        }
    }
}

/// Where a paste stands: which outside step it is waiting for.
#[derive(Clone, Copy, Debug, PartialEq, Eq, Structural)]
pub enum Stage {
    Opening,
    Reading,
    Writing,
    Settling,
    Pressing,
    Clicking,
    Releasing,
    Waiting,
    Restoring,
    Done,
}

/// One paste in progress.
pub struct PasteSession {
    text: String,
    modifier: Key,
    stage: Stage,
    previous: Option<String>,
}

/// The mathematical value of a [`PasteSession`].
pub struct SessionModel {
    pub text: Seq<char>,
    pub modifier: Key,
    pub stage: Stage,
    pub previous: Option<Seq<char>>,
}

/// The model of an optional string.
pub open spec fn opt_view(o: Option<String>) -> Option<Seq<char>> {
    match o {
        Some(s) => Some(s@),
        None => None,
    }
}

impl View for PasteSession {
    type V = SessionModel;

    closed spec fn view(&self) -> SessionModel {
        SessionModel {
            text: self.text@,
            modifier: self.modifier,
            stage: self.stage,
            previous: opt_view(self.previous),
        }
    }
}

/// The session just after it has asked to open the clipboard.
pub open spec fn started(text: Seq<char>, modifier: Key) -> SessionModel {
    SessionModel { text, modifier, stage: Stage::Opening, previous: None }
}

/// The session `s` moved to stage `st`.
pub open spec fn at(s: SessionModel, st: Stage) -> SessionModel {
    SessionModel { stage: st, ..s }
}

/// One transition: from session `s`, on report `e`, the next session and the
/// next action. A failure to open the clipboard or to fill it ends the paste
/// at once; a failure of a key event or of the final restore does not change
/// the course; a report that does not fit the stage ends the paste.
pub open spec fn step(s: SessionModel, e: EventModel) -> (SessionModel, ActionModel) {
    match (s.stage, e) {
        (Stage::Opening, EventModel::Succeeded) => (at(s, Stage::Reading), ActionModel::ReadClipboard),
        (Stage::Reading, EventModel::Read(prev)) => (
            SessionModel { stage: Stage::Writing, previous: prev, ..s },
            ActionModel::WriteClipboard(s.text),
        ),
        (Stage::Writing, EventModel::Succeeded) => (
            at(s, Stage::Settling),
            ActionModel::Pause(SETTLE_MS),
        ),
        (Stage::Settling, _) => (
            at(s, Stage::Pressing),
            ActionModel::Stroke(stroke(s.modifier, Direction::Press)),
        ),
        (Stage::Pressing, _) => (
            at(s, Stage::Clicking),
            ActionModel::Stroke(stroke(Key::Unicode('v'), Direction::Click)),
        ),
        (Stage::Clicking, _) => (
            at(s, Stage::Releasing),
            ActionModel::Stroke(stroke(s.modifier, Direction::Release)),
        ),
        (Stage::Releasing, _) => (at(s, Stage::Waiting), ActionModel::Pause(AFTER_PASTE_MS)),
        (Stage::Waiting, _) => match s.previous {
            Some(p) => (at(s, Stage::Restoring), ActionModel::WriteClipboard(p)),
            None => (at(s, Stage::Done), ActionModel::Finish),
        },
        _ => (at(s, Stage::Done), ActionModel::Finish),
    }
}

impl PasteSession {
    /// Starts pasting `text`, with `modifier` as the paste shortcut's key;
    /// the first action is to open the clipboard.
    pub fn start(text: String, modifier: Key) -> (r: (PasteSession, PasteAction))
        ensures
            r.0@ == started(text@, modifier),
            r.1@ == ActionModel::OpenClipboard,
    {
        let s = PasteSession { text, modifier, stage: Stage::Opening, previous: None };
        (s, PasteAction::OpenClipboard)
    }

    /// Whether the paste is over.
    pub fn is_done(&self) -> (d: bool)
        ensures
            d == (self@.stage == Stage::Done),
    {
        self.stage == Stage::Done
    }

    /// Takes the report of the last action and returns the next one.
    pub fn next(&mut self, event: PasteEvent) -> (a: PasteAction)
        ensures
            (final(self)@, a@) == step(old(self)@, event@),
    {
        let stage = self.stage;
        match stage {
            Stage::Opening => match event {
                PasteEvent::Succeeded => {
                    self.stage = Stage::Reading;
                    PasteAction::ReadClipboard
                },
                _ => {
                    self.stage = Stage::Done;
                    PasteAction::Finish
                },
            },
            Stage::Reading => match event {
                PasteEvent::Read(prev) => {
                    self.stage = Stage::Writing;
                    self.previous = prev;
                    PasteAction::WriteClipboard(self.text.clone())
                },
                _ => {
                    self.stage = Stage::Done;
                    PasteAction::Finish
                },
            },
            Stage::Writing => match event {
                PasteEvent::Succeeded => {
                    self.stage = Stage::Settling;
                    PasteAction::Pause(SETTLE_MS)
                },
                _ => {
                    self.stage = Stage::Done;
                    PasteAction::Finish
                },
            },
            Stage::Settling => {
                self.stage = Stage::Pressing;
                PasteAction::Stroke(KeyStroke { key: self.modifier, direction: Direction::Press })
            },
            Stage::Pressing => {
                self.stage = Stage::Clicking;
                PasteAction::Stroke(KeyStroke { key: Key::Unicode('v'), direction: Direction::Click })
            },
            Stage::Clicking => {
                self.stage = Stage::Releasing;
                PasteAction::Stroke(
                    KeyStroke { key: self.modifier, direction: Direction::Release },
                )
            },
            Stage::Releasing => {
                self.stage = Stage::Waiting;
                PasteAction::Pause(AFTER_PASTE_MS)
            },
            Stage::Waiting => match &self.previous {
                Some(p) => {
                    let p = p.clone();
                    self.stage = Stage::Restoring;
                    PasteAction::WriteClipboard(p)
                },
                None => {
                    self.stage = Stage::Done;
                    PasteAction::Finish
                },
            },
            _ => {
                self.stage = Stage::Done;
                PasteAction::Finish
            },
        }
    }
}

/// The session and the actions after feeding `events` to `s`, one by one.
pub open spec fn run(s: SessionModel, events: Seq<EventModel>) -> (SessionModel, Seq<ActionModel>)
    decreases events.len(),
{
    if events.len() == 0 {
        (s, seq![])
    } else {
        let (s1, acts) = run(s, events.drop_last());
        let (s2, a) = step(s1, events.last());
        (s2, acts.push(a))
    }
}

/// How far a stage is along the paste.
pub open spec fn rank(st: Stage) -> int {
    match st {
        Stage::Opening => 0,
        Stage::Reading => 1,
        Stage::Writing => 2,
        Stage::Settling => 3,
        Stage::Pressing => 4,
        Stage::Clicking => 5,
        Stage::Releasing => 6,
        Stage::Waiting => 7,
        Stage::Restoring => 8,
        Stage::Done => 9,
    }
}

proof fn lemma_run_progress(text: Seq<char>, modifier: Key, events: Seq<EventModel>)
    ensures
        run(started(text, modifier), events).0.stage == Stage::Done || rank(
            run(started(text, modifier), events).0.stage,
        ) == events.len(),
    decreases events.len(),
{
    if events.len() > 0 {
        lemma_run_progress(text, modifier, events.drop_last());
    }
}

/// A paste is over after at most nine reports, whatever they are.
pub proof fn paste_always_ends(text: Seq<char>, modifier: Key, events: Seq<EventModel>)
    requires
        events.len() >= 9,
    ensures
        run(started(text, modifier), events).0.stage == Stage::Done,
    decreases events.len(),
{
    if events.len() == 9 {
        lemma_run_progress(text, modifier, events);
    } else {
        paste_always_ends(text, modifier, events.drop_last());
    }
}

/// The reports of a paste in which every step works and the clipboard held
/// `previous` before.
pub open spec fn smooth_reports(previous: Option<Seq<char>>) -> Seq<EventModel> {
    seq![
        EventModel::Succeeded,
        EventModel::Read(previous),
        EventModel::Succeeded,
        EventModel::Succeeded,
        EventModel::Succeeded,
        EventModel::Succeeded,
        EventModel::Succeeded,
        EventModel::Succeeded,
        EventModel::Succeeded,
    ]
}

/// When every step works, the paste reads the clipboard, fills it with the
/// text, waits, presses modifier+V, waits again, then puts back what the
/// clipboard held, if it held text, and ends.
pub proof fn smooth_paste(text: Seq<char>, modifier: Key, previous: Option<Seq<char>>)
    ensures
        run(started(text, modifier), smooth_reports(previous)).1 == seq![
            ActionModel::ReadClipboard,
            ActionModel::WriteClipboard(text),
            ActionModel::Pause(SETTLE_MS),
            ActionModel::Stroke(stroke(modifier, Direction::Press)),
            ActionModel::Stroke(stroke(Key::Unicode('v'), Direction::Click)),
            ActionModel::Stroke(stroke(modifier, Direction::Release)),
            ActionModel::Pause(AFTER_PASTE_MS),
            match previous {
                Some(p) => ActionModel::WriteClipboard(p),
                None => ActionModel::Finish,
            },
            ActionModel::Finish,
        ],
        run(started(text, modifier), smooth_reports(previous)).0.stage == Stage::Done,
{
    let ev = smooth_reports(previous);
    let s0 = started(text, modifier);
    reveal_with_fuel(run, 10);
    assert(ev.take(1).drop_last() =~= ev.take(0));
    assert(ev.take(2).drop_last() =~= ev.take(1));
    assert(ev.take(3).drop_last() =~= ev.take(2));
    assert(ev.take(4).drop_last() =~= ev.take(3));
    assert(ev.take(5).drop_last() =~= ev.take(4));
    assert(ev.take(6).drop_last() =~= ev.take(5));
    assert(ev.take(7).drop_last() =~= ev.take(6));
    assert(ev.take(8).drop_last() =~= ev.take(7));
    assert(ev.take(9).drop_last() =~= ev.take(8));
    assert(ev.take(9) =~= ev);
    assert(run(s0, ev).1 =~= seq![
        ActionModel::ReadClipboard,
        ActionModel::WriteClipboard(text),
        ActionModel::Pause(SETTLE_MS),
        ActionModel::Stroke(stroke(modifier, Direction::Press)),
        ActionModel::Stroke(stroke(Key::Unicode('v'), Direction::Click)),
        ActionModel::Stroke(stroke(modifier, Direction::Release)),
        ActionModel::Pause(AFTER_PASTE_MS),
        match previous {
            Some(p) => ActionModel::WriteClipboard(p),
            None => ActionModel::Finish,
        },
        ActionModel::Finish,
    ]);
}

/// A paste whose clipboard cannot be opened, or cannot be filled, does
/// nothing more: it never presses a key nor writes to the clipboard again.
pub proof fn failed_clipboard_stops(text: Seq<char>, modifier: Key, previous: Option<Seq<char>>)
    ensures
        run(started(text, modifier), seq![EventModel::Failed]).1 == seq![ActionModel::Finish],
        run(started(text, modifier), seq![EventModel::Failed]).0.stage == Stage::Done,
        run(
            started(text, modifier),
            seq![EventModel::Succeeded, EventModel::Read(previous), EventModel::Failed],
        ).1 == seq![
            ActionModel::ReadClipboard,
            ActionModel::WriteClipboard(text),
            ActionModel::Finish,
        ],
        run(
            started(text, modifier),
            seq![EventModel::Succeeded, EventModel::Read(previous), EventModel::Failed],
        ).0.stage == Stage::Done,
{
    let s0 = started(text, modifier);
    reveal_with_fuel(run, 4);
    let e1 = seq![EventModel::Failed];
    assert(e1.drop_last() =~= seq![]);
    assert(run(s0, e1).1 =~= seq![ActionModel::Finish]);
    let e3 = seq![EventModel::Succeeded, EventModel::Read(previous), EventModel::Failed];
    assert(e3.drop_last() =~= seq![EventModel::Succeeded, EventModel::Read(previous)]);
    assert(e3.drop_last().drop_last() =~= seq![EventModel::Succeeded]);
    assert(e3.drop_last().drop_last().drop_last() =~= seq![]);
    assert(run(s0, e3).1 =~= seq![
        ActionModel::ReadClipboard,
        ActionModel::WriteClipboard(text),
        ActionModel::Finish,
    ]);
}

} // verus!
