//! Keyboard commands sent from the phone, how consecutive text commands are
//! merged before being typed, the typing on/off switch, and the plan of
//! keystrokes and clipboard work that performs each command.
use vstd::prelude::*;

verus! {

/// One request to act on the computer's focused application.
#[derive(Debug)]
pub enum KeyCommand {
    /// Paste this text into the focused application.
    TypeText(String),
    /// Press Backspace once.
    Backspace,
    /// Press Enter once.
    Enter,
    /// Select everything in the focused field and delete it.
    ClearPcField,
}

/// The mathematical value of a [`KeyCommand`]: the text as a sequence of
/// characters.
pub enum CommandModel {
    TypeText(Seq<char>),
    Backspace,
    Enter,
    ClearPcField,
}

impl View for KeyCommand {
    type V = CommandModel;

    open spec fn view(&self) -> CommandModel {
        match self {
            KeyCommand::TypeText(t) => CommandModel::TypeText(t@),
            KeyCommand::Backspace => CommandModel::Backspace,
            KeyCommand::Enter => CommandModel::Enter,
            KeyCommand::ClearPcField => CommandModel::ClearPcField,
        }
    }
}

/// The models of a sequence of commands.
pub open spec fn models(cmds: Seq<KeyCommand>) -> Seq<CommandModel> {
    cmds.map_values(|c: KeyCommand| c@)
}

/// Adds one command at the end of an already merged list: text that follows
/// text is joined to it; anything else is appended as it is.
pub open spec fn merge_step(acc: Seq<CommandModel>, c: CommandModel) -> Seq<CommandModel> {
    match c {
        CommandModel::TypeText(t) => if acc.len() > 0 && acc.last() is TypeText {
            acc.drop_last().push(CommandModel::TypeText(acc.last()->TypeText_0 + t))
        } else {
            acc.push(c)
        },
        _ => acc.push(c),
    }
}

/// The merged form of a list of commands, built from left to right.
pub open spec fn merged(cmds: Seq<CommandModel>) -> Seq<CommandModel>
    decreases cmds.len(),
{
    if cmds.len() == 0 {
        seq![]
    } else {
        merge_step(merged(cmds.drop_last()), cmds.last())
    }
}

/// No two neighbouring commands are both text: the shape that merging leaves.
pub open spec fn is_merged_form(s: Seq<CommandModel>) -> bool {
    forall|i: int| 0 <= i < s.len() - 1 ==> !(#[trigger] s[i] is TypeText && s[i + 1] is TypeText)
}

/// One effect on the computer: a character typed, or a key action.
pub enum Stroke {
    Character(char),
    Backspace,
    Enter,
    ClearField,
}

/// Typing the character `c`.
pub open spec fn char_stroke(c: char) -> Stroke {
    Stroke::Character(c)
}

/// Typing the characters of `t`, one after the other.
pub open spec fn char_strokes(t: Seq<char>) -> Seq<Stroke>
    decreases t.len(),
{
    if t.len() == 0 {
        seq![]
    } else {
        char_strokes(t.drop_last()).push(char_stroke(t.last()))
    }
}

proof fn lemma_char_strokes_concat(l: Seq<char>, t: Seq<char>)
    ensures
        char_strokes(l + t) == char_strokes(l) + char_strokes(t),
    decreases t.len(),
{
    if t.len() == 0 {
        assert(l + t =~= l);
        assert(char_strokes(l) + char_strokes(t) =~= char_strokes(l));
    } else {
        lemma_char_strokes_concat(l, t.drop_last());
        assert((l + t).drop_last() =~= l + t.drop_last());
        assert((l + t).last() == t.last());
        let x = char_stroke(t.last());
        assert(char_strokes(l + t) == char_strokes(l + t.drop_last()).push(x));
        assert(char_strokes(t) == char_strokes(t.drop_last()).push(x));
        assert((char_strokes(l) + char_strokes(t.drop_last())).push(x) =~= char_strokes(l) + char_strokes(t.drop_last()).push(x));
    }
}

/// What one command does, as a sequence of effects.
pub open spec fn strokes_of(c: CommandModel) -> Seq<Stroke> {
    match c {
        CommandModel::TypeText(t) => char_strokes(t),
        CommandModel::Backspace => seq![Stroke::Backspace],
        CommandModel::Enter => seq![Stroke::Enter],
        CommandModel::ClearPcField => seq![Stroke::ClearField],
    }
}

/// What a list of commands does, in order.
pub open spec fn typed(cmds: Seq<CommandModel>) -> Seq<Stroke>
    decreases cmds.len(),
{
    if cmds.len() == 0 {
        seq![]
    } else {
        typed(cmds.drop_last()) + strokes_of(cmds.last())
    }
}

proof fn lemma_merge_step_typed(acc: Seq<CommandModel>, c: CommandModel)
    ensures
        typed(merge_step(acc, c)) == typed(acc) + strokes_of(c),
{
    let r = merge_step(acc, c);
    match c {
        CommandModel::TypeText(t) => {
            if acc.len() > 0 && acc.last() is TypeText {
                let l = acc.last()->TypeText_0;
                assert(r.drop_last() =~= acc.drop_last());
                lemma_char_strokes_concat(l, t);
                assert(typed(acc) == typed(acc.drop_last()) + char_strokes(l));
                assert(typed(r) == typed(acc.drop_last()) + char_strokes(l + t));
                assert(typed(r) =~= typed(acc) + strokes_of(c));
            } else {
                assert(r.drop_last() =~= acc);
            }
        },
        _ => {
            assert(r.drop_last() =~= acc);
        },
    }
}

/// Merging changes nothing that is typed: the merged commands produce the
/// same characters and key actions, in the same order, as the commands before merging.
pub proof fn merge_preserves_typing(cmds: Seq<CommandModel>)
    ensures
        typed(merged(cmds)) == typed(cmds),
    decreases cmds.len(),
{
    if cmds.len() > 0 {
        merge_preserves_typing(cmds.drop_last());
        lemma_merge_step_typed(merged(cmds.drop_last()), cmds.last());
    }
}

/// After merging, no text command directly follows another text command.
pub proof fn merge_leaves_no_adjacent_text(cmds: Seq<CommandModel>)
    ensures
        is_merged_form(merged(cmds)),
    decreases cmds.len(),
{
    if cmds.len() > 0 {
        merge_leaves_no_adjacent_text(cmds.drop_last());
        let acc = merged(cmds.drop_last());
        let r = merged(cmds);
        assert forall|i: int| 0 <= i < r.len() - 1 implies !(#[trigger] r[i] is TypeText && r[i
            + 1] is TypeText) by {
            if i < acc.len() - 1 {
                assert(r[i] == acc[i]);
                if i + 1 < acc.len() - 1 || !(cmds.last() is TypeText) {
                    assert(r[i + 1] == acc[i + 1]);
                }
            }
        }
    }
}

/// Merging never makes the list longer.
pub proof fn merge_never_lengthens(cmds: Seq<CommandModel>)
    ensures
        merged(cmds).len() <= cmds.len(),
    decreases cmds.len(),
{
    if cmds.len() > 0 {
        merge_never_lengthens(cmds.drop_last());
    }
}

/// A list in merged form is left as it is by merging.
pub proof fn merge_keeps_merged_form(cmds: Seq<CommandModel>)
    requires
        is_merged_form(cmds),
    ensures
        merged(cmds) == cmds,
    decreases cmds.len(),
{
    if cmds.len() > 0 {
        let init = cmds.drop_last();
        assert(is_merged_form(init)) by {
            assert forall|i: int| 0 <= i < init.len() - 1 implies !(#[trigger] init[i] is TypeText
                && init[i + 1] is TypeText) by {
                assert(init[i] == cmds[i] && init[i + 1] == cmds[i + 1]);
            }
        }
        merge_keeps_merged_form(init);
        if init.len() > 0 && cmds.last() is TypeText {
            assert(!(cmds[cmds.len() - 2] is TypeText && cmds[cmds.len() - 1] is TypeText));
        }
        assert(merged(cmds) =~= cmds);
    }
}

/// Merging twice gives the same as merging once.
pub proof fn merge_is_idempotent(cmds: Seq<CommandModel>)
    ensures
        merged(merged(cmds)) == merged(cmds),
{
    merge_leaves_no_adjacent_text(cmds);
    merge_keeps_merged_form(merged(cmds));
}

/// Merges consecutive `TypeText` commands into one, so that a burst of typed
/// text is pasted at once; `Backspace`, `Enter` and `ClearPcField` are
/// boundaries that nothing is merged across.
pub fn merge_commands(cmds: Vec<KeyCommand>) -> (out: Vec<KeyCommand>)
    ensures
        models(out@) == merged(models(cmds@)),
{
    let mut out: Vec<KeyCommand> = Vec::new();
    let n = cmds.len();
    for i in 0..n
        invariant
            n == cmds@.len(),
            models(out@) == merged(models(cmds@).take(i as int)),
    {
        proof {
            assert(models(cmds@).take(i + 1).drop_last() =~= models(cmds@).take(i as int));
        }
        match &cmds[i] {
            KeyCommand::TypeText(t) => {
                let last = out.pop();
                match last {
                    Some(KeyCommand::TypeText(mut s)) => {
                        s.append(t.as_str());
                        out.push(KeyCommand::TypeText(s));
                    },
                    Some(other) => {
                        out.push(other);
                        out.push(KeyCommand::TypeText(t.clone()));
                    },
                    None => {
                        out.push(KeyCommand::TypeText(t.clone()));
                    },
                }
            },
            KeyCommand::Backspace => {
                out.push(KeyCommand::Backspace);
            },
            KeyCommand::Enter => {
                out.push(KeyCommand::Enter);
            },
            KeyCommand::ClearPcField => {
                out.push(KeyCommand::ClearPcField);
            },
        }
        assert(models(out@) =~= merged(models(cmds@).take(i + 1)));
    }
    assert(models(cmds@).take(n as int) =~= models(cmds@));
    out
}


/// Whether commands from the phone are typed (on) or dropped (paused).
/// A new switch is on.
pub struct TypingSwitch {
    enabled: bool,
}

impl View for TypingSwitch {
    type V = bool;

    closed spec fn view(&self) -> bool {
        self.enabled
    }
}

impl TypingSwitch {
    /// A switch that is on.
    pub fn new() -> (s: Self)
        ensures
            s@,
    {
        TypingSwitch { enabled: true }
    }
}

/// Turns typing on (`true`) or pauses it (`false`).
pub fn set_enabled(switch: &mut TypingSwitch, v: bool)
    ensures
        final(switch)@ == v,
{
    switch.enabled = v;
}

/// Whether typing is on.
pub fn is_enabled(switch: &TypingSwitch) -> (on: bool)
    ensures
        on == switch@,
{
    switch.enabled
}

/// Flips the switch, as the tray menu's toggle does, and returns the new state.
pub fn toggle(switch: &mut TypingSwitch) -> (now_on: bool)
    ensures
        final(switch)@ == !old(switch)@,
        now_on == final(switch)@,
{
    let was = is_enabled(switch);
    set_enabled(switch, !was);
    is_enabled(switch)
}

/// A key of the simulated keyboard.
#[derive(Clone, Copy, Debug, PartialEq, Eq, Structural)]
pub enum Key {
    Control,
    Meta,
    Backspace,
    Return,
    Unicode(char),
}

/// What happens to a key: pressed down, released, or pressed and released.
#[derive(Clone, Copy, Debug, PartialEq, Eq, Structural)]
pub enum Direction {
    Press,
    Release,
    Click,
}

/// One simulated key event.
#[derive(Clone, Copy, Debug, PartialEq, Eq, Structural)]
pub struct KeyStroke {
    pub key: Key,
    pub direction: Direction,
}

/// The key event `key` in direction `direction`.
pub open spec fn stroke(key: Key, direction: Direction) -> KeyStroke {
    KeyStroke { key, direction }
}

/// The key events of the shortcut `modifier` + `letter`: hold the modifier,
/// click the letter, release the modifier.
pub open spec fn shortcut_strokes(modifier: Key, letter: char) -> Seq<KeyStroke> {
    seq![
        stroke(modifier, Direction::Press),
        stroke(Key::Unicode(letter), Direction::Click),
        stroke(modifier, Direction::Release),
    ]
}

/// The key events of the shortcut `modifier` + `letter`.
pub fn shortcut(modifier: Key, letter: char) -> (out: Vec<KeyStroke>)
    ensures
        out@ == shortcut_strokes(modifier, letter),
{
    let mut out: Vec<KeyStroke> = Vec::new();
    out.push(KeyStroke { key: modifier, direction: Direction::Press });
    out.push(KeyStroke { key: Key::Unicode(letter), direction: Direction::Click });
    out.push(KeyStroke { key: modifier, direction: Direction::Release });
    assert(out@ =~= shortcut_strokes(modifier, letter));
    out
}

/// How a command is carried out: text goes through the clipboard and a paste
/// shortcut (see [`PasteSession`]); the other commands are key events.
pub enum Operation {
    Paste(String),
    Keys(Vec<KeyStroke>),
}

/// The mathematical value of an [`Operation`].
pub enum OperationModel {
    Paste(Seq<char>),
    Keys(Seq<KeyStroke>),
}

impl View for Operation {
    type V = OperationModel;

    open spec fn view(&self) -> OperationModel {
        match self {
            Operation::Paste(t) => OperationModel::Paste(t@),
            Operation::Keys(k) => OperationModel::Keys(k@),
        }
    }
}

/// How `cmd` is carried out, where `modifier` is the platform's shortcut key
/// (Meta on macOS, Control elsewhere).
pub open spec fn operation_for(cmd: CommandModel, modifier: Key) -> OperationModel {
    match cmd {
        CommandModel::TypeText(t) => OperationModel::Paste(t),
        CommandModel::Backspace => OperationModel::Keys(
            seq![stroke(Key::Backspace, Direction::Click)],
        ),
        CommandModel::Enter => OperationModel::Keys(seq![stroke(Key::Return, Direction::Click)]),
        CommandModel::ClearPcField => OperationModel::Keys(
            shortcut_strokes(modifier, 'a').push(stroke(Key::Backspace, Direction::Click)),
        ),
    }
}

/// Decides how `cmd` is carried out on the computer: text is pasted, Backspace
/// and Enter are single key clicks, and clearing the field is select-all
/// followed by Backspace.
pub fn execute(cmd: KeyCommand, modifier: Key) -> (op: Operation)
    ensures
        op@ == operation_for(cmd@, modifier),
{
    match cmd {
        KeyCommand::TypeText(text) => Operation::Paste(text),
        KeyCommand::Backspace => {
            let mut keys: Vec<KeyStroke> = Vec::new();
            keys.push(KeyStroke { key: Key::Backspace, direction: Direction::Click });
            assert(keys@ =~= seq![stroke(Key::Backspace, Direction::Click)]);
            Operation::Keys(keys)
        },
        KeyCommand::Enter => {
            let mut keys: Vec<KeyStroke> = Vec::new();
            keys.push(KeyStroke { key: Key::Return, direction: Direction::Click });
            assert(keys@ =~= seq![stroke(Key::Return, Direction::Click)]);
            Operation::Keys(keys)
        },
        KeyCommand::ClearPcField => {
            let mut keys = shortcut(modifier, 'a');
            keys.push(KeyStroke { key: Key::Backspace, direction: Direction::Click });
            Operation::Keys(keys)
        },
    }
}

/// The most commands taken from the queue in one tick of the event loop.
pub const MAX_COMMANDS_PER_TICK: usize = 32;

/// The work of one tick: the commands taken from the queue are merged, then
/// each merged command is turned into the operation that carries it out.
pub fn plan_tick(pending: Vec<KeyCommand>, modifier: Key) -> (ops: Vec<Operation>)
    ensures
        ops@.len() == merged(models(pending@)).len(),
        forall|i: int|
            0 <= i < ops@.len() ==> #[trigger] ops@[i]@ == operation_for(
                merged(models(pending@))[i],
                modifier,
            ),
{
    let mut cmds = merge_commands(pending);
    let ghost m = models(cmds@);
    let mut ops: Vec<Operation> = Vec::new();
    let mut rest: Vec<KeyCommand> = Vec::new();
    // Take the merged commands from the back, then restore their order.
    while cmds.len() > 0
        invariant
            models(cmds@) == m.take(cmds@.len() as int),
            cmds@.len() <= m.len(),
            rest@.len() == m.len() - cmds@.len(),
            forall|j: int|
                0 <= j < rest@.len() ==> #[trigger] rest@[j]@ == m[m.len() - 1 - j],
        decreases cmds@.len(),
    {
        let ghost before = cmds@;
        let c = cmds.pop().unwrap();
        proof {
            assert(models(before)[before.len() - 1] == m[before.len() - 1]);
            assert(c@ == m[before.len() - 1]);
            assert(models(cmds@) =~= m.take(cmds@.len() as int));
        }
        rest.push(c);
    }
    while rest.len() > 0
        invariant
            rest@.len() + ops@.len() == m.len(),
            forall|j: int|
                0 <= j < rest@.len() ==> #[trigger] rest@[j]@ == m[m.len() - 1 - j],
            forall|i: int|
                0 <= i < ops@.len() ==> #[trigger] ops@[i]@ == operation_for(m[i], modifier),
        decreases rest@.len(),
    {
        let c = rest.pop().unwrap();
        ops.push(execute(c, modifier));
    }
    ops
}

} // verus!
