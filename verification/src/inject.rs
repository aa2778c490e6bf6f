//! Getting text to the cursor: the clipboard is swapped for the text, a paste
//! chord is sent, and the clipboard is restored. Where that fails the text is
//! typed instead. A field for secrets gets nothing.

use vstd::prelude::*;

verus! {

/// How long the text stays in the clipboard, so that the target has read it.
pub const CLIPBOARD_RESTORE_DELAY_MILLIS: u64 = 50;

#[derive(Debug, Clone, Copy, PartialEq, Eq, Structural)]
pub enum ChordKey {
    Shift,
    Alt,
    Meta,
    Control,
    V,
}

#[derive(Debug, Clone, Copy, PartialEq, Eq, Structural)]
pub enum KeyDirection {
    Press,
    Release,
    Click,
}

#[derive(Debug, Clone, Copy, PartialEq, Eq, Structural)]
pub struct KeyStroke {
    pub key: ChordKey,
    pub direction: KeyDirection,
}

pub const PASTE_STROKES: usize = 6;

/// The key that makes a paste of `V`.
pub open spec fn modifier_of(macos: bool) -> ChordKey {
    if macos {
        ChordKey::Meta
    } else {
        ChordKey::Control
    }
}

/// The strokes of a paste. Modifiers that a hand may still hold from the
/// hotkey are released first: with one of them down it would not be a paste.
pub open spec fn paste_chord(macos: bool) -> Seq<KeyStroke> {
    seq![
        KeyStroke { key: ChordKey::Shift, direction: KeyDirection::Release },
        KeyStroke { key: ChordKey::Alt, direction: KeyDirection::Release },
        KeyStroke { key: ChordKey::Meta, direction: KeyDirection::Release },
        KeyStroke { key: modifier_of(macos), direction: KeyDirection::Press },
        KeyStroke { key: ChordKey::V, direction: KeyDirection::Click },
        KeyStroke { key: modifier_of(macos), direction: KeyDirection::Release },
    ]
}

pub fn paste_modifier(macos: bool) -> (key: ChordKey)
    ensures
        key == modifier_of(macos),
{
    if macos {
        ChordKey::Meta
    } else {
        ChordKey::Control
    }
}

/// The stroke of a paste after `sent` others.
pub fn paste_stroke(macos: bool, sent: usize) -> (stroke: KeyStroke)
    requires
        sent < PASTE_STROKES,
    ensures
        stroke == paste_chord(macos)[sent as int],
{
    if sent == 0 {
        KeyStroke { key: ChordKey::Shift, direction: KeyDirection::Release }
    } else if sent == 1 {
        KeyStroke { key: ChordKey::Alt, direction: KeyDirection::Release }
    } else if sent == 2 {
        KeyStroke { key: ChordKey::Meta, direction: KeyDirection::Release }
    } else if sent == 3 {
        KeyStroke { key: paste_modifier(macos), direction: KeyDirection::Press }
    } else if sent == 4 {
        KeyStroke { key: ChordKey::V, direction: KeyDirection::Click }
    } else {
        KeyStroke { key: paste_modifier(macos), direction: KeyDirection::Release }
    }
}

/// What a clipboard held before a paste.
pub enum Saved {
    Empty,
    Text(String),
    /// Anything else, an image or files, which whoever reads the clipboard keeps
    /// under this number.
    Other(u64),
}

/// What a clipboard holds.
pub ghost enum Contents {
    Empty,
    Text(Seq<char>),
    Other(u64),
}

impl View for Saved {
    type V = Contents;

    open spec fn view(&self) -> Contents {
        match *self {
            Saved::Empty => Contents::Empty,
            Saved::Text(text) => Contents::Text(text@),
            Saved::Other(kept) => Contents::Other(kept),
        }
    }
}

enum Stage {
    Checking,
    Opening,
    Writing { previous: Saved },
    /// `sent` strokes were sent; `intact` as long as none that matters failed.
    Chord { previous: Saved, sent: usize, intact: bool },
    Settling { previous: Saved, pasted: bool },
    Restoring { pasted: bool },
    Typing,
    Over,
}

/// How far an insertion has come.
pub ghost enum Inserting {
    /// Whether the focused field is secure is not known yet.
    Checking,
    /// The clipboard is opened and read.
    Opening,
    /// The text is written to the clipboard, which held `previous`.
    Writing { previous: Contents },
    Chord { previous: Contents, sent: int, intact: bool },
    /// The target is given time to read the clipboard.
    Settling { previous: Contents, pasted: bool },
    Restoring { pasted: bool },
    Typing,
    Over,
}

/// What is to be done outside.
pub enum InjectAction {
    /// Find out whether the focused field is secure: `Yes` or `No`.
    CheckSecureField,
    /// Open the clipboard and save what it holds: `Clipboard`, or `No` where it
    /// cannot be opened or what it holds cannot be saved.
    OpenClipboard,
    /// `Yes` or `No`.
    WriteClipboard(String),
    /// Send one stroke: `Yes` or `No`.
    Press(KeyStroke),
    /// Wait for [`CLIPBOARD_RESTORE_DELAY_MILLIS`].
    Settle,
    /// Put this back into the clipboard; clear it where it was empty.
    RestoreClipboard(Saved),
    /// Type the text: `Yes` or `No`.
    TypeText(String),
    Finish(InjectOutcome),
}

/// How an insertion ended.
#[derive(Debug, Clone, Copy, PartialEq, Eq, Structural)]
pub enum InjectOutcome {
    Inserted,
    /// The focused field is secure: nothing was inserted.
    SecureField,
    /// The text could be neither pasted nor typed.
    Failed,
}

/// What came of an action.
pub enum Reply {
    Yes,
    No,
    /// The clipboard is open, and this is what it holds.
    Clipboard(Saved),
}

pub ghost enum Answer {
    Yes,
    No,
    Clipboard(Contents),
}

impl View for Reply {
    type V = Answer;

    open spec fn view(&self) -> Answer {
        match *self {
            Reply::Yes => Answer::Yes,
            Reply::No => Answer::No,
            Reply::Clipboard(saved) => Answer::Clipboard(saved@),
        }
    }
}

pub ghost enum Ask {
    CheckSecureField,
    OpenClipboard,
    WriteClipboard(Seq<char>),
    Press(KeyStroke),
    Settle,
    RestoreClipboard(Contents),
    TypeText(Seq<char>),
    Finish(InjectOutcome),
}

impl View for InjectAction {
    type V = Ask;

    open spec fn view(&self) -> Ask {
        match *self {
            InjectAction::CheckSecureField => Ask::CheckSecureField,
            InjectAction::OpenClipboard => Ask::OpenClipboard,
            InjectAction::WriteClipboard(text) => Ask::WriteClipboard(text@),
            InjectAction::Press(stroke) => Ask::Press(stroke),
            InjectAction::Settle => Ask::Settle,
            InjectAction::RestoreClipboard(saved) => Ask::RestoreClipboard(saved@),
            InjectAction::TypeText(text) => Ask::TypeText(text@),
            InjectAction::Finish(outcome) => Ask::Finish(outcome),
        }
    }
}

/// How an insertion of `text` begins.
pub open spec fn begun(text: Seq<char>) -> (Inserting, Ask) {
    if text.len() == 0 {
        (Inserting::Over, Ask::Finish(InjectOutcome::Inserted))
    } else {
        (Inserting::Checking, Ask::CheckSecureField)
    }
}

/// The next stroke of the paste, or, after the last or a press that failed, time
/// for the target.
pub open spec fn pasting(
    macos: bool,
    previous: Contents,
    sent: int,
    intact: bool,
    over: bool,
) -> (Inserting, Ask) {
    if over || sent >= PASTE_STROKES {
        (Inserting::Settling { previous, pasted: intact }, Ask::Settle)
    } else {
        (Inserting::Chord { previous, sent, intact }, Ask::Press(paste_chord(macos)[sent]))
    }
}

/// How an insertion goes on after an answer.
pub open spec fn gone_on(text: Seq<char>, macos: bool, at: Inserting, answer: Answer) -> (
    Inserting,
    Ask,
) {
    match at {
        Inserting::Checking => if answer is Yes {
            (Inserting::Over, Ask::Finish(InjectOutcome::SecureField))
        } else {
            (Inserting::Opening, Ask::OpenClipboard)
        },
        Inserting::Opening => match answer {
            Answer::Clipboard(previous) => (
                Inserting::Writing { previous },
                Ask::WriteClipboard(text),
            ),
            _ => (Inserting::Typing, Ask::TypeText(text)),
        },
        Inserting::Writing { previous } => if answer is Yes {
            pasting(macos, previous, 0, true, false)
        } else {
            (Inserting::Typing, Ask::TypeText(text))
        },
        Inserting::Chord { previous, sent, intact } => {
            let failed = !(answer is Yes) && sent >= 3;
            pasting(macos, previous, sent + 1, intact && !failed, failed && sent == 3)
        },
        Inserting::Settling { previous, pasted } => (
            Inserting::Restoring { pasted },
            Ask::RestoreClipboard(previous),
        ),
        Inserting::Restoring { pasted } => if pasted {
            (Inserting::Over, Ask::Finish(InjectOutcome::Inserted))
        } else {
            (Inserting::Typing, Ask::TypeText(text))
        },
        Inserting::Typing => (
            Inserting::Over,
            Ask::Finish(
                if answer is Yes {
                    InjectOutcome::Inserted
                } else {
                    InjectOutcome::Failed
                },
            ),
        ),
        Inserting::Over => (Inserting::Over, Ask::Finish(InjectOutcome::Failed)),
    }
}

/// One insertion.
pub struct Injection {
    text: String,
    macos: bool,
    stage: Stage,
}

impl View for Stage {
    type V = Inserting;

    closed spec fn view(&self) -> Inserting {
        match *self {
            Stage::Checking => Inserting::Checking,
            Stage::Opening => Inserting::Opening,
            Stage::Writing { previous } => Inserting::Writing {
                previous: previous@,
            },
            Stage::Chord { previous, sent, intact } => Inserting::Chord {
                previous: previous@,
                sent: sent as int,
                intact,
            },
            Stage::Settling { previous, pasted } => Inserting::Settling {
                previous: previous@,
                pasted,
            },
            Stage::Restoring { pasted } => Inserting::Restoring { pasted },
            Stage::Typing => Inserting::Typing,
            Stage::Over => Inserting::Over,
        }
    }
}

impl View for Injection {
    type V = Inserting;

    closed spec fn view(&self) -> Inserting {
        self.stage@
    }
}

impl Injection {
    pub closed spec fn wf(self) -> bool {
        self.stage matches Stage::Chord { sent, .. } ==> sent < PASTE_STROKES
    }

    pub closed spec fn to_insert(self) -> Seq<char> {
        self.text@
    }

    pub closed spec fn on_macos(self) -> bool {
        self.macos
    }

    /// Starts to insert `text`, where the paste key is that of macOS or not.
    pub fn begin(text: &str, macos: bool) -> (begun_as: (Self, InjectAction))
        ensures
            begun_as.0.wf(),
            begun_as.0.to_insert() == text@,
            begun_as.0.on_macos() == macos,
            (begun_as.0@, begun_as.1@) == begun(text@),
    {
        let owned = text.to_owned();
        if text.is_empty() {
            (
                Injection { text: owned, macos, stage: Stage::Over },
                InjectAction::Finish(InjectOutcome::Inserted),
            )
        } else {
            (
                Injection { text: owned, macos, stage: Stage::Checking },
                InjectAction::CheckSecureField,
            )
        }
    }

    fn paste_on(&mut self, previous: Saved, sent: usize, intact: bool, over: bool) -> (action:
        InjectAction)
        ensures
            final(self).wf(),
            final(self).to_insert() == old(self).to_insert(),
            final(self).on_macos() == old(self).on_macos(),
            (final(self)@, action@) == pasting(
                old(self).on_macos(),
                previous@,
                sent as int,
                intact,
                over,
            ),
    {
        if over || sent >= PASTE_STROKES {
            self.stage = Stage::Settling { previous, pasted: intact };
            InjectAction::Settle
        } else {
            self.stage = Stage::Chord { previous, sent, intact };
            InjectAction::Press(paste_stroke(self.macos, sent))
        }
    }

    fn type_text(&mut self) -> (action: InjectAction)
        ensures
            final(self).wf(),
            final(self).to_insert() == old(self).to_insert(),
            final(self).on_macos() == old(self).on_macos(),
            final(self)@ == Inserting::Typing,
            action@ == Ask::TypeText(old(self).to_insert()),
    {
        self.stage = Stage::Typing;
        InjectAction::TypeText(self.text.clone())
    }

    fn end(&mut self, outcome: InjectOutcome) -> (action: InjectAction)
        ensures
            final(self).wf(),
            final(self).to_insert() == old(self).to_insert(),
            final(self).on_macos() == old(self).on_macos(),
            final(self)@ == Inserting::Over,
            action@ == Ask::Finish(outcome),
    {
        self.stage = Stage::Over;
        InjectAction::Finish(outcome)
    }

    /// Takes in what came of the last action.
    pub fn proceed(&mut self, reply: Reply) -> (action: InjectAction)
        requires
            old(self).wf(),
        ensures
            final(self).wf(),
            final(self).to_insert() == old(self).to_insert(),
            final(self).on_macos() == old(self).on_macos(),
            (final(self)@, action@) == gone_on(
                old(self).to_insert(),
                old(self).on_macos(),
                old(self)@,
                reply@,
            ),
    {
        let yes = match &reply {
            Reply::Yes => true,
            _ => false,
        };
        let mut stage = Stage::Over;
        core::mem::swap(&mut stage, &mut self.stage);
        match stage {
            Stage::Checking => if yes {
                self.end(InjectOutcome::SecureField)
            } else {
                self.stage = Stage::Opening;
                InjectAction::OpenClipboard
            },
            Stage::Opening => match reply {
                Reply::Clipboard(previous) => {
                    self.stage = Stage::Writing { previous };
                    InjectAction::WriteClipboard(self.text.clone())
                },
                _ => self.type_text(),
            },
            Stage::Writing { previous } => if yes {
                self.paste_on(previous, 0, true, false)
            } else {
                self.type_text()
            },
            Stage::Chord { previous, sent, intact } => {
                let failed = !yes && sent >= 3;
                self.paste_on(previous, sent + 1, intact && !failed, failed && sent == 3)
            },
            Stage::Settling { previous, pasted } => {
                self.stage = Stage::Restoring { pasted };
                InjectAction::RestoreClipboard(previous)
            },
            Stage::Restoring { pasted } => if pasted {
                self.end(InjectOutcome::Inserted)
            } else {
                self.type_text()
            },
            Stage::Typing => if yes {
                self.end(InjectOutcome::Inserted)
            } else {
                self.end(InjectOutcome::Failed)
            },
            Stage::Over => self.end(InjectOutcome::Failed),
        }
    }
}

/// Whether the focused field hides what is typed, as a field for a password
/// does. `foreground` is the window in front, if any; `focus` is the control
/// in it that has the focus, if that could be asked, and if it has one;
/// `password_char` asks a control for the character it shows instead, which is
/// 0 for an ordinary one. Where there is nothing to ask, the answer is no.
pub fn is_focused_field_secure<F: Fn(isize) -> isize>(
    foreground: Option<isize>,
    focus: Option<Option<isize>>,
    password_char: F,
) -> (secure: bool)
    requires
        forall|control: isize| #[trigger] call_requires(password_char, (control,)),
    ensures
        foreground is None || focus is None ==> !secure,
        foreground is Some && focus is Some && focus->0 is Some ==> exists|shown: isize|
            #[trigger] call_ensures(password_char, (focus->0->0,), shown) && secure == (shown != 0),
        foreground is Some && focus is Some && focus->0 is None ==> exists|shown: isize|
            #[trigger] call_ensures(password_char, (foreground->0,), shown) && secure == (shown
                != 0),
        control_to_ask(foreground, focus) is None ==> !secure,
        control_to_ask(foreground, focus) matches Some(control) ==> exists|shown: isize|
            #[trigger] call_ensures(password_char, (control,), shown) && secure == (shown != 0),
{
    match (foreground, focus) {
        (Some(window), Some(control)) => {
            let asked: isize = match control {
                Some(control) => control,
                None => window,
            };
            let shown: isize = password_char(asked);
            shown != 0
        },
        _ => false,
    }
}

/// The control that has the focus, or else the window in front.
pub open spec fn control_to_ask(foreground: Option<isize>, focus: Option<Option<isize>>) -> Option<
    isize,
> {
    match (foreground, focus) {
        (Some(_), Some(Some(control))) => Some(control),
        (Some(window), Some(None)) => Some(window),
        _ => None,
    }
}

/// An insertion after `answers`.
pub open spec fn after_answers(text: Seq<char>, macos: bool, answers: Seq<Answer>) -> (
    Inserting,
    Ask,
)
    decreases answers.len(),
{
    if answers.len() == 0 {
        begun(text)
    } else {
        gone_on(text, macos, after_answers(text, macos, answers.drop_last()).0, answers.last())
    }
}

/// A secure field gets nothing: the first thing asked is whether the field is
/// secure, and where it is, that is the end of it.
pub proof fn law_a_secure_field_gets_nothing(text: Seq<char>, macos: bool, answers: Seq<Answer>)
    requires
        text.len() > 0,
        answers.len() > 0,
        answers[0] is Yes,
    ensures
        after_answers(text, macos, seq![]).1 == Ask::CheckSecureField,
        after_answers(text, macos, answers).0 == Inserting::Over,
        after_answers(text, macos, answers).1 is Finish,
        answers.len() == 1 ==> after_answers(text, macos, answers).1 == Ask::Finish(
            InjectOutcome::SecureField,
        ),
    decreases answers.len(),
{
    if answers.len() > 1 {
        law_a_secure_field_gets_nothing(text, macos, answers.drop_last());
    } else {
        assert(answers.drop_last() =~= seq![]);
    }
}

/// Whatever the chord did, the clipboard is restored to what it held, and only
/// then is the insertion over, or the text typed because the paste failed.
pub proof fn law_the_clipboard_is_restored(
    text: Seq<char>,
    macos: bool,
    previous: Contents,
    pasted: bool,
    sent: int,
    intact: bool,
    answer: Answer,
)
    ensures
        gone_on(text, macos, Inserting::Settling { previous, pasted }, answer).1
            == Ask::RestoreClipboard(previous),
        gone_on(text, macos, Inserting::Chord { previous, sent, intact }, answer).0 matches
            Inserting::Chord { previous: p, .. } ==> p == previous,
        gone_on(text, macos, Inserting::Chord { previous, sent, intact }, answer).0 matches
            Inserting::Settling { previous: p, .. } ==> p == previous,
        gone_on(text, macos, Inserting::Chord { previous, sent, intact }, answer).0 is Chord
            || gone_on(text, macos, Inserting::Chord { previous, sent, intact }, answer).0
            is Settling,
{
}

/// An insertion opens the clipboard after its first answer and no other, and
/// what it carries from there on is what the second answer saved.
proof fn lemma_carried_since_saved(text: Seq<char>, macos: bool, answers: Seq<Answer>)
    ensures
        ({
            let at = after_answers(text, macos, answers).0;
            let saved = if answers.len() >= 2 {
                answers[1]
            } else {
                Answer::No
            };
            match at {
                Inserting::Checking => answers.len() == 0,
                Inserting::Opening => answers.len() == 1,
                Inserting::Writing { previous } => saved == Answer::Clipboard(previous),
                Inserting::Chord { previous, .. } => saved == Answer::Clipboard(previous),
                Inserting::Settling { previous, .. } => saved == Answer::Clipboard(previous),
                _ => true,
            }
        }),
    decreases answers.len(),
{
    if answers.len() > 0 {
        let before = answers.drop_last();
        lemma_carried_since_saved(text, macos, before);
        if before.len() >= 2 {
            assert(before[1] == answers[1]);
        }
    }
}

/// However an insertion goes, what the clipboard is restored to is what it held
/// when it was opened: text, anything else, or nothing.
pub proof fn law_what_was_saved_is_restored(text: Seq<char>, macos: bool, answers: Seq<Answer>)
    ensures
        after_answers(text, macos, answers).1 matches Ask::RestoreClipboard(contents)
            ==> answers.len() >= 2 && answers[1] == Answer::Clipboard(contents),
{
    if answers.len() > 0 {
        let before = answers.drop_last();
        lemma_carried_since_saved(text, macos, before);
        if before.len() >= 2 {
            assert(before[1] == answers[1]);
        }
    }
}

/// The text is inserted once: it is typed only where the paste did not go
/// through, and once it went through nothing is typed.
pub proof fn law_text_is_inserted_once(text: Seq<char>, macos: bool, answer: Answer)
    ensures
        gone_on(text, macos, Inserting::Restoring { pasted: true }, answer) == (
            Inserting::Over,
            Ask::Finish(InjectOutcome::Inserted),
        ),
        gone_on(text, macos, Inserting::Restoring { pasted: false }, answer) == (
            Inserting::Typing,
            Ask::TypeText(text),
        ),
        gone_on(text, macos, Inserting::Typing, answer).0 == Inserting::Over,
{
}

proof fn lemma_over_is_over(text: Seq<char>, macos: bool, answers: Seq<Answer>, n: int, m: int)
    requires
        0 <= n <= m <= answers.len(),
        after_answers(text, macos, answers.take(n)).0 == Inserting::Over,
    ensures
        after_answers(text, macos, answers.take(m)).0 == Inserting::Over,
    decreases m - n,
{
    if n < m {
        lemma_over_is_over(text, macos, answers, n, m - 1);
        assert(answers.take(m).drop_last() =~= answers.take(m - 1));
    }
}

/// However an insertion goes, the text is typed once at most, and that is the
/// last that is done for it.
pub proof fn law_typing_is_the_last_resort(
    text: Seq<char>,
    macos: bool,
    answers: Seq<Answer>,
    n: int,
    m: int,
)
    requires
        0 <= n < m <= answers.len(),
        after_answers(text, macos, answers.take(n)).1 is TypeText,
    ensures
        after_answers(text, macos, answers.take(m)).1 is Finish,
{
    assert(answers.take(n + 1).drop_last() =~= answers.take(n));
    lemma_typing(text, macos, answers.take(n));
    assert(after_answers(text, macos, answers.take(n + 1)).0 == Inserting::Over);
    if n + 1 < m {
        lemma_over_is_over(text, macos, answers, n + 1, m - 1);
        assert(answers.take(m).drop_last() =~= answers.take(m - 1));
    }
}

proof fn lemma_typing(text: Seq<char>, macos: bool, answers: Seq<Answer>)
    requires
        after_answers(text, macos, answers).1 is TypeText,
    ensures
        after_answers(text, macos, answers).0 == Inserting::Typing,
{
}

/// Once the paste key is down it comes up again, whether or not the click went
/// through.
pub proof fn law_the_paste_key_is_released(
    text: Seq<char>,
    macos: bool,
    previous: Contents,
    intact: bool,
    click: Answer,
)
    ensures
        gone_on(text, macos, Inserting::Chord { previous, sent: 3, intact }, Answer::Yes).1
            == Ask::Press(KeyStroke { key: ChordKey::V, direction: KeyDirection::Click }),
        gone_on(text, macos, Inserting::Chord { previous, sent: 4, intact }, click).1 == Ask::Press(
            KeyStroke { key: modifier_of(macos), direction: KeyDirection::Release },
        ),
{
}

/// What is put into the clipboard, and what is typed, is the text that was to be
/// inserted, whole, whatever the answers.
pub proof fn law_nothing_but_the_text_is_inserted(
    text: Seq<char>,
    macos: bool,
    answers: Seq<Answer>,
)
    ensures
        after_answers(text, macos, answers).1 matches Ask::WriteClipboard(written) ==> written
            == text,
        after_answers(text, macos, answers).1 matches Ask::TypeText(typed) ==> typed == text,
{
}

proof fn lemma_one_answer_more(text: Seq<char>, macos: bool, answers: Seq<Answer>, n: int)
    requires
        0 <= n < answers.len(),
    ensures
        after_answers(text, macos, answers.take(n + 1)) == gone_on(
            text,
            macos,
            after_answers(text, macos, answers.take(n)).0,
            answers[n],
        ),
{
    assert(answers.take(n + 1).drop_last() =~= answers.take(n));
    assert(answers.take(n + 1).last() == answers[n]);
}

/// How an insertion begins: whether the field is secure, then the clipboard,
/// then the text into it. Without a clipboard to use the text is typed. There
/// is nothing to do for no text.
pub proof fn law_how_an_insertion_begins(text: Seq<char>, macos: bool, a: Seq<Answer>)
    ensures
        text.len() == 0 ==> after_answers(text, macos, a.take(0)).1 == Ask::Finish(
            InjectOutcome::Inserted,
        ),
        text.len() > 0 ==> after_answers(text, macos, a.take(0)).1 == Ask::CheckSecureField,
        text.len() > 0 && a.len() >= 1 && a[0] is Yes ==> after_answers(text, macos, a.take(1)).1
            == Ask::Finish(InjectOutcome::SecureField),
        text.len() > 0 && a.len() >= 1 && !(a[0] is Yes) ==> {
            &&& after_answers(text, macos, a.take(1)).1 == Ask::OpenClipboard
            &&& a.len() >= 2 && !(a[1] is Clipboard) ==> after_answers(text, macos, a.take(2)).1
                == Ask::TypeText(text)
            &&& a.len() >= 2 && a[1] is Clipboard ==> {
                &&& after_answers(text, macos, a.take(2)).1 == Ask::WriteClipboard(text)
                &&& a.len() >= 3 && !(a[2] is Yes) ==> after_answers(text, macos, a.take(3)).1
                    == Ask::TypeText(text)
            }
        },
{
    assert(a.take(0).len() == 0);
    if a.len() >= 1 {
        lemma_one_answer_more(text, macos, a, 0);
    }
    if a.len() >= 2 {
        lemma_one_answer_more(text, macos, a, 1);
    }
    if a.len() >= 3 {
        lemma_one_answer_more(text, macos, a, 2);
    }
}

/// How a paste goes that goes through: the keys a hand may still hold come up,
/// whether or not that works, then the paste key goes down, `V` is clicked and
/// the paste key comes up. Once the target has had its time the clipboard gets
/// back what it held, and the text is inserted.
pub proof fn law_how_a_paste_goes(text: Seq<char>, macos: bool, previous: Contents, a: Seq<Answer>)
    requires
        text.len() > 0,
        a.len() == 11,
        !(a[0] is Yes),
        a[1] == Answer::Clipboard(previous),
        a[2] is Yes,
        a[6] is Yes,
        a[7] is Yes,
        a[8] is Yes,
    ensures
        ({
            let key = if macos {
                ChordKey::Meta
            } else {
                ChordKey::Control
            };
            let up = KeyDirection::Release;
            &&& after_answers(text, macos, a.take(3)).1 == Ask::Press(
                KeyStroke { key: ChordKey::Shift, direction: up },
            )
            &&& after_answers(text, macos, a.take(4)).1 == Ask::Press(
                KeyStroke { key: ChordKey::Alt, direction: up },
            )
            &&& after_answers(text, macos, a.take(5)).1 == Ask::Press(
                KeyStroke { key: ChordKey::Meta, direction: up },
            )
            &&& after_answers(text, macos, a.take(6)).1 == Ask::Press(
                KeyStroke { key, direction: KeyDirection::Press },
            )
            &&& after_answers(text, macos, a.take(7)).1 == Ask::Press(
                KeyStroke { key: ChordKey::V, direction: KeyDirection::Click },
            )
            &&& after_answers(text, macos, a.take(8)).1 == Ask::Press(
                KeyStroke { key, direction: up },
            )
            &&& after_answers(text, macos, a.take(9)).1 == Ask::Settle
            &&& after_answers(text, macos, a.take(10)).1 == Ask::RestoreClipboard(previous)
            &&& after_answers(text, macos, a.take(11)).1 == Ask::Finish(InjectOutcome::Inserted)
        }),
{
    assert(a.take(0).len() == 0);
    lemma_one_answer_more(text, macos, a, 0);
    lemma_one_answer_more(text, macos, a, 1);
    lemma_one_answer_more(text, macos, a, 2);
    lemma_one_answer_more(text, macos, a, 3);
    lemma_one_answer_more(text, macos, a, 4);
    lemma_one_answer_more(text, macos, a, 5);
    lemma_one_answer_more(text, macos, a, 6);
    lemma_one_answer_more(text, macos, a, 7);
    lemma_one_answer_more(text, macos, a, 8);
    lemma_one_answer_more(text, macos, a, 9);
    lemma_one_answer_more(text, macos, a, 10);
}

/// How a paste goes on that does not go through: where the paste key does not go
/// down nothing is clicked; where the click or the release fails the key is
/// still let go. Either way the clipboard gets back what it held, and then the
/// text is typed.
pub proof fn law_how_a_failed_paste_goes_on(
    text: Seq<char>,
    macos: bool,
    previous: Contents,
    a: Seq<Answer>,
)
    requires
        text.len() > 0,
        a.len() == 11,
        !(a[0] is Yes),
        a[1] == Answer::Clipboard(previous),
        a[2] is Yes,
        !(a[6] is Yes && a[7] is Yes && a[8] is Yes),
    ensures
        !(a[6] is Yes) ==> {
            &&& after_answers(text, macos, a.take(7)).1 == Ask::Settle
            &&& after_answers(text, macos, a.take(8)).1 == Ask::RestoreClipboard(previous)
            &&& after_answers(text, macos, a.take(9)).1 == Ask::TypeText(text)
        },
        a[6] is Yes ==> {
            &&& after_answers(text, macos, a.take(7)).1 == Ask::Press(
                KeyStroke { key: ChordKey::V, direction: KeyDirection::Click },
            )
            &&& after_answers(text, macos, a.take(8)).1 == Ask::Press(
                KeyStroke {
                    key: if macos {
                        ChordKey::Meta
                    } else {
                        ChordKey::Control
                    },
                    direction: KeyDirection::Release,
                },
            )
            &&& after_answers(text, macos, a.take(9)).1 == Ask::Settle
            &&& after_answers(text, macos, a.take(10)).1 == Ask::RestoreClipboard(previous)
            &&& after_answers(text, macos, a.take(11)).1 == Ask::TypeText(text)
        },
{
    assert(a.take(0).len() == 0);
    lemma_one_answer_more(text, macos, a, 0);
    lemma_one_answer_more(text, macos, a, 1);
    lemma_one_answer_more(text, macos, a, 2);
    lemma_one_answer_more(text, macos, a, 3);
    lemma_one_answer_more(text, macos, a, 4);
    lemma_one_answer_more(text, macos, a, 5);
    lemma_one_answer_more(text, macos, a, 6);
    lemma_one_answer_more(text, macos, a, 7);
    lemma_one_answer_more(text, macos, a, 8);
    lemma_one_answer_more(text, macos, a, 9);
    lemma_one_answer_more(text, macos, a, 10);
}

/// How typing ends: the text is inserted where it could be typed, and otherwise
/// the insertion has failed.
pub proof fn law_how_typing_ends(text: Seq<char>, macos: bool, answers: Seq<Answer>, last: Answer)
    requires
        after_answers(text, macos, answers).1 is TypeText,
    ensures
        after_answers(text, macos, answers.push(last)).1 == Ask::Finish(
            if last is Yes {
                InjectOutcome::Inserted
            } else {
                InjectOutcome::Failed
            },
        ),
{
    lemma_typing(text, macos, answers);
    assert(answers.push(last).drop_last() =~= answers);
}

/// Actions, replies and what was saved mean what they hold.
pub proof fn law_what_actions_and_replies_mean(
    text: String,
    kept: u64,
    saved: Saved,
    stroke: KeyStroke,
    outcome: InjectOutcome,
)
    ensures
        Saved::Empty@ == Contents::Empty,
        Saved::Text(text)@ == Contents::Text(text@),
        Saved::Other(kept)@ == Contents::Other(kept),
        Reply::Yes@ == Answer::Yes,
        Reply::No@ == Answer::No,
        Reply::Clipboard(saved)@ == Answer::Clipboard(saved@),
        InjectAction::CheckSecureField@ == Ask::CheckSecureField,
        InjectAction::OpenClipboard@ == Ask::OpenClipboard,
        InjectAction::WriteClipboard(text)@ == Ask::WriteClipboard(text@),
        InjectAction::Press(stroke)@ == Ask::Press(stroke),
        InjectAction::Settle@ == Ask::Settle,
        InjectAction::RestoreClipboard(saved)@ == Ask::RestoreClipboard(saved@),
        InjectAction::TypeText(text)@ == Ask::TypeText(text@),
        InjectAction::Finish(outcome)@ == Ask::Finish(outcome),
        CLIPBOARD_RESTORE_DELAY_MILLIS == 50,
{
}

} // verus!
