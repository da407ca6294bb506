//! Getting at the selected text: through the accessibility interface where an app supports it, and
//! else through the clipboard, whose contents are kept and put back, text or not.
//!
//! Each of the four procedures is a state machine: its state, or `pending`, says what is to be done
//! next, and `next` takes in what came of it.

use crate::text::{
    all_white, chars_of, law_blank_text_is_white, same_text, text_if, trim, trim_of,
};
use vstd::prelude::*;

verus! {

/// What stands in the clipboard until the copied selection replaces it.
pub const SENTINEL: &'static str = "__otoha_capture__";

/// How many times the clipboard is looked at for the copied selection.
pub const MAX_POLLS: u32 = 30;

/// How long to rest before each look, in milliseconds.
pub const POLL_MILLIS: u64 = 20;

/// How many times the modifier keys are looked at.
pub const MAX_CHECKS: u32 = 50;

/// How long to rest after a look that found one held, in milliseconds.
pub const CHECK_MILLIS: u64 = 10;

/// The flags of the command, option, control and shift keys.
pub const MODIFIERS: u64 = 0x10_0000 | 0x8_0000 | 0x4_0000 | 0x2_0000;

/// The key code of the letter C.
pub const COPY_KEY_CODE: u16 = 8;

/// The flags that the letter C is pressed with: that of the command key.
pub const COPY_KEY_FLAGS: u64 = 0x10_0000;

/// How long the copy key is held, in milliseconds.
pub const COPY_KEY_MILLIS: u64 = 8;

/// What an accessibility call returns when it succeeds.
pub const AX_SUCCESS: i32 = 0;

// ---- the modifier keys -------------------------------------------------------------------------

/// Whether `flags` says that a modifier key is held.
pub fn modifiers_held(flags: u64) -> (r: bool)
    ensures
        r == (flags & MODIFIERS != 0),
{
    flags & MODIFIERS != 0
}

/// The wait for the modifier keys to be released.
#[derive(Clone, Copy, Debug, PartialEq, Eq, Structural)]
pub enum ModifierWait {
    /// The keys are to be looked at, after this many looks.
    Check { checks: u32 },
    /// A key is held: a rest is due.
    Pause { checks: u32 },
    /// The wait is over.
    Finished,
}

/// What came of a look at the keys, or of a rest.
#[derive(Clone, Copy, Debug, PartialEq, Eq, Structural)]
pub enum ModifierReply {
    /// The rest is over.
    Done,
    /// The flags of the keys.
    Flags(u64),
}

impl ModifierWait {
    /// The wait after `reply`. A reply that is not called for changes nothing.
    pub open spec fn after(self, reply: ModifierReply) -> Self {
        match (self, reply) {
            (ModifierWait::Check { checks }, ModifierReply::Flags(flags)) => if flags & MODIFIERS
                == 0 {
                ModifierWait::Finished
            } else {
                ModifierWait::Pause { checks }
            },
            (ModifierWait::Pause { checks }, ModifierReply::Done) => if checks + 1 < MAX_CHECKS {
                ModifierWait::Check { checks: (checks + 1) as u32 }
            } else {
                ModifierWait::Finished
            },
            _ => self,
        }
    }

    /// The wait after all of `replies`.
    pub open spec fn after_all(replies: Seq<ModifierReply>) -> Self
        decreases replies.len(),
    {
        if replies.len() == 0 {
            ModifierWait::Check { checks: 0 }
        } else {
            Self::after_all(replies.drop_last()).after(replies.last())
        }
    }

    /// The wait before the first look.
    pub fn start() -> (r: Self)
        ensures
            r == Self::after_all(seq![]),
    {
        ModifierWait::Check { checks: 0 }
    }

    /// Takes in what came of a look or a rest.
    pub fn next(self, reply: ModifierReply) -> (r: Self)
        ensures
            r == self.after(reply),
    {
        match (self, reply) {
            (ModifierWait::Check { checks }, ModifierReply::Flags(flags)) => if modifiers_held(
                flags,
            ) {
                ModifierWait::Pause { checks }
            } else {
                ModifierWait::Finished
            },
            (ModifierWait::Pause { checks }, ModifierReply::Done) => if checks < MAX_CHECKS - 1 {
                ModifierWait::Check { checks: checks + 1 }
            } else {
                ModifierWait::Finished
            },
            (wait, _) => wait,
        }
    }
}

/// The number of looks that were taken among `replies`.
pub open spec fn looks(replies: Seq<ModifierReply>) -> int
    decreases replies.len(),
{
    if replies.len() == 0 {
        0
    } else {
        looks(replies.drop_last()) + (if ModifierWait::after_all(replies.drop_last()) is Check
            && replies.last() is Flags {
            1int
        } else {
            0
        })
    }
}

proof fn lemma_looks(replies: Seq<ModifierReply>)
    ensures
        match ModifierWait::after_all(replies) {
            ModifierWait::Check { checks } => looks(replies) == checks && checks < MAX_CHECKS,
            ModifierWait::Pause { checks } => looks(replies) == checks + 1 && checks < MAX_CHECKS,
            ModifierWait::Finished => 1 <= looks(replies) <= MAX_CHECKS,
        },
    decreases replies.len(),
{
    if replies.len() > 0 {
        lemma_looks(replies.drop_last());
    }
}

/// The wait never takes more than fifty looks.
pub proof fn law_wait_is_bounded(replies: Seq<ModifierReply>)
    ensures
        looks(replies) <= MAX_CHECKS,
{
    lemma_looks(replies);
}

/// The wait ends at the first look that finds no key held, and before the last look at no other.
pub proof fn law_wait_ends_on_release(checks: u32, flags: u64)
    requires
        checks < MAX_CHECKS,
    ensures
        (ModifierWait::Check { checks }).after(ModifierReply::Flags(flags)) is Finished <==> flags
            & MODIFIERS == 0,
        (ModifierWait::Pause { checks }).after(ModifierReply::Done) is Finished <==> checks + 1
            == MAX_CHECKS,
{
}

/// A modifier key is held exactly if one of the four flags is set.
pub proof fn law_four_modifiers(flags: u64)
    ensures
        flags & MODIFIERS != 0 <==> flags & 0x10_0000 != 0 || flags & 0x8_0000 != 0 || flags
            & 0x4_0000 != 0 || flags & 0x2_0000 != 0,
{
    assert(flags & (0x10_0000u64 | 0x8_0000 | 0x4_0000 | 0x2_0000) != 0 <==> flags & 0x10_0000 != 0
        || flags & 0x8_0000 != 0 || flags & 0x4_0000 != 0 || flags & 0x2_0000 != 0) by (bit_vector);
}

/// Whether `flags` says that the command, option, control or shift key is held.
pub open spec fn some_held(flags: u64) -> bool {
    ||| flags & 0x10_0000 != 0
    ||| flags & 0x8_0000 != 0
    ||| flags & 0x4_0000 != 0
    ||| flags & 0x2_0000 != 0
}

/// What the looks at the keys among `replies` have found, in order.
pub open spec fn flags_seen(replies: Seq<ModifierReply>) -> Seq<u64>
    decreases replies.len(),
{
    if replies.len() == 0 {
        seq![]
    } else {
        let before = flags_seen(replies.drop_last());
        match (ModifierWait::after_all(replies.drop_last()), replies.last()) {
            (ModifierWait::Check { .. }, ModifierReply::Flags(flags)) => before.push(flags),
            _ => before,
        }
    }
}

/// The wait goes on as long as a key is held, and no longer: every look before the last has found
/// one held. It is over once a look has found none, or after fifty looks, and not before.
pub proof fn law_wait_goes_on_while_a_key_is_held(replies: Seq<ModifierReply>)
    ensures
        flags_seen(replies).len() == looks(replies),
        flags_seen(replies).len() <= 50,
        forall|i: int| 0 <= i < flags_seen(replies).len() - 1 ==> some_held(
            #[trigger] flags_seen(replies)[i],
        ),
        match ModifierWait::after_all(replies) {
            ModifierWait::Finished => flags_seen(replies).len() > 0 && (!some_held(
                flags_seen(replies).last(),
            ) || flags_seen(replies).len() == 50),
            ModifierWait::Check { .. } => flags_seen(replies).len() < 50 && (flags_seen(
                replies,
            ).len() > 0 ==> some_held(flags_seen(replies).last())),
            ModifierWait::Pause { .. } => flags_seen(replies).len() > 0 && some_held(
                flags_seen(replies).last(),
            ),
        },
    decreases replies.len(),
{
    if replies.len() > 0 {
        law_wait_goes_on_while_a_key_is_held(replies.drop_last());
        lemma_looks(replies.drop_last());
        lemma_looks(replies);
        if let ModifierReply::Flags(flags) = replies.last() {
            law_four_modifiers(flags);
        }
    }
}

// ---- the accessibility interface ---------------------------------------------------------------

/// Reading the selected text of the focused element, with texts of type `T`.
pub enum AxRead<T> {
    /// The reference to the whole system is to be created.
    CreateSystem,
    /// The focused element is to be copied out of it.
    CopyFocused,
    /// The reference to the system is to be released; `found` says whether there is an element.
    ReleaseSystem { found: bool },
    /// The selected text is to be copied out of the element.
    CopySelected,
    /// The reference to the element is to be released; `found` says whether there is a text.
    ReleaseFocused { found: bool },
    /// The text is to be taken over, its reference with it.
    TakeText,
    /// The reading is over, with this text.
    Finished { text: Option<T> },
}

/// What came of a step.
pub enum AxReply<T> {
    /// The reference is released.
    Done,
    /// A reference was created; it may be null.
    Created { null: bool },
    /// An attribute was copied, with this error code; the value may be null.
    Copied { error: i32, null: bool },
    /// The text.
    Text(T),
}

impl View for AxRead<String> {
    type V = AxRead<Seq<char>>;

    open spec fn view(&self) -> AxRead<Seq<char>> {
        match self {
            AxRead::CreateSystem => AxRead::CreateSystem,
            AxRead::CopyFocused => AxRead::CopyFocused,
            AxRead::ReleaseSystem { found } => AxRead::ReleaseSystem { found: *found },
            AxRead::CopySelected => AxRead::CopySelected,
            AxRead::ReleaseFocused { found } => AxRead::ReleaseFocused { found: *found },
            AxRead::TakeText => AxRead::TakeText,
            AxRead::Finished { text } => AxRead::Finished { text: text_if(*text) },
        }
    }
}

impl View for AxReply<String> {
    type V = AxReply<Seq<char>>;

    open spec fn view(&self) -> AxReply<Seq<char>> {
        match self {
            AxReply::Done => AxReply::Done,
            AxReply::Created { null } => AxReply::Created { null: *null },
            AxReply::Copied { error, null } => AxReply::Copied { error: *error, null: *null },
            AxReply::Text(t) => AxReply::Text(t@),
        }
    }
}

/// `text` unless it is blank.
pub open spec fn unless_blank(text: Seq<char>) -> Option<Seq<char>> {
    if trim_of(text).len() > 0 {
        Some(text)
    } else {
        None
    }
}

/// `text` unless it is blank.
pub fn if_not_blank(text: String) -> (r: Option<String>)
    ensures
        text_if(r) == unless_blank(text@),
{
    let c = chars_of(text.as_str());
    if trim(c.as_slice()).len() > 0 {
        Some(text)
    } else {
        None
    }
}

impl AxRead<Seq<char>> {
    /// The reading after `reply`. A reply that is not called for changes nothing.
    pub open spec fn after(self, reply: AxReply<Seq<char>>) -> Self {
        match (self, reply) {
            (AxRead::CreateSystem, AxReply::Created { null }) => if null {
                AxRead::Finished { text: None }
            } else {
                AxRead::CopyFocused
            },
            (AxRead::CopyFocused, AxReply::Copied { error, null }) => AxRead::ReleaseSystem {
                found: error == AX_SUCCESS && !null,
            },
            (AxRead::ReleaseSystem { found }, AxReply::Done) => if found {
                AxRead::CopySelected
            } else {
                AxRead::Finished { text: None }
            },
            (AxRead::CopySelected, AxReply::Copied { error, null }) => AxRead::ReleaseFocused {
                found: error == AX_SUCCESS && !null,
            },
            (AxRead::ReleaseFocused { found }, AxReply::Done) => if found {
                AxRead::TakeText
            } else {
                AxRead::Finished { text: None }
            },
            (AxRead::TakeText, AxReply::Text(t)) => AxRead::Finished { text: unless_blank(t) },
            _ => self,
        }
    }

    /// The reading after all of `replies`.
    pub open spec fn after_all(replies: Seq<AxReply<Seq<char>>>) -> Self
        decreases replies.len(),
    {
        if replies.len() == 0 {
            AxRead::CreateSystem
        } else {
            Self::after_all(replies.drop_last()).after(replies.last())
        }
    }
}

impl AxRead<String> {
    /// The reading before its first step.
    pub fn start() -> (r: Self)
        ensures
            r@ == AxRead::<Seq<char>>::after_all(seq![]),
    {
        AxRead::CreateSystem
    }

    /// Takes in what came of the step.
    pub fn next(self, reply: AxReply<String>) -> (r: Self)
        ensures
            r@ == self@.after(reply@),
    {
        match (self, reply) {
            (AxRead::CreateSystem, AxReply::Created { null }) => if null {
                AxRead::Finished { text: None }
            } else {
                AxRead::CopyFocused
            },
            (AxRead::CopyFocused, AxReply::Copied { error, null }) => AxRead::ReleaseSystem {
                found: error == AX_SUCCESS && !null,
            },
            (AxRead::ReleaseSystem { found }, AxReply::Done) => if found {
                AxRead::CopySelected
            } else {
                AxRead::Finished { text: None }
            },
            (AxRead::CopySelected, AxReply::Copied { error, null }) => AxRead::ReleaseFocused {
                found: error == AX_SUCCESS && !null,
            },
            (AxRead::ReleaseFocused { found }, AxReply::Done) => if found {
                AxRead::TakeText
            } else {
                AxRead::Finished { text: None }
            },
            (AxRead::TakeText, AxReply::Text(t)) => AxRead::Finished { text: if_not_blank(t) },
            (read, _) => read,
        }
    }
}

/// The references to the system, the element and the text that are held after `replies`, as a count
/// of each: one more for every reference that was handed out, one less for every one that was
/// released or taken over.
pub open spec fn references(replies: Seq<AxReply<Seq<char>>>) -> (int, int, int)
    decreases replies.len(),
{
    if replies.len() == 0 {
        (0, 0, 0)
    } else {
        let (system, element, text) = references(replies.drop_last());
        match (AxRead::<Seq<char>>::after_all(replies.drop_last()), replies.last()) {
            (AxRead::CreateSystem, AxReply::Created { null: false }) => (system + 1, element, text),
            (AxRead::CopyFocused, AxReply::Copied { error, null: false }) if error
                == AX_SUCCESS => (system, element + 1, text),
            (AxRead::ReleaseSystem { .. }, AxReply::Done) => (system - 1, element, text),
            (AxRead::CopySelected, AxReply::Copied { error, null: false }) if error
                == AX_SUCCESS => (system, element, text + 1),
            (AxRead::ReleaseFocused { .. }, AxReply::Done) => (system, element - 1, text),
            (AxRead::TakeText, AxReply::Text(_)) => (system, element, text - 1),
            _ => (system, element, text),
        }
    }
}

/// At every step of the reading it is known which references are held; once it is over, none is.
pub proof fn law_references_are_released(replies: Seq<AxReply<Seq<char>>>)
    ensures
        references(replies) == (match AxRead::<Seq<char>>::after_all(replies) {
            AxRead::CreateSystem => (0int, 0int, 0int),
            AxRead::CopyFocused => (1, 0, 0),
            AxRead::ReleaseSystem { found } => (
                1,
                if found {
                    1
                } else {
                    0
                },
                0,
            ),
            AxRead::CopySelected => (0, 1, 0),
            AxRead::ReleaseFocused { found } => (
                0,
                1,
                if found {
                    1
                } else {
                    0
                },
            ),
            AxRead::TakeText => (0, 0, 1),
            AxRead::Finished { .. } => (0, 0, 0),
        }),
    decreases replies.len(),
{
    if replies.len() > 0 {
        law_references_are_released(replies.drop_last());
    }
}

/// A text that the reading ends with is not blank.
pub proof fn law_read_text_is_not_blank(replies: Seq<AxReply<Seq<char>>>)
    ensures
        AxRead::<Seq<char>>::after_all(replies) matches AxRead::Finished { text: Some(t) }
            ==> trim_of(t).len() > 0,
    decreases replies.len(),
{
    if replies.len() > 0 {
        law_read_text_is_not_blank(replies.drop_last());
    }
}

/// A text is dropped exactly if all of it is white space, and is else kept as it is.
pub proof fn law_blank_text_is_dropped(text: Seq<char>)
    ensures
        all_white(text) ==> unless_blank(text) is None,
        !all_white(text) ==> unless_blank(text) == Some(text),
{
    law_blank_text_is_white(text);
}

/// The text that was handed over among `replies`, if one was.
pub open spec fn handed_over(replies: Seq<AxReply<Seq<char>>>) -> Option<Seq<char>>
    decreases replies.len(),
{
    if replies.len() == 0 {
        None
    } else {
        match (AxRead::<Seq<char>>::after_all(replies.drop_last()), replies.last()) {
            (AxRead::TakeText, AxReply::Text(t)) => Some(t),
            _ => handed_over(replies.drop_last()),
        }
    }
}

/// The reading ends with exactly the text that was handed over, character for character, unless all
/// of it is white space; then, and where none was handed over, it ends with none.
pub proof fn law_text_is_taken_as_it_is(replies: Seq<AxReply<Seq<char>>>)
    ensures
        AxRead::<Seq<char>>::after_all(replies) matches AxRead::Finished { text } ==> (match (
            handed_over(replies),
            text,
        ) {
            (Some(t), Some(r)) => r == t && !all_white(t),
            (Some(t), None) => all_white(t),
            (None, r) => r is None,
        }),
        !(AxRead::<Seq<char>>::after_all(replies) is Finished) ==> handed_over(replies) is None,
    decreases replies.len(),
{
    if replies.len() > 0 {
        law_text_is_taken_as_it_is(replies.drop_last());
        if let AxReply::Text(t) = replies.last() {
            law_blank_text_is_dropped(t);
        }
    }
}

/// A reading of which every step is answered, whatever the answers are, is over and has the text of
/// the focused element exactly if there is a reference to the system, both attributes could be
/// copied, and the text is not blank.
pub proof fn law_reading_of_the_focused_element(
    null: bool,
    focused: (i32, bool),
    selected: (i32, bool),
    t: Seq<char>,
)
    ensures
        AxRead::<Seq<char>>::after_all(
            seq![
                AxReply::Created { null },
                AxReply::Copied { error: focused.0, null: focused.1 },
                AxReply::Done,
                AxReply::Copied { error: selected.0, null: selected.1 },
                AxReply::Done,
                AxReply::Text(t),
            ],
        ) == (AxRead::<Seq<char>>::Finished {
            text: if !null && focused == (0i32, false) && selected == (0i32, false) && !all_white(
                t,
            ) {
                Some(t)
            } else {
                None
            },
        }),
{
    let r1 = seq![AxReply::<Seq<char>>::Created { null }];
    let r2 = r1.push(AxReply::Copied { error: focused.0, null: focused.1 });
    let r3 = r2.push(AxReply::Done);
    let r4 = r3.push(AxReply::Copied { error: selected.0, null: selected.1 });
    let r5 = r4.push(AxReply::Done);
    let r6 = r5.push(AxReply::Text(t));
    assert(r1.drop_last() =~= Seq::<AxReply<Seq<char>>>::empty());
    assert(r2.drop_last() =~= r1);
    assert(r3.drop_last() =~= r2);
    assert(r4.drop_last() =~= r3);
    assert(r5.drop_last() =~= r4);
    assert(r6.drop_last() =~= r5);
    reveal_with_fuel(AxRead::<_>::after_all, 7);
    law_blank_text_is_dropped(t);
    assert(r6 =~= seq![
        AxReply::Created { null },
        AxReply::Copied { error: focused.0, null: focused.1 },
        AxReply::Done,
        AxReply::Copied { error: selected.0, null: selected.1 },
        AxReply::Done,
        AxReply::Text(t),
    ]);
}

/// A reply that is not called for has no say in the reading, and what the reading ended with stays.
pub proof fn law_reading_heeds_only_answers(read: AxRead<Seq<char>>, reply: AxReply<Seq<char>>)
    requires
        match read {
            AxRead::CreateSystem => !(reply is Created),
            AxRead::CopyFocused | AxRead::CopySelected => !(reply is Copied),
            AxRead::ReleaseSystem { .. } | AxRead::ReleaseFocused { .. } => !(reply is Done),
            AxRead::TakeText => !(reply is Text),
            AxRead::Finished { .. } => true,
        },
    ensures
        read.after(reply) == read,
{
}

// ---- the copy key ------------------------------------------------------------------------------

/// Pressing the copy key: the letter C together with the command key.
#[derive(Clone, Copy, Debug, PartialEq, Eq, Structural)]
pub enum CopyPress {
    /// An event source each for the key's way down and up is to be made.
    MakeSources,
    /// The events of the key going down and up are to be made, with `COPY_KEY_CODE` and
    /// `COPY_KEY_FLAGS`.
    MakeEvents,
    /// The event of the key going down is to be posted.
    PostDown,
    /// The key is to be held for `COPY_KEY_MILLIS`.
    Hold,
    /// The event of the key going up is to be posted.
    PostUp,
    /// It is over.
    Finished,
}

/// What came of a step.
#[derive(Clone, Copy, Debug, PartialEq, Eq, Structural)]
pub enum PressReply {
    /// Whether what the way down and the way up need could be made.
    Made { down: bool, up: bool },
    /// It is done.
    Done,
}

/// What is posted of a key.
#[derive(Clone, Copy, Debug, PartialEq, Eq, Structural)]
pub enum KeyEvent {
    Down,
    Up,
}

impl CopyPress {
    /// The press after `reply`. A reply that is not called for changes nothing.
    pub open spec fn after(self, reply: PressReply) -> Self {
        match (self, reply) {
            (CopyPress::MakeSources, PressReply::Made { down, up }) => if down && up {
                CopyPress::MakeEvents
            } else {
                CopyPress::Finished
            },
            (CopyPress::MakeEvents, PressReply::Made { down, up }) => if down && up {
                CopyPress::PostDown
            } else {
                CopyPress::Finished
            },
            (CopyPress::PostDown, PressReply::Done) => CopyPress::Hold,
            (CopyPress::Hold, PressReply::Done) => CopyPress::PostUp,
            (CopyPress::PostUp, PressReply::Done) => CopyPress::Finished,
            _ => self,
        }
    }

    /// The press after all of `replies`.
    pub open spec fn after_all(replies: Seq<PressReply>) -> Self
        decreases replies.len(),
    {
        if replies.len() == 0 {
            CopyPress::MakeSources
        } else {
            Self::after_all(replies.drop_last()).after(replies.last())
        }
    }

    /// The press before its first step.
    pub fn start() -> (r: Self)
        ensures
            r == Self::after_all(seq![]),
    {
        CopyPress::MakeSources
    }

    /// Takes in what came of the step.
    pub fn next(self, reply: PressReply) -> (r: Self)
        ensures
            r == self.after(reply),
    {
        match (self, reply) {
            (CopyPress::MakeSources, PressReply::Made { down, up }) => if down && up {
                CopyPress::MakeEvents
            } else {
                CopyPress::Finished
            },
            (CopyPress::MakeEvents, PressReply::Made { down, up }) => if down && up {
                CopyPress::PostDown
            } else {
                CopyPress::Finished
            },
            (CopyPress::PostDown, PressReply::Done) => CopyPress::Hold,
            (CopyPress::Hold, PressReply::Done) => CopyPress::PostUp,
            (CopyPress::PostUp, PressReply::Done) => CopyPress::Finished,
            (press, _) => press,
        }
    }
}

/// The events that were posted among `replies`, in order.
pub open spec fn posted(replies: Seq<PressReply>) -> Seq<KeyEvent>
    decreases replies.len(),
{
    if replies.len() == 0 {
        seq![]
    } else {
        let before = posted(replies.drop_last());
        match (CopyPress::after_all(replies.drop_last()), replies.last()) {
            (CopyPress::PostDown, PressReply::Done) => before.push(KeyEvent::Down),
            (CopyPress::PostUp, PressReply::Done) => before.push(KeyEvent::Up),
            _ => before,
        }
    }
}

/// What came of the steps that make something, in order.
pub open spec fn made(replies: Seq<PressReply>) -> Seq<bool>
    decreases replies.len(),
{
    if replies.len() == 0 {
        seq![]
    } else {
        let before = made(replies.drop_last());
        match (CopyPress::after_all(replies.drop_last()), replies.last()) {
            (
                CopyPress::MakeSources | CopyPress::MakeEvents,
                PressReply::Made { down, up },
            ) => before.push(down && up),
            _ => before,
        }
    }
}

proof fn lemma_press(replies: Seq<PressReply>)
    ensures
        match CopyPress::after_all(replies) {
            CopyPress::MakeSources => posted(replies).len() == 0 && made(replies).len() == 0,
            CopyPress::MakeEvents => posted(replies).len() == 0 && made(replies) == seq![true],
            CopyPress::PostDown => posted(replies).len() == 0 && made(replies) == seq![true, true],
            CopyPress::Hold | CopyPress::PostUp => posted(replies) == seq![KeyEvent::Down] && made(
                replies,
            ) == seq![true, true],
            CopyPress::Finished => if made(replies) == seq![true, true] {
                posted(replies) == seq![KeyEvent::Down, KeyEvent::Up]
            } else {
                posted(replies).len() == 0 && (made(replies) == seq![false] || made(replies)
                    == seq![true, false])
            },
        },
    decreases replies.len(),
{
    if replies.len() > 0 {
        lemma_press(replies.drop_last());
        assert(seq![false].len() == 1 && seq![true, true].len() == 2);
        assert(seq![true, true][1] != seq![true, false][1]);
    }
}

/// A key that goes down goes up again: a press that is over has posted both events, down before up,
/// or neither, and both exactly where everything that they need could be made. A press that has
/// posted the key going down and not yet up is not over.
pub proof fn law_key_goes_up_again(replies: Seq<PressReply>)
    ensures
        CopyPress::after_all(replies) is Finished ==> posted(replies) == (if made(replies) == seq![
            true,
            true,
        ] {
            seq![KeyEvent::Down, KeyEvent::Up]
        } else {
            seq![]
        }),
        posted(replies).is_prefix_of(seq![KeyEvent::Down, KeyEvent::Up]),
        posted(replies) == seq![KeyEvent::Down] ==> CopyPress::after_all(replies) is Hold
            || CopyPress::after_all(replies) is PostUp,
{
    lemma_press(replies);
    assert(seq![KeyEvent::Down].len() == 1 && seq![KeyEvent::Down, KeyEvent::Up].len() == 2);
}

/// A press of which every step is answered, whatever the answers are, is over, and has posted the
/// key going down and then up exactly if both sources and both events could be made.
pub proof fn law_press_posts_both_or_neither(sources: (bool, bool), events: (bool, bool))
    ensures
        ({
            let replies = seq![
                PressReply::Made { down: sources.0, up: sources.1 },
                PressReply::Made { down: events.0, up: events.1 },
                PressReply::Done,
                PressReply::Done,
                PressReply::Done,
            ];
            &&& CopyPress::after_all(replies) is Finished
            &&& posted(replies) == (if sources == (true, true) && events == (true, true) {
                seq![KeyEvent::Down, KeyEvent::Up]
            } else {
                seq![]
            })
        }),
{
    let r1 = seq![PressReply::Made { down: sources.0, up: sources.1 }];
    let r2 = r1.push(PressReply::Made { down: events.0, up: events.1 });
    let r3 = r2.push(PressReply::Done);
    let r4 = r3.push(PressReply::Done);
    let r5 = r4.push(PressReply::Done);
    assert(r1.drop_last() =~= Seq::<PressReply>::empty());
    assert(r2.drop_last() =~= r1);
    assert(r3.drop_last() =~= r2);
    assert(r4.drop_last() =~= r3);
    assert(r5.drop_last() =~= r4);
    reveal_with_fuel(CopyPress::after_all, 6);
    reveal_with_fuel(posted, 6);
    assert(r5 =~= seq![
        PressReply::Made { down: sources.0, up: sources.1 },
        PressReply::Made { down: events.0, up: events.1 },
        PressReply::Done,
        PressReply::Done,
        PressReply::Done,
    ]);
}

/// The number of steps that a press may still take.
pub open spec fn press_steps_left(press: CopyPress) -> int {
    match press {
        CopyPress::MakeSources => 5,
        CopyPress::MakeEvents => 4,
        CopyPress::PostDown => 3,
        CopyPress::Hold => 2,
        CopyPress::PostUp => 1,
        CopyPress::Finished => 0,
    }
}

/// Every reply that is called for brings a press nearer to its end.
pub proof fn law_press_ends(press: CopyPress, reply: PressReply)
    requires
        press != CopyPress::Finished,
        press is MakeSources || press is MakeEvents <==> reply is Made,
    ensures
        0 <= press_steps_left(press.after(reply)) < press_steps_left(press),
{
}

// ---- what the clipboard holds ------------------------------------------------------------------

/// What a clipboard holds, with texts of type `T`.
#[derive(Debug)]
pub enum Held<T> {
    /// Text, and no data of any other format.
    Text(T),
    /// Data of formats, such as files, an image or formatted text, and the text that stands among
    /// them, if any. Whoever takes the data out of the clipboard keeps it, to put it back later.
    Formats(Option<T>),
    /// Nothing.
    Nothing,
}

impl View for Held<String> {
    type V = Held<Seq<char>>;

    open spec fn view(&self) -> Held<Seq<char>> {
        match self {
            Held::Text(t) => Held::Text(t@),
            Held::Formats(t) => Held::Formats(text_if(*t)),
            Held::Nothing => Held::Nothing,
        }
    }
}

/// The text in a clipboard that holds `held`, if there is one.
pub open spec fn text_in(held: Held<Seq<char>>) -> Option<Seq<char>> {
    match held {
        Held::Text(t) => Some(t),
        Held::Formats(t) => t,
        Held::Nothing => None,
    }
}

/// What a clipboard holds out of which `text` could be read and, where `formats` says so, the data
/// of formats could be taken.
pub open spec fn kept(text: Option<Seq<char>>, formats: bool) -> Held<Seq<char>> {
    if formats {
        Held::Formats(text)
    } else {
        match text {
            Some(t) => Held::Text(t),
            None => Held::Nothing,
        }
    }
}

/// What a clipboard holds out of which `text` could be read and, where `formats` says so, the data
/// of formats could be taken.
pub fn keep(text: Option<String>, formats: bool) -> (r: Held<String>)
    ensures
        r@ == kept(text_if(text), formats),
{
    if formats {
        Held::Formats(text)
    } else {
        match text {
            Some(t) => Held::Text(t),
            None => Held::Nothing,
        }
    }
}

/// Nothing that could be taken out of the clipboard is passed over: the text is kept, whatever
/// stands beside it, and so are the formats, whether or not there is a text.
pub proof fn law_everything_is_kept(text: Option<Seq<char>>, formats: bool)
    ensures
        text_in(kept(text, formats)) == text,
        kept(text, formats) is Formats <==> formats,
        kept(text, formats) is Nothing <==> text is None && !formats,
{
}

// ---- the selection -----------------------------------------------------------------------------

/// Getting at the selection, with texts of type `T`. `saved` is what the clipboard held at first.
pub enum Capture<T> {
    /// The accessibility interface is to be asked.
    AskAccessibility,
    /// The clipboard is to be opened.
    OpenClipboard,
    /// The contents of the clipboard are to be taken out and kept.
    SaveClipboard,
    /// The sentinel is to be written into the clipboard.
    MarkClipboard { saved: Held<T> },
    /// The modifier keys are to be waited for.
    AwaitModifiers { saved: Held<T> },
    /// The copy key is to be pressed.
    PressCopy { saved: Held<T> },
    /// A rest is due, after this many looks.
    Pause { saved: Held<T>, polls: u32 },
    /// The clipboard is to be looked at, after this many looks.
    Poll { saved: Held<T>, polls: u32 },
    /// The clipboard is to be put back.
    Restore { saved: Held<T>, result: Option<T> },
    /// It is over, with this selection.
    Finished { result: Option<T> },
}

/// What is to be done next.
pub enum CaptureAction<T> {
    AskAccessibility,
    OpenClipboard,
    /// Take out what the clipboard holds, and keep the data of its formats.
    SaveClipboard,
    /// Look for text in the clipboard.
    ReadClipboard,
    /// Put this text into the clipboard, in place of what it holds.
    WriteClipboard(T),
    /// Put the formats that `SaveClipboard` kept back into the clipboard, this text among them, in
    /// place of what it holds.
    RestoreFormats(Option<T>),
    /// Empty the clipboard.
    ClearClipboard,
    AwaitModifiers,
    PressCopy,
    /// Rest for `POLL_MILLIS`.
    Pause,
    /// It is over, with this selection.
    Finish(Option<T>),
}

/// What came of it.
pub enum CaptureReply<T> {
    /// It is done, well or not.
    Done,
    /// What the accessibility interface says is selected.
    Selected(Option<T>),
    /// Whether the clipboard could be opened.
    Opened(bool),
    /// What the clipboard held.
    Saved(Held<T>),
    /// The text in the clipboard, where there is one.
    Clipboard(Option<T>),
}

impl View for Capture<String> {
    type V = Capture<Seq<char>>;

    open spec fn view(&self) -> Capture<Seq<char>> {
        match self {
            Capture::AskAccessibility => Capture::AskAccessibility,
            Capture::OpenClipboard => Capture::OpenClipboard,
            Capture::SaveClipboard => Capture::SaveClipboard,
            Capture::MarkClipboard { saved } => Capture::MarkClipboard { saved: saved@ },
            Capture::AwaitModifiers { saved } => Capture::AwaitModifiers { saved: saved@ },
            Capture::PressCopy { saved } => Capture::PressCopy { saved: saved@ },
            Capture::Pause { saved, polls } => Capture::Pause {
                saved: saved@,
                polls: *polls,
            },
            Capture::Poll { saved, polls } => Capture::Poll {
                saved: saved@,
                polls: *polls,
            },
            Capture::Restore { saved, result } => Capture::Restore {
                saved: saved@,
                result: text_if(*result),
            },
            Capture::Finished { result } => Capture::Finished { result: text_if(*result) },
        }
    }
}

impl View for CaptureAction<String> {
    type V = CaptureAction<Seq<char>>;

    open spec fn view(&self) -> CaptureAction<Seq<char>> {
        match self {
            CaptureAction::AskAccessibility => CaptureAction::AskAccessibility,
            CaptureAction::OpenClipboard => CaptureAction::OpenClipboard,
            CaptureAction::SaveClipboard => CaptureAction::SaveClipboard,
            CaptureAction::ReadClipboard => CaptureAction::ReadClipboard,
            CaptureAction::WriteClipboard(t) => CaptureAction::WriteClipboard(t@),
            CaptureAction::RestoreFormats(t) => CaptureAction::RestoreFormats(text_if(*t)),
            CaptureAction::ClearClipboard => CaptureAction::ClearClipboard,
            CaptureAction::AwaitModifiers => CaptureAction::AwaitModifiers,
            CaptureAction::PressCopy => CaptureAction::PressCopy,
            CaptureAction::Pause => CaptureAction::Pause,
            CaptureAction::Finish(t) => CaptureAction::Finish(text_if(*t)),
        }
    }
}

impl View for CaptureReply<String> {
    type V = CaptureReply<Seq<char>>;

    open spec fn view(&self) -> CaptureReply<Seq<char>> {
        match self {
            CaptureReply::Done => CaptureReply::Done,
            CaptureReply::Selected(t) => CaptureReply::Selected(text_if(*t)),
            CaptureReply::Opened(ok) => CaptureReply::Opened(*ok),
            CaptureReply::Saved(saved) => CaptureReply::Saved(saved@),
            CaptureReply::Clipboard(t) => CaptureReply::Clipboard(text_if(*t)),
        }
    }
}

/// Whether a look at the clipboard shows the copied selection: a text that is neither empty nor the
/// sentinel.
pub open spec fn is_copy(seen: Option<Seq<char>>) -> bool {
    seen matches Some(t) && t != SENTINEL@ && t.len() > 0
}

/// The action that puts back what the clipboard held.
pub open spec fn put_back(saved: Held<Seq<char>>) -> CaptureAction<Seq<char>> {
    match saved {
        Held::Text(t) => CaptureAction::WriteClipboard(t),
        Held::Formats(t) => CaptureAction::RestoreFormats(t),
        Held::Nothing => CaptureAction::ClearClipboard,
    }
}

impl Capture<Seq<char>> {
    /// The capture after `reply`. A reply that is not called for changes nothing.
    pub open spec fn after(self, reply: CaptureReply<Seq<char>>) -> Self {
        match (self, reply) {
            (Capture::AskAccessibility, CaptureReply::Selected(t)) => match t {
                Some(_) => Capture::Finished { result: t },
                None => Capture::OpenClipboard,
            },
            (Capture::OpenClipboard, CaptureReply::Opened(ok)) => if ok {
                Capture::SaveClipboard
            } else {
                Capture::Finished { result: None }
            },
            (Capture::SaveClipboard, CaptureReply::Saved(saved)) => Capture::MarkClipboard { saved },
            (Capture::MarkClipboard { saved }, CaptureReply::Done) => Capture::AwaitModifiers {
                saved,
            },
            (Capture::AwaitModifiers { saved }, CaptureReply::Done) => Capture::PressCopy { saved },
            (Capture::PressCopy { saved }, CaptureReply::Done) => Capture::Pause {
                saved,
                polls: 0,
            },
            (Capture::Pause { saved, polls }, CaptureReply::Done) => Capture::Poll { saved, polls },
            (Capture::Poll { saved, polls }, CaptureReply::Clipboard(seen)) => if is_copy(seen) {
                Capture::Restore { saved, result: seen }
            } else if polls + 1 < MAX_POLLS {
                Capture::Pause { saved, polls: (polls + 1) as u32 }
            } else {
                Capture::Restore { saved, result: None }
            },
            (Capture::Restore { result, .. }, CaptureReply::Done) => Capture::Finished { result },
            _ => self,
        }
    }

    /// What is to be done next.
    pub open spec fn action(self) -> CaptureAction<Seq<char>> {
        match self {
            Capture::AskAccessibility => CaptureAction::AskAccessibility,
            Capture::OpenClipboard => CaptureAction::OpenClipboard,
            Capture::SaveClipboard => CaptureAction::SaveClipboard,
            Capture::MarkClipboard { .. } => CaptureAction::WriteClipboard(SENTINEL@),
            Capture::AwaitModifiers { .. } => CaptureAction::AwaitModifiers,
            Capture::PressCopy { .. } => CaptureAction::PressCopy,
            Capture::Pause { .. } => CaptureAction::Pause,
            Capture::Poll { .. } => CaptureAction::ReadClipboard,
            Capture::Restore { saved, .. } => put_back(saved),
            Capture::Finished { result } => CaptureAction::Finish(result),
        }
    }

    /// The capture after all of `replies`.
    pub open spec fn after_all(replies: Seq<CaptureReply<Seq<char>>>) -> Self
        decreases replies.len(),
    {
        if replies.len() == 0 {
            Capture::AskAccessibility
        } else {
            Self::after_all(replies.drop_last()).after(replies.last())
        }
    }
}

impl Capture<String> {
    /// The capture before its first step.
    pub fn start() -> (r: Self)
        ensures
            r@ == Capture::<Seq<char>>::after_all(seq![]),
    {
        Capture::AskAccessibility
    }

    /// Takes in what came of the pending action.
    pub fn next(self, reply: CaptureReply<String>) -> (r: Self)
        ensures
            r@ == self@.after(reply@),
    {
        match (self, reply) {
            (Capture::AskAccessibility, CaptureReply::Selected(t)) => match t {
                Some(text) => Capture::Finished { result: Some(text) },
                None => Capture::OpenClipboard,
            },
            (Capture::OpenClipboard, CaptureReply::Opened(ok)) => if ok {
                Capture::SaveClipboard
            } else {
                Capture::Finished { result: None }
            },
            (Capture::SaveClipboard, CaptureReply::Saved(saved)) => Capture::MarkClipboard { saved },
            (Capture::MarkClipboard { saved }, CaptureReply::Done) => Capture::AwaitModifiers {
                saved,
            },
            (Capture::AwaitModifiers { saved }, CaptureReply::Done) => Capture::PressCopy { saved },
            (Capture::PressCopy { saved }, CaptureReply::Done) => Capture::Pause {
                saved,
                polls: 0,
            },
            (Capture::Pause { saved, polls }, CaptureReply::Done) => Capture::Poll { saved, polls },
            (Capture::Poll { saved, polls }, CaptureReply::Clipboard(seen)) => {
                if let Some(text) = seen {
                    if !same_text(text.as_str(), SENTINEL) && !text.as_str().is_empty() {
                        return Capture::Restore { saved, result: Some(text) };
                    }
                }
                if polls < MAX_POLLS - 1 {
                    Capture::Pause { saved, polls: polls + 1 }
                } else {
                    Capture::Restore { saved, result: None }
                }
            },
            (Capture::Restore { result, .. }, CaptureReply::Done) => Capture::Finished { result },
            (capture, _) => capture,
        }
    }

    /// What is to be done next.
    pub fn pending(&self) -> (r: CaptureAction<String>)
        ensures
            r@ == self@.action(),
    {
        match self {
            Capture::AskAccessibility => CaptureAction::AskAccessibility,
            Capture::OpenClipboard => CaptureAction::OpenClipboard,
            Capture::SaveClipboard => CaptureAction::SaveClipboard,
            Capture::MarkClipboard { .. } => CaptureAction::WriteClipboard(SENTINEL.to_string()),
            Capture::AwaitModifiers { .. } => CaptureAction::AwaitModifiers,
            Capture::PressCopy { .. } => CaptureAction::PressCopy,
            Capture::Pause { .. } => CaptureAction::Pause,
            Capture::Poll { .. } => CaptureAction::ReadClipboard,
            Capture::Restore { saved, .. } => match saved {
                Held::Text(text) => CaptureAction::WriteClipboard(text.clone()),
                Held::Formats(text) => CaptureAction::RestoreFormats(
                    match text {
                        Some(t) => Some(t.clone()),
                        None => None,
                    },
                ),
                Held::Nothing => CaptureAction::ClearClipboard,
            },
            Capture::Finished { result } => CaptureAction::Finish(
                match result {
                    Some(text) => Some(text.clone()),
                    None => None,
                },
            ),
        }
    }
}

/// Whether an action changes what the clipboard holds.
pub open spec fn writes(action: CaptureAction<Seq<char>>) -> bool {
    action is WriteClipboard || action is RestoreFormats || action is ClearClipboard
}

/// What the clipboard holds after an action that changes what it holds.
pub open spec fn left_by(action: CaptureAction<Seq<char>>) -> Held<Seq<char>> {
    match action {
        CaptureAction::WriteClipboard(t) => Held::Text(t),
        CaptureAction::RestoreFormats(t) => Held::Formats(t),
        _ => Held::Nothing,
    }
}

/// What the capture itself has done to the contents of the clipboard after `replies`, in order.
pub open spec fn written(replies: Seq<CaptureReply<Seq<char>>>) -> Seq<CaptureAction<Seq<char>>>
    decreases replies.len(),
{
    if replies.len() == 0 {
        seq![]
    } else {
        let before = written(replies.drop_last());
        let action = Capture::<Seq<char>>::after_all(replies.drop_last()).action();
        if writes(action) && replies.last() is Done {
            before.push(action)
        } else {
            before
        }
    }
}

/// What the clipboard held when the capture first took out its contents, if it has done so.
pub open spec fn first_held(replies: Seq<CaptureReply<Seq<char>>>) -> Option<Held<Seq<char>>>
    decreases replies.len(),
{
    if replies.len() == 0 {
        None
    } else {
        let before = first_held(replies.drop_last());
        match (
            before,
            Capture::<Seq<char>>::after_all(replies.drop_last()).action(),
            replies.last(),
        ) {
            (None, CaptureAction::SaveClipboard, CaptureReply::Saved(held)) => Some(held),
            _ => before,
        }
    }
}

/// What a capture does to the contents of the clipboard before it puts them back.
pub open spec fn marking() -> CaptureAction<Seq<char>> {
    CaptureAction::WriteClipboard(SENTINEL@)
}

proof fn lemma_capture(replies: Seq<CaptureReply<Seq<char>>>)
    ensures
        match Capture::<Seq<char>>::after_all(replies) {
            Capture::AskAccessibility | Capture::OpenClipboard | Capture::SaveClipboard =>
                first_held(replies) is None && written(replies).len() == 0,
            Capture::MarkClipboard { saved } => first_held(replies) == Some(saved) && written(
                replies,
            ).len() == 0,
            Capture::AwaitModifiers { saved } | Capture::PressCopy { saved } => first_held(replies)
                == Some(saved) && written(replies) == seq![marking()],
            Capture::Pause { saved, polls } | Capture::Poll { saved, polls } => first_held(replies)
                == Some(saved) && written(replies) == seq![marking()] && polls < MAX_POLLS,
            Capture::Restore { saved, result } => first_held(replies) == Some(saved) && written(
                replies,
            ) == seq![marking()] && (result is None || is_copy(result)),
            Capture::Finished { result } => match first_held(replies) {
                None => written(replies).len() == 0,
                Some(saved) => written(replies) == seq![marking(), put_back(saved)] && (
                result is None || is_copy(result)),
            },
        },
    decreases replies.len(),
{
    if replies.len() > 0 {
        lemma_capture(replies.drop_last());
    }
}

/// The clipboard is safe: a capture that is over has either left the contents of the clipboard
/// alone, or has put the sentinel in their place and then, last of all, put back what it had taken
/// out at first. So the clipboard holds again what it held: its text, whether or not anything stands
/// beside it, its formats, or nothing.
pub proof fn law_clipboard_is_put_back(replies: Seq<CaptureReply<Seq<char>>>)
    requires
        Capture::<Seq<char>>::after_all(replies) is Finished,
    ensures
        match first_held(replies) {
            None => written(replies) == Seq::<CaptureAction<Seq<char>>>::empty(),
            Some(held) => {
                &&& written(replies) == seq![marking(), put_back(held)]
                &&& left_by(written(replies).last()) == held
                &&& text_in(left_by(written(replies).last())) == text_in(held)
            },
        },
{
    lemma_capture(replies);
}

/// A capture never changes the contents of the clipboard before it has taken them out.
pub proof fn law_clipboard_is_saved_first(replies: Seq<CaptureReply<Seq<char>>>)
    ensures
        written(replies).len() > 0 ==> first_held(replies) is Some,
        writes(Capture::<Seq<char>>::after_all(replies).action()) ==> first_held(replies) is Some,
        Capture::<Seq<char>>::after_all(replies).action() is PressCopy ==> first_held(
            replies,
        ) is Some,
{
    lemma_capture(replies);
}

/// What the looks at the clipboard after the copy key have shown, in order.
pub open spec fn sightings(replies: Seq<CaptureReply<Seq<char>>>) -> Seq<Option<Seq<char>>>
    decreases replies.len(),
{
    if replies.len() == 0 {
        seq![]
    } else {
        let before = sightings(replies.drop_last());
        match (Capture::<Seq<char>>::after_all(replies.drop_last()).action(), replies.last()) {
            (CaptureAction::ReadClipboard, CaptureReply::Clipboard(seen)) => before.push(seen),
            _ => before,
        }
    }
}

/// The first of some looks that shows the copied selection, if one does.
pub open spec fn first_copy(seen: Seq<Option<Seq<char>>>) -> Option<Seq<char>>
    decreases seen.len(),
{
    if seen.len() == 0 {
        None
    } else if is_copy(seen[0]) {
        seen[0]
    } else {
        first_copy(seen.drop_first())
    }
}

proof fn lemma_first_copy(seen: Seq<Option<Seq<char>>>, k: int)
    requires
        0 <= k <= seen.len(),
        forall|i: int| 0 <= i < k ==> !is_copy(#[trigger] seen[i]),
        k < seen.len() ==> is_copy(seen[k]),
    ensures
        first_copy(seen) == (if k < seen.len() {
            seen[k]
        } else {
            None
        }),
    decreases seen.len(),
{
    if k > 0 {
        assert forall|i: int| 0 <= i < k - 1 implies !is_copy(#[trigger] seen.drop_first()[i]) by {
            assert(seen.drop_first()[i] == seen[i + 1]);
        }
        lemma_first_copy(seen.drop_first(), k - 1);
    }
}

/// Whether the looks went on to the first that shows the copied selection, which is `result`, or to
/// the last.
spec fn looked_up(seen: Seq<Option<Seq<char>>>, result: Option<Seq<char>>) -> bool {
    &&& 0 < seen.len() <= MAX_POLLS
    &&& forall|i: int| 0 <= i < seen.len() - 1 ==> !is_copy(#[trigger] seen[i])
    &&& if is_copy(seen.last()) {
        result == seen.last()
    } else {
        result is None && seen.len() == MAX_POLLS
    }
}

proof fn lemma_sightings(replies: Seq<CaptureReply<Seq<char>>>)
    ensures
        match Capture::<Seq<char>>::after_all(replies) {
            Capture::Pause { polls, .. } | Capture::Poll { polls, .. } => {
                &&& sightings(replies).len() == polls
                &&& polls < MAX_POLLS
                &&& forall|i: int| 0 <= i < polls ==> !is_copy(#[trigger] sightings(replies)[i])
            },
            Capture::Restore { result, .. } => looked_up(sightings(replies), result),
            Capture::Finished { result } => if first_held(replies) is Some {
                looked_up(sightings(replies), result)
            } else {
                sightings(replies).len() == 0
            },
            _ => sightings(replies).len() == 0,
        },
    decreases replies.len(),
{
    if replies.len() > 0 {
        lemma_sightings(replies.drop_last());
        lemma_capture(replies.drop_last());
    }
}

/// What a capture through the clipboard yields: where `looks` is what the clipboard would show at
/// each of the thirty looks, the selection is the first of them that can be read, is not empty and
/// is not the sentinel, and there is none where no look shows such a text. No look is taken after
/// one that does.
pub proof fn law_capture_yields_the_first_copy(
    replies: Seq<CaptureReply<Seq<char>>>,
    looks: Seq<Option<Seq<char>>>,
)
    requires
        Capture::<Seq<char>>::after_all(replies) is Finished,
        first_held(replies) is Some,
        looks.len() == MAX_POLLS,
        sightings(replies).is_prefix_of(looks),
    ensures
        Capture::<Seq<char>>::after_all(replies) == (Capture::<Seq<char>>::Finished {
            result: first_copy(looks),
        }),
        first_copy(sightings(replies)) == first_copy(looks),
        0 < sightings(replies).len() <= MAX_POLLS,
        forall|i: int|
            0 <= i < sightings(replies).len() - 1 ==> !is_copy(#[trigger] sightings(replies)[i]),
{
    lemma_sightings(replies);
    let seen = sightings(replies);
    let k = if is_copy(seen.last()) {
        seen.len() - 1
    } else {
        seen.len() as int
    };
    assert forall|i: int| 0 <= i < seen.len() implies looks[i] == seen[i] by {
        assert(seen[i] == looks.subrange(0, seen.len() as int)[i]);
    }
    lemma_first_copy(seen, k);
    lemma_first_copy(looks, k);
}

/// A selection that came through the clipboard is neither empty nor the sentinel.
pub proof fn law_sentinel_is_never_spoken(replies: Seq<CaptureReply<Seq<char>>>)
    requires
        first_held(replies) is Some,
    ensures
        Capture::<Seq<char>>::after_all(replies) matches Capture::Finished { result: Some(t) }
            ==> t != SENTINEL@ && t.len() > 0,
{
    lemma_capture(replies);
}

/// Where the accessibility interface knows the selection, it is taken as it is and the clipboard is
/// not touched.
pub proof fn law_accessibility_comes_first(t: Seq<char>)
    ensures
        Capture::<Seq<char>>::after_all(seq![CaptureReply::Selected(Some(t))])
            == (Capture::<Seq<char>>::Finished { result: Some(t) }),
        written(seq![CaptureReply::Selected(Some(t))]) == Seq::<
            CaptureAction<Seq<char>>,
        >::empty(),
{
    let replies = seq![CaptureReply::Selected(Some(t))];
    assert(replies.drop_last() =~= Seq::<CaptureReply<Seq<char>>>::empty());
    reveal_with_fuel(Capture::<_>::after_all, 2);
    reveal_with_fuel(written, 2);
}

/// The number of steps that a capture may still take.
pub open spec fn capture_steps_left(s: Capture<Seq<char>>) -> int {
    match s {
        Capture::Finished { .. } => 0,
        Capture::Restore { .. } => 1,
        Capture::Poll { polls, .. } => 2 + 2 * (MAX_POLLS - polls),
        Capture::Pause { polls, .. } => 3 + 2 * (MAX_POLLS - polls),
        Capture::PressCopy { .. } => 4 + 2 * MAX_POLLS,
        Capture::AwaitModifiers { .. } => 5 + 2 * MAX_POLLS,
        Capture::MarkClipboard { .. } => 6 + 2 * MAX_POLLS,
        Capture::SaveClipboard => 7 + 2 * MAX_POLLS,
        Capture::OpenClipboard => 8 + 2 * MAX_POLLS,
        Capture::AskAccessibility => 9 + 2 * MAX_POLLS,
    }
}

/// Every reply that is called for brings a capture nearer to its end.
pub proof fn law_capture_ends(replies: Seq<CaptureReply<Seq<char>>>, reply: CaptureReply<Seq<char>>)
    requires
        !(Capture::<Seq<char>>::after_all(replies) is Finished),
        match Capture::<Seq<char>>::after_all(replies).action() {
            CaptureAction::AskAccessibility => reply is Selected,
            CaptureAction::OpenClipboard => reply is Opened,
            CaptureAction::SaveClipboard => reply is Saved,
            CaptureAction::ReadClipboard => reply is Clipboard,
            _ => reply is Done,
        },
    ensures
        0 <= capture_steps_left(Capture::<Seq<char>>::after_all(replies).after(reply))
            < capture_steps_left(Capture::<Seq<char>>::after_all(replies)),
{
    lemma_capture(replies);
}

/// Whether a look shows no copied selection: no text, an empty one, or what the capture itself put
/// into the clipboard.
pub open spec fn shows_no_copy(seen: Option<Seq<char>>) -> bool {
    seen matches Some(t) ==> t.len() == 0 || t == "__otoha_capture__"@
}

/// A capture through the clipboard ends at the first of thirty looks that shows the copied
/// selection, with all of what that look shows, or after the last look, with nothing. `looks` is
/// what the clipboard would show at each look, and `k` is the first that shows the selection.
pub proof fn law_capture_ends_at_the_first_copy(
    replies: Seq<CaptureReply<Seq<char>>>,
    looks: Seq<Option<Seq<char>>>,
    k: int,
)
    requires
        Capture::<Seq<char>>::after_all(replies) is Finished,
        first_held(replies) is Some,
        looks.len() == 30,
        sightings(replies).is_prefix_of(looks),
        0 <= k <= 30,
        forall|i: int| 0 <= i < k ==> shows_no_copy(#[trigger] looks[i]),
        k < 30 ==> !shows_no_copy(looks[k]),
    ensures
        Capture::<Seq<char>>::after_all(replies) == (Capture::<Seq<char>>::Finished {
            result: if k < 30 {
                looks[k]
            } else {
                None
            },
        }),
        sightings(replies).len() == (if k < 30 {
            k + 1
        } else {
            30
        }),
{
    lemma_sightings(replies);
    let seen = sightings(replies);
    assert forall|i: int| 0 <= i < seen.len() implies looks[i] == #[trigger] seen[i] by {
        assert(seen[i] == looks.subrange(0, seen.len() as int)[i]);
    }
    assert forall|i: int| 0 <= i < looks.len() implies is_copy(#[trigger] looks[i])
        == !shows_no_copy(looks[i]) by {}
    let n = seen.len() as int;
    if n > 0 {
        assert(seen[n - 1] == looks[n - 1]);
    }
    if k < n - 1 {
        assert(!is_copy(seen[k]));
    }
}

/// Whether `reply` answers `action`.
pub open spec fn is_answer(
    action: CaptureAction<Seq<char>>,
    reply: CaptureReply<Seq<char>>,
) -> bool {
    match action {
        CaptureAction::AskAccessibility => reply is Selected,
        CaptureAction::OpenClipboard => reply is Opened,
        CaptureAction::SaveClipboard => reply is Saved,
        CaptureAction::ReadClipboard => reply is Clipboard,
        CaptureAction::Finish(_) => false,
        _ => reply is Done,
    }
}

/// What a capture has done so far, in order.
pub open spec fn course(replies: Seq<CaptureReply<Seq<char>>>) -> Seq<CaptureAction<Seq<char>>>
    decreases replies.len(),
{
    if replies.len() == 0 {
        seq![]
    } else {
        let before = course(replies.drop_last());
        let action = Capture::<Seq<char>>::after_all(replies.drop_last()).action();
        if is_answer(action, replies.last()) {
            before.push(action)
        } else {
            before
        }
    }
}

/// What a capture does before it looks for the copied selection.
pub open spec fn opening() -> Seq<CaptureAction<Seq<char>>> {
    seq![
        CaptureAction::AskAccessibility,
        CaptureAction::OpenClipboard,
        CaptureAction::SaveClipboard,
        CaptureAction::WriteClipboard("__otoha_capture__"@),
        CaptureAction::AwaitModifiers,
        CaptureAction::PressCopy,
    ]
}

/// The first `n` of rests and looks in turn.
pub open spec fn looking(n: int) -> Seq<CaptureAction<Seq<char>>> {
    Seq::new(
        n as nat,
        |i: int|
            if i % 2 == 0 {
                CaptureAction::Pause
            } else {
                CaptureAction::ReadClipboard
            },
    )
}

spec fn course_of(
    s: Capture<Seq<char>>,
    seen: int,
    held: Option<Held<Seq<char>>>,
    done: Seq<CaptureAction<Seq<char>>>,
) -> bool {
    match s {
        Capture::AskAccessibility => done == opening().take(0),
        Capture::OpenClipboard => done == opening().take(1),
        Capture::SaveClipboard => done == opening().take(2),
        Capture::MarkClipboard { .. } => done == opening().take(3),
        Capture::AwaitModifiers { .. } => done == opening().take(4),
        Capture::PressCopy { .. } => done == opening().take(5),
        Capture::Pause { .. } => done == opening() + looking(2 * seen),
        Capture::Poll { .. } => done == opening() + looking(2 * seen + 1),
        Capture::Restore { .. } => done == opening() + looking(2 * seen),
        Capture::Finished { .. } => match held {
            Some(h) => done == (opening() + looking(2 * seen)).push(put_back(h)),
            None => done == opening().take(1) || done == opening().take(2),
        },
    }
}

proof fn lemma_course(replies: Seq<CaptureReply<Seq<char>>>)
    ensures
        course_of(
            Capture::<Seq<char>>::after_all(replies),
            sightings(replies).len() as int,
            first_held(replies),
            course(replies),
        ),
    decreases replies.len(),
{
    if replies.len() == 0 {
        assert(opening().take(0) =~= course(replies));
    } else {
        let before = replies.drop_last();
        lemma_course(before);
        lemma_capture(before);
        lemma_sightings(before);
        let s = Capture::<Seq<char>>::after_all(before);
        let n = sightings(before).len() as int;
        assert(opening().take(0).push(opening()[0]) =~= opening().take(1));
        assert(opening().take(1).push(opening()[1]) =~= opening().take(2));
        assert(opening().take(2).push(opening()[2]) =~= opening().take(3));
        assert(opening().take(3).push(opening()[3]) =~= opening().take(4));
        assert(opening().take(4).push(opening()[4]) =~= opening().take(5));
        assert(opening().take(5).push(opening()[5]) =~= opening() + looking(0));
        assert((opening() + looking(2 * n)).push(CaptureAction::Pause) =~= opening() + looking(
            2 * n + 1,
        ));
        assert((opening() + looking(2 * n + 1)).push(CaptureAction::ReadClipboard) =~= opening()
            + looking(2 * n + 2));
        if s is Poll && replies.last() is Clipboard {
            assert(sightings(replies).len() == n + 1);
        }
    }
}

/// What a capture through the clipboard does, from first to last: it asks the accessibility
/// interface, opens the clipboard, takes out its contents, marks it, waits for the modifier keys,
/// presses the copy key, rests before each look, and puts back what it took out: a text as that
/// text, formats with the text among them, and nothing by emptying the clipboard.
pub proof fn law_course_of_a_capture(replies: Seq<CaptureReply<Seq<char>>>)
    requires
        Capture::<Seq<char>>::after_all(replies) is Finished,
    ensures
        first_held(replies) matches Some(held) ==> course(replies) == opening() + looking(
            2 * sightings(replies).len() as int,
        ) + seq![
            match held {
                Held::Text(t) => CaptureAction::WriteClipboard(t),
                Held::Formats(t) => CaptureAction::RestoreFormats(t),
                Held::Nothing => CaptureAction::ClearClipboard,
            },
        ],
        first_held(replies) is None ==> course(replies) == seq![
            CaptureAction::<Seq<char>>::AskAccessibility,
        ] || course(replies) == seq![
            CaptureAction::<Seq<char>>::AskAccessibility,
            CaptureAction::OpenClipboard,
        ],
{
    lemma_course(replies);
    assert(opening().take(1) =~= seq![CaptureAction::<Seq<char>>::AskAccessibility]);
    assert(opening().take(2) =~= seq![
        CaptureAction::<Seq<char>>::AskAccessibility,
        CaptureAction::OpenClipboard,
    ]);
    if let Some(held) = first_held(replies) {
        let done = opening() + looking(2 * sightings(replies).len() as int);
        assert(done.push(put_back(held)) =~= done + seq![put_back(held)]);
    }
}

/// A capture goes on to the clipboard exactly if the accessibility interface knows of no selection,
/// and takes out its contents exactly if it can be opened; else it is over, with what the interface
/// said, if anything.
pub proof fn law_clipboard_comes_second(selected: Option<Seq<char>>, opened: bool)
    ensures
        Capture::<Seq<char>>::after_all(
            seq![CaptureReply::Selected(selected), CaptureReply::Opened(opened)],
        ) == (if selected is None && opened {
            Capture::<Seq<char>>::SaveClipboard
        } else {
            Capture::<Seq<char>>::Finished { result: selected }
        }),
{
    let one = seq![CaptureReply::Selected(selected)];
    let two = one.push(CaptureReply::Opened(opened));
    assert(one.drop_last() =~= Seq::<CaptureReply<Seq<char>>>::empty());
    assert(two.drop_last() =~= one);
    reveal_with_fuel(Capture::<_>::after_all, 3);
    assert(two =~= seq![CaptureReply::Selected(selected), CaptureReply::Opened(opened)]);
}

/// A reply that is not called for has no say in a capture.
pub proof fn law_capture_heeds_only_answers(
    s: Capture<Seq<char>>,
    reply: CaptureReply<Seq<char>>,
)
    requires
        !is_answer(s.action(), reply),
    ensures
        s.after(reply) == s,
{
}

/// The texts that the procedures carry, take in and hand out are seen as they are.
pub proof fn law_captured_texts_are_seen_as_they_are(t: String, saved: Held<String>, polls: u32)
    ensures
        (AxReply::Text(t))@ == AxReply::Text(t@),
        (AxRead::Finished { text: Some(t) })@ == (AxRead::Finished { text: Some(t@) }),
        (Held::Text(t))@ == Held::Text(t@),
        (Held::Formats(Some(t)))@ == Held::Formats(Some(t@)),
        (CaptureReply::Selected(Some(t)))@ == CaptureReply::Selected(Some(t@)),
        (CaptureReply::Saved(saved))@ == CaptureReply::Saved(saved@),
        (CaptureReply::Clipboard(Some(t)))@ == CaptureReply::Clipboard(Some(t@)),
        (CaptureAction::WriteClipboard(t))@ == CaptureAction::WriteClipboard(t@),
        (CaptureAction::RestoreFormats(Some(t)))@ == CaptureAction::RestoreFormats(Some(t@)),
        (CaptureAction::Finish(Some(t)))@ == CaptureAction::Finish(Some(t@)),
        (Capture::MarkClipboard { saved })@ == (Capture::MarkClipboard { saved: saved@ }),
        (Capture::AwaitModifiers { saved })@ == (Capture::AwaitModifiers { saved: saved@ }),
        (Capture::PressCopy { saved })@ == (Capture::PressCopy { saved: saved@ }),
        (Capture::Pause { saved, polls })@ == (Capture::Pause { saved: saved@, polls }),
        (Capture::Poll { saved, polls })@ == (Capture::Poll { saved: saved@, polls }),
        (Capture::Restore { saved, result: Some(t) })@ == (Capture::Restore {
            saved: saved@,
            result: Some(t@),
        }),
        (Capture::Finished { result: Some(t) })@ == (Capture::Finished { result: Some(t@) }),
{
}

/// The waits are short: the looks for the copied selection take six tenths of a second at most, and
/// those at the modifier keys half a second. The copy key is the letter C with the command key, which
/// is one of the modifier keys.
pub proof fn law_waits_are_short()
    ensures
        MAX_POLLS * POLL_MILLIS == 600,
        MAX_CHECKS * CHECK_MILLIS == 500,
        COPY_KEY_MILLIS == 8,
        COPY_KEY_CODE == 8,
        COPY_KEY_FLAGS == 0x10_0000,
        some_held(COPY_KEY_FLAGS),
{
    assert(0x10_0000u64 & 0x10_0000u64 != 0) by (bit_vector);
}

} // verus!
