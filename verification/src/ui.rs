//! The loop behind the menu bar: it watches playback, the speech server and the reader, and keeps
//! the menu items and the status icon in step with them.
//!
//! The loop is a state machine. `UiLoop::pending` says what is to be done next; whoever runs the
//! loop does it and hands the outcome to `UiLoop::next`.

use crate::obsidian::{next_obs, next_obs_state, OBS_IDLE, OBS_PAUSED, OBS_PROCESSING, OBS_READING};
use vstd::prelude::*;

verus! {

/// Nothing is being generated or played.
pub const ACT_IDLE: u8 = 0;

/// Audio is being generated.
pub const ACT_PROCESSING: u8 = 1;

/// Audio is being played.
pub const ACT_READING: u8 = 2;

/// How long the loop rests between two rounds, in milliseconds.
pub const ROUND_MILLIS: u64 = 110;

/// The server and the reader are probed once in this many rounds, about once a second.
pub const PROBE_EVERY: usize = 9;

/// The number of glyphs of the spinner.
pub const SPINNER_FRAMES: usize = 10;

/// The number of icons that are shown in turn while reading.
pub const READING_FRAMES: usize = 8;

/// What the status icon shows.
#[derive(Clone, Copy, Debug, PartialEq, Eq, Structural)]
pub enum TrayKey {
    /// The icon that the menu bar starts with.
    Initial,
    /// This glyph of the spinner.
    Spinner(usize),
    /// This icon of those for reading.
    Reading(usize),
    /// The plain icon.
    Idle,
    /// The icon for a server that is off.
    Off,
}

/// An icon of the menu bar.
#[derive(Clone, Copy, Debug, PartialEq, Eq, Structural)]
pub enum TrayIcon {
    Idle,
    Off,
    Reading(usize),
}

/// A change of what the menu bar shows.
#[derive(Clone, Copy, Debug, PartialEq, Eq, Structural)]
pub enum TrayUpdate {
    /// Show this glyph of the spinner as text, and take the icon away first where there is one.
    Spin { hide_icon: bool, glyph: usize },
    /// Show this icon, and take the text away first where there is some.
    Show { clear_title: bool, icon: TrayIcon },
}

/// Which of the app's own menu items are enabled.
#[derive(Clone, Copy, Debug, PartialEq, Eq, Structural)]
pub struct Controls {
    pub speak: bool,
    pub stop_read: bool,
    pub start: bool,
    pub stop: bool,
}

/// How the two menu items for the reader look.
#[derive(Clone, Copy, Debug, PartialEq, Eq, Structural)]
pub struct ObsControls {
    /// Whether they are enabled.
    pub enabled: bool,
    /// Whether the first offers to resume, rather than to pause.
    pub resume: bool,
}

/// Where a round of the loop stands.
#[derive(Clone, Copy, Debug, PartialEq, Eq, Structural)]
pub enum UiPhase {
    Sleep,
    Observe,
    ClearActivity,
    ProbeServer,
    ShowControls,
    ReadObsidian,
    ProbeObsidian,
    ClearObsidian,
    ShowObsidian,
    FindTray,
    ShowTray,
}

/// What is to be done next.
#[derive(Clone, Copy, Debug, PartialEq, Eq, Structural)]
pub enum UiAction {
    /// Rest for `ROUND_MILLIS`.
    Sleep,
    /// Load the activity and ask whether playback goes on.
    Observe,
    /// Store this activity.
    StoreActivity(u8),
    /// Ask the speech server whether it is up.
    ProbeServer,
    /// Enable and disable the app's own menu items.
    SetControls(Controls),
    /// Load the reader's state.
    ReadObsidian,
    /// Ask whether the reader still answers.
    ProbeObsidian,
    /// Store this reader state.
    StoreObsidian(u8),
    /// Enable, disable and relabel the reader's menu items.
    SetObsControls(ObsControls),
    /// Look up the status icon.
    FindTray,
    /// Change the status icon.
    SetTray(TrayUpdate),
}

/// What came of an action.
#[derive(Clone, Copy, Debug, PartialEq, Eq, Structural)]
pub enum UiReply {
    /// It is done.
    Done,
    /// The activity, and whether playback goes on.
    Observed { activity: u8, playing: bool },
    /// Whether the speech server is up.
    Server(bool),
    /// The reader's state.
    Obsidian(u8),
    /// Whether the reader answers.
    Alive(bool),
    /// Whether there is a status icon.
    Tray(bool),
}

/// The state of the loop.
#[derive(Clone, Copy, Debug, PartialEq, Eq)]
pub struct UiLoop {
    /// Where the round stands.
    pub phase: UiPhase,
    /// The number of the round; it wraps around.
    pub frame: usize,
    /// Whether the speech server was up when it was last probed.
    pub running: bool,
    /// The activity, as last seen or stored.
    pub activity: u8,
    /// Whether playback went on when it was last looked at.
    pub playing: bool,
    /// The reader's state, as last seen or stored.
    pub obs: u8,
    /// The server and playback state that the menu items show.
    pub shown: Option<(bool, bool)>,
    /// The reader state that the menu items show.
    pub shown_obs: Option<u8>,
    /// What the status icon shows.
    pub key: TrayKey,
}

/// The activity that remains of `activity`: reading is over once playback is.
pub open spec fn settled(activity: u8, playing: bool) -> u8 {
    if activity == ACT_READING && !playing {
        ACT_IDLE
    } else {
        activity
    }
}

/// The activity of the app and the reader taken together.
pub open spec fn effective(activity: u8, obs: u8) -> u8 {
    if activity == ACT_PROCESSING || obs == OBS_PROCESSING {
        ACT_PROCESSING
    } else if activity == ACT_READING || obs == OBS_READING {
        ACT_READING
    } else {
        ACT_IDLE
    }
}

/// The app's own menu items for a server that is `running` or not and playback that goes on or not.
pub open spec fn controls_for(running: bool, playing: bool) -> Controls {
    Controls { speak: running && !playing, stop_read: playing, start: !running, stop: running }
}

/// The reader's menu items for its state `obs`.
pub open spec fn obs_controls_for(obs: u8) -> ObsControls {
    ObsControls { enabled: obs != OBS_IDLE, resume: obs == OBS_PAUSED }
}

/// What the status icon is to show in round `frame`.
pub open spec fn key_for(activity: u8, running: bool, frame: usize) -> TrayKey {
    if activity == ACT_PROCESSING {
        TrayKey::Spinner(frame % SPINNER_FRAMES)
    } else if activity == ACT_READING {
        TrayKey::Reading(frame % READING_FRAMES)
    } else if running {
        TrayKey::Idle
    } else {
        TrayKey::Off
    }
}

/// The change that takes the status icon from `from` to `to`.
pub open spec fn update_for(from: TrayKey, to: TrayKey) -> TrayUpdate {
    match to {
        TrayKey::Spinner(glyph) => TrayUpdate::Spin { hide_icon: !(from is Spinner), glyph },
        TrayKey::Reading(i) => TrayUpdate::Show {
            clear_title: from is Spinner,
            icon: TrayIcon::Reading(i),
        },
        TrayKey::Idle => TrayUpdate::Show { clear_title: from is Spinner, icon: TrayIcon::Idle },
        _ => TrayUpdate::Show { clear_title: from is Spinner, icon: TrayIcon::Off },
    }
}

/// The number of the round after round `frame`.
pub open spec fn next_frame(frame: usize) -> usize {
    if frame == usize::MAX {
        0
    } else {
        (frame + 1) as usize
    }
}

impl UiLoop {
    /// The loop before its first round.
    pub open spec fn initial() -> Self {
        UiLoop {
            phase: UiPhase::Sleep,
            frame: 0,
            running: false,
            activity: ACT_IDLE,
            playing: false,
            obs: OBS_IDLE,
            shown: None,
            shown_obs: None,
            key: TrayKey::Initial,
        }
    }

    /// Whether this is a round in which to probe.
    pub open spec fn probes(self) -> bool {
        self.frame % PROBE_EVERY == 0
    }

    /// What the status icon is to show now.
    pub open spec fn wanted(self) -> TrayKey {
        key_for(effective(self.activity, self.obs), self.running, self.frame)
    }

    /// The loop once the activity is settled.
    pub open spec fn with_activity(self) -> Self {
        if self.probes() || self.shown is None {
            UiLoop { phase: UiPhase::ProbeServer, ..self }
        } else {
            self.with_server()
        }
    }

    /// The loop once it knows whether the server is up.
    pub open spec fn with_server(self) -> Self {
        if self.shown != Some((self.running, self.playing)) {
            UiLoop { phase: UiPhase::ShowControls, ..self }
        } else {
            UiLoop { phase: UiPhase::ReadObsidian, ..self }
        }
    }

    /// The loop once it knows the reader's state.
    pub open spec fn with_obs(self) -> Self {
        if self.shown_obs != Some(self.obs) {
            UiLoop { phase: UiPhase::ShowObsidian, ..self }
        } else {
            UiLoop { phase: UiPhase::FindTray, ..self }
        }
    }

    /// The loop after `reply`. A reply that does not answer the pending action changes nothing.
    pub open spec fn after(self, reply: UiReply) -> Self {
        match (self.phase, reply) {
            (UiPhase::Sleep, UiReply::Done) => UiLoop {
                phase: UiPhase::Observe,
                frame: next_frame(self.frame),
                ..self
            },
            (UiPhase::Observe, UiReply::Observed { activity, playing }) => {
                let s = UiLoop { activity, playing, ..self };
                if settled(activity, playing) != activity {
                    UiLoop { phase: UiPhase::ClearActivity, ..s }
                } else {
                    s.with_activity()
                }
            },
            (UiPhase::ClearActivity, UiReply::Done) => UiLoop {
                activity: ACT_IDLE,
                ..self
            }.with_activity(),
            (UiPhase::ProbeServer, UiReply::Server(up)) => UiLoop {
                running: up,
                ..self
            }.with_server(),
            (UiPhase::ShowControls, UiReply::Done) => UiLoop {
                phase: UiPhase::ReadObsidian,
                shown: Some((self.running, self.playing)),
                ..self
            },
            (UiPhase::ReadObsidian, UiReply::Obsidian(obs)) => {
                let s = UiLoop { obs, ..self };
                if obs != OBS_IDLE && self.probes() {
                    UiLoop { phase: UiPhase::ProbeObsidian, ..s }
                } else {
                    s.with_obs()
                }
            },
            (UiPhase::ProbeObsidian, UiReply::Alive(alive)) => {
                let obs = next_obs(self.obs, alive);
                if obs != self.obs {
                    UiLoop { phase: UiPhase::ClearObsidian, obs, ..self }
                } else {
                    self.with_obs()
                }
            },
            (UiPhase::ClearObsidian, UiReply::Done) => self.with_obs(),
            (UiPhase::ShowObsidian, UiReply::Done) => UiLoop {
                phase: UiPhase::FindTray,
                shown_obs: Some(self.obs),
                ..self
            },
            (UiPhase::FindTray, UiReply::Tray(present)) => if present && self.wanted()
                != self.key {
                UiLoop { phase: UiPhase::ShowTray, ..self }
            } else {
                UiLoop { phase: UiPhase::Sleep, ..self }
            },
            (UiPhase::ShowTray, UiReply::Done) => UiLoop {
                phase: UiPhase::Sleep,
                key: self.wanted(),
                ..self
            },
            _ => self,
        }
    }

    /// What is to be done next.
    pub open spec fn action(self) -> UiAction {
        match self.phase {
            UiPhase::Sleep => UiAction::Sleep,
            UiPhase::Observe => UiAction::Observe,
            UiPhase::ClearActivity => UiAction::StoreActivity(ACT_IDLE),
            UiPhase::ProbeServer => UiAction::ProbeServer,
            UiPhase::ShowControls => UiAction::SetControls(
                controls_for(self.running, self.playing),
            ),
            UiPhase::ReadObsidian => UiAction::ReadObsidian,
            UiPhase::ProbeObsidian => UiAction::ProbeObsidian,
            UiPhase::ClearObsidian => UiAction::StoreObsidian(self.obs),
            UiPhase::ShowObsidian => UiAction::SetObsControls(obs_controls_for(self.obs)),
            UiPhase::FindTray => UiAction::FindTray,
            UiPhase::ShowTray => UiAction::SetTray(update_for(self.key, self.wanted())),
        }
    }

    /// The loop before its first round.
    pub fn new() -> (r: Self)
        ensures
            r == Self::initial(),
    {
        UiLoop {
            phase: UiPhase::Sleep,
            frame: 0,
            running: false,
            activity: ACT_IDLE,
            playing: false,
            obs: OBS_IDLE,
            shown: None,
            shown_obs: None,
            key: TrayKey::Initial,
        }
    }

    fn wanted_key(&self) -> (r: TrayKey)
        ensures
            r == self.wanted(),
    {
        let activity = effective_activity(self.activity, self.obs);
        if activity == ACT_PROCESSING {
            TrayKey::Spinner(self.frame % SPINNER_FRAMES)
        } else if activity == ACT_READING {
            TrayKey::Reading(self.frame % READING_FRAMES)
        } else if self.running {
            TrayKey::Idle
        } else {
            TrayKey::Off
        }
    }

    fn know_activity(&mut self)
        ensures
            *final(self) == old(self).with_activity(),
    {
        if self.frame % PROBE_EVERY == 0 || self.shown.is_none() {
            self.phase = UiPhase::ProbeServer;
        } else {
            self.know_server();
        }
    }

    fn know_server(&mut self)
        ensures
            *final(self) == old(self).with_server(),
    {
        let up_to_date = match self.shown {
            Some((running, playing)) => running == self.running && playing == self.playing,
            None => false,
        };
        self.phase = if up_to_date {
            UiPhase::ReadObsidian
        } else {
            UiPhase::ShowControls
        };
    }

    fn know_obs(&mut self)
        ensures
            *final(self) == old(self).with_obs(),
    {
        let up_to_date = match self.shown_obs {
            Some(obs) => obs == self.obs,
            None => false,
        };
        self.phase = if up_to_date {
            UiPhase::FindTray
        } else {
            UiPhase::ShowObsidian
        };
    }

    /// Takes in the outcome of the pending action.
    pub fn next(&mut self, reply: UiReply)
        ensures
            *final(self) == old(self).after(reply),
    {
        match (self.phase, reply) {
            (UiPhase::Sleep, UiReply::Done) => {
                self.frame = self.frame.wrapping_add(1);
                self.phase = UiPhase::Observe;
            },
            (UiPhase::Observe, UiReply::Observed { activity, playing }) => {
                self.activity = activity;
                self.playing = playing;
                if activity == ACT_READING && !playing {
                    self.phase = UiPhase::ClearActivity;
                } else {
                    self.know_activity();
                }
            },
            (UiPhase::ClearActivity, UiReply::Done) => {
                self.activity = ACT_IDLE;
                self.know_activity();
            },
            (UiPhase::ProbeServer, UiReply::Server(up)) => {
                self.running = up;
                self.know_server();
            },
            (UiPhase::ShowControls, UiReply::Done) => {
                self.shown = Some((self.running, self.playing));
                self.phase = UiPhase::ReadObsidian;
            },
            (UiPhase::ReadObsidian, UiReply::Obsidian(obs)) => {
                self.obs = obs;
                if obs != OBS_IDLE && self.frame % PROBE_EVERY == 0 {
                    self.phase = UiPhase::ProbeObsidian;
                } else {
                    self.know_obs();
                }
            },
            (UiPhase::ProbeObsidian, UiReply::Alive(alive)) => {
                let fixed = next_obs_state(self.obs, alive);
                if fixed != self.obs {
                    self.obs = fixed;
                    self.phase = UiPhase::ClearObsidian;
                } else {
                    self.know_obs();
                }
            },
            (UiPhase::ClearObsidian, UiReply::Done) => {
                self.know_obs();
            },
            (UiPhase::ShowObsidian, UiReply::Done) => {
                self.shown_obs = Some(self.obs);
                self.phase = UiPhase::FindTray;
            },
            (UiPhase::FindTray, UiReply::Tray(present)) => {
                self.phase = if present && self.wanted_key() != self.key {
                    UiPhase::ShowTray
                } else {
                    UiPhase::Sleep
                };
            },
            (UiPhase::ShowTray, UiReply::Done) => {
                self.key = self.wanted_key();
                self.phase = UiPhase::Sleep;
            },
            _ => {},
        }
    }

    /// What is to be done next.
    pub fn pending(&self) -> (r: UiAction)
        ensures
            r == self.action(),
    {
        match self.phase {
            UiPhase::Sleep => UiAction::Sleep,
            UiPhase::Observe => UiAction::Observe,
            UiPhase::ClearActivity => UiAction::StoreActivity(ACT_IDLE),
            UiPhase::ProbeServer => UiAction::ProbeServer,
            UiPhase::ShowControls => UiAction::SetControls(
                Controls {
                    speak: self.running && !self.playing,
                    stop_read: self.playing,
                    start: !self.running,
                    stop: self.running,
                },
            ),
            UiPhase::ReadObsidian => UiAction::ReadObsidian,
            UiPhase::ProbeObsidian => UiAction::ProbeObsidian,
            UiPhase::ClearObsidian => UiAction::StoreObsidian(self.obs),
            UiPhase::ShowObsidian => UiAction::SetObsControls(
                ObsControls { enabled: self.obs != OBS_IDLE, resume: self.obs == OBS_PAUSED },
            ),
            UiPhase::FindTray => UiAction::FindTray,
            UiPhase::ShowTray => {
                let spinning = match self.key {
                    TrayKey::Spinner(_) => true,
                    _ => false,
                };
                UiAction::SetTray(
                    match self.wanted_key() {
                        TrayKey::Spinner(glyph) => TrayUpdate::Spin { hide_icon: !spinning, glyph },
                        TrayKey::Reading(i) => TrayUpdate::Show {
                            clear_title: spinning,
                            icon: TrayIcon::Reading(i),
                        },
                        TrayKey::Idle => TrayUpdate::Show {
                            clear_title: spinning,
                            icon: TrayIcon::Idle,
                        },
                        _ => TrayUpdate::Show { clear_title: spinning, icon: TrayIcon::Off },
                    },
                )
            },
        }
    }
}

/// The activity of the app and the reader taken together.
pub fn effective_activity(activity: u8, obs: u8) -> (r: u8)
    ensures
        r == effective(activity, obs),
{
    if activity == ACT_PROCESSING || obs == OBS_PROCESSING {
        ACT_PROCESSING
    } else if activity == ACT_READING || obs == OBS_READING {
        ACT_READING
    } else {
        ACT_IDLE
    }
}

/// The glyphs of the spinner, in turn.
pub open spec fn spinner_glyphs() -> Seq<Seq<char>> {
    seq!["⠋"@, "⠙"@, "⠹"@, "⠸"@, "⠼"@, "⠴"@, "⠦"@, "⠧"@, "⠇"@, "⠏"@]
}

/// The glyph of the spinner in round `frame`.
pub fn spinner_glyph(frame: usize) -> (r: &'static str)
    ensures
        r@ == spinner_glyphs()[(frame % SPINNER_FRAMES) as int],
{
    let i: usize = frame % SPINNER_FRAMES;
    if i == 0 {
        "⠋"
    } else if i == 1 {
        "⠙"
    } else if i == 2 {
        "⠹"
    } else if i == 3 {
        "⠸"
    } else if i == 4 {
        "⠼"
    } else if i == 5 {
        "⠴"
    } else if i == 6 {
        "⠦"
    } else if i == 7 {
        "⠧"
    } else if i == 8 {
        "⠇"
    } else {
        "⠏"
    }
}

/// The label of the item that pauses or resumes the reader.
pub open spec fn toggle_label_of(resume: bool) -> Seq<char> {
    if resume {
        "Resume Obsidian"@
    } else {
        "Pause Obsidian"@
    }
}

impl ObsControls {
    /// The label of the item that pauses or resumes the reader.
    pub fn toggle_label(&self) -> (r: &'static str)
        ensures
            r@ == (if self.resume {
                "Resume Obsidian"@
            } else {
                "Pause Obsidian"@
            }),
            r@ == toggle_label_of(self.resume),
    {
        if self.resume {
            "Resume Obsidian"
        } else {
            "Pause Obsidian"
        }
    }
}

/// What can be seen of the menu bar: the two groups of menu items, and the icon and the text of the
/// status item.
pub struct Face {
    pub controls: Controls,
    pub obs: ObsControls,
    pub icon: Option<TrayIcon>,
    pub title: Option<usize>,
}

impl Face {
    /// The menu bar as it is built: the server is starting, nothing is played, the reader is idle.
    pub open spec fn initial() -> Self {
        Face {
            controls: Controls { speak: true, stop_read: false, start: false, stop: true },
            obs: ObsControls { enabled: false, resume: false },
            icon: Some(TrayIcon::Off),
            title: None,
        }
    }

    /// The menu bar once `action` has been answered by `reply`.
    pub open spec fn after(self, action: UiAction, reply: UiReply) -> Self {
        match (action, reply) {
            (UiAction::SetControls(controls), UiReply::Done) => Face { controls, ..self },
            (UiAction::SetObsControls(obs), UiReply::Done) => Face { obs, ..self },
            (
                UiAction::SetTray(TrayUpdate::Spin { hide_icon, glyph }),
                UiReply::Done,
            ) => Face {
                icon: if hide_icon {
                    None
                } else {
                    self.icon
                },
                title: Some(glyph),
                ..self
            },
            (
                UiAction::SetTray(TrayUpdate::Show { clear_title, icon }),
                UiReply::Done,
            ) => Face {
                icon: Some(icon),
                title: if clear_title {
                    None
                } else {
                    self.title
                },
                ..self
            },
            _ => self,
        }
    }

    /// Whether the status item shows what `key` stands for, and nothing besides.
    pub open spec fn shows(self, key: TrayKey) -> bool {
        match key {
            TrayKey::Spinner(glyph) => self.icon is None && self.title == Some(glyph),
            TrayKey::Reading(i) => self.icon == Some(TrayIcon::Reading(i)) && self.title is None,
            TrayKey::Idle => self.icon == Some(TrayIcon::Idle) && self.title is None,
            TrayKey::Off | TrayKey::Initial => self.icon == Some(TrayIcon::Off)
                && self.title is None,
        }
    }
}

/// The loop after all of `replies`.
pub open spec fn loop_after(replies: Seq<UiReply>) -> UiLoop
    decreases replies.len(),
{
    if replies.len() == 0 {
        UiLoop::initial()
    } else {
        loop_after(replies.drop_last()).after(replies.last())
    }
}

/// The menu bar after all of `replies`.
pub open spec fn face_after(replies: Seq<UiReply>) -> Face
    decreases replies.len(),
{
    if replies.len() == 0 {
        Face::initial()
    } else {
        face_after(replies.drop_last()).after(
            loop_after(replies.drop_last()).action(),
            replies.last(),
        )
    }
}

/// What holds of the loop and the menu bar at every step.
pub open spec fn in_step(s: UiLoop, f: Face) -> bool {
    let controls_shown = s.shown == Some((s.running, s.playing));
    let obs_shown = s.shown_obs == Some(s.obs);
    &&& s.shown matches Some((running, playing)) ==> f.controls == controls_for(running, playing)
    &&& s.shown_obs matches Some(obs) ==> f.obs == obs_controls_for(obs)
    &&& f.shows(s.key)
    &&& match s.phase {
        UiPhase::Sleep | UiPhase::Observe => s.shown is None || (controls_shown && obs_shown),
        UiPhase::ClearActivity => s.activity == ACT_READING && !s.playing,
        UiPhase::ProbeServer | UiPhase::ShowControls => true,
        UiPhase::ReadObsidian | UiPhase::ClearObsidian => controls_shown,
        UiPhase::ProbeObsidian => controls_shown && s.obs != OBS_IDLE,
        UiPhase::ShowObsidian => controls_shown,
        UiPhase::FindTray => controls_shown && obs_shown,
        UiPhase::ShowTray => controls_shown && obs_shown && s.wanted() != s.key,
    }
    &&& s.phase is ClearObsidian ==> s.obs == OBS_IDLE
}

#[verifier::spinoff_prover]
#[verifier::rlimit(50)]
proof fn lemma_stays_in_step(s: UiLoop, f: Face, reply: UiReply)
    requires
        in_step(s, f),
    ensures
        in_step(s.after(reply), f.after(s.action(), reply)),
{
    match s.phase {
        UiPhase::Sleep => {},
        UiPhase::Observe => {},
        UiPhase::ClearActivity => {},
        UiPhase::ProbeServer => {},
        UiPhase::ShowControls => {},
        UiPhase::ReadObsidian => {},
        UiPhase::ProbeObsidian => {},
        UiPhase::ClearObsidian => {},
        UiPhase::ShowObsidian => {},
        UiPhase::FindTray => {},
        UiPhase::ShowTray => {},
    }
}

/// The loop and the menu bar are in step after any sequence of replies.
pub proof fn law_in_step(replies: Seq<UiReply>)
    ensures
        in_step(loop_after(replies), face_after(replies)),
    decreases replies.len(),
{
    if replies.len() > 0 {
        let before = replies.drop_last();
        law_in_step(before);
        lemma_stays_in_step(loop_after(before), face_after(before), replies.last());
    }
}

/// Once a round is over, the menu items show the state of the server, of playback and of the
/// reader as the round found it.
pub proof fn law_menu_is_true(replies: Seq<UiReply>)
    requires
        loop_after(replies).phase is Sleep,
        loop_after(replies).shown is Some,
    ensures
        ({
            let s = loop_after(replies);
            &&& face_after(replies).controls == controls_for(s.running, s.playing)
            &&& face_after(replies).obs == obs_controls_for(s.obs)
        }),
{
    law_in_step(replies);
}

/// The status item always shows either an icon or a glyph of the spinner, never both, never neither;
/// and the glyph is what it shows exactly if the loop believes so.
pub proof fn law_icon_or_spinner(replies: Seq<UiReply>)
    ensures
        face_after(replies).icon is Some <==> face_after(replies).title is None,
        face_after(replies).title is Some <==> loop_after(replies).key is Spinner,
{
    law_in_step(replies);
}

/// A round that finds the status item leaves it showing what the activity, the reader and the server
/// call for.
pub proof fn law_icon_is_true(replies: Seq<UiReply>)
    requires
        loop_after(replies).phase is FindTray,
    ensures
        ({
            let found = replies.push(UiReply::Tray(true));
            let set = found.push(UiReply::Done);
            let s = loop_after(replies);
            &&& loop_after(found).phase is Sleep ==> face_after(found).shows(s.wanted())
            &&& loop_after(found).phase is ShowTray ==> loop_after(set).phase is Sleep
                && face_after(set).shows(s.wanted())
            &&& loop_after(found).phase is Sleep || loop_after(found).phase is ShowTray
        }),
{
    let found = replies.push(UiReply::Tray(true));
    let set = found.push(UiReply::Done);
    assert(found.drop_last() =~= replies);
    assert(set.drop_last() =~= found);
    law_in_step(found);
    law_in_step(set);
}

/// The loop changes the stored activity only from reading to idle, and only once nothing is played;
/// it changes the stored reader state only to idle.
pub proof fn law_loop_only_clears(replies: Seq<UiReply>)
    ensures
        loop_after(replies).action() matches UiAction::StoreActivity(activity) ==> activity
            == ACT_IDLE && loop_after(replies).activity == ACT_READING && !loop_after(
            replies,
        ).playing,
        loop_after(replies).action() matches UiAction::StoreObsidian(obs) ==> obs == OBS_IDLE,
{
    law_in_step(replies);
}

/// Reading that is over is cleared at once: a round that finds the activity to be reading and nothing
/// playing stores that it is idle before it does anything else.
pub proof fn law_finished_reading_is_cleared(replies: Seq<UiReply>)
    requires
        loop_after(replies).phase is Observe,
    ensures
        loop_after(
            replies.push(UiReply::Observed { activity: ACT_READING, playing: false }),
        ).action() == UiAction::StoreActivity(ACT_IDLE),
{
    let reply = UiReply::Observed { activity: ACT_READING, playing: false };
    assert(replies.push(reply).drop_last() =~= replies);
}

/// A reader that does not answer when it is probed is taken for idle: this is stored next.
pub proof fn law_gone_reader_is_cleared(replies: Seq<UiReply>)
    requires
        loop_after(replies).phase is ProbeObsidian,
    ensures
        loop_after(replies.push(UiReply::Alive(false))).action() == UiAction::StoreObsidian(
            OBS_IDLE,
        ),
{
    law_in_step(replies);
    assert(replies.push(UiReply::Alive(false)).drop_last() =~= replies);
}

/// Of nine rounds in a row in which the count does not wrap around, exactly one probes.
pub proof fn law_one_probe_in_nine(frame: usize) -> (k: int)
    requires
        frame + 8 <= usize::MAX,
    ensures
        0 <= k < 9,
        (frame + k) % (PROBE_EVERY as int) == 0,
        forall|j: int| 0 <= j < 9 && j != k ==> (#[trigger] (frame + j)) % (PROBE_EVERY as int) != 0,
{
    let r = frame as int % 9;
    let k = if r == 0 {
        0
    } else {
        9 - r
    };
    k
}

/// A round that is to probe does: it asks the server whether it is up, and a reader that is active
/// whether it still answers. The first round asks the server in any case.
pub proof fn law_probing_round_probes(s: UiLoop, activity: u8, playing: bool, obs: u8)
    ensures
        s.phase is Observe && (s.probes() || s.shown is None) && settled(activity, playing)
            == activity ==> s.after(UiReply::Observed { activity, playing }).action()
            == UiAction::ProbeServer,
        s.phase is ClearActivity && (s.probes() || s.shown is None) ==> s.after(
            UiReply::Done,
        ).action() == UiAction::ProbeServer,
        s.phase is ReadObsidian && s.probes() && obs != OBS_IDLE ==> s.after(
            UiReply::Obsidian(obs),
        ).action() == UiAction::ProbeObsidian,
{
}

/// The number of steps that a round may still take.
pub open spec fn steps_left(phase: UiPhase) -> nat {
    match phase {
        UiPhase::Sleep => 0,
        UiPhase::ShowTray => 1,
        UiPhase::FindTray => 2,
        UiPhase::ShowObsidian => 3,
        UiPhase::ClearObsidian => 4,
        UiPhase::ProbeObsidian => 5,
        UiPhase::ReadObsidian => 6,
        UiPhase::ShowControls => 7,
        UiPhase::ProbeServer => 8,
        UiPhase::ClearActivity => 9,
        UiPhase::Observe => 10,
    }
}

/// Whether `reply` answers the action that is pending in `phase`.
pub open spec fn answers(phase: UiPhase, reply: UiReply) -> bool {
    match phase {
        UiPhase::Observe => reply is Observed,
        UiPhase::ProbeServer => reply is Server,
        UiPhase::ReadObsidian => reply is Obsidian,
        UiPhase::ProbeObsidian => reply is Alive,
        UiPhase::FindTray => reply is Tray,
        _ => reply is Done,
    }
}

/// Every reply that answers the pending action brings a round nearer to its end.
pub proof fn law_round_ends(s: UiLoop, reply: UiReply)
    requires
        answers(s.phase, reply),
        !(s.phase is Sleep),
    ensures
        steps_left(s.after(reply).phase) < steps_left(s.phase),
{
}

/// While audio is being generated anywhere, the spinner is shown; else, while audio is being played
/// anywhere, the reading icons are; a server that is off shows only when neither is the case.
pub proof fn law_spinner_comes_first(activity: u8, obs: u8, running: bool, frame: usize)
    ensures
        key_for(effective(activity, obs), running, frame) is Spinner <==> activity == ACT_PROCESSING
            || obs == OBS_PROCESSING,
        key_for(effective(activity, obs), running, frame) is Off ==> activity != ACT_READING && obs
            != OBS_READING && !running,
{
}

// ---- what the rounds found ---------------------------------------------------------------------

/// The number of rounds that have begun.
pub open spec fn rounds(replies: Seq<UiReply>) -> nat
    decreases replies.len(),
{
    if replies.len() == 0 {
        0
    } else {
        rounds(replies.drop_last()) + (if loop_after(replies.drop_last()).action() is Sleep
            && replies.last() is Done {
            1nat
        } else {
            0
        })
    }
}

/// The number of the round, which wraps around.
pub open spec fn round_number(replies: Seq<UiReply>) -> int {
    rounds(replies) as int % (usize::MAX + 1)
}

/// The activity and whether playback went on, as the loop last found them.
pub open spec fn last_observed(replies: Seq<UiReply>) -> Option<(u8, bool)>
    decreases replies.len(),
{
    if replies.len() == 0 {
        None
    } else {
        match (loop_after(replies.drop_last()).action(), replies.last()) {
            (UiAction::Observe, UiReply::Observed { activity, playing }) => Some(
                (activity, playing),
            ),
            _ => last_observed(replies.drop_last()),
        }
    }
}

/// Whether the server was up when it was last asked, and in which round that was.
pub open spec fn last_server(replies: Seq<UiReply>) -> Option<(bool, nat)>
    decreases replies.len(),
{
    if replies.len() == 0 {
        None
    } else {
        match (loop_after(replies.drop_last()).action(), replies.last()) {
            (UiAction::ProbeServer, UiReply::Server(up)) => Some((up, rounds(replies))),
            _ => last_server(replies.drop_last()),
        }
    }
}

/// The reader's state as the loop last found it: as it was loaded, or idle where the reader was then
/// asked and did not answer.
pub open spec fn last_reader(replies: Seq<UiReply>) -> Option<u8>
    decreases replies.len(),
{
    if replies.len() == 0 {
        None
    } else {
        match (loop_after(replies.drop_last()).action(), replies.last()) {
            (UiAction::ReadObsidian, UiReply::Obsidian(obs)) => Some(obs),
            (UiAction::ProbeObsidian, UiReply::Alive(alive)) => if alive {
                last_reader(replies.drop_last())
            } else {
                Some(0u8)
            },
            _ => last_reader(replies.drop_last()),
        }
    }
}

/// The reader's state as it was last loaded, and the round in which the reader was last asked
/// whether it answers.
pub open spec fn last_probe(replies: Seq<UiReply>) -> (u8, nat)
    decreases replies.len(),
{
    if replies.len() == 0 {
        (0u8, 0)
    } else {
        let before = last_probe(replies.drop_last());
        match (loop_after(replies.drop_last()).action(), replies.last()) {
            (UiAction::ReadObsidian, UiReply::Obsidian(obs)) => (obs, before.1),
            (UiAction::ProbeObsidian, UiReply::Alive(_)) => (before.0, rounds(replies)),
            _ => before,
        }
    }
}

/// Whether the status item was there when it was last looked up.
pub open spec fn last_tray(replies: Seq<UiReply>) -> Option<bool>
    decreases replies.len(),
{
    if replies.len() == 0 {
        None
    } else {
        match (loop_after(replies.drop_last()).action(), replies.last()) {
            (UiAction::FindTray, UiReply::Tray(present)) => Some(present),
            _ => last_tray(replies.drop_last()),
        }
    }
}

proof fn lemma_next_number(n: int, m: int)
    requires
        0 <= n,
        0 < m,
    ensures
        (n + 1) % m == (if n % m == m - 1 {
            0
        } else {
            n % m + 1
        }),
        0 <= n % m < m,
{
    vstd::arithmetic::div_mod::lemma_fundamental_div_mod(n, m);
    let (q, r) = (n / m, n % m);
    assert(0 <= r < m) by (nonlinear_arith)
        requires
            m > 0,
            r == n % m,
    ;
    if r == m - 1 {
        assert(n + 1 == (q + 1) * m + 0) by (nonlinear_arith)
            requires
                n == m * q + r,
                r == m - 1,
        ;
        vstd::arithmetic::div_mod::lemma_fundamental_div_mod_converse(n + 1, m, q + 1, 0);
    } else {
        assert(n + 1 == q * m + (r + 1)) by (nonlinear_arith)
            requires
                n == m * q + r,
        ;
        vstd::arithmetic::div_mod::lemma_fundamental_div_mod_converse(n + 1, m, q, r + 1);
    }
}

spec fn activity_found(observed: (u8, bool)) -> u8 {
    if observed.0 == 2 && !observed.1 {
        0
    } else {
        observed.0
    }
}

/// What the loop holds of what it was told.
spec fn remembers(replies: Seq<UiReply>) -> bool {
    let s = loop_after(replies);
    &&& s.frame == round_number(replies)
    &&& s.playing == (last_observed(replies) matches Some((_, playing)) && playing)
    &&& s.running == (last_server(replies) matches Some((up, _)) && up)
    &&& s.obs == (match last_reader(replies) {
        Some(obs) => obs,
        None => 0u8,
    })
    &&& match last_observed(replies) {
        None => s.activity == 0 && (s.phase is Sleep || s.phase is Observe),
        Some(seen) => s.activity == (if s.phase is ClearActivity {
            seen.0
        } else {
            activity_found(seen)
        }),
    }
}

/// What the loop has been told by the time it comes to a phase.
spec fn is_told(replies: Seq<UiReply>) -> bool {
    let s = loop_after(replies);
    let n = rounds(replies);
    &&& n == 0 <==> s == UiLoop::initial()
    &&& n == 0 ==> s.phase is Sleep
    &&& n > 1 ==> s.shown is Some
    &&& s.shown is Some ==> last_server(replies) is Some
    &&& match s.phase {
        UiPhase::Sleep => n > 0 ==> s.shown is Some && last_observed(replies) is Some
            && last_reader(replies) is Some && last_tray(replies) is Some && (last_tray(replies)
            == Some(true) ==> s.key == s.wanted()),
        UiPhase::Observe => n == 1 <==> s.shown is None,
        UiPhase::ClearActivity | UiPhase::ProbeServer => (n == 1 <==> s.shown is None)
            && last_observed(replies) is Some,
        UiPhase::ShowControls => (n == 1 <==> s.shown is None) && last_observed(replies) is Some
            && last_server(replies) is Some && s.shown != Some((s.running, s.playing)),
        UiPhase::ReadObsidian => last_observed(replies) is Some && s.shown is Some,
        _ => last_observed(replies) is Some && last_reader(replies) is Some && s.shown is Some,
    }
    &&& s.phase is ShowTray ==> last_tray(replies) == Some(true)
}

/// In which rounds the loop has asked.
spec fn has_asked(replies: Seq<UiReply>) -> bool {
    let s = loop_after(replies);
    let n = rounds(replies);
    let server_asked = last_server(replies) matches Some((_, at)) && at == n;
    let to_probe = round_number(replies) % 9 == 0;
    let reader_asked = last_probe(replies).1 == n;
    &&& last_server(replies) matches Some((_, at)) ==> 0 < at <= n
    &&& last_probe(replies).1 <= n
    &&& match s.phase {
        UiPhase::Sleep => n > 0 ==> (server_asked <==> to_probe || n == 1) && (reader_asked
            <==> to_probe && last_probe(replies).0 != 0),
        UiPhase::Observe | UiPhase::ClearActivity => !server_asked && !reader_asked,
        UiPhase::ProbeServer => !server_asked && (to_probe || n == 1) && !reader_asked,
        UiPhase::ShowControls | UiPhase::ReadObsidian => (server_asked <==> to_probe || n == 1)
            && !reader_asked,
        UiPhase::ProbeObsidian => (server_asked <==> to_probe || n == 1) && !reader_asked
            && to_probe && last_probe(replies).0 == s.obs,
        _ => (server_asked <==> to_probe || n == 1) && (reader_asked <==> to_probe && last_probe(
            replies,
        ).0 != 0),
    }
}

#[verifier::spinoff_prover]
#[verifier::rlimit(50)]
proof fn lemma_remembers(replies: Seq<UiReply>)
    ensures
        remembers(replies),
    decreases replies.len(),
{
    if replies.len() > 0 {
        let before = replies.drop_last();
        lemma_remembers(before);
        law_in_step(before);
        lemma_next_number(rounds(before) as int, usize::MAX + 1);
    } else {
        lemma_small_number();
    }
}

#[verifier::spinoff_prover]
#[verifier::rlimit(50)]
proof fn lemma_is_told(replies: Seq<UiReply>)
    ensures
        is_told(replies),
    decreases replies.len(),
{
    if replies.len() > 0 {
        lemma_is_told(replies.drop_last());
    }
}

#[verifier::spinoff_prover]
#[verifier::rlimit(50)]
proof fn lemma_has_asked(replies: Seq<UiReply>)
    ensures
        has_asked(replies),
    decreases replies.len(),
{
    if replies.len() > 0 {
        let before = replies.drop_last();
        lemma_has_asked(before);
        lemma_is_told(before);
        lemma_remembers(before);
        law_in_step(before);
    }
}

proof fn lemma_small_number()
    ensures
        0int % (usize::MAX + 1) == 0,
{
    vstd::arithmetic::div_mod::lemma_small_mod(0, (usize::MAX + 1) as nat);
}

/// Once a round is over, the menu items tell what it found. The item that stops reading is enabled
/// exactly if playback went on when the round looked, the one that speaks exactly if the server was
/// up when it was last asked and nothing was played, and the two for the server exactly if it was
/// not up, and if it was. The reader's items are enabled exactly if the reader was not idle, and
/// offer to resume exactly if it was paused.
pub proof fn law_menu_tells_what_the_round_found(replies: Seq<UiReply>)
    requires
        loop_after(replies).action() is Sleep,
        rounds(replies) > 0,
    ensures
        match (last_observed(replies), last_server(replies), last_reader(replies)) {
            (Some((_, playing)), Some((up, _)), Some(obs)) => {
                let f = face_after(replies);
                &&& f.controls.stop_read == playing
                &&& f.controls.speak == (up && !playing)
                &&& f.controls.start == !up
                &&& f.controls.stop == up
                &&& f.obs.enabled == (obs != 0)
                &&& f.obs.resume == (obs == 3)
            },
            _ => false,
        },
{
    lemma_remembers(replies);
    lemma_is_told(replies);
    law_in_step(replies);
}

/// The items are set to what the round has found so far, and only where that is not what they show.
pub proof fn law_items_are_set_to_what_was_found(replies: Seq<UiReply>)
    ensures
        loop_after(replies).action() matches UiAction::SetControls(c) ==> (match (
            last_observed(replies),
            last_server(replies),
        ) {
            (Some((_, playing)), Some((up, _))) => c.stop_read == playing && c.speak == (up
                && !playing) && c.start == !up && c.stop == up && (rounds(replies) > 1 ==> c
                != face_after(replies).controls),
            _ => false,
        }),
        loop_after(replies).action() matches UiAction::SetObsControls(c) ==> (last_reader(
            replies,
        ) matches Some(obs) && c.enabled == (obs != 0) && c.resume == (obs == 3)),
{
    lemma_remembers(replies);
    lemma_is_told(replies);
    law_in_step(replies);
}

/// A round that finds the status item leaves it showing what the round found. While audio is being
/// generated, by the app or by the reader, it shows the glyph of the spinner whose turn it is, and no
/// icon. Else, while audio is being played by either, it shows the icon for reading whose turn it is.
/// Else it shows whether the server is up. Reading of the app's own that is over counts as none.
pub proof fn law_status_item_tells_what_the_round_found(replies: Seq<UiReply>)
    requires
        loop_after(replies).action() is Sleep,
        rounds(replies) > 0,
        last_tray(replies) == Some(true),
    ensures
        match (last_observed(replies), last_server(replies), last_reader(replies)) {
            (Some((activity, playing)), Some((up, _)), Some(obs)) => {
                let f = face_after(replies);
                let n = round_number(replies);
                if activity == 1 || obs == 1 {
                    f.icon is None && f.title == Some((n % 10) as usize)
                } else if activity == 2 && playing || obs == 2 {
                    f.icon == Some(TrayIcon::Reading((n % 8) as usize)) && f.title is None
                } else if up {
                    f.icon == Some(TrayIcon::Idle) && f.title is None
                } else {
                    f.icon == Some(TrayIcon::Off) && f.title is None
                }
            },
            _ => false,
        },
{
    lemma_remembers(replies);
    lemma_is_told(replies);
    law_in_step(replies);
}

/// The icon is taken away for the spinner exactly if there is one, and the spinner's text for an icon
/// exactly if there is some.
pub proof fn law_status_item_is_changed_over(replies: Seq<UiReply>)
    ensures
        loop_after(replies).action() matches UiAction::SetTray(TrayUpdate::Spin { hide_icon, .. })
            ==> hide_icon == (face_after(replies).icon is Some),
        loop_after(replies).action() matches UiAction::SetTray(TrayUpdate::Show { clear_title, .. })
            ==> clear_title == (face_after(replies).title is Some),
{
    law_in_step(replies);
}

/// The server is asked in the first round and in every ninth, and in no other; the reader in every
/// ninth in which it was not idle, and in no other. Asking comes before the items are set.
pub proof fn law_when_the_loop_asks(replies: Seq<UiReply>)
    ensures
        loop_after(replies).action() is ProbeServer ==> round_number(replies) % 9 == 0 || rounds(
            replies,
        ) == 1,
        loop_after(replies).action() is ProbeObsidian ==> round_number(replies) % 9 == 0
            && last_probe(replies).0 != 0,
        loop_after(replies).action() is SetControls || loop_after(replies).action() is ReadObsidian
            || (loop_after(replies).action() is Sleep && rounds(replies) > 0) ==> (last_server(
            replies,
        ) matches Some((_, at)) && (at == rounds(replies) <==> round_number(replies) % 9 == 0
            || rounds(replies) == 1)),
        loop_after(replies).action() is SetObsControls || (loop_after(replies).action() is Sleep
            && rounds(replies) > 0) ==> (last_probe(replies).1 == rounds(replies) <==> round_number(
            replies,
        ) % 9 == 0 && last_probe(replies).0 != 0),
{
    lemma_has_asked(replies);
    lemma_is_told(replies);
    law_in_step(replies);
}

/// What the loop stores: that the app is idle, exactly where it found the activity to be reading and
/// nothing playing; and that the reader is idle.
pub proof fn law_what_the_loop_stores(replies: Seq<UiReply>, activity: u8, playing: bool)
    ensures
        loop_after(replies).action() matches UiAction::StoreActivity(a) ==> a == 0 && last_observed(
            replies,
        ) == Some((2u8, false)),
        loop_after(replies).action() is Observe ==> (loop_after(
            replies.push(UiReply::Observed { activity, playing }),
        ).action() is StoreActivity <==> activity == 2 && !playing),
        loop_after(replies).action() matches UiAction::StoreObsidian(obs) ==> obs == 0
            && last_reader(replies) == Some(0u8),
        loop_after(replies).action() is ProbeObsidian ==> loop_after(
            replies.push(UiReply::Alive(false)),
        ).action() is StoreObsidian && !(loop_after(
            replies.push(UiReply::Alive(true)),
        ).action() is StoreObsidian),
{
    lemma_remembers(replies);
    law_in_step(replies);
    assert(replies.push(UiReply::Observed { activity, playing }).drop_last() =~= replies);
    assert(replies.push(UiReply::Alive(false)).drop_last() =~= replies);
    assert(replies.push(UiReply::Alive(true)).drop_last() =~= replies);
    lemma_clearing(replies);
}

proof fn lemma_clearing(replies: Seq<UiReply>)
    ensures
        loop_after(replies).phase is ClearActivity ==> last_observed(replies) == Some((2u8, false)),
        loop_after(replies).phase is ClearObsidian ==> last_reader(replies) == Some(0u8),
    decreases replies.len(),
{
    if replies.len() > 0 {
        lemma_clearing(replies.drop_last());
        lemma_remembers(replies);
        law_in_step(replies);
    }
}

/// The activity of the app and the reader taken together: generating where either generates, else
/// reading where either reads, else idle.
pub proof fn law_activities_taken_together(activity: u8, obs: u8)
    ensures
        effective(activity, obs) == 1 <==> activity == 1 || obs == 1,
        effective(activity, obs) == 2 <==> activity != 1 && obs != 1 && (activity == 2 || obs == 2),
        effective(activity, obs) == 0 <==> activity != 1 && obs != 1 && activity != 2 && obs != 2,
{
}

/// A reply that does not answer the pending action has no say in the loop.
pub proof fn law_loop_heeds_only_answers(s: UiLoop, reply: UiReply)
    requires
        !answers(s.phase, reply),
    ensures
        s.after(reply) == s,
{
}

/// The glyphs of the spinner are ten characters of the Braille block, each unlike the others.
pub proof fn law_spinner_turns()
    ensures
        spinner_glyphs().len() == 10,
        forall|i: int|
            0 <= i < 10 ==> (#[trigger] spinner_glyphs()[i]).len() == 1 && '\u{2800}'
                <= spinner_glyphs()[i][0] <= '\u{28ff}',
        spinner_glyphs().no_duplicates(),
{
    reveal_strlit("⠋");
    reveal_strlit("⠙");
    reveal_strlit("⠹");
    reveal_strlit("⠸");
    reveal_strlit("⠼");
    reveal_strlit("⠴");
    reveal_strlit("⠦");
    reveal_strlit("⠧");
    reveal_strlit("⠇");
    reveal_strlit("⠏");
    let g = spinner_glyphs();
    assert forall|i: int, j: int| 0 <= i < 10 && 0 <= j < 10 && i != j implies g[i] != g[j] by {
        assert(g[i][0] != g[j][0]);
    }
}

/// A reader that is paused is offered to be resumed, and any other to be paused.
pub proof fn law_paused_reader_is_resumed(obs: u8)
    ensures
        toggle_label_of(obs_controls_for(obs).resume) == "Resume Obsidian"@ <==> obs == 3,
        toggle_label_of(obs_controls_for(obs).resume) == "Pause Obsidian"@ <==> obs != 3,
{
    reveal_strlit("Resume Obsidian");
    reveal_strlit("Pause Obsidian");
    assert("Resume Obsidian"@[0] != "Pause Obsidian"@[0]);
}

/// The loop asks about once a second: nine rounds take just under one.
pub proof fn law_loop_asks_about_once_a_second()
    ensures
        PROBE_EVERY * ROUND_MILLIS == 990,
{
}

/// The reader's state that its items were last set for.
pub open spec fn last_shown_reader(replies: Seq<UiReply>) -> Option<u8>
    decreases replies.len(),
{
    if replies.len() == 0 {
        None
    } else {
        match (loop_after(replies.drop_last()).action(), replies.last()) {
            (UiAction::SetObsControls(_), UiReply::Done) => last_reader(replies.drop_last()),
            _ => last_shown_reader(replies.drop_last()),
        }
    }
}

/// Whether the status item was ever changed.
pub open spec fn tray_changed(replies: Seq<UiReply>) -> bool
    decreases replies.len(),
{
    replies.len() > 0 && (tray_changed(replies.drop_last()) || (loop_after(
        replies.drop_last(),
    ).action() is SetTray && replies.last() is Done))
}

#[verifier::spinoff_prover]
#[verifier::rlimit(50)]
proof fn lemma_shown(replies: Seq<UiReply>)
    ensures
        loop_after(replies).shown_obs == last_shown_reader(replies),
        loop_after(replies).phase is ShowObsidian ==> loop_after(replies).shown_obs != Some(
            loop_after(replies).obs,
        ),
        loop_after(replies).key is Initial <==> !tray_changed(replies),
    decreases replies.len(),
{
    if replies.len() > 0 {
        let before = replies.drop_last();
        lemma_shown(before);
        lemma_remembers(before);
        lemma_is_told(before);
    }
}

/// Nothing is set in vain: the reader's items are set only where its state is not the one that they
/// were set for, and by the end of a round they are; and once the status item has been changed, it is
/// changed only where it does not show the same already.
pub proof fn law_nothing_is_set_in_vain(replies: Seq<UiReply>)
    ensures
        loop_after(replies).action() is SetObsControls ==> last_shown_reader(replies)
            != last_reader(replies),
        loop_after(replies).action() is Sleep && rounds(replies) > 0 ==> last_shown_reader(replies)
            == last_reader(replies),
        loop_after(replies).action() matches UiAction::SetTray(TrayUpdate::Spin { glyph, .. })
            ==> face_after(replies).title != Some(glyph),
        loop_after(replies).action() matches UiAction::SetTray(TrayUpdate::Show { icon, .. })
            ==> face_after(replies).icon != Some(icon) || !tray_changed(replies),
{
    lemma_shown(replies);
    lemma_remembers(replies);
    lemma_is_told(replies);
    law_in_step(replies);
}

} // verus!
