//! The menu behind the status icon: its entries, and what choosing one of them or pressing a
//! shortcut stands for.

use crate::text::{
    begins_with, chars_of, law_repetitions_are_taken_off, same_text, strip_all, strip_all_of,
    text_of,
};
use crate::ui::{Face, ACT_IDLE};
use crate::voice::{
    label_of, law_voices_on_offer, plain_voice, voice_ids, voice_label, voices, DEFAULT_VOICE,
};
use vstd::prelude::*;

verus! {

/// The file in the log directory that holds the log.
pub const LOG_FILE: &'static str = "Otoha.log";

/// The label of the submenu of voices.
pub const VOICE_MENU: &'static str = "Voice";

/// The label of the submenu of speeds.
pub const SPEED_MENU: &'static str = "Speed";

/// The label of the submenu of server URLs.
pub const COPY_MENU: &'static str = "Copy server URL";

// ---- commands ----------------------------------------------------------------------------------

/// What a menu entry stands for, with texts of type `T`.
#[derive(Debug)]
pub enum MenuCommand<T> {
    /// Speak the selection.
    Speak,
    /// Stop reading, by the steps of `stop_reading`.
    StopReading,
    /// Pause or resume the reader.
    ToggleObsidian,
    /// Stop the reader.
    StopObsidian,
    StartServer,
    StopServer,
    /// Leave, by the steps of `quit`.
    Quit,
    OpenLog,
    OpenSettings,
    CheckUpdate,
    /// Copy the server's URL on this machine.
    CopyLocal,
    /// Copy the server's URL in the local network, if there is one.
    CopyLan,
    /// Copy the server's URL in the Tailscale network, if there is one.
    CopyTailscale,
    /// Use this voice from now on.
    ChooseVoice(T),
    /// Use the speed that this text stands for from now on, if it stands for one.
    ChooseSpeed(T),
    /// Nothing.
    Nothing,
}

impl View for MenuCommand<String> {
    type V = MenuCommand<Seq<char>>;

    open spec fn view(&self) -> MenuCommand<Seq<char>> {
        match self {
            MenuCommand::Speak => MenuCommand::Speak,
            MenuCommand::StopReading => MenuCommand::StopReading,
            MenuCommand::ToggleObsidian => MenuCommand::ToggleObsidian,
            MenuCommand::StopObsidian => MenuCommand::StopObsidian,
            MenuCommand::StartServer => MenuCommand::StartServer,
            MenuCommand::StopServer => MenuCommand::StopServer,
            MenuCommand::Quit => MenuCommand::Quit,
            MenuCommand::OpenLog => MenuCommand::OpenLog,
            MenuCommand::OpenSettings => MenuCommand::OpenSettings,
            MenuCommand::CheckUpdate => MenuCommand::CheckUpdate,
            MenuCommand::CopyLocal => MenuCommand::CopyLocal,
            MenuCommand::CopyLan => MenuCommand::CopyLan,
            MenuCommand::CopyTailscale => MenuCommand::CopyTailscale,
            MenuCommand::ChooseVoice(t) => MenuCommand::ChooseVoice(t@),
            MenuCommand::ChooseSpeed(t) => MenuCommand::ChooseSpeed(t@),
            MenuCommand::Nothing => MenuCommand::Nothing,
        }
    }
}

/// What the entry `id` stands for.
pub open spec fn command_of(id: Seq<char>) -> MenuCommand<Seq<char>> {
    if id == "speak"@ {
        MenuCommand::Speak
    } else if id == "stop_read"@ {
        MenuCommand::StopReading
    } else if id == "obs_toggle"@ {
        MenuCommand::ToggleObsidian
    } else if id == "obs_stop"@ {
        MenuCommand::StopObsidian
    } else if id == "start"@ {
        MenuCommand::StartServer
    } else if id == "stop"@ {
        MenuCommand::StopServer
    } else if id == "quit"@ {
        MenuCommand::Quit
    } else if id == "open_log"@ {
        MenuCommand::OpenLog
    } else if id == "settings"@ {
        MenuCommand::OpenSettings
    } else if id == "check_update"@ {
        MenuCommand::CheckUpdate
    } else if id == "copy_local"@ {
        MenuCommand::CopyLocal
    } else if id == "copy_lan"@ {
        MenuCommand::CopyLan
    } else if id == "copy_ts"@ {
        MenuCommand::CopyTailscale
    } else if "voice:"@.is_prefix_of(id) {
        MenuCommand::ChooseVoice(strip_all_of(id, "voice:"@))
    } else if "speed:"@.is_prefix_of(id) {
        MenuCommand::ChooseSpeed(strip_all_of(id, "speed:"@))
    } else {
        MenuCommand::Nothing
    }
}

/// What choosing the entry `id` stands for.
pub fn menu_command(id: &str) -> (r: MenuCommand<String>)
    ensures
        r@ == command_of(id@),
{
    let c = chars_of(id);
    let voice = chars_of("voice:");
    let speed = chars_of("speed:");
    if same_text(id, "speak") {
        MenuCommand::Speak
    } else if same_text(id, "stop_read") {
        MenuCommand::StopReading
    } else if same_text(id, "obs_toggle") {
        MenuCommand::ToggleObsidian
    } else if same_text(id, "obs_stop") {
        MenuCommand::StopObsidian
    } else if same_text(id, "start") {
        MenuCommand::StartServer
    } else if same_text(id, "stop") {
        MenuCommand::StopServer
    } else if same_text(id, "quit") {
        MenuCommand::Quit
    } else if same_text(id, "open_log") {
        MenuCommand::OpenLog
    } else if same_text(id, "settings") {
        MenuCommand::OpenSettings
    } else if same_text(id, "check_update") {
        MenuCommand::CheckUpdate
    } else if same_text(id, "copy_local") {
        MenuCommand::CopyLocal
    } else if same_text(id, "copy_lan") {
        MenuCommand::CopyLan
    } else if same_text(id, "copy_ts") {
        MenuCommand::CopyTailscale
    } else if begins_with(c.as_slice(), voice.as_slice()) {
        MenuCommand::ChooseVoice(text_of(strip_all(c.as_slice(), voice.as_slice())))
    } else if begins_with(c.as_slice(), speed.as_slice()) {
        MenuCommand::ChooseSpeed(text_of(strip_all(c.as_slice(), speed.as_slice())))
    } else {
        MenuCommand::Nothing
    }
}

/// What a shortcut stands for.
#[derive(Clone, Copy, Debug, PartialEq, Eq, Structural)]
pub enum ShortcutCommand {
    /// Speak the selection.
    Speak,
    /// Stop reading, by the steps of `stop_reading`.
    StopReading,
}

/// A letter together with the command and option keys.
#[derive(Clone, Copy, Debug, PartialEq, Eq, Structural)]
pub struct Shortcut {
    pub command: bool,
    pub option: bool,
    pub letter: char,
}

/// The shortcut that speaks the selection.
pub fn speak_shortcut() -> (r: Shortcut)
    ensures
        r == (Shortcut { command: true, option: true, letter: 'S' }),
{
    Shortcut { command: true, option: true, letter: 'S' }
}

/// The shortcut that stops playback.
pub fn stop_shortcut() -> (r: Shortcut)
    ensures
        r == (Shortcut { command: true, option: true, letter: 'X' }),
{
    Shortcut { command: true, option: true, letter: 'X' }
}

/// What `shortcut` stands for, as it goes down or, where `pressed` is false, up.
pub open spec fn shortcut_of(pressed: bool, shortcut: Shortcut) -> Option<ShortcutCommand> {
    if !pressed || !shortcut.command || !shortcut.option {
        None
    } else if shortcut.letter == 'S' {
        Some(ShortcutCommand::Speak)
    } else if shortcut.letter == 'X' {
        Some(ShortcutCommand::StopReading)
    } else {
        None
    }
}

/// What `shortcut` stands for, as it goes down or, where `pressed` is false, up.
pub fn shortcut_command(pressed: bool, shortcut: Shortcut) -> (r: Option<ShortcutCommand>)
    ensures
        r == (if pressed && shortcut == (Shortcut { command: true, option: true, letter: 'S' }) {
            Some(ShortcutCommand::Speak)
        } else if pressed && shortcut == (Shortcut { command: true, option: true, letter: 'X' }) {
            Some(ShortcutCommand::StopReading)
        } else {
            None
        }),
        r == shortcut_of(pressed, shortcut),
{
    if !pressed {
        None
    } else if shortcut == speak_shortcut() {
        Some(ShortcutCommand::Speak)
    } else if shortcut == stop_shortcut() {
        Some(ShortcutCommand::StopReading)
    } else {
        None
    }
}

/// A step in carrying out a command.
#[derive(Clone, Copy, Debug, PartialEq, Eq, Structural)]
pub enum AppStep {
    /// Stop playback.
    StopPlayback,
    /// Stop the speech server.
    StopServer,
    /// Set the activity.
    StoreActivity(u8),
    /// End the app.
    Exit,
}

/// The steps that stop reading.
pub open spec fn stop_reading_steps() -> Seq<AppStep> {
    seq![AppStep::StopPlayback, AppStep::StoreActivity(ACT_IDLE)]
}

/// The steps that end the app.
pub open spec fn quit_steps() -> Seq<AppStep> {
    seq![AppStep::StopPlayback, AppStep::StopServer, AppStep::Exit]
}

/// The steps that stop reading: playback stops, and then the activity becomes idle.
pub fn stop_reading() -> (r: Vec<AppStep>)
    ensures
        r@ == seq![AppStep::StopPlayback, AppStep::StoreActivity(ACT_IDLE)],
        r@ == stop_reading_steps(),
{
    let steps: Vec<AppStep> = vec![AppStep::StopPlayback, AppStep::StoreActivity(ACT_IDLE)];
    steps
}

/// The steps that end the app: playback and the server stop before it goes, so that neither
/// outlives it.
pub fn quit() -> (r: Vec<AppStep>)
    ensures
        r@ == seq![AppStep::StopPlayback, AppStep::StopServer, AppStep::Exit],
        r@ == quit_steps(),
{
    let steps: Vec<AppStep> = vec![AppStep::StopPlayback, AppStep::StopServer, AppStep::Exit];
    steps
}

// ---- entries -----------------------------------------------------------------------------------

/// An entry of the menu, with texts of type `T`.
pub enum MenuEntry<T> {
    /// An item that can be chosen while it is enabled.
    Item { id: T, label: T, enabled: bool },
    /// A line between items.
    Separator,
    /// The submenu of voices.
    Voices,
    /// The submenu of speeds.
    Speeds,
    /// The submenu of server URLs.
    CopyUrls,
}

impl View for MenuEntry<&'static str> {
    type V = MenuEntry<Seq<char>>;

    open spec fn view(&self) -> MenuEntry<Seq<char>> {
        match self {
            MenuEntry::Item { id, label, enabled } => MenuEntry::Item {
                id: id@,
                label: label@,
                enabled: *enabled,
            },
            MenuEntry::Separator => MenuEntry::Separator,
            MenuEntry::Voices => MenuEntry::Voices,
            MenuEntry::Speeds => MenuEntry::Speeds,
            MenuEntry::CopyUrls => MenuEntry::CopyUrls,
        }
    }
}

/// What a list of entries shows.
pub open spec fn entries_view(entries: Seq<MenuEntry<&'static str>>) -> Seq<MenuEntry<Seq<char>>> {
    entries.map_values(|e: MenuEntry<&'static str>| e@)
}

/// The item `id` with `label`.
pub open spec fn item_of(id: Seq<char>, label: Seq<char>, enabled: bool) -> MenuEntry<Seq<char>> {
    MenuEntry::Item { id, label, enabled }
}

fn item(id: &'static str, label: &'static str, enabled: bool) -> (r: MenuEntry<&'static str>)
    ensures
        r@ == item_of(id@, label@, enabled),
{
    MenuEntry::Item { id, label, enabled }
}

/// The entries of the menu, from top to bottom, as they are before the first round of the loop.
pub open spec fn tray_entries() -> Seq<MenuEntry<Seq<char>>> {
    seq![
        item_of("speak"@, "Speak selection  ⌘⌥S"@, true),
        item_of("stop_read"@, "Stop reading  ⌘⌥X"@, false),
        item_of("obs_toggle"@, "Pause Obsidian"@, false),
        item_of("obs_stop"@, "Stop Obsidian"@, false),
        MenuEntry::Separator,
        MenuEntry::Voices,
        MenuEntry::Speeds,
        MenuEntry::Separator,
        item_of("start"@, "Start server"@, false),
        item_of("stop"@, "Stop server"@, true),
        MenuEntry::Separator,
        MenuEntry::CopyUrls,
        item_of("open_log"@, "Open log"@, true),
        item_of("check_update"@, "Check for Updates…"@, true),
        item_of("settings"@, "Settings…"@, true),
        MenuEntry::Separator,
        item_of("quit"@, "Quit Otoha"@, true),
    ]
}

/// The entries of the submenu of server URLs.
pub open spec fn copy_entries() -> Seq<MenuEntry<Seq<char>>> {
    seq![
        item_of("copy_local"@, "Copy localhost URL"@, true),
        item_of("copy_lan"@, "Copy LAN URL"@, true),
        item_of("copy_ts"@, "Copy Tailscale URL"@, true),
    ]
}

/// The entries of the menu, from top to bottom.
pub fn tray_menu() -> (r: Vec<MenuEntry<&'static str>>)
    ensures
        entries_view(r@) == tray_entries(),
{
    let r: Vec<MenuEntry<&'static str>> = vec![
        item("speak", "Speak selection  ⌘⌥S", true),
        item("stop_read", "Stop reading  ⌘⌥X", false),
        item("obs_toggle", "Pause Obsidian", false),
        item("obs_stop", "Stop Obsidian", false),
        MenuEntry::Separator,
        MenuEntry::Voices,
        MenuEntry::Speeds,
        MenuEntry::Separator,
        item("start", "Start server", false),
        item("stop", "Stop server", true),
        MenuEntry::Separator,
        MenuEntry::CopyUrls,
        item("open_log", "Open log", true),
        item("check_update", "Check for Updates…", true),
        item("settings", "Settings…", true),
        MenuEntry::Separator,
        item("quit", "Quit Otoha", true),
    ];
    assert(entries_view(r@) =~= tray_entries());
    r
}

/// The entries of the submenu of server URLs.
pub fn copy_menu() -> (r: Vec<MenuEntry<&'static str>>)
    ensures
        entries_view(r@) == copy_entries(),
{
    let r: Vec<MenuEntry<&'static str>> = vec![
        item("copy_local", "Copy localhost URL", true),
        item("copy_lan", "Copy LAN URL", true),
        item("copy_ts", "Copy Tailscale URL", true),
    ];
    assert(entries_view(r@) =~= copy_entries());
    r
}

/// An item with a check mark, with texts of type `T`.
pub struct CheckItem<T> {
    pub id: T,
    pub label: T,
    pub checked: bool,
}

impl View for CheckItem<String> {
    type V = CheckItem<Seq<char>>;

    open spec fn view(&self) -> CheckItem<Seq<char>> {
        CheckItem { id: self.id@, label: self.label@, checked: self.checked }
    }
}

/// The item for the voice `id`: the default voice is checked.
pub open spec fn voice_item_of(id: Seq<char>) -> CheckItem<Seq<char>> {
    CheckItem { id: "voice:"@ + id, label: label_of(id), checked: id == DEFAULT_VOICE@ }
}

/// The label of a speed, given how its number is shown and whether it is the normal one.
pub open spec fn speed_label_of(shown: Seq<char>, normal: bool) -> Seq<char> {
    if normal {
        "1× (normal)"@
    } else {
        shown + "×"@
    }
}

/// The item for a speed, given how its number is shown and whether it is the normal one: the normal
/// speed is checked.
pub open spec fn speed_item_of(shown: Seq<char>, normal: bool) -> CheckItem<Seq<char>> {
    CheckItem { id: "speed:"@ + shown, label: speed_label_of(shown, normal), checked: normal }
}

/// The items of the submenu of voices.
pub fn voice_items() -> (r: Vec<CheckItem<String>>)
    ensures
        r@.map_values(|i: CheckItem<String>| i@) == voice_ids().map_values(
            |v: Seq<char>| voice_item_of(v),
        ),
{
    let ids = voices();
    let mut items: Vec<CheckItem<String>> = Vec::new();
    assert(ids@.len() == voice_ids().len()) by {
        assert(ids@.map_values(|v: &'static str| v@).len() == ids@.len());
    }
    for i in 0..ids.len()
        invariant
            ids@.map_values(|v: &'static str| v@) == voice_ids(),
            ids@.len() == voice_ids().len(),
            items@.len() == i,
            forall|j: int| 0 <= j < i ==> (#[trigger] items@[j])@ == voice_item_of(voice_ids()[j]),
    {
        let id = ids[i];
        assert(ids@.map_values(|v: &'static str| v@)[i as int] == id@);
        let mut key = "voice:".to_string();
        key.append(id);
        items.push(
            CheckItem { id: key, label: voice_label(id), checked: same_text(id, DEFAULT_VOICE) },
        );
    }
    assert(items@.map_values(|i: CheckItem<String>| i@) =~= voice_ids().map_values(
        |v: Seq<char>| voice_item_of(v),
    ));
    items
}

/// The label of a speed, given how its number is shown and whether it is the normal one.
pub fn speed_label(shown: &str, normal: bool) -> (r: String)
    ensures
        r@ == speed_label_of(shown@, normal),
{
    if normal {
        "1× (normal)".to_string()
    } else {
        let mut label = shown.to_string();
        label.append("×");
        label
    }
}

/// The item for a speed, given how its number is shown and whether it is the normal one.
pub fn speed_item(shown: &str, normal: bool) -> (r: CheckItem<String>)
    ensures
        r@ == speed_item_of(shown@, normal),
{
    let mut id = "speed:".to_string();
    id.append(shown);
    CheckItem { id, label: speed_label(shown, normal), checked: normal }
}

/// Whether the item `item` is checked once the item `chosen` of the same submenu has been chosen.
pub fn is_checked(item: &str, chosen: &str) -> (r: bool)
    ensures
        r == (item@ == chosen@),
{
    same_text(item, chosen)
}

// ---- laws --------------------------------------------------------------------------------------

/// Every item of the menu stands for something.
pub proof fn law_every_item_does_something(i: int)
    ensures
        0 <= i < tray_entries().len() ==> (tray_entries()[i] matches MenuEntry::Item { id, .. }
            ==> !(command_of(id) is Nothing)),
        0 <= i < copy_entries().len() ==> (copy_entries()[i] matches MenuEntry::Item { id, .. }
            ==> !(command_of(id) is Nothing)),
{
}

/// The menu is built as the loop takes it to be.
pub proof fn law_menu_starts_in_step()
    ensures
        tray_entries()[0] == item_of(
            "speak"@,
            "Speak selection  ⌘⌥S"@,
            Face::initial().controls.speak,
        ),
        tray_entries()[1] == item_of(
            "stop_read"@,
            "Stop reading  ⌘⌥X"@,
            Face::initial().controls.stop_read,
        ),
        tray_entries()[2] == item_of("obs_toggle"@, "Pause Obsidian"@, Face::initial().obs.enabled),
        tray_entries()[3] == item_of("obs_stop"@, "Stop Obsidian"@, Face::initial().obs.enabled),
        tray_entries()[8] == item_of("start"@, "Start server"@, Face::initial().controls.start),
        tray_entries()[9] == item_of("stop"@, "Stop server"@, Face::initial().controls.stop),
{
}

proof fn lemma_choice_is_no_fixed_item(id: Seq<char>)
    requires
        id.len() >= 6,
        id[5] == ':',
    ensures
        id != "speak"@,
        id != "stop_read"@,
        id != "obs_toggle"@,
        id != "obs_stop"@,
        id != "start"@,
        id != "stop"@,
        id != "quit"@,
        id != "open_log"@,
        id != "settings"@,
        id != "check_update"@,
        id != "copy_local"@,
        id != "copy_lan"@,
        id != "copy_ts"@,
{
    reveal_strlit("speak");
    reveal_strlit("stop_read");
    reveal_strlit("obs_toggle");
    reveal_strlit("obs_stop");
    reveal_strlit("start");
    reveal_strlit("stop");
    reveal_strlit("quit");
    reveal_strlit("open_log");
    reveal_strlit("settings");
    reveal_strlit("check_update");
    reveal_strlit("copy_local");
    reveal_strlit("copy_lan");
    reveal_strlit("copy_ts");
}

proof fn lemma_strip_once(p: Seq<char>, s: Seq<char>)
    requires
        p.len() > 0,
        !p.is_prefix_of(s),
    ensures
        p.is_prefix_of(p + s),
        strip_all_of(p + s, p) == s,
{
    assert(p =~= (p + s).subrange(0, p.len() as int));
    assert((p + s).skip(p.len() as int) =~= s);
    reveal_with_fuel(strip_all_of, 2);
}

/// The item for a voice or a speed chooses what it was made for.
pub proof fn law_choice_is_read_back(s: Seq<char>, normal: bool)
    ensures
        !"voice:"@.is_prefix_of(s) ==> command_of(voice_item_of(s).id) == MenuCommand::ChooseVoice(
            s,
        ),
        !"speed:"@.is_prefix_of(s) ==> command_of(speed_item_of(s, normal).id)
            == MenuCommand::ChooseSpeed(s),
{
    reveal_strlit("voice:");
    reveal_strlit("speed:");
    lemma_choice_is_no_fixed_item("voice:"@ + s);
    lemma_choice_is_no_fixed_item("speed:"@ + s);
    if !"voice:"@.is_prefix_of(s) {
        lemma_strip_once("voice:"@, s);
    }
    if !"speed:"@.is_prefix_of(s) {
        lemma_strip_once("speed:"@, s);
        assert(("speed:"@ + s)[0] == 's');
        assert("voice:"@[0] == 'v');
    }
}

/// The item of every voice on offer chooses that voice.
pub proof fn law_offered_voice_is_chosen(i: int)
    requires
        0 <= i < voice_ids().len(),
    ensures
        command_of(voice_item_of(voice_ids()[i]).id) == MenuCommand::ChooseVoice(voice_ids()[i]),
{
    law_voices_on_offer();
    law_choice_is_read_back(voice_ids()[i], false);
    reveal_strlit("voice:");
    assert("voice:"@[0] == 'v');
    assert(plain_voice(voice_ids()[i]));
}

/// At first exactly the item of the default voice is checked; once an item has been chosen, exactly
/// that one is.
pub proof fn law_one_voice_is_checked(i: int, j: int)
    requires
        0 <= i < voice_ids().len(),
        0 <= j < voice_ids().len(),
    ensures
        voice_item_of(voice_ids()[i]).checked && voice_item_of(voice_ids()[j]).checked ==> i == j,
        exists|k: int|
            0 <= k < voice_ids().len() && (#[trigger] voice_item_of(voice_ids()[k])).checked,
        voice_item_of(voice_ids()[i]).id == voice_item_of(voice_ids()[j]).id <==> i == j,
{
    law_voices_on_offer();
    let k = choose|k: int| 0 <= k < voice_ids().len() && voice_ids()[k] == DEFAULT_VOICE@;
    assert(voice_item_of(voice_ids()[k]).checked);
    let a = voice_ids()[i];
    let b = voice_ids()[j];
    if "voice:"@ + a == "voice:"@ + b {
        let n = "voice:"@.len() as int;
        assert(("voice:"@ + a).skip(n) =~= a);
        assert(("voice:"@ + b).skip(n) =~= b);
    }
}

/// Every item of the menu that is not a choice stands for the command that its label names.
pub proof fn law_fixed_items_stand_for_their_commands()
    ensures
        command_of("speak"@) is Speak,
        command_of("stop_read"@) is StopReading,
        command_of("obs_toggle"@) is ToggleObsidian,
        command_of("obs_stop"@) is StopObsidian,
        command_of("start"@) is StartServer,
        command_of("stop"@) is StopServer,
        command_of("quit"@) is Quit,
        command_of("open_log"@) is OpenLog,
        command_of("settings"@) is OpenSettings,
        command_of("check_update"@) is CheckUpdate,
        command_of("copy_local"@) is CopyLocal,
        command_of("copy_lan"@) is CopyLan,
        command_of("copy_ts"@) is CopyTailscale,
{
    reveal_strlit("speak");
    reveal_strlit("stop_read");
    reveal_strlit("obs_toggle");
    reveal_strlit("obs_stop");
    reveal_strlit("start");
    reveal_strlit("stop");
    reveal_strlit("quit");
    reveal_strlit("open_log");
    reveal_strlit("settings");
    reveal_strlit("check_update");
    reveal_strlit("copy_local");
    reveal_strlit("copy_lan");
    reveal_strlit("copy_ts");
    assert("speak"@.len() == 5);
    assert("stop_read"@.len() == 9);
    assert("obs_toggle"@.len() == 10);
    assert("obs_stop"@.len() == 8);
    assert("start"@.len() == 5);
    assert("stop"@.len() == 4);
    assert("quit"@.len() == 4);
    assert("open_log"@.len() == 8);
    assert("settings"@.len() == 8);
    assert("check_update"@.len() == 12);
    assert("copy_local"@.len() == 10);
    assert("copy_lan"@.len() == 8);
    assert("copy_ts"@.len() == 7);
    assert("speak"@[1] != "start"@[1]);
    assert("obs_toggle"@[0] != "copy_local"@[0]);
    assert("obs_stop"@[1] != "open_log"@[1]);
    assert("obs_stop"@[0] != "settings"@[0]);
    assert("obs_stop"@[0] != "copy_lan"@[0]);
    assert("stop"@[0] != "quit"@[0]);
    assert("open_log"@[0] != "settings"@[0]);
    assert("open_log"@[0] != "copy_lan"@[0]);
    assert("settings"@[0] != "copy_lan"@[0]);
}

/// Each command is reached by one item alone, but for the choices; what is neither an item nor a
/// choice stands for nothing.
pub proof fn law_commands_have_one_item(id: Seq<char>)
    ensures
        command_of(id) is Speak ==> id == "speak"@,
        command_of(id) is StopReading ==> id == "stop_read"@,
        command_of(id) is ToggleObsidian ==> id == "obs_toggle"@,
        command_of(id) is StopObsidian ==> id == "obs_stop"@,
        command_of(id) is StartServer ==> id == "start"@,
        command_of(id) is StopServer ==> id == "stop"@,
        command_of(id) is Quit ==> id == "quit"@,
        command_of(id) is OpenLog ==> id == "open_log"@,
        command_of(id) is OpenSettings ==> id == "settings"@,
        command_of(id) is CheckUpdate ==> id == "check_update"@,
        command_of(id) is CopyLocal ==> id == "copy_local"@,
        command_of(id) is CopyLan ==> id == "copy_lan"@,
        command_of(id) is CopyTailscale ==> id == "copy_ts"@,
        command_of(id) is ChooseVoice <==> "voice:"@.is_prefix_of(id),
        command_of(id) is ChooseSpeed <==> "speed:"@.is_prefix_of(id),
{
    reveal_strlit("voice:");
    reveal_strlit("speed:");
    if "voice:"@.is_prefix_of(id) || "speed:"@.is_prefix_of(id) {
        if "voice:"@.is_prefix_of(id) {
            assert("voice:"@ == id.subrange(0, 6));
            assert(id[5] == "voice:"@[5] && id[0] == "voice:"@[0]);
        }
        if "speed:"@.is_prefix_of(id) {
            assert("speed:"@ == id.subrange(0, 6));
            assert(id[5] == "speed:"@[5] && id[0] == "speed:"@[0]);
        }
        lemma_choice_is_no_fixed_item(id);
    }
}

/// A choice is what follows `voice:` or `speed:`, however often that is repeated.
pub proof fn law_repeated_prefix_chooses_the_same(s: Seq<char>)
    ensures
        command_of("voice:"@ + ("voice:"@ + s)) == command_of("voice:"@ + s),
        command_of("speed:"@ + ("speed:"@ + s)) == command_of("speed:"@ + s),
{
    reveal_strlit("voice:");
    reveal_strlit("speed:");
    let (v, p) = ("voice:"@ + s, "speed:"@ + s);
    lemma_choice_is_no_fixed_item(v);
    lemma_choice_is_no_fixed_item(p);
    lemma_choice_is_no_fixed_item("voice:"@ + v);
    lemma_choice_is_no_fixed_item("speed:"@ + p);
    law_repetitions_are_taken_off(v, "voice:"@);
    law_repetitions_are_taken_off(p, "speed:"@);
    assert("voice:"@ =~= v.subrange(0, 6));
    assert("voice:"@ =~= ("voice:"@ + v).subrange(0, 6));
    assert("speed:"@ =~= p.subrange(0, 6));
    assert("speed:"@ =~= ("speed:"@ + p).subrange(0, 6));
    assert(p[0] == 's' && ("speed:"@ + p)[0] == 's' && "voice:"@[0] == 'v');
}

/// A voice is offered under its label and checked exactly if it is the one used at first; a speed is
/// offered as its number with a multiplication sign, and checked exactly if it is the normal one,
/// which is offered as such.
pub proof fn law_items_show_what_they_choose(s: Seq<char>, normal: bool)
    ensures
        voice_item_of(s).id.skip(6) == s,
        voice_item_of(s).label == label_of(s),
        voice_item_of(s).checked <==> s == "af_bella"@,
        speed_item_of(s, normal).id.skip(6) == s,
        speed_item_of(s, normal).checked == normal,
        speed_item_of(s, true).label == "1× (normal)"@,
        speed_item_of(s, false).label == s + "×"@,
{
    reveal_strlit("voice:");
    reveal_strlit("speed:");
    assert(("voice:"@ + s).skip(6) =~= s);
    assert(("speed:"@ + s).skip(6) =~= s);
}

/// At first, before the loop has looked at anything, the items that stop reading, that command the
/// reader and that start the server cannot be chosen; every other item can.
pub proof fn law_items_that_start_disabled(i: int)
    ensures
        0 <= i < tray_entries().len() ==> (tray_entries()[i] matches MenuEntry::Item {
            id,
            enabled,
            ..
        } ==> (enabled <==> id != "stop_read"@ && id != "obs_toggle"@ && id != "obs_stop"@ && id
            != "start"@)),
        0 <= i < copy_entries().len() ==> (copy_entries()[i] matches MenuEntry::Item { enabled, .. }
            && enabled),
{
    law_fixed_items_stand_for_their_commands();
}

/// A shortcut acts when it goes down, and only together with both the command and the option key; of
/// the letters, `S` speaks, `X` stops reading, and no other does anything.
pub proof fn law_shortcuts_act_when_pressed(pressed: bool, shortcut: Shortcut)
    ensures
        shortcut_of(pressed, shortcut) is Some <==> pressed && shortcut.command && shortcut.option
            && (shortcut.letter == 'S' || shortcut.letter == 'X'),
        shortcut_of(pressed, shortcut) == Some(ShortcutCommand::Speak) ==> shortcut.letter == 'S',
        shortcut_of(pressed, shortcut) == Some(ShortcutCommand::StopReading) ==> shortcut.letter
            == 'X',
{
}

/// Playback is stopped first, whether reading is stopped or the app ends. Reading that is stopped
/// leaves the app idle; an app that ends has stopped the server before, and does nothing after.
pub proof fn law_playback_stops_first()
    ensures
        stop_reading_steps()[0] == AppStep::StopPlayback,
        stop_reading_steps().last() == AppStep::StoreActivity(0),
        stop_reading_steps().len() == 2,
        quit_steps()[0] == AppStep::StopPlayback,
        quit_steps()[1] == AppStep::StopServer,
        quit_steps().last() == AppStep::Exit,
        quit_steps().len() == 3,
{
}

/// What a command and an item hold is seen as it is.
pub proof fn law_choices_are_seen_as_they_are(t: String, label: String, checked: bool)
    ensures
        (MenuCommand::ChooseVoice(t))@ == MenuCommand::ChooseVoice(t@),
        (MenuCommand::ChooseSpeed(t))@ == MenuCommand::ChooseSpeed(t@),
        (CheckItem { id: t, label, checked })@ == (CheckItem { id: t@, label: label@, checked }),
{
}

} // verus!
