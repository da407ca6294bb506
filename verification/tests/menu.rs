use otoha::menu::{
    copy_menu, is_checked, menu_command, quit, shortcut_command, speak_shortcut, speed_item,
    speed_label, stop_reading, stop_shortcut, tray_menu, voice_items, AppStep, MenuCommand,
    MenuEntry, Shortcut, ShortcutCommand,
};
use otoha::ui::ACT_IDLE;
use otoha::voice::voices;

#[test]
fn fixed_entries_stand_for_commands() {
    assert!(matches!(menu_command("speak"), MenuCommand::Speak));
    assert!(matches!(menu_command("stop_read"), MenuCommand::StopReading));
    assert!(matches!(menu_command("obs_toggle"), MenuCommand::ToggleObsidian));
    assert!(matches!(menu_command("obs_stop"), MenuCommand::StopObsidian));
    assert!(matches!(menu_command("start"), MenuCommand::StartServer));
    assert!(matches!(menu_command("stop"), MenuCommand::StopServer));
    assert!(matches!(menu_command("quit"), MenuCommand::Quit));
    assert!(matches!(menu_command("open_log"), MenuCommand::OpenLog));
    assert!(matches!(menu_command("settings"), MenuCommand::OpenSettings));
    assert!(matches!(menu_command("check_update"), MenuCommand::CheckUpdate));
    assert!(matches!(menu_command("copy_local"), MenuCommand::CopyLocal));
    assert!(matches!(menu_command("copy_lan"), MenuCommand::CopyLan));
    assert!(matches!(menu_command("copy_ts"), MenuCommand::CopyTailscale));
    assert!(matches!(menu_command(""), MenuCommand::Nothing));
    assert!(matches!(menu_command("Speak"), MenuCommand::Nothing));
    assert!(matches!(menu_command("voice"), MenuCommand::Nothing));
}

#[test]
fn choices_carry_what_is_chosen() {
    for (id, voice) in [("voice:af_sky", "af_sky"), ("voice:", ""), ("voice:voice:x", "x")] {
        match menu_command(id) {
            MenuCommand::ChooseVoice(v) => assert_eq!(v, voice),
            _ => panic!("no voice"),
        }
    }
    match menu_command("speed:1.15") {
        MenuCommand::ChooseSpeed(s) => assert_eq!(s, "1.15"),
        _ => panic!("no speed"),
    }
}

#[test]
fn every_item_of_the_menu_does_something() {
    let mut separators: usize = 0;
    for entry in tray_menu().into_iter().chain(copy_menu()) {
        match entry {
            MenuEntry::Item { id, .. } => {
                assert!(!matches!(menu_command(id), MenuCommand::Nothing), "{id}")
            }
            MenuEntry::Separator => separators += 1,
            _ => {}
        }
    }
    assert_eq!(separators, 4);
    assert_eq!(tray_menu().len(), 17);
    assert_eq!(copy_menu().len(), 3);
}

#[test]
fn items_start_enabled_or_not() {
    let mut disabled: Vec<&'static str> = Vec::new();
    for entry in tray_menu() {
        if let MenuEntry::Item { id, enabled: false, .. } = entry {
            disabled.push(id);
        }
    }
    assert_eq!(disabled, ["stop_read", "obs_toggle", "obs_stop", "start"]);
    match &tray_menu()[0] {
        MenuEntry::Item { id, label, enabled } => {
            assert_eq!((*id, *label, *enabled), ("speak", "Speak selection  ⌘⌥S", true));
        }
        _ => panic!("no item"),
    }
}

#[test]
fn voice_items_choose_their_voices() {
    let items = voice_items();
    let ids = voices();
    assert_eq!(items.len(), ids.len());
    for (item, id) in items.iter().zip(&ids) {
        match menu_command(&item.id) {
            MenuCommand::ChooseVoice(v) => assert_eq!(v, *id),
            _ => panic!("no voice"),
        }
        assert_eq!(item.checked, *id == "af_bella");
    }
    assert_eq!(items[2].label, "Bella (US F)");
    for (i, chosen) in items.iter().enumerate() {
        for (j, item) in items.iter().enumerate() {
            assert_eq!(is_checked(&item.id, &chosen.id), i == j);
        }
    }
}

#[test]
fn speed_items_and_labels() {
    assert_eq!(speed_label("0.75", false), "0.75×");
    assert_eq!(speed_label("1", true), "1× (normal)");
    let item = speed_item("1.25", false);
    assert_eq!((item.id.as_str(), item.label.as_str(), item.checked), ("speed:1.25", "1.25×", false));
    let item = speed_item("1", true);
    assert_eq!((item.id.as_str(), item.label.as_str(), item.checked), ("speed:1", "1× (normal)", true));
}

#[test]
fn shortcuts_act_when_pressed() {
    assert_eq!(shortcut_command(true, speak_shortcut()), Some(ShortcutCommand::Speak));
    assert_eq!(shortcut_command(true, stop_shortcut()), Some(ShortcutCommand::StopReading));
    assert_eq!(shortcut_command(false, speak_shortcut()), None);
    assert_eq!(shortcut_command(false, stop_shortcut()), None);
    let other = Shortcut { command: true, option: false, letter: 'S' };
    assert_eq!(shortcut_command(true, other), None);
}

#[test]
fn stopping_ends_playback_and_then_idles() {
    assert_eq!(stop_reading(), [AppStep::StopPlayback, AppStep::StoreActivity(ACT_IDLE)]);
}

#[test]
fn quitting_ends_playback_and_server_first() {
    assert_eq!(quit(), [AppStep::StopPlayback, AppStep::StopServer, AppStep::Exit]);
}
