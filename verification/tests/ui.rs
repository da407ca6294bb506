use otoha::obsidian::{OBS_IDLE, OBS_PAUSED, OBS_PROCESSING, OBS_READING};
use otoha::ui::{
    effective_activity, spinner_glyph, Controls, ObsControls, TrayIcon, TrayKey, TrayUpdate,
    UiAction, UiLoop, UiReply, ACT_IDLE, ACT_PROCESSING, ACT_READING,
};

/// The world that a loop sees.
struct World {
    activity: u8,
    playing: bool,
    up: bool,
    obs: u8,
    alive: bool,
    tray: bool,
}

fn round(ui: &mut UiLoop, world: &mut World) -> Vec<UiAction> {
    let mut done: Vec<UiAction> = Vec::new();
    loop {
        let action = ui.pending();
        let reply = match action {
            UiAction::Observe => UiReply::Observed { activity: world.activity, playing: world.playing },
            UiAction::StoreActivity(a) => {
                world.activity = a;
                UiReply::Done
            }
            UiAction::ProbeServer => UiReply::Server(world.up),
            UiAction::ReadObsidian => UiReply::Obsidian(world.obs),
            UiAction::ProbeObsidian => UiReply::Alive(world.alive),
            UiAction::StoreObsidian(o) => {
                world.obs = o;
                UiReply::Done
            }
            UiAction::FindTray => UiReply::Tray(world.tray),
            _ => UiReply::Done,
        };
        done.push(action);
        ui.next(reply);
        if ui.pending() == UiAction::Sleep {
            return done;
        }
    }
}

fn world() -> World {
    World { activity: ACT_IDLE, playing: false, up: true, obs: OBS_IDLE, alive: true, tray: true }
}

#[test]
fn first_round_shows_everything() {
    let mut ui = UiLoop::new();
    assert_eq!(
        round(&mut ui, &mut world()),
        [
            UiAction::Sleep,
            UiAction::Observe,
            UiAction::ProbeServer,
            UiAction::SetControls(Controls { speak: true, stop_read: false, start: false, stop: true }),
            UiAction::ReadObsidian,
            UiAction::SetObsControls(ObsControls { enabled: false, resume: false }),
            UiAction::FindTray,
            UiAction::SetTray(TrayUpdate::Show { clear_title: false, icon: TrayIcon::Idle }),
        ]
    );
}

#[test]
fn quiet_round_does_nothing() {
    let mut ui = UiLoop::new();
    let mut w = world();
    round(&mut ui, &mut w);
    assert_eq!(
        round(&mut ui, &mut w),
        [UiAction::Sleep, UiAction::Observe, UiAction::ReadObsidian, UiAction::FindTray]
    );
}

#[test]
fn server_is_probed_every_ninth_round() {
    let mut ui = UiLoop::new();
    let mut w = world();
    let mut probed: Vec<usize> = Vec::new();
    for n in 1..=30 {
        if round(&mut ui, &mut w).contains(&UiAction::ProbeServer) {
            probed.push(n);
        }
    }
    assert_eq!(probed, [1, 9, 18, 27]);
}

#[test]
fn server_that_goes_down_shows() {
    let mut ui = UiLoop::new();
    let mut w = world();
    round(&mut ui, &mut w);
    w.up = false;
    let mut last: Vec<UiAction> = Vec::new();
    for _ in 2..=9 {
        last = round(&mut ui, &mut w);
    }
    assert!(last.contains(&UiAction::SetControls(Controls {
        speak: false,
        stop_read: false,
        start: true,
        stop: false
    })));
    assert!(last.contains(&UiAction::SetTray(TrayUpdate::Show {
        clear_title: false,
        icon: TrayIcon::Off
    })));
}

#[test]
fn finished_playback_is_cleared() {
    let mut ui = UiLoop::new();
    let mut w = world();
    w.activity = ACT_READING;
    w.playing = true;
    round(&mut ui, &mut w);
    assert_eq!(ui.key, TrayKey::Reading(1));
    w.playing = false;
    let done = round(&mut ui, &mut w);
    assert_eq!(done[2], UiAction::StoreActivity(ACT_IDLE));
    assert_eq!(w.activity, ACT_IDLE);
    assert_eq!(ui.key, TrayKey::Idle);
}

#[test]
fn spinner_takes_the_icon_away_and_gives_it_back() {
    let mut ui = UiLoop::new();
    let mut w = world();
    w.activity = ACT_PROCESSING;
    let done = round(&mut ui, &mut w);
    assert_eq!(done.last(), Some(&UiAction::SetTray(TrayUpdate::Spin { hide_icon: true, glyph: 1 })));
    let done = round(&mut ui, &mut w);
    assert_eq!(done.last(), Some(&UiAction::SetTray(TrayUpdate::Spin { hide_icon: false, glyph: 2 })));
    w.activity = ACT_IDLE;
    let done = round(&mut ui, &mut w);
    assert_eq!(
        done.last(),
        Some(&UiAction::SetTray(TrayUpdate::Show { clear_title: true, icon: TrayIcon::Idle }))
    );
}

#[test]
fn reader_that_quits_while_paused_is_cleared_within_nine_rounds() {
    let mut ui = UiLoop::new();
    let mut w = world();
    w.obs = OBS_PAUSED;
    let done = round(&mut ui, &mut w);
    assert!(done.contains(&UiAction::SetObsControls(ObsControls { enabled: true, resume: true })));
    w.alive = false;
    for _ in 0..9 {
        round(&mut ui, &mut w);
    }
    assert_eq!(w.obs, OBS_IDLE);
    assert_eq!(ui.shown_obs, Some(OBS_IDLE));
}

#[test]
fn missing_tray_is_left_alone() {
    let mut ui = UiLoop::new();
    let mut w = world();
    w.tray = false;
    assert_eq!(round(&mut ui, &mut w).last(), Some(&UiAction::FindTray));
    assert_eq!(ui.key, TrayKey::Initial);
}

#[test]
fn stray_reply_changes_nothing() {
    let mut ui = UiLoop::new();
    ui.next(UiReply::Server(true));
    assert_eq!(ui, UiLoop::new());
}

#[test]
fn round_count_wraps_around() {
    let mut ui = UiLoop::new();
    ui.frame = usize::MAX;
    ui.next(UiReply::Done);
    assert_eq!(ui.frame, 0);
}

#[test]
fn activity_of_app_and_reader_together() {
    assert_eq!(effective_activity(ACT_IDLE, OBS_IDLE), ACT_IDLE);
    assert_eq!(effective_activity(ACT_IDLE, OBS_PAUSED), ACT_IDLE);
    assert_eq!(effective_activity(ACT_READING, OBS_PAUSED), ACT_READING);
    assert_eq!(effective_activity(ACT_IDLE, OBS_READING), ACT_READING);
    assert_eq!(effective_activity(ACT_READING, OBS_PROCESSING), ACT_PROCESSING);
    assert_eq!(effective_activity(ACT_PROCESSING, OBS_READING), ACT_PROCESSING);
}

#[test]
fn spinner_has_ten_glyphs() {
    let all: Vec<&str> = (0..10).map(spinner_glyph).collect();
    assert_eq!(all.concat(), "⠋⠙⠹⠸⠼⠴⠦⠧⠇⠏");
    assert_eq!(spinner_glyph(10), "⠋");
    assert_eq!(spinner_glyph(29), "⠏");
}

#[test]
fn reader_labels() {
    assert_eq!(ObsControls { enabled: true, resume: true }.toggle_label(), "Resume Obsidian");
    assert_eq!(ObsControls { enabled: true, resume: false }.toggle_label(), "Pause Obsidian");
}
