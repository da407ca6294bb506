use otoha::playback::{is_playing, play_wav, stop_playback, PlaybackCheck};
use otoha::server::{
    py, server_command, server_script, server_up, stop_server, ChildPoll, ChildStep, EnvValue,
    ServerProgram, StartReply, StartServer,
};
use otoha::settings::{
    bind_host, get_network_access, load_settings, set_network_access, SettingsData, SettingsStep,
};
use otoha::update::{Update, UpdateEnd, UpdateReply};

fn env_text(env: &[(&'static str, EnvValue<String>)]) -> Vec<(String, String)> {
    env.iter()
        .map(|(name, value)| {
            let v = match value {
                EnvValue::Text(t) => t.clone(),
                EnvValue::ModelPath => "<model>".to_string(),
                EnvValue::VoicesPath => "<voices>".to_string(),
            };
            (name.to_string(), v)
        })
        .collect()
}

fn pairs(list: &[(&str, &str)]) -> Vec<(String, String)> {
    list.iter().map(|(a, b)| (a.to_string(), b.to_string())).collect()
}

#[test]
fn only_a_good_answer_means_up() {
    assert!(server_up(Some(200)));
    assert!(!server_up(Some(201)));
    assert!(!server_up(Some(503)));
    assert!(!server_up(None));
}

#[test]
fn bundled_server_with_model_and_voices() {
    let c = server_command(true, None, None, &SettingsData::default(), true, true);
    assert!(matches!(c.program, ServerProgram::Bundled));
    assert_eq!(
        env_text(&c.env),
        pairs(&[
            ("OTOHA_PORT", "8765"),
            ("OTOHA_HOST", "127.0.0.1"),
            ("OTOHA_MODEL", "<model>"),
            ("OTOHA_VOICES", "<voices>"),
        ])
    );
}

#[test]
fn development_server_on_every_address() {
    let s = SettingsData { network_access: true };
    let c = server_command(false, Some("py".to_string()), None, &s, false, true);
    match c.program {
        ServerProgram::Script { python, script } => {
            assert_eq!(python, "py");
            assert_eq!(script, "tts_server.py");
        }
        ServerProgram::Bundled => panic!("not bundled"),
    }
    assert_eq!(env_text(&c.env), pairs(&[("OTOHA_PORT", "8765"), ("OTOHA_HOST", "0.0.0.0")]));
    let c = server_command(true, None, None, &s, true, false);
    assert_eq!(c.env.len(), 3);
}

#[test]
fn development_defaults() {
    assert_eq!(py(None), "python3");
    assert_eq!(py(Some("x".to_string())), "x");
    assert_eq!(server_script(None), "tts_server.py");
    assert_eq!(server_script(Some(String::new())), "");
}

#[test]
fn running_server_is_not_started_again() {
    let s = StartServer::start().next(StartReply::Health(true));
    assert_eq!(s, StartServer::Finished { serving: true });
    let s = StartServer::start()
        .next(StartReply::Health(false))
        .next(StartReply::Child(Some(ChildPoll::Running)));
    assert_eq!(s, StartServer::Finished { serving: true });
}

#[test]
fn ended_server_is_let_go_and_started_again() {
    for poll in [ChildPoll::Exited, ChildPoll::Failed] {
        let s = StartServer::PollChild.next(StartReply::Child(Some(poll)));
        assert_eq!(s, StartServer::DropChild);
        assert_eq!(s.next(StartReply::Done), StartServer::Spawn);
    }
    let s = StartServer::PollChild.next(StartReply::Child(None));
    assert_eq!(s, StartServer::Spawn);
    assert_eq!(s.next(StartReply::Spawned(true)), StartServer::Finished { serving: true });
    assert_eq!(s.next(StartReply::Spawned(false)), StartServer::Finished { serving: false });
}

#[test]
fn stopping_sweeps_the_port() {
    assert_eq!(stop_server(true), [ChildStep::Kill, ChildStep::Wait, ChildStep::SweepPort]);
    assert_eq!(stop_server(false), [ChildStep::SweepPort]);
}

#[test]
fn one_file_is_played_at_a_time() {
    assert_eq!(play_wav(true), [ChildStep::Kill, ChildStep::Wait, ChildStep::Spawn]);
    assert_eq!(play_wav(false), [ChildStep::Spawn]);
    assert_eq!(stop_playback(true), [ChildStep::Kill, ChildStep::Wait]);
    assert!(stop_playback(false).is_empty());
}

#[test]
fn playback_goes_on_until_its_process_ends() {
    let check = |playing: bool, release: bool| PlaybackCheck { playing, release };
    assert_eq!(is_playing(None), check(false, false));
    assert_eq!(is_playing(Some(ChildPoll::Running)), check(true, false));
    assert_eq!(is_playing(Some(ChildPoll::Failed)), check(true, false));
    assert_eq!(is_playing(Some(ChildPoll::Exited)), check(false, true));
}

#[test]
fn settings_are_safe_by_default() {
    assert!(!load_settings(None).network_access);
    let mut s = load_settings(Some(SettingsData { network_access: true }));
    assert!(get_network_access(&s));
    assert_eq!(bind_host(&s), "0.0.0.0");
    set_network_access(&mut s, false);
    assert!(!get_network_access(&s));
    assert_eq!(bind_host(&s), "127.0.0.1");
}

#[test]
fn network_change_is_saved_and_restarts_the_server() {
    for before in [false, true] {
        for enabled in [false, true] {
            let mut s = SettingsData { network_access: before };
            let steps = set_network_access(&mut s, enabled);
            assert_eq!(get_network_access(&s), enabled);
            assert_eq!(
                steps,
                [
                    SettingsStep::Save(SettingsData { network_access: enabled }),
                    SettingsStep::StopServer,
                    SettingsStep::StartServer,
                ]
            );
            let env = env_text(&server_command(true, None, None, &s, false, false).env);
            let host = if enabled { "0.0.0.0" } else { "127.0.0.1" };
            assert_eq!(env[1], ("OTOHA_HOST".to_string(), host.to_string()));
        }
    }
}

#[test]
fn update_installs_what_it_finds() {
    let u = Update::start().next(UpdateReply::Prepared(true));
    assert_eq!(u, Update::Check);
    let u = u.next(UpdateReply::Checked(Some(true)));
    assert_eq!(u, Update::Install);
    assert_eq!(u.next(UpdateReply::Installed(true)), Update::Restart);
}

#[test]
fn update_ends_for_four_reasons() {
    let end = |e: UpdateEnd| Update::Finished { end: e };
    assert_eq!(Update::start().next(UpdateReply::Prepared(false)), end(UpdateEnd::NoUpdater));
    assert_eq!(Update::Check.next(UpdateReply::Checked(None)), end(UpdateEnd::CheckFailed));
    assert_eq!(Update::Check.next(UpdateReply::Checked(Some(false))), end(UpdateEnd::UpToDate));
    assert_eq!(Update::Install.next(UpdateReply::Installed(false)), end(UpdateEnd::InstallFailed));
}
