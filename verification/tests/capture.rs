use otoha::capture::{
    if_not_blank, keep, modifiers_held, AxRead, AxReply, Capture, CaptureAction, CaptureReply,
    CopyPress, Held, ModifierReply, ModifierWait, PressReply, COPY_KEY_FLAGS, MAX_CHECKS, MAX_POLLS,
    SENTINEL,
};

/// What was done to the contents of the clipboard.
#[derive(Debug, PartialEq)]
enum Deed {
    Text(String),
    Formats(Option<String>),
    Clear,
}

fn text(t: &str) -> Deed {
    Deed::Text(t.to_string())
}

fn held(t: &str) -> Held<String> {
    Held::Text(t.to_string())
}

/// Runs a capture whose accessibility interface says nothing; the clipboard holds `first` at first
/// and shows `looks` in turn afterwards. Returns the result, what was done to the clipboard, and
/// the number of looks.
fn run(first: Held<String>, looks: &[Option<&str>]) -> (Option<String>, Vec<Deed>, usize) {
    let mut first = Some(first);
    let mut deeds: Vec<Deed> = Vec::new();
    let mut seen: usize = 0;
    let mut c = Capture::<String>::start();
    loop {
        let reply = match c.pending() {
            CaptureAction::AskAccessibility => CaptureReply::Selected(None),
            CaptureAction::OpenClipboard => CaptureReply::Opened(true),
            CaptureAction::SaveClipboard => {
                assert!(deeds.is_empty());
                CaptureReply::Saved(first.take().expect("saved once"))
            }
            CaptureAction::ReadClipboard => {
                let look = looks.get(seen).copied().unwrap_or(Some(SENTINEL));
                seen += 1;
                CaptureReply::Clipboard(look.map(|s| s.to_string()))
            }
            CaptureAction::WriteClipboard(t) => {
                deeds.push(Deed::Text(t));
                CaptureReply::Done
            }
            CaptureAction::RestoreFormats(t) => {
                deeds.push(Deed::Formats(t));
                CaptureReply::Done
            }
            CaptureAction::ClearClipboard => {
                deeds.push(Deed::Clear);
                CaptureReply::Done
            }
            CaptureAction::AwaitModifiers | CaptureAction::PressCopy | CaptureAction::Pause => {
                CaptureReply::Done
            }
            CaptureAction::Finish(result) => return (result, deeds, seen),
        };
        c = c.next(reply);
    }
}

#[test]
fn accessibility_selection_leaves_the_clipboard_alone() {
    let c = Capture::<String>::start().next(CaptureReply::Selected(Some("sel".to_string())));
    match c.pending() {
        CaptureAction::Finish(t) => assert_eq!(t, Some("sel".to_string())),
        _ => panic!("not over"),
    }
}

#[test]
fn copied_selection_is_found_and_the_clipboard_put_back() {
    let (result, deeds, looks) =
        run(held("mine"), &[Some(SENTINEL), None, Some(""), Some("the selection"), Some("late")]);
    assert_eq!(result, Some("the selection".to_string()));
    assert_eq!(deeds, [text(SENTINEL), text("mine")]);
    assert_eq!(looks, 4);
}

#[test]
fn capture_gives_up_after_thirty_looks_and_puts_the_clipboard_back() {
    let (result, deeds, looks) = run(held("mine"), &[]);
    assert_eq!(result, None);
    assert_eq!(deeds, [text(SENTINEL), text("mine")]);
    assert_eq!(looks, MAX_POLLS as usize);
}

#[test]
fn last_look_counts() {
    let mut looks = vec![None; MAX_POLLS as usize];
    looks[29] = Some("x");
    assert_eq!(run(held(""), &looks).0, Some("x".to_string()));
}

#[test]
fn clipboard_without_text_is_put_back() {
    for looks in [&[Some("x")][..], &[]] {
        let (result, deeds, _) = run(Held::Formats(None), looks);
        assert_eq!(result, first_copy(looks));
        assert_eq!(deeds, [text(SENTINEL), Deed::Formats(None)]);
    }
}

#[test]
fn text_beside_other_formats_is_put_back() {
    for looks in [&[Some("x")][..], &[]] {
        let mine = || Some("mine".to_string());
        let (result, deeds, _) = run(Held::Formats(mine()), looks);
        assert_eq!(result, first_copy(looks));
        assert_eq!(deeds, [text(SENTINEL), Deed::Formats(mine())]);
    }
}

#[test]
fn empty_clipboard_is_empty_again() {
    let (_, deeds, _) = run(Held::Nothing, &[Some("x")]);
    assert_eq!(deeds, [text(SENTINEL), Deed::Clear]);
    let (_, deeds, _) = run(held(""), &[Some("x")]);
    assert_eq!(deeds, [text(SENTINEL), text("")]);
}

fn first_copy(looks: &[Option<&str>]) -> Option<String> {
    let copies = looks.iter().flatten().filter(|t| !t.is_empty() && **t != SENTINEL);
    copies.map(|t| t.to_string()).next()
}

#[test]
fn capture_yields_the_first_copy() {
    let shown = [None, Some(""), Some(SENTINEL), Some("a"), Some("b")];
    for n in 0..3125usize {
        let looks = [n % 5, n / 5 % 5, n / 25 % 5, n / 125 % 5, n / 625].map(|i| shown[i]);
        let (result, _, seen) = run(held("mine"), &looks);
        assert_eq!(result, first_copy(&looks));
        if result.is_none() {
            assert_eq!(seen, MAX_POLLS as usize);
        } else {
            assert_eq!(first_copy(&looks[..seen - 1]), None);
        }
    }
    // A copy that comes after the last look is not seen.
    let mut late = vec![None; MAX_POLLS as usize + 1];
    late[30] = Some("x");
    assert_eq!(run(held("mine"), &late).0, None);
}

#[test]
fn look_does_not_stand_for_the_first_contents() {
    let c = Capture::<String>::start()
        .next(CaptureReply::Selected(None))
        .next(CaptureReply::Opened(true))
        .next(CaptureReply::Clipboard(Some("x".to_string())));
    assert!(matches!(c.pending(), CaptureAction::SaveClipboard));
}

#[test]
fn snapshot_keeps_what_the_clipboard_holds() {
    let some = || Some("x".to_string());
    assert!(matches!(keep(some(), false), Held::Text(t) if t == "x"));
    assert!(matches!(keep(Some(String::new()), false), Held::Text(t) if t.is_empty()));
    assert!(matches!(keep(some(), true), Held::Formats(t) if t == some()));
    assert!(matches!(keep(None, true), Held::Formats(None)));
    assert!(matches!(keep(None, false), Held::Nothing));
}

#[test]
fn copy_key_goes_down_and_up_or_neither() {
    let choices = [(true, true), (true, false), (false, true), (false, false)];
    for sources in choices {
        for events in choices {
            let mut done: Vec<CopyPress> = Vec::new();
            let mut press = CopyPress::start();
            while press != CopyPress::Finished {
                done.push(press);
                press = match press {
                    CopyPress::MakeSources => {
                        press.next(PressReply::Made { down: sources.0, up: sources.1 })
                    }
                    CopyPress::MakeEvents => {
                        press.next(PressReply::Made { down: events.0, up: events.1 })
                    }
                    _ => press.next(PressReply::Done),
                };
            }
            done.retain(|p| !matches!(p, CopyPress::MakeSources | CopyPress::MakeEvents));
            if sources == (true, true) && events == (true, true) {
                assert_eq!(done, [CopyPress::PostDown, CopyPress::Hold, CopyPress::PostUp]);
            } else {
                assert!(done.is_empty());
            }
        }
    }
    assert_eq!(CopyPress::PostDown.next(PressReply::Made { down: true, up: true }), CopyPress::PostDown);
    assert_eq!(COPY_KEY_FLAGS, 0x10_0000);
}

#[test]
fn capture_ends_without_a_clipboard() {
    let c = Capture::<String>::start()
        .next(CaptureReply::Selected(None))
        .next(CaptureReply::Opened(false));
    assert!(matches!(c.pending(), CaptureAction::Finish(None)));
}

#[test]
fn reply_that_is_not_called_for_changes_nothing() {
    let c = Capture::<String>::start().next(CaptureReply::Done);
    assert!(matches!(c.pending(), CaptureAction::AskAccessibility));
}

#[test]
fn accessibility_reading_releases_what_it_holds() {
    let mut held: Vec<&str> = Vec::new();
    let mut r = AxRead::<String>::start();
    let text = loop {
        let reply = match r {
            AxRead::CreateSystem => {
                held.push("system");
                AxReply::Created { null: false }
            }
            AxRead::CopyFocused => {
                held.push("element");
                AxReply::Copied { error: 0, null: false }
            }
            AxRead::ReleaseSystem { .. } => {
                held.retain(|h| *h != "system");
                AxReply::Done
            }
            AxRead::CopySelected => {
                held.push("text");
                AxReply::Copied { error: 0, null: false }
            }
            AxRead::ReleaseFocused { .. } => {
                held.retain(|h| *h != "element");
                AxReply::Done
            }
            AxRead::TakeText => {
                held.retain(|h| *h != "text");
                AxReply::Text(" hi".to_string())
            }
            AxRead::Finished { text } => break text,
        };
        r = r.next(reply);
    };
    assert_eq!(text, Some(" hi".to_string()));
    assert!(held.is_empty());
}

#[test]
fn accessibility_reading_stops_where_there_is_nothing() {
    let r = AxRead::<String>::start().next(AxReply::Created { null: true });
    assert!(matches!(r, AxRead::Finished { text: None }));
    for (error, null) in [(-25212, true), (-25205, false), (0, true)] {
        let r = AxRead::<String>::CopyFocused.next(AxReply::Copied { error, null });
        assert!(matches!(r, AxRead::ReleaseSystem { found: false }));
        assert!(matches!(r.next(AxReply::Done), AxRead::Finished { text: None }));
        let r = AxRead::<String>::CopySelected.next(AxReply::Copied { error, null });
        assert!(matches!(r, AxRead::ReleaseFocused { found: false }));
        assert!(matches!(r.next(AxReply::Done), AxRead::Finished { text: None }));
    }
    let r = AxRead::TakeText.next(AxReply::Text(" \n".to_string()));
    assert!(matches!(r, AxRead::Finished { text: None }));
}

#[test]
fn blank_texts_are_dropped() {
    assert_eq!(if_not_blank("\u{3000}\t".to_string()), None);
    assert_eq!(if_not_blank(" x ".to_string()), Some(" x ".to_string()));
}

#[test]
fn four_keys_are_modifiers() {
    for bit in 0..64 {
        assert_eq!(modifiers_held(1u64 << bit), (17..=20).contains(&bit));
    }
    assert!(!modifiers_held(0));
    assert!(!modifiers_held(!0x1e_0000));
}

#[test]
fn wait_ends_when_the_keys_are_up() {
    let w = ModifierWait::start().next(ModifierReply::Flags(0x10_0000));
    assert_eq!(w, ModifierWait::Pause { checks: 0 });
    let w = w.next(ModifierReply::Done).next(ModifierReply::Flags(1));
    assert_eq!(w, ModifierWait::Finished);
}

#[test]
fn wait_gives_up_after_fifty_looks() {
    let mut w = ModifierWait::start();
    let mut looks: u32 = 0;
    while w != ModifierWait::Finished {
        w = match w {
            ModifierWait::Check { .. } => {
                looks += 1;
                w.next(ModifierReply::Flags(0x2_0000))
            }
            _ => w.next(ModifierReply::Done),
        };
    }
    assert_eq!(looks, MAX_CHECKS);
}
