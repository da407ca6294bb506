use otoha::speech::{speak_body, Speak, SpeakReply};
use otoha::ui::{ACT_IDLE, ACT_PROCESSING, ACT_READING};
use serde_json::Value;

fn rendered(text: &str, voice: &str, speed: f32) -> String {
    let mut m = serde_json::Map::new();
    m.insert("text".to_string(), Value::from(text));
    m.insert("voice".to_string(), Value::from(voice));
    m.insert("speed".to_string(), Value::from(speed));
    m.insert("pad".to_string(), Value::from(0.25));
    Value::Object(m).to_string()
}

#[test]
fn body_of_a_plain_request() {
    assert_eq!(
        speak_body("Hello", "af_bella", "1.0"),
        "{\"pad\":0.25,\"speed\":1.0,\"text\":\"Hello\",\"voice\":\"af_bella\"}"
    );
}

#[test]
fn body_is_what_the_json_crate_renders() {
    let mut all = String::new();
    for n in 0..0x180u32 {
        all.push(char::from_u32(n).unwrap());
    }
    for text in ["", "a \"b\" \\ c", "line\nbreak\ttab\r", "\u{8}\u{c}\u{1}\u{1f}\u{7f}", "漢字 🎧", &all] {
        for speed in [0.75f32, 0.9, 1.0, 1.15, 1.25, 1.5] {
            let json = Value::from(speed).to_string();
            assert_eq!(speak_body(text, "bm_\"x", &json), rendered(text, "bm_\"x", speed));
        }
    }
}

#[test]
fn body_is_read_back() {
    let body = speak_body("say \"hi\"\n\u{0}", "af_sky", "0.75");
    let v: Value = serde_json::from_str(&body).unwrap();
    assert_eq!(v["text"], Value::from("say \"hi\"\n\u{0}"));
    assert_eq!(v["voice"], Value::from("af_sky"));
    assert_eq!(v["speed"], Value::from(0.75));
    assert_eq!(v["pad"], Value::from(0.25));
}

#[test]
fn different_texts_have_different_bodies() {
    assert_ne!(speak_body("a", "b", "1"), speak_body("a\",\"voice\":\"b", "", "1"));
    assert_ne!(speak_body("\\n", "b", "1"), speak_body("\n", "b", "1"));
}

#[test]
fn speaking_goes_through_to_reading() {
    let s = Speak::<String>::start();
    assert_eq!(s.activity(), None);
    let s = s.next(SpeakReply::Captured(Some(" hi ".to_string())));
    assert_eq!(s.activity(), Some(ACT_PROCESSING));
    let s = s.next(SpeakReply::Done);
    match &s {
        Speak::Synthesize { text } => assert_eq!(text, " hi "),
        _ => panic!("not generating"),
    }
    let s = s.next(SpeakReply::Synthesized(true));
    assert!(matches!(s, Speak::WriteWav));
    let s = s.next(SpeakReply::Written(true));
    assert!(matches!(s, Speak::Play));
    let s = s.next(SpeakReply::Done);
    assert_eq!(s.activity(), Some(ACT_READING));
    assert!(matches!(s.next(SpeakReply::Done), Speak::Finished));
}

#[test]
fn nothing_is_spoken_of_a_blank_selection() {
    for t in [None, Some(String::new()), Some(" \n\t".to_string())] {
        assert!(matches!(Speak::<String>::start().next(SpeakReply::Captured(t)), Speak::Finished));
    }
}

#[test]
fn failures_leave_the_app_idle() {
    let generating = || Speak::Synthesize { text: "x".to_string() };
    let s = generating().next(SpeakReply::Synthesized(false));
    assert_eq!(s.activity(), Some(ACT_IDLE));
    assert!(matches!(s.next(SpeakReply::Done), Speak::Finished));
    let s = generating().next(SpeakReply::Synthesized(true)).next(SpeakReply::Written(false));
    assert_eq!(s.activity(), Some(ACT_IDLE));
    // A reply that is not called for changes nothing.
    assert!(matches!(generating().next(SpeakReply::Written(true)), Speak::Synthesize { .. }));
}
