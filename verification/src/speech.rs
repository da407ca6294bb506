//! Speaking a selection: the request to the speech server, and the course from the selection to
//! playback.

use crate::capture::{if_not_blank, law_blank_text_is_dropped, unless_blank};
use crate::text::{all_white, text_if};
use crate::ui::{ACT_IDLE, ACT_PROCESSING, ACT_READING};
use vstd::prelude::*;

verus! {

/// The pause after the spoken text, in seconds, as JSON.
pub const PAD: &'static str = "0.25";

/// The type of the request's body.
pub const BODY_TYPE: &'static str = "application/json";

/// The name of the temporary file that holds the audio.
pub const WAV_FILE: &'static str = "otoha-last.wav";

// ---- the request -------------------------------------------------------------------------------

/// The hexadecimal digit of value `n`.
pub open spec fn hex_digit(n: int) -> char {
    if n < 10 {
        ('0' as int + n) as char
    } else {
        ('a' as int + n - 10) as char
    }
}

/// How a character stands in a JSON string.
pub open spec fn escape(c: char) -> Seq<char> {
    if c == '"' {
        seq!['\\', '"']
    } else if c == '\\' {
        seq!['\\', '\\']
    } else if c == '\u{8}' {
        seq!['\\', 'b']
    } else if c == '\t' {
        seq!['\\', 't']
    } else if c == '\n' {
        seq!['\\', 'n']
    } else if c == '\u{c}' {
        seq!['\\', 'f']
    } else if c == '\r' {
        seq!['\\', 'r']
    } else if c <= '\u{1f}' {
        seq!['\\', 'u', '0', '0', hex_digit(c as int / 16), hex_digit(c as int % 16)]
    } else {
        seq![c]
    }
}

/// How a text stands in a JSON string, without the quotes round it.
pub open spec fn escaped(s: Seq<char>) -> Seq<char>
    decreases s.len(),
{
    if s.len() == 0 {
        seq![]
    } else {
        escape(s[0]) + escaped(s.drop_first())
    }
}

/// The JSON string for a text.
pub open spec fn quoted(s: Seq<char>) -> Seq<char> {
    seq!['"'] + escaped(s) + seq!['"']
}

/// Renders `serde_json::Value::String` as JSON text. Quotes, backslashes and the characters below
/// the space are escaped, those with a short form by it; every other character stands for itself.
#[verifier::external_body]
fn json_string(s: &str) -> (r: String)
    ensures
        r@ == quoted(s@),
{
    serde_json::Value::String(s.to_string()).to_string()
}

/// The body of the request to speak `text` with `voice`, at the speed whose JSON is `speed`: an
/// object whose members are in the order of their names.
pub open spec fn body_of(text: Seq<char>, voice: Seq<char>, speed: Seq<char>) -> Seq<char> {
    "{\"pad\":"@ + PAD@ + ",\"speed\":"@ + speed + ",\"text\":"@ + quoted(text) + ",\"voice\":"@
        + quoted(voice) + "}"@
}

/// The body of the request to speak `text` with `voice`, at the speed whose JSON is `speed`.
pub fn speak_body(text: &str, voice: &str, speed: &str) -> (r: String)
    ensures
        r@ == body_of(text@, voice@, speed@),
{
    let mut body = "{\"pad\":".to_string();
    body.append(PAD);
    body.append(",\"speed\":");
    body.append(speed);
    body.append(",\"text\":");
    body.append(json_string(text).as_str());
    body.append(",\"voice\":");
    body.append(json_string(voice).as_str());
    body.append("}");
    body
}

proof fn lemma_escape_code(a: char, b: char, x: Seq<char>, y: Seq<char>)
    requires
        escape(a) + x == escape(b) + y,
    ensures
        a == b,
        x == y,
{
    let p = escape(a) + x;
    let q = escape(b) + y;
    assert(p[0] == escape(a)[0]);
    assert(q[0] == escape(b)[0]);
    if escape(a).len() > 1 {
        assert(p[1] == escape(a)[1]);
    }
    if escape(b).len() > 1 {
        assert(q[1] == escape(b)[1]);
    }
    if escape(a).len() == 6 {
        assert(p[4] == escape(a)[4] && p[5] == escape(a)[5]);
    }
    if escape(b).len() == 6 {
        assert(q[4] == escape(b)[4] && q[5] == escape(b)[5]);
    }
    assert(a == b);
    assert(x =~= p.skip(escape(a).len() as int));
    assert(y =~= q.skip(escape(b).len() as int));
}

proof fn lemma_escaped_ends_at_quote(a: Seq<char>, b: Seq<char>, x: Seq<char>, y: Seq<char>)
    requires
        escaped(a) + seq!['"'] + x == escaped(b) + seq!['"'] + y,
    ensures
        a == b,
        x == y,
    decreases a.len(),
{
    let p = escaped(a) + seq!['"'] + x;
    let q = escaped(b) + seq!['"'] + y;
    if a.len() == 0 || b.len() == 0 {
        if a.len() > 0 {
            assert(p[0] == escape(a[0])[0]);
            assert(q[0] == '"');
        }
        if b.len() > 0 {
            assert(q[0] == escape(b[0])[0]);
            assert(p[0] == '"');
        }
        assert(x =~= p.skip(1));
        assert(y =~= q.skip(1));
        assert(a =~= b);
    } else {
        let c = a.drop_first();
        let d = b.drop_first();
        assert(p =~= escape(a[0]) + (escaped(c) + seq!['"'] + x));
        assert(q =~= escape(b[0]) + (escaped(d) + seq!['"'] + y));
        lemma_escape_code(a[0], b[0], escaped(c) + seq!['"'] + x, escaped(d) + seq!['"'] + y);
        lemma_escaped_ends_at_quote(c, d, x, y);
        assert(a =~= seq![a[0]] + c);
        assert(b =~= seq![b[0]] + d);
    }
}

/// The request says what is to be spoken and by whom: requests at one speed with the same body are
/// for the same text and the same voice, whatever characters they hold.
pub proof fn law_body_tells_texts_apart(
    text: Seq<char>,
    voice: Seq<char>,
    other_text: Seq<char>,
    other_voice: Seq<char>,
    speed: Seq<char>,
)
    requires
        body_of(text, voice, speed) == body_of(other_text, other_voice, speed),
    ensures
        text == other_text,
        voice == other_voice,
{
    let front = "{\"pad\":"@ + PAD@ + ",\"speed\":"@ + speed + ",\"text\":"@ + seq!['"'];
    let middle = ",\"voice\":"@ + seq!['"'];
    let v = escaped(voice) + seq!['"'] + "}"@;
    let w = escaped(other_voice) + seq!['"'] + "}"@;
    let p = body_of(text, voice, speed);
    let q = body_of(other_text, other_voice, speed);
    assert(p =~= front + (escaped(text) + seq!['"'] + (middle + v)));
    assert(q =~= front + (escaped(other_text) + seq!['"'] + (middle + w)));
    let n = front.len() as int;
    assert(p.skip(n) =~= escaped(text) + seq!['"'] + (middle + v));
    assert(q.skip(n) =~= escaped(other_text) + seq!['"'] + (middle + w));
    lemma_escaped_ends_at_quote(text, other_text, middle + v, middle + w);
    let m = middle.len() as int;
    assert((middle + v).skip(m) =~= v);
    assert((middle + w).skip(m) =~= w);
    lemma_escaped_ends_at_quote(voice, other_voice, "}"@, "}"@);
}

/// A text without quotes, backslashes and control characters stands in the request as it is.
pub proof fn law_plain_text_is_unchanged(s: Seq<char>)
    requires
        forall|i: int| 0 <= i < s.len() ==> s[i] != '"' && s[i] != '\\' && #[trigger] s[i] >= ' ',
    ensures
        quoted(s) == seq!['"'] + s + seq!['"'],
{
    lemma_plain(s);
}

proof fn lemma_plain(s: Seq<char>)
    requires
        forall|i: int| 0 <= i < s.len() ==> s[i] != '"' && s[i] != '\\' && #[trigger] s[i] >= ' ',
    ensures
        escaped(s) == s,
    decreases s.len(),
{
    if s.len() > 0 {
        let t = s.drop_first();
        assert forall|i: int| 0 <= i < t.len() implies t[i] != '"' && t[i] != '\\' && #[trigger] t[i]
            >= ' ' by {
            assert(t[i] == s[i + 1]);
        }
        lemma_plain(t);
        assert(s[0] >= ' ');
        assert(escaped(s) =~= s);
    }
}

/// The value of a hexadecimal digit.
pub open spec fn hex_value(c: char) -> int {
    if '0' <= c <= '9' {
        c as int - '0' as int
    } else if 'a' <= c <= 'f' {
        c as int - 'a' as int + 10
    } else {
        c as int - 'A' as int + 10
    }
}

/// The character that a JSON string goes on with, and how many characters it takes up there.
pub open spec fn json_char(s: Seq<char>) -> (char, int) {
    if s[0] != '\\' {
        (s[0], 1)
    } else if s[1] == 'b' {
        ('\u{8}', 2)
    } else if s[1] == 't' {
        ('\t', 2)
    } else if s[1] == 'n' {
        ('\n', 2)
    } else if s[1] == 'f' {
        ('\u{c}', 2)
    } else if s[1] == 'r' {
        ('\r', 2)
    } else if s[1] == 'u' {
        (
            (hex_value(s[2]) * 4096 + hex_value(s[3]) * 256 + hex_value(s[4]) * 16 + hex_value(
                s[5],
            )) as char,
            6,
        )
    } else {
        (s[1], 2)
    }
}

/// What a JSON reader makes of `s`, which begins inside a string: the rest of the string's text, and
/// what follows its closing quote.
pub open spec fn json_read(s: Seq<char>) -> Option<(Seq<char>, Seq<char>)>
    decreases s.len(),
{
    if s.len() == 0 {
        None
    } else if s[0] == '"' {
        Some((seq![], s.drop_first()))
    } else {
        let (c, n) = json_char(s);
        if 0 < n <= s.len() {
            match json_read(s.skip(n)) {
                Some((text, rest)) => Some((seq![c] + text, rest)),
                None => None,
            }
        } else {
            None
        }
    }
}

proof fn lemma_hex(n: int)
    requires
        0 <= n < 16,
    ensures
        hex_value(hex_digit(n)) == n,
{
    let c = hex_digit(n);
    if n < 10 {
        assert(c as int == '0' as int + n);
    } else {
        assert(c as int == 'a' as int + n - 10);
    }
}

proof fn lemma_json_char(c: char, more: Seq<char>)
    ensures
        json_char(escape(c) + more) == (c, escape(c).len() as int),
        escape(c)[0] != '"',
{
    let e = escape(c);
    let s = e + more;
    assert(s[0] == e[0]);
    if e.len() > 1 {
        assert(s[1] == e[1]);
    }
    if e.len() == 6 {
        assert(s[2] == e[2] && s[3] == e[3] && s[4] == e[4] && s[5] == e[5]);
        let n = c as int;
        assert(0 <= n < 32);
        lemma_hex(n / 16);
        lemma_hex(n % 16);
        lemma_hex(0);
        assert('0' == hex_digit(0));
        assert(n / 16 * 16 + n % 16 == n);
        assert(n as char == c);
    }
}

proof fn lemma_read_back(text: Seq<char>, rest: Seq<char>)
    ensures
        json_read(escaped(text) + seq!['"'] + rest) == Some((text, rest)),
    decreases text.len(),
{
    let s = escaped(text) + seq!['"'] + rest;
    if text.len() == 0 {
        assert(s.drop_first() =~= rest);
        assert(text =~= seq![]);
    } else {
        let c = text[0];
        let e = escape(c);
        let more = escaped(text.drop_first()) + seq!['"'] + rest;
        assert(s =~= e + more);
        lemma_json_char(c, more);
        assert(s[0] == e[0]);
        assert(s.skip(e.len() as int) =~= more);
        lemma_read_back(text.drop_first(), rest);
        assert(seq![c] + text.drop_first() =~= text);
    }
}

/// The request holds what it was made for. It is an object of four members, `pad`, `speed`, `text`
/// and `voice`; `pad` is a quarter of a second, `speed` is what it was given as, and a JSON reader
/// makes of the two strings the text and the voice, whatever characters they hold.
pub proof fn law_request_is_read_back(text: Seq<char>, voice: Seq<char>, speed: Seq<char>)
    ensures
        ({
            let front = "{\"pad\":0.25,\"speed\":"@ + speed + ",\"text\":\""@;
            let middle = ",\"voice\":\""@;
            let body = body_of(text, voice, speed);
            &&& front.is_prefix_of(body)
            &&& json_read(body.skip(front.len() as int)) matches Some((t, rest)) && t == text
                && middle.is_prefix_of(rest) && json_read(rest.skip(middle.len() as int)) == Some(
                (voice, "}"@),
            )
        }),
{
    reveal_strlit("{\"pad\":0.25,\"speed\":");
    reveal_strlit(",\"text\":\"");
    reveal_strlit(",\"voice\":\"");
    reveal_strlit("{\"pad\":");
    reveal_strlit("0.25");
    reveal_strlit(",\"speed\":");
    reveal_strlit(",\"text\":");
    reveal_strlit(",\"voice\":");
    let front = "{\"pad\":0.25,\"speed\":"@ + speed + ",\"text\":\""@;
    let middle = ",\"voice\":\""@;
    let body = body_of(text, voice, speed);
    let last = escaped(voice) + seq!['"'] + "}"@;
    let rest = middle + last;
    assert(body =~= front + (escaped(text) + seq!['"'] + rest));
    assert(front =~= body.subrange(0, front.len() as int));
    assert(body.skip(front.len() as int) =~= escaped(text) + seq!['"'] + rest);
    assert(middle =~= rest.subrange(0, middle.len() as int));
    assert(rest.skip(middle.len() as int) =~= last);
    lemma_read_back(text, rest);
    lemma_read_back(voice, "}"@);
}

// ---- from the selection to playback ------------------------------------------------------------

/// Speaking the selection, with texts of type `T`.
pub enum Speak<T> {
    /// The selection is to be captured.
    Capture,
    /// The activity is to be set to processing.
    MarkProcessing { text: T },
    /// The text is to be turned into audio.
    Synthesize { text: T },
    /// The audio is to be written to the temporary file.
    WriteWav,
    /// The file is to be played.
    Play,
    /// The activity is to be set to reading.
    MarkReading,
    /// The activity is to be set to idle: something failed.
    MarkIdle,
    /// It is over.
    Finished,
}

/// What came of a step.
pub enum SpeakReply<T> {
    /// It is done.
    Done,
    /// The selection, if there is one.
    Captured(Option<T>),
    /// Whether there is audio.
    Synthesized(bool),
    /// Whether the audio was written.
    Written(bool),
}

impl View for Speak<String> {
    type V = Speak<Seq<char>>;

    open spec fn view(&self) -> Speak<Seq<char>> {
        match self {
            Speak::Capture => Speak::Capture,
            Speak::MarkProcessing { text } => Speak::MarkProcessing { text: text@ },
            Speak::Synthesize { text } => Speak::Synthesize { text: text@ },
            Speak::WriteWav => Speak::WriteWav,
            Speak::Play => Speak::Play,
            Speak::MarkReading => Speak::MarkReading,
            Speak::MarkIdle => Speak::MarkIdle,
            Speak::Finished => Speak::Finished,
        }
    }
}

impl View for SpeakReply<String> {
    type V = SpeakReply<Seq<char>>;

    open spec fn view(&self) -> SpeakReply<Seq<char>> {
        match self {
            SpeakReply::Done => SpeakReply::Done,
            SpeakReply::Captured(t) => SpeakReply::Captured(text_if(*t)),
            SpeakReply::Synthesized(ok) => SpeakReply::Synthesized(*ok),
            SpeakReply::Written(ok) => SpeakReply::Written(*ok),
        }
    }
}

impl Speak<Seq<char>> {
    /// The course after `reply`. A reply that is not called for changes nothing.
    pub open spec fn after(self, reply: SpeakReply<Seq<char>>) -> Self {
        match (self, reply) {
            (Speak::Capture, SpeakReply::Captured(t)) => match t {
                Some(text) if unless_blank(text) is Some => Speak::MarkProcessing { text },
                _ => Speak::Finished,
            },
            (Speak::MarkProcessing { text }, SpeakReply::Done) => Speak::Synthesize { text },
            (Speak::Synthesize { .. }, SpeakReply::Synthesized(ok)) => if ok {
                Speak::WriteWav
            } else {
                Speak::MarkIdle
            },
            (Speak::WriteWav, SpeakReply::Written(ok)) => if ok {
                Speak::Play
            } else {
                Speak::MarkIdle
            },
            (Speak::Play, SpeakReply::Done) => Speak::MarkReading,
            (Speak::MarkReading, SpeakReply::Done) => Speak::Finished,
            (Speak::MarkIdle, SpeakReply::Done) => Speak::Finished,
            _ => self,
        }
    }

    /// The activity that is to be set, if that is the next step.
    pub open spec fn activity_to_set(self) -> Option<u8> {
        match self {
            Speak::MarkProcessing { .. } => Some(ACT_PROCESSING),
            Speak::MarkReading => Some(ACT_READING),
            Speak::MarkIdle => Some(ACT_IDLE),
            _ => None,
        }
    }

    /// The course after all of `replies`.
    pub open spec fn after_all(replies: Seq<SpeakReply<Seq<char>>>) -> Self
        decreases replies.len(),
    {
        if replies.len() == 0 {
            Speak::Capture
        } else {
            Self::after_all(replies.drop_last()).after(replies.last())
        }
    }
}

impl Speak<String> {
    /// The course before its first step.
    pub fn start() -> (r: Self)
        ensures
            r@ == Speak::<Seq<char>>::after_all(seq![]),
    {
        Speak::Capture
    }

    /// Takes in what came of the step.
    pub fn next(self, reply: SpeakReply<String>) -> (r: Self)
        ensures
            r@ == self@.after(reply@),
    {
        match (self, reply) {
            (Speak::Capture, SpeakReply::Captured(t)) => {
                if let Some(captured) = t {
                    if let Some(text) = if_not_blank(captured) {
                        return Speak::MarkProcessing { text };
                    }
                }
                Speak::Finished
            },
            (Speak::MarkProcessing { text }, SpeakReply::Done) => Speak::Synthesize { text },
            (Speak::Synthesize { .. }, SpeakReply::Synthesized(ok)) => if ok {
                Speak::WriteWav
            } else {
                Speak::MarkIdle
            },
            (Speak::WriteWav, SpeakReply::Written(ok)) => if ok {
                Speak::Play
            } else {
                Speak::MarkIdle
            },
            (Speak::Play, SpeakReply::Done) => Speak::MarkReading,
            (Speak::MarkReading, SpeakReply::Done) => Speak::Finished,
            (Speak::MarkIdle, SpeakReply::Done) => Speak::Finished,
            (speak, _) => speak,
        }
    }

    /// The activity that is to be set, if that is the next step.
    pub fn activity(&self) -> (r: Option<u8>)
        ensures
            r == self@.activity_to_set(),
    {
        match self {
            Speak::MarkProcessing { .. } => Some(ACT_PROCESSING),
            Speak::MarkReading => Some(ACT_READING),
            Speak::MarkIdle => Some(ACT_IDLE),
            _ => None,
        }
    }
}

/// The activity after `replies`, if it is `activity` at first and nothing else sets it.
pub open spec fn activity_after(activity: u8, replies: Seq<SpeakReply<Seq<char>>>) -> u8
    decreases replies.len(),
{
    if replies.len() == 0 {
        activity
    } else {
        let before = activity_after(activity, replies.drop_last());
        match (
            Speak::<Seq<char>>::after_all(replies.drop_last()).activity_to_set(),
            replies.last(),
        ) {
            (Some(a), SpeakReply::Done) => a,
            _ => before,
        }
    }
}

/// Whether audio was played among `replies`.
pub open spec fn played(replies: Seq<SpeakReply<Seq<char>>>) -> bool
    decreases replies.len(),
{
    replies.len() > 0 && (played(replies.drop_last()) || (Speak::<Seq<char>>::after_all(
        replies.drop_last(),
    ) is Play && replies.last() is Done))
}

/// Whether a text was taken up for speaking among `replies`.
pub open spec fn taken_up(replies: Seq<SpeakReply<Seq<char>>>) -> bool
    decreases replies.len(),
{
    replies.len() > 0 && (taken_up(replies.drop_last()) || Speak::<Seq<char>>::after_all(
        replies,
    ) is MarkProcessing)
}

proof fn lemma_speak(activity: u8, replies: Seq<SpeakReply<Seq<char>>>)
    ensures
        ({
            let a = activity_after(activity, replies);
            match Speak::<Seq<char>>::after_all(replies) {
                Speak::Capture => a == activity && !taken_up(replies) && !played(replies),
                Speak::MarkProcessing { text } => a == activity && taken_up(replies) && !played(
                    replies,
                ) && unless_blank(text) == Some(text),
                Speak::Synthesize { text } => a == ACT_PROCESSING && taken_up(replies) && !played(
                    replies,
                ) && unless_blank(text) == Some(text),
                Speak::WriteWav | Speak::Play | Speak::MarkIdle => a == ACT_PROCESSING && taken_up(
                    replies,
                ) && !played(replies),
                Speak::MarkReading => a == ACT_PROCESSING && taken_up(replies) && played(replies),
                Speak::Finished => a == (if !taken_up(replies) {
                    activity
                } else if played(replies) {
                    ACT_READING
                } else {
                    ACT_IDLE
                }),
            }
        }),
    decreases replies.len(),
{
    if replies.len() > 0 {
        lemma_speak(activity, replies.drop_last());
    }
}

/// The spinner never stays: once the course is over, the activity is what it was where no text was
/// taken up, reading where audio is being played, and else idle.
pub proof fn law_spinner_never_stays(activity: u8, replies: Seq<SpeakReply<Seq<char>>>)
    requires
        Speak::<Seq<char>>::after_all(replies) is Finished,
    ensures
        activity_after(activity, replies) == (if !taken_up(replies) {
            activity
        } else if played(replies) {
            ACT_READING
        } else {
            ACT_IDLE
        }),
{
    lemma_speak(activity, replies);
}

/// While audio is being generated the activity is processing, and what it is generated from is not
/// blank.
pub proof fn law_processing_while_generating(
    activity: u8,
    replies: Seq<SpeakReply<Seq<char>>>,
)
    ensures
        Speak::<Seq<char>>::after_all(replies) matches Speak::Synthesize { text } ==> activity_after(
            activity,
            replies,
        ) == ACT_PROCESSING && unless_blank(text) == Some(text),
{
    lemma_speak(activity, replies);
}

/// What the capture of the selection has given among `replies`, if it is done.
pub open spec fn captured(replies: Seq<SpeakReply<Seq<char>>>) -> Option<Option<Seq<char>>>
    decreases replies.len(),
{
    if replies.len() == 0 {
        None
    } else {
        match (Speak::<Seq<char>>::after_all(replies.drop_last()), replies.last()) {
            (Speak::Capture, SpeakReply::Captured(t)) => Some(t),
            _ => captured(replies.drop_last()),
        }
    }
}

/// What is spoken is what was captured: the text that is taken up and turned into audio is all of
/// the captured one, as it is. A captured text is taken up exactly if it is not blank.
pub proof fn law_captured_text_is_spoken(replies: Seq<SpeakReply<Seq<char>>>)
    ensures
        match Speak::<Seq<char>>::after_all(replies) {
            Speak::Capture => captured(replies) is None,
            Speak::MarkProcessing { text } | Speak::Synthesize { text } => captured(replies)
                == Some(Some(text)) && !all_white(text),
            _ => captured(replies) is Some,
        },
        taken_up(replies) <==> (captured(replies) matches Some(Some(text)) && !all_white(text)),
    decreases replies.len(),
{
    if replies.len() > 0 {
        law_captured_text_is_spoken(replies.drop_last());
        if let SpeakReply::Captured(Some(text)) = replies.last() {
            law_blank_text_is_dropped(text);
        }
    }
}

/// The course of speaking a selection, step by step, for whatever is captured and whatever comes of
/// making the audio and writing it. Without a text, or with a blank one, nothing happens. Else the
/// activity becomes processing and the text goes to be turned into audio; audio that is there is
/// written, and played once it is written, and the activity becomes reading. Where there is none, or
/// it cannot be written, nothing is played and the activity becomes idle.
pub proof fn law_course_of_speaking(
    activity: u8,
    selection: Option<Seq<char>>,
    audio: bool,
    written: bool,
)
    ensures
        ({
            let r1 = seq![SpeakReply::Captured(selection)];
            let r2 = r1.push(SpeakReply::Done);
            let r3 = r2.push(SpeakReply::Synthesized(audio));
            let r4 = r3.push(SpeakReply::Written(written));
            let r5 = r4.push(SpeakReply::Done);
            let r6 = r5.push(SpeakReply::Done);
            match selection {
                Some(t) if !all_white(t) => {
                    &&& Speak::<Seq<char>>::after_all(r1) == Speak::<Seq<char>>::MarkProcessing {
                        text: t,
                    }
                    &&& Speak::<Seq<char>>::after_all(r2) == Speak::<Seq<char>>::Synthesize {
                        text: t,
                    }
                    &&& activity_after(activity, r1) == activity
                    &&& activity_after(activity, r2) == 1
                    &&& activity_after(activity, r4) == 1
                    &&& Speak::<Seq<char>>::after_all(r3) is WriteWav <==> audio
                    &&& Speak::<Seq<char>>::after_all(r3) is MarkIdle <==> !audio
                    &&& Speak::<Seq<char>>::after_all(r4) is Play <==> audio && written
                    &&& Speak::<Seq<char>>::after_all(r4) is MarkIdle <==> !(audio && written)
                    &&& Speak::<Seq<char>>::after_all(r5) is MarkReading <==> audio && written
                    &&& played(r6) <==> audio && written
                    &&& Speak::<Seq<char>>::after_all(r6) is Finished
                    &&& activity_after(activity, r6) == (if audio && written {
                        2u8
                    } else {
                        0u8
                    })
                },
                _ => {
                    &&& Speak::<Seq<char>>::after_all(r1) is Finished
                    &&& Speak::<Seq<char>>::after_all(r6) is Finished
                    &&& activity_after(activity, r6) == activity
                    &&& !played(r6)
                },
            }
        }),
{
    let r1 = seq![SpeakReply::Captured(selection)];
    let r2 = r1.push(SpeakReply::Done);
    let r3 = r2.push(SpeakReply::Synthesized(audio));
    let r4 = r3.push(SpeakReply::Written(written));
    let r5 = r4.push(SpeakReply::Done);
    let r6 = r5.push(SpeakReply::Done);
    assert(r1.drop_last() =~= Seq::<SpeakReply<Seq<char>>>::empty());
    assert(r2.drop_last() =~= r1);
    assert(r3.drop_last() =~= r2);
    assert(r4.drop_last() =~= r3);
    assert(r5.drop_last() =~= r4);
    assert(r6.drop_last() =~= r5);
    reveal_with_fuel(Speak::<_>::after_all, 7);
    reveal_with_fuel(activity_after, 7);
    reveal_with_fuel(played, 7);
    if let Some(t) = selection {
        law_blank_text_is_dropped(t);
    }
}

/// A reply that is not called for has no say in the course.
pub proof fn law_speaking_heeds_only_answers(s: Speak<Seq<char>>, reply: SpeakReply<Seq<char>>)
    requires
        match s {
            Speak::Capture => !(reply is Captured),
            Speak::Synthesize { .. } => !(reply is Synthesized),
            Speak::WriteWav => !(reply is Written),
            Speak::Finished => true,
            _ => !(reply is Done),
        },
    ensures
        s.after(reply) == s,
{
}

/// The texts that the course carries and takes in are seen as they are.
pub proof fn law_spoken_texts_are_seen_as_they_are(text: String)
    ensures
        (Speak::MarkProcessing { text })@ == (Speak::MarkProcessing { text: text@ }),
        (Speak::Synthesize { text })@ == (Speak::Synthesize { text: text@ }),
        (SpeakReply::Captured(Some(text)))@ == SpeakReply::Captured(Some(text@)),
        (SpeakReply::<String>::Captured(None))@ == SpeakReply::<Seq<char>>::Captured(None),
{
}

} // verus!
