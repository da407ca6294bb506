//! The reader plugin's state: how its pushes are read and when they go stale.

use crate::text::{
    all_white, chars_of, exactly, first_at, law_line_alone, law_line_ends_at_line_feed,
    law_repetitions_are_taken_off, law_white_space_parts_words, law_word_alone, lemma_first_at,
    lemma_first_at_append, lemma_first_at_found, lemma_first_word, lemma_trim_start_twice,
    lemma_words_skip_gap, lines, lines_of, lossy, lossy_text, same_chars, strip_all, strip_all_of,
    text_of, texts, trim_start_of, white, without_cr, words, words_of,
};
use vstd::prelude::*;
use vstd::slice::slice_subrange;
use vstd::utf8::{
    decode_utf8, encode_utf8, encode_utf8_decode_utf8, encode_utf8_valid_utf8, valid_utf8,
};

verus! {

/// The reader is not reading.
pub const OBS_IDLE: u8 = 0;

/// The reader is generating audio.
pub const OBS_PROCESSING: u8 = 1;

/// The reader is playing audio.
pub const OBS_READING: u8 = 2;

/// The reader is paused.
pub const OBS_PAUSED: u8 = 3;

/// The port on which the reader's state pushes arrive.
pub const STATE_PORT: u16 = 8766;

/// Where the reader takes the command to pause or resume.
pub const OBS_TOGGLE_URL: &'static str = "http://127.0.0.1:8767/toggle";

/// Where the reader takes the command to stop.
pub const OBS_STOP_URL: &'static str = "http://127.0.0.1:8767/stop";

/// The address of the reader's own listener.
pub const OBS_ADDRESS: &'static str = "127.0.0.1:8767";

/// How long the reader may take to answer a command, in milliseconds.
pub const OBS_COMMAND_MILLIS: u64 = 500;

/// How long the reader's listener may take to be reached, in milliseconds.
pub const OBS_ALIVE_MILLIS: u64 = 300;

/// What every state push is answered.
pub const STATE_REPLY: &'static str = "HTTP/1.1 200 OK\r\nContent-Length: 2\r\n\r\nok";

/// The characters that end the name of a state in a path.
pub open spec fn path_end() -> spec_fn(char) -> bool {
    |c: char| c == '?' || c == ' '
}

/// The name of the state that `path` pushes: what stands between its leading slashes and the first
/// `?` or space.
pub open spec fn state_name(path: Seq<char>) -> Seq<char> {
    let s = strip_all_of(path, seq!['/']);
    s.take(first_at(s, path_end()))
}

/// The state that `path` pushes. Every name but the three active ones means idle.
pub open spec fn obs_state_of(path: Seq<char>) -> u8 {
    let name = state_name(path);
    if name == "reading"@ {
        OBS_READING
    } else if name == "processing"@ {
        OBS_PROCESSING
    } else if name == "paused"@ {
        OBS_PAUSED
    } else {
        OBS_IDLE
    }
}

/// The path that a request asks for: the second word of its first line, or `/`.
pub open spec fn path_of(request: Seq<char>) -> Seq<char> {
    if lines_of(request).len() > 0 && words_of(lines_of(request)[0]).len() > 1 {
        words_of(lines_of(request)[0])[1]
    } else {
        seq!['/']
    }
}

/// Map a pushed request path (e.g. "/reading") to a reader state.
pub fn parse_obs_state(path: &str) -> (r: u8)
    ensures
        r == obs_state_of(path@),
{
    let c = chars_of(path);
    let mut slash: Vec<char> = Vec::new();
    slash.push('/');
    assert(slash@ =~= seq!['/']);
    let s = strip_all(c.as_slice(), slash.as_slice());
    let mut k: usize = 0;
    while k < s.len() && s[k] != '?' && s[k] != ' '
        invariant
            k <= s@.len(),
            forall|i: int| 0 <= i < k ==> s@[i] != '?' && s@[i] != ' ',
        decreases s@.len() - k,
    {
        k = k + 1;
    }
    proof {
        lemma_first_at(s@, path_end(), k as int);
    }
    let name = slice_subrange(s, 0, k);
    assert(name@ =~= s@.take(k as int));
    if same_chars(name, chars_of("reading").as_slice()) {
        OBS_READING
    } else if same_chars(name, chars_of("processing").as_slice()) {
        OBS_PROCESSING
    } else if same_chars(name, chars_of("paused").as_slice()) {
        OBS_PAUSED
    } else {
        OBS_IDLE
    }
}

/// The path that the request with the text `request` asks for.
pub fn request_path(request: &str) -> (r: String)
    ensures
        r@ == path_of(request@),
{
    let c = chars_of(request);
    let ls = lines(c.as_slice());
    assert(texts(ls@).len() == ls@.len());
    if ls.len() > 0 {
        assert(texts(ls@)[0] == ls@[0]@);
        let ws = words(ls[0]);
        assert(texts(ws@).len() == ws@.len());
        if ws.len() > 1 {
            assert(texts(ws@)[1] == ws@[1]@);
            return text_of(ws[1]);
        }
    }
    let mut root: Vec<char> = Vec::new();
    root.push('/');
    assert(root@ =~= seq!['/']);
    text_of(root.as_slice())
}

/// Whether a request that begins with `head` asks for the same path whatever follows.
pub open spec fn settles_path(head: Seq<char>) -> bool {
    forall|rest: Seq<char>| #[trigger] path_of(head + rest) == path_of(head)
}

/// The state that the request with the bytes `request` pushes. Where the bytes begin with a head
/// that settles the path, whatever bytes follow have no say in it, even those that are not UTF-8,
/// such as part of a character.
pub fn pushed_state(request: &[u8]) -> (r: u8)
    ensures
        r == obs_state_of(path_of(lossy_text(request@))),
        forall|k: int|
            0 <= k <= request@.len() && valid_utf8(#[trigger] request@.take(k)) && settles_path(
                decode_utf8(request@.take(k)),
            ) ==> r == obs_state_of(path_of(decode_utf8(request@.take(k)))),
{
    let text = lossy(request);
    proof {
        assert forall|k: int|
            0 <= k <= request@.len() && valid_utf8(#[trigger] request@.take(k)) && settles_path(
                decode_utf8(request@.take(k)),
            ) implies path_of(text@) == path_of(decode_utf8(request@.take(k))) by {
            let head = decode_utf8(request@.take(k));
            assert(text@ =~= head + text@.skip(head.len() as int));
        }
    }
    parse_obs_state(request_path(text.as_str()).as_str())
}

/// The next reader state, given the current one and whether the reader still answers. When it
/// quits it cannot always say so, hence an active state falls back to idle.
pub fn next_obs_state(current: u8, alive: bool) -> (r: u8)
    ensures
        r == next_obs(current, alive),
{
    if current != OBS_IDLE && !alive {
        OBS_IDLE
    } else {
        current
    }
}

/// A reader that does not answer is idle; one that does keeps its state.
pub open spec fn next_obs(current: u8, alive: bool) -> u8 {
    if alive {
        current
    } else {
        OBS_IDLE
    }
}

proof fn lemma_strip_append(p: Seq<char>, t: Seq<char>)
    requires
        t.len() > 0,
        t[0] != '/',
    ensures
        strip_all_of(p + t, seq!['/']) == strip_all_of(p, seq!['/']) + t,
    decreases p.len(),
{
    let slash = seq!['/'];
    if slash.is_prefix_of(p) {
        assert(p[0] == slash[0]);
        assert(slash.is_prefix_of(p + t)) by {
            assert(slash =~= (p + t).subrange(0, 1));
        }
        assert((p + t).skip(1) =~= p.skip(1) + t);
        lemma_strip_append(p.skip(1), t);
    } else if slash.is_prefix_of(p + t) {
        assert((p + t)[0] == slash[0]);
        assert(slash =~= p.subrange(0, 1));
    }
}

/// What follows the first `?` or space in a path has no say in the state that the path pushes.
pub proof fn law_state_ignores_query(path: Seq<char>, end: char, query: Seq<char>)
    requires
        end == '?' || end == ' ',
    ensures
        obs_state_of(path + seq![end] + query) == obs_state_of(path),
{
    let t = seq![end] + query;
    assert(path + seq![end] + query =~= path + t);
    lemma_strip_append(path, t);
    let s = strip_all_of(path, seq!['/']);
    lemma_first_at_append(s, t, path_end());
    lemma_first_at_found(s, path_end());
    assert((s + t).take(first_at(s, path_end())) =~= s.take(first_at(s, path_end())));
}

/// A further slash at the front of a path has no say in the state that the path pushes.
pub proof fn law_state_ignores_slashes(path: Seq<char>)
    ensures
        obs_state_of(seq!['/'] + path) == obs_state_of(path),
{
    let s = seq!['/'] + path;
    assert(seq!['/'] =~= s.subrange(0, 1));
    assert(s.skip(1) =~= path);
}

/// A request that begins with a method, one space and a target asks for that target, whatever text
/// follows, as long as white space parts it from the target. This holds of the text of a request
/// and of the bytes that encode it.
pub proof fn law_request_asks_for_target(
    method: Seq<char>,
    target: Seq<char>,
    rest: Seq<char>,
)
    requires
        method.len() > 0,
        target.len() > 0,
        forall|i: int| 0 <= i < method.len() ==> !white(#[trigger] method[i]),
        forall|i: int| 0 <= i < target.len() ==> !white(#[trigger] target[i]),
        rest.len() > 0 ==> white(rest[0]),
    ensures
        path_of(method + seq![' '] + target + rest) == target,
        path_of(lossy_text(encode_utf8(method + seq![' '] + target + rest))) == target,
{
    encode_utf8_valid_utf8(method + seq![' '] + target + rest);
    encode_utf8_decode_utf8(method + seq![' '] + target + rest);
    let head = method + seq![' '] + target;
    let s = head + rest;
    lemma_first_at_found(s, exactly('\n'));
    let k = first_at(s, exactly('\n'));
    assert(k >= head.len()) by {
        if k < head.len() {
            assert(s[k] == head[k]);
            if k < method.len() {
                assert(head[k] == method[k]);
            } else if k > method.len() {
                assert(head[k] == target[k - method.len() - 1]);
            }
        }
    }
    let line = lines_of(s)[0];
    let tail = line.skip(head.len() as int);
    assert(s[head.len() - 1] == target[target.len() - 1]);
    if k < s.len() {
        assert(lines_of(s)[0] == without_cr(s.take(k)));
        if k == head.len() {
            assert(s.take(k).last() == s[head.len() - 1]);
        }
        assert(line.len() >= head.len());
    } else {
        assert(line == s);
    }
    assert(line =~= method + (seq![' '] + (target + tail)));
    assert(tail.len() > 0 ==> tail[0] == rest[0]);
    lemma_first_word(method, seq![' '] + (target + tail));
    let gap = seq![' '] + (target + tail);
    assert(gap.drop_first() =~= target + tail);
    assert(!white((target + tail)[0])) by {
        assert((target + tail)[0] == target[0]);
    }
    assert(trim_start_of(gap) == trim_start_of(target + tail));
    assert(words_of(gap) == words_of(target + tail)) by {
        lemma_trim_start_twice(gap);
        lemma_trim_start_twice(target + tail);
    }
    lemma_first_word(target, tail);
    assert(words_of(line)[1] == target);
}

/// A request settles what it asks for by a method, one space, a target and one character of white
/// space: a head that ends there, or later, settles the path, which is the target.
pub proof fn law_head_settles_path(method: Seq<char>, target: Seq<char>, rest: Seq<char>)
    requires
        method.len() > 0,
        target.len() > 0,
        forall|i: int| 0 <= i < method.len() ==> !white(#[trigger] method[i]),
        forall|i: int| 0 <= i < target.len() ==> !white(#[trigger] target[i]),
        rest.len() > 0,
        white(rest[0]),
    ensures
        settles_path(method + seq![' '] + target + rest),
        path_of(method + seq![' '] + target + rest) == target,
{
    let head = method + seq![' '] + target + rest;
    law_request_asks_for_target(method, target, rest);
    assert forall|more: Seq<char>| #[trigger] path_of(head + more) == path_of(head) by {
        law_request_asks_for_target(method, target, rest + more);
        assert(head + more =~= method + seq![' '] + target + (rest + more));
    }
}

/// A push of the state `name` is understood as such: the bytes of a request for `/name` push the
/// state of that name, whatever method the request has and whatever text follows. A request whose
/// end is cut off after `/name` and one character of white space is understood in the same way,
/// even where the cut falls inside a character: its head settles the path.
pub proof fn law_push_is_understood(method: Seq<char>, name: Seq<char>, rest: Seq<char>)
    requires
        method.len() > 0,
        forall|i: int| 0 <= i < method.len() ==> !white(#[trigger] method[i]),
        name.len() > 0,
        name[0] != '/',
        forall|i: int| 0 <= i < name.len() ==> !white(#[trigger] name[i]) && name[i] != '?',
        rest.len() > 0 ==> white(rest[0]),
    ensures
        state_name(
            path_of(lossy_text(encode_utf8(method + seq![' '] + (seq!['/'] + name) + rest))),
        ) == name,
        rest.len() > 0 ==> settles_path(method + seq![' '] + (seq!['/'] + name) + rest)
            && state_name(path_of(method + seq![' '] + (seq!['/'] + name) + rest)) == name,
{
    let target = seq!['/'] + name;
    assert forall|i: int| 0 <= i < target.len() implies !white(#[trigger] target[i]) by {
        if i > 0 {
            assert(target[i] == name[i - 1]);
        }
    }
    law_request_asks_for_target(method, target, rest);
    if rest.len() > 0 {
        law_head_settles_path(method, target, rest);
    }
    let slash = seq!['/'];
    assert(slash =~= target.subrange(0, 1));
    assert(target.skip(1) =~= name);
    if slash.is_prefix_of(name) {
        assert(slash[0] == name[0]);
    }
    reveal_with_fuel(strip_all_of, 2);
    lemma_first_at(name, path_end(), name.len() as int);
    assert(name.take(name.len() as int) =~= name);
}

/// A reader that has gone is idle, whatever it was doing, and stays so.
pub proof fn law_gone_reader_is_idle(current: u8, alive: bool)
    ensures
        next_obs(current, false) == OBS_IDLE,
        next_obs(current, true) == current,
        next_obs(OBS_IDLE, alive) == OBS_IDLE,
{
}

/// The state that a path pushes is that of the name between its leading slashes and the first `?` or
/// space, and is read off the whole of that name: each of the three active states has one name, and
/// every other name means idle.
pub proof fn law_state_goes_by_the_name(slashes: Seq<char>, name: Seq<char>, tail: Seq<char>)
    requires
        forall|i: int| 0 <= i < slashes.len() ==> #[trigger] slashes[i] == '/',
        name.len() > 0 ==> name[0] != '/',
        forall|i: int| 0 <= i < name.len() ==> #[trigger] name[i] != '?' && name[i] != ' ',
        tail.len() > 0 ==> tail[0] == '?' || tail[0] == ' ',
    ensures
        state_name(slashes + name + tail) == name,
        obs_state_of(slashes + name + tail) == 2 <==> name == "reading"@,
        obs_state_of(slashes + name + tail) == 1 <==> name == "processing"@,
        obs_state_of(slashes + name + tail) == 3 <==> name == "paused"@,
        obs_state_of(slashes + name + tail) == 0 <==> name != "reading"@ && name != "processing"@
            && name != "paused"@,
    decreases slashes.len(),
{
    let slash = seq!['/'];
    let path = slashes + name + tail;
    reveal_strlit("reading");
    reveal_strlit("processing");
    reveal_strlit("paused");
    if slashes.len() > 0 {
        let fewer = slashes.drop_first();
        assert forall|i: int| 0 <= i < fewer.len() implies #[trigger] fewer[i] == '/' by {
            assert(fewer[i] == slashes[i + 1]);
        }
        law_state_goes_by_the_name(fewer, name, tail);
        assert(slashes[0] == '/');
        assert(path =~= slash + (fewer + name + tail));
        law_repetitions_are_taken_off(fewer + name + tail, slash);
    } else {
        let t = name + tail;
        assert(path =~= t);
        if slash.is_prefix_of(t) {
            assert(t[0] == slash[0]);
            if name.len() > 0 {
                assert(t[0] == name[0]);
            } else {
                assert(t[0] == tail[0]);
            }
        }
        assert forall|i: int| 0 <= i < name.len() implies !path_end()(#[trigger] t[i]) by {
            assert(t[i] == name[i]);
        }
        if tail.len() > 0 {
            assert(t[name.len() as int] == tail[0]);
        }
        lemma_first_at(t, path_end(), name.len() as int);
        assert(t.take(name.len() as int) =~= name);
    }
}

/// What a request asks for stands in its first line; the others have no say.
pub proof fn law_first_line_decides(line: Seq<char>, rest: Seq<char>)
    requires
        !line.contains('\n'),
    ensures
        path_of(line + seq!['\n'] + rest) == path_of(line),
{
    law_line_alone(line);
    law_line_ends_at_line_feed(line, rest);
    let none = Seq::<char>::empty();
    law_word_alone(none);
    let n = line.len() as int;
    if n > 0 && line[n - 1] == '\r' {
        law_white_space_parts_words(line.take(n - 1), '\r', none);
        assert(line.take(n - 1) + seq!['\r'] + none =~= line);
        assert(words_of(line.take(n - 1)) + words_of(none) =~= words_of(line.take(n - 1)));
    }
}

proof fn lemma_no_words(s: Seq<char>)
    requires
        all_white(s),
    ensures
        words_of(s).len() == 0,
{
    let none = Seq::<char>::empty();
    lemma_words_skip_gap(s, none);
    assert(s + none =~= s);
    law_word_alone(none);
}

/// A request asks for the second word of its line, whatever white space stands before, between and
/// after the words and whatever the words are.
pub proof fn law_second_word_is_the_path(
    lead: Seq<char>,
    method: Seq<char>,
    gap: Seq<char>,
    target: Seq<char>,
    more: Seq<char>,
)
    requires
        all_white(lead),
        method.len() > 0,
        forall|i: int| 0 <= i < method.len() ==> !white(#[trigger] method[i]),
        gap.len() > 0,
        all_white(gap),
        target.len() > 0,
        forall|i: int| 0 <= i < target.len() ==> !white(#[trigger] target[i]),
        more.len() > 0 ==> white(more[0]),
        !(lead + (method + (gap + (target + more)))).contains('\n'),
    ensures
        path_of(lead + (method + (gap + (target + more)))) == target,
{
    let line = lead + (method + (gap + (target + more)));
    law_line_alone(line);
    assert(white(gap[0]));
    assert((gap + (target + more))[0] == gap[0]);
    lemma_words_skip_gap(lead, method + (gap + (target + more)));
    lemma_first_word(method, gap + (target + more));
    lemma_words_skip_gap(gap, target + more);
    lemma_first_word(target, more);
    assert(words_of(line)[1] == target);
}

/// A request whose line has fewer than two words asks for `/`.
pub proof fn law_path_is_the_root_where_none_is_named(
    lead: Seq<char>,
    method: Seq<char>,
    trail: Seq<char>,
)
    requires
        all_white(lead),
        forall|i: int| 0 <= i < method.len() ==> !white(#[trigger] method[i]),
        all_white(trail),
        !(lead + (method + trail)).contains('\n'),
    ensures
        path_of(lead + (method + trail)) == seq!['/'],
{
    let line = lead + (method + trail);
    law_line_alone(line);
    lemma_words_skip_gap(lead, method + trail);
    lemma_no_words(trail);
    if method.len() > 0 {
        if trail.len() > 0 {
            assert(white(trail[0]));
        }
        lemma_first_word(method, trail);
    } else {
        assert(method + trail =~= trail);
    }
    assert(words_of(line).len() <= 1);
}

/// The reader takes its commands at its own address, and is told of every push that it was taken.
pub proof fn law_reader_is_reached_at_its_address()
    ensures
        OBS_TOGGLE_URL@ == "http://"@ + OBS_ADDRESS@ + "/toggle"@,
        OBS_STOP_URL@ == "http://"@ + OBS_ADDRESS@ + "/stop"@,
        STATE_REPLY@ == "HTTP/1.1 200 OK\r\n"@ + "Content-Length: 2\r\n\r\n"@ + "ok"@,
        "ok"@.len() == 2,
{
    reveal_strlit("http://127.0.0.1:8767/toggle");
    reveal_strlit("http://127.0.0.1:8767/stop");
    reveal_strlit("127.0.0.1:8767");
    reveal_strlit("http://");
    reveal_strlit("/toggle");
    reveal_strlit("/stop");
    reveal_strlit("HTTP/1.1 200 OK\r\nContent-Length: 2\r\n\r\nok");
    reveal_strlit("HTTP/1.1 200 OK\r\n");
    reveal_strlit("Content-Length: 2\r\n\r\n");
    reveal_strlit("ok");
    assert(OBS_TOGGLE_URL@ =~= "http://"@ + OBS_ADDRESS@ + "/toggle"@);
    assert(OBS_STOP_URL@ =~= "http://"@ + OBS_ADDRESS@ + "/stop"@);
    assert(STATE_REPLY@ =~= "HTTP/1.1 200 OK\r\n"@ + "Content-Length: 2\r\n\r\n"@ + "ok"@);
}

} // verus!
