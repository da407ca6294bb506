use otoha::obsidian::{
    next_obs_state, parse_obs_state, pushed_state, request_path, OBS_IDLE, OBS_PAUSED,
    OBS_PROCESSING, OBS_READING, STATE_REPLY,
};

#[test]
fn parse_obs_state_maps_paths() {
    assert_eq!(parse_obs_state("/reading"), OBS_READING);
    assert_eq!(parse_obs_state("/processing"), OBS_PROCESSING);
    assert_eq!(parse_obs_state("/paused"), OBS_PAUSED);
    assert_eq!(parse_obs_state("/idle"), OBS_IDLE);
    assert_eq!(parse_obs_state("/bogus"), OBS_IDLE);
}

// Quitting Obsidian while paused must clear the menu state.
#[test]
fn obsidian_quit_clears_active_state() {
    assert_eq!(next_obs_state(OBS_PAUSED, false), OBS_IDLE);
    assert_eq!(next_obs_state(OBS_READING, false), OBS_IDLE);
    assert_eq!(next_obs_state(OBS_PROCESSING, false), OBS_IDLE);
}

#[test]
fn obsidian_alive_preserves_state() {
    assert_eq!(next_obs_state(OBS_PAUSED, true), OBS_PAUSED);
    assert_eq!(next_obs_state(OBS_READING, true), OBS_READING);
}

#[test]
fn idle_is_unaffected() {
    assert_eq!(next_obs_state(OBS_IDLE, false), OBS_IDLE);
    assert_eq!(next_obs_state(OBS_IDLE, true), OBS_IDLE);
}

#[test]
fn state_path_may_have_slashes_and_a_query() {
    assert_eq!(parse_obs_state("reading"), OBS_READING);
    assert_eq!(parse_obs_state("///reading"), OBS_READING);
    assert_eq!(parse_obs_state("/paused?t=1"), OBS_PAUSED);
    assert_eq!(parse_obs_state("/processing HTTP/1.1"), OBS_PROCESSING);
    assert_eq!(parse_obs_state("/reading/"), OBS_IDLE);
    assert_eq!(parse_obs_state("/Reading"), OBS_IDLE);
    assert_eq!(parse_obs_state(""), OBS_IDLE);
    assert_eq!(parse_obs_state("/?reading"), OBS_IDLE);
}

#[test]
fn request_path_is_second_word_of_first_line() {
    assert_eq!(request_path("GET /reading HTTP/1.1\r\nHost: x\r\n\r\n"), "/reading");
    assert_eq!(request_path("GET  \t/paused"), "/paused");
    assert_eq!(request_path("GET\n/paused"), "/");
    assert_eq!(request_path("GET"), "/");
    assert_eq!(request_path(""), "/");
    assert_eq!(request_path("\r\nGET /reading"), "/");
}

#[test]
fn pushed_state_reads_bytes() {
    assert_eq!(pushed_state(b"GET /reading HTTP/1.1\r\n\r\n"), OBS_READING);
    assert_eq!(pushed_state(b"GET /paused HTTP/1.1\r\n\r\n"), OBS_PAUSED);
    assert_eq!(pushed_state(b"GET /idle HTTP/1.1\r\n\r\n"), OBS_IDLE);
    assert_eq!(pushed_state(b""), OBS_IDLE);
    // Invalid bytes become replacement characters, which are no white space.
    assert_eq!(pushed_state(b"\xff\xfe /processing\r\n"), OBS_PROCESSING);
    assert_eq!(pushed_state(b"GET /reading\xff HTTP/1.1"), OBS_IDLE);
}

#[test]
fn cut_request_is_understood() {
    let request = "POST /paused HTTP/1.1\r\nX-Note: 読む\r\n\r\n".as_bytes();
    let cut = request.iter().position(|b| *b > 0x7f).unwrap() + 1;
    assert!(std::str::from_utf8(&request[..cut]).is_err());
    assert_eq!(pushed_state(&request[..cut]), OBS_PAUSED);
    for end in "POST /paused ".len()..=request.len() {
        assert_eq!(pushed_state(&request[..end]), OBS_PAUSED);
    }
    assert_eq!(pushed_state(b"GET /reading \xff\xfe\n\x80"), OBS_READING);
}

#[test]
fn state_reply_has_the_length_it_says() {
    let body = STATE_REPLY.split("\r\n\r\n").nth(1).unwrap();
    assert_eq!(body, "ok");
    assert!(STATE_REPLY.contains("Content-Length: 2\r\n"));
}
