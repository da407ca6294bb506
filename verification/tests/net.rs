use otoha::net::{
    is_tailscale_ip, parse_octet, pick_address, pick_interface, server_urls, url_for, url_if,
    LanInterface, LanSearch, ProgramOutput, TailscaleProgram, TailscaleSearch, HEALTH_URL,
    LOCALHOST, SPEAK_URL,
};
use otoha::text::chars_of;

fn printed(success: bool, text: &str) -> Option<ProgramOutput> {
    Some(ProgramOutput { success, stdout: text.as_bytes().to_vec() })
}

#[test]
fn tailscale_addresses_are_those_of_the_block() {
    for b in 0..=255u32 {
        assert_eq!(is_tailscale_ip(&format!("100.{b}.0.1")), (64..=127).contains(&b));
    }
    assert!(is_tailscale_ip("100.64.0.0"));
    assert!(is_tailscale_ip("100.127.255.255"));
    assert!(!is_tailscale_ip("101.64.0.0"));
    assert!(!is_tailscale_ip("10.64.0.0"));
}

#[test]
fn tailscale_addresses_have_four_octets() {
    for ip in
        ["", "100", "100.64.0", "100.64.0.1.2", "100.64.0.", ".100.64.0.1", "100.64.0.256", "100.64.0.x", " 100.64.0.1", "100.64..1", "100.64.0.-1"]
    {
        assert!(!is_tailscale_ip(ip), "{ip}");
    }
    assert!(is_tailscale_ip("+100.064.0.000001"));
}

#[test]
fn octets_agree_with_std() {
    for s in [
        "", "+", "-", "0", "00", "7", "255", "256", "0255", "00000255", "00000256", "+255", "++1",
        "-1", "-0", " 1", "1 ", "1a", "a1", "999999999999999999999", "٣", "2 5",
    ] {
        assert_eq!(parse_octet(&chars_of(s)), s.parse::<u8>().ok(), "{s}");
    }
    for n in 0..1000u32 {
        assert_eq!(parse_octet(&chars_of(&n.to_string())), n.to_string().parse::<u8>().ok());
    }
}

#[test]
fn urls_hold_address_and_port() {
    assert_eq!(url_for("127.0.0.1"), "http://127.0.0.1:8765");
    assert_eq!(url_for(""), "http://:8765");
    assert_eq!(SPEAK_URL, url_for(LOCALHOST) + "/speak");
    assert_eq!(HEALTH_URL, url_for(LOCALHOST) + "/health");
    assert_eq!(url_if(None), None);
    let urls = server_urls(Some("192.168.1.5".to_string()), None);
    assert_eq!(urls.localhost, "http://127.0.0.1:8765");
    assert_eq!(urls.lan, Some("http://192.168.1.5:8765".to_string()));
    assert_eq!(urls.tailscale, None);
    let urls = server_urls(None, Some("100.64.0.1".to_string()));
    assert_eq!(urls.lan, None);
    assert_eq!(urls.tailscale, Some("http://100.64.0.1:8765".to_string()));
}

#[test]
fn lan_search_takes_the_first_answer() {
    let s = LanSearch::<String>::start();
    assert!(matches!(s, LanSearch::Ask(LanInterface::En0)));
    match s.next(printed(false, " 192.168.1.5\n")) {
        LanSearch::Found(ip) => assert_eq!(ip, "192.168.1.5"),
        _ => panic!("not found"),
    }
}

#[test]
fn lan_search_goes_on_to_the_second_interface_and_ends() {
    let s = LanSearch::<String>::start().next(printed(true, " \n"));
    match &s {
        LanSearch::Ask(i) => assert_eq!(i.name(), "en1"),
        _ => panic!("not asking"),
    }
    let s = s.next(None);
    assert!(matches!(s, LanSearch::NotFound));
    assert!(matches!(s.next(printed(true, "1.2.3.4")), LanSearch::NotFound));
}

#[test]
fn lan_search_repairs_invalid_bytes() {
    let out = ProgramOutput { success: true, stdout: vec![0xff, b'\n'] };
    match LanSearch::<String>::start().next(Some(out)) {
        LanSearch::Found(ip) => assert_eq!(ip, "\u{fffd}"),
        _ => panic!("not found"),
    }
}

#[test]
fn tailscale_search_asks_every_program_and_then_the_interfaces() {
    let mut s = TailscaleSearch::<String>::start();
    let mut asked: Vec<&'static str> = Vec::new();
    while let TailscaleSearch::AskProgram(p) = &s {
        asked.push(p.path());
        s = s.next(None);
    }
    assert_eq!(
        asked,
        [
            "/Applications/Tailscale.app/Contents/MacOS/Tailscale",
            "/usr/local/bin/tailscale",
            "/opt/homebrew/bin/tailscale",
            "tailscale"
        ]
    );
    assert!(matches!(s, TailscaleSearch::AskInterfaces));
    match s.next(printed(false, "lo0:\n\tinet 127.0.0.1 netmask\nutun3:\n\tinet 100.101.1.2 --> x\n"))
    {
        TailscaleSearch::Found(ip) => assert_eq!(ip, "100.101.1.2"),
        _ => panic!("not found"),
    }
}

#[test]
fn tailscale_program_has_to_succeed() {
    let s = TailscaleSearch::<String>::start().next(printed(false, "100.64.0.1\n"));
    assert!(matches!(s, TailscaleSearch::AskProgram(TailscaleProgram::UsrLocal)));
    match s.next(printed(true, "warning\n 100.64.0.1\r\n100.64.0.2\n")) {
        TailscaleSearch::Found(ip) => assert_eq!(ip, "100.64.0.1"),
        _ => panic!("not found"),
    }
}

#[test]
fn tailscale_search_may_find_nothing() {
    let s = TailscaleSearch::<String>::AskInterfaces.next(printed(true, "inet 10.0.0.1\n"));
    assert!(matches!(s, TailscaleSearch::NotFound));
    let s = TailscaleSearch::<String>::AskInterfaces.next(None);
    assert!(matches!(s, TailscaleSearch::NotFound));
}

#[test]
fn addresses_are_picked_out_of_lines() {
    assert_eq!(pick_address("x\n\t100.64.0.9 \n"), Some("100.64.0.9".to_string()));
    assert_eq!(pick_address("100.64.0.9 x"), None);
    assert_eq!(pick_interface("inet6 100.64.0.9"), None);
    assert_eq!(pick_interface("inet 10.0.0.1\n  inet   100.64.0.9 x"), Some("100.64.0.9".to_string()));
    assert_eq!(pick_interface("inet "), None);
    assert_eq!(pick_interface("x inet 100.64.0.9"), None);
}
