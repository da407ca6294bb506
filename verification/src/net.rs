//! Addresses: which one this machine is reached at, and the URLs made of it.

use crate::text::{
    all_white, begins_with, blank, chars_of, fields, fields_of, first_at, law_blank_text_is_white,
    law_encoded_text_is_read_back, law_field_alone, law_padding_is_taken_off,
    law_separator_parts_fields, law_trim_takes_off_the_ends, lemma_fields_without_white,
    lemma_first_at_found, lemma_first_word, lemma_trim_start_from, lemma_words_skip_gap, lines,
    lines_of, lossy, lossy_text, text_if, text_of, texts, trim, trim_of, trim_start_of, white,
    words, words_of,
};
use vstd::prelude::*;
use vstd::slice::slice_subrange;
use vstd::utf8::encode_utf8;

verus! {

/// The port that the speech server listens on.
pub const PORT: &'static str = "8765";

/// The address by which a machine reaches itself.
pub const LOCALHOST: &'static str = "127.0.0.1";

/// Where the speech server takes text to speak.
pub const SPEAK_URL: &'static str = "http://127.0.0.1:8765/speak";

/// Where the speech server says that it is up.
pub const HEALTH_URL: &'static str = "http://127.0.0.1:8765/health";

/// Whether `s` holds decimal digits only.
pub open spec fn all_digits(s: Seq<char>) -> bool {
    forall|i: int| 0 <= i < s.len() ==> '0' <= #[trigger] s[i] <= '9'
}

/// The number that the decimal digits `s` stand for.
pub open spec fn decimal(s: Seq<char>) -> int
    decreases s.len(),
{
    if s.len() == 0 {
        0
    } else {
        decimal(s.drop_last()) * 10 + (s.last() as int - '0' as int)
    }
}

/// `s` without the plus sign in front of a number, if there is one.
pub open spec fn without_plus(s: Seq<char>) -> Seq<char> {
    if s.len() > 1 && s[0] == '+' {
        s.drop_first()
    } else {
        s
    }
}

/// The octet that `s` stands for: an optional plus sign and decimal digits, of value 255 at most.
pub open spec fn octet_of(s: Seq<char>) -> Option<u8> {
    let d = without_plus(s);
    if d.len() > 0 && all_digits(d) && decimal(d) <= 255 {
        Some(decimal(d) as u8)
    } else {
        None
    }
}

/// Whether `ip` is four octets between dots, of which the first is 100 and the second is between
/// 64 and 127.
pub open spec fn tailscale_address(ip: Seq<char>) -> bool {
    let f = fields_of(ip, '.');
    &&& f.len() == 4
    &&& octet_of(f[0]) == Some(100u8)
    &&& octet_of(f[1]) matches Some(b) && 64 <= b <= 127
    &&& octet_of(f[2]) is Some
    &&& octet_of(f[3]) is Some
}

/// The URL of the speech server at the address `ip`.
pub open spec fn url_of(ip: Seq<char>) -> Seq<char> {
    "http://"@ + ip + ":"@ + PORT@
}

proof fn lemma_decimal_grows(s: Seq<char>, k: int)
    requires
        all_digits(s),
        0 <= k <= s.len(),
    ensures
        0 <= decimal(s.take(k)) <= decimal(s),
    decreases s.len(),
{
    if k < s.len() {
        assert(all_digits(s.drop_last()));
        assert('0' <= s[s.len() - 1] <= '9');
        lemma_decimal_grows(s.drop_last(), k);
        assert(s.drop_last().take(k) =~= s.take(k));
    } else {
        assert(s.take(k) =~= s);
        if k > 0 {
            assert(all_digits(s.drop_last()));
            assert('0' <= s[s.len() - 1] <= '9');
            lemma_decimal_grows(s.drop_last(), 0);
        }
    }
}

/// The octet that `s` stands for.
pub fn parse_octet(s: &[char]) -> (r: Option<u8>)
    ensures
        r == octet_of(s@),
{
    let d = if s.len() > 1 && s[0] == '+' {
        slice_subrange(s, 1, s.len())
    } else {
        s
    };
    assert(d@ =~= without_plus(s@));
    if d.len() == 0 {
        return None;
    }
    let mut value: u32 = 0;
    assert(d@.take(0) =~= Seq::<char>::empty());
    for i in 0..d.len()
        invariant
            d@ == without_plus(s@),
            all_digits(d@.take(i as int)),
            value == decimal(d@.take(i as int)),
            value <= 255,
    {
        let c = d[i];
        if c < '0' || '9' < c {
            assert(!all_digits(d@));
            return None;
        }
        let digit = c as u32 - '0' as u32;
        value = value * 10 + digit;
        proof {
            assert(d@.take(i + 1).drop_last() =~= d@.take(i as int));
            assert forall|j: int| 0 <= j < i + 1 implies '0' <= #[trigger] d@.take(i + 1)[j] <= '9' by {
                if j < i {
                    assert(d@.take(i as int)[j] == d@.take(i + 1)[j]);
                }
            }
        }
        if value > 255 {
            proof {
                if all_digits(d@) {
                    lemma_decimal_grows(d@, i + 1);
                }
            }
            return None;
        }
    }
    assert(d@.take(d.len() as int) =~= d@);
    Some(value as u8)
}

/// Whether the characters `ip` are an address that Tailscale assigns.
fn is_tailscale(ip: &[char]) -> (r: bool)
    ensures
        r == tailscale_address(ip@),
{
    let f = fields(ip, '.');
    assert(texts(f@).len() == f@.len());
    if f.len() != 4 {
        return false;
    }
    assert(texts(f@)[0] == f@[0]@ && texts(f@)[1] == f@[1]@ && texts(f@)[2] == f@[2]@ && texts(
        f@,
    )[3] == f@[3]@);
    let in_range = match (parse_octet(f[0]), parse_octet(f[1])) {
        (Some(a), Some(b)) => a == 100 && 64 <= b && b <= 127,
        _ => false,
    };
    in_range && parse_octet(f[2]).is_some() && parse_octet(f[3]).is_some()
}

/// Tailscale assigns addresses in 100.64.0.0/10 (CGNAT range).
pub fn is_tailscale_ip(ip: &str) -> (r: bool)
    ensures
        r == tailscale_address(ip@),
{
    let c = chars_of(ip);
    is_tailscale(c.as_slice())
}

/// The URL of the speech server at the address `ip`.
pub fn url_for(ip: &str) -> (r: String)
    ensures
        r@ == url_of(ip@),
{
    let mut url = "http://".to_string();
    url.append(ip);
    url.append(":");
    url.append(PORT);
    url
}

/// What a picker makes of the first line it accepts.
pub open spec fn first_pick(
    ls: Seq<Seq<char>>,
    pick: spec_fn(Seq<char>) -> Option<Seq<char>>,
) -> Option<Seq<char>>
    decreases ls.len(),
{
    if ls.len() == 0 {
        None
    } else if pick(ls[0]) is Some {
        pick(ls[0])
    } else {
        first_pick(ls.drop_first(), pick)
    }
}

/// Accepts a line that is a Tailscale address once it is trimmed.
pub open spec fn address_line() -> spec_fn(Seq<char>) -> Option<Seq<char>> {
    |line: Seq<char>|
        if tailscale_address(trim_of(line)) {
            Some(trim_of(line))
        } else {
            None
        }
}

/// Accepts a line that begins with `inet ` once it is trimmed, and whose next word is a Tailscale
/// address; picks that word.
pub open spec fn inet_line() -> spec_fn(Seq<char>) -> Option<Seq<char>> {
    |line: Seq<char>|
        {
            let w = words_of(trim_of(line).skip(5));
            if "inet "@.is_prefix_of(trim_of(line)) && w.len() > 0 && tailscale_address(w[0]) {
                Some(w[0])
            } else {
                None
            }
        }
}

/// The address that `tailscale ip -4` prints.
pub open spec fn cli_address(stdout: Seq<u8>) -> Option<Seq<char>> {
    first_pick(lines_of(lossy_text(stdout)), address_line())
}

/// The Tailscale address among those that `ifconfig` prints.
pub open spec fn interface_address(stdout: Seq<u8>) -> Option<Seq<char>> {
    first_pick(lines_of(lossy_text(stdout)), inet_line())
}

proof fn lemma_skip_pick(
    ls: Seq<Seq<char>>,
    pick: spec_fn(Seq<char>) -> Option<Seq<char>>,
    i: int,
)
    requires
        0 <= i < ls.len(),
    ensures
        first_pick(ls.skip(i), pick) == (if pick(ls[i]) is Some {
            pick(ls[i])
        } else {
            first_pick(ls.skip(i + 1), pick)
        }),
{
    assert(ls.skip(i)[0] == ls[i]);
    assert(ls.skip(i).drop_first() =~= ls.skip(i + 1));
}

/// The first line of `output` that is a Tailscale address.
pub fn pick_address(output: &str) -> (r: Option<String>)
    ensures
        text_if(r) == first_pick(lines_of(output@), address_line()),
{
    let c = chars_of(output);
    let ls = lines(c.as_slice());
    let ghost all = lines_of(output@);
    assert(all.skip(0) =~= all);
    assert(all.len() == ls@.len());
    for i in 0..ls.len()
        invariant
            all == texts(ls@),
            all == lines_of(output@),
            all.len() == ls@.len(),
            first_pick(all.skip(i as int), address_line()) == first_pick(all, address_line()),
    {
        assert(all[i as int] == ls@[i as int]@);
        proof {
            lemma_skip_pick(all, address_line(), i as int);
        }
        let t = trim(ls[i]);
        if is_tailscale(t) {
            return Some(text_of(t));
        }
    }
    None
}

/// The first Tailscale address after `inet ` at the beginning of a line of `output`.
pub fn pick_interface(output: &str) -> (r: Option<String>)
    ensures
        text_if(r) == first_pick(lines_of(output@), inet_line()),
{
    let c = chars_of(output);
    let inet = chars_of("inet ");
    let ls = lines(c.as_slice());
    let ghost all = lines_of(output@);
    assert(all.skip(0) =~= all);
    assert(all.len() == ls@.len());
    proof {
        reveal_strlit("inet ");
    }
    for i in 0..ls.len()
        invariant
            all == texts(ls@),
            all == lines_of(output@),
            all.len() == ls@.len(),
            inet@ == "inet "@,
            inet@.len() == 5,
            first_pick(all.skip(i as int), inet_line()) == first_pick(all, inet_line()),
    {
        assert(all[i as int] == ls@[i as int]@);
        proof {
            lemma_skip_pick(all, inet_line(), i as int);
        }
        let t = trim(ls[i]);
        if begins_with(t, inet.as_slice()) {
            let rest = slice_subrange(t, 5, t.len());
            assert(rest@ =~= t@.skip(5));
            let ws = words(rest);
            assert(texts(ws@).len() == ws@.len());
            if ws.len() > 0 {
                assert(texts(ws@)[0] == ws@[0]@);
                if is_tailscale(ws[0]) {
                    return Some(text_of(ws[0]));
                }
            }
        }
    }
    None
}

/// The network interfaces that are asked for a local address.
#[derive(Clone, Copy, Debug, PartialEq, Eq, Structural)]
pub enum LanInterface {
    En0,
    En1,
}

/// The places where the Tailscale program is looked for.
#[derive(Clone, Copy, Debug, PartialEq, Eq, Structural)]
pub enum TailscaleProgram {
    /// The standalone application.
    Application,
    /// A program under `/usr/local`.
    UsrLocal,
    /// A program that Homebrew installed.
    Homebrew,
    /// Whatever the search path holds.
    SearchPath,
}

impl LanInterface {
    /// The system's name for the interface.
    pub open spec fn name_of(self) -> Seq<char> {
        match self {
            LanInterface::En0 => "en0"@,
            LanInterface::En1 => "en1"@,
        }
    }

    /// The system's name for the interface.
    pub fn name(self) -> (r: &'static str)
        ensures
            r@ == self.name_of(),
    {
        match self {
            LanInterface::En0 => "en0",
            LanInterface::En1 => "en1",
        }
    }
}

impl TailscaleProgram {
    /// The path by which the program is run.
    pub open spec fn path_of(self) -> Seq<char> {
        match self {
            TailscaleProgram::Application =>
                "/Applications/Tailscale.app/Contents/MacOS/Tailscale"@,
            TailscaleProgram::UsrLocal => "/usr/local/bin/tailscale"@,
            TailscaleProgram::Homebrew => "/opt/homebrew/bin/tailscale"@,
            TailscaleProgram::SearchPath => "tailscale"@,
        }
    }

    /// The path by which the program is run.
    pub fn path(self) -> (r: &'static str)
        ensures
            r@ == self.path_of(),
    {
        match self {
            TailscaleProgram::Application => "/Applications/Tailscale.app/Contents/MacOS/Tailscale",
            TailscaleProgram::UsrLocal => "/usr/local/bin/tailscale",
            TailscaleProgram::Homebrew => "/opt/homebrew/bin/tailscale",
            TailscaleProgram::SearchPath => "tailscale",
        }
    }
}

/// What a program that could be run has left behind.
pub struct ProgramOutput {
    /// Whether it ended with success.
    pub success: bool,
    /// What it printed.
    pub stdout: Vec<u8>,
}

impl View for ProgramOutput {
    type V = (bool, Seq<u8>);

    open spec fn view(&self) -> (bool, Seq<u8>) {
        (self.success, self.stdout@)
    }
}

/// What an optional program output holds.
pub open spec fn output_if(o: Option<ProgramOutput>) -> Option<(bool, Seq<u8>)> {
    match o {
        Some(p) => Some(p@),
        None => None,
    }
}

/// The search for the address in the local network, with texts of type `T`.
pub enum LanSearch<T> {
    /// The address of this interface is to be asked for.
    Ask(LanInterface),
    /// The address.
    Found(T),
    /// No interface has one.
    NotFound,
}

impl View for LanSearch<String> {
    type V = LanSearch<Seq<char>>;

    open spec fn view(&self) -> LanSearch<Seq<char>> {
        match self {
            LanSearch::Ask(i) => LanSearch::Ask(*i),
            LanSearch::Found(t) => LanSearch::Found(t@),
            LanSearch::NotFound => LanSearch::NotFound,
        }
    }
}

impl LanSearch<Seq<char>> {
    /// The search once the interface has given `reply`, the output of a program that could be run.
    /// An output that is not blank is the address.
    pub open spec fn after(self, reply: Option<(bool, Seq<u8>)>) -> Self {
        match (self, reply) {
            (LanSearch::Ask(_), Some((_, out))) if trim_of(lossy_text(out)).len()
                > 0 => LanSearch::Found(trim_of(lossy_text(out))),
            (LanSearch::Ask(LanInterface::En0), _) => LanSearch::Ask(LanInterface::En1),
            (LanSearch::Ask(LanInterface::En1), _) => LanSearch::NotFound,
            _ => self,
        }
    }

    /// The search after all of `replies`.
    pub open spec fn after_all(replies: Seq<Option<(bool, Seq<u8>)>>) -> Self
        decreases replies.len(),
    {
        if replies.len() == 0 {
            LanSearch::Ask(LanInterface::En0)
        } else {
            Self::after_all(replies.drop_last()).after(replies.last())
        }
    }
}

impl LanSearch<String> {
    /// The search before any interface has been asked.
    pub fn start() -> (r: Self)
        ensures
            r@ == LanSearch::<Seq<char>>::after_all(seq![]),
    {
        LanSearch::Ask(LanInterface::En0)
    }

    /// The search once the interface has given `reply`.
    pub fn next(self, reply: Option<ProgramOutput>) -> (r: Self)
        ensures
            r@ == self@.after(output_if(reply)),
    {
        match self {
            LanSearch::Ask(interface) => {
                if let Some(output) = reply {
                    let text = lossy(output.stdout.as_slice());
                    let c = chars_of(text.as_str());
                    let t = trim(c.as_slice());
                    if t.len() > 0 {
                        return LanSearch::Found(text_of(t));
                    }
                }
                match interface {
                    LanInterface::En0 => LanSearch::Ask(LanInterface::En1),
                    LanInterface::En1 => LanSearch::NotFound,
                }
            },
            done => done,
        }
    }
}

/// The search for the Tailscale address, with texts of type `T`.
pub enum TailscaleSearch<T> {
    /// This program is to be asked for the address.
    AskProgram(TailscaleProgram),
    /// The list of all interfaces is to be asked for.
    AskInterfaces,
    /// The address.
    Found(T),
    /// There is none.
    NotFound,
}

impl View for TailscaleSearch<String> {
    type V = TailscaleSearch<Seq<char>>;

    open spec fn view(&self) -> TailscaleSearch<Seq<char>> {
        match self {
            TailscaleSearch::AskProgram(p) => TailscaleSearch::AskProgram(*p),
            TailscaleSearch::AskInterfaces => TailscaleSearch::AskInterfaces,
            TailscaleSearch::Found(t) => TailscaleSearch::Found(t@),
            TailscaleSearch::NotFound => TailscaleSearch::NotFound,
        }
    }
}

impl TailscaleSearch<Seq<char>> {
    /// The search once it has been given `reply`, the output of a program that could be run. The
    /// Tailscale program has to end with success; the list of interfaces is taken as it is.
    pub open spec fn after(self, reply: Option<(bool, Seq<u8>)>) -> Self {
        match (self, reply) {
            (TailscaleSearch::AskProgram(_), Some((true, out))) if cli_address(
                out,
            ) is Some => TailscaleSearch::Found(cli_address(out)->0),
            (TailscaleSearch::AskProgram(TailscaleProgram::Application), _) =>
                TailscaleSearch::AskProgram(TailscaleProgram::UsrLocal),
            (TailscaleSearch::AskProgram(TailscaleProgram::UsrLocal), _) =>
                TailscaleSearch::AskProgram(TailscaleProgram::Homebrew),
            (TailscaleSearch::AskProgram(TailscaleProgram::Homebrew), _) =>
                TailscaleSearch::AskProgram(TailscaleProgram::SearchPath),
            (TailscaleSearch::AskProgram(TailscaleProgram::SearchPath), _) =>
                TailscaleSearch::AskInterfaces,
            (TailscaleSearch::AskInterfaces, Some((_, out))) if interface_address(
                out,
            ) is Some => TailscaleSearch::Found(interface_address(out)->0),
            (TailscaleSearch::AskInterfaces, _) => TailscaleSearch::NotFound,
            _ => self,
        }
    }

    /// The search after all of `replies`.
    pub open spec fn after_all(replies: Seq<Option<(bool, Seq<u8>)>>) -> Self
        decreases replies.len(),
    {
        if replies.len() == 0 {
            TailscaleSearch::AskProgram(TailscaleProgram::Application)
        } else {
            Self::after_all(replies.drop_last()).after(replies.last())
        }
    }
}

impl TailscaleSearch<String> {
    /// The search before any program has been asked.
    pub fn start() -> (r: Self)
        ensures
            r@ == TailscaleSearch::<Seq<char>>::after_all(seq![]),
    {
        TailscaleSearch::AskProgram(TailscaleProgram::Application)
    }

    /// The search once it has been given `reply`.
    pub fn next(self, reply: Option<ProgramOutput>) -> (r: Self)
        ensures
            r@ == self@.after(output_if(reply)),
    {
        match self {
            TailscaleSearch::AskProgram(program) => {
                if let Some(output) = reply {
                    if output.success {
                        let text = lossy(output.stdout.as_slice());
                        if let Some(ip) = pick_address(text.as_str()) {
                            return TailscaleSearch::Found(ip);
                        }
                    }
                }
                match program {
                    TailscaleProgram::Application => TailscaleSearch::AskProgram(
                        TailscaleProgram::UsrLocal,
                    ),
                    TailscaleProgram::UsrLocal => TailscaleSearch::AskProgram(
                        TailscaleProgram::Homebrew,
                    ),
                    TailscaleProgram::Homebrew => TailscaleSearch::AskProgram(
                        TailscaleProgram::SearchPath,
                    ),
                    TailscaleProgram::SearchPath => TailscaleSearch::AskInterfaces,
                }
            },
            TailscaleSearch::AskInterfaces => {
                if let Some(output) = reply {
                    let text = lossy(output.stdout.as_slice());
                    if let Some(ip) = pick_interface(text.as_str()) {
                        return TailscaleSearch::Found(ip);
                    }
                }
                TailscaleSearch::NotFound
            },
            done => done,
        }
    }
}

/// The URLs at which the speech server can be reached.
pub struct ServerUrls {
    pub localhost: String,
    pub lan: Option<String>,
    pub tailscale: Option<String>,
}

/// The URL of the speech server at an address that may not be known.
pub open spec fn url_when(ip: Option<Seq<char>>) -> Option<Seq<char>> {
    match ip {
        Some(t) => Some(url_of(t)),
        None => None,
    }
}

/// The URL of the speech server at an address that may not be known.
pub fn url_if(ip: Option<String>) -> (r: Option<String>)
    ensures
        text_if(r) == (match text_if(ip) {
            Some(t) => Some(url_of(t)),
            None => None,
        }),
        text_if(r) == url_when(text_if(ip)),
{
    match ip {
        Some(t) => Some(url_for(t.as_str())),
        None => None,
    }
}

/// The URLs of the speech server, given the addresses that were found.
pub fn server_urls(lan: Option<String>, tailscale: Option<String>) -> (r: ServerUrls)
    ensures
        r.localhost@ == url_of(LOCALHOST@),
        text_if(r.lan) == (match text_if(lan) {
            Some(t) => Some(url_of(t)),
            None => None,
        }),
        text_if(r.tailscale) == (match text_if(tailscale) {
            Some(t) => Some(url_of(t)),
            None => None,
        }),
        text_if(r.lan) == url_when(text_if(lan)),
        text_if(r.tailscale) == url_when(text_if(tailscale)),
{
    ServerUrls { localhost: url_for(LOCALHOST), lan: url_if(lan), tailscale: url_if(tailscale) }
}

proof fn lemma_pick_is_address(ls: Seq<Seq<char>>)
    ensures
        first_pick(ls, address_line()) matches Some(ip) ==> tailscale_address(ip),
        first_pick(ls, inet_line()) matches Some(ip) ==> tailscale_address(ip),
    decreases ls.len(),
{
    if ls.len() > 0 {
        lemma_pick_is_address(ls.drop_first());
    }
}

/// Whatever is printed, only an address that Tailscale assigns is ever found.
pub proof fn law_found_address_is_tailscale(replies: Seq<Option<(bool, Seq<u8>)>>)
    ensures
        TailscaleSearch::<Seq<char>>::after_all(replies) matches TailscaleSearch::Found(ip)
            ==> tailscale_address(ip),
    decreases replies.len(),
{
    if replies.len() > 0 {
        law_found_address_is_tailscale(replies.drop_last());
        if let Some((_, out)) = replies.last() {
            lemma_pick_is_address(lines_of(lossy_text(out)));
        }
    }
}

/// The programs are asked in order and the interfaces last; the search is over after five replies.
pub proof fn law_tailscale_search_ends(replies: Seq<Option<(bool, Seq<u8>)>>)
    ensures
        ({
            let s = TailscaleSearch::<Seq<char>>::after_all(replies);
            &&& s == TailscaleSearch::<Seq<char>>::AskProgram(TailscaleProgram::Application)
                ==> replies.len() == 0
            &&& s == TailscaleSearch::<Seq<char>>::AskProgram(TailscaleProgram::UsrLocal)
                ==> replies.len() == 1
            &&& s == TailscaleSearch::<Seq<char>>::AskProgram(TailscaleProgram::Homebrew)
                ==> replies.len() == 2
            &&& s == TailscaleSearch::<Seq<char>>::AskProgram(TailscaleProgram::SearchPath)
                ==> replies.len() == 3
            &&& s is AskInterfaces ==> replies.len() == 4
            &&& s is NotFound ==> replies.len() >= 5
            &&& replies.len() >= 5 ==> s is Found || s is NotFound
        }),
    decreases replies.len(),
{
    if replies.len() > 0 {
        law_tailscale_search_ends(replies.drop_last());
    }
}

/// The search for a local address is over after two replies, and what it finds is not blank.
pub proof fn law_lan_search_ends(replies: Seq<Option<(bool, Seq<u8>)>>)
    ensures
        ({
            let s = LanSearch::<Seq<char>>::after_all(replies);
            &&& s == LanSearch::<Seq<char>>::Ask(LanInterface::En0) ==> replies.len() == 0
            &&& s == LanSearch::<Seq<char>>::Ask(LanInterface::En1) ==> replies.len() == 1
            &&& s is NotFound ==> replies.len() >= 2
            &&& replies.len() >= 2 ==> s is Found || s is NotFound
            &&& s matches LanSearch::Found(ip) ==> ip.len() > 0
        }),
    decreases replies.len(),
{
    if replies.len() > 0 {
        law_lan_search_ends(replies.drop_last());
    }
}

/// The number of an IPv4 address with the octets `a`, `b`, `c` and `d`.
pub open spec fn address_number(a: u8, b: u8, c: u8, d: u8) -> u32 {
    ((a as u32) << 24) | ((b as u32) << 16) | ((c as u32) << 8) | (d as u32)
}

/// A text of four octets is a Tailscale address exactly if its number lies in 100.64.0.0/10: the
/// first ten bits are those of 100.64.0.0.
pub proof fn law_tailscale_block(ip: Seq<char>, a: u8, b: u8, c: u8, d: u8)
    requires
        fields_of(ip, '.').len() == 4,
        octet_of(fields_of(ip, '.')[0]) == Some(a),
        octet_of(fields_of(ip, '.')[1]) == Some(b),
        octet_of(fields_of(ip, '.')[2]) == Some(c),
        octet_of(fields_of(ip, '.')[3]) == Some(d),
    ensures
        tailscale_address(ip) <==> address_number(a, b, c, d) & 0xffc0_0000u32 == 0x6440_0000u32,
{
    assert((((a as u32) << 24) | ((b as u32) << 16) | ((c as u32) << 8) | (d as u32))
        & 0xffc0_0000u32 == 0x6440_0000u32 <==> a == 100 && 64 <= b <= 127) by (bit_vector);
}

/// The server's own URLs are those of this machine at the port on which it listens.
pub proof fn law_urls_agree()
    ensures
        SPEAK_URL@ == url_of(LOCALHOST@) + "/speak"@,
        HEALTH_URL@ == url_of(LOCALHOST@) + "/health"@,
{
    reveal_strlit("http://127.0.0.1:8765/speak");
    reveal_strlit("http://127.0.0.1:8765/health");
    reveal_strlit("http://");
    reveal_strlit("127.0.0.1");
    reveal_strlit(":");
    reveal_strlit("8765");
    reveal_strlit("/speak");
    reveal_strlit("/health");
    assert(SPEAK_URL@ =~= url_of(LOCALHOST@) + "/speak"@);
    assert(HEALTH_URL@ =~= url_of(LOCALHOST@) + "/health"@);
}

/// Whether `c` is a decimal digit.
pub open spec fn is_digit(c: char) -> bool {
    '0' <= c <= '9'
}

/// Octets are numbers in decimal: a digit is worth itself, and a further digit makes ten times as
/// much of what stands before it, and adds itself, as long as that is no more than 255. A plus sign
/// in front has no say.
pub proof fn law_octets_are_decimal(s: Seq<char>, c: char)
    requires
        is_digit(c),
        forall|i: int| 0 <= i < s.len() ==> is_digit(#[trigger] s[i]),
    ensures
        octet_of(seq![c]) == Some((c as u32 - 48) as u8),
        s.len() > 0 ==> octet_of(s.push(c)) == (match octet_of(s) {
            Some(n) if n * 10 + (c as u32 - 48) <= 255 => Some((n * 10 + (c as u32 - 48)) as u8),
            _ => None,
        }),
        s.len() > 0 ==> octet_of(seq!['+'] + s) == octet_of(s),
{
    let one = seq![c];
    assert(one.drop_last() =~= Seq::<char>::empty());
    reveal_with_fuel(decimal, 2);
    assert(all_digits(one));
    assert forall|i: int| 0 <= i < s.len() implies '0' <= #[trigger] s[i] <= '9' by {
        assert(is_digit(s[i]));
    }
    lemma_decimal_grows(s, 0);
    assert(s.push(c).drop_last() =~= s);
    assert(all_digits(s.push(c))) by {
        assert forall|i: int| 0 <= i < s.push(c).len() implies '0' <= #[trigger] s.push(c)[i]
            <= '9' by {
            if i < s.len() {
                assert(is_digit(s[i]));
            }
        }
    }
    if s.len() > 0 {
        assert(is_digit(s[0]));
        assert(s.push(c)[0] == s[0]);
        assert((seq!['+'] + s).drop_first() =~= s);
    }
}

/// Nothing but digits is an octet, after a plus sign at most; an empty text is none.
pub proof fn law_octet_is_a_number(s: Seq<char>)
    requires
        octet_of(s) is Some,
    ensures
        s.len() > 0,
        forall|i: int| 0 < i < s.len() ==> is_digit(#[trigger] s[i]),
        is_digit(s[0]) || (s[0] == '+' && s.len() > 1),
{
    let d = without_plus(s);
    assert forall|i: int| 0 < i < s.len() implies is_digit(#[trigger] s[i]) by {
        if d.len() < s.len() {
            assert(d[i - 1] == s[i]);
        } else {
            assert(d[i] == s[i]);
        }
    }
    assert('0' <= d[0] <= '9');
}

/// A text is a Tailscale address exactly if it is four octets between dots, of which the first is
/// 100, the second is between 64 and 127, and the others may be any.
pub proof fn law_address_is_four_octets(a: Seq<char>, b: Seq<char>, c: Seq<char>, d: Seq<char>)
    requires
        !a.contains('.'),
        !b.contains('.'),
        !c.contains('.'),
        !d.contains('.'),
    ensures
        tailscale_address(a + seq!['.'] + (b + seq!['.'] + (c + seq!['.'] + d))) <==> octet_of(a)
            == Some(100u8) && (octet_of(b) matches Some(n) && 64 <= n <= 127) && octet_of(c) is Some
            && octet_of(d) is Some,
        !tailscale_address(a),
        !tailscale_address(a + seq!['.'] + b),
        !tailscale_address(a + seq!['.'] + (b + seq!['.'] + c)),
        forall|more: Seq<char>|
            !(#[trigger] tailscale_address(
                a + seq!['.'] + (b + seq!['.'] + (c + seq!['.'] + (d + seq!['.'] + more))),
            )),
{
    law_field_alone(a, '.');
    law_field_alone(b, '.');
    law_field_alone(c, '.');
    law_field_alone(d, '.');
    law_separator_parts_fields(a, '.', b);
    law_separator_parts_fields(b, '.', c);
    law_separator_parts_fields(c, '.', d);
    law_separator_parts_fields(a, '.', b + seq!['.'] + c);
    law_separator_parts_fields(b, '.', c + seq!['.'] + d);
    law_separator_parts_fields(a, '.', b + seq!['.'] + (c + seq!['.'] + d));
    assert forall|more: Seq<char>|
        !(#[trigger] tailscale_address(
            a + seq!['.'] + (b + seq!['.'] + (c + seq!['.'] + (d + seq!['.'] + more))),
        )) by {
        law_separator_parts_fields(d, '.', more);
        law_separator_parts_fields(c, '.', d + seq!['.'] + more);
        law_separator_parts_fields(b, '.', c + seq!['.'] + (d + seq!['.'] + more));
        law_separator_parts_fields(a, '.', b + seq!['.'] + (c + seq!['.'] + (d + seq!['.'] + more)));
        assert(fields_of(more, '.').len() > 0);
    }
}

proof fn lemma_address_has_no_white(ip: Seq<char>)
    requires
        tailscale_address(ip),
    ensures
        ip.len() > 0,
        forall|i: int| 0 <= i < ip.len() ==> !white(#[trigger] ip[i]),
{
    let f = fields_of(ip, '.');
    assert forall|j: int, i: int| 0 <= j < f.len() && 0 <= i < f[j].len() implies !white(
        #[trigger] f[j][i],
    ) by {
        law_octet_is_a_number(f[j]);
        if i > 0 {
            assert(is_digit(f[j][i]));
        }
    }
    lemma_fields_without_white(ip, '.');
    law_octet_is_a_number(f[0]);
    if ip.len() == 0 {
        law_field_alone(ip, '.');
    }
}

/// Whether `line`, once trimmed, is `inet `, any further white space `gap`, the text `ip`, and then
/// `more`, which is nothing or begins with white space.
pub open spec fn inet_shape(
    line: Seq<char>,
    gap: Seq<char>,
    ip: Seq<char>,
    more: Seq<char>,
) -> bool {
    &&& trim_of(line) == "inet "@ + gap + ip + more
    &&& all_white(gap)
    &&& more.len() > 0 ==> white(more[0])
}

/// Whether `line` tells the Tailscale address `ip` of an interface.
pub open spec fn tells_address(line: Seq<char>, ip: Seq<char>) -> bool {
    tailscale_address(ip) && exists|gap: Seq<char>, more: Seq<char>| #[trigger]
        inet_shape(line, gap, ip, more)
}

proof fn lemma_inet_line(line: Seq<char>, gap: Seq<char>, ip: Seq<char>, more: Seq<char>)
    requires
        tailscale_address(ip),
        inet_shape(line, gap, ip, more),
    ensures
        inet_line()(line) == Some(ip),
{
    reveal_strlit("inet ");
    let t = trim_of(line);
    lemma_address_has_no_white(ip);
    assert("inet "@ =~= t.subrange(0, 5));
    assert(t.skip(5) =~= gap + (ip + more));
    lemma_words_skip_gap(gap, ip + more);
    lemma_first_word(ip, more);
    assert(words_of(t.skip(5))[0] == ip);
}

proof fn lemma_first_word_stands(rest: Seq<char>) -> (r: (Seq<char>, Seq<char>))
    requires
        words_of(rest).len() > 0,
    ensures
        all_white(r.0),
        rest == r.0 + words_of(rest)[0] + r.1,
        r.1.len() > 0 ==> white(r.1[0]),
{
    let ink = |c: char| !white(c);
    lemma_first_at_found(rest, ink);
    let g = first_at(rest, ink);
    assert forall|i: int| 0 <= i < g implies white(#[trigger] rest[i]) by {
        assert(!ink(rest[i]));
    }
    lemma_trim_start_from(rest, g);
    let u = rest.skip(g);
    assert(trim_start_of(rest) == u);
    lemma_first_at_found(u, blank());
    let k = first_at(u, blank());
    let (gap, more) = (rest.take(g), u.skip(k));
    let word = words_of(rest)[0];
    assert(word == u.take(k));
    assert(all_white(gap)) by {
        assert forall|i: int| 0 <= i < gap.len() implies white(#[trigger] gap[i]) by {
            assert(gap[i] == rest[i]);
        }
    }
    if more.len() > 0 {
        assert(blank()(u[k]));
    }
    assert(rest =~= gap + word + more);
    (gap, more)
}

proof fn lemma_inet_line_tells(line: Seq<char>)
    ensures
        inet_line()(line) matches Some(ip) ==> tells_address(line, ip),
{
    if let Some(ip) = inet_line()(line) {
        reveal_strlit("inet ");
        let t = trim_of(line);
        let rest = t.skip(5);
        let (gap, more) = lemma_first_word_stands(rest);
        assert("inet "@ =~= t.take(5));
        assert(t =~= t.take(5) + rest);
        assert(t =~= "inet "@ + gap + ip + more);
        assert(inet_shape(line, gap, ip, more));
    }
}

proof fn lemma_first_pick(
    ls: Seq<Seq<char>>,
    pick: spec_fn(Seq<char>) -> Option<Seq<char>>,
    k: int,
)
    requires
        0 <= k <= ls.len(),
        forall|i: int| 0 <= i < k ==> pick(#[trigger] ls[i]) is None,
        k < ls.len() ==> pick(ls[k]) is Some,
    ensures
        first_pick(ls, pick) == (if k < ls.len() {
            pick(ls[k])
        } else {
            None
        }),
    decreases ls.len(),
{
    if k > 0 {
        assert(pick(ls[0]) is None);
        let more = ls.drop_first();
        assert forall|i: int| 0 <= i < k - 1 implies pick(#[trigger] more[i]) is None by {
            assert(more[i] == ls[i + 1]);
        }
        lemma_first_pick(more, pick, k - 1);
    }
}

/// The address of the first line that tells one is found, whatever else is printed, before it, after
/// it or behind the address on its line.
pub proof fn law_interface_address_is_found(
    output: Seq<char>,
    k: int,
    gap: Seq<char>,
    ip: Seq<char>,
    more: Seq<char>,
)
    requires
        0 <= k < lines_of(output).len(),
        forall|i: int, other: Seq<char>|
            0 <= i < k ==> !(#[trigger] tells_address(lines_of(output)[i], other)),
        tailscale_address(ip),
        inet_shape(lines_of(output)[k], gap, ip, more),
    ensures
        first_pick(lines_of(output), inet_line()) == Some(ip),
        interface_address(encode_utf8(output)) == Some(ip),
{
    let ls = lines_of(output);
    lemma_inet_line(ls[k], gap, ip, more);
    assert forall|i: int| 0 <= i < k implies inet_line()(#[trigger] ls[i]) is None by {
        lemma_inet_line_tells(ls[i]);
    }
    lemma_first_pick(ls, inet_line(), k);
    law_encoded_text_is_read_back(output);
}

/// An address is found only where a line tells it, and none exactly where no line tells any.
pub proof fn law_found_interface_is_told(output: Seq<char>)
    ensures
        match first_pick(lines_of(output), inet_line()) {
            Some(ip) => exists|i: int|
                0 <= i < lines_of(output).len() && #[trigger] tells_address(
                    lines_of(output)[i],
                    ip,
                ),
            None => forall|i: int, ip: Seq<char>|
                0 <= i < lines_of(output).len() ==> !(#[trigger] tells_address(
                    lines_of(output)[i],
                    ip,
                )),
        },
{
    let ls = lines_of(output);
    lemma_pick_comes_from(ls, inet_line());
    match first_pick(ls, inet_line()) {
        Some(ip) => {
            let i = choose|i: int| 0 <= i < ls.len() && inet_line()(ls[i]) == Some(ip);
            lemma_inet_line_tells(ls[i]);
        },
        None => {
            assert forall|i: int, ip: Seq<char>| 0 <= i < ls.len() implies !(
            #[trigger] tells_address(ls[i], ip)) by {
                if tells_address(ls[i], ip) {
                    let (gap, more) = choose|gap: Seq<char>, more: Seq<char>|
                        inet_shape(ls[i], gap, ip, more);
                    lemma_inet_line(ls[i], gap, ip, more);
                    assert(inet_line()(ls[i]) is None);
                }
            }
        },
    }
}

proof fn lemma_pick_comes_from(
    ls: Seq<Seq<char>>,
    pick: spec_fn(Seq<char>) -> Option<Seq<char>>,
)
    ensures
        match first_pick(ls, pick) {
            Some(ip) => exists|i: int| 0 <= i < ls.len() && pick(#[trigger] ls[i]) == Some(ip),
            None => forall|i: int| 0 <= i < ls.len() ==> pick(#[trigger] ls[i]) is None,
        },
    decreases ls.len(),
{
    if ls.len() > 0 && pick(ls[0]) is None {
        let more = ls.drop_first();
        lemma_pick_comes_from(more, pick);
        if let Some(ip) = first_pick(ls, pick) {
            let i = choose|i: int| 0 <= i < more.len() && pick(#[trigger] more[i]) == Some(ip);
            assert(ls[i + 1] == more[i]);
        } else {
            assert forall|i: int| 0 <= i < ls.len() implies pick(#[trigger] ls[i]) is None by {
                if i > 0 {
                    assert(more[i - 1] == ls[i]);
                }
            }
        }
    } else if ls.len() > 0 {
        assert(pick(ls[0]) == first_pick(ls, pick));
    }
}

/// Whether `line` is the Tailscale address `ip` with nothing but white space round it.
pub open spec fn is_address_line(line: Seq<char>, ip: Seq<char>) -> bool {
    tailscale_address(ip) && exists|a: Seq<char>, b: Seq<char>|
        all_white(a) && all_white(b) && line == #[trigger] (a + ip + b)
}

proof fn lemma_address_line(line: Seq<char>, ip: Seq<char>)
    ensures
        address_line()(line) == Some(ip) <==> is_address_line(line, ip),
{
    if address_line()(line) == Some(ip) {
        let r = law_trim_takes_off_the_ends(line);
        let (a, b) = (line.take(r.0), line.skip(r.1));
        assert(line =~= a + ip + b);
        assert(all_white(a)) by {
            assert forall|i: int| 0 <= i < a.len() implies white(#[trigger] a[i]) by {
                assert(a[i] == line[i]);
            }
        }
        assert(all_white(b)) by {
            assert forall|i: int| 0 <= i < b.len() implies white(#[trigger] b[i]) by {
                assert(b[i] == line[i + r.1]);
            }
        }
    }
    if is_address_line(line, ip) {
        let (a, b) = choose|a: Seq<char>, b: Seq<char>|
            all_white(a) && all_white(b) && line == #[trigger] (a + ip + b);
        lemma_address_has_no_white(ip);
        assert(!white(ip[0]) && !white(ip[ip.len() - 1]));
        law_padding_is_taken_off(a, ip, b);
    }
}

/// The first line that is a Tailscale address is found, whatever else is printed before or after it.
pub proof fn law_program_address_is_found(output: Seq<char>, k: int, ip: Seq<char>)
    requires
        0 <= k < lines_of(output).len(),
        forall|i: int, other: Seq<char>|
            0 <= i < k ==> !(#[trigger] is_address_line(lines_of(output)[i], other)),
        is_address_line(lines_of(output)[k], ip),
    ensures
        first_pick(lines_of(output), address_line()) == Some(ip),
        cli_address(encode_utf8(output)) == Some(ip),
{
    let ls = lines_of(output);
    lemma_address_line(ls[k], ip);
    assert forall|i: int| 0 <= i < k implies address_line()(#[trigger] ls[i]) is None by {
        if let Some(other) = address_line()(ls[i]) {
            lemma_address_line(ls[i], other);
        }
    }
    lemma_first_pick(ls, address_line(), k);
    law_encoded_text_is_read_back(output);
}

/// An address is found only where a line is that address, and none exactly where no line is one.
pub proof fn law_found_program_address_is_a_line(output: Seq<char>)
    ensures
        match first_pick(lines_of(output), address_line()) {
            Some(ip) => exists|i: int|
                0 <= i < lines_of(output).len() && #[trigger] is_address_line(
                    lines_of(output)[i],
                    ip,
                ),
            None => forall|i: int, ip: Seq<char>|
                0 <= i < lines_of(output).len() ==> !(#[trigger] is_address_line(
                    lines_of(output)[i],
                    ip,
                )),
        },
{
    let ls = lines_of(output);
    lemma_pick_comes_from(ls, address_line());
    match first_pick(ls, address_line()) {
        Some(ip) => {
            let i = choose|i: int| 0 <= i < ls.len() && address_line()(ls[i]) == Some(ip);
            lemma_address_line(ls[i], ip);
        },
        None => {
            assert forall|i: int, ip: Seq<char>| 0 <= i < ls.len() implies !(
            #[trigger] is_address_line(ls[i], ip)) by {
                lemma_address_line(ls[i], ip);
                assert(address_line()(ls[i]) is None);
            }
        },
    }
}

/// The search for a local address asks `en0` and then `en1`, and finds the first output that is not
/// blank, without the white space round it; whether the program ended with success has no say.
pub proof fn law_local_address_is_the_first_output(
    first: Option<(bool, Seq<u8>)>,
    second: Option<(bool, Seq<u8>)>,
)
    ensures
        LanSearch::<Seq<char>>::after_all(seq![]) == LanSearch::<Seq<char>>::Ask(LanInterface::En0),
        match (first, second) {
            (Some((_, out)), _) if !all_white(lossy_text(out)) => LanSearch::<Seq<char>>::after_all(
                seq![first, second],
            ) == LanSearch::<Seq<char>>::Found(trim_of(lossy_text(out))),
            _ => LanSearch::<Seq<char>>::after_all(seq![first]) == LanSearch::<Seq<char>>::Ask(
                LanInterface::En1,
            ) && LanSearch::<Seq<char>>::after_all(seq![first, second]) == (match second {
                Some((_, out)) if !all_white(lossy_text(out)) => LanSearch::<Seq<char>>::Found(
                    trim_of(lossy_text(out)),
                ),
                _ => LanSearch::<Seq<char>>::NotFound,
            }),
        },
{
    let one = seq![first];
    let two = one.push(second);
    assert(one.drop_last() =~= Seq::<Option<(bool, Seq<u8>)>>::empty());
    assert(two.drop_last() =~= one);
    assert(two =~= seq![first, second]);
    reveal_with_fuel(LanSearch::<_>::after_all, 3);
    if let Some((_, out)) = first {
        law_blank_text_is_white(lossy_text(out));
    }
    if let Some((_, out)) = second {
        law_blank_text_is_white(lossy_text(out));
    }
}

/// Whether a reply of the Tailscale program tells an address.
pub open spec fn program_tells(reply: Option<(bool, Seq<u8>)>) -> bool {
    reply matches Some((success, out)) && success && cli_address(out) is Some
}

/// What is asked once the first `k` programs have told no address.
pub open spec fn asked(k: int) -> TailscaleSearch<Seq<char>> {
    if k == 0 {
        TailscaleSearch::AskProgram(TailscaleProgram::Application)
    } else if k == 1 {
        TailscaleSearch::AskProgram(TailscaleProgram::UsrLocal)
    } else if k == 2 {
        TailscaleSearch::AskProgram(TailscaleProgram::Homebrew)
    } else if k == 3 {
        TailscaleSearch::AskProgram(TailscaleProgram::SearchPath)
    } else {
        TailscaleSearch::AskInterfaces
    }
}

proof fn lemma_found_stays(replies: Seq<Option<(bool, Seq<u8>)>>, k: int, ip: Seq<char>)
    requires
        0 <= k <= replies.len(),
        TailscaleSearch::<Seq<char>>::after_all(replies.take(k)) == TailscaleSearch::<
            Seq<char>,
        >::Found(ip),
    ensures
        TailscaleSearch::<Seq<char>>::after_all(replies) == TailscaleSearch::<Seq<char>>::Found(ip),
    decreases replies.len() - k,
{
    if k < replies.len() {
        assert(replies.take(k + 1).drop_last() =~= replies.take(k));
        lemma_found_stays(replies, k + 1, ip);
    } else {
        assert(replies.take(k) =~= replies);
    }
}

/// The search asks the program in its four places in turn, and the interfaces last. It goes on as
/// long as no address is told; a program that could not be run, or failed, tells none. The first
/// address that is told is what it finds: the programs' `k`th reply, where that is the first to tell
/// one, and else what the interfaces tell, if they tell any.
pub proof fn law_first_told_address_is_found(replies: Seq<Option<(bool, Seq<u8>)>>, k: int)
    requires
        replies.len() == 5,
        0 <= k <= 4,
        forall|i: int| 0 <= i < k ==> !program_tells(#[trigger] replies[i]),
    ensures
        TailscaleSearch::<Seq<char>>::after_all(replies.take(k)) == asked(k),
        k < 4 && program_tells(replies[k]) ==> (replies[k] matches Some((_, out)) && (cli_address(
            out,
        ) matches Some(ip) && TailscaleSearch::<Seq<char>>::after_all(replies)
            == TailscaleSearch::<Seq<char>>::Found(ip))),
        k == 4 ==> TailscaleSearch::<Seq<char>>::after_all(replies) == (match replies[4] {
            Some((_, out)) => match interface_address(out) {
                Some(ip) => TailscaleSearch::<Seq<char>>::Found(ip),
                None => TailscaleSearch::<Seq<char>>::NotFound,
            },
            None => TailscaleSearch::<Seq<char>>::NotFound,
        }),
    decreases k,
{
    if k == 0 {
        assert(replies.take(0) =~= Seq::<Option<(bool, Seq<u8>)>>::empty());
    } else {
        law_first_told_address_is_found(replies, k - 1);
        assert(!program_tells(replies[k - 1]));
        assert(replies.take(k).drop_last() =~= replies.take(k - 1));
        assert(replies.take(k).last() == replies[k - 1]);
    }
    if k < 4 && program_tells(replies[k]) {
        if let Some((_, out)) = replies[k] {
            if let Some(ip) = cli_address(out) {
                assert(replies.take(k + 1).drop_last() =~= replies.take(k));
                assert(replies.take(k + 1).last() == replies[k]);
                lemma_found_stays(replies, k + 1, ip);
            }
        }
    }
    if k == 4 {
        assert(replies.drop_last() =~= replies.take(4));
    }
}

/// The program is looked for at three places by their full paths, and last by its name alone.
pub proof fn law_programs_have_paths()
    ensures
        TailscaleProgram::Application.path_of()[0] == '/',
        TailscaleProgram::UsrLocal.path_of() == "/usr/local/bin/"@
            + TailscaleProgram::SearchPath.path_of(),
        TailscaleProgram::Homebrew.path_of() == "/opt/homebrew/bin/"@
            + TailscaleProgram::SearchPath.path_of(),
        TailscaleProgram::SearchPath.path_of() == "tailscale"@,
{
    reveal_strlit("/Applications/Tailscale.app/Contents/MacOS/Tailscale");
    reveal_strlit("/usr/local/bin/tailscale");
    reveal_strlit("/opt/homebrew/bin/tailscale");
    reveal_strlit("/usr/local/bin/");
    reveal_strlit("/opt/homebrew/bin/");
    reveal_strlit("tailscale");
    assert(TailscaleProgram::UsrLocal.path_of() =~= "/usr/local/bin/"@ + "tailscale"@);
    assert(TailscaleProgram::Homebrew.path_of() =~= "/opt/homebrew/bin/"@ + "tailscale"@);
}

/// A URL is the address between `http://` and the port, whatever the address is; so it tells
/// addresses apart.
pub proof fn law_url_holds_the_address(ip: Seq<char>, other: Seq<char>)
    ensures
        url_of(ip).len() == 7 + ip.len() + 5,
        url_of(ip).subrange(0, 7) == "http://"@,
        url_of(ip).subrange(7, 7 + ip.len() as int) == ip,
        url_of(ip).skip(7 + ip.len() as int) == ":8765"@,
        url_of(ip) == url_of(other) ==> ip == other,
{
    reveal_strlit("http://");
    reveal_strlit(":");
    reveal_strlit("8765");
    reveal_strlit(":8765");
    assert(url_of(ip).subrange(0, 7) =~= "http://"@);
    assert(url_of(ip).subrange(7, 7 + ip.len() as int) =~= ip);
    assert(url_of(ip).skip(7 + ip.len() as int) =~= ":8765"@);
    assert(url_of(other).subrange(7, 7 + other.len() as int) =~= other);
}

/// There is a URL exactly where there is an address, and it is the URL of that address.
pub proof fn law_url_where_there_is_an_address(ip: Seq<char>)
    ensures
        url_when(Some(ip)) == Some("http://"@ + ip + ":8765"@),
        url_when(None) is None,
{
    reveal_strlit(":");
    reveal_strlit("8765");
    reveal_strlit(":8765");
    assert(url_of(ip) =~= "http://"@ + ip + ":8765"@);
}

/// What a program has left behind is seen as it is, whether or not it ended with success, and so is
/// what a search finds.
pub proof fn law_outputs_are_seen_as_they_are(p: ProgramOutput, t: String)
    ensures
        output_if(Some(p)) == Some((p.success, p.stdout@)),
        output_if(None) is None,
        (LanSearch::Found(t))@ == LanSearch::Found(t@),
        (TailscaleSearch::Found(t))@ == TailscaleSearch::Found(t@),
{
}

} // verus!
