//! Text as a sequence of characters: trimming, lines, words and fields.
//!
//! Every function here works on `&[char]` or `&str` and is specified over `Seq<char>`.

use vstd::prelude::*;
use vstd::slice::slice_subrange;
use vstd::utf8::{
    decode_utf8, encode_utf8, encode_utf8_decode_utf8, encode_utf8_valid_utf8, valid_utf8,
};

verus! {

/// `String::push` appends one character to the end of the string and changes nothing else.
pub assume_specification[ String::push ](s: &mut String, c: char)
    ensures
        final(s)@ == old(s)@.push(c),
;

/// What `String::from_utf8_lossy` makes of bytes that are not valid UTF-8.
pub uninterp spec fn utf8_repaired(bytes: Seq<u8>) -> Seq<char>;

/// The text of some bytes: what they encode, or a repaired text where they are not valid UTF-8.
pub open spec fn lossy_text(bytes: Seq<u8>) -> Seq<char> {
    if valid_utf8(bytes) {
        decode_utf8(bytes)
    } else {
        utf8_repaired(bytes)
    }
}

/// Calls `String::from_utf8_lossy`. Valid UTF-8 is decoded as it is. Of other bytes the result
/// depends on the bytes alone; which characters replace the invalid parts is left to the name
/// `utf8_repaired`. Only invalid parts are replaced: whatever the bytes begin with that is valid
/// UTF-8, the result begins with what that encodes.
#[verifier::external_body]
pub(crate) fn lossy(bytes: &[u8]) -> (r: String)
    ensures
        valid_utf8(bytes@) ==> r@ == decode_utf8(bytes@),
        !valid_utf8(bytes@) ==> r@ == utf8_repaired(bytes@),
        forall|k: int|
            0 <= k <= bytes@.len() && valid_utf8(#[trigger] bytes@.take(k)) ==> decode_utf8(
                bytes@.take(k),
            ).is_prefix_of(r@),
{
    String::from_utf8_lossy(bytes).into_owned()
}

/// The text of an optional string.
pub open spec fn text_if(s: Option<String>) -> Option<Seq<char>> {
    match s {
        Some(t) => Some(t@),
        None => None,
    }
}

/// The characters with the Unicode property `White_Space`.
pub open spec fn white(c: char) -> bool {
    ||| '\u{9}' <= c <= '\u{d}'
    ||| c == ' '
    ||| c == '\u{85}'
    ||| c == '\u{a0}'
    ||| c == '\u{1680}'
    ||| '\u{2000}' <= c <= '\u{200a}'
    ||| c == '\u{2028}'
    ||| c == '\u{2029}'
    ||| c == '\u{202f}'
    ||| c == '\u{205f}'
    ||| c == '\u{3000}'
}

/// Whether all of `s` is white space.
pub open spec fn all_white(s: Seq<char>) -> bool {
    forall|i: int| 0 <= i < s.len() ==> white(#[trigger] s[i])
}

/// The predicate that singles out `x`.
pub open spec fn exactly(x: char) -> spec_fn(char) -> bool {
    |c: char| c == x
}

/// The predicate that singles out white space.
pub open spec fn blank() -> spec_fn(char) -> bool {
    |c: char| white(c)
}

/// The position of the first character of `s` that satisfies `stop`, or `s.len()`.
pub open spec fn first_at(s: Seq<char>, stop: spec_fn(char) -> bool) -> int
    decreases s.len(),
{
    if s.len() == 0 || stop(s[0]) {
        0
    } else {
        1 + first_at(s.drop_first(), stop)
    }
}

/// `s` without the white space at its front.
pub open spec fn trim_start_of(s: Seq<char>) -> Seq<char>
    decreases s.len(),
{
    if s.len() > 0 && white(s[0]) {
        trim_start_of(s.drop_first())
    } else {
        s
    }
}

/// `s` without the white space at its back.
pub open spec fn trim_end_of(s: Seq<char>) -> Seq<char>
    decreases s.len(),
{
    if s.len() > 0 && white(s.last()) {
        trim_end_of(s.drop_last())
    } else {
        s
    }
}

/// `s` without the white space at its two ends.
pub open spec fn trim_of(s: Seq<char>) -> Seq<char> {
    trim_end_of(trim_start_of(s))
}

/// `s` without the carriage return at its end, if there is one.
pub open spec fn without_cr(s: Seq<char>) -> Seq<char> {
    if s.len() > 0 && s.last() == '\r' {
        s.drop_last()
    } else {
        s
    }
}

/// The lines of `s`. A line ends at `\n` or `\r\n`, which are not part of it; what follows the last
/// line ending is a line unless it is empty.
pub open spec fn lines_of(s: Seq<char>) -> Seq<Seq<char>>
    decreases s.len(),
{
    let k = first_at(s, exactly('\n'));
    if s.len() == 0 {
        seq![]
    } else if 0 <= k < s.len() {
        seq![without_cr(s.take(k))] + lines_of(s.skip(k + 1))
    } else {
        seq![s]
    }
}

/// The maximal runs of `s` that hold no white space, in order.
pub open spec fn words_of(s: Seq<char>) -> Seq<Seq<char>>
    decreases s.len(),
{
    let t = trim_start_of(s);
    let k = first_at(t, blank());
    if 0 < k <= t.len() <= s.len() {
        seq![t.take(k)] + words_of(t.skip(k))
    } else {
        seq![]
    }
}

/// The pieces of `s` between occurrences of `sep`; there is always at least one.
pub open spec fn fields_of(s: Seq<char>, sep: char) -> Seq<Seq<char>>
    decreases s.len(),
{
    let k = first_at(s, exactly(sep));
    if 0 <= k < s.len() {
        seq![s.take(k)] + fields_of(s.skip(k + 1), sep)
    } else {
        seq![s]
    }
}

/// `s` after every leading repetition of `p` has been taken off.
pub open spec fn strip_all_of(s: Seq<char>, p: Seq<char>) -> Seq<char>
    decreases s.len(),
{
    if p.len() > 0 && p.is_prefix_of(s) {
        strip_all_of(s.skip(p.len() as int), p)
    } else {
        s
    }
}

pub(crate) proof fn lemma_first_at(s: Seq<char>, stop: spec_fn(char) -> bool, k: int)
    requires
        0 <= k <= s.len(),
        forall|i: int| 0 <= i < k ==> !stop(#[trigger] s[i]),
        k < s.len() ==> stop(s[k]),
    ensures
        first_at(s, stop) == k,
    decreases s.len(),
{
    if k > 0 {
        assert forall|i: int| 0 <= i < k - 1 implies !stop(#[trigger] s.drop_first()[i]) by {
            assert(s.drop_first()[i] == s[i + 1]);
        }
        lemma_first_at(s.drop_first(), stop, k - 1);
    }
}

pub(crate) proof fn lemma_first_at_found(s: Seq<char>, stop: spec_fn(char) -> bool)
    ensures
        0 <= first_at(s, stop) <= s.len(),
        forall|i: int| 0 <= i < first_at(s, stop) ==> !stop(#[trigger] s[i]),
        first_at(s, stop) < s.len() ==> stop(s[first_at(s, stop)]),
    decreases s.len(),
{
    if s.len() > 0 && !stop(s[0]) {
        lemma_first_at_found(s.drop_first(), stop);
        assert forall|i: int| 0 <= i < first_at(s, stop) implies !stop(#[trigger] s[i]) by {
            if i > 0 {
                assert(s.drop_first()[i - 1] == s[i]);
            }
        }
    }
}

/// A stretch in front of which nothing stops does not hide where the search ends.
pub(crate) proof fn lemma_first_at_append(s: Seq<char>, t: Seq<char>, stop: spec_fn(char) -> bool)
    requires
        t.len() > 0,
        stop(t[0]),
    ensures
        first_at(s + t, stop) == first_at(s, stop),
{
    lemma_first_at_found(s, stop);
    lemma_first_at(s + t, stop, first_at(s, stop));
}

/// A run without white space at the front of a text is its first word, where white space or nothing
/// follows it.
pub(crate) proof fn lemma_first_word(a: Seq<char>, w: Seq<char>)
    requires
        a.len() > 0,
        forall|i: int| 0 <= i < a.len() ==> !white(#[trigger] a[i]),
        w.len() > 0 ==> white(w[0]),
    ensures
        words_of(a + w) == seq![a] + words_of(w),
{
    let s = a + w;
    assert forall|i: int| 0 <= i < a.len() implies !blank()(#[trigger] s[i]) by {
        assert(s[i] == a[i]);
    }
    lemma_first_at(s, blank(), a.len() as int);
    assert(!white(s[0]));
    assert(s.take(a.len() as int) =~= a);
    assert(s.skip(a.len() as int) =~= w);
}

/// Where the first character that is no white space stands is where trimming the front begins.
pub(crate) proof fn lemma_trim_start_from(s: Seq<char>, k: int)
    requires
        0 <= k <= s.len(),
        forall|i: int| 0 <= i < k ==> white(#[trigger] s[i]),
        k < s.len() ==> !white(s[k]),
    ensures
        trim_start_of(s) == s.skip(k),
    decreases k,
{
    if k > 0 {
        assert forall|i: int| 0 <= i < k - 1 implies white(#[trigger] s.drop_first()[i]) by {
            assert(s.drop_first()[i] == s[i + 1]);
        }
        lemma_trim_start_from(s.drop_first(), k - 1);
        assert(s.drop_first().skip(k - 1) =~= s.skip(k));
    } else {
        assert(s.skip(0) =~= s);
    }
}

/// Trimming the front a second time changes nothing, and leaves the words as they are.
pub(crate) proof fn lemma_trim_start_twice(s: Seq<char>)
    ensures
        trim_start_of(trim_start_of(s)) == trim_start_of(s),
        trim_start_of(s).len() <= s.len(),
        trim_start_of(s).len() > 0 ==> !white(trim_start_of(s)[0]),
        words_of(trim_start_of(s)) == words_of(s),
    decreases s.len(),
{
    if s.len() > 0 && white(s[0]) {
        lemma_trim_start_twice(s.drop_first());
    }
}

proof fn lemma_trim_end_from(s: Seq<char>, k: int)
    requires
        0 <= k <= s.len(),
        forall|i: int| k <= i < s.len() ==> white(#[trigger] s[i]),
        k > 0 ==> !white(s[k - 1]),
    ensures
        trim_end_of(s) == s.take(k),
    decreases s.len() - k,
{
    if k < s.len() {
        assert(white(s[s.len() - 1]));
        lemma_trim_end_from(s.drop_last(), k);
        assert(s.drop_last().take(k) =~= s.take(k));
    } else {
        assert(s.take(k) =~= s);
    }
}

/// Whether `c` is white space.
pub fn is_white(c: char) -> (r: bool)
    ensures
        r == white(c),
{
    ('\u{9}' <= c && c <= '\u{d}') || c == ' ' || c == '\u{85}' || c == '\u{a0}' || c == '\u{1680}'
        || ('\u{2000}' <= c && c <= '\u{200a}') || c == '\u{2028}' || c == '\u{2029}' || c
        == '\u{202f}' || c == '\u{205f}' || c == '\u{3000}'
}

/// The characters of `s`.
pub fn chars_of(s: &str) -> (r: Vec<char>)
    ensures
        r@ == s@,
{
    let mut r: Vec<char> = Vec::new();
    for c in it: s.chars()
        invariant
            r@ == it.seq().take(it.index()),
            it.seq() == s@,
    {
        r.push(c);
    }
    r
}

/// The text made of the characters `c`.
pub fn text_of(c: &[char]) -> (r: String)
    ensures
        r@ == c@,
{
    let mut r = String::new();
    for i in 0..c.len()
        invariant
            r@ == c@.take(i as int),
    {
        r.push(c[i]);
        assert(c@.take(i as int).push(c@[i as int]) =~= c@.take(i + 1));
    }
    assert(c@.take(c.len() as int) =~= c@);
    r
}

/// Whether two runs of characters are the same.
pub fn same_chars(a: &[char], b: &[char]) -> (r: bool)
    ensures
        r == (a@ == b@),
{
    if a.len() != b.len() {
        return false;
    }
    for i in 0..a.len()
        invariant
            a@.len() == b@.len(),
            a@.take(i as int) == b@.take(i as int),
    {
        if a[i] != b[i] {
            assert(a@[i as int] != b@[i as int]);
            return false;
        }
        assert(a@.take(i + 1) =~= a@.take(i as int).push(a@[i as int]));
        assert(b@.take(i + 1) =~= b@.take(i as int).push(b@[i as int]));
    }
    assert(a@.take(a.len() as int) =~= a@);
    assert(b@.take(b.len() as int) =~= b@);
    true
}

/// Whether two texts are the same.
pub fn same_text(a: &str, b: &str) -> (r: bool)
    ensures
        r == (a@ == b@),
{
    let x = chars_of(a);
    let y = chars_of(b);
    same_chars(x.as_slice(), y.as_slice())
}

/// Whether `s` begins with `p`.
pub fn begins_with(s: &[char], p: &[char]) -> (r: bool)
    ensures
        r == p@.is_prefix_of(s@),
{
    if s.len() < p.len() {
        return false;
    }
    same_chars(slice_subrange(s, 0, p.len()), p)
}

/// The position of the first `x` in `s`, or the length of `s`.
pub fn find_char(s: &[char], x: char) -> (k: usize)
    ensures
        k == first_at(s@, exactly(x)),
        k <= s@.len(),
{
    let mut k: usize = 0;
    while k < s.len() && s[k] != x
        invariant
            k <= s@.len(),
            forall|i: int| 0 <= i < k ==> s@[i] != x,
        decreases s@.len() - k,
    {
        k = k + 1;
    }
    proof {
        lemma_first_at(s@, exactly(x), k as int);
    }
    k
}

/// The position of the first white space in `s`, or the length of `s`.
pub fn find_white(s: &[char]) -> (k: usize)
    ensures
        k == first_at(s@, blank()),
        k <= s@.len(),
{
    let mut k: usize = 0;
    while k < s.len() && !is_white(s[k])
        invariant
            k <= s@.len(),
            forall|i: int| 0 <= i < k ==> !white(#[trigger] s@[i]),
        decreases s@.len() - k,
    {
        k = k + 1;
    }
    proof {
        lemma_first_at(s@, blank(), k as int);
    }
    k
}

/// `s` without the white space at its front.
pub fn trim_start(s: &[char]) -> (r: &[char])
    ensures
        r@ == trim_start_of(s@),
        r@.len() <= s@.len(),
{
    let mut k: usize = 0;
    while k < s.len() && is_white(s[k])
        invariant
            k <= s@.len(),
            forall|i: int| 0 <= i < k ==> white(#[trigger] s@[i]),
        decreases s@.len() - k,
    {
        k = k + 1;
    }
    proof {
        lemma_trim_start_from(s@, k as int);
    }
    slice_subrange(s, k, s.len())
}

/// `s` without the white space at its two ends.
pub fn trim(s: &[char]) -> (r: &[char])
    ensures
        r@ == trim_of(s@),
        r@.len() <= s@.len(),
{
    let t = trim_start(s);
    let mut k: usize = t.len();
    while k > 0 && is_white(t[k - 1])
        invariant
            k <= t@.len(),
            forall|i: int| k <= i < t@.len() ==> white(#[trigger] t@[i]),
        decreases k,
    {
        k = k - 1;
    }
    proof {
        lemma_trim_end_from(t@, k as int);
    }
    slice_subrange(t, 0, k)
}

/// `s` after every leading repetition of `p` has been taken off.
pub fn strip_all<'a>(s: &'a [char], p: &[char]) -> (r: &'a [char])
    ensures
        r@ == strip_all_of(s@, p@),
{
    let mut rest = s;
    while p.len() > 0 && begins_with(rest, p)
        invariant
            strip_all_of(rest@, p@) == strip_all_of(s@, p@),
        decreases rest@.len(),
    {
        rest = slice_subrange(rest, p.len(), rest.len());
    }
    rest
}

/// The texts of a list of slices.
pub open spec fn texts(v: Seq<&[char]>) -> Seq<Seq<char>> {
    v.map_values(|p: &[char]| p@)
}

proof fn lemma_texts_push(v: Seq<&[char]>, p: &[char], tail: Seq<Seq<char>>)
    ensures
        texts(v.push(p)) + tail == texts(v) + (seq![p@] + tail),
{
    assert(texts(v.push(p)) + tail =~= texts(v) + (seq![p@] + tail));
}

/// The lines of `s`.
pub fn lines<'a>(s: &'a [char]) -> (r: Vec<&'a [char]>)
    ensures
        texts(r@) == lines_of(s@),
{
    let mut r: Vec<&'a [char]> = Vec::new();
    let mut rest = s;
    assert(texts(r@) + lines_of(rest@) =~= lines_of(s@));
    while rest.len() > 0
        invariant
            texts(r@) + lines_of(rest@) == lines_of(s@),
        decreases rest@.len(),
    {
        let k = find_char(rest, '\n');
        let (line, next) = if k < rest.len() {
            let end = if k > 0 && rest[k - 1] == '\r' {
                k - 1
            } else {
                k
            };
            let line = slice_subrange(rest, 0, end);
            assert(line@ =~= without_cr(rest@.take(k as int)));
            let next = slice_subrange(rest, k + 1, rest.len());
            assert(next@ =~= rest@.skip(k + 1));
            (line, next)
        } else {
            let next = slice_subrange(rest, rest.len(), rest.len());
            (rest, next)
        };
        proof {
            lemma_texts_push(r@, line, lines_of(next@));
            assert(lines_of(rest@) =~= seq![line@] + lines_of(next@));
        }
        r.push(line);
        rest = next;
    }
    assert(texts(r@) + lines_of(rest@) =~= texts(r@));
    r
}

/// The words of `s`.
pub fn words<'a>(s: &'a [char]) -> (r: Vec<&'a [char]>)
    ensures
        texts(r@) == words_of(s@),
{
    let mut r: Vec<&'a [char]> = Vec::new();
    let mut rest = trim_start(s);
    assert(texts(r@) + words_of(s@) =~= words_of(s@));
    proof {
        lemma_trim_start_twice(s@);
    }
    while rest.len() > 0
        invariant
            texts(r@) + words_of(rest@) == words_of(s@),
            rest@.len() > 0 ==> !white(rest@[0]),
        decreases rest@.len(),
    {
        let k = find_white(rest);
        let word = slice_subrange(rest, 0, k);
        let after = slice_subrange(rest, k, rest.len());
        let next = trim_start(after);
        proof {
            lemma_first_at_found(rest@, blank());
            assert(word@ =~= rest@.take(k as int));
            assert(after@ =~= rest@.skip(k as int));
            lemma_trim_start_twice(after@);
            assert(words_of(rest@) =~= seq![word@] + words_of(next@));
            lemma_texts_push(r@, word, words_of(next@));
        }
        r.push(word);
        rest = next;
    }
    assert(texts(r@) + words_of(rest@) =~= texts(r@));
    r
}

/// The pieces of `s` between occurrences of `sep`.
pub fn fields<'a>(s: &'a [char], sep: char) -> (r: Vec<&'a [char]>)
    ensures
        texts(r@) == fields_of(s@, sep),
{
    let mut r: Vec<&'a [char]> = Vec::new();
    let mut rest = s;
    let mut k = find_char(rest, sep);
    assert(texts(r@) + fields_of(rest@, sep) =~= fields_of(s@, sep));
    while k < rest.len()
        invariant
            texts(r@) + fields_of(rest@, sep) == fields_of(s@, sep),
            k == first_at(rest@, exactly(sep)),
            k <= rest@.len(),
        decreases rest@.len(),
    {
        let field = slice_subrange(rest, 0, k);
        let next = slice_subrange(rest, k + 1, rest.len());
        proof {
            assert(field@ =~= rest@.take(k as int));
            assert(next@ =~= rest@.skip(k + 1));
            lemma_texts_push(r@, field, fields_of(next@, sep));
        }
        r.push(field);
        rest = next;
        k = find_char(rest, sep);
    }
    proof {
        lemma_texts_push(r@, rest, Seq::<Seq<char>>::empty());
        assert(texts(r@.push(rest)) =~= texts(r@.push(rest)) + Seq::<Seq<char>>::empty());
        assert(seq![rest@] + Seq::<Seq<char>>::empty() =~= seq![rest@]);
    }
    r.push(rest);
    r
}

// ---- laws --------------------------------------------------------------------------------------

/// White space is these twenty-five characters, and no others.
pub proof fn law_white_space(c: char)
    ensures
        white(c) <==> ({
            let n = c as u32;
            ||| n == 0x9 || n == 0xa || n == 0xb || n == 0xc || n == 0xd
            ||| n == 0x20 || n == 0x85 || n == 0xa0 || n == 0x1680
            ||| n == 0x2000 || n == 0x2001 || n == 0x2002 || n == 0x2003 || n == 0x2004
            ||| n == 0x2005 || n == 0x2006 || n == 0x2007 || n == 0x2008 || n == 0x2009
            ||| n == 0x200a || n == 0x2028 || n == 0x2029 || n == 0x202f || n == 0x205f
            ||| n == 0x3000
        }),
{
}

proof fn lemma_trim_end_is(s: Seq<char>) -> (k: int)
    ensures
        0 <= k <= s.len(),
        trim_end_of(s) == s.take(k),
        forall|i: int| k <= i < s.len() ==> white(#[trigger] s[i]),
        k > 0 ==> !white(s[k - 1]),
    decreases s.len(),
{
    if s.len() > 0 && white(s.last()) {
        let k = lemma_trim_end_is(s.drop_last());
        assert(s.drop_last().take(k) =~= s.take(k));
        assert forall|i: int| k <= i < s.len() implies white(#[trigger] s[i]) by {
            if i < s.len() - 1 {
                assert(s.drop_last()[i] == s[i]);
            }
        }
        k
    } else {
        assert(s.take(s.len() as int) =~= s);
        s.len() as int
    }
}

/// Trimming takes white space off both ends and nothing else: what it leaves is a stretch of the
/// text, from `r.0` to `r.1`, with nothing but white space before and after it, and neither begins
/// nor ends with white space.
pub proof fn law_trim_takes_off_the_ends(s: Seq<char>) -> (r: (int, int))
    ensures
        0 <= r.0 <= r.1 <= s.len(),
        trim_of(s) == s.subrange(r.0, r.1),
        forall|i: int| 0 <= i < r.0 || r.1 <= i < s.len() ==> white(#[trigger] s[i]),
        r.0 < r.1 ==> !white(s[r.0]) && !white(s[r.1 - 1]),
{
    let ink = |c: char| !white(c);
    lemma_first_at_found(s, ink);
    let a = first_at(s, ink);
    assert forall|i: int| 0 <= i < a implies white(#[trigger] s[i]) by {
        assert(!ink(s[i]));
    }
    lemma_trim_start_from(s, a);
    let t = s.skip(a);
    let k = lemma_trim_end_is(t);
    assert(t.take(k) =~= s.subrange(a, a + k));
    assert forall|i: int| 0 <= i < a || a + k <= i < s.len() implies white(#[trigger] s[i]) by {
        if i >= a + k {
            assert(t[i - a] == s[i]);
        }
    }
    if k > 0 {
        assert(s[a + k - 1] == t[k - 1]);
    }
    (a, a + k)
}

/// A text that neither begins nor ends with white space is what trimming leaves of it, however much
/// white space stands before and after it.
pub proof fn law_padding_is_taken_off(a: Seq<char>, t: Seq<char>, b: Seq<char>)
    requires
        all_white(a),
        all_white(b),
        t.len() > 0 ==> !white(t[0]) && !white(t[t.len() - 1]),
    ensures
        trim_of(a + t + b) == t,
{
    let s = a + t + b;
    let r = law_trim_takes_off_the_ends(s);
    if t.len() == 0 {
        assert forall|i: int| 0 <= i < s.len() implies white(#[trigger] s[i]) by {
            if i < a.len() {
                assert(s[i] == a[i]);
            } else {
                assert(s[i] == b[i - a.len()]);
            }
        }
        assert(trim_of(s) =~= t);
    } else {
        assert(s[a.len() as int] == t[0]);
        assert(s[a.len() + t.len() - 1] == t[t.len() - 1]);
        if r.0 < a.len() {
            assert(s[r.0] == a[r.0]);
        }
        if r.1 > a.len() + t.len() {
            assert(s[r.1 - 1] == b[r.1 - 1 - a.len() - t.len()]);
        }
        assert(s.subrange(r.0, r.1) =~= t);
    }
}

/// White space at the front of a text has no say in its words.
pub(crate) proof fn lemma_words_skip_gap(gap: Seq<char>, t: Seq<char>)
    requires
        all_white(gap),
    ensures
        words_of(gap + t) == words_of(t),
    decreases gap.len(),
{
    if gap.len() == 0 {
        assert(gap + t =~= t);
    } else {
        assert(white(gap[0]));
        assert((gap + t)[0] == gap[0]);
        lemma_words_skip_white(gap + t);
        assert((gap + t).drop_first() =~= gap.drop_first() + t);
        assert forall|i: int| 0 <= i < gap.drop_first().len() implies white(
            #[trigger] gap.drop_first()[i],
        ) by {
            assert(gap.drop_first()[i] == gap[i + 1]);
        }
        lemma_words_skip_gap(gap.drop_first(), t);
    }
}

/// Where all fields of a text are free of white space, so is the text, if the separator is none.
pub(crate) proof fn lemma_fields_without_white(s: Seq<char>, sep: char)
    requires
        !white(sep),
        forall|j: int, i: int|
            0 <= j < fields_of(s, sep).len() && 0 <= i < fields_of(s, sep)[j].len() ==> !white(
                #[trigger] fields_of(s, sep)[j][i],
            ),
    ensures
        forall|i: int| 0 <= i < s.len() ==> !white(#[trigger] s[i]),
    decreases s.len(),
{
    lemma_first_at_found(s, exactly(sep));
    let k = first_at(s, exactly(sep));
    let f = fields_of(s, sep);
    if k < s.len() {
        let more = s.skip(k + 1);
        let g = fields_of(more, sep);
        assert forall|j: int, i: int| 0 <= j < g.len() && 0 <= i < g[j].len() implies !white(
            #[trigger] g[j][i],
        ) by {
            assert(f[j + 1] == g[j]);
            assert(!white(f[j + 1][i]));
        }
        lemma_fields_without_white(more, sep);
        assert forall|i: int| 0 <= i < s.len() implies !white(#[trigger] s[i]) by {
            if i < k {
                assert(f[0] == s.take(k));
                assert(f[0][i] == s[i]);
            } else if i > k {
                assert(more[i - k - 1] == s[i]);
            }
        }
    } else {
        assert(f[0] == s);
        assert forall|i: int| 0 <= i < s.len() implies !white(#[trigger] s[i]) by {
            assert(f[0][i] == s[i]);
        }
    }
}

/// Nothing is left of a text by trimming exactly if all of it is white space.
pub proof fn law_blank_text_is_white(s: Seq<char>)
    ensures
        trim_of(s).len() == 0 <==> all_white(s),
{
    let r = law_trim_takes_off_the_ends(s);
    if r.0 < r.1 {
        assert(!white(s[r.0]));
    }
}

/// A text without line feeds is one line, or none where it is empty.
pub proof fn law_line_alone(s: Seq<char>)
    requires
        !s.contains('\n'),
    ensures
        lines_of(s) == (if s.len() == 0 {
            Seq::<Seq<char>>::empty()
        } else {
            seq![s]
        }),
{
    lemma_first_at_found(s, exactly('\n'));
    let k = first_at(s, exactly('\n'));
    if k < s.len() {
        assert(s.contains(s[k]));
    }
}

/// A line feed ends a line; a carriage return right before it is no part of the line. What follows
/// is split into lines by itself.
pub proof fn law_line_ends_at_line_feed(a: Seq<char>, rest: Seq<char>)
    requires
        !a.contains('\n'),
    ensures
        lines_of(a + seq!['\n'] + rest) == seq![
            if a.len() > 0 && a[a.len() - 1] == '\r' {
                a.take(a.len() - 1)
            } else {
                a
            },
        ] + lines_of(rest),
{
    let s = a + seq!['\n'] + rest;
    assert forall|i: int| 0 <= i < a.len() implies !exactly('\n')(#[trigger] s[i]) by {
        assert(s[i] == a[i]);
        assert(a.contains(a[i]));
    }
    lemma_first_at(s, exactly('\n'), a.len() as int);
    assert(s.take(a.len() as int) =~= a);
    assert(s.skip(a.len() as int + 1) =~= rest);
    if a.len() > 0 {
        assert(a.drop_last() =~= a.take(a.len() - 1));
    }
}

proof fn lemma_words_skip_white(s: Seq<char>)
    requires
        s.len() > 0,
        white(s[0]),
    ensures
        words_of(s) == words_of(s.drop_first()),
{
    lemma_trim_start_twice(s);
    lemma_trim_start_twice(s.drop_first());
}

/// White space parts words: those of a text are those before any white space in it and those after.
pub proof fn law_white_space_parts_words(a: Seq<char>, w: char, b: Seq<char>)
    requires
        white(w),
    ensures
        words_of(a + seq![w] + b) == words_of(a) + words_of(b),
    decreases a.len(),
{
    let s = a + seq![w] + b;
    if a.len() == 0 {
        assert(words_of(a) =~= Seq::<Seq<char>>::empty());
        lemma_words_skip_white(s);
        assert(s.drop_first() =~= b);
        assert(words_of(a) + words_of(b) =~= words_of(b));
    } else if white(a[0]) {
        lemma_words_skip_white(a);
        lemma_words_skip_white(s);
        assert(s.drop_first() =~= a.drop_first() + seq![w] + b);
        law_white_space_parts_words(a.drop_first(), w, b);
    } else {
        lemma_first_at_found(a, blank());
        let k = first_at(a, blank());
        let (word, more) = (a.take(k), a.skip(k));
        assert(a =~= word + more);
        assert(s =~= word + (more + seq![w] + b));
        assert forall|i: int| 0 <= i < word.len() implies !white(#[trigger] word[i]) by {
            assert(!blank()(a[i]));
        }
        if more.len() > 0 {
            assert(blank()(a[k]));
            assert((more + seq![w] + b)[0] == more[0]);
        }
        lemma_first_word(word, more);
        lemma_first_word(word, more + seq![w] + b);
        law_white_space_parts_words(more, w, b);
        assert(words_of(s) =~= words_of(a) + words_of(b));
    }
}

/// A text without white space is one word, or none where it is empty.
pub proof fn law_word_alone(s: Seq<char>)
    requires
        forall|i: int| 0 <= i < s.len() ==> !white(#[trigger] s[i]),
    ensures
        words_of(s) == (if s.len() == 0 {
            Seq::<Seq<char>>::empty()
        } else {
            seq![s]
        }),
{
    if s.len() > 0 {
        let none = Seq::<char>::empty();
        lemma_first_word(s, none);
        assert(s + none =~= s);
        assert(words_of(none) =~= Seq::<Seq<char>>::empty());
        assert(words_of(s) =~= seq![s]);
    }
}

/// Separators part fields: those of a text are those before any separator in it and those after.
pub proof fn law_separator_parts_fields(a: Seq<char>, sep: char, b: Seq<char>)
    ensures
        fields_of(a + seq![sep] + b, sep) == fields_of(a, sep) + fields_of(b, sep),
    decreases a.len(),
{
    let s = a + seq![sep] + b;
    lemma_first_at_found(a, exactly(sep));
    let k = first_at(a, exactly(sep));
    lemma_first_at_append(a, seq![sep] + b, exactly(sep));
    assert(a + (seq![sep] + b) =~= s);
    assert(s.take(k) =~= a.take(k));
    if k < a.len() {
        assert(s.skip(k + 1) =~= a.skip(k + 1) + seq![sep] + b);
        law_separator_parts_fields(a.skip(k + 1), sep, b);
    } else {
        assert(a.take(k) =~= a);
        assert(s.skip(k + 1) =~= b);
    }
    assert(fields_of(s, sep) =~= fields_of(a, sep) + fields_of(b, sep));
}

/// A text without separators is one field.
pub proof fn law_field_alone(s: Seq<char>, sep: char)
    requires
        !s.contains(sep),
    ensures
        fields_of(s, sep) == seq![s],
{
    lemma_first_at_found(s, exactly(sep));
    let k = first_at(s, exactly(sep));
    if k < s.len() {
        assert(s.contains(s[k]));
    }
}

/// Every repetition of a prefix is taken off, and nothing else: one more in front changes nothing, a
/// text that does not begin with it is left as it is, and what is left never begins with it.
pub proof fn law_repetitions_are_taken_off(s: Seq<char>, p: Seq<char>)
    requires
        p.len() > 0,
    ensures
        strip_all_of(p + s, p) == strip_all_of(s, p),
        !p.is_prefix_of(s) ==> strip_all_of(s, p) == s,
        !p.is_prefix_of(strip_all_of(s, p)),
    decreases s.len(),
{
    assert(p =~= (p + s).subrange(0, p.len() as int));
    assert((p + s).skip(p.len() as int) =~= s);
    if p.is_prefix_of(s) {
        law_repetitions_are_taken_off(s.skip(p.len() as int), p);
    }
}

/// The text of bytes is the text that they encode.
pub proof fn law_encoded_text_is_read_back(s: Seq<char>)
    ensures
        lossy_text(encode_utf8(s)) == s,
{
    encode_utf8_valid_utf8(s);
    encode_utf8_decode_utf8(s);
}

/// A string that is there is seen as its text, even where that is empty, and none as none.
pub proof fn law_string_is_seen_as_its_text(t: String)
    ensures
        text_if(Some(t)) == Some(t@),
        text_if(None) is None,
{
}

} // verus!
