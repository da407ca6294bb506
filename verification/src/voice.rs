//! The voices on offer and the labels they go by.

use crate::text::{
    chars_of, exactly, find_char, first_at, lemma_first_at, lemma_first_at_found, text_of,
};
use vstd::prelude::*;
use vstd::slice::slice_subrange;

verus! {

/// The voice that is used until another one is chosen.
pub const DEFAULT_VOICE: &'static str = "af_bella";

/// The upper-case form of an ASCII character.
pub open spec fn ascii_upper(c: char) -> char {
    if 'a' <= c <= 'z' {
        ((c as u32) - 32) as char
    } else {
        c
    }
}

/// The upper-case form of a character outside ASCII, as the Unicode character database gives it.
pub uninterp spec fn unicode_upper(c: char) -> Seq<char>;

/// The upper-case form of a character.
pub open spec fn upper(c: char) -> Seq<char> {
    if c <= '\u{7f}' {
        seq![ascii_upper(c)]
    } else {
        unicode_upper(c)
    }
}

/// Calls `char::to_uppercase`. Of an ASCII character the result is its ASCII upper-case form; of
/// any other, the result depends on the character alone and is left to the name `unicode_upper`. It
/// follows the Unicode character database, in which no character but the underscore itself has an
/// underscore in its upper-case form.
#[verifier::external_body]
fn uppercase(c: char) -> (r: String)
    ensures
        c <= '\u{7f}' ==> r@ == seq![ascii_upper(c)],
        c > '\u{7f}' ==> r@ == unicode_upper(c),
        c != '_' ==> !r@.contains('_'),
{
    c.to_uppercase().to_string()
}

/// Whether `id` has the form of a voice: a region and a gender, an underscore, and a name.
pub open spec fn names_voice(id: Seq<char>) -> bool {
    let k = first_at(id, exactly('_'));
    &&& k == 2
    &&& id.len() > 3
    &&& id[0] <= '\u{7f}'
    &&& id[1] == 'f' || id[1] == 'm'
}

/// How a region is shown.
pub open spec fn region_of(c: char) -> Seq<char> {
    if c == 'a' {
        "US"@
    } else if c == 'b' {
        "UK"@
    } else {
        upper(c)
    }
}

/// The label of the voice `id`: `Bella (US F)` for `af_bella`. An `id` that does not name a voice is
/// its own label.
pub open spec fn label_of(id: Seq<char>) -> Seq<char> {
    if names_voice(id) {
        upper(id[3]) + id.skip(4) + " ("@ + region_of(id[0]) + " "@ + (if id[1] == 'f' {
            "F"@
        } else {
            "M"@
        }) + ")"@
    } else {
        id
    }
}

/// Whether at most one character of `id` is an underscore.
pub open spec fn at_most_one_underscore(id: Seq<char>) -> bool {
    forall|i: int, j: int|
        0 <= i < id.len() && 0 <= j < id.len() && #[trigger] id[i] == '_' && #[trigger] id[j] == '_'
            ==> i == j
}

proof fn lemma_label_is_its_own_label(id: Seq<char>)
    requires
        at_most_one_underscore(id),
        names_voice(id) ==> !upper(id[3]).contains('_'),
    ensures
        label_of(label_of(id)) == label_of(id),
{
    if names_voice(id) {
        reveal_strlit("US");
        reveal_strlit("UK");
        reveal_strlit(" (");
        reveal_strlit(" ");
        reveal_strlit("F");
        reveal_strlit("M");
        reveal_strlit(")");
        lemma_first_at_found(id, exactly('_'));
        assert(id[2] == '_' && id[0] != '_' && id[3] != '_');
        let first = upper(id[3]);
        let name = first + id.skip(4);
        assert forall|i: int| 0 <= i < name.len() implies name[i] != '_' by {
            if i >= first.len() {
                assert(name[i] == id[i - first.len() + 4]);
            } else {
                assert(first.contains(first[i]));
            }
        }
        let label = label_of(id);
        assert(label.take(name.len() as int) =~= name);
        assert forall|i: int| 0 <= i < label.len() implies label[i] != '_' by {
            if i < name.len() {
                assert(label[i] == name[i]);
            }
        }
        lemma_first_at(label, exactly('_'), label.len() as int);
        assert(label.len() > 2);
    }
}

/// The label under which the voice `id` is offered. A label is its own label, where the `id` that it
/// belongs to has at most one underscore.
pub fn voice_label(id: &str) -> (r: String)
    ensures
        r@ == label_of(id@),
        at_most_one_underscore(id@) ==> label_of(r@) == r@,
{
    let c = chars_of(id);
    let k = find_char(c.as_slice(), '_');
    if k == 2 && c.len() > 3 && c[0] <= '\u{7f}' && (c[1] == 'f' || c[1] == 'm') {
        let region = if c[0] == 'a' {
            "US".to_string()
        } else if c[0] == 'b' {
            "UK".to_string()
        } else {
            uppercase(c[0])
        };
        let gender = if c[1] == 'f' {
            "F"
        } else {
            "M"
        };
        let mut label = uppercase(c[3]);
        proof {
            lemma_first_at_found(id@, exactly('_'));
            if at_most_one_underscore(id@) {
                assert(id@[2] == '_' && id@[3] != '_');
                lemma_label_is_its_own_label(id@);
            }
        }
        let tail = slice_subrange(c.as_slice(), 4, c.len());
        assert(tail@ =~= id@.skip(4));
        label.append(text_of(tail).as_str());
        label.append(" (");
        label.append(region.as_str());
        label.append(" ");
        label.append(gender);
        label.append(")");
        label
    } else {
        id.to_string()
    }
}

/// The identifiers of the voices on offer.
pub open spec fn voice_ids() -> Seq<Seq<char>> {
    seq![
        "af_alloy"@,
        "af_aoede"@,
        "af_bella"@,
        "af_heart"@,
        "af_jessica"@,
        "af_kore"@,
        "af_nicole"@,
        "af_nova"@,
        "af_river"@,
        "af_sarah"@,
        "af_sky"@,
        "am_adam"@,
        "am_echo"@,
        "am_eric"@,
        "am_fenrir"@,
        "am_liam"@,
        "am_michael"@,
        "am_onyx"@,
        "am_puck"@,
        "am_santa"@,
        "bf_alice"@,
        "bf_emma"@,
        "bf_isabella"@,
        "bf_lily"@,
        "bm_daniel"@,
        "bm_fable"@,
        "bm_george"@,
        "bm_lewis"@,
    ]
}

/// The voices on offer, in the order of the menu.
pub fn voices() -> (r: Vec<&'static str>)
    ensures
        r@.map_values(|v: &'static str| v@) == voice_ids(),
{
    let r: Vec<&'static str> = vec![
        "af_alloy",
        "af_aoede",
        "af_bella",
        "af_heart",
        "af_jessica",
        "af_kore",
        "af_nicole",
        "af_nova",
        "af_river",
        "af_sarah",
        "af_sky",
        "am_adam",
        "am_echo",
        "am_eric",
        "am_fenrir",
        "am_liam",
        "am_michael",
        "am_onyx",
        "am_puck",
        "am_santa",
        "bf_alice",
        "bf_emma",
        "bf_isabella",
        "bf_lily",
        "bm_daniel",
        "bm_fable",
        "bm_george",
        "bm_lewis",
    ];
    assert(r@.map_values(|v: &'static str| v@) =~= voice_ids());
    r
}

/// Whether `id` is a voice of the two named regions whose name begins with a small letter.
pub open spec fn plain_voice(id: Seq<char>) -> bool {
    &&& names_voice(id)
    &&& id[0] == 'a' || id[0] == 'b'
    &&& 'a' <= id[3] <= 'z'
}

/// No two voices of the two named regions go by the same label.
pub proof fn law_labels_tell_voices_apart(a: Seq<char>, b: Seq<char>)
    requires
        plain_voice(a),
        plain_voice(b),
        label_of(a) == label_of(b),
    ensures
        a == b,
{
    reveal_strlit("US");
    reveal_strlit("UK");
    reveal_strlit(" (");
    reveal_strlit(" ");
    reveal_strlit("F");
    reveal_strlit("M");
    reveal_strlit(")");
    let x = label_of(a);
    let y = label_of(b);
    assert(x.len() == a.len() - 3 + 7);
    assert(y.len() == b.len() - 3 + 7);
    let n = a.len() - 3;
    assert(x[n + 3] == (if a[0] == 'a' { 'S' } else { 'K' }));
    assert(y[n + 3] == (if b[0] == 'a' { 'S' } else { 'K' }));
    assert(x[n + 5] == (if a[1] == 'f' { 'F' } else { 'M' }));
    assert(y[n + 5] == (if b[1] == 'f' { 'F' } else { 'M' }));
    assert(x[0] == ascii_upper(a[3]) && y[0] == ascii_upper(b[3]));
    assert forall|i: int| 4 <= i < a.len() implies a[i] == b[i] by {
        assert(x[i - 3] == a.skip(4)[i - 4]);
        assert(y[i - 3] == b.skip(4)[i - 4]);
    }
    lemma_first_at_found(a, exactly('_'));
    lemma_first_at_found(b, exactly('_'));
    assert(a =~= b);
}

proof fn lemma_plain(id: Seq<char>)
    requires
        id.len() > 3,
        id[0] == 'a' || id[0] == 'b',
        id[1] == 'f' || id[1] == 'm',
        id[2] == '_',
        'a' <= id[3] <= 'z',
    ensures
        plain_voice(id),
{
    lemma_first_at(id, exactly('_'), 2);
}

/// Every voice on offer has a label of its own, and the default voice is on offer.
pub proof fn law_voices_on_offer()
    ensures
        forall|i: int| 0 <= i < voice_ids().len() ==> plain_voice(#[trigger] voice_ids()[i]),
        voice_ids().len() == 28,
        voice_ids().no_duplicates(),
        voice_ids().contains("af_bella"@),
        voice_ids().contains(DEFAULT_VOICE@),
{
    reveal_strlit("af_alloy");
    reveal_strlit("af_aoede");
    reveal_strlit("af_bella");
    reveal_strlit("af_heart");
    reveal_strlit("af_jessica");
    reveal_strlit("af_kore");
    reveal_strlit("af_nicole");
    reveal_strlit("af_nova");
    reveal_strlit("af_river");
    reveal_strlit("af_sarah");
    reveal_strlit("af_sky");
    reveal_strlit("am_adam");
    reveal_strlit("am_echo");
    reveal_strlit("am_eric");
    reveal_strlit("am_fenrir");
    reveal_strlit("am_liam");
    reveal_strlit("am_michael");
    reveal_strlit("am_onyx");
    reveal_strlit("am_puck");
    reveal_strlit("am_santa");
    reveal_strlit("bf_alice");
    reveal_strlit("bf_emma");
    reveal_strlit("bf_isabella");
    reveal_strlit("bf_lily");
    reveal_strlit("bm_daniel");
    reveal_strlit("bm_fable");
    reveal_strlit("bm_george");
    reveal_strlit("bm_lewis");
    let ids = voice_ids();
    assert forall|i: int| 0 <= i < ids.len() implies plain_voice(#[trigger] ids[i]) by {
        lemma_plain(ids[i]);
    }
    assert(ids[2] == DEFAULT_VOICE@);
    assert forall|i: int, j: int| 0 <= i < ids.len() && 0 <= j < ids.len() && i != j implies ids[i]
        != ids[j] by {
        let (x, y) = (ids[i], ids[j]);
        assert(x[0] != y[0] || x[1] != y[1] || x[3] != y[3] || x[4] != y[4] || x[5] != y[5]);
    }
}

/// The label of a voice: its name with the first character in upper case, and then in brackets the
/// region, `US`, `UK` or else the region's letter in upper case, and the gender, `F` or `M`.
pub proof fn law_label_of_a_voice(region: char, gender: char, first: char, rest: Seq<char>)
    requires
        region <= '\u{7f}',
        region != '_',
        gender == 'f' || gender == 'm',
    ensures
        label_of(seq![region, gender, '_', first] + rest) == upper(first) + rest + (if region
            == 'a' {
            " (US "@
        } else if region == 'b' {
            " (UK "@
        } else {
            " ("@ + upper(region) + " "@
        }) + (if gender == 'f' {
            "F)"@
        } else {
            "M)"@
        }),
{
    reveal_strlit(" (US ");
    reveal_strlit(" (UK ");
    reveal_strlit("US");
    reveal_strlit("UK");
    reveal_strlit(" (");
    reveal_strlit(" ");
    reveal_strlit("F");
    reveal_strlit("M");
    reveal_strlit(")");
    reveal_strlit("F)");
    reveal_strlit("M)");
    let id = seq![region, gender, '_', first] + rest;
    assert(id[0] == region && id[1] == gender && id[2] == '_' && id[3] == first);
    lemma_first_at(id, exactly('_'), 2);
    assert(id.skip(4) =~= rest);
    assert(names_voice(id));
    assert(label_of(id) =~= upper(first) + rest + (if region == 'a' {
        " (US "@
    } else if region == 'b' {
        " (UK "@
    } else {
        " ("@ + upper(region) + " "@
    }) + (if gender == 'f' {
        "F)"@
    } else {
        "M)"@
    }));
}

/// What does not begin with a region of ASCII, a gender and an underscore, or ends there, is its own
/// label.
pub proof fn law_no_voice_is_its_own_label(id: Seq<char>)
    requires
        !(id.len() > 3 && id[0] <= '\u{7f}' && id[0] != '_' && (id[1] == 'f' || id[1] == 'm')
            && id[2] == '_'),
    ensures
        label_of(id) == id,
{
    lemma_first_at_found(id, exactly('_'));
    if names_voice(id) {
        assert(exactly('_')(id[2]));
        assert(!exactly('_')(id[0]));
    }
}

/// Upper case in ASCII: the small letters become the capital letters, in the same order, and every
/// other character stays what it is.
pub proof fn law_upper_case(c: char)
    requires
        c <= '\u{7f}',
    ensures
        'a' <= c <= 'z' ==> upper(c).len() == 1 && 'A' <= upper(c)[0] <= 'Z' && upper(c)[0] as int
            - 'A' as int == c as int - 'a' as int,
        !('a' <= c <= 'z') ==> upper(c) == seq![c],
{
}

} // verus!
