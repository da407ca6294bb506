use otoha::voice::{voice_label, voices, DEFAULT_VOICE};

#[test]
fn labels_of_known_voices() {
    assert_eq!(voice_label("af_bella"), "Bella (US F)");
    assert_eq!(voice_label("am_adam"), "Adam (US M)");
    assert_eq!(voice_label("bf_emma"), "Emma (UK F)");
    assert_eq!(voice_label("bm_lewis"), "Lewis (UK M)");
}

#[test]
fn other_regions_are_shown_by_their_letter() {
    assert_eq!(voice_label("ef_dora"), "Dora (E F)");
    assert_eq!(voice_label("Em_x"), "X (E M)");
    assert_eq!(voice_label("1m_x"), "X (1 M)");
}

#[test]
fn names_are_capitalised_as_unicode_has_it() {
    assert_eq!(voice_label("af_élan"), "Élan (US F)");
    assert_eq!(voice_label("af_ßa"), "SSa (US F)");
    assert_eq!(voice_label("af_a_b"), "A_b (US F)");
    assert_eq!(voice_label("af_漢字"), "漢字 (US F)");
}

#[test]
fn what_is_no_voice_is_its_own_label() {
    for id in ["", "_", "af", "af_", "ax_bella", "a_bella", "aff_bella", "éf_x", "é_x", "bella"] {
        assert_eq!(voice_label(id), id);
    }
}

#[test]
fn voices_on_offer_are_told_apart() {
    let ids = voices();
    assert_eq!(ids.len(), 28);
    assert_eq!(ids[0], "af_alloy");
    assert_eq!(ids[27], "bm_lewis");
    assert!(ids.contains(&DEFAULT_VOICE));
    for (i, a) in ids.iter().enumerate() {
        assert_ne!(voice_label(a), *a);
        for b in &ids[i + 1..] {
            assert_ne!(a, b);
            assert_ne!(voice_label(a), voice_label(b));
        }
    }
}

#[test]
fn label_is_its_own_label() {
    for id in voices() {
        let label = voice_label(id);
        assert_eq!(voice_label(&label), label);
    }
    for id in ["", "_", "af_", "bella", "1m_x", "af_ßa", "ef_Dora"] {
        let label = voice_label(id);
        assert_eq!(voice_label(&label), label);
    }
    // Whatever character the name begins with.
    for c in (0..=0x10ffff).filter_map(char::from_u32).filter(|c| *c != '_') {
        let label = voice_label(&format!("af_{c}x"));
        assert_eq!(voice_label(&label), label);
    }
}

#[test]
fn second_underscore_may_make_a_label_a_voice() {
    assert_eq!(voice_label("af_xf_abc"), "Xf_abc (US F)");
    assert_eq!(voice_label("Xf_abc (US F)"), "Abc (US F) (X F)");
}
