use vnkey::{transform_word, InputMethod};

fn both(raw: &str) -> (String, String) {
    (transform_word(raw, InputMethod::Telex), transform_word(raw, InputMethod::Vni))
}

#[test]
fn empty_input_gives_empty_output() {
    assert_eq!(both(""), (String::new(), String::new()));
}

#[test]
fn text_without_letters_or_digits_is_kept() {
    for raw in ["...", " , ; ", "—!?", "\n\t"] {
        assert_eq!(both(raw), (raw.to_string(), raw.to_string()));
    }
}

#[test]
fn words_are_composed_one_by_one() {
    let whole = transform_word("Tieengs Vieetj", InputMethod::Telex);
    let parts = format!(
        "{} {}",
        transform_word("Tieengs", InputMethod::Telex),
        transform_word("Vieetj", InputMethod::Telex)
    );
    assert_eq!(whole, "Tiếng Việt");
    assert_eq!(whole, parts);
    assert_eq!(transform_word("xin chaof, bajn!", InputMethod::Telex), "xin chào, bajn!");
    assert_eq!(transform_word("hoa2 ho62ng", InputMethod::Vni), "hòa hò6ng");
}

#[test]
fn a_single_run_is_one_syllable() {
    assert_eq!(transform_word("muoons", InputMethod::Telex), "muốn");
    assert_eq!(transform_word("as", InputMethod::Telex), "á");
}

#[test]
fn composing_never_lengthens() {
    for raw in ["thuowwng", "nghieenj", "a b c", "d9a6y", "Vie65t5", "!!x!!", "ddaay"] {
        for method in [InputMethod::Telex, InputMethod::Vni] {
            let out = transform_word(raw, method);
            assert!(out.chars().count() <= raw.chars().count(), "raw={raw}");
        }
    }
}

#[test]
fn telex_dd_gives_d_with_stroke_in_either_case() {
    assert_eq!(transform_word("ddi", InputMethod::Telex), "đi");
    assert_eq!(transform_word("DDaay", InputMethod::Telex), "Đây");
}

#[test]
fn telex_w_gives_breve_and_horn() {
    assert_eq!(transform_word("awn", InputMethod::Telex), "ăn");
    assert_eq!(transform_word("owf", InputMethod::Telex), "ờ");
}

#[test]
fn telex_keeps_upper_case() {
    assert_eq!(transform_word("VIEETJ", InputMethod::Telex), "VIỆT");
}

#[test]
fn telex_tone_key_needs_a_reshaping_key_after_it() {
    assert_eq!(transform_word("case", InputMethod::Telex), "case");
    assert_eq!(transform_word("nhungxw", InputMethod::Telex), "những");
    assert_eq!(transform_word("bajn", InputMethod::Telex), "bajn");
}

#[test]
fn vni_shape_digits() {
    assert_eq!(transform_word("d9a6y", InputMethod::Vni), "đa6y");
    assert_eq!(transform_word("Vie65t5", InputMethod::Vni), "Viẹ65t");
    assert_eq!(transform_word("thuong7", InputMethod::Vni), "thương");
    assert_eq!(transform_word("thuo7ng", InputMethod::Vni), "thuo7ng");
}

#[test]
fn vni_keeps_text_without_digits() {
    for raw in ["Xin chao cac ban, hom nay troi dep!", "thuong", "Nguyen Van A", "aaa dd ww"] {
        assert_eq!(transform_word(raw, InputMethod::Vni), raw);
    }
}

#[test]
fn telex_keeps_plain_letters() {
    for raw in ["buzz", "Kino", "hello", "ban", "quy"] {
        assert_eq!(transform_word(raw, InputMethod::Telex), raw);
    }
}
