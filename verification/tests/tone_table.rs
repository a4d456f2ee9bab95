use vnkey::tone::{apply_tone, detect_tone, is_vowel_or_marked, strip_tone, tone_mark};
use vnkey::Tone;

const TONES: [Tone; 6] = [Tone::Level, Tone::Acute, Tone::Grave, Tone::Hook, Tone::Tilde, Tone::Dot];
const BASES: &str = "aăâeêioôơuưyAĂÂEÊIOÔƠUƯY";

#[test]
fn tone_mark_gives_the_toned_vowel() {
    assert_eq!(tone_mark('a', Tone::Acute), 'á');
    assert_eq!(tone_mark('ư', Tone::Dot), 'ự');
    assert_eq!(tone_mark('Ô', Tone::Tilde), 'Ỗ');
    assert_eq!(tone_mark('b', Tone::Hook), 'b');
}

#[test]
fn strip_and_detect_undo_tone_mark() {
    for base in BASES.chars() {
        for tone in TONES {
            let marked = tone_mark(base, tone);
            assert_eq!(strip_tone(marked), base);
            assert_eq!(detect_tone(marked), tone);
            assert!(is_vowel_or_marked(marked));
        }
    }
}

#[test]
fn every_character_is_its_base_with_its_tone() {
    for ch in "aáẶỵxđ1 Đ".chars() {
        assert_eq!(tone_mark(strip_tone(ch), detect_tone(ch)), ch);
        assert_eq!(strip_tone(strip_tone(ch)), strip_tone(ch));
    }
}

#[test]
fn apply_tone_marks_the_right_vowel() {
    let mut chars: Vec<char> = "hoa".chars().collect();
    apply_tone(&mut chars, Tone::Grave);
    assert_eq!(chars.iter().collect::<String>(), "hòa");

    let mut chars: Vec<char> = "quyen".chars().collect();
    apply_tone(&mut chars, Tone::Acute);
    assert_eq!(chars.iter().collect::<String>(), "quyén");

    let mut chars: Vec<char> = "thuơng".chars().collect();
    apply_tone(&mut chars, Tone::Level);
    assert_eq!(chars.iter().collect::<String>(), "thuơng");

    let mut chars: Vec<char> = "xyz".chars().collect();
    apply_tone(&mut chars, Tone::Dot);
    assert_eq!(chars.iter().collect::<String>(), "xỵz");

    let mut chars: Vec<char> = "brr".chars().collect();
    apply_tone(&mut chars, Tone::Dot);
    assert_eq!(chars.iter().collect::<String>(), "brr");
}
