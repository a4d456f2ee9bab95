//! Vietnamese vowels, their six tone marks, and where a syllable takes its tone.
use vstd::prelude::*;

use crate::text::{ascii_lower, spec_ascii_lower};
use crate::Tone;

verus! {

/// Rank of a tone in every row of the tone table: level first, then acute,
/// grave, hook, tilde and dot.
pub open spec fn tone_rank(tone: Tone) -> int {
    match tone {
        Tone::Level => 0,
        Tone::Acute => 1,
        Tone::Grave => 2,
        Tone::Hook => 3,
        Tone::Tilde => 4,
        Tone::Dot => 5,
    }
}

/// The row of the tone table for a toneless base vowel: the vowel itself
/// followed by its acute, grave, hook, tilde and dot forms.
/// Characters that are not base vowels have no row.
pub open spec fn tone_row(base: char) -> Option<Seq<char>> {
    match base {
        'a' => Some(seq!['a', 'á', 'à', 'ả', 'ã', 'ạ']),
        'ă' => Some(seq!['ă', 'ắ', 'ằ', 'ẳ', 'ẵ', 'ặ']),
        'â' => Some(seq!['â', 'ấ', 'ầ', 'ẩ', 'ẫ', 'ậ']),
        'e' => Some(seq!['e', 'é', 'è', 'ẻ', 'ẽ', 'ẹ']),
        'ê' => Some(seq!['ê', 'ế', 'ề', 'ể', 'ễ', 'ệ']),
        'i' => Some(seq!['i', 'í', 'ì', 'ỉ', 'ĩ', 'ị']),
        'o' => Some(seq!['o', 'ó', 'ò', 'ỏ', 'õ', 'ọ']),
        'ô' => Some(seq!['ô', 'ố', 'ồ', 'ổ', 'ỗ', 'ộ']),
        'ơ' => Some(seq!['ơ', 'ớ', 'ờ', 'ở', 'ỡ', 'ợ']),
        'u' => Some(seq!['u', 'ú', 'ù', 'ủ', 'ũ', 'ụ']),
        'ư' => Some(seq!['ư', 'ứ', 'ừ', 'ử', 'ữ', 'ự']),
        'y' => Some(seq!['y', 'ý', 'ỳ', 'ỷ', 'ỹ', 'ỵ']),
        'A' => Some(seq!['A', 'Á', 'À', 'Ả', 'Ã', 'Ạ']),
        'Ă' => Some(seq!['Ă', 'Ắ', 'Ằ', 'Ẳ', 'Ẵ', 'Ặ']),
        'Â' => Some(seq!['Â', 'Ấ', 'Ầ', 'Ẩ', 'Ẫ', 'Ậ']),
        'E' => Some(seq!['E', 'É', 'È', 'Ẻ', 'Ẽ', 'Ẹ']),
        'Ê' => Some(seq!['Ê', 'Ế', 'Ề', 'Ể', 'Ễ', 'Ệ']),
        'I' => Some(seq!['I', 'Í', 'Ì', 'Ỉ', 'Ĩ', 'Ị']),
        'O' => Some(seq!['O', 'Ó', 'Ò', 'Ỏ', 'Õ', 'Ọ']),
        'Ô' => Some(seq!['Ô', 'Ố', 'Ồ', 'Ổ', 'Ỗ', 'Ộ']),
        'Ơ' => Some(seq!['Ơ', 'Ớ', 'Ờ', 'Ở', 'Ỡ', 'Ợ']),
        'U' => Some(seq!['U', 'Ú', 'Ù', 'Ủ', 'Ũ', 'Ụ']),
        'Ư' => Some(seq!['Ư', 'Ứ', 'Ừ', 'Ử', 'Ữ', 'Ự']),
        'Y' => Some(seq!['Y', 'Ý', 'Ỳ', 'Ỷ', 'Ỹ', 'Ỵ']),
        _ => None,
    }
}

/// `ch` carrying `tone`: the entry of its row at the tone's rank;
/// a character without a row is left as it is.
pub open spec fn spec_tone_mark(ch: char, tone: Tone) -> char {
    match tone_row(ch) {
        Some(row) => row[tone_rank(tone)],
        None => ch,
    }
}

/// The toneless form of a toned vowel; every other character maps to itself.
pub open spec fn spec_strip_tone(ch: char) -> char {
    match ch {
        'á' | 'à' | 'ả' | 'ã' | 'ạ' => 'a',
        'ắ' | 'ằ' | 'ẳ' | 'ẵ' | 'ặ' => 'ă',
        'ấ' | 'ầ' | 'ẩ' | 'ẫ' | 'ậ' => 'â',
        'é' | 'è' | 'ẻ' | 'ẽ' | 'ẹ' => 'e',
        'ế' | 'ề' | 'ể' | 'ễ' | 'ệ' => 'ê',
        'í' | 'ì' | 'ỉ' | 'ĩ' | 'ị' => 'i',
        'ó' | 'ò' | 'ỏ' | 'õ' | 'ọ' => 'o',
        'ố' | 'ồ' | 'ổ' | 'ỗ' | 'ộ' => 'ô',
        'ớ' | 'ờ' | 'ở' | 'ỡ' | 'ợ' => 'ơ',
        'ú' | 'ù' | 'ủ' | 'ũ' | 'ụ' => 'u',
        'ứ' | 'ừ' | 'ử' | 'ữ' | 'ự' => 'ư',
        'ý' | 'ỳ' | 'ỷ' | 'ỹ' | 'ỵ' => 'y',
        'Á' | 'À' | 'Ả' | 'Ã' | 'Ạ' => 'A',
        'Ắ' | 'Ằ' | 'Ẳ' | 'Ẵ' | 'Ặ' => 'Ă',
        'Ấ' | 'Ầ' | 'Ẩ' | 'Ẫ' | 'Ậ' => 'Â',
        'É' | 'È' | 'Ẻ' | 'Ẽ' | 'Ẹ' => 'E',
        'Ế' | 'Ề' | 'Ể' | 'Ễ' | 'Ệ' => 'Ê',
        'Í' | 'Ì' | 'Ỉ' | 'Ĩ' | 'Ị' => 'I',
        'Ó' | 'Ò' | 'Ỏ' | 'Õ' | 'Ọ' => 'O',
        'Ố' | 'Ồ' | 'Ổ' | 'Ỗ' | 'Ộ' => 'Ô',
        'Ớ' | 'Ờ' | 'Ở' | 'Ỡ' | 'Ợ' => 'Ơ',
        'Ú' | 'Ù' | 'Ủ' | 'Ũ' | 'Ụ' => 'U',
        'Ứ' | 'Ừ' | 'Ử' | 'Ữ' | 'Ự' => 'Ư',
        'Ý' | 'Ỳ' | 'Ỷ' | 'Ỹ' | 'Ỵ' => 'Y',
        _ => ch,
    }
}

/// The tone that `ch` carries: the first of acute, grave, hook, tilde and dot
/// that marks the toneless form of `ch` into `ch` itself, else level.
pub open spec fn spec_detect_tone(ch: char) -> Tone {
    let base = spec_strip_tone(ch);
    if spec_tone_mark(base, Tone::Acute) == ch {
        Tone::Acute
    } else if spec_tone_mark(base, Tone::Grave) == ch {
        Tone::Grave
    } else if spec_tone_mark(base, Tone::Hook) == ch {
        Tone::Hook
    } else if spec_tone_mark(base, Tone::Tilde) == ch {
        Tone::Tilde
    } else if spec_tone_mark(base, Tone::Dot) == ch {
        Tone::Dot
    } else {
        Tone::Level
    }
}

/// The 24 toneless vowels, lower and upper case.
pub open spec fn spec_is_vowel(ch: char) -> bool {
    tone_row(ch) is Some
}

/// A vowel with or without a tone mark.
pub open spec fn spec_is_vowel_or_marked(ch: char) -> bool {
    spec_is_vowel(spec_strip_tone(ch))
}

/// The vowels with a shape mark (breve, circumflex or horn), which take the
/// tone before any other vowel of the syllable.
pub open spec fn spec_is_priority_vowel(ch: char) -> bool {
    let b = spec_strip_tone(ch);
    b == 'ă' || b == 'â' || b == 'ê' || b == 'ô' || b == 'ơ' || b == 'ư' || b == 'Ă' || b == 'Â'
        || b == 'Ê' || b == 'Ô' || b == 'Ơ' || b == 'Ư'
}

/// The positions of the vowels of `s` (toned or not), in increasing order.
pub open spec fn vowel_positions(s: Seq<char>) -> Seq<int>
    decreases s.len(),
{
    if s.len() == 0 {
        Seq::empty()
    } else {
        let rest = vowel_positions(s.drop_last());
        if spec_is_vowel_or_marked(s.last()) {
            rest.push(s.len() - 1)
        } else {
            rest
        }
    }
}

/// `s` begins with "qu" or "gi", in any case.
pub open spec fn starts_with_qu_or_gi(s: Seq<char>) -> bool {
    &&& s.len() >= 2
    &&& ((s[0] == 'q' || s[0] == 'Q') && (s[1] == 'u' || s[1] == 'U')) || ((s[0] == 'g'
        || s[0] == 'G') && (s[1] == 'i' || s[1] == 'I'))
}

/// The vowels that can carry the tone: in a syllable that begins with "qu" or
/// "gi" and has a further vowel, the `u` or `i` right after the first letter belongs to
/// the initial consonant and is left out.
pub open spec fn effective_positions(s: Seq<char>, vowels: Seq<int>) -> Seq<int> {
    if vowels.len() < 2 || vowels[0] != 1 || s.len() < 2 {
        vowels
    } else if starts_with_qu_or_gi(s) {
        vowels.drop_first()
    } else {
        vowels
    }
}

/// The first of `positions[k..]` whose character is a priority vowel.
pub open spec fn first_priority_from(s: Seq<char>, positions: Seq<int>, k: int) -> Option<int>
    decreases positions.len() - k,
{
    if k < 0 || k >= positions.len() {
        None
    } else if spec_is_priority_vowel(s[positions[k]]) {
        Some(positions[k])
    } else {
        first_priority_from(s, positions, k + 1)
    }
}

/// The position in `s` that takes the tone, if `s` has a vowel: the first
/// priority vowel; else the middle one of three or more vowels; of two vowels
/// the first when the syllable ends in the second, does not start with it,
/// does not start with "qu" or "gi", and the first is not an `i`, else the second;
/// a single vowel takes it.
pub open spec fn tone_target(s: Seq<char>) -> Option<int> {
    let vowels = vowel_positions(s);
    if vowels.len() == 0 {
        None
    } else {
        let eff = effective_positions(s, vowels);
        match first_priority_from(s, eff, 0) {
            Some(p) => Some(p),
            None => if eff.len() >= 3 {
                Some(eff[1])
            } else if eff.len() == 2 {
                let first = eff[0];
                let second = eff[1];
                if second + 1 == s.len() && first != 0 && !starts_with_qu_or_gi(s)
                    && spec_ascii_lower(spec_strip_tone(s[first])) != 'i' {
                    Some(first)
                } else {
                    Some(second)
                }
            } else {
                Some(eff[0])
            },
        }
    }
}

/// `s` with `tone` put on the vowel that takes the tone (replacing any tone it had);
/// unchanged for the level tone or when `s` has no vowel.
pub open spec fn spec_apply_tone(s: Seq<char>, tone: Tone) -> Seq<char> {
    if tone == Tone::Level {
        s
    } else {
        match tone_target(s) {
            Some(i) => s.update(i, spec_tone_mark(spec_strip_tone(s[i]), tone)),
            None => s,
        }
    }
}

/// The integer values of a sequence of indices.
pub open spec fn as_ints(v: Seq<usize>) -> Seq<int> {
    v.map_values(|x: usize| x as int)
}

/// Giving a toneless vowel a tone and then removing it gives the vowel back,
/// and the tone read off the marked vowel is the tone that was given.
pub proof fn law_tone_mark_round_trip(base: char, tone: Tone)
    requires
        spec_is_vowel(base),
    ensures
        spec_strip_tone(spec_tone_mark(base, tone)) == base,
        spec_detect_tone(spec_tone_mark(base, tone)) == tone,
{
}

/// Every character is its toneless form carrying the tone read off it.
pub proof fn law_tone_decomposition(ch: char)
    ensures
        spec_tone_mark(spec_strip_tone(ch), spec_detect_tone(ch)) == ch,
{
}

/// Removing the tone twice is the same as removing it once.
pub proof fn law_strip_tone_idempotent(ch: char)
    ensures
        spec_strip_tone(spec_strip_tone(ch)) == spec_strip_tone(ch),
{
}

/// Putting a tone on a syllable keeps its length and the toneless form of every
/// letter; when the tone is not level and the syllable has a vowel, the vowel
/// that takes the tone then carries exactly that tone.
pub proof fn law_apply_tone_changes_only_the_tone(s: Seq<char>, tone: Tone)
    ensures
        spec_apply_tone(s, tone).len() == s.len(),
        forall|i: int|
            0 <= i < s.len() ==> spec_strip_tone(#[trigger] spec_apply_tone(s, tone)[i])
                == spec_strip_tone(s[i]),
        tone != Tone::Level ==> (tone_target(s) matches Some(i) ==> spec_detect_tone(
            spec_apply_tone(s, tone)[i],
        ) == tone),
{
    lemma_tone_target_in_bounds(s);
    if tone != Tone::Level {
        if let Some(i) = tone_target(s) {
            law_tone_mark_round_trip(spec_strip_tone(s[i]), tone);
        }
    }
}

/// The code points of `base` carrying, in turn, the level, acute, grave, hook,
/// tilde and dot tones.
pub open spec fn codes_of_row(base: char) -> Seq<u32> {
    seq![
        spec_tone_mark(base, Tone::Level) as u32,
        spec_tone_mark(base, Tone::Acute) as u32,
        spec_tone_mark(base, Tone::Grave) as u32,
        spec_tone_mark(base, Tone::Hook) as u32,
        spec_tone_mark(base, Tone::Tilde) as u32,
        spec_tone_mark(base, Tone::Dot) as u32,
    ]
}

/// Every toned vowel is the precomposed Unicode letter for its base and tone: the
/// canonical composition of the base with U+0301 (acute), U+0300 (grave), U+0309
/// (hook above), U+0303 (tilde) or U+0323 (dot below); the level tone leaves the
/// base as it is.
pub proof fn law_tone_mark_is_unicode_composition()
    ensures
        codes_of_row('a') == seq![0x61u32, 0xE1u32, 0xE0u32, 0x1EA3u32, 0xE3u32, 0x1EA1u32],
        codes_of_row('ă') == seq![0x103u32, 0x1EAFu32, 0x1EB1u32, 0x1EB3u32, 0x1EB5u32, 0x1EB7u32],
        codes_of_row('â') == seq![0xE2u32, 0x1EA5u32, 0x1EA7u32, 0x1EA9u32, 0x1EABu32, 0x1EADu32],
        codes_of_row('e') == seq![0x65u32, 0xE9u32, 0xE8u32, 0x1EBBu32, 0x1EBDu32, 0x1EB9u32],
        codes_of_row('ê') == seq![0xEAu32, 0x1EBFu32, 0x1EC1u32, 0x1EC3u32, 0x1EC5u32, 0x1EC7u32],
        codes_of_row('i') == seq![0x69u32, 0xEDu32, 0xECu32, 0x1EC9u32, 0x129u32, 0x1ECBu32],
        codes_of_row('o') == seq![0x6Fu32, 0xF3u32, 0xF2u32, 0x1ECFu32, 0xF5u32, 0x1ECDu32],
        codes_of_row('ô') == seq![0xF4u32, 0x1ED1u32, 0x1ED3u32, 0x1ED5u32, 0x1ED7u32, 0x1ED9u32],
        codes_of_row('ơ') == seq![0x1A1u32, 0x1EDBu32, 0x1EDDu32, 0x1EDFu32, 0x1EE1u32, 0x1EE3u32],
        codes_of_row('u') == seq![0x75u32, 0xFAu32, 0xF9u32, 0x1EE7u32, 0x169u32, 0x1EE5u32],
        codes_of_row('ư') == seq![0x1B0u32, 0x1EE9u32, 0x1EEBu32, 0x1EEDu32, 0x1EEFu32, 0x1EF1u32],
        codes_of_row('y') == seq![0x79u32, 0xFDu32, 0x1EF3u32, 0x1EF7u32, 0x1EF9u32, 0x1EF5u32],
        codes_of_row('A') == seq![0x41u32, 0xC1u32, 0xC0u32, 0x1EA2u32, 0xC3u32, 0x1EA0u32],
        codes_of_row('Ă') == seq![0x102u32, 0x1EAEu32, 0x1EB0u32, 0x1EB2u32, 0x1EB4u32, 0x1EB6u32],
        codes_of_row('Â') == seq![0xC2u32, 0x1EA4u32, 0x1EA6u32, 0x1EA8u32, 0x1EAAu32, 0x1EACu32],
        codes_of_row('E') == seq![0x45u32, 0xC9u32, 0xC8u32, 0x1EBAu32, 0x1EBCu32, 0x1EB8u32],
        codes_of_row('Ê') == seq![0xCAu32, 0x1EBEu32, 0x1EC0u32, 0x1EC2u32, 0x1EC4u32, 0x1EC6u32],
        codes_of_row('I') == seq![0x49u32, 0xCDu32, 0xCCu32, 0x1EC8u32, 0x128u32, 0x1ECAu32],
        codes_of_row('O') == seq![0x4Fu32, 0xD3u32, 0xD2u32, 0x1ECEu32, 0xD5u32, 0x1ECCu32],
        codes_of_row('Ô') == seq![0xD4u32, 0x1ED0u32, 0x1ED2u32, 0x1ED4u32, 0x1ED6u32, 0x1ED8u32],
        codes_of_row('Ơ') == seq![0x1A0u32, 0x1EDAu32, 0x1EDCu32, 0x1EDEu32, 0x1EE0u32, 0x1EE2u32],
        codes_of_row('U') == seq![0x55u32, 0xDAu32, 0xD9u32, 0x1EE6u32, 0x168u32, 0x1EE4u32],
        codes_of_row('Ư') == seq![0x1AFu32, 0x1EE8u32, 0x1EEAu32, 0x1EECu32, 0x1EEEu32, 0x1EF0u32],
        codes_of_row('Y') == seq![0x59u32, 0xDDu32, 0x1EF2u32, 0x1EF6u32, 0x1EF8u32, 0x1EF4u32],
{
}

/// Where a syllable has exactly three vowels, next to each other, none with a shape
/// mark, and it does not begin with "qu" or "gi" right before them, the tone goes on
/// the middle vowel and nowhere else.
pub proof fn law_three_vowels_tone_on_middle(s: Seq<char>, p: int, tone: Tone)
    requires
        0 <= p,
        p + 3 <= s.len(),
        forall|i: int| 0 <= i < s.len() ==> (spec_is_vowel_or_marked(#[trigger] s[i]) <==> (p
            <= i < p + 3)),
        forall|i: int| p <= i < p + 3 ==> !spec_is_priority_vowel(#[trigger] s[i]),
        !(p == 1 && starts_with_qu_or_gi(s)),
        tone != Tone::Level,
    ensures
        spec_apply_tone(s, tone) == s.update(p + 1, spec_tone_mark(spec_strip_tone(s[p + 1]), tone)),
{
    lemma_vowel_positions_range(s, p, p + 3);
    let vowels = vowel_positions(s);
    assert(vowels =~= seq![p, p + 1, p + 2]);
    let eff = effective_positions(s, vowels);
    assert(eff == vowels);
    assert(!spec_is_priority_vowel(s[p]));
    assert(!spec_is_priority_vowel(s[p + 1]));
    assert(!spec_is_priority_vowel(s[p + 2]));
    assert(eff[0] == p && eff[1] == p + 1 && eff[2] == p + 2);
    assert(first_priority_from(s, eff, 3) is None);
    assert(first_priority_from(s, eff, 2) is None);
    assert(first_priority_from(s, eff, 1) is None);
    assert(first_priority_from(s, eff, 0) is None);
    assert(tone_target(s) == Some(p + 1));
}

/// A consonant followed by a toneless vowel takes the tone on the vowel.
pub proof fn law_consonant_vowel_tone_on_vowel(c: char, v: char, tone: Tone)
    requires
        !spec_is_vowel_or_marked(c),
        spec_is_vowel(v),
    ensures
        spec_apply_tone(seq![c, v], tone) == seq![c, spec_tone_mark(v, tone)],
{
    let t = seq![c, v];
    assert(spec_is_vowel_or_marked(v));
    let e = Seq::<char>::empty();
    assert(t.drop_last().drop_last() =~= e);
    assert(vowel_positions(e) =~= Seq::<int>::empty());
    assert(vowel_positions(t.drop_last()) =~= Seq::<int>::empty());
    assert(vowel_positions(t) =~= seq![1int]);
    let eff = effective_positions(t, seq![1int]);
    assert(eff =~= seq![1int]);
    if spec_is_priority_vowel(v) {
        assert(first_priority_from(t, eff, 0) == Some(1int));
    } else {
        assert(first_priority_from(t, eff, 1) is None);
        assert(first_priority_from(t, eff, 0) is None);
    }
    assert(tone_target(t) == Some(1int));
    assert(spec_strip_tone(v) == v);
    assert(spec_apply_tone(t, tone) =~= seq![c, spec_tone_mark(v, tone)]);
}

/// Where a syllable has exactly two vowels, next to each other, neither with a shape
/// mark, after at least one consonant, and it does not begin with "qu" or "gi":
/// when the syllable ends in the second vowel the tone goes on the first, unless
/// that is an `i`; when a final consonant follows, the tone goes on the second.
pub proof fn law_two_vowels_tone_placement(s: Seq<char>, p: int, tone: Tone)
    requires
        1 <= p,
        p + 2 <= s.len(),
        forall|i: int| 0 <= i < s.len() ==> (spec_is_vowel_or_marked(#[trigger] s[i]) <==> (p
            <= i < p + 2)),
        !spec_is_priority_vowel(s[p]),
        !spec_is_priority_vowel(s[p + 1]),
        !starts_with_qu_or_gi(s),
        tone != Tone::Level,
    ensures
        p + 2 == s.len() && spec_strip_tone(s[p]) != 'i' && spec_strip_tone(s[p]) != 'I'
            ==> spec_apply_tone(s, tone) == s.update(p, spec_tone_mark(spec_strip_tone(s[p]), tone)),
        p + 2 == s.len() && (spec_strip_tone(s[p]) == 'i' || spec_strip_tone(s[p]) == 'I')
            ==> spec_apply_tone(s, tone) == s.update(
            p + 1,
            spec_tone_mark(spec_strip_tone(s[p + 1]), tone),
        ),
        p + 2 < s.len() ==> spec_apply_tone(s, tone) == s.update(
            p + 1,
            spec_tone_mark(spec_strip_tone(s[p + 1]), tone),
        ),
{
    lemma_vowel_positions_range(s, p, p + 2);
    let vowels = vowel_positions(s);
    assert(vowels =~= seq![p, p + 1]);
    let eff = effective_positions(s, vowels);
    assert(eff == vowels);
    assert(eff[0] == p && eff[1] == p + 1);
    assert(first_priority_from(s, eff, 2) is None);
    assert(first_priority_from(s, eff, 1) is None);
    assert(first_priority_from(s, eff, 0) is None);
    let b = spec_strip_tone(s[p]);
    assert(spec_ascii_lower(b) == 'i' <==> (b == 'i' || b == 'I'));
}

/// In a syllable that begins with "qu" or "gi" and has one more vowel right after,
/// and no other, the `u` or `i` belongs to the initial consonant: the tone goes on
/// the vowel after it.
pub proof fn law_qu_gi_tone_skips_the_glide(s: Seq<char>, tone: Tone)
    requires
        starts_with_qu_or_gi(s),
        s.len() >= 3,
        forall|i: int| 0 <= i < s.len() ==> (spec_is_vowel_or_marked(#[trigger] s[i]) <==> (1
            <= i < 3)),
        tone != Tone::Level,
    ensures
        spec_apply_tone(s, tone) == s.update(2, spec_tone_mark(spec_strip_tone(s[2]), tone)),
{
    lemma_vowel_positions_range(s, 1, 3);
    let vowels = vowel_positions(s);
    assert(vowels =~= seq![1int, 2int]);
    let eff = effective_positions(s, vowels);
    assert(eff =~= seq![2int]);
    if spec_is_priority_vowel(s[2]) {
        assert(first_priority_from(s, eff, 0) == Some(2int));
    } else {
        assert(first_priority_from(s, eff, 1) is None);
        assert(first_priority_from(s, eff, 0) is None);
    }
    assert(tone_target(s) == Some(2int));
}

/// Among the positions `a..b`, the first whose character has a shape mark is `k`.
proof fn lemma_first_priority_in_range(s: Seq<char>, a: int, b: int, k: int, j: int)
    requires
        a <= k < b,
        0 <= j <= k - a,
        spec_is_priority_vowel(s[k]),
        forall|i: int| a <= i < k ==> !spec_is_priority_vowel(#[trigger] s[i]),
    ensures
        first_priority_from(s, Seq::new((b - a) as nat, |i: int| a + i), j) == Some(k),
    decreases k - a - j,
{
    if j < k - a {
        assert(!spec_is_priority_vowel(s[a + j]));
        lemma_first_priority_in_range(s, a, b, k, j + 1);
    }
}

/// The first vowel with a shape mark (ă, â, ê, ô, ơ, ư, toned or not) takes the
/// tone, however many vowels the syllable has and wherever that one stands.
pub proof fn law_shape_marked_vowel_takes_tone(s: Seq<char>, p: int, q: int, k: int, tone: Tone)
    requires
        0 <= p <= k < q <= s.len(),
        forall|i: int| 0 <= i < s.len() ==> (spec_is_vowel_or_marked(#[trigger] s[i]) <==> (p
            <= i < q)),
        spec_is_priority_vowel(s[k]),
        forall|i: int| p <= i < k ==> !spec_is_priority_vowel(#[trigger] s[i]),
        tone != Tone::Level,
    ensures
        spec_apply_tone(s, tone) == s.update(k, spec_tone_mark(spec_strip_tone(s[k]), tone)),
{
    lemma_vowel_positions_range(s, p, q);
    let vowels = vowel_positions(s);
    let eff = effective_positions(s, vowels);
    if vowels.len() < 2 || vowels[0] != 1 || s.len() < 2 || !starts_with_qu_or_gi(s) {
        assert(eff == Seq::new((q - p) as nat, |i: int| p + i));
        lemma_first_priority_in_range(s, p, q, k, 0);
    } else {
        assert(p == 1);
        assert(spec_strip_tone(s[1]) == s[1]);
        assert(k != 1);
        assert(eff =~= Seq::new((q - (p + 1)) as nat, |i: int| (p + 1) + i));
        lemma_first_priority_in_range(s, p + 1, q, k, 0);
    }
    assert(tone_target(s) == Some(k));
}

/// The vowel positions of `s` when its vowels are exactly the positions `p..q`.
pub proof fn lemma_vowel_positions_range(s: Seq<char>, p: int, q: int)
    requires
        0 <= p <= q <= s.len(),
        forall|i: int| 0 <= i < s.len() ==> (spec_is_vowel_or_marked(#[trigger] s[i]) <==> (p
            <= i < q)),
    ensures
        vowel_positions(s) == Seq::new((q - p) as nat, |j: int| p + j),
    decreases s.len(),
{
    if s.len() == 0 {
        assert(vowel_positions(s) =~= Seq::new((q - p) as nat, |j: int| p + j));
    } else {
        let r = s.drop_last();
        let q2 = if q == s.len() {
            q - 1
        } else {
            q
        };
        let p2 = if p > q2 {
            q2
        } else {
            p
        };
        assert forall|i: int| 0 <= i < r.len() implies (spec_is_vowel_or_marked(#[trigger] r[i])
            <==> (p2 <= i < q2)) by {
            assert(r[i] == s[i]);
        }
        lemma_vowel_positions_range(r, p2, q2);
        assert(spec_is_vowel_or_marked(s[s.len() - 1]) <==> (p <= s.len() - 1 < q));
        assert(vowel_positions(s) =~= Seq::new((q - p) as nat, |j: int| p + j));
    }
}

/// Puts `tone` on the vowel of `chars` that takes it.
pub fn apply_tone(chars: &mut Vec<char>, tone: Tone)
    ensures
        final(chars)@ == spec_apply_tone(old(chars)@, tone),
{
    if tone == Tone::Level {
        return;
    }
    if let Some(idx) = find_tone_target(chars) {
        proof {
            lemma_tone_target_in_bounds(old(chars)@);
        }
        let marked = tone_mark(strip_tone(chars[idx]), tone);
        chars.set(idx, marked);
    }
}

/// Whether `ch` is a vowel, with or without a tone mark.
pub fn is_vowel_or_marked(ch: char) -> (r: bool)
    ensures
        r == spec_is_vowel_or_marked(ch),
{
    is_vowel(strip_tone(ch))
}

/// Removes the tone mark of a toned vowel.
pub fn strip_tone(ch: char) -> (r: char)
    ensures
        r == spec_strip_tone(ch),
{
    match ch {
        'á' | 'à' | 'ả' | 'ã' | 'ạ' => 'a',
        'ắ' | 'ằ' | 'ẳ' | 'ẵ' | 'ặ' => 'ă',
        'ấ' | 'ầ' | 'ẩ' | 'ẫ' | 'ậ' => 'â',
        'é' | 'è' | 'ẻ' | 'ẽ' | 'ẹ' => 'e',
        'ế' | 'ề' | 'ể' | 'ễ' | 'ệ' => 'ê',
        'í' | 'ì' | 'ỉ' | 'ĩ' | 'ị' => 'i',
        'ó' | 'ò' | 'ỏ' | 'õ' | 'ọ' => 'o',
        'ố' | 'ồ' | 'ổ' | 'ỗ' | 'ộ' => 'ô',
        'ớ' | 'ờ' | 'ở' | 'ỡ' | 'ợ' => 'ơ',
        'ú' | 'ù' | 'ủ' | 'ũ' | 'ụ' => 'u',
        'ứ' | 'ừ' | 'ử' | 'ữ' | 'ự' => 'ư',
        'ý' | 'ỳ' | 'ỷ' | 'ỹ' | 'ỵ' => 'y',
        'Á' | 'À' | 'Ả' | 'Ã' | 'Ạ' => 'A',
        'Ắ' | 'Ằ' | 'Ẳ' | 'Ẵ' | 'Ặ' => 'Ă',
        'Ấ' | 'Ầ' | 'Ẩ' | 'Ẫ' | 'Ậ' => 'Â',
        'É' | 'È' | 'Ẻ' | 'Ẽ' | 'Ẹ' => 'E',
        'Ế' | 'Ề' | 'Ể' | 'Ễ' | 'Ệ' => 'Ê',
        'Í' | 'Ì' | 'Ỉ' | 'Ĩ' | 'Ị' => 'I',
        'Ó' | 'Ò' | 'Ỏ' | 'Õ' | 'Ọ' => 'O',
        'Ố' | 'Ồ' | 'Ổ' | 'Ỗ' | 'Ộ' => 'Ô',
        'Ớ' | 'Ờ' | 'Ở' | 'Ỡ' | 'Ợ' => 'Ơ',
        'Ú' | 'Ù' | 'Ủ' | 'Ũ' | 'Ụ' => 'U',
        'Ứ' | 'Ừ' | 'Ử' | 'Ữ' | 'Ự' => 'Ư',
        'Ý' | 'Ỳ' | 'Ỷ' | 'Ỹ' | 'Ỵ' => 'Y',
        _ => ch,
    }
}

/// The tone that `ch` carries.
pub fn detect_tone(ch: char) -> (r: Tone)
    ensures
        r == spec_detect_tone(ch),
{
    let base = strip_tone(ch);
    let tones = [Tone::Acute, Tone::Grave, Tone::Hook, Tone::Tilde, Tone::Dot];
    let mut k: usize = 0;
    while k < 5
        invariant
            0 <= k <= 5,
            base == spec_strip_tone(ch),
            tones@ == seq![Tone::Acute, Tone::Grave, Tone::Hook, Tone::Tilde, Tone::Dot],
            forall|j: int| 0 <= j < k ==> spec_tone_mark(base, #[trigger] tones@[j]) != ch,
        decreases 5 - k,
    {
        let tone = tones[k];
        if tone_mark(base, tone) == ch {
            return tone;
        }
        k = k + 1;
    }
    Tone::Level
}

/// `ch` with `tone` put on it, when `ch` is a toneless vowel.
pub fn tone_mark(ch: char, tone: Tone) -> (r: char)
    ensures
        r == spec_tone_mark(ch, tone),
{
    let idx = tone_index(tone);
    match ch {
        'a' => ['a', 'á', 'à', 'ả', 'ã', 'ạ'][idx],
        'ă' => ['ă', 'ắ', 'ằ', 'ẳ', 'ẵ', 'ặ'][idx],
        'â' => ['â', 'ấ', 'ầ', 'ẩ', 'ẫ', 'ậ'][idx],
        'e' => ['e', 'é', 'è', 'ẻ', 'ẽ', 'ẹ'][idx],
        'ê' => ['ê', 'ế', 'ề', 'ể', 'ễ', 'ệ'][idx],
        'i' => ['i', 'í', 'ì', 'ỉ', 'ĩ', 'ị'][idx],
        'o' => ['o', 'ó', 'ò', 'ỏ', 'õ', 'ọ'][idx],
        'ô' => ['ô', 'ố', 'ồ', 'ổ', 'ỗ', 'ộ'][idx],
        'ơ' => ['ơ', 'ớ', 'ờ', 'ở', 'ỡ', 'ợ'][idx],
        'u' => ['u', 'ú', 'ù', 'ủ', 'ũ', 'ụ'][idx],
        'ư' => ['ư', 'ứ', 'ừ', 'ử', 'ữ', 'ự'][idx],
        'y' => ['y', 'ý', 'ỳ', 'ỷ', 'ỹ', 'ỵ'][idx],
        'A' => ['A', 'Á', 'À', 'Ả', 'Ã', 'Ạ'][idx],
        'Ă' => ['Ă', 'Ắ', 'Ằ', 'Ẳ', 'Ẵ', 'Ặ'][idx],
        'Â' => ['Â', 'Ấ', 'Ầ', 'Ẩ', 'Ẫ', 'Ậ'][idx],
        'E' => ['E', 'É', 'È', 'Ẻ', 'Ẽ', 'Ẹ'][idx],
        'Ê' => ['Ê', 'Ế', 'Ề', 'Ể', 'Ễ', 'Ệ'][idx],
        'I' => ['I', 'Í', 'Ì', 'Ỉ', 'Ĩ', 'Ị'][idx],
        'O' => ['O', 'Ó', 'Ò', 'Ỏ', 'Õ', 'Ọ'][idx],
        'Ô' => ['Ô', 'Ố', 'Ồ', 'Ổ', 'Ỗ', 'Ộ'][idx],
        'Ơ' => ['Ơ', 'Ớ', 'Ờ', 'Ở', 'Ỡ', 'Ợ'][idx],
        'U' => ['U', 'Ú', 'Ù', 'Ủ', 'Ũ', 'Ụ'][idx],
        'Ư' => ['Ư', 'Ứ', 'Ừ', 'Ử', 'Ữ', 'Ự'][idx],
        'Y' => ['Y', 'Ý', 'Ỳ', 'Ỷ', 'Ỹ', 'Ỵ'][idx],
        _ => ch,
    }
}

proof fn lemma_vowel_positions(s: Seq<char>)
    ensures
        forall|k: int|
            0 <= k < vowel_positions(s).len() ==> 0 <= #[trigger] vowel_positions(s)[k] < s.len(),
        forall|k: int, l: int|
            0 <= k < l < vowel_positions(s).len() ==> vowel_positions(s)[k]
                < vowel_positions(s)[l],
    decreases s.len(),
{
    if s.len() > 0 {
        let rest = s.drop_last();
        lemma_vowel_positions(rest);
        let vp = vowel_positions(s);
        let vr = vowel_positions(rest);
        assert(forall|k: int| 0 <= k < vr.len() ==> vp[k] == vr[k]);
        assert forall|k: int, l: int| 0 <= k < l < vp.len() implies vp[k] < vp[l] by {
            if l < vr.len() {
                assert(vr[k] < vr[l]);
            }
        }
    }
}

/// Facts about the tone target used by callers: it lies inside `s`.
pub proof fn lemma_tone_target_in_bounds(s: Seq<char>)
    ensures
        tone_target(s) matches Some(i) ==> 0 <= i < s.len() && spec_is_vowel_or_marked(s[i]),
{
    lemma_vowel_positions(s);
    lemma_vowel_positions_are_vowels(s);
    let vowels = vowel_positions(s);
    if vowels.len() > 0 {
        let eff = effective_positions(s, vowels);
        lemma_first_priority_from(s, eff, 0);
    }
}

proof fn lemma_vowel_positions_are_vowels(s: Seq<char>)
    ensures
        forall|k: int|
            0 <= k < vowel_positions(s).len() ==> spec_is_vowel_or_marked(
                s[#[trigger] vowel_positions(s)[k]],
            ),
    decreases s.len(),
{
    if s.len() > 0 {
        let rest = s.drop_last();
        lemma_vowel_positions_are_vowels(rest);
        lemma_vowel_positions(rest);
        let vp = vowel_positions(s);
        let vr = vowel_positions(rest);
        assert forall|k: int| 0 <= k < vp.len() implies spec_is_vowel_or_marked(
            s[#[trigger] vp[k]],
        ) by {
            if k < vr.len() {
                assert(vp[k] == vr[k]);
                assert(s[vr[k]] == rest[vr[k]]);
            }
        }
    }
}

proof fn lemma_first_priority_from(s: Seq<char>, positions: Seq<int>, k: int)
    ensures
        first_priority_from(s, positions, k) matches Some(p) ==> exists|j: int|
            0 <= j < positions.len() && #[trigger] positions[j] == p,
    decreases positions.len() - k,
{
    if 0 <= k < positions.len() && !spec_is_priority_vowel(s[positions[k]]) {
        lemma_first_priority_from(s, positions, k + 1);
    }
}

/// Where the tone of `chars` goes, if it has a vowel.
fn find_tone_target(chars: &Vec<char>) -> (r: Option<usize>)
    ensures
        match r {
            Some(i) => tone_target(chars@) == Some(i as int),
            None => tone_target(chars@) is None,
        },
{
    let mut vowel_indices: Vec<usize> = Vec::new();
    let mut idx: usize = 0;
    while idx < chars.len()
        invariant
            idx <= chars.len(),
            as_ints(vowel_indices@) == vowel_positions(chars@.take(idx as int)),
        decreases chars.len() - idx,
    {
        proof {
            assert(chars@.take(idx + 1).drop_last() =~= chars@.take(idx as int));
        }
        if is_vowel_or_marked(chars[idx]) {
            vowel_indices.push(idx);
        }
        proof {
            assert(as_ints(vowel_indices@) =~= vowel_positions(chars@.take(idx + 1)));
        }
        idx = idx + 1;
    }
    proof {
        assert(chars@.take(chars.len() as int) =~= chars@);
        lemma_vowel_positions(chars@);
    }
    if vowel_indices.len() == 0 {
        return None;
    }
    let effective = effective_vowel_indices(chars, &vowel_indices);
    let ghost eff = effective_positions(chars@, vowel_positions(chars@));
    assert(as_ints(effective@) == eff);
    assert(forall|k: int| 0 <= k < eff.len() ==> 0 <= #[trigger] eff[k] < chars.len());

    let mut k: usize = 0;
    while k < effective.len()
        invariant
            0 <= k <= effective.len(),
            as_ints(effective@) == eff,
            vowel_positions(chars@).len() > 0,
            eff == effective_positions(chars@, vowel_positions(chars@)),
            forall|j: int| 0 <= j < eff.len() ==> 0 <= #[trigger] eff[j] < chars.len(),
            first_priority_from(chars@, eff, 0) == first_priority_from(chars@, eff, k as int),
        decreases effective.len() - k,
    {
        let i = effective[k];
        assert(eff[k as int] == i as int);
        if is_priority_vowel(chars[i]) {
            assert(first_priority_from(chars@, eff, k as int) == Some(i as int));
            return Some(i);
        }
        k = k + 1;
    }

    if effective.len() >= 3 {
        assert(eff[1] == effective@[1] as int);
        return Some(effective[1]);
    }
    if effective.len() == 2 {
        let first = effective[0];
        let second = effective[1];
        assert(eff[0] == first as int && eff[1] == second as int);
        let second_is_last = second + 1 == chars.len();
        let first_char = ascii_lower(strip_tone(chars[first]));
        let starts_with_qu_or_gi = chars.len() >= 2 && (((chars[0] == 'q' || chars[0] == 'Q')
            && (chars[1] == 'u' || chars[1] == 'U')) || ((chars[0] == 'g' || chars[0] == 'G')
            && (chars[1] == 'i' || chars[1] == 'I')));
        if second_is_last && first != 0 && !starts_with_qu_or_gi && first_char != 'i' {
            return Some(first);
        }
        return Some(second);
    }
    assert(eff.len() >= 1);
    assert(eff[0] == effective@[0] as int);
    Some(effective[0])
}

/// The vowel positions that can carry the tone (see `effective_positions`).
fn effective_vowel_indices(chars: &Vec<char>, vowel_indices: &Vec<usize>) -> (r: Vec<usize>)
    ensures
        as_ints(r@) == effective_positions(chars@, as_ints(vowel_indices@)),
{
    let ghost vi = as_ints(vowel_indices@);
    assert(vowel_indices.len() >= 1 ==> vi[0] == vowel_indices@[0] as int);
    let starts_with_qu_or_gi = chars.len() >= 2 && (((chars[0] == 'q' || chars[0] == 'Q')
            && (chars[1] == 'u' || chars[1] == 'U')) || ((chars[0] == 'g' || chars[0] == 'G')
            && (chars[1] == 'i' || chars[1] == 'I')));
    let start: usize = if vowel_indices.len() < 2 || vowel_indices[0] != 1 || chars.len() < 2 {
        0
    } else if starts_with_qu_or_gi {
        1
    } else {
        0
    };
    let mut out: Vec<usize> = Vec::new();
    let mut j: usize = start;
    while j < vowel_indices.len()
        invariant
            start <= j <= vowel_indices.len(),
            start <= 1,
            start <= vowel_indices.len(),
            out@ =~= vowel_indices@.subrange(start as int, j as int),
        decreases vowel_indices.len() - j,
    {
        out.push(vowel_indices[j]);
        j = j + 1;
    }
    assert(as_ints(out@) =~= effective_positions(chars@, vi));
    out
}

/// Whether `ch` is one of the 24 toneless vowels.
fn is_vowel(ch: char) -> (r: bool)
    ensures
        r == spec_is_vowel(ch),
{
    match ch {
        'a' | 'ă' | 'â' | 'e' | 'ê' | 'i' | 'o' | 'ô' | 'ơ' | 'u' | 'ư' | 'y' | 'A' | 'Ă' | 'Â'
        | 'E' | 'Ê' | 'I' | 'O' | 'Ô' | 'Ơ' | 'U' | 'Ư' | 'Y' => true,
        _ => false,
    }
}

/// Whether `ch` carries a shape mark (breve, circumflex or horn).
fn is_priority_vowel(ch: char) -> (r: bool)
    ensures
        r == spec_is_priority_vowel(ch),
{
    match strip_tone(ch) {
        'ă' | 'â' | 'ê' | 'ô' | 'ơ' | 'ư' | 'Ă' | 'Â' | 'Ê' | 'Ô' | 'Ơ' | 'Ư' => true,
        _ => false,
    }
}

/// The rank of `tone` in a row of the tone table.
fn tone_index(tone: Tone) -> (r: usize)
    ensures
        r == tone_rank(tone),
        r < 6,
{
    match tone {
        Tone::Level => 0,
        Tone::Acute => 1,
        Tone::Grave => 2,
        Tone::Hook => 3,
        Tone::Tilde => 4,
        Tone::Dot => 5,
    }
}

} // verus!
