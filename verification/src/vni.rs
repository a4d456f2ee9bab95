//! The VNI convention: digits typed after a syllable give it tones (1 to 5,
//! 0 for none) and shapes (6 circumflex, 7 horn, 8 breve, 9 for đ).
use vstd::prelude::*;

use crate::telex::{
    has_vowel, last_before, spec_is_coda_consonant, spec_is_o_horn_or_marked, spec_is_u_or_uw,
    spec_promote_uo, uo_coda_at,
};
use crate::text::{char_is_alphabetic, char_is_uppercase};
use crate::tone::{apply_tone, is_vowel_or_marked, spec_apply_tone, spec_is_vowel_or_marked, strip_tone};
use crate::Tone;

verus! {

// ----------------------------------------------------------------------------
// Specification
// ----------------------------------------------------------------------------

/// The tone that a VNI tone digit gives: 1 acute, 2 grave, 3 hook, 4 tilde,
/// 5 dot, 0 level.
pub open spec fn vni_key_tone(c: char) -> Option<Tone> {
    if c == '1' {
        Some(Tone::Acute)
    } else if c == '2' {
        Some(Tone::Grave)
    } else if c == '3' {
        Some(Tone::Hook)
    } else if c == '4' {
        Some(Tone::Tilde)
    } else if c == '5' {
        Some(Tone::Dot)
    } else if c == '0' {
        Some(Tone::Level)
    } else {
        None
    }
}

/// The last position below `k` holding a tone digit with a vowel before it.
pub open spec fn vni_tone_pos(s: Seq<char>, k: int) -> Option<int>
    decreases k,
{
    if k <= 0 {
        None
    } else if vni_key_tone(s[k - 1]) is Some && has_vowel(s.take(k - 1)) {
        Some(k - 1)
    } else {
        vni_tone_pos(s, k - 1)
    }
}

/// Takes the tone digit out of a VNI syllable: the last tone digit with a vowel
/// before it is removed and its tone returned; with none, the syllable is kept
/// and the tone is level.
pub open spec fn spec_parse_vni_tone(s: Seq<char>) -> (Seq<char>, Tone) {
    match vni_tone_pos(s, s.len() as int) {
        Some(i) => (s.remove(i), vni_key_tone(s[i]).unwrap()),
        None => (s, Tone::Level),
    }
}

/// The last position `i` in `1..k` where `s[i - 1]` is `target` and `s[i]` is `marker`.
pub open spec fn adjacent_pos(s: Seq<char>, k: int, target: char, marker: char) -> Option<int>
    decreases k,
{
    if k <= 1 {
        None
    } else if s[k - 1] == marker && s[k - 2] == target {
        Some(k - 1)
    } else {
        adjacent_pos(s, k - 1, target, marker)
    }
}

/// The last `target` directly followed by `marker` becomes `replacement` and
/// the marker is removed; with no such pair, `s` is kept.
pub open spec fn spec_replace_adjacent(
    s: Seq<char>,
    target: char,
    marker: char,
    replacement: char,
) -> Seq<char> {
    match adjacent_pos(s, s.len() as int, target, marker) {
        Some(i) => s.update(i - 1, replacement).remove(i),
        None => s,
    }
}

/// The predicate "is `target`", as a value.
pub open spec fn char_is(target: char) -> spec_fn(char) -> bool {
    |c: char| c == target
}

/// When `s` ends in `marker`, the last `target` before it becomes `replacement`
/// and the marker is removed; otherwise `s` is kept.
pub open spec fn spec_replace_last_marker(
    s: Seq<char>,
    target: char,
    marker: char,
    replacement: char,
) -> Seq<char> {
    if s.len() < 2 || s.last() != marker {
        s
    } else {
        match last_before(s, s.len() - 1, char_is(target)) {
            Some(i) => s.update(i, replacement).drop_last(),
            None => s,
        }
    }
}

/// The VNI shape digits, in the order they are applied: 9 gives đ, 6 the
/// circumflex, 8 the breve, 7 the horn.
pub open spec fn spec_vni_shapes(s: Seq<char>) -> Seq<char> {
    let s = spec_replace_adjacent(s, 'd', '9', 'đ');
    let s = spec_replace_adjacent(s, 'D', '9', 'Đ');
    let s = spec_replace_last_marker(s, 'a', '6', 'â');
    let s = spec_replace_last_marker(s, 'A', '6', 'Â');
    let s = spec_replace_last_marker(s, 'e', '6', 'ê');
    let s = spec_replace_last_marker(s, 'E', '6', 'Ê');
    let s = spec_replace_last_marker(s, 'o', '6', 'ô');
    let s = spec_replace_last_marker(s, 'O', '6', 'Ô');
    let s = spec_replace_last_marker(s, 'a', '8', 'ă');
    let s = spec_replace_last_marker(s, 'A', '8', 'Ă');
    let s = spec_replace_last_marker(s, 'o', '7', 'ơ');
    let s = spec_replace_last_marker(s, 'O', '7', 'Ơ');
    let s = spec_replace_last_marker(s, 'u', '7', 'ư');
    spec_replace_last_marker(s, 'U', '7', 'Ư')
}

/// The syllable that a run of VNI keys composes: shapes first, then the tone
/// digit is taken out and the tone put on, and "uơ" before a final consonant
/// becomes "ươ".
pub open spec fn spec_vni_syllable(raw: Seq<char>) -> Seq<char> {
    let shaped = spec_vni_shapes(raw);
    let (keys, tone) = spec_parse_vni_tone(shaped);
    spec_promote_uo(spec_apply_tone(keys, tone))
}

// ----------------------------------------------------------------------------
// Lemmas
// ----------------------------------------------------------------------------

pub proof fn lemma_vni_tone_pos(s: Seq<char>, k: int)
    requires
        k <= s.len(),
    ensures
        vni_tone_pos(s, k) matches Some(i) ==> 0 <= i < k,
    decreases k,
{
    if k > 0 && !(vni_key_tone(s[k - 1]) is Some && has_vowel(s.take(k - 1))) {
        lemma_vni_tone_pos(s, k - 1);
    }
}

pub proof fn lemma_adjacent_pos(s: Seq<char>, k: int, target: char, marker: char)
    requires
        k <= s.len(),
    ensures
        adjacent_pos(s, k, target, marker) matches Some(i) ==> 1 <= i < k,
    decreases k,
{
    if k > 1 {
        lemma_adjacent_pos(s, k - 1, target, marker);
    }
}

/// The shape digits never lengthen a syllable.
pub proof fn lemma_vni_shapes_len(s: Seq<char>)
    ensures
        spec_vni_shapes(s).len() <= s.len(),
{
    assert forall|t: Seq<char>, a: char, m: char, r: char|
        #[trigger] spec_replace_adjacent(t, a, m, r).len() <= t.len() by {
        lemma_adjacent_pos(t, t.len() as int, a, m);
    }
    assert forall|t: Seq<char>, a: char, m: char, r: char|
        #[trigger] spec_replace_last_marker(t, a, m, r).len() <= t.len() by {
        if t.len() >= 2 {
            crate::telex::lemma_last_before(t, t.len() - 1, char_is(a));
        }
    }
}

/// A VNI syllable is never longer than the keys that spell it.
pub proof fn lemma_vni_syllable_len(raw: Seq<char>)
    ensures
        spec_vni_syllable(raw).len() <= raw.len(),
{
    let shaped = spec_vni_shapes(raw);
    lemma_vni_shapes_len(raw);
    lemma_vni_tone_pos(shaped, shaped.len() as int);
    let (keys, tone) = spec_parse_vni_tone(shaped);
    crate::tone::law_apply_tone_changes_only_the_tone(keys, tone);
}

/// `c` is an ASCII digit.
pub open spec fn is_ascii_digit(c: char) -> bool {
    '0' <= c && c <= '9'
}

/// `c` is an ASCII letter.
pub open spec fn is_ascii_letter(c: char) -> bool {
    ('a' <= c && c <= 'z') || ('A' <= c && c <= 'Z')
}

pub proof fn lemma_no_digit_no_tone_pos(s: Seq<char>, k: int)
    requires
        k <= s.len(),
        forall|i: int| 0 <= i < s.len() ==> !is_ascii_digit(#[trigger] s[i]),
    ensures
        vni_tone_pos(s, k) is None,
    decreases k,
{
    if k > 0 {
        assert(!is_ascii_digit(s[k - 1]));
        lemma_no_digit_no_tone_pos(s, k - 1);
    }
}

pub proof fn lemma_no_marker_no_adjacent_pos(s: Seq<char>, k: int, target: char, marker: char)
    requires
        k <= s.len(),
        forall|i: int| 0 <= i < s.len() ==> #[trigger] s[i] != marker,
    ensures
        adjacent_pos(s, k, target, marker) is None,
    decreases k,
{
    if k > 1 {
        assert(s[k - 1] != marker);
        lemma_no_marker_no_adjacent_pos(s, k - 1, target, marker);
    }
}

/// VNI keys made of ASCII letters only, without digits, compose to themselves.
pub proof fn law_vni_keeps_letters_without_digits(raw: Seq<char>)
    requires
        forall|i: int| 0 <= i < raw.len() ==> is_ascii_letter(#[trigger] raw[i]),
    ensures
        spec_vni_syllable(raw) == raw,
{
    assert forall|i: int| 0 <= i < raw.len() implies !is_ascii_digit(#[trigger] raw[i]) by {
        assert(is_ascii_letter(raw[i]));
    }
    assert forall|m: char| is_ascii_digit(m) implies forall|i: int|
        0 <= i < raw.len() ==> #[trigger] raw[i] != m by {
        assert forall|i: int| 0 <= i < raw.len() implies #[trigger] raw[i] != m by {
            assert(is_ascii_letter(raw[i]));
        }
    }
    lemma_no_marker_no_adjacent_pos(raw, raw.len() as int, 'd', '9');
    lemma_no_marker_no_adjacent_pos(raw, raw.len() as int, 'D', '9');
    if raw.len() >= 2 {
        assert(is_ascii_letter(raw.last()));
    }
    assert(spec_vni_shapes(raw) == raw);
    lemma_no_digit_no_tone_pos(raw, raw.len() as int);
    assert forall|i: int| 0 <= i < raw.len() implies !uo_coda_at(raw, i) by {
        if i + 1 < raw.len() {
            assert(is_ascii_letter(raw[i + 1]));
        }
    }
    assert(spec_promote_uo(raw) =~= raw);
}

/// A shape digit after a consonant `c` and a key `v` reshapes `v` when it is the
/// digit's target, and leaves the three keys alone otherwise.
proof fn lemma_marker_on_triple(s: Seq<char>, c: char, v: char, m: char)
    requires
        s == seq![c, v, m],
    ensures
        forall|a: char, mk: char, r: char|
            c != a ==> #[trigger] spec_replace_last_marker(s, a, mk, r) == if m == mk && v == a {
                seq![c, r]
            } else {
                s
            },
{
    assert forall|a: char, mk: char, r: char| c != a implies #[trigger] spec_replace_last_marker(
        s,
        a,
        mk,
        r,
    ) == if m == mk && v == a {
        seq![c, r]
    } else {
        s
    } by {
        assert(s.last() == m);
        if m == mk {
            assert(last_before(s, 0, char_is(a)) is None);
            assert(last_before(s, 1, char_is(a)) is None);
            if v == a {
                assert(last_before(s, 2, char_is(a)) == Some(1int));
                assert(s.update(1, r).drop_last() =~= seq![c, r]);
            } else {
                assert(last_before(s, 2, char_is(a)) is None);
            }
        }
    }
}

/// A shape digit leaves two keys alone when the second is not the digit.
proof fn lemma_marker_on_pair(t: Seq<char>, c: char, x: char)
    requires
        t == seq![c, x],
    ensures
        forall|a: char, mk: char, r: char|
            x != mk ==> #[trigger] spec_replace_last_marker(t, a, mk, r) == t,
{
    assert(t.last() == x);
}

/// The shape digits turn a consonant `c`, a vowel key `v` and the digit `m`
/// into `c` followed by `r`, for each entry of the VNI shape table.
proof fn lemma_vni_shape_entry(c: char, v: char, m: char, r: char)
    requires
        !spec_is_vowel_or_marked(c),
        (v == 'a' && m == '6' && r == 'â') || (v == 'A' && m == '6' && r == 'Â') || (v == 'e'
            && m == '6' && r == 'ê') || (v == 'E' && m == '6' && r == 'Ê') || (v == 'o' && m
            == '6' && r == 'ô') || (v == 'O' && m == '6' && r == 'Ô') || (v == 'a' && m == '8'
            && r == 'ă') || (v == 'A' && m == '8' && r == 'Ă') || (v == 'o' && m == '7' && r
            == 'ơ') || (v == 'O' && m == '7' && r == 'Ơ') || (v == 'u' && m == '7' && r == 'ư')
            || (v == 'U' && m == '7' && r == 'Ư'),
    ensures
        spec_vni_shapes(seq![c, v, m]) == seq![c, r],
{
    let s = seq![c, v, m];
    assert(adjacent_pos(s, 1, 'd', '9') is None);
    assert(adjacent_pos(s, 2, 'd', '9') is None);
    assert(adjacent_pos(s, 3, 'd', '9') is None);
    assert(adjacent_pos(s, 1, 'D', '9') is None);
    assert(adjacent_pos(s, 2, 'D', '9') is None);
    assert(adjacent_pos(s, 3, 'D', '9') is None);
    assert(spec_replace_adjacent(s, 'd', '9', 'đ') == s);
    assert(spec_replace_adjacent(s, 'D', '9', 'Đ') == s);
    assert(c != 'a' && c != 'A' && c != 'e' && c != 'E' && c != 'o' && c != 'O' && c != 'u'
        && c != 'U') by {
        assert(crate::tone::spec_is_vowel_or_marked('a'));
        assert(crate::tone::spec_is_vowel_or_marked('A'));
        assert(crate::tone::spec_is_vowel_or_marked('e'));
        assert(crate::tone::spec_is_vowel_or_marked('E'));
        assert(crate::tone::spec_is_vowel_or_marked('o'));
        assert(crate::tone::spec_is_vowel_or_marked('O'));
        assert(crate::tone::spec_is_vowel_or_marked('u'));
        assert(crate::tone::spec_is_vowel_or_marked('U'));
    }
    lemma_marker_on_triple(s, c, v, m);
    lemma_marker_on_pair(seq![c, r], c, r);
}

/// Two keys, a consonant `c` and a toneless vowel `r` that is no digit, compose
/// to themselves under VNI once they have been shaped.
proof fn lemma_vni_after_shapes(raw: Seq<char>, c: char, r: char)
    requires
        !spec_is_vowel_or_marked(c),
        spec_is_vowel_or_marked(r),
        !is_ascii_digit(r),
        spec_vni_shapes(raw) == seq![c, r],
    ensures
        spec_vni_syllable(raw) == seq![c, r],
{
    let t = seq![c, r];
    assert(vni_key_tone(r) is None);
    assert(vni_tone_pos(t, 0) is None);
    assert(vni_tone_pos(t, 1) is None);
    assert(vni_tone_pos(t, 2) is None);
    assert(spec_parse_vni_tone(t) == (t, Tone::Level));
    assert(spec_apply_tone(t, Tone::Level) == t);
    assert(spec_promote_uo(t) =~= t);
}

/// VNI shape digits: after a consonant, `a`, `e` or `o` followed by 6 takes the
/// circumflex, `a` followed by 8 the breve, `o` or `u` followed by 7 the horn,
/// each in the case of the vowel key; the digit itself is removed.
#[verifier::spinoff_prover]
#[verifier::rlimit(50)]
pub proof fn law_vni_shape_digits(c: char)
    requires
        !spec_is_vowel_or_marked(c),
    ensures
        spec_vni_syllable(seq![c, 'a', '6']) == seq![c, 'â'],
        spec_vni_syllable(seq![c, 'A', '6']) == seq![c, 'Â'],
        spec_vni_syllable(seq![c, 'e', '6']) == seq![c, 'ê'],
        spec_vni_syllable(seq![c, 'E', '6']) == seq![c, 'Ê'],
        spec_vni_syllable(seq![c, 'o', '6']) == seq![c, 'ô'],
        spec_vni_syllable(seq![c, 'O', '6']) == seq![c, 'Ô'],
        spec_vni_syllable(seq![c, 'a', '8']) == seq![c, 'ă'],
        spec_vni_syllable(seq![c, 'A', '8']) == seq![c, 'Ă'],
        spec_vni_syllable(seq![c, 'o', '7']) == seq![c, 'ơ'],
        spec_vni_syllable(seq![c, 'O', '7']) == seq![c, 'Ơ'],
        spec_vni_syllable(seq![c, 'u', '7']) == seq![c, 'ư'],
        spec_vni_syllable(seq![c, 'U', '7']) == seq![c, 'Ư'],
{
    assert(spec_vni_syllable(seq![c, 'a', '6']) == seq![c, 'â']) by {
        lemma_vni_shape_entry(c, 'a', '6', 'â');
        lemma_vni_after_shapes(seq![c, 'a', '6'], c, 'â');
    }
    assert(spec_vni_syllable(seq![c, 'A', '6']) == seq![c, 'Â']) by {
        lemma_vni_shape_entry(c, 'A', '6', 'Â');
        lemma_vni_after_shapes(seq![c, 'A', '6'], c, 'Â');
    }
    assert(spec_vni_syllable(seq![c, 'e', '6']) == seq![c, 'ê']) by {
        lemma_vni_shape_entry(c, 'e', '6', 'ê');
        lemma_vni_after_shapes(seq![c, 'e', '6'], c, 'ê');
    }
    assert(spec_vni_syllable(seq![c, 'E', '6']) == seq![c, 'Ê']) by {
        lemma_vni_shape_entry(c, 'E', '6', 'Ê');
        lemma_vni_after_shapes(seq![c, 'E', '6'], c, 'Ê');
    }
    assert(spec_vni_syllable(seq![c, 'o', '6']) == seq![c, 'ô']) by {
        lemma_vni_shape_entry(c, 'o', '6', 'ô');
        lemma_vni_after_shapes(seq![c, 'o', '6'], c, 'ô');
    }
    assert(spec_vni_syllable(seq![c, 'O', '6']) == seq![c, 'Ô']) by {
        lemma_vni_shape_entry(c, 'O', '6', 'Ô');
        lemma_vni_after_shapes(seq![c, 'O', '6'], c, 'Ô');
    }
    assert(spec_vni_syllable(seq![c, 'a', '8']) == seq![c, 'ă']) by {
        lemma_vni_shape_entry(c, 'a', '8', 'ă');
        lemma_vni_after_shapes(seq![c, 'a', '8'], c, 'ă');
    }
    assert(spec_vni_syllable(seq![c, 'A', '8']) == seq![c, 'Ă']) by {
        lemma_vni_shape_entry(c, 'A', '8', 'Ă');
        lemma_vni_after_shapes(seq![c, 'A', '8'], c, 'Ă');
    }
    assert(spec_vni_syllable(seq![c, 'o', '7']) == seq![c, 'ơ']) by {
        lemma_vni_shape_entry(c, 'o', '7', 'ơ');
        lemma_vni_after_shapes(seq![c, 'o', '7'], c, 'ơ');
    }
    assert(spec_vni_syllable(seq![c, 'O', '7']) == seq![c, 'Ơ']) by {
        lemma_vni_shape_entry(c, 'O', '7', 'Ơ');
        lemma_vni_after_shapes(seq![c, 'O', '7'], c, 'Ơ');
    }
    assert(spec_vni_syllable(seq![c, 'u', '7']) == seq![c, 'ư']) by {
        lemma_vni_shape_entry(c, 'u', '7', 'ư');
        lemma_vni_after_shapes(seq![c, 'u', '7'], c, 'ư');
    }
    assert(spec_vni_syllable(seq![c, 'U', '7']) == seq![c, 'Ư']) by {
        lemma_vni_shape_entry(c, 'U', '7', 'Ư');
        lemma_vni_after_shapes(seq![c, 'U', '7'], c, 'Ư');
    }
}

/// VNI 9: `d9` before a toneless vowel composes `đ` and `D9` composes `Đ`,
/// followed by the vowel.
#[verifier::spinoff_prover]
#[verifier::rlimit(50)]
pub proof fn law_vni_nine_gives_d_stroke(v: char)
    requires
        crate::tone::spec_is_vowel(v),
    ensures
        spec_vni_syllable(seq!['d', '9', v]) == seq!['đ', v],
        spec_vni_syllable(seq!['D', '9', v]) == seq!['Đ', v],
{
    assert(crate::tone::spec_is_vowel_or_marked(v));
    assert(!spec_is_vowel_or_marked('đ'));
    assert(!spec_is_vowel_or_marked('Đ'));
    let s = seq!['d', '9', v];
    let t = seq!['đ', v];
    assert(adjacent_pos(s, 2, 'd', '9') == Some(1int));
    assert(adjacent_pos(s, 3, 'd', '9') == Some(1int));
    assert(s.update(0, 'đ').remove(1) =~= t);
    assert(adjacent_pos(t, 1, 'D', '9') is None);
    assert(adjacent_pos(t, 2, 'D', '9') is None);
    lemma_marker_on_pair(t, 'đ', v);
    assert(spec_vni_shapes(s) == t);
    lemma_vni_after_shapes(s, 'đ', v);
    let su = seq!['D', '9', v];
    let tu = seq!['Đ', v];
    assert(adjacent_pos(su, 1, 'd', '9') is None);
    assert(adjacent_pos(su, 2, 'd', '9') is None);
    assert(adjacent_pos(su, 3, 'd', '9') is None);
    assert(adjacent_pos(su, 2, 'D', '9') == Some(1int));
    assert(adjacent_pos(su, 3, 'D', '9') == Some(1int));
    assert(su.update(0, 'Đ').remove(1) =~= tu);
    lemma_marker_on_pair(tu, 'Đ', v);
    assert(spec_vni_shapes(su) == tu);
    lemma_vni_after_shapes(su, 'Đ', v);
}

/// VNI "uo" with a final consonant and the horn digit 7 composes "ươ": the 7 gives
/// the `o` its horn, and the `u` before it takes the horn too, keeping its own case
/// ("huong7" gives "hương", "Huong7" gives "Hương").
#[verifier::spinoff_prover]
#[verifier::rlimit(50)]
pub proof fn law_vni_uo_horn_keeps_case_of_u(x: char, u: char, n: char)
    requires
        !spec_is_vowel_or_marked(x),
        !spec_is_vowel_or_marked(n),
        crate::text::is_alphabetic_char(n),
        !is_ascii_digit(n),
        u == 'u' || u == 'U',
    ensures
        spec_vni_syllable(seq![x, u, 'o', n, '7']) == seq![
            x,
            crate::telex::u_horn_like(u),
            'ơ',
            n,
        ],
        spec_vni_syllable(seq![x, u, 'O', n, '7']) == seq![
            x,
            crate::telex::u_horn_like(u),
            'Ơ',
            n,
        ],
{
    lemma_vni_uo_horn(x, u, 'o', 'ơ', n);
    lemma_vni_uo_horn(x, u, 'O', 'Ơ', n);
}

/// The VNI syllable of `x`, `u`, the vowel `o`, the final consonant `n` and 7,
/// where 7 turns `o` into `h`.
proof fn lemma_vni_uo_horn(x: char, u: char, o: char, h: char, n: char)
    requires
        !spec_is_vowel_or_marked(x),
        !spec_is_vowel_or_marked(n),
        crate::text::is_alphabetic_char(n),
        !is_ascii_digit(n),
        u == 'u' || u == 'U',
        (o == 'o' && h == 'ơ') || (o == 'O' && h == 'Ơ'),
    ensures
        spec_vni_syllable(seq![x, u, o, n, '7']) == seq![x, crate::telex::u_horn_like(u), h, n],
{
    let s = seq![x, u, o, n, '7'];
    assert(adjacent_pos(s, 1, 'd', '9') is None);
    assert(adjacent_pos(s, 2, 'd', '9') is None);
    assert(adjacent_pos(s, 3, 'd', '9') is None);
    assert(adjacent_pos(s, 4, 'd', '9') is None);
    assert(adjacent_pos(s, 5, 'd', '9') is None);
    assert(adjacent_pos(s, 1, 'D', '9') is None);
    assert(adjacent_pos(s, 2, 'D', '9') is None);
    assert(adjacent_pos(s, 3, 'D', '9') is None);
    assert(adjacent_pos(s, 4, 'D', '9') is None);
    assert(adjacent_pos(s, 5, 'D', '9') is None);
    assert(s.last() == '7');
    assert(n != 'o' && n != 'O' && x != 'o' && x != 'O' && x != 'u' && x != 'U') by {
        assert(crate::tone::spec_is_vowel_or_marked('o'));
        assert(crate::tone::spec_is_vowel_or_marked('O'));
        assert(crate::tone::spec_is_vowel_or_marked('u'));
        assert(crate::tone::spec_is_vowel_or_marked('U'));
    }
    let t = seq![x, u, h, n];
    if o == 'o' {
        assert(last_before(s, 4, char_is('o')) == Some(2int));
        assert(spec_replace_last_marker(s, 'o', '7', 'ơ') =~= t);
        assert(last_before(t, 0, char_is('O')) is None);
    } else {
        assert(last_before(s, 0, char_is('o')) is None);
        assert(last_before(s, 1, char_is('o')) is None);
        assert(last_before(s, 2, char_is('o')) is None);
        assert(last_before(s, 3, char_is('o')) is None);
        assert(last_before(s, 4, char_is('o')) is None);
        assert(spec_replace_last_marker(s, 'o', '7', 'ơ') == s);
        assert(char_is('O')(s[2]));
        assert(!char_is('O')(s[3]));
        assert(last_before(s, 3, char_is('O')) == Some(2int));
        assert(last_before(s, 4, char_is('O')) == Some(2int));
        assert(spec_replace_last_marker(s, 'O', '7', 'Ơ') =~= t);
    }
    assert(t.last() == n);
    assert(spec_vni_shapes(s) == t);
    assert(vni_key_tone(n) is None);
    assert(vni_key_tone(h) is None);
    assert(vni_key_tone(u) is None);
    assert(vni_tone_pos(t, 0) is None);
    assert(vni_tone_pos(t, 1) is None);
    assert(vni_tone_pos(t, 2) is None);
    assert(vni_tone_pos(t, 3) is None);
    assert(vni_tone_pos(t, 4) is None);
    assert(spec_apply_tone(t, Tone::Level) == t);
    assert(uo_coda_at(t, 1));
    assert(!uo_coda_at(t, 0));
    assert(!uo_coda_at(t, 2));
    assert(spec_promote_uo(t) =~= seq![x, crate::telex::u_horn_like(u), h, n]);
}

/// The syllable of a consonant `c`, a toneless vowel `v` and a tone digit `d`
/// under VNI, given the tone that the digit should give.
proof fn lemma_vni_consonant_vowel_digit(c: char, v: char, d: char, tone: Tone)
    requires
        !spec_is_vowel_or_marked(c),
        crate::tone::spec_is_vowel(v),
        vni_key_tone(d) == Some(tone),
    ensures
        spec_vni_syllable(seq![c, v, d]) == seq![c, crate::tone::spec_tone_mark(v, tone)],
{
    let s = seq![c, v, d];
    assert(d != '6' && d != '7' && d != '8' && d != '9');
    assert(v != '9');
    assert(adjacent_pos(s, 1, 'd', '9') is None);
    assert(adjacent_pos(s, 2, 'd', '9') is None);
    assert(adjacent_pos(s, 3, 'd', '9') is None);
    assert(adjacent_pos(s, 1, 'D', '9') is None);
    assert(adjacent_pos(s, 2, 'D', '9') is None);
    assert(adjacent_pos(s, 3, 'D', '9') is None);
    assert(spec_replace_adjacent(s, 'd', '9', 'đ') == s);
    assert(spec_replace_adjacent(s, 'D', '9', 'Đ') == s);
    assert(s.last() == d);
    assert(spec_vni_shapes(s) == s);
    assert(s.take(2)[1] == v);
    assert(has_vowel(s.take(2)));
    assert(vni_tone_pos(s, 3) == Some(2int));
    let t = s.remove(2);
    assert(t =~= seq![c, v]);
    assert(crate::tone::spec_is_vowel_or_marked(v));
    let e = Seq::<char>::empty();
    assert(t.drop_last().drop_last() =~= e);
    assert(crate::tone::vowel_positions(e) =~= Seq::<int>::empty());
    assert(crate::tone::vowel_positions(t.drop_last()) =~= Seq::<int>::empty());
    assert(crate::tone::vowel_positions(t) =~= seq![1int]);
    let eff = crate::tone::effective_positions(t, seq![1int]);
    assert(eff =~= seq![1int]);
    if crate::tone::spec_is_priority_vowel(v) {
        assert(crate::tone::first_priority_from(t, eff, 0) == Some(1int));
    } else {
        assert(crate::tone::first_priority_from(t, eff, 1) is None);
        assert(crate::tone::first_priority_from(t, eff, 0) is None);
    }
    assert(tone != Tone::Level ==> crate::tone::tone_target(t) == Some(1int));
    assert(crate::tone::spec_strip_tone(v) == v);
    let u = crate::tone::spec_apply_tone(t, tone);
    assert(u =~= seq![c, crate::tone::spec_tone_mark(v, tone)]);
    assert(spec_promote_uo(u) =~= u);
}

/// VNI tone digits: after a consonant and a toneless vowel, 1 gives the acute,
/// 2 the grave, 3 the hook, 4 the tilde and 5 the dot tone on the vowel, and 0
/// leaves it toneless; the digit itself is removed.
#[verifier::spinoff_prover]
#[verifier::rlimit(50)]
pub proof fn law_vni_tone_digits(c: char, v: char)
    requires
        !spec_is_vowel_or_marked(c),
        crate::tone::spec_is_vowel(v),
    ensures
        spec_vni_syllable(seq![c, v, '1']) == seq![c, crate::tone::spec_tone_mark(v, Tone::Acute)],
        spec_vni_syllable(seq![c, v, '2']) == seq![c, crate::tone::spec_tone_mark(v, Tone::Grave)],
        spec_vni_syllable(seq![c, v, '3']) == seq![c, crate::tone::spec_tone_mark(v, Tone::Hook)],
        spec_vni_syllable(seq![c, v, '4']) == seq![c, crate::tone::spec_tone_mark(v, Tone::Tilde)],
        spec_vni_syllable(seq![c, v, '5']) == seq![c, crate::tone::spec_tone_mark(v, Tone::Dot)],
        spec_vni_syllable(seq![c, v, '0']) == seq![c, v],
{
    let mark = |t: Tone| crate::tone::spec_tone_mark(v, t);
    assert(spec_vni_syllable(seq![c, v, '1']) == seq![c, mark(Tone::Acute)]) by {
        lemma_vni_consonant_vowel_digit(c, v, '1', Tone::Acute);
    }
    assert(spec_vni_syllable(seq![c, v, '2']) == seq![c, mark(Tone::Grave)]) by {
        lemma_vni_consonant_vowel_digit(c, v, '2', Tone::Grave);
    }
    assert(spec_vni_syllable(seq![c, v, '3']) == seq![c, mark(Tone::Hook)]) by {
        lemma_vni_consonant_vowel_digit(c, v, '3', Tone::Hook);
    }
    assert(spec_vni_syllable(seq![c, v, '4']) == seq![c, mark(Tone::Tilde)]) by {
        lemma_vni_consonant_vowel_digit(c, v, '4', Tone::Tilde);
    }
    assert(spec_vni_syllable(seq![c, v, '5']) == seq![c, mark(Tone::Dot)]) by {
        lemma_vni_consonant_vowel_digit(c, v, '5', Tone::Dot);
    }
    assert(spec_vni_syllable(seq![c, v, '0']) == seq![c, v]) by {
        lemma_vni_consonant_vowel_digit(c, v, '0', Tone::Level);
    }
}

// ----------------------------------------------------------------------------
// Implementation
// ----------------------------------------------------------------------------

/// Composes a VNI syllable from its keys.
pub fn transform_from_raw(raw: &[char]) -> (r: Vec<char>)
    ensures
        r@ == spec_vni_syllable(raw@),
{
    let mut chars = vstd::slice::slice_to_vec(raw);
    apply_vni_shapes(&mut chars);
    let tone = parse_vni_tone(&mut chars);
    apply_tone(&mut chars, tone);
    promote_uo_with_coda(&mut chars);
    chars
}

/// Removes the tone digit from `chars` and returns its tone.
pub fn parse_vni_tone(chars: &mut Vec<char>) -> (r: Tone)
    ensures
        (final(chars)@, r) == spec_parse_vni_tone(old(chars)@),
{
    let ghost s = chars@;
    let mut k: usize = chars.len();
    while k > 0
        invariant
            chars@ == s,
            s == old(chars)@,
            k <= s.len(),
            vni_tone_pos(s, s.len() as int) == vni_tone_pos(s, k as int),
        decreases k,
    {
        let idx = k - 1;
        let tone = match chars[idx] {
            '1' => Tone::Acute,
            '2' => Tone::Grave,
            '3' => Tone::Hook,
            '4' => Tone::Tilde,
            '5' => Tone::Dot,
            '0' => Tone::Level,
            _ => {
                k = idx;
                continue;
            },
        };
        assert(vni_key_tone(s[idx as int]) == Some(tone));
        let mut any_vowel = false;
        let mut m: usize = 0;
        while m < idx
            invariant
                chars@ == s,
                idx < s.len(),
                m <= idx,
                any_vowel == exists|q: int| 0 <= q < m && spec_is_vowel_or_marked(#[trigger] s[q]),
            decreases idx - m,
        {
            if is_vowel_or_marked(chars[m]) {
                any_vowel = true;
            }
            m = m + 1;
        }
        proof {
            assert(any_vowel == has_vowel(s.take(idx as int))) by {
                if any_vowel {
                    let q = choose|q: int| 0 <= q < idx && spec_is_vowel_or_marked(s[q]);
                    assert(s.take(idx as int)[q] == s[q]);
                } else {
                    assert forall|q: int| 0 <= q < s.take(idx as int).len() implies !spec_is_vowel_or_marked(
                        #[trigger] s.take(idx as int)[q],
                    ) by {
                        assert(s.take(idx as int)[q] == s[q]);
                    }
                }
            }
        }
        if any_vowel {
            assert(vni_tone_pos(s, k as int) == Some(idx as int));
            chars.remove(idx);
            return tone;
        }
        k = idx;
    }
    Tone::Level
}

/// Applies the VNI shape digits (see `spec_vni_shapes`).
pub fn apply_vni_shapes(chars: &mut Vec<char>)
    ensures
        final(chars)@ == spec_vni_shapes(old(chars)@),
{
    replace_adjacent(chars, 'd', '9', 'đ');
    replace_adjacent(chars, 'D', '9', 'Đ');

    replace_last_marker(chars, 'a', '6', 'â');
    replace_last_marker(chars, 'A', '6', 'Â');
    replace_last_marker(chars, 'e', '6', 'ê');
    replace_last_marker(chars, 'E', '6', 'Ê');
    replace_last_marker(chars, 'o', '6', 'ô');
    replace_last_marker(chars, 'O', '6', 'Ô');

    replace_last_marker(chars, 'a', '8', 'ă');
    replace_last_marker(chars, 'A', '8', 'Ă');

    replace_last_marker(chars, 'o', '7', 'ơ');
    replace_last_marker(chars, 'O', '7', 'Ơ');
    replace_last_marker(chars, 'u', '7', 'ư');
    replace_last_marker(chars, 'U', '7', 'Ư');
}

/// Replaces the last `target` directly followed by `marker` with `replacement`
/// and removes the marker.
fn replace_adjacent(chars: &mut Vec<char>, target: char, marker: char, replacement: char)
    ensures
        final(chars)@ == spec_replace_adjacent(old(chars)@, target, marker, replacement),
{
    if chars.len() < 2 {
        return;
    }
    let ghost s = chars@;
    let mut k: usize = chars.len();
    while k > 1
        invariant
            chars@ == s,
            s == old(chars)@,
            1 <= k <= s.len(),
            adjacent_pos(s, s.len() as int, target, marker) == adjacent_pos(
                s,
                k as int,
                target,
                marker,
            ),
        decreases k,
    {
        let i = k - 1;
        if chars[i] == marker && chars[i - 1] == target {
            assert(adjacent_pos(s, k as int, target, marker) == Some(i as int));
            chars.set(i - 1, replacement);
            chars.remove(i);
            return;
        }
        k = i;
    }
}

/// When `chars` ends in `marker`, replaces the last `target` before it with
/// `replacement` and drops the marker.
fn replace_last_marker(chars: &mut Vec<char>, target: char, marker: char, replacement: char)
    ensures
        final(chars)@ == spec_replace_last_marker(old(chars)@, target, marker, replacement),
{
    if chars.len() < 2 || chars[chars.len() - 1] != marker {
        return;
    }
    let ghost s = chars@;
    let mut k: usize = chars.len() - 1;
    while k > 0
        invariant
            chars@ == s,
            s == old(chars)@,
            s.len() >= 2,
            s.last() == marker,
            k <= s.len() - 1,
            last_before(s, s.len() - 1, char_is(target)) == last_before(s, k as int, char_is(target)),
        decreases k,
    {
        let i = k - 1;
        if chars[i] == target {
            assert(last_before(s, k as int, char_is(target)) == Some(i as int));
            chars.set(i, replacement);
            chars.pop();
            proof {
                assert(chars@ =~= s.update(i as int, replacement).drop_last());
            }
            return;
        }
        k = i;
    }
}

/// Turns every `u` of a "uơ" followed by a final consonant into `ư`.
fn promote_uo_with_coda(chars: &mut Vec<char>)
    ensures
        final(chars)@ == spec_promote_uo(old(chars)@),
{
    let ghost s = chars@;
    if chars.len() < 3 {
        assert(chars@ =~= spec_promote_uo(s));
        return;
    }
    let mut i: usize = 0;
    while i < chars.len() - 2
        invariant
            chars.len() == s.len(),
            s.len() >= 3,
            i <= s.len() - 2,
            forall|j: int| 0 <= j < i ==> chars@[j] == #[trigger] spec_promote_uo(s)[j],
            forall|j: int| i <= j < s.len() ==> chars@[j] == s[j],
        decreases s.len() - i,
    {
        if is_u_or_uw(chars[i]) && is_o_horn_or_marked(chars[i + 1]) && is_coda_consonant(
            chars[i + 2],
        ) {
            let c = if char_is_uppercase(chars[i]) {
                'Ư'
            } else {
                'ư'
            };
            chars.set(i, c);
        }
        i = i + 1;
    }
    assert(chars@ =~= spec_promote_uo(s));
}

/// `u` or `ư`, toned or not, in either case.
fn is_u_or_uw(ch: char) -> (r: bool)
    ensures
        r == spec_is_u_or_uw(ch),
{
    match strip_tone(ch) {
        'u' | 'ư' | 'U' | 'Ư' => true,
        _ => false,
    }
}

/// `ơ`, toned or not, in either case.
fn is_o_horn_or_marked(ch: char) -> (r: bool)
    ensures
        r == spec_is_o_horn_or_marked(ch),
{
    match strip_tone(ch) {
        'ơ' | 'Ơ' => true,
        _ => false,
    }
}

/// A letter that is not a vowel.
fn is_coda_consonant(ch: char) -> (r: bool)
    ensures
        r == spec_is_coda_consonant(ch),
{
    char_is_alphabetic(ch) && !is_vowel_or_marked(ch)
}

} // verus!
