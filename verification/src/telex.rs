//! The Telex convention: letters typed after a syllable give it tones
//! (s f r x j) and shapes (aa ee oo dd, and w for breve and horn).
use vstd::prelude::*;

use crate::text::{
    ascii_lower, char_is_alphabetic, char_is_uppercase, is_alphabetic_char, is_uppercase_char,
    spec_ascii_lower,
};
use crate::tone::{
    apply_tone, detect_tone, is_vowel_or_marked, spec_apply_tone,
    spec_detect_tone, spec_is_vowel_or_marked, spec_strip_tone, spec_tone_mark, strip_tone,
    tone_mark,
};
use crate::Tone;

verus! {

// ----------------------------------------------------------------------------
// Specification
// ----------------------------------------------------------------------------

/// The tone that a Telex tone key gives: s acute, f grave, r hook, x tilde, j dot,
/// in either case.
pub open spec fn telex_key_tone(c: char) -> Option<Tone> {
    let l = spec_ascii_lower(c);
    if l == 's' {
        Some(Tone::Acute)
    } else if l == 'f' {
        Some(Tone::Grave)
    } else if l == 'r' {
        Some(Tone::Hook)
    } else if l == 'x' {
        Some(Tone::Tilde)
    } else if l == 'j' {
        Some(Tone::Dot)
    } else {
        None
    }
}

/// The shape key `key` (in lower case) can reshape the letter `c`: a doubled
/// `a`, `e` or `o` the same vowel, `w` a `u`, `ư`, `o` or `a`, and `d` a `d`.
pub open spec fn spec_can_reshape(key: char, c: char) -> bool {
    let b = spec_ascii_lower(spec_strip_tone(c));
    if key == 'a' || key == 'e' || key == 'o' {
        b == key
    } else if key == 'w' {
        spec_is_u_or_uw(c) || b == 'o' || b == 'a'
    } else if key == 'd' {
        c == 'd' || c == 'D'
    } else {
        false
    }
}

/// The key at `p` is a shape key with a letter before it to reshape.
pub open spec fn shape_key_has_target(s: Seq<char>, p: int) -> bool {
    exists|i: int| 0 <= i < p && spec_can_reshape(spec_ascii_lower(s[p]), #[trigger] s[i])
}

/// Every key after `idx` is a shape key with a letter before it to reshape.
pub open spec fn shape_keys_after(s: Seq<char>, idx: int) -> bool {
    forall|p: int| idx < p < s.len() ==> shape_key_has_target(s, p)
}

/// `s` has a vowel, toned or not.
pub open spec fn has_vowel(s: Seq<char>) -> bool {
    exists|i: int| 0 <= i < s.len() && spec_is_vowel_or_marked(#[trigger] s[i])
}

/// The number of maximal runs of consecutive vowels in `s`.
pub open spec fn vowel_clusters(s: Seq<char>) -> nat
    decreases s.len(),
{
    if s.len() == 0 {
        0
    } else {
        let starts_run = spec_is_vowel_or_marked(s.last()) && (s.len() == 1
            || !spec_is_vowel_or_marked(s[s.len() - 2]));
        vowel_clusters(s.drop_last()) + if starts_run {
            1nat
        } else {
            0nat
        }
    }
}

/// The key at `idx` counts as the tone key of `s`: it is a tone key, a vowel
/// comes before it, and either it is followed only by shape keys that each have a
/// letter before them to reshape, or nothing follows it and the letters before
/// it hold exactly one run of vowels.
pub open spec fn telex_tone_at(s: Seq<char>, idx: int) -> bool {
    &&& telex_key_tone(s[idx]) is Some
    &&& if idx + 1 == s.len() {
        vowel_clusters(s.take(idx)) == 1
    } else {
        shape_keys_after(s, idx)
    }
    &&& has_vowel(s.take(idx))
}

/// The last position below `k` that counts as the tone key of `s`.
pub open spec fn telex_tone_pos(s: Seq<char>, k: int) -> Option<int>
    decreases k,
{
    if k <= 0 {
        None
    } else if telex_tone_at(s, k - 1) {
        Some(k - 1)
    } else {
        telex_tone_pos(s, k - 1)
    }
}

/// Takes the tone key out of a Telex syllable: the last key that counts as the
/// tone key is removed and its tone returned; with no such key the syllable is
/// kept and the tone is level.
pub open spec fn spec_parse_telex_tone(s: Seq<char>) -> (Seq<char>, Tone) {
    match telex_tone_pos(s, s.len() as int) {
        Some(i) => (s.remove(i), telex_key_tone(s[i]).unwrap()),
        None => (s, Tone::Level),
    }
}

/// The last position below `k` whose character satisfies `p`.
pub open spec fn last_before(s: Seq<char>, k: int, p: spec_fn(char) -> bool) -> Option<int>
    decreases k,
{
    if k <= 0 {
        None
    } else if p(s[k - 1]) {
        Some(k - 1)
    } else {
        last_before(s, k - 1, p)
    }
}

/// The toneless form of `c` is `target` in ASCII lower case.
pub open spec fn base_is(target: char) -> spec_fn(char) -> bool {
    |c: char| spec_ascii_lower(spec_strip_tone(c)) == target
}

/// `u` or `ư`, toned or not, in either case.
pub open spec fn spec_is_u_or_uw(c: char) -> bool {
    let b = spec_strip_tone(c);
    b == 'u' || b == 'ư' || b == 'U' || b == 'Ư'
}

/// The predicate `spec_is_u_or_uw`, as a value.
pub open spec fn u_family() -> spec_fn(char) -> bool {
    |c: char| spec_is_u_or_uw(c)
}

/// `ơ`, toned or not, in either case.
pub open spec fn spec_is_o_horn_or_marked(c: char) -> bool {
    let b = spec_strip_tone(c);
    b == 'ơ' || b == 'Ơ'
}

/// A letter that is not a vowel.
pub open spec fn spec_is_coda_consonant(c: char) -> bool {
    is_alphabetic_char(c) && !spec_is_vowel_or_marked(c)
}

/// `s` with the character at `i` reshaped to `lower` or `upper` (after the case of
/// the character), keeping its tone, and the marker key at `m` removed.
pub open spec fn reshape(s: Seq<char>, i: int, lower: char, upper: char, m: int) -> Seq<char> {
    let base = if is_uppercase_char(s[i]) {
        upper
    } else {
        lower
    };
    s.update(i, spec_tone_mark(base, spec_detect_tone(s[i]))).remove(m)
}

/// A doubled vowel key at `m` gives the circumflex to the last `target` vowel before it.
pub open spec fn spec_shape_before(
    s: Seq<char>,
    m: int,
    target: char,
    lower: char,
    upper: char,
) -> Option<Seq<char>> {
    match last_before(s, m, base_is(target)) {
        Some(i) => Some(reshape(s, i, lower, upper, m)),
        None => None,
    }
}

/// The last position `i` in `1..k` where `s[i - 1]` and `s[i]` are `u` and `o`
/// (toneless, either case).
pub open spec fn uo_pair_before(s: Seq<char>, k: int) -> Option<int>
    decreases k,
{
    if k <= 1 {
        None
    } else if spec_ascii_lower(spec_strip_tone(s[k - 2])) == 'u' && spec_ascii_lower(
        spec_strip_tone(s[k - 1]),
    ) == 'o' {
        Some(k - 1)
    } else {
        uo_pair_before(s, k - 1)
    }
}

/// A `w` key at `m` gives a horn to the `o` of the last "uo" before it; else a
/// horn to the last `u`; else a horn to the last `o`; else a breve to the last `a`.
pub open spec fn spec_w_marker(s: Seq<char>, m: int) -> Option<Seq<char>> {
    if m == 0 {
        None
    } else {
        match uo_pair_before(s, m) {
            Some(i) => Some(reshape(s, i, 'ơ', 'Ơ', m)),
            None => match last_before(s, m, u_family()) {
                Some(i) => Some(reshape(s, i, 'ư', 'Ư', m)),
                None => match last_before(s, m, base_is('o')) {
                    Some(i) => Some(reshape(s, i, 'ơ', 'Ơ', m)),
                    None => match last_before(s, m, base_is('a')) {
                        Some(i) => Some(reshape(s, i, 'ă', 'Ă', m)),
                        None => None,
                    },
                },
            },
        }
    }
}

/// The effect of the shape key at `idx`, if it has one: `dd` gives `đ`; a doubled
/// `a`, `e` or `o` gives the circumflex; `w` gives a breve or a horn.
pub open spec fn spec_telex_marker_at(s: Seq<char>, idx: int) -> Option<Seq<char>> {
    let l = spec_ascii_lower(s[idx]);
    if l == 'd' {
        if idx > 0 && (s[idx - 1] == 'd' || s[idx - 1] == 'D') {
            let d = if is_uppercase_char(s[idx - 1]) {
                'Đ'
            } else {
                'đ'
            };
            Some(s.update(idx - 1, d).remove(idx))
        } else {
            None
        }
    } else if l == 'a' {
        spec_shape_before(s, idx, 'a', 'â', 'Â')
    } else if l == 'e' {
        spec_shape_before(s, idx, 'e', 'ê', 'Ê')
    } else if l == 'o' {
        spec_shape_before(s, idx, 'o', 'ô', 'Ô')
    } else if l == 'w' {
        spec_w_marker(s, idx)
    } else {
        None
    }
}

/// The effect of the last shape key below `k` that has one.
pub open spec fn telex_marker_step(s: Seq<char>, k: int) -> Option<Seq<char>>
    decreases k,
{
    if k <= 0 {
        None
    } else {
        match spec_telex_marker_at(s, k - 1) {
            Some(t) => Some(t),
            None => telex_marker_step(s, k - 1),
        }
    }
}

/// Applies shape keys, the last effective one first, until none has an effect.
pub open spec fn spec_telex_shapes(s: Seq<char>) -> Seq<char>
    decreases s.len(),
{
    match telex_marker_step(s, s.len() as int) {
        Some(t) => {
            proof {
                lemma_marker_step_len(s, s.len() as int);
            }
            spec_telex_shapes(t)
        },
        None => s,
    }
}

/// `u` before `ơ` before a final consonant becomes `ư` (as in "thương").
pub open spec fn uo_coda_at(s: Seq<char>, i: int) -> bool {
    &&& 0 <= i
    &&& i + 2 < s.len()
    &&& spec_is_u_or_uw(s[i])
    &&& spec_is_o_horn_or_marked(s[i + 1])
    &&& spec_is_coda_consonant(s[i + 2])
}

/// Every `u` of a "uơ" followed by a final consonant becomes a toneless `ư`
/// (`Ư` when it was upper case); every other character is kept.
pub open spec fn spec_promote_uo(s: Seq<char>) -> Seq<char> {
    Seq::new(
        s.len(),
        |i: int|
            if uo_coda_at(s, i) {
                if is_uppercase_char(s[i]) {
                    'Ư'
                } else {
                    'ư'
                }
            } else {
                s[i]
            },
    )
}

/// The syllable that a run of Telex keys composes: the tone key is taken out,
/// the shape keys are applied, the tone is put on, and "uơ" before a final
/// consonant becomes "ươ".
pub open spec fn spec_telex_syllable(raw: Seq<char>) -> Seq<char> {
    let (keys, tone) = spec_parse_telex_tone(raw);
    spec_promote_uo(spec_apply_tone(spec_telex_shapes(keys), tone))
}

// ----------------------------------------------------------------------------
// Lemmas
// ----------------------------------------------------------------------------

pub proof fn lemma_last_before(s: Seq<char>, k: int, p: spec_fn(char) -> bool)
    requires
        k <= s.len(),
    ensures
        last_before(s, k, p) matches Some(i) ==> 0 <= i < k && p(s[i]) && forall|j: int|
            i < j < k ==> !p(#[trigger] s[j]),
        last_before(s, k, p) is None ==> forall|j: int| 0 <= j < k ==> !p(#[trigger] s[j]),
    decreases k,
{
    if k > 0 && !p(s[k - 1]) {
        lemma_last_before(s, k - 1, p);
    }
}

pub proof fn lemma_uo_pair_before(s: Seq<char>, k: int)
    requires
        k <= s.len(),
    ensures
        uo_pair_before(s, k) matches Some(i) ==> 1 <= i < k,
    decreases k,
{
    if k > 1 {
        lemma_uo_pair_before(s, k - 1);
    }
}

pub proof fn lemma_marker_at_len(s: Seq<char>, idx: int)
    requires
        0 <= idx < s.len(),
    ensures
        spec_telex_marker_at(s, idx) matches Some(t) ==> t.len() + 1 == s.len(),
{
    lemma_last_before(s, idx, base_is('a'));
    lemma_last_before(s, idx, base_is('e'));
    lemma_last_before(s, idx, base_is('o'));
    lemma_last_before(s, idx, u_family());
    lemma_uo_pair_before(s, idx);
}

pub proof fn lemma_marker_step_len(s: Seq<char>, k: int)
    requires
        k <= s.len(),
    ensures
        telex_marker_step(s, k) matches Some(t) ==> t.len() + 1 == s.len(),
    decreases k,
{
    if k > 0 {
        lemma_marker_at_len(s, k - 1);
        lemma_marker_step_len(s, k - 1);
    }
}

/// Applying the shape keys never lengthens a syllable.
pub proof fn lemma_telex_shapes_len(s: Seq<char>)
    ensures
        spec_telex_shapes(s).len() <= s.len(),
    decreases s.len(),
{
    lemma_marker_step_len(s, s.len() as int);
    if let Some(t) = telex_marker_step(s, s.len() as int) {
        lemma_telex_shapes_len(t);
    }
}

pub proof fn lemma_telex_tone_pos(s: Seq<char>, k: int)
    requires
        k <= s.len(),
    ensures
        telex_tone_pos(s, k) matches Some(i) ==> 0 <= i < k,
    decreases k,
{
    if k > 0 && !telex_tone_at(s, k - 1) {
        lemma_telex_tone_pos(s, k - 1);
    }
}

/// A Telex syllable is never longer than the keys that spell it.
pub proof fn lemma_telex_syllable_len(raw: Seq<char>)
    ensures
        spec_telex_syllable(raw).len() <= raw.len(),
{
    lemma_telex_tone_pos(raw, raw.len() as int);
    let (keys, tone) = spec_parse_telex_tone(raw);
    lemma_telex_shapes_len(keys);
    crate::tone::law_apply_tone_changes_only_the_tone(spec_telex_shapes(keys), tone);
}

/// Keys that Telex reads as plain letters: ASCII letters, none of them a tone key
/// (s, f, r, x, j) or `w`, and no `a`, `e`, `o` or `d` that repeats an earlier one,
/// in either case.
pub open spec fn plain_telex_letters(s: Seq<char>) -> bool {
    &&& forall|i: int|
        0 <= i < s.len() ==> {
            let c = #[trigger] s[i];
            let l = spec_ascii_lower(c);
            &&& (('a' <= c && c <= 'z') || ('A' <= c && c <= 'Z'))
            &&& telex_key_tone(c) is None
            &&& l != 'w'
        }
    &&& forall|i: int, j: int|
        0 <= i < j < s.len() ==> {
            let l = spec_ascii_lower(#[trigger] s[j]);
            (l == 'a' || l == 'e' || l == 'o' || l == 'd') ==> spec_ascii_lower(#[trigger] s[i])
                != l
        }
}

pub proof fn lemma_plain_no_tone_pos(s: Seq<char>, k: int)
    requires
        k <= s.len(),
        plain_telex_letters(s),
    ensures
        telex_tone_pos(s, k) is None,
    decreases k,
{
    if k > 0 {
        assert(telex_key_tone(s[k - 1]) is None);
        lemma_plain_no_tone_pos(s, k - 1);
    }
}

pub proof fn lemma_plain_no_marker(s: Seq<char>, k: int)
    requires
        k <= s.len(),
        plain_telex_letters(s),
    ensures
        telex_marker_step(s, k) is None,
    decreases k,
{
    if k > 0 {
        let idx = k - 1;
        let c = s[idx];
        let l = spec_ascii_lower(c);
        assert(('a' <= c && c <= 'z') || ('A' <= c && c <= 'Z'));
        assert(l != 'w');
        if l == 'd' && idx > 0 {
            assert(spec_ascii_lower(s[idx - 1]) != l);
        }
        if l == 'a' || l == 'e' || l == 'o' {
            lemma_last_before(s, idx, base_is(l));
            if let Some(i) = last_before(s, idx, base_is(l)) {
                let d = s[i];
                assert(('a' <= d && d <= 'z') || ('A' <= d && d <= 'Z'));
                assert(spec_strip_tone(d) == d);
                assert(spec_ascii_lower(s[i]) != l);
            }
        }
        assert(spec_telex_marker_at(s, idx) is None);
        lemma_plain_no_marker(s, k - 1);
    }
}

/// Telex keys that are plain letters (see `plain_telex_letters`) compose to themselves.
pub proof fn law_telex_keeps_plain_letters(raw: Seq<char>)
    requires
        plain_telex_letters(raw),
    ensures
        spec_telex_syllable(raw) == raw,
{
    lemma_plain_no_tone_pos(raw, raw.len() as int);
    lemma_plain_no_marker(raw, raw.len() as int);
    assert(spec_telex_shapes(raw) == raw);
    assert forall|i: int| 0 <= i < raw.len() implies !uo_coda_at(raw, i) by {
        if i + 1 < raw.len() {
            let c = raw[i + 1];
            assert(('a' <= c && c <= 'z') || ('A' <= c && c <= 'Z'));
        }
    }
    assert(spec_promote_uo(raw) =~= raw);
}

/// The syllable of a consonant, a toneless vowel and a key that gives `tone`.
proof fn lemma_telex_consonant_vowel_key(c: char, v: char, k: char, tone: Tone)
    requires
        !spec_is_vowel_or_marked(c),
        telex_key_tone(c) is None,
        crate::tone::spec_is_vowel(v),
        telex_key_tone(k) == Some(tone),
    ensures
        spec_telex_syllable(seq![c, v, k]) == seq![c, spec_tone_mark(v, tone)],
{
    let s = seq![c, v, k];
    let front = s.take(2);
    assert(front =~= seq![c, v]);
    assert(front.drop_last() =~= seq![c]);
    assert(seq![c].drop_last() =~= Seq::<char>::empty());
    assert(vowel_clusters(Seq::<char>::empty()) == 0);
    assert(seq![c].last() == c);
    assert(vowel_clusters(seq![c]) == 0);
    assert(vowel_clusters(front) == 1);
    assert(front[1] == v && spec_is_vowel_or_marked(v));
    assert(has_vowel(front));
    assert(telex_tone_at(s, 2));
    assert(telex_tone_pos(s, 3) == Some(2int));
    let t = s.remove(2);
    assert(t =~= seq![c, v]);
    let l = spec_ascii_lower(v);
    if l == 'a' || l == 'e' || l == 'o' {
        assert(!base_is(l)(c));
        assert(last_before(t, 0, base_is(l)) is None);
        assert(last_before(t, 1, base_is(l)) is None);
    }
    assert(spec_telex_marker_at(t, 1) is None);
    assert(spec_telex_marker_at(t, 0) is None);
    assert(telex_marker_step(t, 0) is None);
    assert(telex_marker_step(t, 1) is None);
    assert(telex_marker_step(t, 2) is None);
    assert(spec_telex_shapes(t) == t);
    crate::tone::law_consonant_vowel_tone_on_vowel(c, v, tone);
    let u = seq![c, spec_tone_mark(v, tone)];
    assert(spec_promote_uo(u) =~= u);
}

/// Telex tone keys: after a consonant and a toneless vowel, `s` gives the acute,
/// `f` the grave, `r` the hook, `x` the tilde and `j` the dot tone on the vowel,
/// in either case; the key itself is removed.
#[verifier::spinoff_prover]
#[verifier::rlimit(50)]
pub proof fn law_telex_tone_keys(c: char, v: char)
    requires
        !spec_is_vowel_or_marked(c),
        telex_key_tone(c) is None,
        crate::tone::spec_is_vowel(v),
    ensures
        spec_telex_syllable(seq![c, v, 's']) == seq![c, spec_tone_mark(v, Tone::Acute)],
        spec_telex_syllable(seq![c, v, 'f']) == seq![c, spec_tone_mark(v, Tone::Grave)],
        spec_telex_syllable(seq![c, v, 'r']) == seq![c, spec_tone_mark(v, Tone::Hook)],
        spec_telex_syllable(seq![c, v, 'x']) == seq![c, spec_tone_mark(v, Tone::Tilde)],
        spec_telex_syllable(seq![c, v, 'j']) == seq![c, spec_tone_mark(v, Tone::Dot)],
        spec_telex_syllable(seq![c, v, 'S']) == seq![c, spec_tone_mark(v, Tone::Acute)],
        spec_telex_syllable(seq![c, v, 'F']) == seq![c, spec_tone_mark(v, Tone::Grave)],
        spec_telex_syllable(seq![c, v, 'R']) == seq![c, spec_tone_mark(v, Tone::Hook)],
        spec_telex_syllable(seq![c, v, 'X']) == seq![c, spec_tone_mark(v, Tone::Tilde)],
        spec_telex_syllable(seq![c, v, 'J']) == seq![c, spec_tone_mark(v, Tone::Dot)],
{
    assert(spec_telex_syllable(seq![c, v, 's']) == seq![c, spec_tone_mark(v, Tone::Acute)]) by {
        lemma_telex_consonant_vowel_key(c, v, 's', Tone::Acute);
    }
    assert(spec_telex_syllable(seq![c, v, 'f']) == seq![c, spec_tone_mark(v, Tone::Grave)]) by {
        lemma_telex_consonant_vowel_key(c, v, 'f', Tone::Grave);
    }
    assert(spec_telex_syllable(seq![c, v, 'r']) == seq![c, spec_tone_mark(v, Tone::Hook)]) by {
        lemma_telex_consonant_vowel_key(c, v, 'r', Tone::Hook);
    }
    assert(spec_telex_syllable(seq![c, v, 'x']) == seq![c, spec_tone_mark(v, Tone::Tilde)]) by {
        lemma_telex_consonant_vowel_key(c, v, 'x', Tone::Tilde);
    }
    assert(spec_telex_syllable(seq![c, v, 'j']) == seq![c, spec_tone_mark(v, Tone::Dot)]) by {
        lemma_telex_consonant_vowel_key(c, v, 'j', Tone::Dot);
    }
    assert(spec_telex_syllable(seq![c, v, 'S']) == seq![c, spec_tone_mark(v, Tone::Acute)]) by {
        lemma_telex_consonant_vowel_key(c, v, 'S', Tone::Acute);
    }
    assert(spec_telex_syllable(seq![c, v, 'F']) == seq![c, spec_tone_mark(v, Tone::Grave)]) by {
        lemma_telex_consonant_vowel_key(c, v, 'F', Tone::Grave);
    }
    assert(spec_telex_syllable(seq![c, v, 'R']) == seq![c, spec_tone_mark(v, Tone::Hook)]) by {
        lemma_telex_consonant_vowel_key(c, v, 'R', Tone::Hook);
    }
    assert(spec_telex_syllable(seq![c, v, 'X']) == seq![c, spec_tone_mark(v, Tone::Tilde)]) by {
        lemma_telex_consonant_vowel_key(c, v, 'X', Tone::Tilde);
    }
    assert(spec_telex_syllable(seq![c, v, 'J']) == seq![c, spec_tone_mark(v, Tone::Dot)]) by {
        lemma_telex_consonant_vowel_key(c, v, 'J', Tone::Dot);
    }
}

/// `đ` in the case of `c`.
pub open spec fn d_stroke_like(c: char) -> char {
    if is_uppercase_char(c) {
        'Đ'
    } else {
        'đ'
    }
}

/// Telex `dd`: two `d` keys (either case) before a toneless vowel compose `đ`,
/// in the case of the first of the two keys, followed by the vowel.
#[verifier::spinoff_prover]
#[verifier::rlimit(50)]
pub proof fn law_telex_dd_takes_case_of_first_d(c1: char, c2: char, v: char)
    requires
        c1 == 'd' || c1 == 'D',
        c2 == 'd' || c2 == 'D',
        crate::tone::spec_is_vowel(v),
    ensures
        spec_telex_syllable(seq![c1, c2, v]) == seq![d_stroke_like(c1), v],
{
    let s = seq![c1, c2, v];
    assert(telex_key_tone(v) is None);
    assert(!telex_tone_at(s, 2));
    assert(!telex_tone_at(s, 1));
    assert(!telex_tone_at(s, 0));
    assert(telex_tone_pos(s, 3) is None) by {
        assert(telex_tone_pos(s, 0) is None);
        assert(telex_tone_pos(s, 1) is None);
        assert(telex_tone_pos(s, 2) is None);
    }
    let l = spec_ascii_lower(v);
    if l == 'a' || l == 'e' || l == 'o' {
        assert(!base_is(l)(c1) && !base_is(l)(c2));
        assert(last_before(s, 0, base_is(l)) is None);
        assert(last_before(s, 1, base_is(l)) is None);
        assert(last_before(s, 2, base_is(l)) is None);
    }
    assert(spec_telex_marker_at(s, 2) is None);
    let t = s.update(0, d_stroke_like(c1)).remove(1);
    assert(t =~= seq![d_stroke_like(c1), v]);
    assert(spec_telex_marker_at(s, 1) == Some(t));
    assert(telex_marker_step(s, 2) == Some(t));
    assert(telex_marker_step(s, 3) == Some(t));
    if l == 'a' || l == 'e' || l == 'o' {
        assert(!base_is(l)(d_stroke_like(c1)));
        assert(last_before(t, 0, base_is(l)) is None);
        assert(last_before(t, 1, base_is(l)) is None);
    }
    assert(spec_telex_marker_at(t, 1) is None);
    assert(spec_telex_marker_at(t, 0) is None);
    assert(telex_marker_step(t, 0) is None);
    assert(telex_marker_step(t, 1) is None);
    assert(telex_marker_step(t, 2) is None);
    assert(spec_telex_shapes(t) == t);
    assert(spec_telex_shapes(s) == t);
    assert(spec_promote_uo(t) =~= t);
}

/// `ư` in the case of `c`: `Ư` when `c` is upper case, else `ư`.
pub open spec fn u_horn_like(c: char) -> char {
    if is_uppercase_char(c) {
        'Ư'
    } else {
        'ư'
    }
}

/// `ơ` in the case of `c`.
pub open spec fn o_horn_like(c: char) -> char {
    if is_uppercase_char(c) {
        'Ơ'
    } else {
        'ơ'
    }
}

/// Telex "uow" between an initial consonant and a final consonant composes "ươ":
/// the `w` gives the `o` a horn and then the `u` one too, and each of the two
/// letters keeps its own case ("Huowng" gives "Hương", "HUOWNG" gives "HƯƠNG").
#[verifier::spinoff_prover]
#[verifier::rlimit(50)]
pub proof fn law_telex_uow_keeps_each_letter_case(
    x: char,
    u: char,
    o: char,
    w: char,
    n: char,
)
    requires
        !spec_is_vowel_or_marked(x),
        !spec_is_vowel_or_marked(n),
        is_alphabetic_char(n),
        telex_key_tone(x) is None,
        telex_key_tone(n) is None,
        spec_ascii_lower(n) != 'w',
        u == 'u' || u == 'U',
        o == 'o' || o == 'O',
        w == 'w' || w == 'W',
    ensures
        spec_telex_syllable(seq![x, u, o, w, n]) == seq![x, u_horn_like(u), o_horn_like(o), n],
{
    let s = seq![x, u, o, w, n];
    assert(telex_tone_pos(s, 5) is None) by {
        assert(!telex_tone_at(s, 4));
        assert(!telex_tone_at(s, 3));
        assert(!telex_tone_at(s, 2));
        assert(!telex_tone_at(s, 1));
        assert(!telex_tone_at(s, 0));
        assert(telex_tone_pos(s, 0) is None);
        assert(telex_tone_pos(s, 1) is None);
        assert(telex_tone_pos(s, 2) is None);
        assert(telex_tone_pos(s, 3) is None);
        assert(telex_tone_pos(s, 4) is None);
    }
    assert(spec_ascii_lower(n) != 'a' && spec_ascii_lower(n) != 'e' && spec_ascii_lower(n) != 'o');
    assert(spec_telex_marker_at(s, 4) is None);
    assert(spec_detect_tone(o) == Tone::Level);
    assert(uo_pair_before(s, 3) == Some(2int));
    let t = s.update(2, o_horn_like(o)).remove(3);
    assert(reshape(s, 2, 'ơ', 'Ơ', 3) == t);
    assert(t =~= seq![x, u, o_horn_like(o), n]);
    assert(spec_telex_marker_at(s, 3) == Some(t));
    assert(telex_marker_step(s, 4) == Some(t));
    assert(telex_marker_step(s, 5) == Some(t));
    assert(spec_telex_marker_at(t, 3) is None);
    assert(spec_telex_marker_at(t, 2) is None);
    assert(spec_telex_marker_at(t, 1) is None);
    assert(spec_telex_marker_at(t, 0) is None);
    assert(telex_marker_step(t, 0) is None);
    assert(telex_marker_step(t, 1) is None);
    assert(telex_marker_step(t, 2) is None);
    assert(telex_marker_step(t, 3) is None);
    assert(telex_marker_step(t, 4) is None);
    assert(spec_telex_shapes(t) == t);
    assert(spec_telex_shapes(s) == t);
    assert(spec_apply_tone(t, Tone::Level) == t);
    assert(uo_coda_at(t, 1));
    assert(!uo_coda_at(t, 0));
    assert(spec_promote_uo(t) =~= seq![x, u_horn_like(u), o_horn_like(o), n]);
}

/// `lower` or `upper`, after the case of `c`.
pub open spec fn in_case_of(c: char, lower: char, upper: char) -> char {
    if is_uppercase_char(c) {
        upper
    } else {
        lower
    }
}

/// The vowel with a circumflex that a doubled `a`, `e` or `o` gives, in the case
/// of the first of the two keys.
pub open spec fn circumflex_of(v: char) -> char {
    let l = spec_ascii_lower(v);
    if l == 'a' {
        in_case_of(v, 'â', 'Â')
    } else if l == 'e' {
        in_case_of(v, 'ê', 'Ê')
    } else if l == 'o' {
        in_case_of(v, 'ô', 'Ô')
    } else {
        v
    }
}

/// The vowel that a `w` after it gives: `a` takes the breve, `o` and `u` the horn,
/// each in the case of the vowel key.
pub open spec fn w_shape_of(v: char) -> char {
    let l = spec_ascii_lower(v);
    if l == 'a' {
        in_case_of(v, 'ă', 'Ă')
    } else if l == 'o' {
        in_case_of(v, 'ơ', 'Ơ')
    } else if l == 'u' {
        in_case_of(v, 'ư', 'Ư')
    } else {
        v
    }
}

/// A consonant `c` followed by a shaped vowel `r` composes to itself.
proof fn lemma_telex_after_shape(c: char, r: char)
    requires
        !spec_is_vowel_or_marked(c),
        r == 'â' || r == 'Â' || r == 'ê' || r == 'Ê' || r == 'ô' || r == 'Ô' || r == 'ă' || r
            == 'Ă' || r == 'ơ' || r == 'Ơ' || r == 'ư' || r == 'Ư',
    ensures
        spec_telex_shapes(seq![c, r]) == seq![c, r],
        spec_promote_uo(spec_apply_tone(seq![c, r], Tone::Level)) == seq![c, r],
{
    let t = seq![c, r];
    assert(spec_ascii_lower(r) == r);
    assert(spec_telex_marker_at(t, 1) is None);
    assert(spec_telex_marker_at(t, 0) is None);
    assert(telex_marker_step(t, 0) is None);
    assert(telex_marker_step(t, 1) is None);
    assert(telex_marker_step(t, 2) is None);
    assert(spec_promote_uo(t) =~= t);
}

/// Three keys, a consonant `c`, a vowel `v` and a shape key `k`, hold no tone key.
proof fn lemma_telex_no_tone_in_shape_keys(c: char, v: char, k: char)
    requires
        crate::tone::spec_is_vowel(v),
        telex_key_tone(k) is None,
    ensures
        spec_parse_telex_tone(seq![c, v, k]) == (seq![c, v, k], Tone::Level),
{
    let s = seq![c, v, k];
    assert(telex_key_tone(v) is None);
    assert(!telex_tone_at(s, 2));
    assert(!telex_tone_at(s, 1));
    assert(!telex_tone_at(s, 0));
    assert(telex_tone_pos(s, 0) is None);
    assert(telex_tone_pos(s, 1) is None);
    assert(telex_tone_pos(s, 2) is None);
    assert(telex_tone_pos(s, 3) is None);
}

/// Telex doubled vowels: after a consonant, `aa`, `ee` and `oo` (the second key
/// in either case) compose `â`, `ê` and `ô`, in the case of the first key.
#[verifier::spinoff_prover]
#[verifier::rlimit(50)]
pub proof fn law_telex_doubled_vowel_circumflex(c: char, v: char, k: char)
    requires
        !spec_is_vowel_or_marked(c),
        v == 'a' || v == 'A' || v == 'e' || v == 'E' || v == 'o' || v == 'O',
        spec_ascii_lower(k) == spec_ascii_lower(v),
    ensures
        spec_telex_syllable(seq![c, v, k]) == seq![c, circumflex_of(v)],
{
    let s = seq![c, v, k];
    let l = spec_ascii_lower(v);
    assert(k == 'a' || k == 'A' || k == 'e' || k == 'E' || k == 'o' || k == 'O');
    lemma_telex_no_tone_in_shape_keys(c, v, k);
    assert(spec_strip_tone(v) == v);
    assert(base_is(l)(v));
    assert(last_before(s, 2, base_is(l)) == Some(1int));
    assert(spec_detect_tone(v) == Tone::Level);
    let t = seq![c, circumflex_of(v)];
    if l == 'a' {
        assert(reshape(s, 1, 'â', 'Â', 2) =~= t);
    } else if l == 'e' {
        assert(reshape(s, 1, 'ê', 'Ê', 2) =~= t);
    } else {
        assert(reshape(s, 1, 'ô', 'Ô', 2) =~= t);
    }
    assert(spec_telex_marker_at(s, 2) == Some(t));
    assert(telex_marker_step(s, 3) == Some(t));
    lemma_telex_after_shape(c, circumflex_of(v));
    assert(spec_telex_shapes(s) == t);
}

/// Telex `w`: after a consonant, `aw` composes `ă`, `ow` composes `ơ` and `uw`
/// composes `ư` (the `w` in either case), each in the case of the vowel key.
#[verifier::spinoff_prover]
#[verifier::rlimit(50)]
pub proof fn law_telex_w_breve_and_horn(c: char, v: char, w: char)
    requires
        !spec_is_vowel_or_marked(c),
        v == 'a' || v == 'A' || v == 'o' || v == 'O' || v == 'u' || v == 'U',
        w == 'w' || w == 'W',
    ensures
        spec_telex_syllable(seq![c, v, w]) == seq![c, w_shape_of(v)],
{
    let s = seq![c, v, w];
    lemma_telex_no_tone_in_shape_keys(c, v, w);
    assert(spec_strip_tone(v) == v);
    assert(uo_pair_before(s, 1) is None);
    assert(uo_pair_before(s, 2) is None);
    assert(spec_detect_tone(v) == Tone::Level);
    let t = seq![c, w_shape_of(v)];
    let l = spec_ascii_lower(v);
    assert(!spec_is_u_or_uw(c));
    assert(last_before(s, 0, u_family()) is None);
    assert(last_before(s, 1, u_family()) is None);
    if l == 'a' {
        assert(!base_is('o')(c) && !base_is('a')(c));
        assert(last_before(s, 0, base_is('o')) is None);
        assert(last_before(s, 1, base_is('o')) is None);
        assert(last_before(s, 2, base_is('o')) is None);
        assert(last_before(s, 2, base_is('a')) == Some(1int));
        assert(reshape(s, 1, 'ă', 'Ă', 2) =~= t);
    } else if l == 'o' {
        assert(last_before(s, 2, base_is('o')) == Some(1int));
        assert(reshape(s, 1, 'ơ', 'Ơ', 2) =~= t);
    } else {
        assert(last_before(s, 2, u_family()) == Some(1int));
        assert(reshape(s, 1, 'ư', 'Ư', 2) =~= t);
    }
    assert(spec_telex_marker_at(s, 2) == Some(t));
    assert(telex_marker_step(s, 3) == Some(t));
    lemma_telex_after_shape(c, w_shape_of(v));
    assert(spec_telex_shapes(s) == t);
}

// ----------------------------------------------------------------------------
// Implementation
// ----------------------------------------------------------------------------

/// Composes a Telex syllable from its keys.
pub fn transform_from_raw(raw: &[char]) -> (r: Vec<char>)
    ensures
        r@ == spec_telex_syllable(raw@),
{
    let mut chars = vstd::slice::slice_to_vec(raw);
    let tone = parse_telex_tone(&mut chars);
    apply_telex_shapes(&mut chars);
    apply_tone(&mut chars, tone);
    promote_uo_with_coda(&mut chars);
    chars
}

/// Removes the tone key from `chars` and returns its tone.
pub fn parse_telex_tone(chars: &mut Vec<char>) -> (r: Tone)
    ensures
        (final(chars)@, r) == spec_parse_telex_tone(old(chars)@),
{
    let ghost s = chars@;
    let mut k: usize = chars.len();
    while k > 0
        invariant
            chars@ == s,
            s == old(chars)@,
            k <= s.len(),
            telex_tone_pos(s, s.len() as int) == telex_tone_pos(s, k as int),
        decreases k,
    {
        let idx = k - 1;
        let tone = match ascii_lower(chars[idx]) {
            's' => Tone::Acute,
            'f' => Tone::Grave,
            'r' => Tone::Hook,
            'x' => Tone::Tilde,
            'j' => Tone::Dot,
            _ => {
                k = idx;
                continue;
            },
        };
        assert(telex_key_tone(s[idx as int]) == Some(tone));
        // Only shape keys that reshape an earlier letter may follow a tone key.
        let mut suffix_is_shape_tail = true;
        let mut j: usize = idx + 1;
        while j < chars.len()
            invariant
                chars@ == s,
                idx < s.len(),
                idx + 1 <= j <= s.len(),
                suffix_is_shape_tail == forall|p: int|
                    idx < p < j ==> shape_key_has_target(s, p),
            decreases s.len() - j,
        {
            if !has_reshape_target(chars, j) {
                suffix_is_shape_tail = false;
            }
            j = j + 1;
        }
        let suffix_is_empty = idx + 1 == chars.len();
        if !suffix_is_empty && !suffix_is_shape_tail {
            k = idx;
            continue;
        }
        if suffix_is_empty && vowel_cluster_count(vstd::slice::slice_subrange(chars.as_slice(), 0, idx))
            != 1 {
            k = idx;
            continue;
        }
        let mut any_vowel = false;
        let mut m: usize = 0;
        while m < idx
            invariant
                chars@ == s,
            s == old(chars)@,
                idx < s.len(),
                m <= idx,
                any_vowel == exists|q: int| 0 <= q < m && spec_is_vowel_or_marked(#[trigger] s[q]),
            decreases idx - m,
        {
            if is_vowel_or_marked(chars[m]) {
                any_vowel = true;
            }
            m = m + 1;
        }
        proof {
            assert(any_vowel == has_vowel(s.take(idx as int))) by {
                if any_vowel {
                    let q = choose|q: int| 0 <= q < idx && spec_is_vowel_or_marked(s[q]);
                    assert(s.take(idx as int)[q] == s[q]);
                } else {
                    assert forall|q: int| 0 <= q < s.take(idx as int).len() implies !spec_is_vowel_or_marked(
                        #[trigger] s.take(idx as int)[q],
                    ) by {
                        assert(s.take(idx as int)[q] == s[q]);
                    }
                }
            }
        }
        if any_vowel {
            assert(telex_tone_at(s, idx as int));
            assert(telex_tone_pos(s, k as int) == Some(idx as int));
            chars.remove(idx);
            return tone;
        }
        k = idx;
    }
    Tone::Level
}

/// Applies the shape keys of `chars`, the last effective one first, until none
/// has an effect.
pub fn apply_telex_shapes(chars: &mut Vec<char>)
    ensures
        final(chars)@ == spec_telex_shapes(old(chars)@),
{
    loop
        invariant
            spec_telex_shapes(chars@) == spec_telex_shapes(old(chars)@),
        ensures
            chars@ == spec_telex_shapes(old(chars)@),
        decreases chars.len(),
    {
        let ghost before = chars@;
        let mut changed = false;
        let mut k: usize = chars.len();
        while k > 0 && !changed
            invariant
                k <= before.len(),
                !changed ==> chars@ == before,
                !changed ==> telex_marker_step(before, before.len() as int) == telex_marker_step(
                    before,
                    k as int,
                ),
                changed ==> telex_marker_step(before, before.len() as int) == Some(chars@),
            decreases k + if changed {
                0int
            } else {
                1int
            },
        {
            let idx = k - 1;
            if apply_telex_marker_at(chars, idx) {
                changed = true;
            } else {
                k = idx;
            }
        }
        proof {
            lemma_marker_step_len(before, before.len() as int);
        }
        if !changed {
            break;
        }
    }
}

/// Turns every `u` of a "uơ" followed by a final consonant into `ư`.
pub fn promote_uo_with_coda(chars: &mut Vec<char>)
    ensures
        final(chars)@ == spec_promote_uo(old(chars)@),
{
    let ghost s = chars@;
    if chars.len() < 3 {
        assert(chars@ =~= spec_promote_uo(s));
        return;
    }
    let mut i: usize = 0;
    while i < chars.len() - 2
        invariant
            chars.len() == s.len(),
            s.len() >= 3,
            i <= s.len() - 2,
            forall|j: int| 0 <= j < i ==> chars@[j] == #[trigger] spec_promote_uo(s)[j],
            forall|j: int| i <= j < s.len() ==> chars@[j] == s[j],
        decreases s.len() - i,
    {
        if is_u_or_uw(chars[i]) && is_o_horn_or_marked(chars[i + 1]) && is_coda_consonant(
            chars[i + 2],
        ) {
            let c = if char_is_uppercase(chars[i]) {
                'Ư'
            } else {
                'ư'
            };
            chars.set(i, c);
        }
        i = i + 1;
    }
    assert(chars@ =~= spec_promote_uo(s));
}

/// Whether `ch` is one of the Telex tone keys s, f, r, x, j or z, in either case.
pub fn is_telex_tone_key(ch: char) -> (r: bool)
    ensures
        r == {
            let l = spec_ascii_lower(ch);
            l == 's' || l == 'f' || l == 'r' || l == 'x' || l == 'j' || l == 'z'
        },
{
    let keys = ['s', 'f', 'r', 'x', 'j', 'z'];
    let l = ascii_lower(ch);
    let mut k: usize = 0;
    while k < 6
        invariant
            k <= 6,
            keys@ == seq!['s', 'f', 'r', 'x', 'j', 'z'],
            l == spec_ascii_lower(ch),
            forall|j: int| 0 <= j < k ==> #[trigger] keys@[j] != l,
        decreases 6 - k,
    {
        if keys[k] == l {
            return true;
        }
        k = k + 1;
    }
    false
}

/// Applies the shape key at `idx`, if it has an effect; reports whether it had.
fn apply_telex_marker_at(chars: &mut Vec<char>, idx: usize) -> (r: bool)
    requires
        idx < old(chars)@.len(),
    ensures
        match spec_telex_marker_at(old(chars)@, idx as int) {
            Some(t) => r && final(chars)@ == t,
            None => !r && final(chars)@ == old(chars)@,
        },
{
    match ascii_lower(chars[idx]) {
        'd' => {
            if idx > 0 && (chars[idx - 1] == 'd' || chars[idx - 1] == 'D') {
                let d = if char_is_uppercase(chars[idx - 1]) {
                    'Đ'
                } else {
                    'đ'
                };
                chars.set(idx - 1, d);
                chars.remove(idx);
                return true;
            }
            false
        },
        'a' => replace_shape_before(chars, idx, 'a', 'â', 'Â'),
        'e' => replace_shape_before(chars, idx, 'e', 'ê', 'Ê'),
        'o' => replace_shape_before(chars, idx, 'o', 'ô', 'Ô'),
        'w' => apply_telex_w_marker_at(chars, idx),
        _ => false,
    }
}

/// Reshapes the character at `i` to `lower`/`upper`, keeping its tone, and
/// removes the marker key at `marker_idx`.
fn reshape_at(chars: &mut Vec<char>, i: usize, lower: char, upper: char, marker_idx: usize)
    requires
        i < marker_idx < old(chars)@.len(),
    ensures
        final(chars)@ == reshape(old(chars)@, i as int, lower, upper, marker_idx as int),
{
    let tone = detect_tone(chars[i]);
    let base = if char_is_uppercase(chars[i]) {
        upper
    } else {
        lower
    };
    let marked = tone_mark(base, tone);
    chars.set(i, marked);
    chars.remove(marker_idx);
}

/// Gives the circumflex to the last `target` vowel before the doubled key at
/// `marker_idx` and removes that key; reports whether there was such a vowel.
fn replace_shape_before(
    chars: &mut Vec<char>,
    marker_idx: usize,
    target_lower: char,
    replacement_lower: char,
    replacement_upper: char,
) -> (r: bool)
    requires
        marker_idx < old(chars)@.len(),
    ensures
        match spec_shape_before(
            old(chars)@,
            marker_idx as int,
            target_lower,
            replacement_lower,
            replacement_upper,
        ) {
            Some(t) => r && final(chars)@ == t,
            None => !r && final(chars)@ == old(chars)@,
        },
{
    let ghost s = chars@;
    let mut k: usize = marker_idx;
    while k > 0
        invariant
            chars@ == s,
            s == old(chars)@,
            k <= marker_idx < s.len(),
            last_before(s, marker_idx as int, base_is(target_lower)) == last_before(
                s,
                k as int,
                base_is(target_lower),
            ),
        decreases k,
    {
        let i = k - 1;
        if ascii_lower(strip_tone(chars[i])) == target_lower {
            assert(last_before(s, k as int, base_is(target_lower)) == Some(i as int));
            reshape_at(chars, i, replacement_lower, replacement_upper, marker_idx);
            return true;
        }
        k = i;
    }
    false
}

/// Applies a `w` key at `marker_idx` (see `spec_w_marker`).
fn apply_telex_w_marker_at(chars: &mut Vec<char>, marker_idx: usize) -> (r: bool)
    requires
        marker_idx < old(chars)@.len(),
    ensures
        match spec_w_marker(old(chars)@, marker_idx as int) {
            Some(t) => r && final(chars)@ == t,
            None => !r && final(chars)@ == old(chars)@,
        },
{
    if marker_idx == 0 {
        return false;
    }
    let ghost s = chars@;

    let mut k: usize = marker_idx;
    while k > 1
        invariant
            chars@ == s,
            s == old(chars)@,
            1 <= k <= marker_idx < s.len(),
            uo_pair_before(s, marker_idx as int) == uo_pair_before(s, k as int),
        decreases k,
    {
        let i = k - 1;
        let first = ascii_lower(strip_tone(chars[i - 1]));
        let second = ascii_lower(strip_tone(chars[i]));
        if first == 'u' && second == 'o' {
            assert(uo_pair_before(s, k as int) == Some(i as int));
            reshape_at(chars, i, 'ơ', 'Ơ', marker_idx);
            return true;
        }
        k = i;
    }

    let mut k: usize = marker_idx;
    while k > 0
        invariant
            chars@ == s,
            s == old(chars)@,
            k <= marker_idx < s.len(),
            uo_pair_before(s, marker_idx as int) is None,
            last_before(s, marker_idx as int, u_family()) == last_before(s, k as int, u_family()),
        decreases k,
    {
        let i = k - 1;
        if is_u_or_uw(chars[i]) {
            assert(last_before(s, k as int, u_family()) == Some(i as int));
            reshape_at(chars, i, 'ư', 'Ư', marker_idx);
            return true;
        }
        k = i;
    }

    let mut k: usize = marker_idx;
    while k > 0
        invariant
            chars@ == s,
            s == old(chars)@,
            k <= marker_idx < s.len(),
            uo_pair_before(s, marker_idx as int) is None,
            last_before(s, marker_idx as int, u_family()) is None,
            last_before(s, marker_idx as int, base_is('o')) == last_before(
                s,
                k as int,
                base_is('o'),
            ),
        decreases k,
    {
        let i = k - 1;
        if ascii_lower(strip_tone(chars[i])) == 'o' {
            assert(last_before(s, k as int, base_is('o')) == Some(i as int));
            reshape_at(chars, i, 'ơ', 'Ơ', marker_idx);
            return true;
        }
        k = i;
    }

    let mut k: usize = marker_idx;
    while k > 0
        invariant
            chars@ == s,
            s == old(chars)@,
            k <= marker_idx < s.len(),
            uo_pair_before(s, marker_idx as int) is None,
            last_before(s, marker_idx as int, u_family()) is None,
            last_before(s, marker_idx as int, base_is('o')) is None,
            last_before(s, marker_idx as int, base_is('a')) == last_before(
                s,
                k as int,
                base_is('a'),
            ),
        decreases k,
    {
        let i = k - 1;
        if ascii_lower(strip_tone(chars[i])) == 'a' {
            assert(last_before(s, k as int, base_is('a')) == Some(i as int));
            reshape_at(chars, i, 'ă', 'Ă', marker_idx);
            return true;
        }
        k = i;
    }
    false
}

/// Whether the shape key `key` (in lower case) can reshape the letter `c`.
fn can_reshape(key: char, c: char) -> (r: bool)
    ensures
        r == spec_can_reshape(key, c),
{
    let b = ascii_lower(strip_tone(c));
    if key == 'a' || key == 'e' || key == 'o' {
        b == key
    } else if key == 'w' {
        is_u_or_uw(c) || b == 'o' || b == 'a'
    } else if key == 'd' {
        c == 'd' || c == 'D'
    } else {
        false
    }
}

/// Whether the key at `p` is a shape key with a letter before it to reshape.
fn has_reshape_target(chars: &Vec<char>, p: usize) -> (r: bool)
    requires
        p < chars.len(),
    ensures
        r == shape_key_has_target(chars@, p as int),
{
    let key = ascii_lower(chars[p]);
    let mut i: usize = 0;
    while i < p
        invariant
            p < chars.len(),
            key == spec_ascii_lower(chars@[p as int]),
            i <= p,
            forall|q: int| 0 <= q < i ==> !spec_can_reshape(key, #[trigger] chars@[q]),
        decreases p - i,
    {
        if can_reshape(key, chars[i]) {
            return true;
        }
        i = i + 1;
    }
    false
}

/// `u` or `ư`, toned or not, in either case.
fn is_u_or_uw(ch: char) -> (r: bool)
    ensures
        r == spec_is_u_or_uw(ch),
{
    match strip_tone(ch) {
        'u' | 'ư' | 'U' | 'Ư' => true,
        _ => false,
    }
}

/// `ơ`, toned or not, in either case.
fn is_o_horn_or_marked(ch: char) -> (r: bool)
    ensures
        r == spec_is_o_horn_or_marked(ch),
{
    match strip_tone(ch) {
        'ơ' | 'Ơ' => true,
        _ => false,
    }
}

/// A letter that is not a vowel.
fn is_coda_consonant(ch: char) -> (r: bool)
    ensures
        r == spec_is_coda_consonant(ch),
{
    char_is_alphabetic(ch) && !is_vowel_or_marked(ch)
}

/// The number of maximal runs of consecutive vowels in `chars`.
fn vowel_cluster_count(chars: &[char]) -> (r: usize)
    ensures
        r == vowel_clusters(chars@),
{
    let mut clusters: usize = 0;
    let mut in_cluster = false;
    let mut i: usize = 0;
    while i < chars.len()
        invariant
            i <= chars@.len(),
            clusters == vowel_clusters(chars@.take(i as int)),
            clusters <= i,
            in_cluster == (i > 0 && spec_is_vowel_or_marked(chars@[i - 1])),
        decreases chars@.len() - i,
    {
        let ch = chars[i];
        proof {
            let t = chars@.take(i + 1);
            assert(t.drop_last() =~= chars@.take(i as int));
            assert(t.last() == ch);
            if i > 0 {
                assert(t[i - 1] == chars@[i - 1]);
            }
        }
        if is_vowel_or_marked(ch) {
            if !in_cluster {
                clusters = clusters + 1;
                in_cluster = true;
            }
        } else {
            in_cluster = false;
        }
        i = i + 1;
    }
    proof {
        assert(chars@.take(chars@.len() as int) =~= chars@);
    }
    clusters
}

} // verus!
