//! Composition of a whole text: every run of letters and digits is composed as
//! one syllable, every other character is copied through.
use vstd::prelude::*;

use crate::telex::spec_telex_syllable;
use crate::text::{is_ascii_alphanumeric, spec_is_ascii_alphanumeric, string_from_chars};
use crate::vni::spec_vni_syllable;
use crate::{telex, vni, InputMethod};

verus! {

// ----------------------------------------------------------------------------
// Specification
// ----------------------------------------------------------------------------

/// The characters that belong to a syllable: ASCII letters and digits.
pub open spec fn spec_is_word_char(c: char) -> bool {
    spec_is_ascii_alphanumeric(c)
}

/// The syllable that a run of keys composes under `method`.
pub open spec fn syllable(method: InputMethod, raw: Seq<char>) -> Seq<char> {
    match method {
        InputMethod::Telex => spec_telex_syllable(raw),
        InputMethod::Vni => spec_vni_syllable(raw),
    }
}

/// The length of the run of word characters at the end of `s`.
pub open spec fn trailing_word_len(s: Seq<char>) -> nat
    decreases s.len(),
{
    if s.len() == 0 || !spec_is_word_char(s.last()) {
        0
    } else {
        1 + trailing_word_len(s.drop_last())
    }
}

/// Where the run of word characters at the end of `s` begins.
pub open spec fn word_start(s: Seq<char>) -> int {
    s.len() - trailing_word_len(s)
}

/// The text that the keys `s` compose under `method`: each maximal run of word
/// characters becomes the syllable it composes; every other character is kept.
pub open spec fn spec_transform(method: InputMethod, s: Seq<char>) -> Seq<char>
    decreases s.len(),
{
    if s.len() == 0 {
        Seq::empty()
    } else if !spec_is_word_char(s.last()) {
        spec_transform(method, s.drop_last()).push(s.last())
    } else {
        proof {
            lemma_trailing_word_len(s);
        }
        let k = word_start(s);
        spec_transform(method, s.take(k)) + syllable(method, s.skip(k))
    }
}

// ----------------------------------------------------------------------------
// Lemmas
// ----------------------------------------------------------------------------

/// The trailing run lies inside `s`, and consists of word characters only.
pub proof fn lemma_trailing_word_len(s: Seq<char>)
    ensures
        trailing_word_len(s) <= s.len(),
        s.len() > 0 && spec_is_word_char(s.last()) ==> trailing_word_len(s) >= 1,
        forall|i: int| word_start(s) <= i < s.len() ==> spec_is_word_char(#[trigger] s[i]),
        word_start(s) > 0 ==> !spec_is_word_char(s[word_start(s) - 1]),
    decreases s.len(),
{
    if s.len() > 0 && spec_is_word_char(s.last()) {
        let r = s.drop_last();
        lemma_trailing_word_len(r);
        assert forall|i: int| word_start(s) <= i < s.len() implies spec_is_word_char(
            #[trigger] s[i],
        ) by {
            if i < s.len() - 1 {
                assert(s[i] == r[i]);
            }
        }
        if word_start(s) > 0 {
            assert(s[word_start(s) - 1] == r[word_start(r) - 1]);
        }
    }
}

/// Nothing keyed composes to nothing.
pub proof fn lemma_syllable_empty(method: InputMethod)
    ensures
        syllable(method, Seq::empty()) == Seq::<char>::empty(),
{
    let e = Seq::<char>::empty();
    assert(crate::telex::spec_promote_uo(e) =~= e);
    assert(crate::telex::spec_telex_shapes(e) == e);
}

/// The text splits into what comes before its trailing run and the trailing run.
pub proof fn lemma_transform_split(method: InputMethod, s: Seq<char>)
    ensures
        spec_transform(method, s) == spec_transform(method, s.take(word_start(s))) + syllable(
            method,
            s.skip(word_start(s)),
        ),
{
    lemma_trailing_word_len(s);
    lemma_syllable_empty(method);
    if s.len() == 0 || !spec_is_word_char(s.last()) {
        assert(s.take(word_start(s)) =~= s);
        assert(s.skip(word_start(s)) =~= Seq::<char>::empty());
        assert(spec_transform(method, s) + Seq::<char>::empty() =~= spec_transform(method, s));
    }
}

/// Appending a word character extends the trailing run.
pub proof fn lemma_word_start_push(s: Seq<char>, c: char)
    ensures
        spec_is_word_char(c) ==> word_start(s.push(c)) == word_start(s),
        !spec_is_word_char(c) ==> word_start(s.push(c)) == s.len() + 1,
{
    assert(s.push(c).drop_last() =~= s);
}

/// A non-word character ends any trailing run before it.
pub proof fn lemma_trailing_word_len_after_separator(a: Seq<char>, c: char, b: Seq<char>)
    requires
        !spec_is_word_char(c),
    ensures
        trailing_word_len(a + seq![c] + b) == trailing_word_len(b),
    decreases b.len(),
{
    let s = a + seq![c] + b;
    if b.len() == 0 {
        assert(s.last() == c);
    } else {
        assert(s.last() == b.last());
        assert(s.drop_last() =~= a + seq![c] + b.drop_last());
        lemma_trailing_word_len_after_separator(a, c, b.drop_last());
    }
}

/// A text made of word characters only is one run.
pub proof fn lemma_trailing_word_len_all_word(s: Seq<char>)
    requires
        forall|i: int| 0 <= i < s.len() ==> spec_is_word_char(#[trigger] s[i]),
    ensures
        trailing_word_len(s) == s.len(),
    decreases s.len(),
{
    if s.len() > 0 {
        let r = s.drop_last();
        assert forall|i: int| 0 <= i < r.len() implies spec_is_word_char(#[trigger] r[i]) by {
            assert(r[i] == s[i]);
        }
        lemma_trailing_word_len_all_word(r);
    }
}

/// The syllable that a run of keys composes is never longer than the run.
pub proof fn lemma_syllable_len(method: InputMethod, raw: Seq<char>)
    ensures
        syllable(method, raw).len() <= raw.len(),
{
    crate::telex::lemma_telex_syllable_len(raw);
    crate::vni::lemma_vni_syllable_len(raw);
}

/// A character that is not a letter or digit splits the text: what comes before
/// it and what comes after it are composed independently, and it is kept.
pub proof fn law_transform_splits_at_separator(
    method: InputMethod,
    a: Seq<char>,
    c: char,
    b: Seq<char>,
)
    requires
        !spec_is_word_char(c),
    ensures
        spec_transform(method, a + seq![c] + b) == spec_transform(method, a) + seq![c]
            + spec_transform(method, b),
    decreases b.len(),
{
    let s = a + seq![c] + b;
    if b.len() == 0 {
        assert(s.drop_last() =~= a);
        assert(spec_transform(method, a) + seq![c] + Seq::<char>::empty() =~= spec_transform(
            method,
            a,
        ).push(c));
    } else if !spec_is_word_char(b.last()) {
        let r = b.drop_last();
        assert(s.last() == b.last());
        assert(s.drop_last() =~= a + seq![c] + r);
        law_transform_splits_at_separator(method, a, c, r);
        assert(spec_transform(method, a) + seq![c] + spec_transform(method, r).push(b.last())
            =~= (spec_transform(method, a) + seq![c] + spec_transform(method, r)).push(b.last()));
    } else {
        assert(s.last() == b.last());
        lemma_trailing_word_len_after_separator(a, c, b);
        lemma_trailing_word_len(b);
        lemma_trailing_word_len(s);
        let kb = word_start(b);
        let ks = word_start(s);
        assert(ks == a.len() + 1 + kb);
        assert(s.take(ks) =~= a + seq![c] + b.take(kb));
        assert(s.skip(ks) =~= b.skip(kb));
        law_transform_splits_at_separator(method, a, c, b.take(kb));
        let ta = spec_transform(method, a);
        let tb = spec_transform(method, b.take(kb));
        let y = syllable(method, b.skip(kb));
        assert(ta + seq![c] + tb + y =~= ta + seq![c] + (tb + y));
    }
}

/// A text without letters or digits is kept as it is.
pub proof fn law_transform_keeps_text_without_words(method: InputMethod, s: Seq<char>)
    requires
        forall|i: int| 0 <= i < s.len() ==> !spec_is_word_char(#[trigger] s[i]),
    ensures
        spec_transform(method, s) == s,
    decreases s.len(),
{
    if s.len() > 0 {
        let r = s.drop_last();
        assert forall|i: int| 0 <= i < r.len() implies !spec_is_word_char(#[trigger] r[i]) by {
            assert(r[i] == s[i]);
        }
        law_transform_keeps_text_without_words(method, r);
        assert(r.push(s.last()) =~= s);
    }
}

/// A text of letters and digits only is composed as one syllable.
pub proof fn law_transform_of_one_run(method: InputMethod, s: Seq<char>)
    requires
        s.len() > 0,
        forall|i: int| 0 <= i < s.len() ==> spec_is_word_char(#[trigger] s[i]),
    ensures
        spec_transform(method, s) == syllable(method, s),
{
    lemma_trailing_word_len_all_word(s);
    assert(spec_is_word_char(s[s.len() - 1]));
    assert(s.take(0) =~= Seq::<char>::empty());
    assert(spec_transform(method, Seq::<char>::empty()) == Seq::<char>::empty());
    assert(s.skip(0) =~= s);
    assert(Seq::<char>::empty() + syllable(method, s) =~= syllable(method, s));
}

/// VNI leaves a text without digits as it is.
pub proof fn law_vni_keeps_text_without_digits(s: Seq<char>)
    requires
        forall|i: int| 0 <= i < s.len() ==> !crate::vni::is_ascii_digit(#[trigger] s[i]),
    ensures
        spec_transform(InputMethod::Vni, s) == s,
    decreases s.len(),
{
    if s.len() > 0 {
        lemma_trailing_word_len(s);
        let k = if spec_is_word_char(s.last()) {
            word_start(s)
        } else {
            s.len() - 1
        };
        let front = s.take(k);
        assert forall|i: int| 0 <= i < front.len() implies !crate::vni::is_ascii_digit(
            #[trigger] front[i],
        ) by {
            assert(front[i] == s[i]);
        }
        law_vni_keeps_text_without_digits(front);
        if !spec_is_word_char(s.last()) {
            assert(s.drop_last() =~= front);
            assert(front.push(s.last()) =~= s);
        } else {
            let run = s.skip(k);
            assert forall|i: int| 0 <= i < run.len() implies crate::vni::is_ascii_letter(
                #[trigger] run[i],
            ) by {
                assert(run[i] == s[k + i]);
                assert(spec_is_word_char(s[k + i]));
                assert(!crate::vni::is_ascii_digit(s[k + i]));
            }
            crate::vni::law_vni_keeps_letters_without_digits(run);
            assert(front + run =~= s);
        }
    }
}

/// Composing never makes a text longer.
pub proof fn law_transform_never_lengthens(method: InputMethod, s: Seq<char>)
    ensures
        spec_transform(method, s).len() <= s.len(),
    decreases s.len(),
{
    if s.len() > 0 {
        if !spec_is_word_char(s.last()) {
            law_transform_never_lengthens(method, s.drop_last());
        } else {
            lemma_trailing_word_len(s);
            let k = word_start(s);
            law_transform_never_lengthens(method, s.take(k));
            lemma_syllable_len(method, s.skip(k));
        }
    }
}

// ----------------------------------------------------------------------------
// Implementation
// ----------------------------------------------------------------------------

/// Whether the composer is inside a run of word characters.
#[derive(Clone, Copy, Debug, PartialEq, Eq, Structural)]
enum ComposeState {
    Idle,
    Composing,
}

/// Composes a text fed one key at a time.
struct Composer {
    method: InputMethod,
    state: ComposeState,
    raw_syllable: Vec<char>,
    rendered_syllable: Vec<char>,
    committed_output: Vec<char>,
    /// The keys fed so far.
    keys: Ghost<Seq<char>>,
}

impl Composer {
    /// The composer has composed the keys fed so far: everything before the
    /// current run is committed, the current run is kept raw and composed.
    spec fn inv(&self) -> bool {
        let keys = self.keys@;
        let k = word_start(keys);
        &&& self.committed_output@ == spec_transform(self.method, keys.take(k))
        &&& self.raw_syllable@ == keys.skip(k)
        &&& self.rendered_syllable@ == syllable(self.method, self.raw_syllable@)
        &&& (self.state == ComposeState::Composing <==> self.raw_syllable@.len() > 0)
    }

    /// A composer for `method` that has been fed nothing.
    fn new(method: InputMethod) -> (r: Self)
        ensures
            r.inv(),
            r.method == method,
            r.keys@ == Seq::<char>::empty(),
    {
        let r = Self {
            method,
            state: ComposeState::Idle,
            raw_syllable: Vec::new(),
            rendered_syllable: Vec::new(),
            committed_output: Vec::new(),
            keys: Ghost(Seq::empty()),
        };
        proof {
            lemma_syllable_empty(method);
            assert(Seq::<char>::empty().take(0) =~= Seq::<char>::empty());
            assert(Seq::<char>::empty().skip(0) =~= Seq::<char>::empty());
        }
        r
    }

    /// Feeds one key: a word character extends the current run; any other
    /// character commits the run and is copied through.
    fn feed(&mut self, ch: char)
        requires
            old(self).inv(),
        ensures
            final(self).inv(),
            final(self).method == old(self).method,
            final(self).keys@ == old(self).keys@.push(ch),
    {
        let ghost keys = self.keys@;
        proof {
            lemma_word_start_push(keys, ch);
            lemma_trailing_word_len(keys);
        }
        if is_word_char(ch) {
            self.state = ComposeState::Composing;
            self.raw_syllable.push(ch);
            self.keys = Ghost(keys.push(ch));
            self.recompose_current();
            proof {
                let k = word_start(keys);
                assert(keys.push(ch).take(k) =~= keys.take(k));
                assert(keys.push(ch).skip(k) =~= keys.skip(k).push(ch));
            }
            return;
        }

        self.flush_syllable();
        self.committed_output.push(ch);
        self.state = ComposeState::Idle;
        self.keys = Ghost(keys.push(ch));
        proof {
            let s = keys.push(ch);
            assert(s.take(s.len() as int) =~= s);
            assert(s.skip(s.len() as int) =~= Seq::<char>::empty());
            assert(s.drop_last() =~= keys);
            lemma_syllable_empty(self.method);
        }
    }

    /// Commits the current run.
    fn finish(&mut self)
        requires
            old(self).inv(),
        ensures
            final(self).committed_output@ == spec_transform(old(self).method, old(self).keys@),
            final(self).rendered_syllable@ == Seq::<char>::empty(),
            final(self).method == old(self).method,
    {
        self.flush_syllable();
    }

    /// Moves the composed current run to the committed output.
    fn flush_syllable(&mut self)
        requires
            old(self).inv(),
        ensures
            final(self).committed_output@ == spec_transform(old(self).method, old(self).keys@),
            final(self).raw_syllable@ == Seq::<char>::empty(),
            final(self).rendered_syllable@ == Seq::<char>::empty(),
            final(self).method == old(self).method,
            final(self).state == old(self).state,
            final(self).keys == old(self).keys,
    {
        proof {
            lemma_transform_split(self.method, self.keys@);
            lemma_syllable_empty(self.method);
        }
        if self.state == ComposeState::Composing {
            self.recompose_current();
            self.committed_output.extend_from_slice(self.rendered_syllable.as_slice());
            proof {
                assert(self.committed_output@ =~= spec_transform(self.method, self.keys@));
            }
            self.raw_syllable.clear();
            self.rendered_syllable.clear();
        } else {
            proof {
                assert(spec_transform(self.method, self.keys@) + Seq::<char>::empty()
                    =~= spec_transform(self.method, self.keys@));
            }
        }
    }

    /// Composes the current run afresh.
    fn recompose_current(&mut self)
        ensures
            final(self).rendered_syllable@ == syllable(old(self).method, old(self).raw_syllable@),
            final(self).method == old(self).method,
            final(self).state == old(self).state,
            final(self).raw_syllable == old(self).raw_syllable,
            final(self).committed_output == old(self).committed_output,
            final(self).keys == old(self).keys,
    {
        self.rendered_syllable = match self.method {
            InputMethod::Telex => telex::transform_from_raw(self.raw_syllable.as_slice()),
            InputMethod::Vni => vni::transform_from_raw(self.raw_syllable.as_slice()),
        };
    }

    /// The committed output followed by the composed current run.
    fn render(&self) -> (r: Vec<char>)
        ensures
            r@ == self.committed_output@ + self.rendered_syllable@,
    {
        let mut out = self.committed_output.clone();
        out.extend_from_slice(self.rendered_syllable.as_slice());
        proof {
            assert(out@ =~= self.committed_output@ + self.rendered_syllable@);
        }
        out
    }
}

/// Composes the keys `raw` under `method`, one key at a time.
pub fn transform_word_stateful(raw: &str, method: InputMethod) -> (r: String)
    ensures
        r@ == spec_transform(method, raw@),
{
    if raw.is_empty() {
        return String::new();
    }
    let mut composer = Composer::new(method);
    proof {
        assert(raw@.take(0) =~= Seq::<char>::empty());
    }
    for ch in it: raw.chars()
        invariant
            it.seq() == raw@,
            composer.inv(),
            composer.method == method,
            composer.keys@ == raw@.take(it.index() as int),
    {
        proof {
            assert(raw@.take(it.index() + 1) =~= raw@.take(it.index() as int).push(ch));
        }
        composer.feed(ch);
    }
    proof {
        assert(raw@.take(raw@.len() as int) =~= raw@);
    }
    composer.finish();
    let out = composer.render();
    proof {
        assert(out@ =~= spec_transform(method, raw@));
    }
    string_from_chars(&out)
}

/// Whether `ch` belongs to a syllable.
pub fn is_word_char(ch: char) -> (r: bool)
    ensures
        r == spec_is_word_char(ch),
{
    is_ascii_alphanumeric(ch)
}

} // verus!
