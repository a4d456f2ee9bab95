//! The decisions of the keyboard hook: for each key, how the word being typed
//! changes and what the hook does with the key.
use vstd::prelude::*;

use crate::state::{spec_is_word_char, spec_transform};
use crate::text::{is_ascii_alphanumeric, spec_is_ascii_alphanumeric, string_pop, string_push};
use crate::{transform_word, InputMethod};

verus! {

/// The virtual-key code of the `V` key, which with Ctrl and Shift switches the input method.
pub const TOGGLE_VK: u16 = 0x56;

/// Index of the Shift key in a 256-byte keyboard state.
pub const SHIFT_VK: usize = 0x10;

/// Index of the Ctrl key in a 256-byte keyboard state.
pub const CONTROL_VK: usize = 0x11;

/// Index of the Alt key in a 256-byte keyboard state.
pub const MENU_VK: usize = 0x12;

/// What the hook does with a key.
#[derive(Debug, PartialEq, Eq)]
pub enum KeyAction {
    /// Let the key reach the application.
    Pass,
    /// Swallow the key.
    Block,
    /// Swallow the key, erase `erase` characters before the cursor and type `text`.
    Replace { erase: usize, text: String },
}

/// A key as the hook sees it.
#[derive(Clone, Copy, Debug, PartialEq, Eq, Structural)]
pub enum KeyEvent {
    /// Ctrl+Shift+V.
    Toggle,
    /// The backspace key.
    Backspace,
    /// A key that types a character.
    Char(char),
    /// Any other key.
    Other,
}

/// The word being typed: its keys, what is shown for it, and the input method.
pub struct AppState {
    pub active_method: InputMethod,
    pub raw_word: String,
    pub rendered_word: String,
}

/// The other input method.
pub open spec fn other_method(m: InputMethod) -> InputMethod {
    match m {
        InputMethod::Telex => InputMethod::Vni,
        InputMethod::Vni => InputMethod::Telex,
    }
}

/// The keys left after a backspace: keys are dropped from the end until what they
/// compose is at most `target` characters long, or none is left.
pub open spec fn backspace_keys(method: InputMethod, raw: Seq<char>, target: int) -> Seq<char>
    decreases raw.len(),
{
    if raw.len() == 0 {
        raw
    } else if spec_transform(method, raw.drop_last()).len() <= target {
        raw.drop_last()
    } else {
        backspace_keys(method, raw.drop_last(), target)
    }
}

/// The word shown on screen after the hook acts on `key`, given the word shown before.
pub open spec fn word_after_action(shown: Seq<char>, key: char, action: KeyAction) -> Seq<char> {
    match action {
        KeyAction::Pass => shown.push(key),
        KeyAction::Block => shown,
        KeyAction::Replace { erase, text } => shown.take(shown.len() - erase) + text@,
    }
}

/// Whether a key state byte marks its key as held down (high bit set).
pub open spec fn spec_key_down(b: u8) -> bool {
    b & 0x80 != 0
}

/// The outcome of a typed character `ch`, from the keys `raw` and the shown word
/// `shown` of the word in progress under `method`, to the new keys `raw2`, the new
/// shown word `shown2` and the action `r`.
pub open spec fn char_outcome(
    method: InputMethod,
    raw: Seq<char>,
    shown: Seq<char>,
    ch: char,
    raw2: Seq<char>,
    shown2: Seq<char>,
    r: KeyAction,
) -> bool {
    if spec_is_word_char(ch) {
        let converted = spec_transform(method, raw.push(ch));
        &&& raw2 == raw.push(ch)
        &&& shown2 == converted
        &&& if converted == shown.push(ch) {
            r is Pass
        } else if converted != shown {
            r matches KeyAction::Replace { erase, text } && erase == shown.len() && text@
                == converted
        } else {
            r is Block
        }
    } else {
        &&& r is Pass
        &&& raw2 == Seq::<char>::empty()
        &&& shown2 == Seq::<char>::empty()
    }
}

/// The outcome of the backspace key (see `char_outcome` for the parameters).
pub open spec fn backspace_outcome(
    method: InputMethod,
    raw: Seq<char>,
    shown: Seq<char>,
    raw2: Seq<char>,
    shown2: Seq<char>,
    r: KeyAction,
) -> bool {
    if shown.len() == 0 {
        &&& r is Pass
        &&& raw2 == raw
        &&& shown2 == shown
    } else {
        let keys = backspace_keys(method, raw, shown.len() - 1);
        &&& raw2 == keys
        &&& shown2 == spec_transform(method, keys)
        &&& r matches KeyAction::Replace { erase, text } && erase == shown.len() && text@
            == shown2
    }
}

impl Default for AppState {
    /// No word in progress, typing Telex.
    fn default() -> (r: Self)
        ensures
            r.active_method == InputMethod::Telex,
            r.raw_word@ == Seq::<char>::empty(),
            r.rendered_word@ == Seq::<char>::empty(),
    {
        AppState {
            active_method: InputMethod::Telex,
            raw_word: String::new(),
            rendered_word: String::new(),
        }
    }
}

/// Backspace leaves keys that compose at most `target` characters.
pub proof fn lemma_backspace_keys_short(method: InputMethod, raw: Seq<char>, target: int)
    requires
        target >= 0,
    ensures
        spec_transform(method, backspace_keys(method, raw, target)).len() <= target,
        backspace_keys(method, raw, target).len() <= raw.len(),
    decreases raw.len(),
{
    if raw.len() == 0 {
        assert(spec_transform(method, raw) == Seq::<char>::empty());
    } else if spec_transform(method, raw.drop_last()).len() > target {
        lemma_backspace_keys_short(method, raw.drop_last(), target);
    }
}

/// After a typed character the shown word is what the keys of the word compose.
pub proof fn law_char_keeps_word_composed(
    method: InputMethod,
    raw: Seq<char>,
    shown: Seq<char>,
    ch: char,
    raw2: Seq<char>,
    shown2: Seq<char>,
    r: KeyAction,
)
    requires
        char_outcome(method, raw, shown, ch, raw2, shown2, r),
    ensures
        shown2 == spec_transform(method, raw2),
{
    assert(spec_transform(method, Seq::<char>::empty()) == Seq::<char>::empty());
}

/// After a backspace the shown word is what the keys of the word compose, when it
/// was so before.
pub proof fn law_backspace_keeps_word_composed(
    method: InputMethod,
    raw: Seq<char>,
    shown: Seq<char>,
    raw2: Seq<char>,
    shown2: Seq<char>,
    r: KeyAction,
)
    requires
        shown == spec_transform(method, raw),
        backspace_outcome(method, raw, shown, raw2, shown2, r),
    ensures
        shown2 == spec_transform(method, raw2),
{
}

/// The action for a typed word character turns the word shown on screen into the
/// new shown word: passing the key appends it, swallowing it keeps the screen, and
/// a replacement erases the whole shown word and types the new one.
pub proof fn law_char_action_matches_screen(
    method: InputMethod,
    raw: Seq<char>,
    shown: Seq<char>,
    ch: char,
    raw2: Seq<char>,
    shown2: Seq<char>,
    r: KeyAction,
)
    requires
        spec_is_word_char(ch),
        char_outcome(method, raw, shown, ch, raw2, shown2, r),
    ensures
        word_after_action(shown, ch, r) == shown2,
{
    if let KeyAction::Replace { erase, text } = r {
        assert(shown.take(0) + text@ =~= text@);
    }
}

/// A backspace over a shown word erases the whole shown word and types a strictly
/// shorter one: what the remaining keys compose.
pub proof fn law_backspace_shortens_word(
    method: InputMethod,
    raw: Seq<char>,
    shown: Seq<char>,
    key: char,
    raw2: Seq<char>,
    shown2: Seq<char>,
    r: KeyAction,
)
    requires
        shown.len() > 0,
        backspace_outcome(method, raw, shown, raw2, shown2, r),
    ensures
        word_after_action(shown, key, r) == shown2,
        shown2.len() < shown.len(),
        raw2.len() <= raw.len(),
{
    lemma_backspace_keys_short(method, raw, shown.len() - 1);
    if let KeyAction::Replace { erase, text } = r {
        assert(shown.take(0) + text@ =~= text@);
    }
}

/// Switching the input method twice gives back the method one started with.
pub proof fn law_toggle_twice(m: InputMethod)
    ensures
        other_method(other_method(m)) == m,
        other_method(m) != m,
{
}

impl AppState {
    /// Switches between Telex and VNI; the word in progress is kept.
    pub fn toggle_method(&mut self) -> (r: InputMethod)
        ensures
            final(self).active_method == other_method(old(self).active_method),
            r == final(self).active_method,
            final(self).raw_word == old(self).raw_word,
            final(self).rendered_word == old(self).rendered_word,
    {
        self.active_method = match self.active_method {
            InputMethod::Telex => InputMethod::Vni,
            InputMethod::Vni => InputMethod::Telex,
        };
        self.active_method
    }

    /// A typed character. A word character is added to the keys of the word and
    /// the word is composed again: when that only appends the character, the key
    /// passes; when it changes what is shown, the shown word is replaced; otherwise
    /// the key is swallowed. Any other character ends the word and passes.
    pub fn handle_char(&mut self, ch: char) -> (r: KeyAction)
        ensures
            final(self).active_method == old(self).active_method,
            char_outcome(
                old(self).active_method,
                old(self).raw_word@,
                old(self).rendered_word@,
                ch,
                final(self).raw_word@,
                final(self).rendered_word@,
                r,
            ),
    {
        if is_word_char(ch) {
            let visible_len_before_key = self.rendered_word.as_str().unicode_len();
            string_push(&mut self.raw_word, ch);
            let converted = transform_word(self.raw_word.as_str(), self.active_method);
            let mut appended = self.rendered_word.clone();
            string_push(&mut appended, ch);

            if converted == appended {
                // A plain character: let the application insert it itself.
                self.rendered_word = converted;
                return KeyAction::Pass;
            }
            if !(converted == self.rendered_word) {
                // The key is swallowed before the application inserts it, so only
                // the characters already shown are erased.
                let text = converted.clone();
                self.rendered_word = converted;
                return KeyAction::Replace { erase: visible_len_before_key, text };
            }
            // The key only marks the word without changing what is shown.
            return KeyAction::Block;
        }
        self.raw_word = String::new();
        self.rendered_word = String::new();
        KeyAction::Pass
    }

    /// The backspace key. With nothing shown it passes. Otherwise keys are dropped
    /// from the end of the word until what they compose is shorter than what was
    /// shown, and the shown word is replaced by it.
    pub fn handle_backspace(&mut self) -> (r: KeyAction)
        ensures
            final(self).active_method == old(self).active_method,
            backspace_outcome(
                old(self).active_method,
                old(self).raw_word@,
                old(self).rendered_word@,
                final(self).raw_word@,
                final(self).rendered_word@,
                r,
            ),
    {
        let old_len = self.rendered_word.as_str().unicode_len();
        if old_len == 0 {
            return KeyAction::Pass;
        }
        let target_len = old_len - 1;
        let ghost method = self.active_method;
        let ghost start = self.raw_word@;
        loop
            invariant_except_break
                backspace_keys(method, start, target_len as int) == backspace_keys(
                    method,
                    self.raw_word@,
                    target_len as int,
                ),
            invariant
                self.active_method == method,
            ensures
                self.active_method == method,
                self.raw_word@ == backspace_keys(method, start, target_len as int),
                self.rendered_word@ == spec_transform(method, self.raw_word@),
            decreases self.raw_word@.len(),
        {
            if self.raw_word.as_str().is_empty() {
                self.rendered_word = String::new();
                proof {
                    assert(spec_transform(method, self.raw_word@) == Seq::<char>::empty());
                }
                break;
            }
            string_pop(&mut self.raw_word);
            let recomposed = transform_word(self.raw_word.as_str(), self.active_method);
            if recomposed.as_str().unicode_len() <= target_len {
                self.rendered_word = recomposed;
                break;
            }
        }
        let text = self.rendered_word.clone();
        KeyAction::Replace { erase: old_len, text }
    }

    /// A key that neither types a character nor edits: the word ends.
    pub fn flush_word_if_boundary(&mut self)
        ensures
            final(self).active_method == old(self).active_method,
            final(self).raw_word@ == Seq::<char>::empty(),
            final(self).rendered_word@ == Seq::<char>::empty(),
    {
        self.raw_word = String::new();
        self.rendered_word = String::new();
    }

    /// What the hook does with `event`: switch the method and swallow the key,
    /// handle a backspace or a typed character, or end the word and let the key pass.
    pub fn handle_key(&mut self, event: KeyEvent) -> (r: KeyAction)
        ensures
            match event {
                KeyEvent::Toggle => {
                    &&& r is Block
                    &&& final(self).active_method == other_method(old(self).active_method)
                    &&& final(self).raw_word == old(self).raw_word
                    &&& final(self).rendered_word == old(self).rendered_word
                },
                KeyEvent::Backspace => {
                    &&& final(self).active_method == old(self).active_method
                    &&& backspace_outcome(
                        old(self).active_method,
                        old(self).raw_word@,
                        old(self).rendered_word@,
                        final(self).raw_word@,
                        final(self).rendered_word@,
                        r,
                    )
                },
                KeyEvent::Char(ch) => {
                    &&& final(self).active_method == old(self).active_method
                    &&& char_outcome(
                        old(self).active_method,
                        old(self).raw_word@,
                        old(self).rendered_word@,
                        ch,
                        final(self).raw_word@,
                        final(self).rendered_word@,
                        r,
                    )
                },
                KeyEvent::Other => {
                    &&& r is Pass
                    &&& final(self).active_method == old(self).active_method
                    &&& final(self).raw_word@ == Seq::<char>::empty()
                    &&& final(self).rendered_word@ == Seq::<char>::empty()
                },
            },
    {
        match event {
            KeyEvent::Toggle => {
                self.toggle_method();
                KeyAction::Block
            },
            KeyEvent::Backspace => self.handle_backspace(),
            KeyEvent::Char(ch) => self.handle_char(ch),
            KeyEvent::Other => {
                self.flush_word_if_boundary();
                KeyAction::Pass
            },
        }
    }
}

/// Whether `ch` belongs to a word.
pub fn is_word_char(ch: char) -> (r: bool)
    ensures
        r == spec_is_ascii_alphanumeric(ch),
{
    is_ascii_alphanumeric(ch)
}

/// Whether the key `vk`, with the keyboard state `key_state`, is Ctrl+Shift+V
/// without Alt.
pub fn is_toggle_hotkey(vk: u16, key_state: &[u8; 256]) -> (r: bool)
    ensures
        r == (vk == TOGGLE_VK && spec_key_down(key_state@[CONTROL_VK as int]) && spec_key_down(
            key_state@[SHIFT_VK as int],
        ) && !spec_key_down(key_state@[MENU_VK as int])),
{
    if vk != TOGGLE_VK {
        return false;
    }
    let ctrl = key_state[CONTROL_VK] & 0x80 != 0;
    let shift = key_state[SHIFT_VK] & 0x80 != 0;
    let alt = key_state[MENU_VK] & 0x80 != 0;
    ctrl && shift && !alt
}

} // verus!
