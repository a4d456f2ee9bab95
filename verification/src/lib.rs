//! Composition of Vietnamese text from Telex or VNI keystrokes.
use vstd::prelude::*;

pub mod keyboard;
pub mod state;
pub mod telex;
pub mod text;
pub mod tone;
pub mod vni;

verus! {

/// The two keyboard conventions for typing Vietnamese.
#[derive(Debug, Clone, Copy, PartialEq, Eq, Structural)]
pub enum InputMethod {
    Telex,
    Vni,
}

/// The six tones of a Vietnamese syllable; `Level` is the unmarked one.
#[derive(Debug, Clone, Copy, PartialEq, Eq, Structural)]
pub enum Tone {
    Level,
    Acute,
    Grave,
    Hook,
    Tilde,
    Dot,
}

/// Composes the keys `raw`, typed with `method`, into Vietnamese text: every run
/// of ASCII letters and digits becomes the syllable it spells; every other
/// character is kept as it is.
pub fn transform_word(raw: &str, method: InputMethod) -> (r: String)
    ensures
        r@ == state::spec_transform(method, raw@),
{
    state::transform_word_stateful(raw, method)
}

} // verus!
