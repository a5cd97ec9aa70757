//! Text layout decisions: which characters of a string start a new line,
//! advance by a tab, or place a glyph (with its fallback and the kerning pair
//! that follows it). The cursor arithmetic itself is done in font units by
//! the caller.
use vstd::prelude::*;

verus! {

/// What one character of a string does to the text cursor.
#[derive(Debug, Clone, Copy, PartialEq, Eq, Structural)]
pub enum TextStep {
    /// `\n`: back to the line start, one line down.
    NewLine,
    /// `\t`: advance by four spaces.
    Tab,
    /// Place the glyph of `glyph` (the character itself, or `?` when the font
    /// lacks it), then advance with the kerning of the pair (`left`, `right`)
    /// where `right` is the next character of the string, if any.
    Glyph { glyph: char, left: char, right: Option<char> },
}

/// The step of character `i` of `chars`, if it makes one: carriage returns
/// make none; a tab makes one only when the font has a space; a character
/// the font lacks falls back to `?`, and makes none when that is missing too.
pub open spec fn spec_text_step(chars: Seq<char>, glyphs: Seq<char>, i: int) -> Option<TextStep> {
    let ch = chars[i];
    if ch == '\n' {
        Some(TextStep::NewLine)
    } else if ch == '\r' {
        None
    } else if ch == '\t' {
        if glyphs.contains(' ') { Some(TextStep::Tab) } else { None }
    } else {
        let right = if i + 1 < chars.len() { Some(chars[i + 1]) } else { None };
        if glyphs.contains(ch) {
            Some(TextStep::Glyph { glyph: ch, left: ch, right })
        } else if glyphs.contains('?') {
            Some(TextStep::Glyph { glyph: '?', left: ch, right })
        } else {
            None
        }
    }
}

/// The steps of the first `n` characters, in order.
pub open spec fn spec_text_steps(chars: Seq<char>, glyphs: Seq<char>, n: nat) -> Seq<TextStep>
    decreases n,
{
    if n == 0 {
        Seq::empty()
    } else {
        let prev = spec_text_steps(chars, glyphs, (n - 1) as nat);
        match spec_text_step(chars, glyphs, n - 1) {
            Some(s) => prev.push(s),
            None => prev,
        }
    }
}

/// Whether `c` occurs in `s`.
fn contains_char(s: &[char], c: char) -> (r: bool)
    ensures
        r == s@.contains(c),
{
    let mut i: usize = 0;
    while i < s.len()
        invariant
            i <= s@.len(),
            forall|k: int| 0 <= k < i ==> s@[k] != c,
        decreases s@.len() - i,
    {
        if s[i] == c {
            assert(s@[i as int] == c);
            return true;
        }
        i += 1;
    }
    false
}

/// The layout steps of `text` for a font that has glyphs for the characters
/// in `glyphs`.
pub fn text_steps(text: &[char], glyphs: &[char]) -> (r: Vec<TextStep>)
    ensures
        r@ == spec_text_steps(text@, glyphs@, text@.len()),
{
    let has_space = contains_char(glyphs, ' ');
    let has_question = contains_char(glyphs, '?');
    let mut r: Vec<TextStep> = Vec::new();
    let mut i: usize = 0;
    while i < text.len()
        invariant
            i <= text@.len(),
            has_space == glyphs@.contains(' '),
            has_question == glyphs@.contains('?'),
            r@ == spec_text_steps(text@, glyphs@, i as nat),
        decreases text@.len() - i,
    {
        let ch = text[i];
        let right: Option<char> = if i + 1 < text.len() {
            Some(text[i + 1])
        } else {
            None
        };
        let step: Option<TextStep> = if ch == '\n' {
            Some(TextStep::NewLine)
        } else if ch == '\r' {
            None
        } else if ch == '\t' {
            if has_space {
                Some(TextStep::Tab)
            } else {
                None
            }
        } else if contains_char(glyphs, ch) {
            Some(TextStep::Glyph { glyph: ch, left: ch, right })
        } else if has_question {
            Some(TextStep::Glyph { glyph: '?', left: ch, right })
        } else {
            None
        };
        assert(step == spec_text_step(text@, glyphs@, i as int));
        match step {
            Some(s) => r.push(s),
            None => {},
        }
        i += 1;
    }
    r
}

/// Number of `\n` among the first `n` characters.
pub open spec fn count_newlines(chars: Seq<char>, n: nat) -> nat
    decreases n,
{
    if n == 0 {
        0
    } else {
        count_newlines(chars, (n - 1) as nat) + if chars[n - 1] == '\n' { 1nat } else { 0nat }
    }
}

/// Number of `NewLine` steps.
pub open spec fn count_newline_steps(steps: Seq<TextStep>) -> nat
    decreases steps.len(),
{
    if steps.len() == 0 {
        0
    } else {
        count_newline_steps(steps.drop_last()) + if steps.last() == TextStep::NewLine {
            1nat
        } else {
            0nat
        }
    }
}

/// Line breaks are kept one for one: the layout has as many `NewLine` steps
/// as the text has `\n` characters, whatever glyphs the font has.
pub proof fn lemma_newlines_preserved(chars: Seq<char>, glyphs: Seq<char>, n: nat)
    requires
        n <= chars.len(),
    ensures
        count_newline_steps(spec_text_steps(chars, glyphs, n)) == count_newlines(chars, n),
    decreases n,
{
    if n > 0 {
        lemma_newlines_preserved(chars, glyphs, (n - 1) as nat);
        let prev = spec_text_steps(chars, glyphs, (n - 1) as nat);
        match spec_text_step(chars, glyphs, n - 1) {
            Some(s) => {
                assert(prev.push(s).drop_last() =~= prev);
            },
            None => {},
        }
    }
}

/// Number of `\t` among the first `n` characters.
pub open spec fn count_tabs(chars: Seq<char>, n: nat) -> nat
    decreases n,
{
    if n == 0 {
        0
    } else {
        count_tabs(chars, (n - 1) as nat) + if chars[n - 1] == '\t' { 1nat } else { 0nat }
    }
}

/// Number of `Tab` steps.
pub open spec fn count_tab_steps(steps: Seq<TextStep>) -> nat
    decreases steps.len(),
{
    if steps.len() == 0 {
        0
    } else {
        count_tab_steps(steps.drop_last()) + if steps.last() == TextStep::Tab {
            1nat
        } else {
            0nat
        }
    }
}

/// Only tab characters advance by a tab: with a font that has a space, the
/// layout has exactly as many `Tab` steps as the text has `\t` characters;
/// without one, it has none.
pub proof fn lemma_tabs_only_from_tab_chars(chars: Seq<char>, glyphs: Seq<char>, n: nat)
    requires
        n <= chars.len(),
    ensures
        glyphs.contains(' ') ==> count_tab_steps(spec_text_steps(chars, glyphs, n)) == count_tabs(chars, n),
        !glyphs.contains(' ') ==> count_tab_steps(spec_text_steps(chars, glyphs, n)) == 0,
    decreases n,
{
    if n > 0 {
        lemma_tabs_only_from_tab_chars(chars, glyphs, (n - 1) as nat);
        let prev = spec_text_steps(chars, glyphs, (n - 1) as nat);
        match spec_text_step(chars, glyphs, n - 1) {
            Some(s) => {
                assert(prev.push(s).drop_last() =~= prev);
            },
            None => {},
        }
    }
}

/// A character that is no control character and that the font has is placed
/// as its own glyph, kerned with the character after it (none at the end);
/// one the font lacks is placed as `?` when the font has that, still kerned
/// as itself.
pub proof fn lemma_glyph_step_of_char(chars: Seq<char>, glyphs: Seq<char>, i: int)
    requires
        0 <= i < chars.len(),
        chars[i] != '\n' && chars[i] != '\r' && chars[i] != '\t',
    ensures
        glyphs.contains(chars[i]) ==> spec_text_step(chars, glyphs, i) == Some(
            TextStep::Glyph {
                glyph: chars[i],
                left: chars[i],
                right: if i + 1 < chars.len() { Some(chars[i + 1]) } else { None },
            },
        ),
        !glyphs.contains(chars[i]) && glyphs.contains('?') ==> spec_text_step(chars, glyphs, i) == Some(
            TextStep::Glyph {
                glyph: '?',
                left: chars[i],
                right: if i + 1 < chars.len() { Some(chars[i + 1]) } else { None },
            },
        ),
{
}

} // verus!
