//! Data model for styled text runs and the formatting state machine.
//!
//! A legacy string is a flat sequence of characters in which the marker
//! character announces a two-character formatting sequence: the marker itself
//! followed by one code. Codes either switch the current color, set one of
//! five style flags, or reset everything to the initial state. The decoder
//! threads a [`FormatState`] through the scan and snapshots it into a
//! [`StyledRun`] each time a formatting boundary is crossed.

use vstd::prelude::*;

verus! {

/// The marker character that introduces a formatting code (historically `§`).
pub const MARKER: char = '\u{00A7}';

/// Error returned by the decoder on malformed input.
#[derive(Debug, Clone, Copy, PartialEq, Eq, Structural)]
pub enum DecodeError {
    /// The marker was the final character, so no code follows it.
    TruncatedFormatCode,
    /// The code after the marker is neither a style letter, the reset code,
    /// nor one of the sixteen color codes. Carries the offending character.
    UnknownFormatCode(char),
}

/// True for the five codes that set a style flag.
pub open spec fn is_style_code(c: char) -> bool {
    c == 'l' || c == 'k' || c == 'm' || c == 'n' || c == 'o'
}

/// True for the sixteen color codes `0`-`9`, `a`-`f`.
pub open spec fn is_color_code(c: char) -> bool {
    ('0' <= c && c <= '9') || ('a' <= c && c <= 'f')
}

/// True for every code the decoder accepts after a marker.
pub open spec fn is_format_code(c: char) -> bool {
    is_style_code(c) || c == 'r' || is_color_code(c)
}

/// The fixed name assigned to each of the sixteen color codes.
pub open spec fn color_name(c: char) -> Seq<char> {
    if c == '0' {
        "black"@
    } else if c == '1' {
        "dark_blue"@
    } else if c == '2' {
        "dark_green"@
    } else if c == '3' {
        "dark_aqua"@
    } else if c == '4' {
        "dark_red"@
    } else if c == '5' {
        "dark_purple"@
    } else if c == '6' {
        "gold"@
    } else if c == '7' {
        "gray"@
    } else if c == '8' {
        "dark_gray"@
    } else if c == '9' {
        "blue"@
    } else if c == 'a' {
        "green"@
    } else if c == 'b' {
        "aqua"@
    } else if c == 'c' {
        "red"@
    } else if c == 'd' {
        "light_purple"@
    } else if c == 'e' {
        "yellow"@
    } else {
        "white"@
    }
}

/// Mathematical model of the running formatting state.
pub struct StateView {
    pub bold: Option<bool>,
    pub italic: Option<bool>,
    pub underlined: Option<bool>,
    pub strikethrough: Option<bool>,
    pub obfuscated: Option<bool>,
    pub color: Option<Seq<char>>,
}

/// The state at the start of a scan: no style flags, color `white`.
pub open spec fn initial_state() -> StateView {
    StateView {
        bold: None,
        italic: None,
        underlined: None,
        strikethrough: None,
        obfuscated: None,
        color: Some("white"@),
    }
}

/// The state after applying one accepted formatting code to `st`.
///
/// Style codes set exactly one flag, the reset code restores the initial
/// state, and a color code replaces the color; the three families are
/// mutually exclusive, so a style code never touches the color.
pub open spec fn apply_code(st: StateView, c: char) -> StateView {
    if c == 'l' {
        StateView { bold: Some(true), ..st }
    } else if c == 'k' {
        StateView { obfuscated: Some(true), ..st }
    } else if c == 'm' {
        StateView { strikethrough: Some(true), ..st }
    } else if c == 'n' {
        StateView { underlined: Some(true), ..st }
    } else if c == 'o' {
        StateView { italic: Some(true), ..st }
    } else if c == 'r' {
        initial_state()
    } else {
        StateView { color: Some(color_name(c)), ..st }
    }
}

/// Mathematical model of one styled run.
pub struct RunView {
    pub text: Seq<char>,
    pub color: Option<Seq<char>>,
    pub bold: Option<bool>,
    pub italic: Option<bool>,
    pub underlined: Option<bool>,
    pub strikethrough: Option<bool>,
    pub obfuscated: Option<bool>,
}

/// The run that snapshots state `st` over the accumulated text `text`.
pub open spec fn run_of(text: Seq<char>, st: StateView) -> RunView {
    RunView {
        text: text,
        color: st.color,
        bold: st.bold,
        italic: st.italic,
        underlined: st.underlined,
        strikethrough: st.strikethrough,
        obfuscated: st.obfuscated,
    }
}

/// One contiguous span of text sharing formatting.
///
/// Each style flag is tri-state: unset (`None`) means not specified; the
/// decoder only ever produces `Some(true)` or `None`. The color is either one
/// of the sixteen fixed names (when produced by the decoder) or an arbitrary
/// string supplied directly to the renderer.
#[derive(Debug)]
pub struct StyledRun {
    pub text: String,
    pub color: Option<String>,
    pub bold: Option<bool>,
    pub italic: Option<bool>,
    pub underlined: Option<bool>,
    pub strikethrough: Option<bool>,
    pub obfuscated: Option<bool>,
}

impl View for StyledRun {
    type V = RunView;

    open spec fn view(&self) -> RunView {
        RunView {
            text: self.text@,
            color: match self.color {
                Some(s) => Some(s@),
                None => None,
            },
            bold: self.bold,
            italic: self.italic,
            underlined: self.underlined,
            strikethrough: self.strikethrough,
            obfuscated: self.obfuscated,
        }
    }
}

impl DeepView for StyledRun {
    type V = RunView;

    open spec fn deep_view(&self) -> RunView {
        self.view()
    }
}

/// Running formatting state threaded through the decoder's scan.
#[derive(Debug)]
pub struct FormatState {
    pub bold: Option<bool>,
    pub italic: Option<bool>,
    pub underlined: Option<bool>,
    pub strikethrough: Option<bool>,
    pub obfuscated: Option<bool>,
    pub color: Option<String>,
}

impl View for FormatState {
    type V = StateView;

    open spec fn view(&self) -> StateView {
        StateView {
            bold: self.bold,
            italic: self.italic,
            underlined: self.underlined,
            strikethrough: self.strikethrough,
            obfuscated: self.obfuscated,
            color: match self.color {
                Some(s) => Some(s@),
                None => None,
            },
        }
    }
}

/// Copies an optional owned string, preserving its view.
fn clone_opt_string(o: &Option<String>) -> (r: Option<String>)
    ensures
        r is Some <==> *o is Some,
        r is Some ==> r->0@ == o->0@,
{
    match o {
        Some(s) => Some(s.clone()),
        None => None,
    }
}

/// Decides membership in the sixteen-entry color-code table.
pub fn check_color_code(c: char) -> (r: bool)
    ensures
        r == is_color_code(c),
{
    ('0' <= c && c <= '9') || ('a' <= c && c <= 'f')
}

/// Decides whether `c` is one of the five style-flag codes.
pub fn check_style_code(c: char) -> (r: bool)
    ensures
        r == is_style_code(c),
{
    c == 'l' || c == 'k' || c == 'm' || c == 'n' || c == 'o'
}

/// The owned color name for a color code, matching the fixed table.
pub fn color_name_string(c: char) -> (r: String)
    requires
        is_color_code(c),
    ensures
        r@ == color_name(c),
{
    let name: &str = if c == '0' {
        "black"
    } else if c == '1' {
        "dark_blue"
    } else if c == '2' {
        "dark_green"
    } else if c == '3' {
        "dark_aqua"
    } else if c == '4' {
        "dark_red"
    } else if c == '5' {
        "dark_purple"
    } else if c == '6' {
        "gold"
    } else if c == '7' {
        "gray"
    } else if c == '8' {
        "dark_gray"
    } else if c == '9' {
        "blue"
    } else if c == 'a' {
        "green"
    } else if c == 'b' {
        "aqua"
    } else if c == 'c' {
        "red"
    } else if c == 'd' {
        "light_purple"
    } else if c == 'e' {
        "yellow"
    } else {
        "white"
    };
    String::from_str(name)
}

impl FormatState {
    /// The state a scan starts in: no style flags, color `white`.
    pub fn initial() -> (s: FormatState)
        ensures
            s@ == initial_state(),
    {
        FormatState {
            bold: None,
            italic: None,
            underlined: None,
            strikethrough: None,
            obfuscated: None,
            color: Some(String::from_str("white")),
        }
    }

    /// A copy of this state with the same view.
    pub fn duplicate(&self) -> (s: FormatState)
        ensures
            s@ == self@,
    {
        FormatState {
            bold: self.bold,
            italic: self.italic,
            underlined: self.underlined,
            strikethrough: self.strikethrough,
            obfuscated: self.obfuscated,
            color: clone_opt_string(&self.color),
        }
    }

    /// The state after one accepted formatting code.
    pub fn apply(&self, code: char) -> (s: FormatState)
        requires
            is_format_code(code),
        ensures
            s@ == apply_code(self@, code),
    {
        if code == 'l' {
            let mut s = self.duplicate();
            s.bold = Some(true);
            s
        } else if code == 'k' {
            let mut s = self.duplicate();
            s.obfuscated = Some(true);
            s
        } else if code == 'm' {
            let mut s = self.duplicate();
            s.strikethrough = Some(true);
            s
        } else if code == 'n' {
            let mut s = self.duplicate();
            s.underlined = Some(true);
            s
        } else if code == 'o' {
            let mut s = self.duplicate();
            s.italic = Some(true);
            s
        } else if code == 'r' {
            FormatState::initial()
        } else {
            let mut s = self.duplicate();
            s.color = Some(color_name_string(code));
            s
        }
    }

    /// The run that snapshots this state over the accumulated text.
    pub fn snapshot(&self, text: String) -> (r: StyledRun)
        ensures
            r@ == run_of(text@, self@),
    {
        StyledRun {
            text: text,
            color: clone_opt_string(&self.color),
            bold: self.bold,
            italic: self.italic,
            underlined: self.underlined,
            strikethrough: self.strikethrough,
            obfuscated: self.obfuscated,
        }
    }
}

} // verus!
