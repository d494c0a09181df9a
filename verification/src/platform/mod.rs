pub mod dib;
pub mod screenshot_analyzer;

use vstd::prelude::*;

use crate::game::text::{push_str, same_chars, str_chars, trim_chars, trimmed};

verus! {

/// The colour scheme the desktop asks for.
#[derive(Debug, Clone, Copy, PartialEq, Eq, Structural)]
pub enum PreferredColorScheme {
    Light,
    Dark,
}

/// `s` without its leading quote marks.
pub open spec fn drop_leading_quotes(s: Seq<char>) -> Seq<char>
    decreases s.len(),
{
    if s.len() > 0 && s[0] == '\'' {
        drop_leading_quotes(s.drop_first())
    } else {
        s
    }
}

/// `s` without its trailing quote marks.
pub open spec fn drop_trailing_quotes(s: Seq<char>) -> Seq<char>
    decreases s.len(),
{
    if s.len() > 0 && s.last() == '\'' {
        drop_trailing_quotes(s.drop_last())
    } else {
        s
    }
}

/// The scheme a `color-scheme` setting names: the value without white
/// space and quote marks around it is `prefer-dark` or `prefer-light`.
pub open spec fn spec_color_scheme(value: Seq<char>) -> Option<PreferredColorScheme> {
    let t = drop_trailing_quotes(drop_leading_quotes(trimmed(value)));
    if t == "prefer-dark"@ {
        Some(PreferredColorScheme::Dark)
    } else if t == "prefer-light"@ {
        Some(PreferredColorScheme::Light)
    } else {
        None
    }
}

/// The scheme the desktop's `color-scheme` setting, as `gsettings` prints
/// it, asks for.
pub fn parse_gsettings_color_scheme(value: &str) -> (r: Option<PreferredColorScheme>)
    ensures
        r == spec_color_scheme(value@),
{
    let chars = str_chars(value);
    let t = trim_chars(&chars, 0, chars.len());
    proof {
        assert(chars@.subrange(0, chars@.len() as int) =~= chars@);
    }
    let mut a: usize = 0;
    assert(t@.subrange(0, t@.len() as int) =~= t@);
    while a < t.len() && t[a] == '\''
        invariant
            a <= t@.len(),
            drop_leading_quotes(t@) == drop_leading_quotes(t@.subrange(a as int, t@.len() as int)),
        decreases t@.len() - a,
    {
        assert(t@.subrange(a as int, t@.len() as int).drop_first() =~= t@.subrange(
            a + 1,
            t@.len() as int,
        ));
        a += 1;
    }
    let mut b: usize = t.len();
    assert(drop_leading_quotes(t@) == t@.subrange(a as int, b as int));
    while b > a && t[b - 1] == '\''
        invariant
            a <= b <= t@.len(),
            drop_trailing_quotes(drop_leading_quotes(t@)) == drop_trailing_quotes(
                t@.subrange(a as int, b as int),
            ),
        decreases b - a,
    {
        assert(t@.subrange(a as int, b as int).drop_last() =~= t@.subrange(a as int, b - 1));
        b -= 1;
    }
    let mut core: Vec<char> = Vec::new();
    let mut i = a;
    while i < b
        invariant
            a <= i <= b <= t@.len(),
            core@ == t@.subrange(a as int, i as int),
        decreases b - i,
    {
        core.push(t[i]);
        i += 1;
    }
    let dark = str_chars("prefer-dark");
    let light = str_chars("prefer-light");
    if same_chars(&core, &dark) {
        Some(PreferredColorScheme::Dark)
    } else if same_chars(&core, &light) {
        Some(PreferredColorScheme::Light)
    } else {
        None
    }
}

/// A captured screen image: its size and its pixels as red, green, blue and
/// alpha bytes, row by row.
#[derive(Debug, Clone)]
pub struct ScreenshotImage {
    pub width: u32,
    pub height: u32,
    pub rgba: Vec<u8>,
}

/// Why a screenshot could not be taken.
#[derive(Debug, Clone)]
pub enum ScreenshotError {
    Portal(String),
    InvalidUri(String),
    Decode(String),
}

impl ScreenshotError {
    /// The message shown for the error.
    pub fn message(&self) -> (r: String)
        ensures
            match self {
                ScreenshotError::Portal(m) => r@ == "portal error: "@ + m@,
                ScreenshotError::InvalidUri(m) => r@ == "invalid screenshot URI: "@ + m@,
                ScreenshotError::Decode(m) => r@ == "screenshot decode error: "@ + m@,
            },
    {
        let mut r = String::new();
        match self {
            ScreenshotError::Portal(m) => {
                push_str(&mut r, "portal error: ");
                push_str(&mut r, m.as_str());
            },
            ScreenshotError::InvalidUri(m) => {
                push_str(&mut r, "invalid screenshot URI: ");
                push_str(&mut r, m.as_str());
            },
            ScreenshotError::Decode(m) => {
                push_str(&mut r, "screenshot decode error: ");
                push_str(&mut r, m.as_str());
            },
        }
        r
    }
}

/// What the platform reports back to the game.
#[derive(Debug)]
pub enum PlatformEvent {
    ScreenshotReady(Result<ScreenshotImage, ScreenshotError>),
}

/// A service that takes a screenshot when asked and later reports it as a
/// `PlatformEvent`.
pub trait ScreenshotRequester {
    fn request_interactive_capture(&self);
}

/// Something that holds text for copy and paste.
pub trait Clipboard {
    fn set_text(&self, text: String) -> Result<(), ClipboardError>;

    fn get_text(&self) -> Result<String, ClipboardError>;
}

/// Why the clipboard could not be used.
#[derive(Debug)]
pub enum ClipboardError {
    Unavailable(String),
}

impl ClipboardError {
    /// The message shown for the error.
    pub fn message(&self) -> (r: String)
        ensures
            match self {
                ClipboardError::Unavailable(m) => r@ == "clipboard error: "@ + m@,
            },
    {
        let mut r = String::new();
        match self {
            ClipboardError::Unavailable(m) => {
                push_str(&mut r, "clipboard error: ");
                push_str(&mut r, m.as_str());
            },
        }
        r
    }
}

} // verus!
