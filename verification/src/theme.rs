//! Colors and text styles of the interface. A color is a 24-bit RGB value
//! written `0xRRGGBB`.

use vstd::prelude::*;

verus! {

/// How a piece of text is drawn: its foreground and background colors and
/// its modifiers. The default style sets nothing.
#[derive(Debug, Clone, Copy, PartialEq, Eq, Structural)]
pub struct Style {
    pub fg: Option<u32>,
    pub bg: Option<u32>,
    pub bold: bool,
    pub italic: bool,
    pub underlined: bool,
}

impl Style {
    /// The style that sets nothing.
    #[verifier::allow_in_spec]
    pub fn new() -> Style
        returns
            (Style { fg: None, bg: None, bold: false, italic: false, underlined: false }),
    {
        Style { fg: None, bg: None, bold: false, italic: false, underlined: false }
    }

    /// Sets the foreground color.
    #[verifier::allow_in_spec]
    pub fn fg(self, color: u32) -> Style
        returns
            (Style { fg: Some(color), ..self }),
    {
        Style { fg: Some(color), ..self }
    }

    /// Sets the background color.
    #[verifier::allow_in_spec]
    pub fn bg(self, color: u32) -> Style
        returns
            (Style { bg: Some(color), ..self }),
    {
        Style { bg: Some(color), ..self }
    }

    /// Adds the bold modifier.
    #[verifier::allow_in_spec]
    pub fn bold(self) -> Style
        returns
            (Style { bold: true, ..self }),
    {
        Style { bold: true, ..self }
    }

    /// Adds the italic modifier.
    #[verifier::allow_in_spec]
    pub fn italic(self) -> Style
        returns
            (Style { italic: true, ..self }),
    {
        Style { italic: true, ..self }
    }

    /// Adds the underlined modifier.
    #[verifier::allow_in_spec]
    pub fn underlined(self) -> Style
        returns
            (Style { underlined: true, ..self }),
    {
        Style { underlined: true, ..self }
    }
}

/// The palette and the named styles built from it.
pub struct Theme;

impl Theme {
    // Primary palette
    pub const CRANBERRY: u32 = 0xDB4460;
    pub const TEAL: u32 = 0x48B9AF;
    pub const GOLD: u32 = 0xE4A848;

    // Text hierarchy
    pub const TEXT_PRIMARY: u32 = 0xF0EDE8;
    pub const TEXT_SECONDARY: u32 = 0x9EAFC4;
    pub const TEXT_DIM: u32 = 0x526378;

    // Surfaces
    pub const BG_PRIMARY: u32 = 0x12161E;
    pub const BG_SURFACE: u32 = 0x181E2A;
    pub const BG_ELEVATED: u32 = 0x202838;
    pub const BORDER: u32 = 0x2A384C;
    pub const BORDER_ACTIVE: u32 = 0x526C92;

    // Semantic
    pub const SUCCESS: u32 = 0x48B9AF;
    pub const ERROR: u32 = 0xDB4460;
    pub const WARNING: u32 = 0xE4A848;
    pub const INFO: u32 = 0x6EA0F0;

    // Inline code
    pub const CODE: u32 = 0xC8B48C;

    #[verifier::allow_in_spec]
    pub fn title() -> Style
        returns
            Style::new().fg(Self::TEXT_PRIMARY).bold(),
    {
        Style::new().fg(Self::TEXT_PRIMARY).bold()
    }

    #[verifier::allow_in_spec]
    pub fn subtitle() -> Style
        returns
            Style::new().fg(Self::TEXT_SECONDARY),
    {
        Style::new().fg(Self::TEXT_SECONDARY)
    }

    #[verifier::allow_in_spec]
    pub fn dim() -> Style
        returns
            Style::new().fg(Self::TEXT_DIM),
    {
        Style::new().fg(Self::TEXT_DIM)
    }

    #[verifier::allow_in_spec]
    pub fn accent() -> Style
        returns
            Style::new().fg(Self::CRANBERRY).bold(),
    {
        Style::new().fg(Self::CRANBERRY).bold()
    }

    #[verifier::allow_in_spec]
    pub fn success() -> Style
        returns
            Style::new().fg(Self::SUCCESS),
    {
        Style::new().fg(Self::SUCCESS)
    }

    #[verifier::allow_in_spec]
    pub fn warning() -> Style
        returns
            Style::new().fg(Self::WARNING),
    {
        Style::new().fg(Self::WARNING)
    }

    #[verifier::allow_in_spec]
    pub fn error() -> Style
        returns
            Style::new().fg(Self::ERROR),
    {
        Style::new().fg(Self::ERROR)
    }

    #[verifier::allow_in_spec]
    pub fn selected() -> Style
        returns
            Style::new().fg(Self::TEXT_PRIMARY).bg(Self::BG_ELEVATED).bold(),
    {
        Style::new().fg(Self::TEXT_PRIMARY).bg(Self::BG_ELEVATED).bold()
    }

    #[verifier::allow_in_spec]
    pub fn border() -> Style
        returns
            Style::new().fg(Self::BORDER),
    {
        Style::new().fg(Self::BORDER)
    }

    #[verifier::allow_in_spec]
    pub fn border_active() -> Style
        returns
            Style::new().fg(Self::BORDER_ACTIVE),
    {
        Style::new().fg(Self::BORDER_ACTIVE)
    }

    #[verifier::allow_in_spec]
    pub fn input_prompt() -> Style
        returns
            Style::new().fg(Self::TEAL).bold(),
    {
        Style::new().fg(Self::TEAL).bold()
    }
}

} // verus!
