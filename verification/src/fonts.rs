//! The fonts that the editor ships with.

use vstd::prelude::*;

verus! {

/// How heavy a font is drawn.
#[derive(Debug, Clone, Copy, PartialEq, Eq, Structural)]
pub enum FontWeight {
    Normal,
    Medium,
}

/// The bundled font families.
#[derive(Debug, Clone, Copy, PartialEq, Eq, Structural)]
pub enum Fonts {
    Neon,
    Argon,
    Radon,
    Xenon,
    Krypton,
    HKGrotesk,
}

impl Fonts {
    /// The family name of the font.
    pub open spec fn name(self) -> Seq<char> {
        match self {
            Fonts::Neon => "Monaspace Neon"@,
            Fonts::Argon => "Monaspace Argon"@,
            Fonts::Xenon => "Monaspace Xenon"@,
            Fonts::Radon => "Monaspace Radon Var"@,
            Fonts::Krypton => "Monaspace Krypton Var"@,
            Fonts::HKGrotesk => "Hanken Grotesk"@,
        }
    }

    /// The weight at which the font is drawn: medium for the families that
    /// ship as fixed weights, normal for the variable ones.
    pub open spec fn drawn(self) -> FontWeight {
        match self {
            Fonts::Xenon | Fonts::Argon | Fonts::Neon => FontWeight::Medium,
            _ => FontWeight::Normal,
        }
    }

    /// The family name of the font.
    pub fn to_str(&self) -> (name: &'static str)
        ensures
            name@ == self.name(),
    {
        match self {
            Fonts::Neon => "Monaspace Neon",
            Fonts::Argon => "Monaspace Argon",
            Fonts::Xenon => "Monaspace Xenon",
            Fonts::Radon => "Monaspace Radon Var",
            Fonts::Krypton => "Monaspace Krypton Var",
            Fonts::HKGrotesk => "Hanken Grotesk",
        }
    }

    /// The weight at which the font is drawn.
    pub fn weight(&self) -> (weight: FontWeight)
        ensures
            weight == self.drawn(),
    {
        match self {
            Fonts::Xenon | Fonts::Argon | Fonts::Neon => FontWeight::Medium,
            _ => FontWeight::Normal,
        }
    }
}

/// The fonts that the editor offers for its text.
#[derive(Debug, Clone, Copy, PartialEq, Eq, Structural)]
pub enum LocalFont {
    Neon,
    _Argon,
    _Radon,
    _Krypton,
    _Xenon,
    HKGrotesk,
}

impl LocalFont {
    /// The family name of the font.
    pub open spec fn name(self) -> Seq<char> {
        match self {
            LocalFont::Neon => "Monaspace Neon"@,
            LocalFont::_Argon => "Monaspace Argon"@,
            LocalFont::_Xenon => "Monaspace Xenon"@,
            LocalFont::_Radon => "Monaspace Radon Var"@,
            LocalFont::_Krypton => "Monaspace Krypton Var"@,
            LocalFont::HKGrotesk => "Hanken Grotesk"@,
        }
    }

    /// The weight at which the font is drawn.
    pub open spec fn drawn(self) -> FontWeight {
        match self {
            LocalFont::_Xenon | LocalFont::_Argon | LocalFont::Neon | LocalFont::HKGrotesk =>
                FontWeight::Medium,
            _ => FontWeight::Normal,
        }
    }

    /// The font that a selection stands for: the chosen one, and Hanken
    /// Grotesk where nothing was chosen.
    pub open spec fn chosen(selection: Option<LocalFont>) -> LocalFont {
        match selection {
            Some(font) => font,
            None => LocalFont::HKGrotesk,
        }
    }

    /// The family name of the font.
    pub fn to_str(&self) -> (name: &'static str)
        ensures
            name@ == self.name(),
    {
        match self {
            LocalFont::Neon => "Monaspace Neon",
            LocalFont::_Argon => "Monaspace Argon",
            LocalFont::_Xenon => "Monaspace Xenon",
            LocalFont::_Radon => "Monaspace Radon Var",
            LocalFont::_Krypton => "Monaspace Krypton Var",
            LocalFont::HKGrotesk => "Hanken Grotesk",
        }
    }

    /// The weight at which the font is drawn.
    pub fn weight(&self) -> (weight: FontWeight)
        ensures
            weight == self.drawn(),
    {
        match self {
            LocalFont::_Xenon | LocalFont::_Argon | LocalFont::Neon | LocalFont::HKGrotesk =>
                FontWeight::Medium,
            _ => FontWeight::Normal,
        }
    }

    /// The font that the application starts with.
    pub fn select(selection: Option<LocalFont>) -> (font: LocalFont)
        ensures
            font == LocalFont::chosen(selection),
    {
        match selection {
            Some(font) => font,
            None => LocalFont::HKGrotesk,
        }
    }
}

} // verus!
