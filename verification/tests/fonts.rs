use mad::fonts::{FontWeight, Fonts, LocalFont};

#[test]
fn fonts_have_their_family_names() {
    assert_eq!(Fonts::Neon.to_str(), "Monaspace Neon");
    assert_eq!(Fonts::Argon.to_str(), "Monaspace Argon");
    assert_eq!(Fonts::Xenon.to_str(), "Monaspace Xenon");
    assert_eq!(Fonts::Radon.to_str(), "Monaspace Radon Var");
    assert_eq!(Fonts::Krypton.to_str(), "Monaspace Krypton Var");
    assert_eq!(Fonts::HKGrotesk.to_str(), "Hanken Grotesk");
}

#[test]
fn fixed_fonts_are_drawn_medium() {
    assert_eq!(Fonts::Neon.weight(), FontWeight::Medium);
    assert_eq!(Fonts::Argon.weight(), FontWeight::Medium);
    assert_eq!(Fonts::Xenon.weight(), FontWeight::Medium);
    assert_eq!(Fonts::Radon.weight(), FontWeight::Normal);
    assert_eq!(Fonts::Krypton.weight(), FontWeight::Normal);
    assert_eq!(Fonts::HKGrotesk.weight(), FontWeight::Normal);
}

#[test]
fn local_fonts_have_their_family_names() {
    assert_eq!(LocalFont::Neon.to_str(), "Monaspace Neon");
    assert_eq!(LocalFont::_Argon.to_str(), "Monaspace Argon");
    assert_eq!(LocalFont::_Xenon.to_str(), "Monaspace Xenon");
    assert_eq!(LocalFont::_Radon.to_str(), "Monaspace Radon Var");
    assert_eq!(LocalFont::_Krypton.to_str(), "Monaspace Krypton Var");
    assert_eq!(LocalFont::HKGrotesk.to_str(), "Hanken Grotesk");
}

#[test]
fn local_fonts_have_their_weights() {
    assert_eq!(LocalFont::Neon.weight(), FontWeight::Medium);
    assert_eq!(LocalFont::_Argon.weight(), FontWeight::Medium);
    assert_eq!(LocalFont::_Xenon.weight(), FontWeight::Medium);
    assert_eq!(LocalFont::HKGrotesk.weight(), FontWeight::Medium);
    assert_eq!(LocalFont::_Radon.weight(), FontWeight::Normal);
    assert_eq!(LocalFont::_Krypton.weight(), FontWeight::Normal);
}

#[test]
fn no_selection_means_hanken_grotesk() {
    assert_eq!(LocalFont::select(None), LocalFont::HKGrotesk);
    assert_eq!(LocalFont::select(Some(LocalFont::Neon)), LocalFont::Neon);
    assert_eq!(LocalFont::select(Some(LocalFont::_Radon)), LocalFont::_Radon);
}
