use vstd::prelude::*;

use fontdue::Font;

verus! {

#[verifier::external_type_specification]
#[verifier::external_body]
pub struct ExFont(Font);

/// What `fontdue::Font::lookup_glyph_index` returns for a font and a
/// character: a lookup in the font's own character map, 0 where the font
/// has no glyph for the character.
pub uninterp spec fn glyph_of(font: Font, c: char) -> u16;

/// `fontdue::Font::lookup_glyph_index`: the result is `glyph_of` the font
/// and the character.
#[verifier::external_body]
fn glyph_index(font: &Font, c: char) -> (r: u16)
    ensures
        r == glyph_of(*font, c),
{
    font.lookup_glyph_index(c)
}

/// Which of the tray's fonts draws a character.
#[derive(Clone, Copy, Debug, PartialEq, Eq, Structural)]
pub enum FontChoice {
    Primary,
    Fallback,
}

/// The font for a character, given its glyph index in the primary font and,
/// where there is a fallback font, in that one (0 meaning no glyph): the
/// primary font when it has a glyph, else the fallback font when that has
/// one, else the primary font.
pub open spec fn font_for(primary_glyph: u16, fallback_glyph: Option<u16>) -> FontChoice {
    if primary_glyph != 0 {
        FontChoice::Primary
    } else {
        match fallback_glyph {
            Some(g) if g != 0 => FontChoice::Fallback,
            _ => FontChoice::Primary,
        }
    }
}

/// The font for a character by its glyph indices (see `font_for`).
pub fn font_choice(primary_glyph: u16, fallback_glyph: Option<u16>) -> (r: FontChoice)
    ensures
        r == font_for(primary_glyph, fallback_glyph),
{
    if primary_glyph != 0 {
        FontChoice::Primary
    } else {
        match fallback_glyph {
            Some(g) => if g != 0 {
                FontChoice::Fallback
            } else {
                FontChoice::Primary
            },
            None => FontChoice::Primary,
        }
    }
}

/// The tray's fonts: a primary one, and one that may stand in for
/// characters it has no glyph for (Chinese status texts).
pub struct TrayFonts {
    pub primary: Font,
    pub fallback: Option<Font>,
}

impl TrayFonts {
    /// The font that draws `ch`: where there is a fallback font, the one
    /// `font_for` picks by the glyph indices of `ch` in the two fonts, else
    /// the primary font.
    pub fn for_char(&self, ch: char) -> (r: &Font)
        ensures
            r == match self.fallback {
                Some(f) => if font_for(glyph_of(self.primary, ch), Some(glyph_of(f, ch)))
                    == FontChoice::Fallback {
                    f
                } else {
                    self.primary
                },
                None => self.primary,
            },
    {
        let primary_glyph = glyph_index(&self.primary, ch);
        match &self.fallback {
            None => &self.primary,
            Some(f) => match font_choice(primary_glyph, Some(glyph_index(f, ch))) {
                FontChoice::Primary => &self.primary,
                FontChoice::Fallback => f,
            },
        }
    }
}

} // verus!
