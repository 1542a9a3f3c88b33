//! PDF graphics states for CSS blend modes.

use vstd::prelude::*;
use crate::blend::BlendMode;
use crate::border_paint::gstates_view;
use crate::pdf_text::push_text;

verus! {

/// The PDF name of a blend mode (`/BM`); `Normal` needs none.
pub open spec fn spec_pdf_blend_name(mode: BlendMode) -> Option<Seq<char>> {
    match mode {
        BlendMode::Normal => None,
        BlendMode::Multiply => Some("Multiply"@),
        BlendMode::Screen => Some("Screen"@),
        BlendMode::Overlay => Some("Overlay"@),
        BlendMode::Darken => Some("Darken"@),
        BlendMode::Lighten => Some("Lighten"@),
        BlendMode::ColorDodge => Some("ColorDodge"@),
        BlendMode::ColorBurn => Some("ColorBurn"@),
        BlendMode::HardLight => Some("HardLight"@),
        BlendMode::SoftLight => Some("SoftLight"@),
        BlendMode::Difference => Some("Difference"@),
        BlendMode::Exclusion => Some("Exclusion"@),
        BlendMode::Hue => Some("Hue"@),
        BlendMode::Saturation => Some("Saturation"@),
        BlendMode::Color => Some("Color"@),
        BlendMode::Luminosity => Some("Luminosity"@),
    }
}

/// See [`spec_pdf_blend_name`].
pub fn pdf_blend_name(mode: BlendMode) -> (name: Option<&'static str>)
    ensures
        match name {
            Some(name) => spec_pdf_blend_name(mode) == Some(name@),
            None => spec_pdf_blend_name(mode) is None,
        },
{
    match mode {
        BlendMode::Normal => None,
        BlendMode::Multiply => Some("Multiply"),
        BlendMode::Screen => Some("Screen"),
        BlendMode::Overlay => Some("Overlay"),
        BlendMode::Darken => Some("Darken"),
        BlendMode::Lighten => Some("Lighten"),
        BlendMode::ColorDodge => Some("ColorDodge"),
        BlendMode::ColorBurn => Some("ColorBurn"),
        BlendMode::HardLight => Some("HardLight"),
        BlendMode::SoftLight => Some("SoftLight"),
        BlendMode::Difference => Some("Difference"),
        BlendMode::Exclusion => Some("Exclusion"),
        BlendMode::Hue => Some("Hue"),
        BlendMode::Saturation => Some("Saturation"),
        BlendMode::Color => Some("Color"),
        BlendMode::Luminosity => Some("Luminosity"),
    }
}

/// The CSS `mix-blend-mode` keyword of a mode.
pub open spec fn css_blend_keyword(mode: BlendMode) -> Seq<char> {
    match mode {
        BlendMode::Normal => "normal"@,
        BlendMode::Multiply => "multiply"@,
        BlendMode::Screen => "screen"@,
        BlendMode::Overlay => "overlay"@,
        BlendMode::Darken => "darken"@,
        BlendMode::Lighten => "lighten"@,
        BlendMode::ColorDodge => "color-dodge"@,
        BlendMode::ColorBurn => "color-burn"@,
        BlendMode::HardLight => "hard-light"@,
        BlendMode::SoftLight => "soft-light"@,
        BlendMode::Difference => "difference"@,
        BlendMode::Exclusion => "exclusion"@,
        BlendMode::Hue => "hue"@,
        BlendMode::Saturation => "saturation"@,
        BlendMode::Color => "color"@,
        BlendMode::Luminosity => "luminosity"@,
    }
}

/// The upper-case form of an ASCII lower-case letter; other characters
/// unchanged.
pub open spec fn ascii_upper(c: char) -> char {
    if 97 <= (c as u32) <= 122 {
        ((c as u32) - 32) as char
    } else {
        c
    }
}

/// A hyphenated keyword written in camel case: hyphens dropped, the
/// letter after each hyphen (and the first letter, when `capitalize`)
/// made upper case.
pub open spec fn camel_case(keyword: Seq<char>, capitalize: bool) -> Seq<char>
    decreases keyword.len(),
{
    if keyword.len() == 0 {
        Seq::empty()
    } else if keyword[0] == '-' {
        camel_case(keyword.drop_first(), true)
    } else {
        seq![if capitalize {
            ascii_upper(keyword[0])
        } else {
            keyword[0]
        }] + camel_case(keyword.drop_first(), false)
    }
}

/// The PDF blend mode of every CSS blend mode other than `normal` is its
/// CSS keyword in upper camel case (`color-dodge` is `/ColorDodge`,
/// `darken` is `/Darken`); `normal` selects no blend mode.
pub proof fn lemma_pdf_blend_name_is_css_keyword(mode: BlendMode)
    ensures
        mode == BlendMode::Normal ==> spec_pdf_blend_name(mode) is None,
        mode != BlendMode::Normal ==> spec_pdf_blend_name(mode) == Some(
            camel_case(css_blend_keyword(mode), true),
        ),
{
    reveal_with_fuel(camel_case, 12);
    match mode {
        BlendMode::Normal => {},
        BlendMode::Multiply => {
            reveal_strlit("multiply");
            reveal_strlit("Multiply");
            assert(camel_case("multiply"@, true) =~= "Multiply"@);
        },
        BlendMode::Screen => {
            reveal_strlit("screen");
            reveal_strlit("Screen");
            assert(camel_case("screen"@, true) =~= "Screen"@);
        },
        BlendMode::Overlay => {
            reveal_strlit("overlay");
            reveal_strlit("Overlay");
            assert(camel_case("overlay"@, true) =~= "Overlay"@);
        },
        BlendMode::Darken => {
            reveal_strlit("darken");
            reveal_strlit("Darken");
            assert(camel_case("darken"@, true) =~= "Darken"@);
        },
        BlendMode::Lighten => {
            reveal_strlit("lighten");
            reveal_strlit("Lighten");
            assert(camel_case("lighten"@, true) =~= "Lighten"@);
        },
        BlendMode::ColorDodge => {
            reveal_strlit("color-dodge");
            reveal_strlit("ColorDodge");
            assert(camel_case("color-dodge"@, true) =~= "ColorDodge"@);
        },
        BlendMode::ColorBurn => {
            reveal_strlit("color-burn");
            reveal_strlit("ColorBurn");
            assert(camel_case("color-burn"@, true) =~= "ColorBurn"@);
        },
        BlendMode::HardLight => {
            reveal_strlit("hard-light");
            reveal_strlit("HardLight");
            assert(camel_case("hard-light"@, true) =~= "HardLight"@);
        },
        BlendMode::SoftLight => {
            reveal_strlit("soft-light");
            reveal_strlit("SoftLight");
            assert(camel_case("soft-light"@, true) =~= "SoftLight"@);
        },
        BlendMode::Difference => {
            reveal_strlit("difference");
            reveal_strlit("Difference");
            assert(camel_case("difference"@, true) =~= "Difference"@);
        },
        BlendMode::Exclusion => {
            reveal_strlit("exclusion");
            reveal_strlit("Exclusion");
            assert(camel_case("exclusion"@, true) =~= "Exclusion"@);
        },
        BlendMode::Hue => {
            reveal_strlit("hue");
            reveal_strlit("Hue");
            assert(camel_case("hue"@, true) =~= "Hue"@);
        },
        BlendMode::Saturation => {
            reveal_strlit("saturation");
            reveal_strlit("Saturation");
            assert(camel_case("saturation"@, true) =~= "Saturation"@);
        },
        BlendMode::Color => {
            reveal_strlit("color");
            reveal_strlit("Color");
            assert(camel_case("color"@, true) =~= "Color"@);
        },
        BlendMode::Luminosity => {
            reveal_strlit("luminosity");
            reveal_strlit("Luminosity");
            assert(camel_case("luminosity"@, true) =~= "Luminosity"@);
        },
    }
}

/// The graphics-state name registered for a blend mode.
pub open spec fn blend_state_name(pdf_name: Seq<char>) -> Seq<char> {
    "GSbm"@ + pdf_name
}

/// Register a blend-mode graphics state (fully opaque) and select it,
/// returning whether a non-`Normal` blend was applied. For `Normal` nothing
/// is emitted, so output for non-blended elements stays byte-identical.
/// Callers wrap the affected paint in `q`..`Q` so the blend is scoped to
/// that paint only.
pub fn begin_blend_mode(
    content: &mut String,
    page_ext_gstates: &mut Vec<(String, u8)>,
    mode: BlendMode,
) -> (applied: bool)
    ensures
        applied == (mode != BlendMode::Normal),
        match spec_pdf_blend_name(mode) {
            Some(pdf_name) => {
                &&& final(content)@ == old(content)@ + "/"@ + blend_state_name(pdf_name)
                    + " gs\n"@
                &&& gstates_view(final(page_ext_gstates)@) == gstates_view(
                    old(page_ext_gstates)@,
                ).push((blend_state_name(pdf_name), 255u8))
            },
            None => final(content)@ == old(content)@ && final(page_ext_gstates)@ == old(
                page_ext_gstates,
            )@,
        },
{
    match pdf_blend_name(mode) {
        Some(pdf_name) => {
            let mut name = String::new();
            push_text(&mut name, "GSbm");
            push_text(&mut name, pdf_name);
            let ghost before = page_ext_gstates@;
            page_ext_gstates.push((name.clone(), 255));
            push_text(content, "/");
            push_text(content, name.as_str());
            push_text(content, " gs\n");
            proof {
                assert(gstates_view(page_ext_gstates@) =~= gstates_view(before).push(
                    (name@, 255u8),
                ));
            }
            true
        },
        None => false,
    }
}

} // verus!
