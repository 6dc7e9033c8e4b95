//! Colour themes: five palettes, chosen by name.
use vstd::prelude::*;
use crate::config::{theme_setting, get_theme_from, theme_file, savable_theme_name, saved_theme_reads_back};
use crate::text::{eq_str, chars_of};

verus! {

/// A 24-bit colour.
#[derive(Clone, Copy, PartialEq, Eq, Structural, Debug)]
pub struct Rgb {
    pub r: u8,
    pub g: u8,
    pub b: u8,
}

/// The colours of a theme.
#[derive(Clone, Copy, PartialEq, Eq, Structural, Debug)]
pub struct Palette {
    pub bg: Rgb,
    pub surface: Rgb,
    pub overlay: Rgb,
    pub overlay_alt: Rgb,
    pub hot_pink: Rgb,
    pub electric_cyan: Rgb,
    pub neon_green: Rgb,
    pub vivid_purple: Rgb,
    pub light_purple: Rgb,
    pub bright_yellow: Rgb,
    pub neon_orange: Rgb,
    pub bright_red: Rgb,
    pub gradient_pink: Rgb,
    pub teal: Rgb,
    pub text: Rgb,
    pub text_dim: Rgb,
    pub border: Rgb,
    pub grid: Rgb,
}

/// The colour with the given components.
pub open spec fn rgb(r: u8, g: u8, b: u8) -> Rgb {
    Rgb { r, g, b }
}

/// The palette Fire (the default): warm oranges and reds.
pub open spec fn fire() -> Palette {
    Palette {
        bg: rgb(25, 15, 15),
        surface: rgb(45, 25, 20),
        overlay: rgb(140, 40, 20),
        overlay_alt: rgb(180, 60, 30),
        hot_pink: rgb(255, 100, 0),
        electric_cyan: rgb(255, 220, 0),
        neon_green: rgb(255, 60, 0),
        vivid_purple: rgb(200, 50, 0),
        light_purple: rgb(255, 180, 100),
        bright_yellow: rgb(255, 255, 100),
        neon_orange: rgb(255, 140, 0),
        bright_red: rgb(255, 30, 30),
        gradient_pink: rgb(255, 80, 0),
        teal: rgb(255, 160, 0),
        text: rgb(250, 240, 230),
        text_dim: rgb(160, 120, 110),
        border: rgb(120, 50, 30),
        grid: rgb(80, 30, 20),
    }
}

/// The palette Fire (the default): warm oranges and reds.
pub fn fire_palette() -> (p: Palette)
    ensures
        p == fire(),
{
    Palette {
        bg: Rgb { r: 25, g: 15, b: 15 },
        surface: Rgb { r: 45, g: 25, b: 20 },
        overlay: Rgb { r: 140, g: 40, b: 20 },
        overlay_alt: Rgb { r: 180, g: 60, b: 30 },
        hot_pink: Rgb { r: 255, g: 100, b: 0 },
        electric_cyan: Rgb { r: 255, g: 220, b: 0 },
        neon_green: Rgb { r: 255, g: 60, b: 0 },
        vivid_purple: Rgb { r: 200, g: 50, b: 0 },
        light_purple: Rgb { r: 255, g: 180, b: 100 },
        bright_yellow: Rgb { r: 255, g: 255, b: 100 },
        neon_orange: Rgb { r: 255, g: 140, b: 0 },
        bright_red: Rgb { r: 255, g: 30, b: 30 },
        gradient_pink: Rgb { r: 255, g: 80, b: 0 },
        teal: Rgb { r: 255, g: 160, b: 0 },
        text: Rgb { r: 250, g: 240, b: 230 },
        text_dim: Rgb { r: 160, g: 120, b: 110 },
        border: Rgb { r: 120, g: 50, b: 30 },
        grid: Rgb { r: 80, g: 30, b: 20 },
    }
}

/// The palette Purple Dream: vibrant purples and pinks.
pub open spec fn purple_dream() -> Palette {
    Palette {
        bg: rgb(22, 17, 35),
        surface: rgb(40, 30, 65),
        overlay: rgb(95, 60, 180),
        overlay_alt: rgb(120, 75, 210),
        hot_pink: rgb(255, 0, 170),
        electric_cyan: rgb(0, 255, 255),
        neon_green: rgb(57, 255, 20),
        vivid_purple: rgb(138, 43, 226),
        light_purple: rgb(180, 130, 255),
        bright_yellow: rgb(255, 255, 0),
        neon_orange: rgb(255, 165, 0),
        bright_red: rgb(255, 50, 50),
        gradient_pink: rgb(200, 50, 180),
        teal: rgb(0, 200, 180),
        text: rgb(240, 240, 250),
        text_dim: rgb(140, 130, 170),
        border: rgb(100, 80, 160),
        grid: rgb(70, 55, 120),
    }
}

/// The palette Purple Dream: vibrant purples and pinks.
pub fn purple_dream_palette() -> (p: Palette)
    ensures
        p == purple_dream(),
{
    Palette {
        bg: Rgb { r: 22, g: 17, b: 35 },
        surface: Rgb { r: 40, g: 30, b: 65 },
        overlay: Rgb { r: 95, g: 60, b: 180 },
        overlay_alt: Rgb { r: 120, g: 75, b: 210 },
        hot_pink: Rgb { r: 255, g: 0, b: 170 },
        electric_cyan: Rgb { r: 0, g: 255, b: 255 },
        neon_green: Rgb { r: 57, g: 255, b: 20 },
        vivid_purple: Rgb { r: 138, g: 43, b: 226 },
        light_purple: Rgb { r: 180, g: 130, b: 255 },
        bright_yellow: Rgb { r: 255, g: 255, b: 0 },
        neon_orange: Rgb { r: 255, g: 165, b: 0 },
        bright_red: Rgb { r: 255, g: 50, b: 50 },
        gradient_pink: Rgb { r: 200, g: 50, b: 180 },
        teal: Rgb { r: 0, g: 200, b: 180 },
        text: Rgb { r: 240, g: 240, b: 250 },
        text_dim: Rgb { r: 140, g: 130, b: 170 },
        border: Rgb { r: 100, g: 80, b: 160 },
        grid: Rgb { r: 70, g: 55, b: 120 },
    }
}

/// The palette Sunset: rich warm gradients.
pub open spec fn sunset() -> Palette {
    Palette {
        bg: rgb(30, 15, 20),
        surface: rgb(50, 25, 30),
        overlay: rgb(180, 60, 60),
        overlay_alt: rgb(210, 80, 80),
        hot_pink: rgb(250, 100, 50),
        electric_cyan: rgb(255, 200, 0),
        neon_green: rgb(100, 255, 50),
        vivid_purple: rgb(200, 50, 100),
        light_purple: rgb(255, 150, 180),
        bright_yellow: rgb(255, 250, 100),
        neon_orange: rgb(255, 120, 0),
        bright_red: rgb(255, 40, 40),
        gradient_pink: rgb(220, 80, 120),
        teal: rgb(50, 200, 150),
        text: rgb(250, 240, 240),
        text_dim: rgb(170, 130, 130),
        border: rgb(150, 60, 80),
        grid: rgb(90, 40, 50),
    }
}

/// The palette Sunset: rich warm gradients.
pub fn sunset_palette() -> (p: Palette)
    ensures
        p == sunset(),
{
    Palette {
        bg: Rgb { r: 30, g: 15, b: 20 },
        surface: Rgb { r: 50, g: 25, b: 30 },
        overlay: Rgb { r: 180, g: 60, b: 60 },
        overlay_alt: Rgb { r: 210, g: 80, b: 80 },
        hot_pink: Rgb { r: 250, g: 100, b: 50 },
        electric_cyan: Rgb { r: 255, g: 200, b: 0 },
        neon_green: Rgb { r: 100, g: 255, b: 50 },
        vivid_purple: Rgb { r: 200, g: 50, b: 100 },
        light_purple: Rgb { r: 255, g: 150, b: 180 },
        bright_yellow: Rgb { r: 255, g: 250, b: 100 },
        neon_orange: Rgb { r: 255, g: 120, b: 0 },
        bright_red: Rgb { r: 255, g: 40, b: 40 },
        gradient_pink: Rgb { r: 220, g: 80, b: 120 },
        teal: Rgb { r: 50, g: 200, b: 150 },
        text: Rgb { r: 250, g: 240, b: 240 },
        text_dim: Rgb { r: 170, g: 130, b: 130 },
        border: Rgb { r: 150, g: 60, b: 80 },
        grid: Rgb { r: 90, g: 40, b: 50 },
    }
}

/// The palette Ocean: cool blues and cyans.
pub open spec fn ocean() -> Palette {
    Palette {
        bg: rgb(10, 20, 35),
        surface: rgb(20, 40, 65),
        overlay: rgb(40, 100, 180),
        overlay_alt: rgb(60, 120, 210),
        hot_pink: rgb(0, 150, 255),
        electric_cyan: rgb(0, 255, 200),
        neon_green: rgb(20, 255, 150),
        vivid_purple: rgb(0, 100, 255),
        light_purple: rgb(100, 180, 255),
        bright_yellow: rgb(150, 255, 255),
        neon_orange: rgb(0, 200, 255),
        bright_red: rgb(255, 80, 100),
        gradient_pink: rgb(0, 120, 220),
        teal: rgb(0, 255, 255),
        text: rgb(230, 240, 255),
        text_dim: rgb(120, 150, 180),
        border: rgb(50, 100, 180),
        grid: rgb(30, 60, 100),
    }
}

/// The palette Ocean: cool blues and cyans.
pub fn ocean_palette() -> (p: Palette)
    ensures
        p == ocean(),
{
    Palette {
        bg: Rgb { r: 10, g: 20, b: 35 },
        surface: Rgb { r: 20, g: 40, b: 65 },
        overlay: Rgb { r: 40, g: 100, b: 180 },
        overlay_alt: Rgb { r: 60, g: 120, b: 210 },
        hot_pink: Rgb { r: 0, g: 150, b: 255 },
        electric_cyan: Rgb { r: 0, g: 255, b: 200 },
        neon_green: Rgb { r: 20, g: 255, b: 150 },
        vivid_purple: Rgb { r: 0, g: 100, b: 255 },
        light_purple: Rgb { r: 100, g: 180, b: 255 },
        bright_yellow: Rgb { r: 150, g: 255, b: 255 },
        neon_orange: Rgb { r: 0, g: 200, b: 255 },
        bright_red: Rgb { r: 255, g: 80, b: 100 },
        gradient_pink: Rgb { r: 0, g: 120, b: 220 },
        teal: Rgb { r: 0, g: 255, b: 255 },
        text: Rgb { r: 230, g: 240, b: 255 },
        text_dim: Rgb { r: 120, g: 150, b: 180 },
        border: Rgb { r: 50, g: 100, b: 180 },
        grid: Rgb { r: 30, g: 60, b: 100 },
    }
}

/// The palette Forest: natural greens.
pub open spec fn forest() -> Palette {
    Palette {
        bg: rgb(15, 25, 15),
        surface: rgb(25, 45, 25),
        overlay: rgb(50, 120, 60),
        overlay_alt: rgb(70, 150, 80),
        hot_pink: rgb(100, 255, 50),
        electric_cyan: rgb(150, 255, 0),
        neon_green: rgb(0, 255, 100),
        vivid_purple: rgb(40, 180, 80),
        light_purple: rgb(120, 220, 140),
        bright_yellow: rgb(200, 255, 100),
        neon_orange: rgb(150, 200, 50),
        bright_red: rgb(255, 100, 50),
        gradient_pink: rgb(80, 200, 100),
        teal: rgb(50, 255, 150),
        text: rgb(240, 250, 240),
        text_dim: rgb(130, 160, 130),
        border: rgb(60, 140, 70),
        grid: rgb(40, 80, 50),
    }
}

/// The palette Forest: natural greens.
pub fn forest_palette() -> (p: Palette)
    ensures
        p == forest(),
{
    Palette {
        bg: Rgb { r: 15, g: 25, b: 15 },
        surface: Rgb { r: 25, g: 45, b: 25 },
        overlay: Rgb { r: 50, g: 120, b: 60 },
        overlay_alt: Rgb { r: 70, g: 150, b: 80 },
        hot_pink: Rgb { r: 100, g: 255, b: 50 },
        electric_cyan: Rgb { r: 150, g: 255, b: 0 },
        neon_green: Rgb { r: 0, g: 255, b: 100 },
        vivid_purple: Rgb { r: 40, g: 180, b: 80 },
        light_purple: Rgb { r: 120, g: 220, b: 140 },
        bright_yellow: Rgb { r: 200, g: 255, b: 100 },
        neon_orange: Rgb { r: 150, g: 200, b: 50 },
        bright_red: Rgb { r: 255, g: 100, b: 50 },
        gradient_pink: Rgb { r: 80, g: 200, b: 100 },
        teal: Rgb { r: 50, g: 255, b: 150 },
        text: Rgb { r: 240, g: 250, b: 240 },
        text_dim: Rgb { r: 130, g: 160, b: 130 },
        border: Rgb { r: 60, g: 140, b: 70 },
        grid: Rgb { r: 40, g: 80, b: 50 },
    }
}

/// The palette that a theme name selects; any name but `Sunset`, `Ocean`,
/// `Forest` and `Purple Dream` selects Fire.
pub open spec fn palette_for(name: Seq<char>) -> Palette {
    if name == "Sunset"@ {
        sunset()
    } else if name == "Ocean"@ {
        ocean()
    } else if name == "Forest"@ {
        forest()
    } else if name == "Purple Dream"@ {
        purple_dream()
    } else {
        fire()
    }
}

/// The palette that a theme name selects.
pub fn palette_named(name: &str) -> (p: Palette)
    ensures
        p == palette_for(name@),
{
    let cs = chars_of(name);
    let s = cs.as_slice();
    if eq_str(s, "Sunset") {
        sunset_palette()
    } else if eq_str(s, "Ocean") {
        ocean_palette()
    } else if eq_str(s, "Forest") {
        forest_palette()
    } else if eq_str(s, "Purple Dream") {
        purple_dream_palette()
    } else {
        fire_palette()
    }
}

/// Make the theme named `name` the current one.
pub fn set_theme(theme: &mut Palette, name: &str)
    ensures
        *final(theme) == palette_for(name@),
{
    *theme = palette_named(name);
}

/// Make the saved theme the current one, given the contents of the theme file
/// (`None` when it could not be read).
pub fn reload(theme: &mut Palette, config: Option<&str>)
    ensures
        *final(theme) == palette_for(theme_setting(match config {
            Some(c) => Some(c@),
            None => None,
        })),
{
    let name = get_theme_from(config);
    set_theme(theme, name.as_str());
}

} // verus!
