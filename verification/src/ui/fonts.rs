//! System fonts for scripts that the built-in font does not cover.

use vstd::prelude::*;

use crate::path::{file_stem, Platform};
use crate::text::{chars_of, string_of};

verus! {

/// Well-known font files, by preference within each script: Japanese, simplified Chinese,
/// traditional Chinese, Korean.
pub open spec fn windows_fonts() -> Seq<Seq<char>> {
    seq![
        "C:\\Windows\\Fonts\\meiryo.ttc"@,
        "C:\\Windows\\Fonts\\msgothic.ttc"@,
        "C:\\Windows\\Fonts\\msyh.ttc"@,
        "C:\\Windows\\Fonts\\simsun.ttc"@,
        "C:\\Windows\\Fonts\\msjh.ttc"@,
        "C:\\Windows\\Fonts\\mingliu.ttc"@,
        "C:\\Windows\\Fonts\\malgun.ttf"@,
        "C:\\Windows\\Fonts\\gulim.ttc"@,
    ]
}

/// The texts of a list.
pub open spec fn font_views(fonts: Seq<&'static str>) -> Seq<Seq<char>> {
    fonts.map_values(|f: &'static str| f@)
}

/// The font files to probe, in order; each one that exists becomes a fallback of the built-in
/// font.
pub fn candidate_fonts(platform: Platform) -> (r: Vec<&'static str>)
    ensures
        font_views(r@) == if platform == Platform::Windows {
            windows_fonts()
        } else {
            Seq::empty()
        },
{
    if platform != Platform::Windows {
        let none: Vec<&'static str> = Vec::new();
        assert(font_views(none@) =~= Seq::empty());
        return none;
    }
    let fonts: Vec<&'static str> = vec![
        "C:\\Windows\\Fonts\\meiryo.ttc",
        "C:\\Windows\\Fonts\\msgothic.ttc",
        "C:\\Windows\\Fonts\\msyh.ttc",
        "C:\\Windows\\Fonts\\simsun.ttc",
        "C:\\Windows\\Fonts\\msjh.ttc",
        "C:\\Windows\\Fonts\\mingliu.ttc",
        "C:\\Windows\\Fonts\\malgun.ttf",
        "C:\\Windows\\Fonts\\gulim.ttc",
    ];
    assert(font_views(fonts@) =~= windows_fonts());
    fonts
}

/// The name that a font file is registered under: its file name without the extension.
pub fn font_name(platform: Platform, path: &str) -> (r: String)
    ensures
        r@ == match crate::path::file_stem_of(platform, path@) {
            Some(stem) => stem,
            None => "sys_font"@,
        },
{
    match file_stem(platform, path) {
        Some(stem) => string_of(&stem),
        None => string_of(&chars_of("sys_font")),
    }
}

// ── laws ────────────────────────────────────────────────────────────────────

/// All the fonts are in the font folder of Windows.
pub proof fn law_fonts_are_in_the_font_folder(i: int)
    requires
        0 <= i < windows_fonts().len(),
    ensures
        windows_fonts().len() == 8,
        windows_fonts()[i].len() > 17,
        windows_fonts()[i].take(17) == "C:\\Windows\\Fonts\\"@,
{
    reveal_strlit("C:\\Windows\\Fonts\\");
    reveal_strlit("C:\\Windows\\Fonts\\meiryo.ttc");
    reveal_strlit("C:\\Windows\\Fonts\\msgothic.ttc");
    reveal_strlit("C:\\Windows\\Fonts\\msyh.ttc");
    reveal_strlit("C:\\Windows\\Fonts\\simsun.ttc");
    reveal_strlit("C:\\Windows\\Fonts\\msjh.ttc");
    reveal_strlit("C:\\Windows\\Fonts\\mingliu.ttc");
    reveal_strlit("C:\\Windows\\Fonts\\malgun.ttf");
    reveal_strlit("C:\\Windows\\Fonts\\gulim.ttc");
    assert(windows_fonts()[i].take(17) =~= "C:\\Windows\\Fonts\\"@);
}

} // verus!
