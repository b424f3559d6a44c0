//! The margin stamp on exports: the story's title and the page number, drawn
//! into the bottom margin of finished pixels. The text engine draws the lines
//! and the core places them; here is what they are asked for.

use vstd::prelude::*;
use crate::text;

verus! {

/// The resolution that a stamp line is drawn at. `setup` is the page's own
/// resolution, `scaled` what the export makes of it.
pub open spec fn stamp_dpi_spec(setup: Option<u32>, scaled: u32) -> u32 {
    match setup {
        Some(dpi) => if dpi == 0 {
            96
        } else if scaled < 36 {
            36
        } else if scaled > 2400 {
            2400
        } else {
            scaled
        },
        None => 96,
    }
}

/// The resolution that a stamp line is drawn at; a page without one counts as a
/// screen.
pub fn stamp_dpi(setup: Option<u32>, scaled: u32) -> (r: u32)
    ensures
        r == stamp_dpi_spec(setup, scaled),
{
    match setup {
        Some(dpi) => if dpi == 0 {
            96
        } else if scaled < 36 {
            36
        } else if scaled > 2400 {
            2400
        } else {
            scaled
        },
        None => 96,
    }
}

/// The story line: the title without the white space around it; no line for a
/// title that is blank.
pub fn stamp_story(story: &str) -> (r: Option<String>)
    ensures
        match r {
            Some(s) => s@ == text::trim(story@) && s@.len() > 0,
            None => text::trim(story@).len() == 0,
        },
{
    let t = text::trim_chars(&text::to_chars(story));
    if t.len() == 0 {
        return None;
    }
    Some(text::from_chars(&t))
}

/// The size that the layout reserves for a line: none for a line that was not
/// drawn.
pub fn stamp_size(sprite: Option<(u32, u32)>) -> (r: (u32, u32))
    ensures
        r == (match sprite {
            Some(s) => s,
            None => (0u32, 0u32),
        }),
{
    match sprite {
        Some(s) => s,
        None => (0, 0),
    }
}

/// A stamp is legible and within what the text engine draws, at whatever scale
/// the page goes out.
pub proof fn law_stamp_is_legible(setup: Option<u32>, scaled: u32)
    ensures
        36 <= stamp_dpi_spec(setup, scaled) <= 2400,
{
}

/// A page's resolution is stamped as it is, held to what can be read; without
/// one the screen's stands in.
pub proof fn law_a_stamp_has_the_pages_resolution(dpi: u32, scaled: u32)
    ensures
        stamp_dpi_spec(None, scaled) == 96,
        stamp_dpi_spec(Some(0), scaled) == 96,
        dpi > 0 && 36 <= scaled <= 2400 ==> stamp_dpi_spec(Some(dpi), scaled) == scaled,
        dpi > 0 && scaled < 36 ==> stamp_dpi_spec(Some(dpi), scaled) == 36,
        dpi > 0 && scaled > 2400 ==> stamp_dpi_spec(Some(dpi), scaled) == 2400,
{
}

} // verus!
