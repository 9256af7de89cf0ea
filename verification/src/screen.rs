//! Backlight and panel blanking, driven by the trait paths.

use vstd::prelude::*;
use crate::sysfs::FileWrite;
use crate::text::{decimal_repr, decimal_string, parse_trimmed_u8, parse_u8_spec, trim};
use crate::traits::Traits;

verus! {

/// A backlight file held something other than a brightness.
#[derive(Debug, Clone, Copy, PartialEq, Eq, Structural)]
pub enum ScreenError {
    InvalidNumber,
}

/// The brightness that the text of the backlight file gives, or 0 where the
/// device has no backlight file (`None`).
pub open spec fn brightness_reading(text: Option<Seq<char>>) -> Result<u8, ScreenError> {
    match text {
        None => Ok(0),
        Some(t) => match parse_u8_spec(trim(t)) {
            Some(b) => Ok(b),
            None => Err(ScreenError::InvalidNumber),
        },
    }
}

pub open spec fn opt_str_view(text: Option<&str>) -> Option<Seq<char>> {
    match text {
        Some(t) => Some(t@),
        None => None,
    }
}

/// The brightness, given the text of the backlight file, or `None` where
/// the device has no backlight file: then it is 0.
pub fn brightness_of(backlight_text: Option<&str>) -> (r: Result<u8, ScreenError>)
    ensures
        r == brightness_reading(opt_str_view(backlight_text)),
{
    match backlight_text {
        None => Ok(0),
        Some(t) => match parse_trimmed_u8(t) {
            Some(b) => Ok(b),
            None => Err(ScreenError::InvalidNumber),
        },
    }
}

/// Setting the brightness writes its decimal value into the backlight
/// file; without one there is nothing to write.
pub fn brightness_write(traits: &Traits, brightness: u8) -> (r: Option<FileWrite>)
    ensures
        match r {
            Some(w) => traits.screen_backlight_path matches Some(p) && w.path@ == p@
                && w.contents@ == decimal_repr(brightness as nat),
            None => traits.screen_backlight_path is None,
        },
{
    match &traits.screen_backlight_path {
        Some(p) => Some(FileWrite { path: p.clone(), contents: decimal_string(brightness as u64) }),
        None => None,
    }
}

/// Blanking the panel writes `4` into the blank file, unblanking writes
/// `0`; without one there is nothing to write.
pub fn blank_write(traits: &Traits, blank: bool) -> (r: Option<FileWrite>)
    ensures
        match r {
            Some(w) => traits.screen_blank_path matches Some(p) && w.path@ == p@ && w.contents@
                == (if blank {
                "4"@
            } else {
                "0"@
            }),
            None => traits.screen_blank_path is None,
        },
{
    match &traits.screen_blank_path {
        Some(p) => Some(
            FileWrite {
                path: p.clone(),
                contents: if blank {
                    "4".to_owned()
                } else {
                    "0".to_owned()
                },
            },
        ),
        None => None,
    }
}

} // verus!
verus! {

/// Reading the brightness back from what setting it wrote gives the same
/// brightness.
pub proof fn lemma_brightness_roundtrip(brightness: u8)
    ensures
        parse_u8_spec(trim(decimal_repr(brightness as nat))) == Some(brightness),
        brightness_reading(Some(decimal_repr(brightness as nat))) == Ok::<u8, ScreenError>(
            brightness,
        ),
{
    crate::text::lemma_decimal_repr(brightness as nat);
    crate::text::lemma_trim_digits(decimal_repr(brightness as nat));
    crate::text::lemma_parse_unsigned_of_repr(brightness as nat, u8::MAX as int);
}

} // verus!
