//! Volume control through the ALSA mixer named by the traits.

use vstd::prelude::*;
use crate::text::{decimal_chars, decimal_repr, string_from_chars};
use crate::traits::Traits;

verus! {

/// The mixer percentage of a volume step: steps run from 0 to 20, five
/// percent each; steps out of that range are clamped to it.
pub open spec fn volume_percent_spec(volume: i32) -> int {
    if volume < 0 {
        0
    } else if volume > 20 {
        100
    } else {
        volume * 5
    }
}

pub fn volume_percent(volume: i32) -> (r: u32)
    ensures
        r == volume_percent_spec(volume),
{
    if volume < 0 {
        0
    } else if volume > 20 {
        100
    } else {
        volume as u32 * 5
    }
}

/// The arguments of the `amixer` call that sets volume step `volume`:
/// quietly, on the traits' card, set the traits' mixer to the percentage.
pub fn amixer_args(traits: &Traits, volume: i32) -> (r: Vec<String>)
    ensures
        r@.len() == 6,
        r@[0]@ == "-q"@,
        r@[1]@ == "-D"@,
        r@[2]@ == traits.audio_card@,
        r@[3]@ == "sset"@,
        r@[4]@ == traits.audio_mixer@,
        r@[5]@ == decimal_repr(volume_percent_spec(volume) as nat) + seq!['%'],
{
    let mut percent = decimal_chars(volume_percent(volume) as u64);
    percent.push('%');
    vec![
        "-q".to_owned(),
        "-D".to_owned(),
        traits.audio_card.clone(),
        "sset".to_owned(),
        traits.audio_mixer.clone(),
        string_from_chars(&percent),
    ]
}

} // verus!
