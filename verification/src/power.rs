//! Power LED, rumble motor and CPU speed, driven by the trait paths.

use vstd::prelude::*;
use crate::sysfs::FileWrite;
use crate::text::{decimal_repr, decimal_string};
use crate::traits::Traits;

verus! {

/// Turning the power LED on writes `1` into the LED file, off writes `0`;
/// without one there is nothing to write.
pub fn led_write(traits: &Traits, enabled: bool) -> (r: Option<FileWrite>)
    ensures
        match r {
            Some(w) => traits.power_led_path matches Some(p) && w.path@ == p@ && w.contents@ == (
            if enabled {
                "1"@
            } else {
                "0"@
            }),
            None => traits.power_led_path is None,
        },
{
    match &traits.power_led_path {
        Some(p) => Some(
            FileWrite {
                path: p.clone(),
                contents: if enabled {
                    "1".to_owned()
                } else {
                    "0".to_owned()
                },
            },
        ),
        None => None,
    }
}

/// A rumble effect for the force-feedback motor: its direction, the
/// button and re-trigger interval of its trigger, both magnitudes, the
/// replay length and delay in milliseconds, and whether to play it
/// (looping until stopped) or stop it.
#[derive(Debug, Clone, PartialEq, Eq)]
pub struct RumbleCommand {
    pub device_name: String,
    pub direction: u16,
    pub trigger_button: u16,
    pub trigger_interval_ms: u16,
    pub strong_magnitude: u16,
    pub weak_magnitude: u16,
    pub length_ms: u16,
    pub delay_ms: u16,
    pub play: bool,
}

/// The rumble effect to upload to the motor's input device: direction 0,
/// no trigger (button 0, interval 0), full strength when enabled and zero
/// when not, lasting 1000 ms with no delay; without a rumble device there
/// is none.
pub fn rumble_command(traits: &Traits, enabled: bool) -> (r: Option<RumbleCommand>)
    ensures
        match r {
            Some(c) => {
                &&& traits.input_rumble_device_name matches Some(n) && c.device_name@ == n@
                &&& c.strong_magnitude == (if enabled {
                    0xffffu16
                } else {
                    0u16
                })
                &&& c.weak_magnitude == c.strong_magnitude
                &&& c.direction == 0
                &&& c.trigger_button == 0
                &&& c.trigger_interval_ms == 0
                &&& c.length_ms == 1000
                &&& c.delay_ms == 0
                &&& c.play == enabled
            },
            None => traits.input_rumble_device_name is None,
        },
{
    match &traits.input_rumble_device_name {
        Some(n) => {
            let magnitude: u16 = if enabled {
                0xffff
            } else {
                0
            };
            Some(
                RumbleCommand {
                    device_name: n.clone(),
                    direction: 0,
                    trigger_button: 0,
                    trigger_interval_ms: 0,
                    strong_magnitude: magnitude,
                    weak_magnitude: magnitude,
                    length_ms: 1000,
                    delay_ms: 0,
                    play: enabled,
                },
            )
        },
        None => None,
    }
}

/// The governor and maximum clock of a CPU speed level: 0 and below is the
/// menu, 1 power saving, 2 normal, 3 and above performance. Levels up to 2
/// use `schedutil` under a clock cap; the top level pins `performance`.
pub open spec fn cpu_level(traits: Traits, speed: i32) -> (Seq<char>, Option<u32>) {
    if speed <= 0 {
        ("schedutil"@, traits.cpu_clock_menu)
    } else if speed == 1 {
        ("schedutil"@, traits.cpu_clock_powersave)
    } else if speed == 2 {
        ("schedutil"@, traits.cpu_clock_normal)
    } else {
        ("performance"@, traits.cpu_clock_performance)
    }
}

/// The speed levels: every level from 3 up pins the `performance` governor
/// and the performance clock, and no lower level does; level 2 caps the
/// clock at the normal clock, level 1 at the power-saving clock, and every
/// level from 0 down at the menu clock, all under `schedutil`.
pub proof fn lemma_cpu_levels(traits: Traits, speed: i32)
    ensures
        (cpu_level(traits, speed).0 == "performance"@) <==> speed >= 3,
        speed >= 3 ==> cpu_level(traits, speed) == ("performance"@, traits.cpu_clock_performance),
        speed == 2 ==> cpu_level(traits, speed) == ("schedutil"@, traits.cpu_clock_normal),
        speed == 1 ==> cpu_level(traits, speed) == ("schedutil"@, traits.cpu_clock_powersave),
        speed <= 0 ==> cpu_level(traits, speed) == ("schedutil"@, traits.cpu_clock_menu),
{
    reveal_strlit("performance");
    reveal_strlit("schedutil");
    assert("schedutil"@[0] != "performance"@[0]);
}

/// What setting a CPU speed level writes: the governor, then the clock
/// where the level has one.
#[derive(Debug, Clone, PartialEq, Eq)]
pub struct CpuSpeedPlan {
    pub governor: FileWrite,
    pub clock: Option<FileWrite>,
}

/// The writes that set CPU speed `speed`; without both a governor and a
/// clock file there are none.
pub fn cpu_speed_plan(traits: &Traits, speed: i32) -> (r: Option<CpuSpeedPlan>)
    ensures
        match r {
            Some(p) => {
                &&& traits.cpu_governor_path matches Some(g) && p.governor.path@ == g@
                &&& p.governor.contents@ == cpu_level(*traits, speed).0
                &&& traits.cpu_clock_path matches Some(c) && match p.clock {
                    Some(w) => cpu_level(*traits, speed).1 matches Some(hz) && w.path@ == c@
                        && w.contents@ == decimal_repr(hz as nat),
                    None => cpu_level(*traits, speed).1 is None,
                }
            },
            None => traits.cpu_governor_path is None || traits.cpu_clock_path is None,
        },
{
    let governor_path = match &traits.cpu_governor_path {
        Some(g) => g,
        None => return None,
    };
    let clock_path = match &traits.cpu_clock_path {
        Some(c) => c,
        None => return None,
    };
    let (governor, clock) = if speed <= 0 {
        ("schedutil", traits.cpu_clock_menu)
    } else if speed == 1 {
        ("schedutil", traits.cpu_clock_powersave)
    } else if speed == 2 {
        ("schedutil", traits.cpu_clock_normal)
    } else {
        ("performance", traits.cpu_clock_performance)
    };
    let clock_write = match clock {
        Some(hz) => Some(
            FileWrite { path: clock_path.clone(), contents: decimal_string(hz as u64) },
        ),
        None => None,
    };
    Some(
        CpuSpeedPlan {
            governor: FileWrite { path: governor_path.clone(), contents: governor.to_owned() },
            clock: clock_write,
        },
    )
}

} // verus!
