//! The device traits: a flat file of `key=value` lines, written at boot, that
//! says which hardware the device has and where the kernel exposes it.

use std::collections::HashMap;
use vstd::prelude::*;
use crate::platform::Key;
use crate::text::{
    chars_eq, chars_of, decimal_chars, decimal_repr, find_char, first_index, lemma_decimal_repr,
    lemma_parse_unsigned_of_repr, parse_i32, parse_i32_spec, parse_u16, parse_u16_spec, parse_u32,
    parse_u32_spec, string_from_chars, trim,
};
use crate::values::{
    lemma_split_append, lemma_split_single, lemma_values_after, line_entry, parse_values,
    split_lines, trait_values, values_of_lines, TraitValues,
};

verus! {

broadcast use vstd::std_specs::hash::group_hash_axioms;

/// Screen aspect ratio as expressed by the `screen_aspect` trait.
#[derive(Debug, Clone, Copy, PartialEq, Eq, Structural)]
pub enum Aspect {
    R4x3,
    R3x2,
    R16x9,
    R1x1,
    Other(u32, u32),
}

impl Aspect {
    /// The width and height terms of the ratio.
    pub open spec fn ratio(self) -> (u32, u32) {
        match self {
            Aspect::R4x3 => (4, 3),
            Aspect::R3x2 => (3, 2),
            Aspect::R16x9 => (16, 9),
            Aspect::R1x1 => (1, 1),
            Aspect::Other(w, h) => (w, h),
        }
    }

    pub fn width_ratio(self) -> (r: u32)
        ensures
            r == self.ratio().0,
    {
        match self {
            Aspect::R4x3 => 4,
            Aspect::R3x2 => 3,
            Aspect::R16x9 => 16,
            Aspect::R1x1 => 1,
            Aspect::Other(w, _) => w,
        }
    }

    pub fn height_ratio(self) -> (r: u32)
        ensures
            r == self.ratio().1,
    {
        match self {
            Aspect::R4x3 => 3,
            Aspect::R3x2 => 2,
            Aspect::R16x9 => 9,
            Aspect::R1x1 => 1,
            Aspect::Other(_, h) => h,
        }
    }

    /// How the ratio is written: `width:height`.
    pub open spec fn text(self) -> Seq<char> {
        decimal_repr(self.ratio().0 as nat) + seq![':'] + decimal_repr(self.ratio().1 as nat)
    }

    /// The ratio written as `width:height`, e.g. `4:3`.
    pub fn to_string(&self) -> (r: String)
        ensures
            r@ == self.text(),
    {
        let mut chars = decimal_chars(self.width_ratio() as u64);
        chars.push(':');
        let mut h = decimal_chars(self.height_ratio() as u64);
        chars.append(&mut h);
        string_from_chars(&chars)
    }
}

/// Why a traits file was refused.
#[derive(Debug, Clone, PartialEq, Eq)]
pub enum TraitsError {
    /// The file sets a key that the schema does not know.
    UnknownTrait(String),
    /// A required key is absent, empty or `na`.
    MissingTrait(String),
    /// A key that must hold a number holds something else.
    InvalidTrait(String),
}

/// What a `TraitsError` says, with the key as characters.
pub enum TraitsFailure {
    Unknown(Seq<char>),
    Missing(Seq<char>),
    Invalid(Seq<char>),
}

impl View for TraitsError {
    type V = TraitsFailure;

    open spec fn view(&self) -> TraitsFailure {
        match self {
            TraitsError::UnknownTrait(k) => TraitsFailure::Unknown(k@),
            TraitsError::MissingTrait(k) => TraitsFailure::Missing(k@),
            TraitsError::InvalidTrait(k) => TraitsFailure::Invalid(k@),
        }
    }
}

/// The value of `k`, unless it is absent, empty or `na`.
pub open spec fn present(m: Map<Seq<char>, Seq<char>>, k: Seq<char>) -> Option<Seq<char>> {
    if m.contains_key(k) && m[k].len() > 0 && m[k] != "na"@ {
        Some(m[k])
    } else {
        None
    }
}

pub open spec fn present_u32(m: Map<Seq<char>, Seq<char>>, k: Seq<char>) -> Option<u32> {
    match present(m, k) {
        Some(v) => parse_u32_spec(v),
        None => None,
    }
}

pub open spec fn present_u16(m: Map<Seq<char>, Seq<char>>, k: Seq<char>) -> Option<u16> {
    match present(m, k) {
        Some(v) => parse_u16_spec(v),
        None => None,
    }
}

pub open spec fn present_i32(m: Map<Seq<char>, Seq<char>>, k: Seq<char>) -> Option<i32> {
    match present(m, k) {
        Some(v) => parse_i32_spec(v),
        None => None,
    }
}

/// A boolean trait: set exactly when its value is `1`.
pub open spec fn flag_set(m: Map<Seq<char>, Seq<char>>, k: Seq<char>) -> bool {
    present(m, k) == Some("1"@)
}

pub open spec fn unwrap_or_u32(o: Option<u32>, d: u32) -> u32 {
    match o {
        Some(v) => v,
        None => d,
    }
}

pub open spec fn opt_view(o: Option<String>) -> Option<Seq<char>> {
    match o {
        Some(s) => Some(s@),
        None => None,
    }
}

/// The aspect that a `w:h` value spells.
pub open spec fn aspect_of(v: Seq<char>) -> Option<Aspect> {
    match first_index(v, ':') {
        Some(j) => match (parse_u32_spec(v.take(j)), parse_u32_spec(v.skip(j + 1))) {
            (Some(w), Some(h)) => Some(Aspect::Other(w, h)),
            _ => None,
        },
        None => None,
    }
}

/// The aspect that the value of `k` spells, where `k` is set.
pub open spec fn aspect_value(m: Map<Seq<char>, Seq<char>>, k: Seq<char>) -> Option<Aspect> {
    match present(m, k) {
        Some(v) => aspect_of(v),
        None => None,
    }
}

/// The greatest common divisor, by Euclid's algorithm.
pub open spec fn gcd(a: nat, b: nat) -> nat
    decreases b,
{
    if b == 0 {
        a
    } else {
        gcd(b, a % b)
    }
}

/// `w:h` reduced by their greatest common divisor.
pub open spec fn derived_aspect(w: u32, h: u32) -> Aspect {
    let g = gcd(w as nat, h as nat);
    Aspect::Other((w as nat / g) as u32, (h as nat / g) as u32)
}

/// The screen aspect: the `screen_aspect` value where it is set, else the
/// reduced ratio of the screen's width and height.
pub open spec fn screen_aspect_of(m: Map<Seq<char>, Seq<char>>) -> Aspect {
    match aspect_value(m, "screen_aspect"@) {
        Some(a) => a,
        None => derived_aspect(
            unwrap_or_u32(present_u32(m, "screen_width"@), 0),
            unwrap_or_u32(present_u32(m, "screen_height"@), 0),
        ),
    }
}

/// The keys of the schema; a file that sets any other key is refused.
pub open spec fn known_key_names() -> Seq<Seq<char>> {
    seq![
        "device_id"@,
        "device_model"@,
        "screen_width"@,
        "screen_height"@,
        "screen_rotation"@,
        "screen_rotation_kernel"@,
        "screen_aspect"@,
        "screen_refresh_rate"@,
        "screen_backlight_path"@,
        "screen_backlight_max"@,
        "screen_blank_path"@,
        "screen2_width"@,
        "screen2_height"@,
        "screen2_rotation"@,
        "screen2_aspect"@,
        "screen2_refresh_rate"@,
        "screen2_backlight_path"@,
        "screen2_blank_path"@,
        "screen2_touch"@,
        "screen2_touch_device_name"@,
        "cpu_governor_path"@,
        "cpu_clock_path"@,
        "cpu_clock_menu"@,
        "cpu_clock_powersave"@,
        "cpu_clock_normal"@,
        "cpu_clock_performance"@,
        "cpu_undervolt_supported"@,
        "cpu_thermal_path"@,
        "gpu_device"@,
        "gpu_device2"@,
        "gpu_hdmi_connector"@,
        "gpu_driver"@,
        "gpu_clock_min"@,
        "gpu_clock_max"@,
        "audio_card"@,
        "audio_mixer"@,
        "audio_jack_device_name"@,
        "audio_mic"@,
        "input_gamepad_device_name"@,
        "input_power_device_name"@,
        "input_volume_device_name"@,
        "input_lid_device_name"@,
        "input_rumble_device_name"@,
        "input_touch"@,
        "input_touch_device_name"@,
        "key_a"@,
        "key_b"@,
        "key_c"@,
        "key_x"@,
        "key_y"@,
        "key_z"@,
        "key_up"@,
        "key_down"@,
        "key_left"@,
        "key_right"@,
        "key_start"@,
        "key_select"@,
        "key_l1"@,
        "key_r1"@,
        "key_l2"@,
        "key_r2"@,
        "key_l3"@,
        "key_r3"@,
        "key_menu"@,
        "key_power"@,
        "key_vol_down"@,
        "key_vol_up"@,
        "input_axis_lx"@,
        "input_axis_ly"@,
        "input_axis_rx"@,
        "input_axis_ry"@,
        "input_axis_min"@,
        "input_axis_center"@,
        "input_axis_max"@,
        "input_axis_lx_invert"@,
        "input_axis_ly_invert"@,
        "input_axis_rx_invert"@,
        "input_axis_ry_invert"@,
        "wifi_interface"@,
        "bluetooth_interface"@,
        "power_battery_sysfs"@,
        "power_charger_online_path"@,
        "power_led_path"@,
        "usb_otg"@,
        "usb_host_ports"@,
        "usb_device_mode"@,
        "usb_controller_mode"@,
        "storage_sd_node"@,
        "storage_sd2_node"@,
        "storage_emmc_node"@
    ]
}

/// The button keys of the schema, in the order in which they are read.
pub open spec fn key_names() -> Seq<(Seq<char>, Key)> {
    seq![
        ("key_a"@, Key::A),
        ("key_b"@, Key::B),
        ("key_c"@, Key::C),
        ("key_x"@, Key::X),
        ("key_y"@, Key::Y),
        ("key_z"@, Key::Z),
        ("key_up"@, Key::Up),
        ("key_down"@, Key::Down),
        ("key_left"@, Key::Left),
        ("key_right"@, Key::Right),
        ("key_start"@, Key::Start),
        ("key_select"@, Key::Select),
        ("key_l1"@, Key::L),
        ("key_r1"@, Key::R),
        ("key_l2"@, Key::L2),
        ("key_r2"@, Key::R2),
        ("key_l3"@, Key::Unknown),
        ("key_r3"@, Key::Unknown),
        ("key_menu"@, Key::Menu),
        ("key_power"@, Key::Power),
        ("key_vol_down"@, Key::VolDown),
        ("key_vol_up"@, Key::VolUp)
    ]
}

/// The keycode table that the first `n` button keys give; a code that two
/// keys name goes to the later one.
pub open spec fn keycodes_upto(m: Map<Seq<char>, Seq<char>>, n: nat) -> Map<u16, Key>
    decreases n,
{
    if n == 0 {
        Map::empty()
    } else {
        let prev = keycodes_upto(m, (n - 1) as nat);
        let e = key_names()[n - 1];
        match present_u16(m, e.0) {
            Some(c) => prev.insert(c, e.1),
            None => prev,
        }
    }
}

pub open spec fn keycodes_of(m: Map<Seq<char>, Seq<char>>) -> Map<u16, Key> {
    keycodes_upto(m, key_names().len())
}

/// The first of the first `n` button keys that is set to something other
/// than a `u16`.
pub open spec fn keycode_failure_upto(m: Map<Seq<char>, Seq<char>>, n: nat) -> Option<Seq<char>>
    decreases n,
{
    if n == 0 {
        None
    } else {
        match keycode_failure_upto(m, (n - 1) as nat) {
            Some(k) => Some(k),
            None => {
                let name = key_names()[n - 1].0;
                if present(m, name) is Some && present_u16(m, name) is None {
                    Some(name)
                } else {
                    None
                }
            },
        }
    }
}

pub open spec fn has_unknown(m: Map<Seq<char>, Seq<char>>) -> bool {
    exists|k: Seq<char>| m.contains_key(k) && !known_key_names().contains(k)
}

pub open spec fn missing(m: Map<Seq<char>, Seq<char>>, k: Seq<char>) -> Option<TraitsFailure> {
    if present(m, k) is None {
        Some(TraitsFailure::Missing(k))
    } else {
        None
    }
}

pub open spec fn required_u32_failure(m: Map<Seq<char>, Seq<char>>, k: Seq<char>) -> Option<
    TraitsFailure,
> {
    if present(m, k) is None {
        Some(TraitsFailure::Missing(k))
    } else if present_u32(m, k) is None {
        Some(TraitsFailure::Invalid(k))
    } else {
        None
    }
}

pub open spec fn first_of(a: Option<TraitsFailure>, b: Option<TraitsFailure>) -> Option<
    TraitsFailure,
> {
    if a is Some {
        a
    } else {
        b
    }
}

/// A numeric trait that is set but does not hold a `u32`.
pub open spec fn malformed_u32(m: Map<Seq<char>, Seq<char>>, k: Seq<char>) -> Option<TraitsFailure> {
    if present(m, k) is Some && present_u32(m, k) is None {
        Some(TraitsFailure::Invalid(k))
    } else {
        None
    }
}

/// A numeric trait that is set but does not hold a `u16`.
pub open spec fn malformed_u16(m: Map<Seq<char>, Seq<char>>, k: Seq<char>) -> Option<TraitsFailure> {
    if present(m, k) is Some && present_u16(m, k) is None {
        Some(TraitsFailure::Invalid(k))
    } else {
        None
    }
}

/// A numeric trait that is set but does not hold an `i32`.
pub open spec fn malformed_i32(m: Map<Seq<char>, Seq<char>>, k: Seq<char>) -> Option<TraitsFailure> {
    if present(m, k) is Some && present_i32(m, k) is None {
        Some(TraitsFailure::Invalid(k))
    } else {
        None
    }
}

/// An aspect trait that is set but does not spell `w:h`.
pub open spec fn malformed_aspect(m: Map<Seq<char>, Seq<char>>, k: Seq<char>) -> Option<
    TraitsFailure,
> {
    if present(m, k) is Some && aspect_value(m, k) is None {
        Some(TraitsFailure::Invalid(k))
    } else {
        None
    }
}

/// The first button key that is set to something other than a `u16`.
pub open spec fn keycode_failure(m: Map<Seq<char>, Seq<char>>) -> Option<TraitsFailure> {
    match keycode_failure_upto(m, key_names().len()) {
        Some(k) => Some(TraitsFailure::Invalid(k)),
        None => None,
    }
}

/// The failures of the traits read before the screen aspect, first first.
pub open spec fn screen_failure(m: Map<Seq<char>, Seq<char>>) -> Option<TraitsFailure> {
    first_of(
        missing(m, "device_id"@),
        first_of(
            missing(m, "device_model"@),
            first_of(
                required_u32_failure(m, "screen_width"@),
                first_of(
                    required_u32_failure(m, "screen_height"@),
                    first_of(
                        malformed_u32(m, "screen_rotation"@),
                        first_of(
                            malformed_u32(m, "screen_rotation_kernel"@),
                            None,
                        ),
                    ),
                ),
            ),
        ),
    )
}

/// The failures of the screen aspect and the traits read after it, first
/// first.
pub open spec fn later_failure(m: Map<Seq<char>, Seq<char>>) -> Option<TraitsFailure> {
    first_of(
        malformed_aspect(m, "screen_aspect"@),
        first_of(
            malformed_u32(m, "screen_refresh_rate"@),
            first_of(
                malformed_u32(m, "screen_backlight_max"@),
                first_of(
                    malformed_u32(m, "screen2_width"@),
                    first_of(
                        malformed_u32(m, "screen2_height"@),
                        first_of(
                            malformed_u32(m, "screen2_rotation"@),
                            first_of(
                                malformed_aspect(m, "screen2_aspect"@),
                                first_of(
                                    malformed_u32(m, "screen2_refresh_rate"@),
                                    first_of(
                                        malformed_u32(m, "cpu_clock_menu"@),
                                        first_of(
                                            malformed_u32(m, "cpu_clock_powersave"@),
                                            first_of(
                                                malformed_u32(m, "cpu_clock_normal"@),
                                                first_of(
                                                    malformed_u32(m, "cpu_clock_performance"@),
                                                    first_of(
                                                        missing(m, "gpu_device"@),
                                                        first_of(
                                                            malformed_u32(m, "gpu_clock_min"@),
                                                            first_of(
                                                                malformed_u32(m, "gpu_clock_max"@),
                                                                first_of(
                                                                    missing(m, "audio_card"@),
                                                                    first_of(
                                                                        missing(m, "audio_mixer"@),
                                                                        first_of(
                                                                            missing(m, "input_gamepad_device_name"@),
                                                                            first_of(
                                                                                missing(m, "input_power_device_name"@),
                                                                                first_of(
                                                                                    missing(m, "input_volume_device_name"@),
                                                                                    first_of(
                                                                                        keycode_failure(m),
                                                                                        first_of(
                                                                                            malformed_u16(m, "input_axis_lx"@),
                                                                                            first_of(
                                                                                                malformed_u16(m, "input_axis_ly"@),
                                                                                                first_of(
                                                                                                    malformed_u16(m, "input_axis_rx"@),
                                                                                                    first_of(
                                                                                                        malformed_u16(m, "input_axis_ry"@),
                                                                                                        first_of(
                                                                                                            malformed_i32(m, "input_axis_min"@),
                                                                                                            first_of(
                                                                                                                malformed_i32(m, "input_axis_center"@),
                                                                                                                first_of(
                                                                                                                    malformed_i32(m, "input_axis_max"@),
                                                                                                                    first_of(
                                                                                                                        malformed_u32(m, "usb_host_ports"@),
                                                                                                                        None,
                                                                                                                    ),
                                                                                                                ),
                                                                                                            ),
                                                                                                        ),
                                                                                                    ),
                                                                                                ),
                                                                                            ),
                                                                                        ),
                                                                                    ),
                                                                                ),
                                                                            ),
                                                                        ),
                                                                    ),
                                                                ),
                                                            ),
                                                        ),
                                                    ),
                                                ),
                                            ),
                                        ),
                                    ),
                                ),
                            ),
                        ),
                    ),
                ),
            ),
        ),
    )
}

/// Why the trait values `m`, with no unknown key, are refused, if they are.
pub open spec fn field_failure(m: Map<Seq<char>, Seq<char>>) -> Option<TraitsFailure> {
    first_of(screen_failure(m), later_failure(m))
}

/// Whether working out the screen aspect of `m` divides by zero: the screen
/// is 0 by 0 and `screen_aspect` is not set.
pub open spec fn aspect_divides_by_zero(m: Map<Seq<char>, Seq<char>>) -> bool {
    &&& !has_unknown(m)
    &&& screen_failure(m) is None
    &&& present_u32(m, "screen_width"@) == Some(0u32)
    &&& present_u32(m, "screen_height"@) == Some(0u32)
    &&& present(m, "screen_aspect"@) is None
}

/// What parsing the trait values `m` gives.
pub open spec fn parse_result_matches(m: Map<Seq<char>, Seq<char>>, r: Result<Traits, TraitsError>) -> bool {
    match r {
        Ok(t) => !has_unknown(m) && field_failure(m) is None && t.describes(m),
        Err(e) => if has_unknown(m) {
            e matches TraitsError::UnknownTrait(k) && m.contains_key(k@)
                && !known_key_names().contains(k@)
        } else {
            field_failure(m) == Some(e@)
        },
    }
}

/// Fully-resolved device traits. The file is the single source of truth:
/// unknown or malformed keys are refused rather than giving a half-populated
/// value.
#[derive(Debug, Clone)]
pub struct Traits {
    pub device_id: String,
    pub device_model: String,
    pub screen_width: u32,
    pub screen_height: u32,
    pub screen_rotation: u32,
    pub screen_rotation_kernel: Option<u32>,
    pub screen_aspect: Aspect,
    pub screen_refresh_rate: u32,
    pub screen_backlight_path: Option<String>,
    pub screen_backlight_max: Option<u32>,
    pub screen_blank_path: Option<String>,
    pub screen2_width: Option<u32>,
    pub screen2_height: Option<u32>,
    pub screen2_rotation: Option<u32>,
    pub screen2_aspect: Option<Aspect>,
    pub screen2_refresh_rate: Option<u32>,
    pub screen2_backlight_path: Option<String>,
    pub screen2_blank_path: Option<String>,
    pub screen2_touch: bool,
    pub screen2_touch_device_name: Option<String>,
    pub cpu_governor_path: Option<String>,
    pub cpu_clock_path: Option<String>,
    pub cpu_clock_menu: Option<u32>,
    pub cpu_clock_powersave: Option<u32>,
    pub cpu_clock_normal: Option<u32>,
    pub cpu_clock_performance: Option<u32>,
    pub cpu_undervolt_supported: bool,
    pub cpu_thermal_path: Option<String>,
    pub gpu_device: String,
    pub gpu_device2: Option<String>,
    /// Stable connector identifier from the file, such as `HDMI-A-1`; the
    /// card prefix is resolved at load time into `gpu_hdmi_state_path`.
    pub gpu_hdmi_connector: Option<String>,
    /// Resolved DRM sysfs status path, such as
    /// `/sys/class/drm/card0-HDMI-A-1/status`.
    pub gpu_hdmi_state_path: Option<String>,
    pub gpu_driver: Option<String>,
    pub gpu_clock_min: Option<u32>,
    pub gpu_clock_max: Option<u32>,
    pub audio_card: String,
    pub audio_mixer: String,
    pub audio_jack_device_name: Option<String>,
    pub audio_mic: bool,
    pub input_gamepad_device_name: String,
    pub input_power_device_name: String,
    pub input_volume_device_name: String,
    pub input_lid_device_name: Option<String>,
    pub input_rumble_device_name: Option<String>,
    pub input_touch: bool,
    pub input_touch_device_name: Option<String>,
    /// Button of each input keycode.
    pub keycodes: HashMap<u16, Key>,
    pub axis_lx: Option<u16>,
    pub axis_ly: Option<u16>,
    pub axis_rx: Option<u16>,
    pub axis_ry: Option<u16>,
    pub axis_min: Option<i32>,
    pub axis_center: Option<i32>,
    pub axis_max: Option<i32>,
    pub axis_lx_invert: bool,
    pub axis_ly_invert: bool,
    pub axis_rx_invert: bool,
    pub axis_ry_invert: bool,
    pub wifi_interface: Option<String>,
    pub bluetooth_interface: Option<String>,
    pub power_battery_sysfs: Option<String>,
    pub power_charger_online_path: Option<String>,
    pub power_led_path: Option<String>,
    pub usb_otg: bool,
    pub usb_host_ports: u32,
    pub usb_device_mode: bool,
    pub usb_controller_mode: bool,
    pub storage_sd_node: Option<String>,
    pub storage_sd2_node: Option<String>,
    pub storage_emmc_node: Option<String>,
}

impl Traits {
    /// Whether `self` holds what the trait values `m` describe, before the
    /// HDMI connector is resolved.
    pub open spec fn describes(self, m: Map<Seq<char>, Seq<char>>) -> bool {
        &&& present(m, "device_id"@) == Some(self.device_id@)
        &&& present(m, "device_model"@) == Some(self.device_model@)
        &&& present_u32(m, "screen_width"@) == Some(self.screen_width)
        &&& present_u32(m, "screen_height"@) == Some(self.screen_height)
        &&& self.screen_rotation == unwrap_or_u32(present_u32(m, "screen_rotation"@), 0)
        &&& self.screen_rotation_kernel == present_u32(m, "screen_rotation_kernel"@)
        &&& self.screen_aspect == screen_aspect_of(m)
        &&& self.screen_refresh_rate == unwrap_or_u32(present_u32(m, "screen_refresh_rate"@), 60)
        &&& opt_view(self.screen_backlight_path) == present(m, "screen_backlight_path"@)
        &&& self.screen_backlight_max == present_u32(m, "screen_backlight_max"@)
        &&& opt_view(self.screen_blank_path) == present(m, "screen_blank_path"@)
        &&& self.screen2_width == present_u32(m, "screen2_width"@)
        &&& self.screen2_height == present_u32(m, "screen2_height"@)
        &&& self.screen2_rotation == present_u32(m, "screen2_rotation"@)
        &&& self.screen2_aspect == aspect_value(m, "screen2_aspect"@)
        &&& self.screen2_refresh_rate == present_u32(m, "screen2_refresh_rate"@)
        &&& opt_view(self.screen2_backlight_path) == present(m, "screen2_backlight_path"@)
        &&& opt_view(self.screen2_blank_path) == present(m, "screen2_blank_path"@)
        &&& self.screen2_touch == flag_set(m, "screen2_touch"@)
        &&& opt_view(self.screen2_touch_device_name) == present(m, "screen2_touch_device_name"@)
        &&& opt_view(self.cpu_governor_path) == present(m, "cpu_governor_path"@)
        &&& opt_view(self.cpu_clock_path) == present(m, "cpu_clock_path"@)
        &&& self.cpu_clock_menu == present_u32(m, "cpu_clock_menu"@)
        &&& self.cpu_clock_powersave == present_u32(m, "cpu_clock_powersave"@)
        &&& self.cpu_clock_normal == present_u32(m, "cpu_clock_normal"@)
        &&& self.cpu_clock_performance == present_u32(m, "cpu_clock_performance"@)
        &&& self.cpu_undervolt_supported == flag_set(m, "cpu_undervolt_supported"@)
        &&& opt_view(self.cpu_thermal_path) == present(m, "cpu_thermal_path"@)
        &&& present(m, "gpu_device"@) == Some(self.gpu_device@)
        &&& opt_view(self.gpu_device2) == present(m, "gpu_device2"@)
        &&& opt_view(self.gpu_hdmi_connector) == present(m, "gpu_hdmi_connector"@)
        &&& self.gpu_hdmi_state_path is None
        &&& opt_view(self.gpu_driver) == present(m, "gpu_driver"@)
        &&& self.gpu_clock_min == present_u32(m, "gpu_clock_min"@)
        &&& self.gpu_clock_max == present_u32(m, "gpu_clock_max"@)
        &&& present(m, "audio_card"@) == Some(self.audio_card@)
        &&& present(m, "audio_mixer"@) == Some(self.audio_mixer@)
        &&& opt_view(self.audio_jack_device_name) == present(m, "audio_jack_device_name"@)
        &&& self.audio_mic == flag_set(m, "audio_mic"@)
        &&& present(m, "input_gamepad_device_name"@) == Some(self.input_gamepad_device_name@)
        &&& present(m, "input_power_device_name"@) == Some(self.input_power_device_name@)
        &&& present(m, "input_volume_device_name"@) == Some(self.input_volume_device_name@)
        &&& opt_view(self.input_lid_device_name) == present(m, "input_lid_device_name"@)
        &&& opt_view(self.input_rumble_device_name) == present(m, "input_rumble_device_name"@)
        &&& self.input_touch == flag_set(m, "input_touch"@)
        &&& opt_view(self.input_touch_device_name) == present(m, "input_touch_device_name"@)
        &&& self.keycodes@ == keycodes_of(m)
        &&& self.axis_lx == present_u16(m, "input_axis_lx"@)
        &&& self.axis_ly == present_u16(m, "input_axis_ly"@)
        &&& self.axis_rx == present_u16(m, "input_axis_rx"@)
        &&& self.axis_ry == present_u16(m, "input_axis_ry"@)
        &&& self.axis_min == present_i32(m, "input_axis_min"@)
        &&& self.axis_center == present_i32(m, "input_axis_center"@)
        &&& self.axis_max == present_i32(m, "input_axis_max"@)
        &&& self.axis_lx_invert == flag_set(m, "input_axis_lx_invert"@)
        &&& self.axis_ly_invert == flag_set(m, "input_axis_ly_invert"@)
        &&& self.axis_rx_invert == flag_set(m, "input_axis_rx_invert"@)
        &&& self.axis_ry_invert == flag_set(m, "input_axis_ry_invert"@)
        &&& opt_view(self.wifi_interface) == present(m, "wifi_interface"@)
        &&& opt_view(self.bluetooth_interface) == present(m, "bluetooth_interface"@)
        &&& opt_view(self.power_battery_sysfs) == present(m, "power_battery_sysfs"@)
        &&& opt_view(self.power_charger_online_path) == present(m, "power_charger_online_path"@)
        &&& opt_view(self.power_led_path) == present(m, "power_led_path"@)
        &&& self.usb_otg == flag_set(m, "usb_otg"@)
        &&& self.usb_host_ports == unwrap_or_u32(present_u32(m, "usb_host_ports"@), 0)
        &&& self.usb_device_mode == flag_set(m, "usb_device_mode"@)
        &&& self.usb_controller_mode == flag_set(m, "usb_controller_mode"@)
        &&& opt_view(self.storage_sd_node) == present(m, "storage_sd_node"@)
        &&& opt_view(self.storage_sd2_node) == present(m, "storage_sd2_node"@)
        &&& opt_view(self.storage_emmc_node) == present(m, "storage_emmc_node"@)
    }
}

fn lookup<'a>(values: &'a TraitValues, key: &str) -> (r: Option<&'a Vec<char>>)
    requires
        values.wf(),
    ensures
        match r {
            Some(v) => values@.contains_key(key@) && v@ == values@[key@],
            None => !values@.contains_key(key@),
        },
{
    let k = chars_of(key);
    values.get(&k)
}

fn present_value<'a>(values: &'a TraitValues, key: &str) -> (r: Option<&'a Vec<char>>)
    requires
        values.wf(),
    ensures
        match r {
            Some(v) => present(values@, key@) == Some(v@),
            None => present(values@, key@) is None,
        },
{
    match lookup(values, key) {
        Some(v) => {
            let na = chars_of("na");
            if v.len() > 0 && !chars_eq(v, &na) {
                Some(v)
            } else {
                None
            }
        },
        None => None,
    }
}

pub fn required(values: &TraitValues, key: &str) -> (r: Result<String, TraitsError>)
    requires
        values.wf(),
    ensures
        match r {
            Ok(s) => present(values@, key@) == Some(s@),
            Err(e) => missing(values@, key@) == Some(e@),
        },
{
    match present_value(values, key) {
        Some(v) => Ok(string_from_chars(v)),
        None => Err(TraitsError::MissingTrait(key.to_owned())),
    }
}

fn required_u32(values: &TraitValues, key: &str) -> (r: Result<u32, TraitsError>)
    requires
        values.wf(),
    ensures
        match r {
            Ok(n) => required_u32_failure(values@, key@) is None && present_u32(values@, key@)
                == Some(n),
            Err(e) => required_u32_failure(values@, key@) == Some(e@),
        },
{
    match present_value(values, key) {
        Some(v) => match parse_u32(v, 0, v.len()) {
            Some(n) => {
                assert(v@.subrange(0, v@.len() as int) =~= v@);
                Ok(n)
            },
            None => {
                assert(v@.subrange(0, v@.len() as int) =~= v@);
                Err(TraitsError::InvalidTrait(key.to_owned()))
            },
        },
        None => Err(TraitsError::MissingTrait(key.to_owned())),
    }
}

pub fn optional(values: &TraitValues, key: &str) -> (r: Option<String>)
    requires
        values.wf(),
    ensures
        opt_view(r) == present(values@, key@),
{
    match present_value(values, key) {
        Some(v) => Some(string_from_chars(v)),
        None => None,
    }
}

fn optional_u32(values: &TraitValues, key: &str) -> (r: Result<Option<u32>, TraitsError>)
    requires
        values.wf(),
    ensures
        match r {
            Ok(n) => malformed_u32(values@, key@) is None && n == present_u32(values@, key@),
            Err(e) => malformed_u32(values@, key@) == Some(e@),
        },
{
    match present_value(values, key) {
        Some(v) => {
            assert(v@.subrange(0, v@.len() as int) =~= v@);
            match parse_u32(v, 0, v.len()) {
                Some(n) => Ok(Some(n)),
                None => Err(TraitsError::InvalidTrait(key.to_owned())),
            }
        },
        None => Ok(None),
    }
}

fn optional_u16(values: &TraitValues, key: &str) -> (r: Result<Option<u16>, TraitsError>)
    requires
        values.wf(),
    ensures
        match r {
            Ok(n) => malformed_u16(values@, key@) is None && n == present_u16(values@, key@),
            Err(e) => malformed_u16(values@, key@) == Some(e@),
        },
{
    match present_value(values, key) {
        Some(v) => {
            assert(v@.subrange(0, v@.len() as int) =~= v@);
            match parse_u16(v, 0, v.len()) {
                Some(n) => Ok(Some(n)),
                None => Err(TraitsError::InvalidTrait(key.to_owned())),
            }
        },
        None => Ok(None),
    }
}

fn optional_i32(values: &TraitValues, key: &str) -> (r: Result<Option<i32>, TraitsError>)
    requires
        values.wf(),
    ensures
        match r {
            Ok(n) => malformed_i32(values@, key@) is None && n == present_i32(values@, key@),
            Err(e) => malformed_i32(values@, key@) == Some(e@),
        },
{
    match present_value(values, key) {
        Some(v) => {
            assert(v@.subrange(0, v@.len() as int) =~= v@);
            match parse_i32(v, 0, v.len()) {
                Some(n) => Ok(Some(n)),
                None => Err(TraitsError::InvalidTrait(key.to_owned())),
            }
        },
        None => Ok(None),
    }
}

fn flag(values: &TraitValues, key: &str) -> (r: bool)
    requires
        values.wf(),
    ensures
        r == flag_set(values@, key@),
{
    match present_value(values, key) {
        Some(v) => {
            let one = chars_of("1");
            chars_eq(v, &one)
        },
        None => false,
    }
}

/// The aspect that a `w:h` value spells, if it does: two `u32`s around
/// the first `:`, without surrounding whitespace, kept as written.
pub fn parse_aspect(value: Option<&Vec<char>>) -> (r: Option<Aspect>)
    ensures
        r == match value {
            Some(v) => aspect_of(v@),
            None => None,
        },
{
    let v = match value {
        Some(v) => v,
        None => return None,
    };
    assert(v@.subrange(0, v@.len() as int) =~= v@);
    match find_char(v, 0, v.len(), ':') {
        Some(j) => {
            assert(v@.subrange(0, j as int) =~= v@.take(j as int));
            assert(v@.subrange(j + 1, v@.len() as int) =~= v@.skip(j + 1));
            let w = parse_u32(v, 0, j);
            let h = parse_u32(v, j + 1, v.len());
            match (w, h) {
                (Some(w), Some(h)) => Some(Aspect::Other(w, h)),
                _ => None,
            }
        },
        None => None,
    }
}

proof fn lemma_gcd_zero(a: nat, b: nat)
    ensures
        gcd(a, b) == 0 ==> a == 0 && b == 0,
    decreases b,
{
    if b != 0 {
        lemma_gcd_zero(b, a % b);
    }
}

/// `w:h` reduced by their greatest common divisor.
pub fn derive_aspect(w: u32, h: u32) -> (r: Aspect)
    requires
        w != 0 || h != 0,
    ensures
        r == derived_aspect(w, h),
{
    let mut a: u32 = w;
    let mut b: u32 = h;
    while b != 0
        invariant
            gcd(a as nat, b as nat) == gcd(w as nat, h as nat),
        decreases b,
    {
        let t = b;
        b = a % b;
        a = t;
    }
    proof {
        lemma_gcd_zero(w as nat, h as nat);
    }
    Aspect::Other(w / a, h / a)
}

/// An aspect trait: `None` where it is not set, an error where it is set
/// but spells no ratio.
fn optional_aspect(values: &TraitValues, key: &str) -> (r: Result<Option<Aspect>, TraitsError>)
    requires
        values.wf(),
    ensures
        match r {
            Ok(a) => malformed_aspect(values@, key@) is None && a == aspect_value(values@, key@),
            Err(e) => malformed_aspect(values@, key@) == Some(e@),
        },
{
    match present_value(values, key) {
        Some(v) => match parse_aspect(Some(v)) {
            Some(a) => Ok(Some(a)),
            None => Err(TraitsError::InvalidTrait(key.to_owned())),
        },
        None => Ok(None),
    }
}

/// The screen aspect of the trait values, given the screen's size.
fn screen_aspect_from(values: &TraitValues, screen_width: u32, screen_height: u32) -> (r: Result<
    Aspect,
    TraitsError,
>)
    requires
        values.wf(),
        present_u32(values@, "screen_width"@) == Some(screen_width),
        present_u32(values@, "screen_height"@) == Some(screen_height),
        present(values@, "screen_aspect"@) is None ==> screen_width != 0 || screen_height != 0,
    ensures
        match r {
            Ok(a) => malformed_aspect(values@, "screen_aspect"@) is None && a == screen_aspect_of(
                values@,
            ),
            Err(e) => malformed_aspect(values@, "screen_aspect"@) == Some(e@),
        },
{
    match optional_aspect(values, "screen_aspect")? {
        Some(a) => Ok(a),
        None => Ok(derive_aspect(screen_width, screen_height)),
    }
}

fn key_table() -> (r: Vec<(&'static str, Key)>)
    ensures
        r@.len() == key_names().len(),
        forall|i: int|
            0 <= i < r@.len() ==> (#[trigger] r@[i]).0@ == key_names()[i].0 && r@[i].1
                == key_names()[i].1,
{
    vec![
        ("key_a", Key::A),
        ("key_b", Key::B),
        ("key_c", Key::C),
        ("key_x", Key::X),
        ("key_y", Key::Y),
        ("key_z", Key::Z),
        ("key_up", Key::Up),
        ("key_down", Key::Down),
        ("key_left", Key::Left),
        ("key_right", Key::Right),
        ("key_start", Key::Start),
        ("key_select", Key::Select),
        ("key_l1", Key::L),
        ("key_r1", Key::R),
        ("key_l2", Key::L2),
        ("key_r2", Key::R2),
        ("key_l3", Key::Unknown),
        ("key_r3", Key::Unknown),
        ("key_menu", Key::Menu),
        ("key_power", Key::Power),
        ("key_vol_down", Key::VolDown),
        ("key_vol_up", Key::VolUp)
    ]
}

fn known_keys() -> (r: Vec<&'static str>)
    ensures
        r@.len() == known_key_names().len(),
        forall|i: int| 0 <= i < r@.len() ==> (#[trigger] r@[i])@ == known_key_names()[i],
{
    vec![
        "device_id",
        "device_model",
        "screen_width",
        "screen_height",
        "screen_rotation",
        "screen_rotation_kernel",
        "screen_aspect",
        "screen_refresh_rate",
        "screen_backlight_path",
        "screen_backlight_max",
        "screen_blank_path",
        "screen2_width",
        "screen2_height",
        "screen2_rotation",
        "screen2_aspect",
        "screen2_refresh_rate",
        "screen2_backlight_path",
        "screen2_blank_path",
        "screen2_touch",
        "screen2_touch_device_name",
        "cpu_governor_path",
        "cpu_clock_path",
        "cpu_clock_menu",
        "cpu_clock_powersave",
        "cpu_clock_normal",
        "cpu_clock_performance",
        "cpu_undervolt_supported",
        "cpu_thermal_path",
        "gpu_device",
        "gpu_device2",
        "gpu_hdmi_connector",
        "gpu_driver",
        "gpu_clock_min",
        "gpu_clock_max",
        "audio_card",
        "audio_mixer",
        "audio_jack_device_name",
        "audio_mic",
        "input_gamepad_device_name",
        "input_power_device_name",
        "input_volume_device_name",
        "input_lid_device_name",
        "input_rumble_device_name",
        "input_touch",
        "input_touch_device_name",
        "key_a",
        "key_b",
        "key_c",
        "key_x",
        "key_y",
        "key_z",
        "key_up",
        "key_down",
        "key_left",
        "key_right",
        "key_start",
        "key_select",
        "key_l1",
        "key_r1",
        "key_l2",
        "key_r2",
        "key_l3",
        "key_r3",
        "key_menu",
        "key_power",
        "key_vol_down",
        "key_vol_up",
        "input_axis_lx",
        "input_axis_ly",
        "input_axis_rx",
        "input_axis_ry",
        "input_axis_min",
        "input_axis_center",
        "input_axis_max",
        "input_axis_lx_invert",
        "input_axis_ly_invert",
        "input_axis_rx_invert",
        "input_axis_ry_invert",
        "wifi_interface",
        "bluetooth_interface",
        "power_battery_sysfs",
        "power_charger_online_path",
        "power_led_path",
        "usb_otg",
        "usb_host_ports",
        "usb_device_mode",
        "usb_controller_mode",
        "storage_sd_node",
        "storage_sd2_node",
        "storage_emmc_node"
    ]
}

/// Whether the schema knows `key`.
pub fn is_known_key(key: &Vec<char>) -> (r: bool)
    ensures
        r == known_key_names().contains(key@),
{
    let known = known_keys();
    let mut i: usize = 0;
    while i < known.len()
        invariant
            0 <= i <= known.len(),
            known@.len() == known_key_names().len(),
            forall|j: int| 0 <= j < known@.len() ==> (#[trigger] known@[j])@ == known_key_names()[j],
            forall|j: int| 0 <= j < i ==> known_key_names()[j] != key@,
        decreases known.len() - i,
    {
        let name = chars_of(known[i]);
        if chars_eq(&name, key) {
            assert(known_key_names()[i as int] == key@);
            return true;
        }
        i = i + 1;
    }
    false
}

proof fn lemma_keycode_failure_persists(m: Map<Seq<char>, Seq<char>>, n: nat, k: nat)
    requires
        keycode_failure_upto(m, n) is Some,
        n <= k,
    ensures
        keycode_failure_upto(m, k) == keycode_failure_upto(m, n),
    decreases k,
{
    if n < k {
        lemma_keycode_failure_persists(m, n, (k - 1) as nat);
    }
}

/// The keycode table of the trait values.
fn parse_keycodes(values: &TraitValues) -> (r: Result<HashMap<u16, Key>, TraitsError>)
    requires
        values.wf(),
    ensures
        match r {
            Ok(t) => keycode_failure_upto(values@, key_names().len()) is None && t@ == keycodes_of(
                values@,
            ),
            Err(e) => keycode_failure_upto(values@, key_names().len()) matches Some(k) && e@
                == TraitsFailure::Invalid(k),
        },
{
    let table = key_table();
    let mut keycodes: HashMap<u16, Key> = HashMap::new();
    let mut i: usize = 0;
    while i < table.len()
        invariant
            values.wf(),
            0 <= i <= table.len(),
            table@.len() == key_names().len(),
            forall|j: int|
                0 <= j < table@.len() ==> (#[trigger] table@[j]).0@ == key_names()[j].0
                    && table@[j].1 == key_names()[j].1,
            keycode_failure_upto(values@, i as nat) is None,
            keycodes@ == keycodes_upto(values@, i as nat),
        decreases table.len() - i,
    {
        let (name, key) = table[i];
        assert(name@ == key_names()[i as int].0);
        match present_value(values, name) {
            Some(v) => {
                assert(v@.subrange(0, v@.len() as int) =~= v@);
                match parse_u16(v, 0, v.len()) {
                    Some(code) => {
                        keycodes.insert(code, key);
                    },
                    None => {
                        proof {
                            assert(keycode_failure_upto(values@, (i + 1) as nat) == Some(name@));
                            lemma_keycode_failure_persists(
                                values@,
                                (i + 1) as nat,
                                key_names().len(),
                            );
                        }
                        return Err(TraitsError::InvalidTrait(name.to_owned()));
                    },
                }
            },
            None => {},
        }
        i = i + 1;
    }
    Ok(keycodes)
}

impl Traits {
    /// Parses the text of a traits file. Every key must belong to the
    /// schema; `device_id`, `device_model`, `screen_width`, `screen_height`,
    /// `gpu_device`, `audio_card`, `audio_mixer` and the three input device
    /// names are required; every numeric trait that is set (not empty, not
    /// `na`) must hold a number of its type, and every aspect trait that is
    /// set must spell `w:h`. The first failure, in the order the traits are
    /// read, is reported. The HDMI status path is left unresolved.
    pub fn parse(input: &str) -> (r: Result<Traits, TraitsError>)
        requires
            !aspect_divides_by_zero(trait_values(input@)),
        ensures
            parse_result_matches(trait_values(input@), r),
    {
        let values = parse_values(input);
        Self::from_values(&values)
    }

    /// Parses `input` where that does not divide by zero (see
    /// `aspect_divides_by_zero`); `None` where it would.
    pub fn checked_parse(input: &str) -> (r: Option<Result<Traits, TraitsError>>)
        ensures
            match r {
                Some(p) => !aspect_divides_by_zero(trait_values(input@)) && parse_result_matches(
                    trait_values(input@),
                    p,
                ),
                None => aspect_divides_by_zero(trait_values(input@)),
            },
    {
        if Self::aspect_divides_by_zero(input) {
            None
        } else {
            Some(Self::parse(input))
        }
    }

    /// Whether parsing `input` would work out the screen aspect of a 0 by 0
    /// screen, which divides by zero.
    pub fn aspect_divides_by_zero(input: &str) -> (r: bool)
        ensures
            r == aspect_divides_by_zero(trait_values(input@)),
    {
        let values = parse_values(input);
        Self::values_divide_by_zero(&values)
    }

    fn values_divide_by_zero(values: &TraitValues) -> (r: bool)
        requires
            values.wf(),
        ensures
            r == aspect_divides_by_zero(values@),
    {
        if Self::unknown_key(values).is_some() {
            return false;
        }
        if required(values, "device_id").is_err() {
            return false;
        }
        if required(values, "device_model").is_err() {
            return false;
        }
        let w = match required_u32(values, "screen_width") {
            Ok(n) => n,
            Err(_) => return false,
        };
        let h = match required_u32(values, "screen_height") {
            Ok(n) => n,
            Err(_) => return false,
        };
        if optional_u32(values, "screen_rotation").is_err() {
            return false;
        }
        if optional_u32(values, "screen_rotation_kernel").is_err() {
            return false;
        }
        w == 0 && h == 0 && present_value(values, "screen_aspect").is_none()
    }

    /// The first key of `values` that the schema does not know.
    fn unknown_key(values: &TraitValues) -> (r: Option<String>)
        requires
            values.wf(),
        ensures
            match r {
                Some(k) => values@.contains_key(k@) && !known_key_names().contains(k@),
                None => !has_unknown(values@),
            },
    {
        proof {
            values.lemma_key_seq();
        }
        let mut i: usize = 0;
        while i < values.len()
            invariant
                values.wf(),
                0 <= i <= values.key_seq().len(),
                forall|j: int|
                    0 <= j < i ==> known_key_names().contains(#[trigger] values.key_seq()[j]),
            decreases values.key_seq().len() - i,
        {
            let k = values.key_at(i);
            if !is_known_key(k) {
                assert(values.key_seq().contains(k@));
                proof {
                    values.lemma_key_seq();
                }
                return Some(string_from_chars(k));
            }
            i = i + 1;
        }
        assert forall|k: Seq<char>| values@.contains_key(k) implies known_key_names().contains(
            k,
        ) by {
            assert(values.key_seq().contains(k));
            let j = choose|j: int| 0 <= j < values.key_seq().len() && values.key_seq()[j] == k;
            assert(known_key_names().contains(values.key_seq()[j]));
        }
        None
    }

    #[verifier::rlimit(50)]
    fn from_values(values: &TraitValues) -> (r: Result<Traits, TraitsError>)
        requires
            values.wf(),
            !aspect_divides_by_zero(values@),
        ensures
            parse_result_matches(values@, r),
    {
        if let Some(k) = Self::unknown_key(values) {
            return Err(TraitsError::UnknownTrait(k));
        }
        let device_id = required(values, "device_id")?;
        let device_model = required(values, "device_model")?;
        let screen_width = required_u32(values, "screen_width")?;
        let screen_height = required_u32(values, "screen_height")?;
        let screen_rotation = match optional_u32(values, "screen_rotation")? {
            Some(v) => v,
            None => 0,
        };
        let screen_rotation_kernel = optional_u32(values, "screen_rotation_kernel")?;
        let screen_aspect = screen_aspect_from(values, screen_width, screen_height)?;
        let screen_refresh_rate = match optional_u32(values, "screen_refresh_rate")? {
            Some(v) => v,
            None => 60,
        };
        let screen_backlight_path = optional(values, "screen_backlight_path");
        let screen_backlight_max = optional_u32(values, "screen_backlight_max")?;
        let screen_blank_path = optional(values, "screen_blank_path");
        let screen2_width = optional_u32(values, "screen2_width")?;
        let screen2_height = optional_u32(values, "screen2_height")?;
        let screen2_rotation = optional_u32(values, "screen2_rotation")?;
        let screen2_aspect = optional_aspect(values, "screen2_aspect")?;
        let screen2_refresh_rate = optional_u32(values, "screen2_refresh_rate")?;
        let screen2_backlight_path = optional(values, "screen2_backlight_path");
        let screen2_blank_path = optional(values, "screen2_blank_path");
        let screen2_touch = flag(values, "screen2_touch");
        let screen2_touch_device_name = optional(values, "screen2_touch_device_name");
        let cpu_governor_path = optional(values, "cpu_governor_path");
        let cpu_clock_path = optional(values, "cpu_clock_path");
        let cpu_clock_menu = optional_u32(values, "cpu_clock_menu")?;
        let cpu_clock_powersave = optional_u32(values, "cpu_clock_powersave")?;
        let cpu_clock_normal = optional_u32(values, "cpu_clock_normal")?;
        let cpu_clock_performance = optional_u32(values, "cpu_clock_performance")?;
        let cpu_undervolt_supported = flag(values, "cpu_undervolt_supported");
        let cpu_thermal_path = optional(values, "cpu_thermal_path");
        let gpu_device = required(values, "gpu_device")?;
        let gpu_device2 = optional(values, "gpu_device2");
        let gpu_hdmi_connector = optional(values, "gpu_hdmi_connector");
        let gpu_hdmi_state_path = None;
        let gpu_driver = optional(values, "gpu_driver");
        let gpu_clock_min = optional_u32(values, "gpu_clock_min")?;
        let gpu_clock_max = optional_u32(values, "gpu_clock_max")?;
        let audio_card = required(values, "audio_card")?;
        let audio_mixer = required(values, "audio_mixer")?;
        let audio_jack_device_name = optional(values, "audio_jack_device_name");
        let audio_mic = flag(values, "audio_mic");
        let input_gamepad_device_name = required(values, "input_gamepad_device_name")?;
        let input_power_device_name = required(values, "input_power_device_name")?;
        let input_volume_device_name = required(values, "input_volume_device_name")?;
        let input_lid_device_name = optional(values, "input_lid_device_name");
        let input_rumble_device_name = optional(values, "input_rumble_device_name");
        let input_touch = flag(values, "input_touch");
        let input_touch_device_name = optional(values, "input_touch_device_name");
        let keycodes = parse_keycodes(values)?;
        let axis_lx = optional_u16(values, "input_axis_lx")?;
        let axis_ly = optional_u16(values, "input_axis_ly")?;
        let axis_rx = optional_u16(values, "input_axis_rx")?;
        let axis_ry = optional_u16(values, "input_axis_ry")?;
        let axis_min = optional_i32(values, "input_axis_min")?;
        let axis_center = optional_i32(values, "input_axis_center")?;
        let axis_max = optional_i32(values, "input_axis_max")?;
        let axis_lx_invert = flag(values, "input_axis_lx_invert");
        let axis_ly_invert = flag(values, "input_axis_ly_invert");
        let axis_rx_invert = flag(values, "input_axis_rx_invert");
        let axis_ry_invert = flag(values, "input_axis_ry_invert");
        let wifi_interface = optional(values, "wifi_interface");
        let bluetooth_interface = optional(values, "bluetooth_interface");
        let power_battery_sysfs = optional(values, "power_battery_sysfs");
        let power_charger_online_path = optional(values, "power_charger_online_path");
        let power_led_path = optional(values, "power_led_path");
        let usb_otg = flag(values, "usb_otg");
        let usb_host_ports = match optional_u32(values, "usb_host_ports")? {
            Some(v) => v,
            None => 0,
        };
        let usb_device_mode = flag(values, "usb_device_mode");
        let usb_controller_mode = flag(values, "usb_controller_mode");
        let storage_sd_node = optional(values, "storage_sd_node");
        let storage_sd2_node = optional(values, "storage_sd2_node");
        let storage_emmc_node = optional(values, "storage_emmc_node");
        Ok(Traits {
            device_id,
            device_model,
            screen_width,
            screen_height,
            screen_rotation,
            screen_rotation_kernel,
            screen_aspect,
            screen_refresh_rate,
            screen_backlight_path,
            screen_backlight_max,
            screen_blank_path,
            screen2_width,
            screen2_height,
            screen2_rotation,
            screen2_aspect,
            screen2_refresh_rate,
            screen2_backlight_path,
            screen2_blank_path,
            screen2_touch,
            screen2_touch_device_name,
            cpu_governor_path,
            cpu_clock_path,
            cpu_clock_menu,
            cpu_clock_powersave,
            cpu_clock_normal,
            cpu_clock_performance,
            cpu_undervolt_supported,
            cpu_thermal_path,
            gpu_device,
            gpu_device2,
            gpu_hdmi_connector,
            gpu_hdmi_state_path,
            gpu_driver,
            gpu_clock_min,
            gpu_clock_max,
            audio_card,
            audio_mixer,
            audio_jack_device_name,
            audio_mic,
            input_gamepad_device_name,
            input_power_device_name,
            input_volume_device_name,
            input_lid_device_name,
            input_rumble_device_name,
            input_touch,
            input_touch_device_name,
            keycodes,
            axis_lx,
            axis_ly,
            axis_rx,
            axis_ry,
            axis_min,
            axis_center,
            axis_max,
            axis_lx_invert,
            axis_ly_invert,
            axis_rx_invert,
            axis_ry_invert,
            wifi_interface,
            bluetooth_interface,
            power_battery_sysfs,
            power_charger_online_path,
            power_led_path,
            usb_otg,
            usb_host_ports,
            usb_device_mode,
            usb_controller_mode,
            storage_sd_node,
            storage_sd2_node,
            storage_emmc_node,
        })
    }

    /// The names of the input devices that carry game input: gamepad,
    /// power and volume.
    pub fn input_device_names(&self) -> (r: Vec<&str>)
        ensures
            r@.len() == 3,
            r@[0]@ == self.input_gamepad_device_name@,
            r@[1]@ == self.input_power_device_name@,
            r@[2]@ == self.input_volume_device_name@,
    {
        vec![
            self.input_gamepad_device_name.as_str(),
            self.input_power_device_name.as_str(),
            self.input_volume_device_name.as_str(),
        ]
    }

    /// The name of the lid switch device, if the device has a clamshell.
    pub fn lid_device_name(&self) -> (r: Option<&str>)
        ensures
            match r {
                Some(s) => self.input_lid_device_name matches Some(n) && s@ == n@,
                None => self.input_lid_device_name is None,
            },
    {
        match &self.input_lid_device_name {
            Some(n) => Some(n.as_str()),
            None => None,
        }
    }
}

} // verus!
verus! {

/// Whether the DRM sysfs entry `name` (such as `card0-HDMI-A-1`) is the
/// connector `connector`: the text after its first `-` is the connector.
pub open spec fn names_connector(name: Seq<char>, connector: Seq<char>) -> bool {
    match first_index(name, '-') {
        Some(d) => name.skip(d + 1) == connector,
        None => false,
    }
}

pub open spec fn is_first_connector_entry(
    names: Seq<Seq<char>>,
    connector: Seq<char>,
    i: int,
) -> bool {
    &&& 0 <= i < names.len()
    &&& names_connector(names[i], connector)
    &&& forall|j: int| 0 <= j < i ==> !names_connector(#[trigger] names[j], connector)
}

/// The status path of the DRM sysfs entry `name`.
pub open spec fn drm_status_path(name: Seq<char>) -> Seq<char> {
    "/sys/class/drm/"@ + name + "/status"@
}

/// `t` and `u` agree on everything but the HDMI status path.
pub open spec fn same_but_hdmi_path(t: Traits, u: Traits) -> bool {
    t == Traits { gpu_hdmi_state_path: t.gpu_hdmi_state_path, ..u }
}

/// Whether `name` is the DRM sysfs entry of `connector`.
fn entry_names_connector(name: &Vec<char>, connector: &Vec<char>) -> (r: bool)
    ensures
        r == names_connector(name@, connector@),
{
    match find_char(name, 0, name.len(), '-') {
        Some(d) => {
            assert(name@.subrange(0, name@.len() as int) =~= name@);
            assert(name@.subrange(d + 1, name@.len() as int) =~= name@.skip(d + 1));
            crate::text::range_eq(name, d + 1, name.len(), connector)
        },
        None => {
            assert(name@.subrange(0, name@.len() as int) =~= name@);
            false
        },
    }
}

/// Resolves the configured HDMI connector (such as `HDMI-A-1`) to its DRM
/// sysfs status path, given the names of the entries of `/sys/class/drm`
/// in the order in which they were listed: the first entry whose text after
/// its first `-` is the connector gives `/sys/class/drm/{name}/status`.
/// With no connector configured or none found, `traits` comes back as it
/// was.
pub fn resolve_hdmi_connector(traits: Traits, entry_names: &Vec<String>) -> (r: Traits)
    ensures
        same_but_hdmi_path(r, traits),
        match traits.gpu_hdmi_connector {
            Some(c) => {
                let names = entry_names@.map_values(|s: String| s@);
                if exists|i: int| is_first_connector_entry(names, c@, i) {
                    let i = choose|i: int| is_first_connector_entry(names, c@, i);
                    opt_view(r.gpu_hdmi_state_path) == Some(drm_status_path(names[i]))
                } else {
                    r.gpu_hdmi_state_path == traits.gpu_hdmi_state_path
                }
            },
            None => r.gpu_hdmi_state_path == traits.gpu_hdmi_state_path,
        },
{
    let connector = match &traits.gpu_hdmi_connector {
        Some(c) => chars_of(c.as_str()),
        None => return traits,
    };
    let ghost names = entry_names@.map_values(|s: String| s@);
    let mut i: usize = 0;
    while i < entry_names.len()
        invariant
            0 <= i <= entry_names.len(),
            names == entry_names@.map_values(|s: String| s@),
            traits.gpu_hdmi_connector matches Some(c) && c@ == connector@,
            forall|j: int| 0 <= j < i ==> !names_connector(#[trigger] names[j], connector@),
        decreases entry_names.len() - i,
    {
        let name = chars_of(entry_names[i].as_str());
        assert(names[i as int] == name@);
        if entry_names_connector(&name, &connector) {
            let mut path = chars_of("/sys/class/drm/");
            let mut n = name;
            path.append(&mut n);
            let mut tail = chars_of("/status");
            path.append(&mut tail);
            let out = Traits { gpu_hdmi_state_path: Some(string_from_chars(&path)), ..traits };
            proof {
                assert(is_first_connector_entry(names, connector@, i as int));
                let k = choose|k: int| is_first_connector_entry(names, connector@, k);
                if k < i {
                    assert(!names_connector(names[k], connector@));
                }
                if i < k {
                    assert(!names_connector(names[i as int], connector@));
                }
            }
            return out;
        }
        i = i + 1;
    }
    traits
}

} // verus!

verus! {

/// Reading back the text of an aspect gives the same ratio: parsing
/// `w:h` yields `Other(w, h)`.
pub proof fn lemma_aspect_text_roundtrip(a: Aspect)
    ensures
        aspect_of(a.text()) == Some(Aspect::Other(a.ratio().0, a.ratio().1)),
{
    let (w, h) = a.ratio();
    let dw = decimal_repr(w as nat);
    let dh = decimal_repr(h as nat);
    let t = a.text();
    lemma_decimal_repr(w as nat);
    lemma_decimal_repr(h as nat);
    assert(t =~= dw + seq![':'] + dh);
    assert(crate::text::is_first_index(t, ':', dw.len() as int)) by {
        assert forall|j: int| 0 <= j < dw.len() implies t[j] != ':' by {
            assert(t[j] == dw[j]);
            assert(crate::text::is_digit(dw[j]));
        }
    }
    crate::text::lemma_first_index_at(t, ':', dw.len() as int);
    assert(t.take(dw.len() as int) =~= dw);
    assert(t.skip(dw.len() as int + 1) =~= dh);
    lemma_parse_unsigned_of_repr(w as nat, u32::MAX as int);
    lemma_parse_unsigned_of_repr(h as nat, u32::MAX as int);
}

proof fn lemma_gcd_divides(a: nat, b: nat)
    ensures
        gcd(a, b) > 0 ==> a % gcd(a, b) == 0 && b % gcd(a, b) == 0,
    decreases b,
{
    if b == 0 {
        if a > 0 {
            vstd::arithmetic::div_mod::lemma_fundamental_div_mod_converse_mod(a as int, a as int, 1, 0);
            vstd::arithmetic::div_mod::lemma_fundamental_div_mod_converse_mod(0, a as int, 0, 0);
        }
    } else {
        lemma_gcd_divides(b, a % b);
        let g = gcd(a, b);
        assert(g == gcd(b, a % b));
        if g > 0 {
            let q = a / b;
            let r = a % b;
            let k = b / g;
            let m = r / g;
            assert(b % g == 0 && r % g == 0);
            vstd::arithmetic::div_mod::lemma_fundamental_div_mod(a as int, b as int);
            vstd::arithmetic::div_mod::lemma_fundamental_div_mod(b as int, g as int);
            vstd::arithmetic::div_mod::lemma_fundamental_div_mod(r as int, g as int);
            assert(a == (q * k + m) * g) by (nonlinear_arith)
                requires
                    a == b * q + r,
                    b == g * k + 0,
                    r == g * m + 0,
            ;
            vstd::arithmetic::div_mod::lemma_fundamental_div_mod_converse_mod(
                a as int,
                g as int,
                (q * k + m) as int,
                0,
            );
        }
    }
}

/// The aspect worked out from a screen's size has the screen's
/// proportions: `w / h == width_ratio / height_ratio`.
pub proof fn lemma_derived_aspect_keeps_ratio(w: u32, h: u32)
    requires
        w != 0 || h != 0,
    ensures
        w * derived_aspect(w, h).ratio().1 == h * derived_aspect(w, h).ratio().0,
{
    let g = gcd(w as nat, h as nat);
    lemma_gcd_zero(w as nat, h as nat);
    lemma_gcd_divides(w as nat, h as nat);
    vstd::arithmetic::div_mod::lemma_fundamental_div_mod(w as int, g as int);
    vstd::arithmetic::div_mod::lemma_fundamental_div_mod(h as int, g as int);
    let a = w as nat / g;
    let b = h as nat / g;
    assert(a <= w && b <= h) by (nonlinear_arith)
        requires
            w == g * a,
            h == g * b,
            g > 0,
    ;
    assert(w * b == h * a) by (nonlinear_arith)
        requires
            w == g * a,
            h == g * b,
    ;
}

} // verus!

verus! {

/// A file that sets a key outside the schema is refused, naming such a key.
pub proof fn lemma_unknown_key_refused(m: Map<Seq<char>, Seq<char>>, r: Result<Traits, TraitsError>)
    requires
        parse_result_matches(m, r),
        has_unknown(m),
    ensures
        r matches Err(TraitsError::UnknownTrait(k)) && m.contains_key(k@)
            && !known_key_names().contains(k@),
{
}

/// A file without a required key is refused: the traits of a parsed file
/// always hold every required key.
pub proof fn lemma_required_keys_present(m: Map<Seq<char>, Seq<char>>, r: Result<Traits, TraitsError>)
    requires
        parse_result_matches(m, r),
        r is Ok,
    ensures
        present(m, "device_id"@) is Some,
        present(m, "device_model"@) is Some,
        present_u32(m, "screen_width"@) is Some,
        present_u32(m, "screen_height"@) is Some,
        present(m, "gpu_device"@) is Some,
        present(m, "audio_card"@) is Some,
        present(m, "audio_mixer"@) is Some,
        present(m, "input_gamepad_device_name"@) is Some,
        present(m, "input_power_device_name"@) is Some,
        present(m, "input_volume_device_name"@) is Some,
{
}

} // verus!

verus! {

proof fn lemma_keycodes_agree(a: Map<Seq<char>, Seq<char>>, b: Map<Seq<char>, Seq<char>>, n: nat)
    requires
        forall|j: Seq<char>| #[trigger] present(a, j) == present(b, j),
    ensures
        keycodes_upto(a, n) == keycodes_upto(b, n),
        keycode_failure_upto(a, n) == keycode_failure_upto(b, n),
    decreases n,
{
    if n > 0 {
        lemma_keycodes_agree(a, b, (n - 1) as nat);
        let name = key_names()[n - 1].0;
        assert(present(a, name) == present(b, name));
    }
}

proof fn lemma_keycodes_upto(m: Map<Seq<char>, Seq<char>>, n: nat, c: u16, j: int)
    requires
        n <= key_names().len(),
    ensures
        0 <= j < n && present_u16(m, key_names()[j].0) == Some(c) && (forall|l: int|
            j < l < n ==> present_u16(m, #[trigger] key_names()[l].0) != Some(c)) ==> keycodes_upto(
            m,
            n,
        ).contains_key(c) && keycodes_upto(m, n)[c] == key_names()[j].1,
        keycodes_upto(m, n).contains_key(c) ==> exists|l: int|
            0 <= l < n && present_u16(m, (#[trigger] key_names()[l]).0) == Some(c)
                && key_names()[l].1 == keycodes_upto(m, n)[c],
    decreases n,
{
    if n > 0 {
        lemma_keycodes_upto(m, (n - 1) as nat, c, j);
        let e = key_names()[n - 1];
        if keycodes_upto(m, n).contains_key(c) && present_u16(m, e.0) == Some(c) {
            assert(key_names()[n - 1] == e);
        }
    }
}

/// The keycode table of parsed traits: a button key set to a code that no
/// later button key is set to maps that code to its button, and every code
/// in the table is the code that some button key is set to, mapped to that
/// key's button.
pub proof fn lemma_keycode_table(m: Map<Seq<char>, Seq<char>>, t: Traits, c: u16, j: int)
    requires
        parse_result_matches(m, Ok::<Traits, TraitsError>(t)),
    ensures
        0 <= j < key_names().len() && present_u16(m, key_names()[j].0) == Some(c) && (forall|l: int|
            j < l < key_names().len() ==> present_u16(m, #[trigger] key_names()[l].0) != Some(c))
            ==> t.keycodes@.contains_key(c) && t.keycodes@[c] == key_names()[j].1,
        t.keycodes@.contains_key(c) ==> exists|l: int|
            0 <= l < key_names().len() && present_u16(m, (#[trigger] key_names()[l]).0) == Some(c)
                && key_names()[l].1 == t.keycodes@[c],
{
    lemma_keycodes_upto(m, key_names().len(), c, j);
}

/// Setting a known trait to `na`, or leaving its value empty, is the same
/// as leaving the line out: parsing gives the same result either way, and
/// working out the aspect divides by zero in both or in neither.
pub proof fn lemma_na_is_absent(
    m: Map<Seq<char>, Seq<char>>,
    k: Seq<char>,
    v: Seq<char>,
    r: Result<Traits, TraitsError>,
)
    requires
        known_key_names().contains(k),
        v == "na"@ || v.len() == 0,
    ensures
        parse_result_matches(m.insert(k, v), r) == parse_result_matches(m.remove(k), r),
        aspect_divides_by_zero(m.insert(k, v)) == aspect_divides_by_zero(m.remove(k)),
{
    let a = m.insert(k, v);
    let b = m.remove(k);
    assert forall|j: Seq<char>| #[trigger] present(a, j) == present(b, j) by {
        if j == k {
            assert(!b.contains_key(j));
        } else {
            assert(a.contains_key(j) == b.contains_key(j));
        }
    }
    assert(has_unknown(a) == has_unknown(b)) by {
        if has_unknown(a) {
            let j = choose|j: Seq<char>| a.contains_key(j) && !known_key_names().contains(j);
            assert(j != k);
            assert(b.contains_key(j));
        }
        if has_unknown(b) {
            let j = choose|j: Seq<char>| b.contains_key(j) && !known_key_names().contains(j);
            assert(a.contains_key(j));
        }
    }
    lemma_keycodes_agree(a, b, key_names().len());
    assert(field_failure(a) == field_failure(b));
    assert(screen_failure(a) == screen_failure(b));
    match r {
        Ok(t) => {
            assert(t.describes(a) == t.describes(b));
        },
        Err(e) => {
            if let TraitsError::UnknownTrait(j) = e {
                if !known_key_names().contains(j@) {
                    assert(j@ != k);
                    assert(a.contains_key(j@) == b.contains_key(j@));
                }
            }
        },
    }
}

/// A line that sets a known trait to `na`, or leaves its value empty, reads
/// as if it were not in the file. Take a traits file made of the text
/// `pre`, which sets no value for the trait, the line, and the text `post`
/// after the line's `\n` (or nothing where the line is the last one):
/// parsing it gives the same result as parsing `pre` followed by `post`, and
/// working out the aspect divides by zero for both or for neither.
pub proof fn lemma_na_line_is_absent(
    pre: Seq<char>,
    line: Seq<char>,
    sep: Seq<char>,
    post: Seq<char>,
    r: Result<Traits, TraitsError>,
)
    requires
        pre.len() == 0 || pre.last() == '\n',
        !line.contains('\n'),
        sep == "\n"@ || (sep.len() == 0 && post.len() == 0),
        line_entry(line) matches Some((k, w)) && known_key_names().contains(k) && (w == "na"@
            || w.len() == 0) && !trait_values(pre).contains_key(k),
    ensures
        parse_result_matches(trait_values(pre + line + sep + post), r) == parse_result_matches(
            trait_values(pre + post),
            r,
        ),
        aspect_divides_by_zero(trait_values(pre + line + sep + post)) == aspect_divides_by_zero(
            trait_values(pre + post),
        ),
{
    reveal_strlit("\n");
    let (k, w) = line_entry(line).unwrap();
    let p = split_lines(pre).drop_last();
    let empty = Seq::<char>::empty();
    // `pre` ends at a line break, so its lines are `p` and an empty line.
    if pre.len() > 0 {
        assert(split_lines(pre) == split_lines(pre.drop_last()).push(empty));
    }
    assert(split_lines(pre) =~= p.push(empty));
    assert(trim(empty) =~= empty);
    assert(line_entry(empty) is None);
    assert(p.push(empty).drop_last() =~= p);
    assert(values_of_lines(p) == trait_values(pre));
    assert(p.push(line).drop_last() =~= p);
    assert(values_of_lines(p.push(line)) == values_of_lines(p).insert(k, w));
    lemma_split_single(line);
    if sep.len() == 0 {
        assert(pre + line + sep + post =~= pre + line);
        assert(pre + post =~= pre);
        lemma_split_append(pre, line);
        assert(split_lines(pre + line) =~= p.push(line));
        lemma_values_after(p.push(line), p, seq![], k, w);
        assert(p.push(line) + seq![] =~= p.push(line));
        assert(p + Seq::<Seq<char>>::empty() =~= p);
    } else {
        let ls = line + sep;
        assert(ls.last() == '\n');
        assert(ls.drop_last() =~= line);
        assert(split_lines(ls) =~= seq![line, empty]);
        assert(pre + line + sep + post =~= pre + (ls + post));
        lemma_split_append(ls, post);
        lemma_split_append(pre, ls + post);
        lemma_split_append(pre, post);
        let after = split_lines(post);
        assert(split_lines(pre + line + sep + post) =~= p.push(line) + after);
        assert(split_lines(pre + post) =~= p + after);
        lemma_values_after(p.push(line), p, after, k, w);
    }
    let lines_rm = if sep.len() == 0 { p } else { p + split_lines(post) };
    let lines_na = if sep.len() == 0 { p.push(line) } else { p.push(line) + split_lines(post) };
    let m = values_of_lines(lines_rm);
    if values_of_lines(lines_na) != m {
        lemma_na_is_absent(m, k, w, r);
        assert(m.remove(k) =~= m);
    }
}

/// A trait counts as set for `optional` exactly when `required` accepts
/// it, and then both give its value.
pub proof fn lemma_optional_iff_required(m: Map<Seq<char>, Seq<char>>, k: Seq<char>)
    ensures
        missing(m, k) is None <==> present(m, k) is Some,
        present(m, k) is Some ==> present(m, k) == Some(m[k]),
{
}

proof fn lemma_gcd_scale(k: nat, a: nat, b: nat)
    requires
        k > 0,
    ensures
        gcd(k * a, k * b) == k * gcd(a, b),
    decreases b,
{
    if b == 0 {
        assert(k * b == 0);
    } else {
        let q = a / b;
        let r = a % b;
        vstd::arithmetic::div_mod::lemma_fundamental_div_mod(a as int, b as int);
        assert(k * a == q * (k * b) + k * r && 0 <= k * r < k * b) by (nonlinear_arith)
            requires
                a == b * q + r,
                0 <= r < b,
                k > 0,
        ;
        vstd::arithmetic::div_mod::lemma_fundamental_div_mod_converse_mod(
            (k * a) as int,
            (k * b) as int,
            q as int,
            (k * r) as int,
        );
        assert(k * b > 0) by (nonlinear_arith)
            requires
                k > 0,
                b > 0,
        ;
        assert((k * a) % (k * b) == k * r);
        lemma_gcd_scale(k, b, r);
        assert(gcd(k * a, k * b) == gcd(k * b, k * r));
    }
}

/// The aspect worked out from a screen's size is fully reduced: both
/// sides of the size are multiples of their greatest common divisor, the
/// two terms have no common divisor but 1, and reducing the result again
/// gives it back.
pub proof fn lemma_derived_aspect_reduced(w: u32, h: u32)
    requires
        w != 0 || h != 0,
    ensures
        ({
            let g = gcd(w as nat, h as nat);
            let (a, b) = derived_aspect(w, h).ratio();
            &&& g > 0
            &&& w as nat % g == 0
            &&& h as nat % g == 0
            &&& gcd(a as nat, b as nat) == 1
            &&& derived_aspect(a, b) == derived_aspect(w, h)
        }),
{
    let g = gcd(w as nat, h as nat);
    lemma_gcd_zero(w as nat, h as nat);
    lemma_gcd_divides(w as nat, h as nat);
    vstd::arithmetic::div_mod::lemma_fundamental_div_mod(w as int, g as int);
    vstd::arithmetic::div_mod::lemma_fundamental_div_mod(h as int, g as int);
    let a = w as nat / g;
    let b = h as nat / g;
    assert(a <= w && b <= h && w == g * a && h == g * b) by (nonlinear_arith)
        requires
            w == g * a + 0,
            h == g * b + 0,
            g > 0,
    ;
    lemma_gcd_scale(g, a, b);
    assert(g * gcd(a, b) == g * 1);
    assert(gcd(a, b) == 1) by (nonlinear_arith)
        requires
            g * gcd(a, b) == g * 1,
            g > 0,
    ;
    assert(derived_aspect(w, h).ratio() == (a as u32, b as u32));
    assert(a / 1 == a && b / 1 == b);
}

} // verus!
