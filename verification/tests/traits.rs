use minime::platform::Key;
use minime::traits::{parse_aspect, Aspect, Traits, TraitsError};

const SAMPLE: &str = "\
device_id=rg35xx-sp-v1
device_model=Anbernic RG35XX SP
screen_width=640
screen_height=480
screen_rotation=0
screen_aspect=4:3
screen_refresh_rate=60
screen_backlight_path=/sys/class/backlight/backlight/brightness
screen_backlight_max=10
screen_blank_path=/sys/class/graphics/fb0/blank
gpu_device=/dev/fb0
gpu_hdmi_connector=HDMI-A-1
audio_card=default
audio_mixer=Line Out
audio_jack_device_name=H616 Audio Codec Headphone Jack
input_gamepad_device_name=gpio-keys-gamepad
input_power_device_name=axp20x-pek
input_volume_device_name=gpio-keys-volume
input_lid_device_name=gpio-keys-lid
key_a=305
key_b=304
key_up=544
key_down=545
key_menu=316
wifi_interface=wlan0
bluetooth_interface=hci0
power_battery_sysfs=/sys/class/power_supply/battery
power_charger_online_path=/sys/class/power_supply/axp20x-usb/online
";

#[test]
fn parses_full_schema() {
    let t = Traits::parse(SAMPLE).unwrap();
    assert_eq!(t.device_model, "Anbernic RG35XX SP");
    assert_eq!(t.screen_width, 640);
    assert_eq!(t.screen_height, 480);
    assert_eq!(t.screen_aspect.to_string(), "4:3");
    assert_eq!(t.screen_backlight_max, Some(10));
    assert_eq!(t.gpu_device, "/dev/fb0");
    assert_eq!(t.audio_mixer, "Line Out");
    assert_eq!(
        t.audio_jack_device_name.as_deref(),
        Some("H616 Audio Codec Headphone Jack")
    );
    assert_eq!(t.input_lid_device_name.as_deref(), Some("gpio-keys-lid"));
    assert_eq!(t.keycodes.get(&305), Some(&Key::A));
    assert_eq!(t.keycodes.get(&544), Some(&Key::Up));
    assert_eq!(t.wifi_interface.as_deref(), Some("wlan0"));
    assert_eq!(t.bluetooth_interface.as_deref(), Some("hci0"));
}

#[test]
fn rejects_unknown_key() {
    let error = format!("{SAMPLE}not_a_real_trait=1\n");
    assert!(Traits::parse(&error).is_err());
}

#[test]
fn rejects_missing_required() {
    assert!(Traits::parse("device_model=Anbernic RG35XX SP\n").is_err());
}

#[test]
fn derives_aspect_when_absent() {
    let input = SAMPLE.replace("screen_aspect=4:3\n", "");
    let t = Traits::parse(&input).unwrap();
    assert_eq!(t.screen_aspect.to_string(), "4:3");
}

#[test]
fn unknown_key_is_named() {
    let input = format!("{SAMPLE}not_a_real_trait=1\n");
    assert_eq!(
        Traits::parse(&input).unwrap_err(),
        TraitsError::UnknownTrait("not_a_real_trait".to_string())
    );
}

#[test]
fn first_missing_required_key_is_reported() {
    assert_eq!(
        Traits::parse("device_model=Anbernic RG35XX SP\n").unwrap_err(),
        TraitsError::MissingTrait("device_id".to_string())
    );
}

#[test]
fn na_and_empty_values_count_as_absent() {
    let input = SAMPLE.replace("device_id=rg35xx-sp-v1", "device_id=na");
    assert_eq!(
        Traits::parse(&input).unwrap_err(),
        TraitsError::MissingTrait("device_id".to_string())
    );
    let input = SAMPLE.replace("wifi_interface=wlan0", "wifi_interface=");
    assert_eq!(Traits::parse(&input).unwrap().wifi_interface, None);
}

#[test]
fn invalid_required_number_is_reported() {
    let input = SAMPLE.replace("screen_width=640", "screen_width=wide");
    assert_eq!(
        Traits::parse(&input).unwrap_err(),
        TraitsError::InvalidTrait("screen_width".to_string())
    );
}

#[test]
fn invalid_keycode_is_reported() {
    let input = SAMPLE.replace("key_b=304", "key_b=70000");
    assert_eq!(
        Traits::parse(&input).unwrap_err(),
        TraitsError::InvalidTrait("key_b".to_string())
    );
}

#[test]
fn comments_sections_and_whitespace_are_handled() {
    let input = format!("# comment\n[device]\n  {SAMPLE}\r\nusb_host_ports = +2 \r\nnot a pair\n");
    let t = Traits::parse(&input).unwrap();
    assert_eq!(t.device_id, "rg35xx-sp-v1");
    assert_eq!(t.usb_host_ports, 2);
}

#[test]
fn later_lines_override_earlier_ones() {
    let input = format!("{SAMPLE}screen_width=320\n");
    assert_eq!(Traits::parse(&input).unwrap().screen_width, 320);
}

#[test]
fn defaults_and_flags() {
    let t = Traits::parse(SAMPLE).unwrap();
    assert_eq!(t.screen_refresh_rate, 60);
    assert_eq!(t.usb_host_ports, 0);
    assert!(!t.audio_mic);
    assert_eq!(t.gpu_hdmi_state_path, None);
    let t = Traits::parse(&format!("{SAMPLE}audio_mic=1\ninput_axis_min=-32768\nusb_otg=yes\n"))
        .unwrap();
    assert!(t.audio_mic);
    assert!(!t.usb_otg);
    assert_eq!(t.axis_min, Some(-32768));
}

#[test]
fn derived_aspect_is_reduced() {
    let input = SAMPLE
        .replace("screen_aspect=4:3\n", "")
        .replace("screen_width=640", "screen_width=1920")
        .replace("screen_height=480", "screen_height=1080");
    let t = Traits::parse(&input).unwrap();
    assert_eq!(t.screen_aspect, Aspect::Other(16, 9));
    assert_eq!(minime::traits::derive_aspect(0, 5), Aspect::Other(0, 1));
}

#[test]
fn zero_screen_without_aspect_is_detected() {
    let input = SAMPLE
        .replace("screen_aspect=4:3\n", "")
        .replace("screen_width=640", "screen_width=0")
        .replace("screen_height=480", "screen_height=0");
    assert!(Traits::aspect_divides_by_zero(&input));
    assert!(!Traits::aspect_divides_by_zero(SAMPLE));
}

#[test]
fn aspect_ratios_and_text() {
    assert_eq!(Aspect::R16x9.width_ratio(), 16);
    assert_eq!(Aspect::R16x9.height_ratio(), 9);
    assert_eq!(Aspect::R3x2.to_string(), "3:2");
    assert_eq!(Aspect::Other(21, 9).to_string(), "21:9");
}

#[test]
fn hdmi_connector_is_resolved() {
    let t = Traits::parse(SAMPLE).unwrap();
    let names = vec![
        "card0".to_string(),
        "card1-DSI-1".to_string(),
        "card1-HDMI-A-1".to_string(),
        "card2-HDMI-A-1".to_string(),
    ];
    let r = minime::traits::resolve_hdmi_connector(t.clone(), &names);
    assert_eq!(
        r.gpu_hdmi_state_path.as_deref(),
        Some("/sys/class/drm/card1-HDMI-A-1/status")
    );
    let r = minime::traits::resolve_hdmi_connector(t, &vec!["card0".to_string()]);
    assert_eq!(r.gpu_hdmi_state_path, None);
}

#[test]
fn device_name_accessors() {
    let t = Traits::parse(SAMPLE).unwrap();
    assert_eq!(
        t.input_device_names(),
        vec!["gpio-keys-gamepad", "axp20x-pek", "gpio-keys-volume"]
    );
    assert_eq!(t.lid_device_name(), Some("gpio-keys-lid"));
}

#[test]
fn checked_parse_reports_zero_screen() {
    let input = SAMPLE
        .replace("screen_aspect=4:3\n", "")
        .replace("screen_width=640", "screen_width=0")
        .replace("screen_height=480", "screen_height=0");
    assert!(Traits::checked_parse(&input).is_none());
    let t = Traits::checked_parse(SAMPLE).unwrap().unwrap();
    assert_eq!(t.screen_width, 640);
    let with_aspect = SAMPLE
        .replace("screen_width=640", "screen_width=0")
        .replace("screen_height=480", "screen_height=0");
    assert_eq!(
        Traits::checked_parse(&with_aspect).unwrap().unwrap().screen_aspect,
        Aspect::Other(4, 3)
    );
}

#[test]
fn malformed_optional_numbers_are_refused() {
    let input = SAMPLE.replace("screen_backlight_max=10\n", "screen_backlight_max=ten\n");
    assert_eq!(
        Traits::parse(&input).unwrap_err(),
        TraitsError::InvalidTrait("screen_backlight_max".to_string())
    );
    let input = format!("{SAMPLE}input_axis_min=abc\n");
    assert_eq!(
        Traits::parse(&input).unwrap_err(),
        TraitsError::InvalidTrait("input_axis_min".to_string())
    );
    let input = format!("{SAMPLE}input_axis_lx=70000\n");
    assert_eq!(
        Traits::parse(&input).unwrap_err(),
        TraitsError::InvalidTrait("input_axis_lx".to_string())
    );
    let input = SAMPLE.replace("screen_backlight_max=10\n", "screen_backlight_max=na\n");
    assert_eq!(Traits::parse(&input).unwrap().screen_backlight_max, None);
}

#[test]
fn malformed_aspects_are_refused() {
    let input = SAMPLE.replace("screen_aspect=4:3", "screen_aspect=wide");
    assert_eq!(
        Traits::parse(&input).unwrap_err(),
        TraitsError::InvalidTrait("screen_aspect".to_string())
    );
    let input = format!("{SAMPLE}screen2_aspect=4:3:2\n");
    assert_eq!(
        Traits::parse(&input).unwrap_err(),
        TraitsError::InvalidTrait("screen2_aspect".to_string())
    );
    let input = SAMPLE.replace("screen_aspect=4:3", "screen_aspect=na");
    assert_eq!(Traits::parse(&input).unwrap().screen_aspect, Aspect::Other(4, 3));
    let input = format!("{SAMPLE}screen2_aspect=8:6\n");
    assert_eq!(
        Traits::parse(&input).unwrap().screen2_aspect,
        Some(Aspect::Other(8, 6))
    );
}

#[test]
fn failures_are_reported_in_reading_order() {
    let input = SAMPLE
        .replace("screen_backlight_max=10\n", "screen_backlight_max=ten\n")
        .replace("gpu_device=/dev/fb0\n", "");
    assert_eq!(
        Traits::parse(&input).unwrap_err(),
        TraitsError::InvalidTrait("screen_backlight_max".to_string())
    );
}

#[test]
fn na_or_empty_is_the_same_as_absent() {
    let absent = SAMPLE.replace("bluetooth_interface=hci0\n", "");
    for v in ["na", ""] {
        let input = SAMPLE.replace("bluetooth_interface=hci0", &format!("bluetooth_interface={v}"));
        let a = Traits::parse(&input).unwrap();
        let b = Traits::parse(&absent).unwrap();
        assert_eq!(format!("{a:?}").len(), format!("{b:?}").len());
        assert_eq!(a.bluetooth_interface, b.bluetooth_interface);
    }
}

#[test]
fn parse_aspect_cases() {
    let v = |s: &str| s.chars().collect::<Vec<char>>();
    assert_eq!(parse_aspect(None), None);
    assert_eq!(parse_aspect(Some(&v("na"))), None);
    assert_eq!(parse_aspect(Some(&v("4:3:2"))), None);
    assert_eq!(parse_aspect(Some(&v("4 :3"))), None);
    assert_eq!(parse_aspect(Some(&v("8:6"))), Some(Aspect::Other(8, 6)));
    assert_eq!(
        parse_aspect(Some(&v(&Aspect::R16x9.to_string()))),
        Some(Aspect::Other(16, 9))
    );
}

#[test]
fn derived_aspect_is_fully_reduced() {
    let a = minime::traits::derive_aspect(1920, 1080);
    assert_eq!(a, Aspect::Other(16, 9));
    assert_eq!(
        minime::traits::derive_aspect(a.width_ratio(), a.height_ratio()),
        a
    );
}

/// Asserts that two parsed trait sets hold the same values.
fn assert_same(a: &Traits, b: &Traits) {
    assert_eq!(a.keycodes, b.keycodes);
    let (mut a, mut b) = (a.clone(), b.clone());
    a.keycodes.clear();
    b.keycodes.clear();
    assert_eq!(format!("{a:?}"), format!("{b:?}"));
}

#[test]
fn na_line_reads_as_removed_line() {
    // A trait in the middle, set to `na` or left empty, against the line removed.
    for v in ["na", ""] {
        let na = SAMPLE.replace("screen_aspect=4:3\n", &format!("screen_aspect={v}\n"));
        let rm = SAMPLE.replace("screen_aspect=4:3\n", "");
        let (a, b) = (Traits::parse(&na).unwrap(), Traits::parse(&rm).unwrap());
        assert_same(&a, &b);
        assert_eq!(a.screen_aspect, Aspect::Other(4, 3));
    }
    // The last line of the file, without a line break after it.
    let base = SAMPLE.replace("bluetooth_interface=hci0\n", "");
    let na = format!("{base}bluetooth_interface=na");
    let (a, b) = (Traits::parse(&na).unwrap(), Traits::parse(&base).unwrap());
    assert_same(&a, &b);
    // A required trait: both are refused in the same way.
    let na = SAMPLE.replace("device_id=rg35xx-sp-v1\n", "device_id=na\n");
    let rm = SAMPLE.replace("device_id=rg35xx-sp-v1\n", "");
    let err = Some(TraitsError::MissingTrait("device_id".to_string()));
    assert_eq!(Traits::parse(&na).err(), err);
    assert_eq!(Traits::parse(&rm).err(), err);
}
