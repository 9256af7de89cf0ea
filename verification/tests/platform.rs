use minime::audio::{amixer_args, volume_percent};
use minime::battery::{BatteryError, MinimeBattery};
use minime::device::{battery_for, device_model_of, firmware_of, suspend_plan, unsuspend_plan, SuspendContext};
use minime::input::{find_key, poll_step, PollStep, RawEvent};
use minime::mock::{init_logging, set_governor, MockPlatform, MockVideo};
use minime::platform::{Key, KeyEvent};
use minime::power::{cpu_speed_plan, led_write, rumble_command};
use minime::screen::{blank_write, brightness_of, brightness_write, ScreenError};
use minime::traits::Traits;

const BASE: &str = "\
device_id=test
device_model=Test Device
screen_width=640
screen_height=480
gpu_device=/dev/fb0
audio_card=default
audio_mixer=Line Out
input_gamepad_device_name=pad
input_power_device_name=power
input_volume_device_name=volume
";

fn traits_with(extra: &str) -> Traits {
    Traits::parse(&format!("{BASE}{extra}")).unwrap()
}

#[test]
fn battery_starts_full_and_idle() {
    let b = MinimeBattery::new(Some("/sys/bat".to_string()), None);
    assert_eq!(b.percentage(), 100);
    assert!(!b.charging());
    assert_eq!(b.battery_sysfs().map(|s| s.as_str()), Some("/sys/bat"));
    assert_eq!(b.charger_online_path(), None);
}

#[test]
fn battery_reads_capacity_status_and_charger() {
    let mut b = MinimeBattery::new(None, None);
    assert_eq!(b.set_capacity(" 57\n"), Ok(()));
    assert_eq!(b.percentage(), 57);
    assert_eq!(b.set_capacity("lots"), Err(BatteryError::InvalidNumber));
    assert_eq!(b.percentage(), 57);
    b.set_status("Charging\n");
    assert!(b.charging());
    b.set_status("Discharging\n");
    assert!(!b.charging());
    b.set_status("Full");
    assert!(b.charging());
    b.set_status("");
    assert!(!b.charging());
    assert_eq!(b.set_charger_online("1\n"), Ok(()));
    assert!(b.charging());
    assert_eq!(b.set_charger_online("0"), Ok(()));
    assert!(!b.charging());
    assert_eq!(b.set_charger_online("x"), Err(BatteryError::InvalidNumber));
    assert!(!b.charging());
}

#[test]
fn battery_for_uses_trait_paths() {
    let t = traits_with("power_battery_sysfs=/sys/class/power_supply/battery\n");
    let b = battery_for(&t);
    assert_eq!(
        b.battery_sysfs().map(|s| s.as_str()),
        Some("/sys/class/power_supply/battery")
    );
    assert_eq!(b.charger_online_path(), None);
}

#[test]
fn brightness_reads_and_writes() {
    assert_eq!(brightness_of(None), Ok(0));
    assert_eq!(brightness_of(Some("7\n")), Ok(7));
    assert_eq!(brightness_of(Some("300")), Err(ScreenError::InvalidNumber));
    let t = traits_with("screen_backlight_path=/sys/bl\nscreen_blank_path=/sys/blank\n");
    let w = brightness_write(&t, 42).unwrap();
    assert_eq!(w.path, "/sys/bl");
    assert_eq!(w.contents, "42");
    assert_eq!(brightness_of(Some(&w.contents)), Ok(42));
    assert_eq!(blank_write(&t, true).unwrap().contents, "4");
    assert_eq!(blank_write(&t, false).unwrap().contents, "0");
    let bare = traits_with("");
    assert_eq!(brightness_write(&bare, 3), None);
    assert_eq!(blank_write(&bare, true), None);
}

#[test]
fn led_and_rumble() {
    let t = traits_with("power_led_path=/sys/led\ninput_rumble_device_name=pwm-vibrator\n");
    assert_eq!(led_write(&t, true).unwrap().contents, "1");
    assert_eq!(led_write(&t, false).unwrap().contents, "0");
    let on = rumble_command(&t, true).unwrap();
    assert_eq!(on.device_name, "pwm-vibrator");
    assert_eq!(on.strong_magnitude, 0xffff);
    assert_eq!(on.weak_magnitude, 0xffff);
    assert_eq!(on.length_ms, 1000);
    assert_eq!(on.delay_ms, 0);
    assert_eq!(on.direction, 0);
    assert_eq!(on.trigger_button, 0);
    assert_eq!(on.trigger_interval_ms, 0);
    assert!(on.play);
    let off = rumble_command(&t, false).unwrap();
    assert_eq!(off.strong_magnitude, 0);
    assert!(!off.play);
    let bare = traits_with("");
    assert_eq!(led_write(&bare, true), None);
    assert_eq!(rumble_command(&bare, true), None);
}

#[test]
fn cpu_speed_levels() {
    let t = traits_with(
        "cpu_governor_path=/sys/gov\ncpu_clock_path=/sys/clk\ncpu_clock_menu=600000\n\
         cpu_clock_normal=1200000\ncpu_clock_performance=1500000\n",
    );
    let menu = cpu_speed_plan(&t, -3).unwrap();
    assert_eq!(menu.governor.path, "/sys/gov");
    assert_eq!(menu.governor.contents, "schedutil");
    assert_eq!(menu.clock.unwrap().contents, "600000");
    let save = cpu_speed_plan(&t, 1).unwrap();
    assert_eq!(save.governor.contents, "schedutil");
    assert_eq!(save.clock, None);
    let normal = cpu_speed_plan(&t, 2).unwrap();
    assert_eq!(normal.clock.unwrap().contents, "1200000");
    let perf = cpu_speed_plan(&t, 9).unwrap();
    assert_eq!(perf.governor.contents, "performance");
    let clock = perf.clock.unwrap();
    assert_eq!(clock.path, "/sys/clk");
    assert_eq!(clock.contents, "1500000");
    assert!(cpu_speed_plan(&traits_with("cpu_governor_path=/sys/gov\n"), 2).is_none());
}

#[test]
fn volume_steps_are_clamped() {
    assert_eq!(volume_percent(-4), 0);
    assert_eq!(volume_percent(7), 35);
    assert_eq!(volume_percent(20), 100);
    assert_eq!(volume_percent(99), 100);
    let t = traits_with("");
    assert_eq!(
        amixer_args(&t, 7),
        vec!["-q", "-D", "default", "sset", "Line Out", "35%"]
    );
}

#[test]
fn input_events_become_key_events() {
    let table = vec![(305u16, Key::A), (544, Key::Up), (305, Key::B)];
    assert_eq!(find_key(&table, 305), Some(Key::A));
    assert_eq!(find_key(&table, 1), None);
    let ev = |is_key, code, value| Some(RawEvent { is_key, code, value });
    assert_eq!(
        poll_step(&table, ev(true, 305, 1)),
        PollStep::Deliver(KeyEvent::Pressed(Key::A))
    );
    assert_eq!(
        poll_step(&table, ev(true, 544, 0)),
        PollStep::Deliver(KeyEvent::Released(Key::Up))
    );
    assert_eq!(
        poll_step(&table, ev(true, 544, 2)),
        PollStep::Deliver(KeyEvent::Autorepeat(Key::Up))
    );
    assert_eq!(poll_step(&table, ev(true, 544, 5)), PollStep::Next);
    assert_eq!(poll_step(&table, ev(false, 544, 1)), PollStep::Sleep);
    assert_eq!(poll_step(&table, ev(true, 2, 1)), PollStep::Sleep);
    assert_eq!(poll_step(&table, None), PollStep::Sleep);
}

#[test]
fn device_names_and_suspend_context() {
    let t = traits_with("");
    assert_eq!(device_model_of(Some(&t)), "Test Device");
    assert_eq!(device_model_of(None), "Minime");
    assert_eq!(firmware_of(Some(" 2024.1 \n")), "2024.1");
    assert_eq!(firmware_of(None), "Minime");
    assert_eq!(SuspendContext::new(9).brightness(), 9);
}

#[test]
fn mock_platform_accepts_everything() {
    let mut video = MockVideo;
    assert_eq!(video.present(&[0u8; 4], 3u8), Ok(true));
    video.set_effect(1u8);
    video.set_sharpness("soft");
    let mut platform = MockPlatform { video };
    let mut joypad = 0u32;
    let events: Vec<u8> = platform.poll_input(&mut joypad);
    assert!(events.is_empty());
    assert_eq!(joypad, 0);
    assert!(platform.skip_presentation_when_paused());
    assert!(init_logging().is_ok());
    set_governor("performance");
}

#[test]
fn event_device_names() {
    assert!(minime::input::is_event_device_name("event3"));
    assert!(minime::input::is_event_device_name("event"));
    assert!(!minime::input::is_event_device_name("mouse0"));
    assert!(!minime::input::is_event_device_name("even"));
}

#[test]
fn suspend_then_unsuspend_restores_brightness() {
    let t = traits_with("screen_backlight_path=/sys/bl\nscreen_blank_path=/sys/blank\n");
    let (ctx, writes) = suspend_plan(&t, Some("7\n")).unwrap();
    assert_eq!(ctx.brightness(), 7);
    let w: Vec<(String, String)> = writes.into_iter().map(|w| (w.path, w.contents)).collect();
    assert_eq!(
        w,
        vec![
            ("/sys/bl".to_string(), "0".to_string()),
            ("/sys/blank".to_string(), "4".to_string())
        ]
    );
    let w: Vec<(String, String)> = unsuspend_plan(&t, ctx)
        .into_iter()
        .map(|w| (w.path, w.contents))
        .collect();
    assert_eq!(
        w,
        vec![
            ("/sys/blank".to_string(), "0".to_string()),
            ("/sys/bl".to_string(), "7".to_string())
        ]
    );
    assert_eq!(suspend_plan(&t, Some("bright")).err(), Some(ScreenError::InvalidNumber));
    let (ctx, writes) = suspend_plan(&traits_with(""), None).unwrap();
    assert_eq!(ctx.brightness(), 0);
    assert!(writes.is_empty());
}
