use appkit::ewwkit::controls::{
    brightness_command, brightness_down, brightness_set, brightness_up, volume_command, volume_down,
    volume_mute_toggle, volume_set, volume_up,
};
use appkit::ewwkit::devices::{
    audio_from, battery_icon, battery_reading, brightness_icon, brightness_level, brightness_reading,
    create_battery_provider, create_brightness_provider, is_backlight_change, is_network_event,
    is_power_event, is_sink_change, network_from, volume_from, wifi_icon, AlsaMonitor, SysfsAdapter,
};
use appkit::ewwkit::ipc::{BrightnessAction, VolumeAction};

// ── brightness_icon ─────────────────────────────────────────────────────────

#[test]
fn icon_full_at_75() {
    assert_eq!(brightness_icon(75), "󰃠");
    assert_eq!(brightness_icon(100), "󰃠");
}

#[test]
fn icon_boundary_just_below_75() {
    assert_eq!(brightness_icon(74), "󰃟");
}

#[test]
fn icon_medium_at_50() {
    assert_eq!(brightness_icon(50), "󰃟");
    assert_eq!(brightness_icon(60), "󰃟");
}

#[test]
fn icon_boundary_just_below_50() {
    assert_eq!(brightness_icon(49), "󰃞");
}

#[test]
fn icon_low_at_25() {
    assert_eq!(brightness_icon(25), "󰃞");
    assert_eq!(brightness_icon(30), "󰃞");
}

#[test]
fn icon_boundary_just_below_25() {
    assert_eq!(brightness_icon(24), "󰃝");
}

#[test]
fn icon_dim_at_zero() {
    assert_eq!(brightness_icon(0), "󰃝");
}

// ── brightness from the sysfs files ─────────────────────────────────────────

#[test]
fn sysfs_calculates_percentage() {
    let state = brightness_reading("750\n", "1000\n");
    assert_eq!(state.level, 75);
    assert_eq!(state.icon, "󰃠");
}

#[test]
fn sysfs_full_brightness() {
    assert_eq!(brightness_reading("1000\n", "1000\n").level, 100);
}

#[test]
fn sysfs_no_trailing_newline() {
    assert_eq!(brightness_reading("500", "1000").level, 50);
}

#[test]
fn sysfs_non_numeric_defaults_to_zero() {
    assert_eq!(brightness_reading("N/A\n", "1000\n").level, 0);
}

#[test]
fn sysfs_caps_at_100() {
    assert_eq!(brightness_reading("1200\n", "1000\n").level, 100);
}

#[test]
fn brightness_zero_max_is_zero() {
    assert_eq!(brightness_level(500, 0), 0);
    assert_eq!(brightness_reading("500", "0").level, 0);
}

#[test]
fn brightness_unreadable_max_counts_as_one() {
    assert_eq!(brightness_reading("1\n", "garbage").level, 100);
    assert_eq!(brightness_reading("0\n", "").level, 0);
}

// ── battery ─────────────────────────────────────────────────────────────────

#[test]
fn battery_reading_trims_and_parses() {
    let b = battery_reading(" 87\n", "Discharging\n");
    assert_eq!(b.level, 87);
    assert_eq!(b.status, "Discharging");
    assert_eq!(b.icon, "");
    assert_eq!(battery_icon(5, "Charging"), "");
}

#[test]
fn battery_reading_unreadable_capacity_is_zero() {
    assert_eq!(battery_reading("full", "Full").level, 0);
    assert_eq!(battery_reading("300", "Full").level, 0);
}

#[test]
fn sysfs_adapter_glyph_bands() {
    let a = SysfsAdapter::new("BAT1");
    assert_eq!(a.battery_name, "BAT1");
    assert_eq!(a.battery_file("capacity"), "/sys/class/power_supply/BAT1/capacity");
    assert_eq!(a.battery_from("100", "Charging").icon, "\u{e00a}");
    assert_eq!(a.battery_from("91", "Full").icon, "\u{f578}");
    assert_eq!(a.battery_from("90", "Discharging").icon, "\u{f580}");
    assert_eq!(a.battery_from("71", "Discharging").icon, "\u{f580}");
    assert_eq!(a.battery_from("70", "Discharging").icon, "\u{f57e}");
    assert_eq!(a.battery_from("50", "Discharging").icon, "\u{f57c}");
    assert_eq!(a.battery_from("30", "Discharging").icon, "\u{f57b}");
    assert_eq!(a.battery_from("10", "Discharging").icon, "\u{f58d}");
    assert_eq!(a.battery_from("x", "Discharging").level, 0);
}

#[test]
fn battery_provider_defaults_to_bat0() {
    assert_eq!(create_battery_provider(None).battery_name, "BAT0");
    assert_eq!(create_battery_provider(Some("CMB0".into())).battery_name, "CMB0");
    assert!(is_power_event("[10:00:00.000] device changed: /org/freedesktop/UPower"));
    assert!(!is_power_event("Monitoring activity from the power daemon."));
}

// ── Wi-Fi ───────────────────────────────────────────────────────────────────

#[test]
fn wifi_icon_bands() {
    assert_eq!(wifi_icon(100), "󰤨");
    assert_eq!(wifi_icon(75), "󰤨");
    assert_eq!(wifi_icon(74), "󰤥");
    assert_eq!(wifi_icon(50), "󰤥");
    assert_eq!(wifi_icon(49), "󰤢");
    assert_eq!(wifi_icon(25), "󰤢");
    assert_eq!(wifi_icon(24), "󰤟");
}

#[test]
fn nmcli_active_network_is_found() {
    let out = "no:Neighbour:40\nyes:Home:80\nyes:Other:20\n";
    let n = network_from(out);
    assert_eq!(n.wifi_ssid, "Home");
    assert_eq!(n.signal, 80);
    assert_eq!(n.icon, "󰤨");
}

#[test]
fn nmcli_ssid_with_colons_splits_at_last_colon() {
    let n = network_from("yes:Cafe:Free:Wifi:33\r\n");
    assert_eq!(n.wifi_ssid, "Cafe:Free:Wifi");
    assert_eq!(n.signal, 33);
    assert_eq!(n.icon, "󰤢");
}

#[test]
fn nmcli_bad_signal_is_zero() {
    let n = network_from("yes:Home:strong");
    assert_eq!(n.wifi_ssid, "Home");
    assert_eq!(n.signal, 0);
    assert_eq!(n.icon, "󰤟");
}

#[test]
fn nmcli_disconnected() {
    let n = network_from("no:Neighbour:40\nyes-no-colon\n");
    assert_eq!(n.wifi_ssid, "Disconnected");
    assert_eq!(n.signal, 0);
    assert_eq!(n.icon, "󰤭");
    assert_eq!(network_from("").wifi_ssid, "Disconnected");
}

#[test]
fn nmcli_monitor_events() {
    assert!(is_network_event("wlp3s0: connected"));
    assert!(is_network_event("wlp3s0: disconnected"));
    assert!(is_network_event("wlp3s0: connecting (getting IP configuration)"));
    assert!(is_network_event("Connectivity is now 'full'"));
    assert!(!is_network_event("wlp3s0: using connection 'Home'"));
}

// ── audio ───────────────────────────────────────────────────────────────────

#[test]
fn pactl_volume_and_mute() {
    let vol = "Volume: front-left: 65536 /  100% / 0.00 dB,   front-right: 65536 /  100% / 0.00 dB\n";
    let a = audio_from(vol, "Mute: no\n");
    assert_eq!(a.volume, 100);
    assert!(!a.muted);
    assert!(audio_from("Volume: front-left: 42598 /  65% / -11.23 dB", "Mute: yes").muted);
    assert_eq!(volume_from("Volume: front-left: 42598 /  65% / -11.23 dB"), 65);
}

#[test]
fn pactl_unreadable_volume_is_zero() {
    assert_eq!(volume_from("no slashes here"), 0);
    assert_eq!(volume_from("a / 65 / b"), 0);
    assert_eq!(volume_from("a / 300% / b"), 0);
    assert_eq!(volume_from("a /"), 0);
}

#[test]
fn pactl_sink_change_events() {
    assert!(is_sink_change("Event 'change' on sink #0"));
    assert!(!is_sink_change("Event 'change' on sink-input #12"));
    assert!(!is_sink_change("Event 'new' on sink #0"));
}

#[test]
fn alsa_percent_of_range() {
    assert_eq!(AlsaMonitor::volume_percent(32, 0, 64), 50);
    assert_eq!(AlsaMonitor::volume_percent(5, 5, 5), 0);
    assert_eq!(AlsaMonitor::volume_percent(-30, -60, 0), 50);
}

// ── backlight provider ──────────────────────────────────────────────────────

#[test]
fn backlight_provider_uses_discovered_device() {
    assert!(create_brightness_provider(None).is_none());
    let p = create_brightness_provider(Some("intel_backlight".into())).unwrap();
    assert_eq!(p.device, "intel_backlight");
    assert_eq!(p.path(), "system.brightness");
    assert_eq!(p.device_file("/sys/class/backlight", "max_brightness"), "/sys/class/backlight/intel_backlight/max_brightness");
    assert!(is_backlight_change("UDEV  [1.2] change   /devices/x/backlight/intel_backlight (backlight)"));
    assert!(!is_backlight_change("UDEV  [1.2] add"));
}

// ── controls ────────────────────────────────────────────────────────────────

fn cmd(c: appkit::ewwkit::controls::ControlCommand) -> (String, Vec<String>) {
    (c.program, c.args)
}

#[test]
fn volume_commands() {
    assert_eq!(cmd(volume_up(5)), ("pactl".into(), vec!["set-sink-volume".into(), "@DEFAULT_SINK@".into(), "+5%".into()]));
    assert_eq!(cmd(volume_down(10)), ("pactl".into(), vec!["set-sink-volume".into(), "@DEFAULT_SINK@".into(), "-10%".into()]));
    assert_eq!(cmd(volume_set(0)), ("pactl".into(), vec!["set-sink-volume".into(), "@DEFAULT_SINK@".into(), "0%".into()]));
    assert_eq!(cmd(volume_mute_toggle()), ("pactl".into(), vec!["set-sink-mute".into(), "@DEFAULT_SINK@".into(), "toggle".into()]));
    assert_eq!(cmd(volume_command(VolumeAction::Absolute { percent: 42 })).1[2], "42%");
}

#[test]
fn brightness_commands() {
    assert_eq!(cmd(brightness_up(5)), ("brightnessctl".into(), vec!["set".into(), "+5%".into()]));
    assert_eq!(cmd(brightness_down(15)), ("brightnessctl".into(), vec!["set".into(), "15%-".into()]));
    assert_eq!(cmd(brightness_set(100)), ("brightnessctl".into(), vec!["set".into(), "100%".into()]));
    assert_eq!(cmd(brightness_command(BrightnessAction::Down { step: 1 })).1[1], "1%-");
}
