//! Device readings turned into bar state: battery, Wi-Fi, audio and
//! backlight. The programs and files that produce the readings are run and
//! read by the caller; what they print is interpreted here.

use crate::ewwkit::domain::{AudioState, BatteryState, BrightnessState, NetworkState};
use crate::lines::{find_char, lines, next_char, last_index_of, rfind_char, text_lines};
use crate::text::{
    chars_of, has_prefix, contains_seq, parse_u8, parse_u32, parse_unsigned, slice_chars,
    str_contains, str_eq, str_starts_with, string_of, trim, trim_seq, push_str,
};
use vstd::prelude::*;

verus! {

// ─── Readings ────────────────────────────────────────────────────────────────

/// A sysfs number: the trimmed text parsed as a `u8`, or 0 when it is not one.
pub open spec fn reading_u8(text: Seq<char>) -> u8 {
    match parse_unsigned(trim_seq(text), 255) {
        Some(v) => v as u8,
        None => 0,
    }
}

/// A sysfs number: the trimmed text parsed as a `u32`, or `default` when it
/// is not one.
pub open spec fn reading_u32(text: Seq<char>, default: u32) -> u32 {
    match parse_unsigned(trim_seq(text), u32::MAX as nat) {
        Some(v) => v as u32,
        None => default,
    }
}

fn read_u8(text: &str) -> (r: u8)
    ensures
        r == reading_u8(text@),
{
    let t = trim(chars_of(text).as_slice());
    match parse_u8(t.as_slice()) {
        Some(v) => v,
        None => 0,
    }
}

/// A sysfs number (see [`reading_u32`]).
pub fn sysfs_number(text: &str, default: u32) -> (r: u32)
    ensures
        r == reading_u32(text@, default),
{
    let t = trim(chars_of(text).as_slice());
    match parse_u32(t.as_slice()) {
        Some(v) => v,
        None => default,
    }
}

// ─── Battery ─────────────────────────────────────────────────────────────────

/// Icon of the upower-driven battery provider. Its seven bands (charging,
/// above 90, 70, 50, 30 and 10 percent, the rest) all carry an empty glyph.
pub fn battery_icon(capacity: u8, status: &str) -> (icon: String)
    ensures
        icon@ == Seq::<char>::empty(),
{
    let s = if str_eq(status, "Charging") {
        ""
    } else if capacity > 90 {
        ""
    } else if capacity > 70 {
        ""
    } else if capacity > 50 {
        ""
    } else if capacity > 30 {
        ""
    } else if capacity > 10 {
        ""
    } else {
        ""
    };
    proof {
        reveal_strlit("");
    }
    s.to_owned()
}

/// Battery state from the `capacity` and `status` files of a power supply:
/// the capacity parsed (0 when unreadable), the status trimmed.
pub fn battery_reading(capacity_text: &str, status_text: &str) -> (b: BatteryState)
    ensures
        b.level == reading_u8(capacity_text@),
        b.status@ == trim_seq(status_text@),
        b.icon@ == Seq::<char>::empty(),
{
    let level = read_u8(capacity_text);
    let status = string_of(trim(chars_of(status_text).as_slice()).as_slice());
    let icon = battery_icon(level, status.as_str());
    BatteryState { level, status, icon }
}

/// Glyph of the sysfs battery adapter: charging, then bands above 90, 70,
/// 50, 30 and 10 percent.
pub open spec fn sysfs_battery_glyph(capacity: u8, status: Seq<char>) -> Seq<char> {
    if status == "Charging"@ {
        ""@
    } else if capacity > 90 {
        ""@
    } else if capacity > 70 {
        ""@
    } else if capacity > 50 {
        ""@
    } else if capacity > 30 {
        ""@
    } else if capacity > 10 {
        ""@
    } else {
        ""@
    }
}

/// The battery files live at `/sys/class/power_supply/<name>/<file>`.
pub open spec fn power_supply_path(name: Seq<char>, file: Seq<char>) -> Seq<char> {
    "/sys/class/power_supply/"@ + name + "/"@ + file
}

fn power_supply_file(name: &str, file: &str) -> (p: String)
    ensures
        p@ == power_supply_path(name@, file@),
{
    let mut v = chars_of("/sys/class/power_supply/");
    push_str(&mut v, name);
    push_str(&mut v, "/");
    push_str(&mut v, file);
    string_of(v.as_slice())
}

/// Reads the battery through the sysfs power-supply files.
pub struct SysfsAdapter {
    pub battery_name: String,
}

impl SysfsAdapter {
    pub fn new(battery_name: &str) -> (a: SysfsAdapter)
        ensures
            a.battery_name@ == battery_name@,
    {
        SysfsAdapter { battery_name: battery_name.to_owned() }
    }

    /// Path of one of the battery's files (`capacity`, `status`).
    pub fn battery_file(&self, file: &str) -> (p: String)
        ensures
            p@ == power_supply_path(self.battery_name@, file@),
    {
        power_supply_file(self.battery_name.as_str(), file)
    }

    /// Battery state from the trimmed contents of the `capacity` and
    /// `status` files.
    pub fn battery_from(&self, capacity: &str, status: &str) -> (b: BatteryState)
        ensures
            b.level == reading_u8(capacity@),
            b.status@ == status@,
            b.icon@ == sysfs_battery_glyph(b.level, status@),
    {
        let level = read_u8(capacity);
        let icon = if str_eq(status, "Charging") {
            ""
        } else if level > 90 {
            ""
        } else if level > 70 {
            ""
        } else if level > 50 {
            ""
        } else if level > 30 {
            ""
        } else if level > 10 {
            ""
        } else {
            ""
        };
        BatteryState { level, status: status.to_owned(), icon: icon.to_owned() }
    }
}

/// Battery provider that refreshes on upower events.
pub struct SysfsBatteryProvider {
    pub battery_name: String,
}

impl SysfsBatteryProvider {
    /// Path of one of the battery's files (`capacity`, `status`).
    pub fn battery_file(&self, file: &str) -> (p: String)
        ensures
            p@ == power_supply_path(self.battery_name@, file@),
    {
        power_supply_file(self.battery_name.as_str(), file)
    }
}

/// The battery provider for the battery found, or `BAT0` when none was.
pub fn create_battery_provider(discovered: Option<String>) -> (p: SysfsBatteryProvider)
    ensures
        p.battery_name@ == match discovered {
            Some(n) => n@,
            None => "BAT0"@,
        },
{
    match discovered {
        Some(n) => SysfsBatteryProvider { battery_name: n },
        None => SysfsBatteryProvider { battery_name: "BAT0".to_owned() },
    }
}

/// Whether a line of `upower --monitor` reports a device event: event lines
/// start with a timestamp in brackets.
pub fn is_power_event(line: &str) -> (r: bool)
    ensures
        r == has_prefix(line@, "["@),
{
    str_starts_with(line, "[")
}

// ─── Wi-Fi ───────────────────────────────────────────────────────────────────

/// Glyph for a Wi-Fi signal strength: four bands at 75, 50 and 25.
pub open spec fn wifi_glyph(signal: u8) -> Seq<char> {
    if signal >= 75 {
        "󰤨"@
    } else if signal >= 50 {
        "󰤥"@
    } else if signal >= 25 {
        "󰤢"@
    } else {
        "󰤟"@
    }
}

/// Icon for a Wi-Fi signal strength (see [`wifi_glyph`]).
pub fn wifi_icon(signal: u8) -> (icon: String)
    ensures
        icon@ == wifi_glyph(signal),
{
    let s = if signal >= 75 {
        "󰤨"
    } else if signal >= 50 {
        "󰤥"
    } else if signal >= 25 {
        "󰤢"
    } else {
        "󰤟"
    };
    s.to_owned()
}

/// Whether a line of `nmcli -t -f active,ssid,signal dev wifi` describes the
/// active network: `yes:` then text holding a `:`.
pub open spec fn active_entry(line: Seq<char>) -> bool {
    has_prefix(line, "yes:"@) && last_index_of(line.skip(4), ':') >= 0
}

/// The network an active line describes: the SSID is everything up to the
/// last `:` (SSIDs may hold colons), the signal what follows, 0 when it is
/// not a number.
pub open spec fn active_network(line: Seq<char>) -> (Seq<char>, u8) {
    let rest = line.skip(4);
    let k = last_index_of(rest, ':');
    (
        rest.take(k),
        match parse_unsigned(rest.skip(k + 1), 255) {
            Some(v) => v as u8,
            None => 0,
        },
    )
}

/// The network shown for these lines: the first active one, else
/// `Disconnected` with no signal.
pub open spec fn network_in(lines: Seq<Seq<char>>) -> (Seq<char>, u8, Seq<char>)
    decreases lines.len(),
{
    if lines.len() == 0 {
        ("Disconnected"@, 0u8, "󰤭"@)
    } else if active_entry(lines[0]) {
        let e = active_network(lines[0]);
        (e.0, e.1, wifi_glyph(e.1))
    } else {
        network_in(lines.drop_first())
    }
}

fn active_line(line: &str) -> (r: Option<(String, u8)>)
    ensures
        match r {
            Some((ssid, signal)) => active_entry(line@) && (ssid@, signal) == active_network(line@),
            None => !active_entry(line@),
        },
{
    if !str_starts_with(line, "yes:") {
        return None;
    }
    proof {
        reveal_strlit("yes:");
    }
    let cs = chars_of(line);
    let rest = slice_chars(cs.as_slice(), 4, cs.len());
    assert(rest@ =~= line@.skip(4));
    match rfind_char(rest.as_slice(), ':') {
        None => None,
        Some(k) => {
            let n = rest.len();
            let ssid = slice_chars(rest.as_slice(), 0, k);
            let sig = slice_chars(rest.as_slice(), k + 1, n);
            assert(ssid@ =~= rest@.take(k as int));
            assert(sig@ =~= rest@.skip(k + 1));
            let signal = match parse_u8(sig.as_slice()) {
                Some(v) => v,
                None => 0,
            };
            Some((string_of(ssid.as_slice()), signal))
        },
    }
}

/// The Wi-Fi state from the output of
/// `nmcli -t -f active,ssid,signal dev wifi` (see [`network_in`]).
pub fn network_from(nmcli_output: &str) -> (n: NetworkState)
    ensures
        (n.wifi_ssid@, n.signal, n.icon@) == network_in(text_lines(nmcli_output@)),
{
    let ls = lines(nmcli_output);
    let ghost all = text_lines(nmcli_output@);
    assert(all.skip(0) =~= all);
    let mut i: usize = 0;
    while i < ls.len()
        invariant
            ls@.map_values(|l: String| l@) == all,
            all == text_lines(nmcli_output@),
            i <= ls@.len(),
            network_in(all) == network_in(all.skip(i as int)),
        decreases ls@.len() - i,
    {
        assert(all[i as int] == ls@[i as int]@);
        match active_line(ls[i].as_str()) {
            Some((ssid, signal)) => {
                assert(all.skip(i as int).len() > 0);
                assert(all.skip(i as int)[0] == all[i as int]);
                assert(network_in(all.skip(i as int)) == (ssid@, signal, wifi_glyph(signal)));
                let icon = wifi_icon(signal);
                let n = NetworkState { wifi_ssid: ssid, signal, icon };
                return n;
            },
            None => {
                assert(all.skip(i as int).drop_first() =~= all.skip(i + 1));
            },
        }
        i = i + 1;
    }
    assert(all.skip(i as int) =~= Seq::<Seq<char>>::empty());
    NetworkState { wifi_ssid: "Disconnected".to_owned(), signal: 0, icon: "󰤭".to_owned() }
}

/// Whether a line of `nmcli monitor` reports a change of connection state.
pub fn is_network_event(line: &str) -> (r: bool)
    ensures
        r == (contains_seq(line@, ": connected"@) || contains_seq(line@, ": disconnected"@)
            || contains_seq(line@, ": connecting"@) || has_prefix(line@, "Connectivity is now"@)),
{
    str_contains(line, ": connected") || str_contains(line, ": disconnected") || str_contains(
        line,
        ": connecting",
    ) || str_starts_with(line, "Connectivity is now")
}

/// Wi-Fi provider driven by `nmcli monitor`.
pub struct NmcliWifiProvider;

pub fn create_wifi_provider() -> (p: NmcliWifiProvider) {
    NmcliWifiProvider
}

// ─── Audio ───────────────────────────────────────────────────────────────────

/// The second `/`-separated field of `s`, if there is one
/// (`s.split('/').nth(1)`).
pub open spec fn second_field(s: Seq<char>) -> Option<Seq<char>> {
    let a = next_char(s, 0, '/');
    if a < s.len() {
        Some(s.subrange(a + 1, next_char(s, a + 1, '/')))
    } else {
        None
    }
}

/// The volume in `pactl get-sink-volume` output: the second `/` field,
/// trimmed, ending in `%`, the rest trimmed and parsed; 0 otherwise.
pub open spec fn volume_in(s: Seq<char>) -> u8 {
    match second_field(s) {
        Some(f) => {
            let t = trim_seq(f);
            if t.len() > 0 && t.last() == '%' {
                match parse_unsigned(trim_seq(t.drop_last()), 255) {
                    Some(v) => v as u8,
                    None => 0,
                }
            } else {
                0
            }
        },
        None => 0,
    }
}

/// The volume shown in `pactl get-sink-volume` output (see [`volume_in`]).
pub fn volume_from(text: &str) -> (v: u8)
    ensures
        v == volume_in(text@),
{
    let s = chars_of(text);
    let a = find_char(s.as_slice(), 0, '/');
    if a >= s.len() {
        return 0;
    }
    proof {
        crate::lines::lemma_next_char_bounds(s@, a + 1, '/');
    }
    let b = find_char(s.as_slice(), a + 1, '/');
    let f = slice_chars(s.as_slice(), a + 1, b);
    let t = trim(f.as_slice());
    if t.len() == 0 || t[t.len() - 1] != '%' {
        return 0;
    }
    let body = slice_chars(t.as_slice(), 0, t.len() - 1);
    assert(body@ =~= t@.drop_last());
    let n = trim(body.as_slice());
    match parse_u8(n.as_slice()) {
        Some(v) => v,
        None => 0,
    }
}

/// Audio state from the outputs of `pactl get-sink-volume` and
/// `pactl get-sink-mute`: muted when the latter holds `yes`.
pub fn audio_from(volume_text: &str, mute_text: &str) -> (a: AudioState)
    ensures
        a.volume == volume_in(volume_text@),
        a.muted == contains_seq(mute_text@, "yes"@),
{
    AudioState { volume: volume_from(volume_text), muted: str_contains(mute_text, "yes") }
}

/// Whether a line of `pactl subscribe` reports a change on a sink (the space
/// before `sink #` leaves out sink-input events).
pub fn is_sink_change(line: &str) -> (r: bool)
    ensures
        r == (contains_seq(line@, "'change'"@) && contains_seq(line@, " on sink #"@)),
{
    str_contains(line, "'change'") && str_contains(line, " on sink #")
}

/// Audio provider driven by `pactl subscribe`.
pub struct PactlMonitor;

/// Audio provider reading the ALSA `Master` mixer.
pub struct AlsaMonitor;

/// The audio provider in use.
pub fn create_monitor() -> (p: PactlMonitor) {
    PactlMonitor
}

/// Rust's integer division, rounding toward zero.
pub open spec fn div_toward_zero(a: int, b: int) -> int {
    if a >= 0 {
        a / b
    } else {
        -((-a) / b)
    }
}

impl AlsaMonitor {
    /// Mixer volume in percent of its range: `(raw - min) * 100 / (max - min)`
    /// cast to `u8`, or 0 for an empty range.
    pub fn volume_percent(raw: i64, min: i64, max: i64) -> (v: u8)
        requires
            max > min ==> i64::MIN <= (raw - min) * 100 <= i64::MAX && max - min <= i64::MAX,
        ensures
            v == (if max > min {
                div_toward_zero((raw - min) * 100, max - min) as u8
            } else {
                0u8
            }),
    {
        if max > min {
            let num: i64 = (raw - min) * 100;
            let den: i64 = max - min;
            let q: i64 = if num >= 0 {
                num / den
            } else {
                -((-num) / den)
            };
            q as u8
        } else {
            0
        }
    }
}

// ─── Backlight ───────────────────────────────────────────────────────────────


/// Glyph shown for a screen brightness percentage.
pub open spec fn brightness_glyph(level: u8) -> Seq<char> {
    if level >= 75 {
        "󰃠"@
    } else if level >= 50 {
        "󰃟"@
    } else if level >= 25 {
        "󰃞"@
    } else {
        "󰃝"@
    }
}

/// Icon for a brightness level: four bands at 75, 50 and 25 percent.
pub fn brightness_icon(level: u8) -> (icon: String)
    ensures
        icon@ == brightness_glyph(level),
{
    let s = if level >= 75 {
        "󰃠"
    } else if level >= 50 {
        "󰃟"
    } else if level >= 25 {
        "󰃞"
    } else {
        "󰃝"
    };
    s.to_owned()
}


/// Brightness percent from raw and maximum values, capped at 100; 0 when
/// the maximum is 0.
pub open spec fn level_of(raw: u32, max: u32) -> u8 {
    if max > 0 {
        let p = (raw * 100) / (max as int);
        if p > 100 {
            100u8
        } else {
            p as u8
        }
    } else {
        0u8
    }
}

/// Brightness percent (see [`level_of`]). The product `raw * 100` is
/// computed in 32 bits, so it must fit there.
pub fn brightness_level(raw: u32, max: u32) -> (l: u8)
    requires
        max > 0 ==> raw * 100 <= u32::MAX,
    ensures
        l == level_of(raw, max),
{
    if max > 0 {
        let p = (raw * 100) / max;
        if p > 100 {
            100
        } else {
            p as u8
        }
    } else {
        0
    }
}

/// Brightness state from the `brightness` and `max_brightness` files: the
/// raw value (0 when unreadable) over the maximum (1 when unreadable).
pub fn brightness_reading(raw_text: &str, max_text: &str) -> (b: BrightnessState)
    requires
        reading_u32(max_text@, 1) > 0 ==> reading_u32(raw_text@, 0) * 100 <= u32::MAX,
    ensures
        b.level == level_of(reading_u32(raw_text@, 0), reading_u32(max_text@, 1)),
        b.icon@ == brightness_glyph(b.level),
{
    let raw = sysfs_number(raw_text, 0);
    let max = sysfs_number(max_text, 1);
    let level = brightness_level(raw, max);
    BrightnessState { level, icon: brightness_icon(level) }
}

/// Backlight provider driven by `udevadm monitor`.
pub struct SysfsBacklightProvider {
    pub device: String,
}

impl SysfsBacklightProvider {
    /// Where the provider's state goes in the bar's variables.
    pub fn path(&self) -> (p: &'static str)
        ensures
            p@ == "system.brightness"@,
    {
        "system.brightness"
    }

    /// `<base>/<device>/<file>`.
    pub fn device_file(&self, base: &str, file: &str) -> (p: String)
        ensures
            p@ == base@ + "/"@ + self.device@ + "/"@ + file@,
    {
        let mut v = chars_of(base);
        push_str(&mut v, "/");
        push_str(&mut v, self.device.as_str());
        push_str(&mut v, "/");
        push_str(&mut v, file);
        string_of(v.as_slice())
    }
}

/// The backlight provider for the first backlight device found, if any.
pub fn create_brightness_provider(discovered: Option<String>) -> (p: Option<SysfsBacklightProvider>)
    ensures
        match discovered {
            Some(d) => p is Some && p.unwrap().device@ == d@,
            None => p is None,
        },
{
    match discovered {
        Some(device) => Some(SysfsBacklightProvider { device }),
        None => None,
    }
}

/// Whether a line of `udevadm monitor` reports a change.
pub fn is_backlight_change(line: &str) -> (r: bool)
    ensures
        r == contains_seq(line@, "change"@),
{
    str_contains(line, "change")
}

} // verus!
