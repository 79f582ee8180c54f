//! The commands that change volume and brightness. The caller runs them;
//! the audio and backlight watchers report the new state.

use crate::ewwkit::ipc::{BrightnessAction, VolumeAction};
use crate::text::{chars_of, dec, decimal, push_chars, push_str, string_of};
use crate::unicode::strings_view;
use vstd::prelude::*;

verus! {

/// A program to run with its arguments.
#[derive(Debug)]
pub struct ControlCommand {
    pub program: String,
    pub args: Vec<String>,
}

/// The command as plain text: program and arguments.
pub open spec fn command_view(c: ControlCommand) -> (Seq<char>, Seq<Seq<char>>) {
    (c.program@, strings_view(c.args@))
}

/// `<sign><n>%` or `<n>%<suffix>`.
fn percent_arg(prefix: &str, n: u8, suffix: &str) -> (r: String)
    ensures
        r@ == prefix@ + dec(n as nat) + "%"@ + suffix@,
{
    let mut v = chars_of(prefix);
    let d = decimal(n as u64);
    push_chars(&mut v, d.as_slice());
    push_str(&mut v, "%");
    push_str(&mut v, suffix);
    string_of(v.as_slice())
}

fn command(program: &str, args: Vec<String>) -> (c: ControlCommand)
    ensures
        c.program@ == program@,
        c.args@ == args@,
{
    ControlCommand { program: program.to_owned(), args }
}

fn pactl(verb: &str, last: String) -> (c: ControlCommand)
    ensures
        command_view(c) == ("pactl"@, seq![verb@, "@DEFAULT_SINK@"@, last@]),
{
    let mut args: Vec<String> = Vec::new();
    args.push(verb.to_owned());
    args.push("@DEFAULT_SINK@".to_owned());
    args.push(last);
    let c = command("pactl", args);
    assert(strings_view(c.args@) =~= seq![verb@, "@DEFAULT_SINK@"@, c.args@[2]@]);
    c
}

fn brightnessctl(value: String) -> (c: ControlCommand)
    ensures
        command_view(c) == ("brightnessctl"@, seq!["set"@, value@]),
{
    let mut args: Vec<String> = Vec::new();
    args.push("set".to_owned());
    args.push(value);
    let c = command("brightnessctl", args);
    assert(strings_view(c.args@) =~= seq!["set"@, c.args@[1]@]);
    c
}

/// `pactl set-sink-volume @DEFAULT_SINK@ +<step>%`.
pub fn volume_up(step: u8) -> (c: ControlCommand)
    ensures
        command_view(c) == ("pactl"@, seq!["set-sink-volume"@, "@DEFAULT_SINK@"@, "+"@ + dec(step as nat) + "%"@]),
{
    let a = percent_arg("+", step, "");
    proof {
        reveal_strlit("");
    }
    assert(a@ =~= "+"@ + dec(step as nat) + "%"@);
    pactl("set-sink-volume", a)
}

/// `pactl set-sink-volume @DEFAULT_SINK@ -<step>%`.
pub fn volume_down(step: u8) -> (c: ControlCommand)
    ensures
        command_view(c) == ("pactl"@, seq!["set-sink-volume"@, "@DEFAULT_SINK@"@, "-"@ + dec(step as nat) + "%"@]),
{
    let a = percent_arg("-", step, "");
    proof {
        reveal_strlit("");
    }
    assert(a@ =~= "-"@ + dec(step as nat) + "%"@);
    pactl("set-sink-volume", a)
}

/// `pactl set-sink-volume @DEFAULT_SINK@ <percent>%`.
pub fn volume_set(percent: u8) -> (c: ControlCommand)
    ensures
        command_view(c) == ("pactl"@, seq!["set-sink-volume"@, "@DEFAULT_SINK@"@, dec(percent as nat) + "%"@]),
{
    let a = percent_arg("", percent, "");
    proof {
        reveal_strlit("");
    }
    assert(a@ =~= dec(percent as nat) + "%"@);
    pactl("set-sink-volume", a)
}

/// `pactl set-sink-mute @DEFAULT_SINK@ toggle`.
pub fn volume_mute_toggle() -> (c: ControlCommand)
    ensures
        command_view(c) == ("pactl"@, seq!["set-sink-mute"@, "@DEFAULT_SINK@"@, "toggle"@]),
{
    pactl("set-sink-mute", "toggle".to_owned())
}

/// `brightnessctl set +<step>%`.
pub fn brightness_up(step: u8) -> (c: ControlCommand)
    ensures
        command_view(c) == ("brightnessctl"@, seq!["set"@, "+"@ + dec(step as nat) + "%"@]),
{
    let a = percent_arg("+", step, "");
    proof {
        reveal_strlit("");
    }
    assert(a@ =~= "+"@ + dec(step as nat) + "%"@);
    brightnessctl(a)
}

/// `brightnessctl set <step>%-`.
pub fn brightness_down(step: u8) -> (c: ControlCommand)
    ensures
        command_view(c) == ("brightnessctl"@, seq!["set"@, dec(step as nat) + "%-"@]),
{
    let a = percent_arg("", step, "-");
    proof {
        reveal_strlit("");
        reveal_strlit("%");
        reveal_strlit("-");
        reveal_strlit("%-");
    }
    assert(a@ =~= dec(step as nat) + "%-"@);
    brightnessctl(a)
}

/// `brightnessctl set <percent>%`.
pub fn brightness_set(percent: u8) -> (c: ControlCommand)
    ensures
        command_view(c) == ("brightnessctl"@, seq!["set"@, dec(percent as nat) + "%"@]),
{
    let a = percent_arg("", percent, "");
    proof {
        reveal_strlit("");
    }
    assert(a@ =~= dec(percent as nat) + "%"@);
    brightnessctl(a)
}

/// The command for a volume request.
pub open spec fn volume_command_for(action: VolumeAction) -> (Seq<char>, Seq<Seq<char>>) {
    match action {
        VolumeAction::Up { step } => ("pactl"@, seq!["set-sink-volume"@, "@DEFAULT_SINK@"@, "+"@ + dec(step as nat) + "%"@]),
        VolumeAction::Down { step } => ("pactl"@, seq!["set-sink-volume"@, "@DEFAULT_SINK@"@, "-"@ + dec(step as nat) + "%"@]),
        VolumeAction::Absolute { percent } => ("pactl"@, seq!["set-sink-volume"@, "@DEFAULT_SINK@"@, dec(percent as nat) + "%"@]),
        VolumeAction::Mute => ("pactl"@, seq!["set-sink-mute"@, "@DEFAULT_SINK@"@, "toggle"@]),
    }
}

/// The command that carries out a volume request.
pub fn volume_command(action: VolumeAction) -> (c: ControlCommand)
    ensures
        command_view(c) == volume_command_for(action),
{
    match action {
        VolumeAction::Up { step } => volume_up(step),
        VolumeAction::Down { step } => volume_down(step),
        VolumeAction::Absolute { percent } => volume_set(percent),
        VolumeAction::Mute => volume_mute_toggle(),
    }
}

/// The command for a brightness request.
pub open spec fn brightness_command_for(action: BrightnessAction) -> (Seq<char>, Seq<Seq<char>>) {
    match action {
        BrightnessAction::Up { step } => ("brightnessctl"@, seq!["set"@, "+"@ + dec(step as nat) + "%"@]),
        BrightnessAction::Down { step } => ("brightnessctl"@, seq!["set"@, dec(step as nat) + "%-"@]),
        BrightnessAction::Absolute { percent } => ("brightnessctl"@, seq!["set"@, dec(percent as nat) + "%"@]),
    }
}

/// The command that carries out a brightness request.
pub fn brightness_command(action: BrightnessAction) -> (c: ControlCommand)
    ensures
        command_view(c) == brightness_command_for(action),
{
    match action {
        BrightnessAction::Up { step } => brightness_up(step),
        BrightnessAction::Down { step } => brightness_down(step),
        BrightnessAction::Absolute { percent } => brightness_set(percent),
    }
}

} // verus!
