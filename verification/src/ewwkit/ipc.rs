//! Messages sent to the running daemon over its socket, the command line
//! that produces them, and the daemon's configuration.

use vstd::prelude::*;

verus! {

/// Volume change requested over IPC.
#[derive(Debug, Clone, Copy, PartialEq, Eq, Structural)]
pub enum VolumeAction {
    Up { step: u8 },
    Down { step: u8 },
    Absolute { percent: u8 },
    Mute,
}

/// Brightness change requested over IPC.
#[derive(Debug, Clone, Copy, PartialEq, Eq, Structural)]
pub enum BrightnessAction {
    Up { step: u8 },
    Down { step: u8 },
    Absolute { percent: u8 },
}

/// Wire message sent over the IPC socket (the daemon receives, the client sends).
#[derive(Debug)]
pub enum IpcMessage {
    Popup { name: String, output: Option<String>, keep: bool },
    ClosePopup,
    GetState,
    Volume(VolumeAction),
    Brightness(BrightnessAction),
}

/// `ewwkit action volume <subcommand>`.
#[derive(Debug, Clone, Copy, PartialEq, Eq, Structural)]
pub enum VolumeCommands {
    /// Increase volume by step percent.
    Up { step: Option<u8> },
    /// Decrease volume by step percent.
    Down { step: Option<u8> },
    /// Set volume to an absolute percentage (0–100).
    Absolute { percent: u8 },
    /// Toggle mute.
    Mute,
}

/// `ewwkit action brightness <subcommand>`.
#[derive(Debug, Clone, Copy, PartialEq, Eq, Structural)]
pub enum BrightnessCommands {
    /// Increase brightness by step percent.
    Up { step: Option<u8> },
    /// Decrease brightness by step percent.
    Down { step: Option<u8> },
    /// Set brightness to an absolute percentage (0–100).
    Absolute { percent: u8 },
}

/// `ewwkit action <subcommand>`.
#[allow(inconsistent_fields)]
#[derive(Debug)]
pub enum ActionCommands {
    /// Open a popup.
    Popup { name: String, output: Option<String>, keep: bool },
    /// Close the current popup.
    ClosePopup,
    /// Control audio volume.
    Volume { action: VolumeCommands },
    /// Control screen brightness.
    Brightness { action: BrightnessCommands },
}

/// Top-level subcommands.
#[derive(Debug)]
pub enum Commands {
    /// Start the monitoring daemon.
    Daemon,
    /// Send an action to the running daemon.
    Action { action: ActionCommands },
    /// Print the current desktop state.
    Desktop,
}

/// The parsed command line.
#[derive(Debug)]
pub struct Cli {
    pub command: Commands,
}

/// Popup settings.
#[derive(Debug, Clone, Copy, PartialEq, Eq, Structural)]
pub struct PopupsConfig {
    /// How long an auto-dismissing popup stays open, in milliseconds.
    pub timeout_ms: u64,
    pub exclusivity: bool,
}

/// Where the compositor's socket is, when configured.
#[derive(Debug)]
pub struct NiriConfig {
    pub socket_path: Option<String>,
}

/// Where the daemon listens.
#[derive(Debug)]
pub struct IpcConfig {
    pub socket_path: String,
}

/// Default steps for relative volume and brightness changes.
#[derive(Debug, Clone, Copy, PartialEq, Eq, Structural)]
pub struct ControlsConfig {
    pub volume_step: u8,
    pub brightness_step: u8,
}

/// The daemon's configuration.
#[derive(Debug)]
pub struct AppConfig {
    pub popups: PopupsConfig,
    pub niri: NiriConfig,
    pub ipc: IpcConfig,
    pub controls: ControlsConfig,
}

impl AppConfig {
    /// The settings when no file or variable overrides them: popups close
    /// after 3 s and exclude each other, the compositor socket is found at
    /// run time, the daemon listens on `/tmp/ewwkit.sock`, and relative
    /// changes move by 5 percent.
    pub fn defaults() -> (c: AppConfig)
        ensures
            c.popups.timeout_ms == 3000,
            c.popups.exclusivity,
            c.niri.socket_path is None,
            c.ipc.socket_path@ == "/tmp/ewwkit.sock"@,
            c.controls.volume_step == 5,
            c.controls.brightness_step == 5,
    {
        AppConfig {
            popups: PopupsConfig { timeout_ms: 3000, exclusivity: true },
            niri: NiriConfig { socket_path: None },
            ipc: IpcConfig { socket_path: "/tmp/ewwkit.sock".to_owned() },
            controls: ControlsConfig { volume_step: 5, brightness_step: 5 },
        }
    }
}

/// The optional settings files read in order: `config/default`, then the
/// one for the run mode (`RUN_MODE`, default `development`); variables
/// prefixed `EWWKIT_` override both.
pub fn config_files(run_mode: Option<String>) -> (r: Vec<String>)
    ensures
        r@.len() == 2,
        r@[0]@ == "config/default"@,
        r@[1]@ == "config/"@ + match run_mode {
            Some(m) => m@,
            None => "development"@,
        },
{
    let mode = match run_mode {
        Some(m) => m,
        None => "development".to_owned(),
    };
    let mut r: Vec<String> = Vec::new();
    r.push("config/default".to_owned());
    r.push(crate::text::concat("config/", mode.as_str()));
    r
}

/// The volume message for a command, with `default_step` where none is given.
pub open spec fn volume_message(c: VolumeCommands, default_step: u8) -> VolumeAction {
    match c {
        VolumeCommands::Up { step } => VolumeAction::Up { step: step.unwrap_or(default_step) },
        VolumeCommands::Down { step } => VolumeAction::Down { step: step.unwrap_or(default_step) },
        VolumeCommands::Absolute { percent } => VolumeAction::Absolute { percent },
        VolumeCommands::Mute => VolumeAction::Mute,
    }
}

/// The brightness message for a command, with `default_step` where none is given.
pub open spec fn brightness_message(c: BrightnessCommands, default_step: u8) -> BrightnessAction {
    match c {
        BrightnessCommands::Up { step } => BrightnessAction::Up {
            step: step.unwrap_or(default_step),
        },
        BrightnessCommands::Down { step } => BrightnessAction::Down {
            step: step.unwrap_or(default_step),
        },
        BrightnessCommands::Absolute { percent } => BrightnessAction::Absolute { percent },
    }
}

/// The message the client sends for an `action` subcommand.
pub fn action_message(config: &AppConfig, action: ActionCommands) -> (msg: IpcMessage)
    ensures
        match action {
            ActionCommands::Popup { name, output, keep } => msg == (IpcMessage::Popup {
                name,
                output,
                keep,
            }),
            ActionCommands::ClosePopup => msg is ClosePopup,
            ActionCommands::Volume { action } => msg == IpcMessage::Volume(
                volume_message(action, config.controls.volume_step),
            ),
            ActionCommands::Brightness { action } => msg == IpcMessage::Brightness(
                brightness_message(action, config.controls.brightness_step),
            ),
        },
{
    match action {
        ActionCommands::Popup { name, output, keep } => IpcMessage::Popup { name, output, keep },
        ActionCommands::ClosePopup => IpcMessage::ClosePopup,
        ActionCommands::Volume { action } => IpcMessage::Volume(
            match action {
                VolumeCommands::Up { step } => VolumeAction::Up {
                    step: match step {
                        Some(s) => s,
                        None => config.controls.volume_step,
                    },
                },
                VolumeCommands::Down { step } => VolumeAction::Down {
                    step: match step {
                        Some(s) => s,
                        None => config.controls.volume_step,
                    },
                },
                VolumeCommands::Absolute { percent } => VolumeAction::Absolute { percent },
                VolumeCommands::Mute => VolumeAction::Mute,
            },
        ),
        ActionCommands::Brightness { action } => IpcMessage::Brightness(
            match action {
                BrightnessCommands::Up { step } => BrightnessAction::Up {
                    step: match step {
                        Some(s) => s,
                        None => config.controls.brightness_step,
                    },
                },
                BrightnessCommands::Down { step } => BrightnessAction::Down {
                    step: match step {
                        Some(s) => s,
                        None => config.controls.brightness_step,
                    },
                },
                BrightnessCommands::Absolute { percent } => BrightnessAction::Absolute { percent },
            },
        ),
    }
}

} // verus!
