//! The popup manager: at most one popup open at a time, optionally closing
//! itself once its timeout has elapsed.

use crate::ewwkit::domain::{PopupState, PopupView};
use std::time::Instant;
use vstd::prelude::*;

verus! {

#[verifier::external_type_specification]
#[verifier::external_body]
pub struct ExInstant(Instant);

/// `Instant::now`: a reading of the monotonic clock. Nothing is claimed of it.
#[verifier::external_body]
fn monotonic_now() -> Instant {
    Instant::now()
}

/// `Instant::elapsed` in whole milliseconds. The value depends on the clock,
/// so nothing is claimed of it.
#[verifier::external_body]
fn elapsed_millis(start: &Instant) -> u64 {
    start.elapsed().as_millis() as u64
}

/// `SystemTime::now` as milliseconds since the Unix epoch (0 before the
/// epoch). The value depends on the clock, so nothing is claimed of it.
#[verifier::external_body]
fn system_millis() -> u64 {
    std::time::SystemTime::now().duration_since(std::time::UNIX_EPOCH).unwrap_or_default().as_millis() as u64
}

/// What the manager is asked to do.
#[derive(Debug)]
pub enum PopupAction {
    /// Show popup `name` on `output`, replacing any open popup; it closes
    /// itself after `timeout_ms` milliseconds when that is given.
    Open { name: String, output: String, timeout_ms: Option<u64> },
    /// Close the open popup, if any.
    Close,
}

struct InternalPopup {
    name: String,
    output: String,
    opened_at: Instant,
    timeout_ms: Option<u64>,
    system_start_time: u64,
}

/// Keeps track of the single popup that may be open.
pub struct PopupManager {
    current_popup: Option<InternalPopup>,
}

impl View for PopupManager {
    type V = Option<PopupView>;

    closed spec fn view(&self) -> Option<PopupView> {
        match self.current_popup {
            Some(p) => Some(
                PopupView {
                    name: p.name@,
                    output: p.output@,
                    opened_at: p.system_start_time,
                    timeout_ms: p.timeout_ms,
                },
            ),
            None => None,
        }
    }
}

impl PopupManager {
    /// A manager with no popup open.
    pub fn new() -> (pm: PopupManager)
        ensures
            pm@ is None,
    {
        PopupManager { current_popup: None }
    }

    /// Opens or closes a popup. Opening records the current wall-clock time
    /// as the popup's opening time.
    pub fn handle_action(&mut self, action: PopupAction)
        ensures
            match action {
                PopupAction::Open { name, output, timeout_ms } => {
                    &&& final(self)@ is Some
                    &&& final(self)@.unwrap().name == name@
                    &&& final(self)@.unwrap().output == output@
                    &&& final(self)@.unwrap().timeout_ms == timeout_ms
                },
                PopupAction::Close => final(self)@ is None,
            },
    {
        match action {
            PopupAction::Open { name, output, timeout_ms } => {
                let now = monotonic_now();
                let system_now = system_millis();
                self.current_popup = Some(
                    InternalPopup {
                        name,
                        output,
                        opened_at: now,
                        timeout_ms,
                        system_start_time: system_now,
                    },
                );
            },
            PopupAction::Close => {
                self.current_popup = None;
            },
        }
    }

    /// Closes the popup when it has a timeout and `elapsed_ms` milliseconds
    /// have reached it; otherwise leaves the manager unchanged.
    pub fn expire_after(&mut self, elapsed_ms: u64)
        ensures
            match old(self)@ {
                Some(p) => match p.timeout_ms {
                    Some(t) => if elapsed_ms >= t {
                        final(self)@ is None
                    } else {
                        final(self)@ == old(self)@
                    },
                    None => final(self)@ == old(self)@,
                },
                None => final(self)@ is None,
            },
    {
        let expired = match &self.current_popup {
            Some(p) => match p.timeout_ms {
                Some(t) => elapsed_ms >= t,
                None => false,
            },
            None => false,
        };
        if expired {
            self.current_popup = None;
        }
    }

    /// Closes the popup if its timeout has elapsed since it opened.
    ///
    /// The elapsed time comes from the monotonic clock, so the result is only
    /// partly determined: a popup without timeout stays open, one with a zero
    /// timeout closes, and otherwise the popup either stays as it was or closes.
    pub fn check_timeouts(&mut self)
        ensures
            final(self)@ == old(self)@ || (final(self)@ is None && old(self)@ is Some
                && old(self)@.unwrap().timeout_ms is Some),
            old(self)@ is Some && old(self)@.unwrap().timeout_ms == Some(0u64) ==> final(self)@ is None,
            old(self)@ is Some && old(self)@.unwrap().timeout_ms is None ==> final(self)@ == old(self)@,
    {
        let elapsed = match &self.current_popup {
            Some(p) => elapsed_millis(&p.opened_at),
            None => 0,
        };
        self.expire_after(elapsed);
    }

    /// The open popup, as widgets read it.
    pub fn get_state(&self) -> (r: Option<PopupState>)
        ensures
            match r {
                Some(s) => self@ == Some(s@),
                None => self@ is None,
            },
    {
        match &self.current_popup {
            Some(p) => Some(
                PopupState {
                    name: p.name.clone(),
                    output: p.output.clone(),
                    opened_at: p.system_start_time,
                    timeout_ms: p.timeout_ms,
                },
            ),
            None => None,
        }
    }
}

} // verus!
