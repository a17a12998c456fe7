//! The power button of the bar: the commands behind its actions, and the
//! sub-menu that opens on a click and collapses by itself.

use crate::config::str_eq;
use crate::timer::{ArmOutcome, DebouncedTimer, TimerHandle, TimerModel};
use vstd::prelude::*;
use vstd::string::*;

verus! {

/// The power widget of the bar.
pub struct PowerModule;

/// Time after which the open sub-menu collapses, in milliseconds.
pub const COLLAPSE_AFTER_MS: u64 = 5000;

/// A command to run: the program and its arguments.
#[derive(Debug)]
pub struct PowerCommand {
    pub program: String,
    pub args: Vec<String>,
}

/// A [`PowerCommand`] as a mathematical value.
pub struct PowerCommandView {
    pub program: Seq<char>,
    pub args: Seq<Seq<char>>,
}

impl View for PowerCommand {
    type V = PowerCommandView;

    open spec fn view(&self) -> PowerCommandView {
        PowerCommandView {
            program: self.program@,
            args: Seq::new(self.args@.len(), |i: int| self.args@[i]@),
        }
    }
}

/// The command behind an action: logging out asks the window manager to
/// exit, every other action is handed to the service manager under its
/// own name.
pub open spec fn command_for(action: Seq<char>) -> PowerCommandView {
    if action == "logout"@ {
        PowerCommandView { program: "hyprctl"@, args: seq!["dispatch"@, "exit"@] }
    } else {
        PowerCommandView { program: "systemctl"@, args: seq![action] }
    }
}

impl PowerModule {
    /// The command behind the action `cmd`.
    pub fn run_cmd(cmd: &str) -> (command: PowerCommand)
        ensures
            command@ == command_for(cmd@),
    {
        let mut args: Vec<String> = Vec::new();
        if str_eq(cmd, "logout") {
            args.push(String::from_str("dispatch"));
            args.push(String::from_str("exit"));
            let command = PowerCommand { program: String::from_str("hyprctl"), args };
            assert(command@.args =~= seq!["dispatch"@, "exit"@]);
            command
        } else {
            args.push(String::from_str(cmd));
            let command = PowerCommand { program: String::from_str("systemctl"), args };
            assert(command@.args =~= seq![cmd@]);
            command
        }
    }
}

/// The sub-menu with the power actions.
pub struct PowerMenu {
    open: bool,
    timer: DebouncedTimer,
}

/// A [`PowerMenu`] as a mathematical value.
pub struct PowerMenuView {
    pub open: bool,
    pub timer: TimerModel,
}

impl View for PowerMenu {
    type V = PowerMenuView;

    closed spec fn view(&self) -> PowerMenuView {
        PowerMenuView { open: self.open, timer: self.timer@ }
    }
}

impl PowerMenuView {
    /// The menu after a click on the power button at `now_ms`: an open
    /// menu closes and leaves its timer alone; a closed one opens, with a
    /// new timer that replaces the one that was pending.
    pub open spec fn toggled(self, now_ms: u64) -> PowerMenuView {
        if self.open {
            PowerMenuView { open: false, timer: self.timer }
        } else {
            PowerMenuView { open: true, timer: self.timer.arm(now_ms, COLLAPSE_AFTER_MS) }
        }
    }

    /// The menu after the timeout of `handle`: closed where the handle
    /// was the pending one, else as before.
    pub open spec fn timed_out(self, handle: TimerHandle) -> PowerMenuView {
        if self.timer.fires(handle) {
            PowerMenuView { open: false, timer: self.timer.cleared() }
        } else {
            self
        }
    }
}

/// A menu that was closed by hand and opened again stays open when the
/// timer of the first opening runs out: only the timer of the last
/// opening closes it, five seconds after that opening.
pub proof fn lemma_reopened_menu_stays_open(menu: PowerMenuView, first_ms: u64, second_ms: u64)
    requires
        !menu.open,
    ensures
        ({
            let h1 = menu.timer.handle_for(first_ms, COLLAPSE_AFTER_MS);
            let opened = menu.toggled(first_ms);
            let closed = opened.toggled(second_ms);
            let h2 = closed.timer.handle_for(second_ms, COLLAPSE_AFTER_MS);
            let reopened = closed.toggled(second_ms);
            &&& opened.open
            &&& !closed.open
            &&& reopened.open
            &&& reopened.timed_out(h1) == reopened
            &&& !reopened.timed_out(h2).open
            &&& h2.deadline_ms == crate::timer::deadline_after(second_ms, 5000)
        }),
{
    crate::timer::lemma_rearm_fires_once(
        menu.timer,
        first_ms,
        second_ms,
        COLLAPSE_AFTER_MS,
        COLLAPSE_AFTER_MS,
    );
}

impl PowerMenu {
    /// A closed menu.
    pub fn new() -> (menu: Self)
        ensures
            menu@ == (PowerMenuView {
                open: false,
                timer: TimerModel { pending: None, next_id: 0 },
            }),
    {
        PowerMenu { open: false, timer: DebouncedTimer::new() }
    }

    /// Whether the menu is open.
    pub fn is_open(&self) -> (open: bool)
        ensures
            open == self@.open,
    {
        self.open
    }

    /// A click on the power button at `now_ms`.  Where the menu opens,
    /// the new timer is returned with the one it replaced.
    pub fn toggle(&mut self, now_ms: u64) -> (armed: Option<ArmOutcome>)
        ensures
            final(self)@ == old(self)@.toggled(now_ms),
            match armed {
                Some(out) => !old(self)@.open && out.armed == old(self)@.timer.handle_for(
                    now_ms,
                    COLLAPSE_AFTER_MS,
                ) && out.cancelled == old(self)@.timer.pending,
                None => old(self)@.open,
            },
    {
        if self.open {
            self.open = false;
            None
        } else {
            self.open = true;
            Some(self.timer.arm(now_ms, COLLAPSE_AFTER_MS))
        }
    }

    /// Reports the timeout of `handle`.  Returns whether it took effect.
    pub fn on_timeout(&mut self, handle: TimerHandle) -> (collapsed: bool)
        ensures
            collapsed == old(self)@.timer.fires(handle),
            final(self)@ == old(self)@.timed_out(handle),
    {
        let run = self.timer.on_fire(handle);
        if run {
            self.open = false;
        }
        run
    }
}

} // verus!
