//! Keys, and what they mean to the application.

use vstd::prelude::*;

verus! {

/// A key.
#[derive(Clone, Copy, PartialEq, Eq, Structural, Debug)]
pub enum KeyCode {
    Char(char),
    Enter,
    Esc,
    Tab,
    BackTab,
    Backspace,
    Delete,
    Left,
    Right,
    Up,
    Down,
    Home,
    End,
    PageUp,
    PageDown,
    Other,
}

/// What a key is bound to. A key can be bound to several things; which of them
/// counts depends on where it is pressed.
#[derive(Clone, Copy, PartialEq, Eq, Structural, Debug)]
pub struct Bindings {
    pub quit: bool,
    pub new_session: bool,
    pub list_sessions: bool,
    pub help: bool,
    pub clear_session: bool,
    pub toggle_plan: bool,
    pub toggle_auto_mode: bool,
    pub model_download: bool,
    pub model_info: bool,
    pub provider_switch: bool,
    pub llama_cpp_models: bool,
    pub cancel: bool,
    pub submit: bool,
    pub newline: bool,
    pub page_up: bool,
    pub page_down: bool,
    pub copy_response: bool,
    pub paste_clipboard: bool,
    pub up: bool,
    pub down: bool,
    pub enter: bool,
    pub approve: bool,
    pub deny: bool,
    pub view_details: bool,
}

impl Bindings {
    /// A key that is bound to nothing.
    pub fn none() -> (r: Self)
        ensures
            r == Self::unbound(),
    {
        Bindings {
            quit: false,
            new_session: false,
            list_sessions: false,
            help: false,
            clear_session: false,
            toggle_plan: false,
            toggle_auto_mode: false,
            model_download: false,
            model_info: false,
            provider_switch: false,
            llama_cpp_models: false,
            cancel: false,
            submit: false,
            newline: false,
            page_up: false,
            page_down: false,
            copy_response: false,
            paste_clipboard: false,
            up: false,
            down: false,
            enter: false,
            approve: false,
            deny: false,
            view_details: false,
        }
    }

    /// A key that is bound to nothing.
    pub open spec fn unbound() -> Self {
        Bindings {
            quit: false,
            new_session: false,
            list_sessions: false,
            help: false,
            clear_session: false,
            toggle_plan: false,
            toggle_auto_mode: false,
            model_download: false,
            model_info: false,
            provider_switch: false,
            llama_cpp_models: false,
            cancel: false,
            submit: false,
            newline: false,
            page_up: false,
            page_down: false,
            copy_response: false,
            paste_clipboard: false,
            up: false,
            down: false,
            enter: false,
            approve: false,
            deny: false,
            view_details: false,
        }
    }
}

/// A key that was pressed, held down or let go.
#[derive(Clone, Copy, PartialEq, Eq, Structural, Debug)]
pub struct KeyPress {
    pub code: KeyCode,
    pub ctrl: bool,
    pub alt: bool,
    pub shift: bool,
    /// Whether it was pressed; only that counts.
    pub pressed: bool,
    pub bound: Bindings,
}

} // verus!
