//! The key bindings: which key triggers each command, one text per binding.
use vstd::prelude::*;
use vstd::string::*;

verus! {

/// The bindings of the whole dashboard.
#[derive(Clone, Debug)]
pub struct Keybinds {
    pub app: AppKeys,
    pub services: ServicesKeys,
    pub logs: LogsKeys,
}

/// Bindings that work everywhere.
#[derive(Clone, Debug)]
pub struct AppKeys {
    pub quit: String,
    pub search: String,
    pub daemon_menu: String,
    pub refresh: String,
    pub focus_services: String,
    pub focus_logs: String,
    pub scroll_down: String,
    pub scroll_up: String,
}

/// Bindings of the project list.
#[derive(Clone, Debug)]
pub struct ServicesKeys {
    pub stop: String,
    pub start: String,
    pub toggle: String,
}

/// Bindings of the log pane.
#[derive(Clone, Debug)]
pub struct LogsKeys {
    pub toggle_auto_scroll: String,
    pub switch_tab_left: String,
    pub switch_tab_right: String,
}

/// The key of a binding: its first character, or `default` when it is empty.
pub fn key_or(binding: &String, default: char) -> (r: char)
    ensures
        r == (if binding@.len() > 0 {
            binding@[0]
        } else {
            default
        }),
{
    let s = binding.as_str();
    if s.unicode_len() > 0 {
        s.get_char(0)
    } else {
        default
    }
}

} // verus!
