//! The short texts and colours the console draws beside its lists.
use vstd::prelude::*;
use ratatui::style::Color;
use wasserxr::scene::logging::LogLevel;

verus! {

#[verifier::external_type_specification]
pub struct ExColor(Color);

/// How a plugin is listed: the built-in static plugin has the empty id.
pub open spec fn plugin_label_text(plugin_id: Seq<char>) -> Seq<char> {
    if plugin_id.len() == 0 {
        "Statically Linked"@
    } else {
        plugin_id
    }
}

/// How a plugin is listed.
pub fn plugin_label(plugin_id: &str) -> (r: String)
    ensures
        r@ == plugin_label_text(plugin_id@),
{
    if plugin_id.unicode_len() == 0 {
        String::from_str("Statically Linked")
    } else {
        String::from_str(plugin_id)
    }
}

/// How a component's plugin is named in its header: the built-in static
/// plugin is `Static`.
pub open spec fn component_plugin_text(plugin_id: Seq<char>) -> Seq<char> {
    if plugin_id.len() == 0 {
        "Static"@
    } else {
        plugin_id
    }
}

/// How a component's plugin is named in its header.
pub fn component_plugin_label(plugin_id: &str) -> (r: String)
    ensures
        r@ == component_plugin_text(plugin_id@),
{
    if plugin_id.unicode_len() == 0 {
        String::from_str("Static")
    } else {
        String::from_str(plugin_id)
    }
}

/// The colour of a log line of this level.
pub fn log_color(level: LogLevel) -> (r: Color)
    ensures
        r == (match level {
            LogLevel::DEBUG => Color::Blue,
            LogLevel::INFO => Color::White,
            LogLevel::WARN => Color::Yellow,
            LogLevel::ERROR => Color::Red,
        }),
{
    match level {
        LogLevel::DEBUG => Color::Blue,
        LogLevel::INFO => Color::White,
        LogLevel::WARN => Color::Yellow,
        LogLevel::ERROR => Color::Red,
    }
}

/// The colour of a field row: white when the field can be edited from
/// text, red otherwise.
pub fn field_color(is_mutable: bool, is_string_parsable: bool) -> (r: Color)
    ensures
        r == (if is_mutable && is_string_parsable { Color::White } else { Color::Red }),
{
    if is_mutable && is_string_parsable {
        Color::White
    } else {
        Color::Red
    }
}

/// The label and colour of the log view's follow status.
pub fn follow_status(follow: bool) -> (r: (String, Color))
    ensures
        follow ==> r.0@ == "FOLLOW"@ && r.1 == Color::Green,
        !follow ==> r.0@ == "PAUSED"@ && r.1 == Color::Yellow,
{
    if follow {
        (String::from_str("FOLLOW"), Color::Green)
    } else {
        (String::from_str("PAUSED"), Color::Yellow)
    }
}

} // verus!
