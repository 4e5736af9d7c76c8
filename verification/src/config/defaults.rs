//! Values of the configuration entries that a configuration leaves out.
use std::time::Duration;
use vstd::prelude::*;

verus! {

/// What `Duration::from_secs` returns for a number of seconds.
pub uninterp spec fn spec_duration_from_secs(secs: u64) -> Duration;

/// `Duration::from_secs` (std): the duration of `secs` whole seconds.
#[verifier::external_body]
fn duration_from_secs(secs: u64) -> (d: Duration)
    ensures
        d == spec_duration_from_secs(secs),
{
    Duration::from_secs(secs)
}

/// Five seconds.
pub fn default_update_interval() -> (d: Duration)
    ensures
        d == spec_duration_from_secs(5),
{
    duration_from_secs(5)
}

/// A check-mark icon.
pub fn default_device_not_found_text() -> (s: String)
    ensures
        s@ == "\u{f00c}"@,
{
    String::from_str("\u{f00c}")
}

/// A cross icon.
pub fn default_device_not_found_tooltip_text() -> (s: String)
    ensures
        s@ == "\u{f00d}"@,
{
    String::from_str("\u{f00d}")
}

/// A lightning bolt icon.
pub fn default_is_charging_text() -> (s: String)
    ensures
        s@ == "󱐋"@,
{
    String::from_str("󱐋")
}

/// A cross icon.
pub fn default_isnt_charging_text() -> (s: String)
    ensures
        s@ == "\u{f00d}"@,
{
    String::from_str("\u{f00d}")
}

/// The ranges 0-10, 10-20, ..., 80-90 and 90-100.
pub fn default_charge_ranges() -> (v: Vec<i64>)
    ensures
        v@ == seq![10i64, 20, 30, 40, 50, 60, 70, 80, 90],
{
    let v: Vec<i64> = vec![10, 20, 30, 40, 50, 60, 70, 80, 90];
    assert(v@ =~= seq![10i64, 20, 30, 40, 50, 60, 70, 80, 90]);
    v
}

/// Charging battery icons, one for each of the default ranges.
pub fn default_is_charging_texts() -> (v: Vec<String>)
    ensures
        v@.len() == 10,
        v@[0]@ == "󰢜"@,
        v@[1]@ == "󰂆"@,
        v@[2]@ == "󰂇"@,
        v@[3]@ == "󰂈"@,
        v@[4]@ == "󰢝"@,
        v@[5]@ == "󰂉"@,
        v@[6]@ == "󰢞"@,
        v@[7]@ == "󰂊"@,
        v@[8]@ == "󰂋"@,
        v@[9]@ == "󰂅"@,
{
    let mut v: Vec<String> = Vec::new();
    v.push(String::from_str("󰢜"));
    v.push(String::from_str("󰂆"));
    v.push(String::from_str("󰂇"));
    v.push(String::from_str("󰂈"));
    v.push(String::from_str("󰢝"));
    v.push(String::from_str("󰂉"));
    v.push(String::from_str("󰢞"));
    v.push(String::from_str("󰂊"));
    v.push(String::from_str("󰂋"));
    v.push(String::from_str("󰂅"));
    v
}

/// Battery icons, one for each of the default ranges.
pub fn default_isnt_charging_texts() -> (v: Vec<String>)
    ensures
        v@.len() == 10,
        v@[0]@ == "󰁺"@,
        v@[1]@ == "󰁻"@,
        v@[2]@ == "󰁼"@,
        v@[3]@ == "󰁽"@,
        v@[4]@ == "󰁾"@,
        v@[5]@ == "󰁿"@,
        v@[6]@ == "󰂀"@,
        v@[7]@ == "󰂁"@,
        v@[8]@ == "󰂂"@,
        v@[9]@ == "󰁹"@,
{
    let mut v: Vec<String> = Vec::new();
    v.push(String::from_str("󰁺"));
    v.push(String::from_str("󰁻"));
    v.push(String::from_str("󰁼"));
    v.push(String::from_str("󰁽"));
    v.push(String::from_str("󰁾"));
    v.push(String::from_str("󰁿"));
    v.push(String::from_str("󰂀"));
    v.push(String::from_str("󰂁"));
    v.push(String::from_str("󰂂"));
    v.push(String::from_str("󰁹"));
    v
}

/// A phone icon.
pub fn default_device_phone_text() -> (s: String)
    ensures
        s@ == "\u{f10b}"@,
{
    String::from_str("\u{f10b}")
}

/// A tablet icon.
pub fn default_device_tablet_text() -> (s: String)
    ensures
        s@ == "\u{f10a}"@,
{
    String::from_str("\u{f10a}")
}

} // verus!
