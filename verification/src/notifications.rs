//! The short messages the portal composes about itself.
use vstd::prelude::*;
use vstd::string::StringExecFns;

verus! {

#[derive(Debug, Clone, Copy, PartialEq, Eq, Structural)]
pub enum Notification {
    Start,
    Stop,
    BatteryLow,
    BatteryCritical,
    BatteryUnknown,
    Location,
}

/// The message about the portal named `name`.
pub open spec fn notification_text(note: Notification, name: Seq<char>) -> Seq<char> {
    match note {
        Notification::Start => name + " has started."@,
        Notification::Stop => name + " is shutting down."@,
        Notification::BatteryLow => "Battery is low on "@ + name + "."@,
        Notification::BatteryCritical => "Warning! Battery critical on "@ + name + "."@,
        Notification::BatteryUnknown => name + " is unable to detect the battery level."@,
        Notification::Location => "Location for "@ + name + " is..."@,
    }
}

pub fn notification_message(note: Notification, name: &str) -> (r: String)
    ensures
        r@ == notification_text(note, name@),
{
    let (before, after): (&str, &str) = match note {
        Notification::Start => ("", " has started."),
        Notification::Stop => ("", " is shutting down."),
        Notification::BatteryLow => ("Battery is low on ", "."),
        Notification::BatteryCritical => ("Warning! Battery critical on ", "."),
        Notification::BatteryUnknown => ("", " is unable to detect the battery level."),
        Notification::Location => ("Location for ", " is..."),
    };
    let mut s = String::from_str(before);
    s.append(name);
    s.append(after);
    proof {
        reveal_strlit("");
        assert(""@ + name@ =~= name@);
    }
    s
}

} // verus!
