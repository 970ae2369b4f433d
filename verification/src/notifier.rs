//! Push notifications about the portal: what each says, and the queue of
//! those waiting to be sent.
use vstd::prelude::*;
use vstd::string::StringExecFns;

verus! {

#[derive(Debug, Clone, Copy, PartialEq, Eq, Structural)]
pub enum Notification {
    Start,
    Stop,
    BatteryLow,
    BatteryCritical,
    BatteryUnknown,
    StartReading,
    StopReading,
    UnableToStartReading,
    Location,
    Shutdown,
}

/// A notification as it is posted: its text, its tag and its priority.
pub struct NtfyMessage {
    pub message: String,
    pub tag: &'static str,
    pub priority: u8,
}

/// The text, tag and priority of a notification about the portal named `name`.
pub open spec fn ntfy_spec(note: Notification, name: Seq<char>) -> (Seq<char>, Seq<char>, u8) {
    match note {
        Notification::Start => (name + " has started."@, "green_circle"@, 3),
        Notification::Stop => (name + " is shutting down."@, "red_square"@, 3),
        Notification::BatteryLow => ("Battery is low on "@ + name + "."@, "battery"@, 4),
        Notification::BatteryCritical => ("Warning! Battery critical on "@ + name + "."@, "battery"@, 5),
        Notification::BatteryUnknown => (name + " is unable to detect the battery level."@, "battery"@, 3),
        Notification::Location => ("Location for "@ + name + " is..."@, "world_map"@, 3),
        Notification::StartReading => (name + " has successfully connected to the reader."@, "medal_sports"@, 3),
        Notification::StopReading => ("A reader on "@ + name + " has unexpectedly disconnected."@, "warning"@, 5),
        Notification::UnableToStartReading => ("Unable to connect to a reader on "@ + name + "."@, "warning"@, 5),
        Notification::Shutdown => (name + " is shutting down."@, "stop_sign"@, 3),
    }
}

/// The notifications that warn that reading stopped or could not start are
/// exactly those posted with the "warning" tag, and those, with a critical
/// battery, are exactly the ones posted at the top priority, 5.
pub proof fn law_reader_troubles_are_urgent_warnings(note: Notification, name: Seq<char>)
    ensures
        (ntfy_spec(note, name).1 == "warning"@) == (note == Notification::StopReading
            || note == Notification::UnableToStartReading),
        (ntfy_spec(note, name).2 == 5) == (note == Notification::StopReading || note == Notification::UnableToStartReading
            || note == Notification::BatteryCritical),
{
    reveal_strlit("warning");
    reveal_strlit("green_circle");
    reveal_strlit("red_square");
    reveal_strlit("battery");
    reveal_strlit("world_map");
    reveal_strlit("medal_sports");
    reveal_strlit("stop_sign");
    assert("warning"@[0] != "battery"@[0]);
    assert("warning"@ != "battery"@);
    assert("warning"@.len() != "green_circle"@.len());
    assert("warning"@.len() != "red_square"@.len());
    assert("warning"@.len() != "world_map"@.len());
    assert("warning"@.len() != "medal_sports"@.len());
    assert("warning"@.len() != "stop_sign"@.len());
}

/// Different notifications about one portal are posted differently: no two
/// agree on text, tag and priority all together.
pub proof fn law_notifications_are_told_apart(a: Notification, b: Notification, name: Seq<char>)
    requires
        a != b,
    ensures
        ntfy_spec(a, name) != ntfy_spec(b, name),
{
    reveal_strlit("warning");
    reveal_strlit("green_circle");
    reveal_strlit("red_square");
    reveal_strlit("battery");
    reveal_strlit("world_map");
    reveal_strlit("medal_sports");
    reveal_strlit("stop_sign");
    reveal_strlit("A reader on ");
    reveal_strlit("Unable to connect to a reader on ");
    assert("green_circle"@[0] != "medal_sports"@[0]);
    assert("warning"@[0] != "battery"@[0]);
    assert("world_map"@[0] != "stop_sign"@[0]);
    let x = "A reader on "@ + name + " has unexpectedly disconnected."@;
    let y = "Unable to connect to a reader on "@ + name + "."@;
    assert(x[0] == 'A');
    assert(y[0] == 'U');
}

fn around(before: &str, name: &str, after: &str) -> (r: String)
    ensures
        r@ == before@ + name@ + after@,
{
    let mut s = String::from_str(before);
    s.append(name);
    s.append(after);
    s
}

/// Composes the notification `note` for the portal named `name`.
pub fn compose(note: Notification, name: &str) -> (r: NtfyMessage)
    ensures
        (r.message@, r.tag@, r.priority) == ntfy_spec(note, name@),
{
    proof {
        reveal_strlit("");
        assert(""@ + name@ =~= name@);
    }
    match note {
        Notification::Start => NtfyMessage { message: around("", name, " has started."), tag: "green_circle", priority: 3 },
        Notification::Stop => NtfyMessage { message: around("", name, " is shutting down."), tag: "red_square", priority: 3 },
        Notification::BatteryLow => NtfyMessage { message: around("Battery is low on ", name, "."), tag: "battery", priority: 4 },
        Notification::BatteryCritical => NtfyMessage {
            message: around("Warning! Battery critical on ", name, "."),
            tag: "battery",
            priority: 5,
        },
        Notification::BatteryUnknown => NtfyMessage {
            message: around("", name, " is unable to detect the battery level."),
            tag: "battery",
            priority: 3,
        },
        Notification::Location => NtfyMessage { message: around("Location for ", name, " is..."), tag: "world_map", priority: 3 },
        Notification::StartReading => NtfyMessage {
            message: around("", name, " has successfully connected to the reader."),
            tag: "medal_sports",
            priority: 3,
        },
        Notification::StopReading => NtfyMessage {
            message: around("A reader on ", name, " has unexpectedly disconnected."),
            tag: "warning",
            priority: 5,
        },
        Notification::UnableToStartReading => NtfyMessage {
            message: around("Unable to connect to a reader on ", name, "."),
            tag: "warning",
            priority: 5,
        },
        Notification::Shutdown => NtfyMessage { message: around("", name, " is shutting down."), tag: "stop_sign", priority: 3 },
    }
}

/// Notifications are posted only when the address, topic, user and password are all set.
pub fn ntfy_configured(url: &str, topic: &str, user: &str, pass: &str) -> (r: bool)
    ensures
        r == (url@.len() > 0 && topic@.len() > 0 && user@.len() > 0 && pass@.len() > 0),
{
    proof {
        vstd::utf8::encode_utf8_valid_utf8(url@);
    }
    !str_is_empty(url) && !str_is_empty(topic) && !str_is_empty(user) && !str_is_empty(pass)
}

fn str_is_empty(s: &str) -> (r: bool)
    ensures
        r == (s@.len() == 0),
{
    let b = s.as_bytes();
    proof {
        if s@.len() > 0 {
            assert(vstd::utf8::encode_utf8(s@).len() > 0);
        }
    }
    b.len() == 0
}

/// Notifications waiting to be sent, in the order they were asked for.
pub struct NotificationQueue {
    pending: Vec<Notification>,
}

impl View for NotificationQueue {
    type V = Seq<Notification>;

    closed spec fn view(&self) -> Seq<Notification> {
        self.pending@
    }
}

impl NotificationQueue {
    pub fn new() -> (r: NotificationQueue)
        ensures
            r@ == Seq::<Notification>::empty(),
    {
        NotificationQueue { pending: Vec::new() }
    }

    /// Queues a notification.
    pub fn send_notification(&mut self, note: Notification)
        ensures
            final(self)@ == old(self)@.push(note),
    {
        self.pending.push(note);
    }

    /// Takes every waiting notification, oldest first.
    pub fn take_all(&mut self) -> (r: Vec<Notification>)
        ensures
            r@ == old(self)@,
            final(self)@ == Seq::<Notification>::empty(),
    {
        let mut out: Vec<Notification> = Vec::new();
        std::mem::swap(&mut out, &mut self.pending);
        out
    }
}

} // verus!
