//! Source adapters: decoded shell-history entries and device connections
//! normalized into [`UserActivity`] events.
use vstd::prelude::*;
use crate::activity::{opt_text, Action, ActivityView, SourceKind, Subject, SubjectView, UserActivity};
use crate::tamper::{history_tamper, is_history_tamper};

verus! {

/// One decoded shell-history entry: what the correlation reads of a
/// `shellhist_core::HistoryEntry`.
#[derive(Debug, Clone, PartialEq, Eq)]
pub struct ShellEntry {
    /// The command text.
    pub command: String,
    /// Start time as Unix epoch seconds, when the history format records it.
    pub timestamp: Option<i64>,
}

/// One decoded external-device connection: what the correlation reads of a
/// `peripheral_core::DeviceConnection` (each stamp taken by its epoch value).
#[derive(Debug, Clone, PartialEq, Eq)]
pub struct DeviceRecord {
    /// The full device instance id (the primary key).
    pub device_instance_id: String,
    /// Filesystem volume serial (NTFS/FAT), when known.
    pub volume_serial: Option<u32>,
    /// First-seen / first-install epoch, when recorded.
    pub first_install: Option<i64>,
    /// Last install / driver-event epoch, when recorded.
    pub last_install: Option<i64>,
    /// Last arrival (connect) epoch, when recorded.
    pub last_arrival: Option<i64>,
}

/// The model of a [`ShellEntry`].
pub struct ShellEntryView {
    pub command: Seq<char>,
    pub timestamp: Option<i64>,
}

/// The model of a [`DeviceRecord`].
pub struct DeviceRecordView {
    pub device_instance_id: Seq<char>,
    pub volume_serial: Option<u32>,
    pub first_install: Option<i64>,
    pub last_install: Option<i64>,
    pub last_arrival: Option<i64>,
}

impl View for ShellEntry {
    type V = ShellEntryView;

    open spec fn view(&self) -> ShellEntryView {
        ShellEntryView { command: self.command@, timestamp: self.timestamp }
    }
}

impl DeepView for ShellEntry {
    type V = ShellEntryView;

    open spec fn deep_view(&self) -> ShellEntryView {
        self.view()
    }
}

impl View for DeviceRecord {
    type V = DeviceRecordView;

    open spec fn view(&self) -> DeviceRecordView {
        DeviceRecordView {
            device_instance_id: self.device_instance_id@,
            volume_serial: self.volume_serial,
            first_install: self.first_install,
            last_install: self.last_install,
            last_arrival: self.last_arrival,
        }
    }
}

impl DeepView for DeviceRecord {
    type V = DeviceRecordView;

    open spec fn deep_view(&self) -> DeviceRecordView {
        self.view()
    }
}

/// The model of an optional string slice.
pub open spec fn opt_str(s: Option<&str>) -> Option<Seq<char>> {
    match s {
        Some(t) => Some(t@),
        None => None,
    }
}

/// The activity one shell-history entry normalizes into: `HistoryTampered` for a
/// history-clearing command, `Executed` otherwise, with the command as subject and
/// detail and the actor carried over.
pub open spec fn shell_activity(e: ShellEntryView, actor: Option<Seq<char>>) -> ActivityView {
    ActivityView {
        timestamp: e.timestamp,
        actor: actor,
        action: if history_tamper(e.command) {
            Action::HistoryTampered
        } else {
            Action::Executed
        },
        subject: SubjectView::Command(e.command),
        source: SourceKind::ShellHistory,
        detail: e.command,
    }
}

/// One activity per entry, in entry order.
pub open spec fn shell_activities(entries: Seq<ShellEntryView>, actor: Option<Seq<char>>) -> Seq<
    ActivityView,
> {
    entries.map_values(|e: ShellEntryView| shell_activity(e, actor))
}

/// A device connection's timestamp: first-install, else last-arrival, else
/// last-install, else none.
pub open spec fn device_timestamp(d: DeviceRecordView) -> Option<i64> {
    match d.first_install {
        Some(t) => Some(t),
        None => match d.last_arrival {
            Some(t) => Some(t),
            None => d.last_install,
        },
    }
}

/// The `Connected` activity one device connection normalizes into.
pub open spec fn device_activity(d: DeviceRecordView) -> ActivityView {
    ActivityView {
        timestamp: device_timestamp(d),
        actor: None,
        action: Action::Connected,
        subject: SubjectView::Device { id: d.device_instance_id, volume_serial: d.volume_serial },
        source: SourceKind::PeripheralDevice,
        detail: d.device_instance_id,
    }
}

/// One activity per connection, in connection order.
pub open spec fn device_activities(conns: Seq<DeviceRecordView>) -> Seq<ActivityView> {
    conns.map_values(|d: DeviceRecordView| device_activity(d))
}

/// Normalize a decoded shell-history stream into [`UserActivity`] events.
///
/// Each command becomes `Executed`; a history-clearing command becomes
/// `HistoryTampered`. The `actor` (when known) is carried onto every event.
pub fn from_shell_history(entries: &[ShellEntry], actor: Option<&str>) -> (r: Vec<UserActivity>)
    ensures
        r.deep_view() == shell_activities(entries.deep_view(), opt_str(actor)),
{
    let owned_actor: Option<String> = match actor {
        Some(a) => Some(a.to_owned()),
        None => None,
    };
    let mut out: Vec<UserActivity> = Vec::new();
    let mut i: usize = 0;
    while i < entries.len()
        invariant
            i <= entries@.len(),
            opt_text_eq(owned_actor, opt_str(actor)),
            out.deep_view() == shell_activities(entries.deep_view().take(i as int), opt_str(actor)),
        decreases entries.len() - i,
    {
        let e = &entries[i];
        let action = if is_history_tamper(e.command.as_str()) {
            Action::HistoryTampered
        } else {
            Action::Executed
        };
        let who: Option<String> = match &owned_actor {
            Some(a) => Some(a.clone()),
            None => None,
        };
        let act = UserActivity {
            timestamp: e.timestamp,
            actor: who,
            action,
            subject: Subject::Command(e.command.clone()),
            source: SourceKind::ShellHistory,
            detail: e.command.clone(),
        };
        let ghost prev = out.deep_view();
        proof {
            assert(act.deep_view() == shell_activity(entries.deep_view()[i as int], opt_str(actor)));
        }
        out.push(act);
        proof {
            assert(out.deep_view() =~= prev.push(act.deep_view()));
            assert(out.deep_view() =~= shell_activities(
                entries.deep_view().take(i + 1),
                opt_str(actor),
            ));
        }
        i = i + 1;
    }
    proof {
        assert(entries.deep_view().take(entries@.len() as int) =~= entries.deep_view());
    }
    out
}

/// An owned optional string holds the given optional text.
pub open spec fn opt_text_eq(s: Option<String>, t: Option<Seq<char>>) -> bool {
    match (s, t) {
        (Some(a), Some(b)) => a@ == b,
        (None, None) => true,
        _ => false,
    }
}

/// Normalize a decoded device-connection stream into [`UserActivity`] events.
///
/// Each connection becomes `Connected`, carrying the device id and the volume
/// serial. The timestamp is the first-install stamp, falling back to last-arrival
/// and then last-install.
pub fn from_device_connections(connections: &[DeviceRecord]) -> (r: Vec<UserActivity>)
    ensures
        r.deep_view() == device_activities(connections.deep_view()),
{
    let mut out: Vec<UserActivity> = Vec::new();
    let mut i: usize = 0;
    while i < connections.len()
        invariant
            i <= connections@.len(),
            out.deep_view() == device_activities(connections.deep_view().take(i as int)),
        decreases connections.len() - i,
    {
        let c = &connections[i];
        let timestamp = match c.first_install {
            Some(t) => Some(t),
            None => match c.last_arrival {
                Some(t) => Some(t),
                None => c.last_install,
            },
        };
        let act = UserActivity {
            timestamp,
            actor: None,
            action: Action::Connected,
            subject: Subject::Device {
                id: c.device_instance_id.clone(),
                volume_serial: c.volume_serial,
            },
            source: SourceKind::PeripheralDevice,
            detail: c.device_instance_id.clone(),
        };
        let ghost prev = out.deep_view();
        proof {
            assert(act.deep_view() == device_activity(connections.deep_view()[i as int]));
        }
        out.push(act);
        proof {
            assert(out.deep_view() =~= prev.push(act.deep_view()));
            assert(out.deep_view() =~= device_activities(connections.deep_view().take(i + 1)));
        }
        i = i + 1;
    }
    proof {
        assert(connections.deep_view().take(connections@.len() as int)
            =~= connections.deep_view());
    }
    out
}

/// A producer of [`UserActivity`] events.
///
/// Implementing this trait is the extension seam: a new reader wrapper implements
/// `activities` and slots into `build_timeline` with no API change.
pub trait ActivitySource {
    /// The model of the activities this source contributes.
    spec fn contributed(&self) -> Seq<ActivityView>;

    /// The activities this source contributes to the timeline.
    fn activities(&self) -> (r: Vec<UserActivity>)
        ensures
            r.deep_view() == self.contributed(),
    ;
}

/// A [`ShellHistorySource`] wraps a borrowed slice of decoded history entries.
///
/// Each command becomes an `Executed` activity; a command that disables or clears
/// history becomes a `HistoryTampered` event instead.
pub struct ShellHistorySource<'a> {
    entries: &'a [ShellEntry],
    actor: Option<String>,
}

impl<'a> ShellHistorySource<'a> {
    /// The wrapped entries.
    pub closed spec fn entries_view(&self) -> Seq<ShellEntryView> {
        self.entries.deep_view()
    }

    /// The attributed actor, if any.
    pub closed spec fn actor_view(&self) -> Option<Seq<char>> {
        opt_text(self.actor)
    }

    /// Wrap decoded history entries with no attributed actor.
    pub fn new(entries: &'a [ShellEntry]) -> (r: Self)
        ensures
            r.entries_view() == entries.deep_view(),
            r.actor_view() == None::<Seq<char>>,
    {
        ShellHistorySource { entries, actor: None }
    }

    /// Wrap decoded history entries, attributing them to a known user/account.
    pub fn for_actor(entries: &'a [ShellEntry], actor: &str) -> (r: Self)
        ensures
            r.entries_view() == entries.deep_view(),
            r.actor_view() == Some(actor@),
    {
        ShellHistorySource { entries, actor: Some(actor.to_owned()) }
    }
}

impl<'a> ActivitySource for ShellHistorySource<'a> {
    open spec fn contributed(&self) -> Seq<ActivityView> {
        shell_activities(self.entries_view(), self.actor_view())
    }

    fn activities(&self) -> (r: Vec<UserActivity>) {
        match &self.actor {
            Some(a) => from_shell_history(self.entries, Some(a.as_str())),
            None => from_shell_history(self.entries, None),
        }
    }
}

/// A [`DeviceSource`] wraps a borrowed slice of decoded device connections.
///
/// Each connection becomes a `Connected` activity whose device subject carries the
/// device instance id and the volume serial.
pub struct DeviceSource<'a> {
    connections: &'a [DeviceRecord],
}

impl<'a> DeviceSource<'a> {
    /// The wrapped connections.
    pub closed spec fn connections_view(&self) -> Seq<DeviceRecordView> {
        self.connections.deep_view()
    }

    /// Wrap decoded device connections.
    pub fn new(connections: &'a [DeviceRecord]) -> (r: Self)
        ensures
            r.connections_view() == connections.deep_view(),
    {
        DeviceSource { connections }
    }
}

impl<'a> ActivitySource for DeviceSource<'a> {
    open spec fn contributed(&self) -> Seq<ActivityView> {
        device_activities(self.connections_view())
    }

    fn activities(&self) -> (r: Vec<UserActivity>) {
        from_device_connections(self.connections)
    }
}


/// Shell normalization, entry by entry: the `i`-th activity is the `i`-th entry's
/// command (as subject and detail) at the entry's timestamp, attributed to `actor`,
/// from shell history; it is `HistoryTampered` exactly when the command is a
/// history-clearing command, whatever the timestamp, and `Executed` otherwise.
pub proof fn shell_activity_follows_command(
    entries: Seq<ShellEntryView>,
    actor: Option<Seq<char>>,
    i: int,
)
    requires
        0 <= i < entries.len(),
    ensures
        shell_activities(entries, actor).len() == entries.len(),
        ({
            let a = shell_activities(entries, actor)[i];
            &&& (a.action is HistoryTampered) <==> history_tamper(entries[i].command)
            &&& (a.action is Executed) <==> !history_tamper(entries[i].command)
            &&& a.subject == SubjectView::Command(entries[i].command)
            &&& a.detail == entries[i].command
            &&& a.timestamp == entries[i].timestamp
            &&& a.actor == actor
            &&& a.source == SourceKind::ShellHistory
        }),
{
}

/// Two entries with the same command normalize to the same action, whatever
/// their timestamps or actors.
pub proof fn shell_action_ignores_timestamp(
    e1: ShellEntryView,
    e2: ShellEntryView,
    a1: Option<Seq<char>>,
    a2: Option<Seq<char>>,
)
    requires
        e1.command == e2.command,
    ensures
        shell_activity(e1, a1).action == shell_activity(e2, a2).action,
        (shell_activity(e1, a1).action is HistoryTampered) == history_tamper(e1.command),
{
}

/// Device normalization, connection by connection: the `i`-th activity is a
/// `Connected` device activity carrying the `i`-th connection's instance id (as
/// subject id and detail) and volume serial, with no actor, stamped at the first
/// install, else the last arrival, else the last install.
pub proof fn device_activity_follows_connection(conns: Seq<DeviceRecordView>, i: int)
    requires
        0 <= i < conns.len(),
    ensures
        device_activities(conns).len() == conns.len(),
        ({
            let a = device_activities(conns)[i];
            let d = conns[i];
            &&& a.action is Connected
            &&& a.subject == SubjectView::Device {
                id: d.device_instance_id,
                volume_serial: d.volume_serial,
            }
            &&& a.detail == d.device_instance_id
            &&& a.actor is None
            &&& a.source == SourceKind::PeripheralDevice
            &&& d.first_install is Some ==> a.timestamp == d.first_install
            &&& d.first_install is None && d.last_arrival is Some ==> a.timestamp
                == d.last_arrival
            &&& d.first_install is None && d.last_arrival is None ==> a.timestamp
                == d.last_install
        }),
{
}

} // verus!
