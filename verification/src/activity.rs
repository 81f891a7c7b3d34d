//! The normalized user-activity event and its mathematical model.
use vstd::prelude::*;

verus! {

/// What a user did to a [`Subject`].
#[derive(Debug, Clone, Copy, PartialEq, Eq, Hash, Structural)]
pub enum Action {
    /// Ran a program or command.
    Executed,
    /// Opened or read a file/folder.
    Accessed,
    /// Attached / connected a device.
    Connected,
    /// Issued a search query.
    Searched,
    /// Typed text (e.g. a typed URL / run-box entry).
    Typed,
    /// Disabled, cleared, or otherwise tampered with an activity record.
    HistoryTampered,
}

/// The thing an [`Action`] was performed on.
#[derive(Debug, Clone, PartialEq, Eq, Hash)]
pub enum Subject {
    /// A shell command or program invocation.
    Command(String),
    /// A file path.
    File(String),
    /// A folder path.
    Folder(String),
    /// An external device, with its volume serial kept distinct so a file or
    /// folder subject carrying the same NTFS/FAT volume serial can be joined to it.
    Device {
        /// Device instance id (the stable primary key).
        id: String,
        /// NTFS/FAT volume serial of the device's volume, when known.
        volume_serial: Option<u32>,
    },
    /// A search / lookup query.
    Query(String),
}

/// Which reader the activity was normalized from.
#[non_exhaustive]
#[derive(Debug, Clone, Copy, PartialEq, Eq, Hash, Structural)]
pub enum SourceKind {
    /// Shell command history.
    ShellHistory,
    /// External-device connections.
    PeripheralDevice,
}

/// One normalized user-activity event: *who* did *what*, *when*, to *which* subject.
#[derive(Debug, Clone, PartialEq, Eq)]
pub struct UserActivity {
    /// Unix epoch seconds, when the source records it.
    pub timestamp: Option<i64>,
    /// The acting user / SID, when the source attributes it.
    pub actor: Option<String>,
    /// What was done.
    pub action: Action,
    /// What it was done to.
    pub subject: Subject,
    /// Which reader produced this event.
    pub source: SourceKind,
    /// A human-readable detail string for the event.
    pub detail: String,
}

/// The mathematical model of a [`Subject`]: its strings taken as character sequences.
pub enum SubjectView {
    Command(Seq<char>),
    File(Seq<char>),
    Folder(Seq<char>),
    Device { id: Seq<char>, volume_serial: Option<u32> },
    Query(Seq<char>),
}

/// The mathematical model of a [`UserActivity`].
pub struct ActivityView {
    pub timestamp: Option<i64>,
    pub actor: Option<Seq<char>>,
    pub action: Action,
    pub subject: SubjectView,
    pub source: SourceKind,
    pub detail: Seq<char>,
}

impl View for Subject {
    type V = SubjectView;

    open spec fn view(&self) -> SubjectView {
        match self {
            Subject::Command(c) => SubjectView::Command(c@),
            Subject::File(p) => SubjectView::File(p@),
            Subject::Folder(p) => SubjectView::Folder(p@),
            Subject::Device { id, volume_serial } => SubjectView::Device {
                id: id@,
                volume_serial: *volume_serial,
            },
            Subject::Query(q) => SubjectView::Query(q@),
        }
    }
}

/// The model of an optional string: the optional character sequence.
pub open spec fn opt_text(s: Option<String>) -> Option<Seq<char>> {
    match s {
        Some(t) => Some(t@),
        None => None,
    }
}

impl View for UserActivity {
    type V = ActivityView;

    open spec fn view(&self) -> ActivityView {
        ActivityView {
            timestamp: self.timestamp,
            actor: opt_text(self.actor),
            action: self.action,
            subject: self.subject@,
            source: self.source,
            detail: self.detail@,
        }
    }
}

impl DeepView for UserActivity {
    type V = ActivityView;

    open spec fn deep_view(&self) -> ActivityView {
        self.view()
    }
}

/// Whether a subject is a file or a folder (the subjects a volume-serial join pairs
/// with a device).
pub open spec fn is_file_or_folder(s: SubjectView) -> bool {
    s is File || s is Folder
}

} // verus!
