//! Cross-source audit of a merged timeline.
use vstd::prelude::*;
use crate::activity::{Action, ActivityView, Subject, SubjectView, UserActivity};
use crate::bus::{is_mass_storage_id, mass_storage_id};
use crate::render::{debug_quoted, decimal_i64, decimal_text, quote_debug};
use crate::text::has_infix;
use crate::report::{
    copy_source, source, source_stamp, Category, Evidence, Finding, FindingView, Severity,
    Source, SourceView,
};

verus! {

/// The temporal window (seconds) for the exec-during-removable-media join.
///
/// One hour: wide enough to catch a command run while a stick is mounted, tight
/// enough to keep the temporal coincidence meaningful and the false-positive rate
/// low.
pub const REMOVABLE_MEDIA_WINDOW_SECS: i64 = 3600;

/// The note of a history-tampered finding about command `cmd`.
pub open spec fn history_note(cmd: Seq<char>) -> Seq<char> {
    "user activity "@ + debug_quoted(cmd)
        + " disables or clears the activity record; consistent with anti-forensic history tampering (MITRE T1070.003)"@
}

/// The note of an exec-during-removable-media finding.
pub open spec fn media_note(cmd: Seq<char>, dev_id: Seq<char>) -> Seq<char> {
    "the command "@ + debug_quoted(cmd) + " ran within "@ + decimal_i64(REMOVABLE_MEDIA_WINDOW_SECS)
        + "s of removable mass-storage device "@ + debug_quoted(dev_id)
        + " being connected; consistent with activity involving external media (MITRE T1052 / T1091)"@
}

/// `USERACT-HISTORY-TAMPERED` (Medium / Concealment) for command text `cmd`.
pub open spec fn history_finding(cmd: Seq<char>, src: SourceView) -> FindingView {
    FindingView {
        severity: Some(Severity::Medium),
        category: Category::Concealment,
        code: "USERACT-HISTORY-TAMPERED"@,
        note: history_note(cmd),
        source: src,
        evidence: seq![("command"@, cmd)],
        mitre: seq!["T1070.003"@],
    }
}

/// `USERACT-EXEC-DURING-REMOVABLE-MEDIA` (Low / Threat) for command `cmd` run at
/// `cmd_ts` near the connection of device `dev_id` at `dev_ts`.
pub open spec fn media_finding(
    cmd: Seq<char>,
    cmd_ts: i64,
    dev_ts: i64,
    dev_id: Seq<char>,
    src: SourceView,
) -> FindingView {
    FindingView {
        severity: Some(Severity::Low),
        category: Category::Threat,
        code: "USERACT-EXEC-DURING-REMOVABLE-MEDIA"@,
        note: media_note(cmd, dev_id),
        source: src,
        evidence: seq![
            ("command"@, cmd),
            ("device"@, dev_id),
            ("command_epoch"@, decimal_i64(cmd_ts)),
            ("device_epoch"@, decimal_i64(dev_ts)),
        ],
        mitre: seq!["T1052"@, "T1091"@],
    }
}

/// The removable-media connection window an activity opens, if any: a timestamped
/// `Connected` activity on a device whose instance id names a mass-storage bus.
pub open spec fn media_window(a: ActivityView) -> Option<(i64, Seq<char>)> {
    match (a.action, a.subject, a.timestamp) {
        (Action::Connected, SubjectView::Device { id, .. }, Some(ts)) => if mass_storage_id(id) {
            Some((ts, id))
        } else {
            None
        },
        _ => None,
    }
}

/// The mass-storage connection windows of `events`, in event order.
pub open spec fn media_windows(events: Seq<ActivityView>) -> Seq<(i64, Seq<char>)>
    decreases events.len(),
{
    if events.len() == 0 {
        Seq::empty()
    } else {
        media_windows(events.drop_last()) + match media_window(events.last()) {
            Some(w) => seq![w],
            None => Seq::empty(),
        }
    }
}

/// `ts` lies within [`REMOVABLE_MEDIA_WINDOW_SECS`] of `dev_ts`, either side.
pub open spec fn within_window(ts: i64, dev_ts: i64) -> bool {
    -REMOVABLE_MEDIA_WINDOW_SECS <= ts - dev_ts <= REMOVABLE_MEDIA_WINDOW_SECS
}

/// The first window whose connection lies within the window of `ts`.
pub open spec fn first_window(windows: Seq<(i64, Seq<char>)>, ts: i64) -> Option<
    (i64, Seq<char>),
>
    decreases windows.len(),
{
    if windows.len() == 0 {
        None
    } else if within_window(ts, windows[0].0) {
        Some(windows[0])
    } else {
        first_window(windows.drop_first(), ts)
    }
}

/// The command text a history-tampered activity names: its command subject, or
/// its detail for any other subject.
pub open spec fn tampered_text(a: ActivityView) -> Seq<char> {
    match a.subject {
        SubjectView::Command(c) => c,
        _ => a.detail,
    }
}

/// The finding one activity yields against the timeline's media windows:
/// history-tampered activities always yield one; a timestamped executed command
/// yields one when some mass-storage connection lies within the window (the first
/// such connection is cited); nothing else yields a finding.
pub open spec fn activity_finding(
    a: ActivityView,
    windows: Seq<(i64, Seq<char>)>,
    src: SourceView,
) -> Option<FindingView> {
    if a.action is HistoryTampered {
        Some(history_finding(tampered_text(a), src))
    } else {
        match (a.action, a.timestamp, a.subject) {
            (Action::Executed, Some(ts), SubjectView::Command(cmd)) => match first_window(
                windows,
                ts,
            ) {
                Some(w) => Some(media_finding(cmd, ts, w.0, w.1, src)),
                None => None,
            },
            _ => None,
        }
    }
}

/// The findings of the first `n` activities, in activity order.
pub open spec fn findings_upto(
    events: Seq<ActivityView>,
    windows: Seq<(i64, Seq<char>)>,
    n: int,
    src: SourceView,
) -> Seq<FindingView>
    decreases n,
{
    if n <= 0 {
        Seq::empty()
    } else {
        findings_upto(events, windows, n - 1, src) + match activity_finding(
            events[n - 1],
            windows,
            src,
        ) {
            Some(f) => seq![f],
            None => Seq::empty(),
        }
    }
}

/// The audit of a timeline: each activity's finding, in activity order, stamped
/// with `src`.
pub open spec fn audit_findings(events: Seq<ActivityView>, src: SourceView) -> Seq<FindingView> {
    findings_upto(events, media_windows(events), events.len() as int, src)
}

fn text(s: &str) -> (r: String)
    ensures
        r@ == s@,
{
    String::from_str(s)
}

fn history_tampered_finding(event: &UserActivity, src: &Source) -> (r: Finding)
    ensures
        r@ == history_finding(tampered_text(event@), src@),
{
    let cmd: &str = match &event.subject {
        Subject::Command(c) => c.as_str(),
        _ => event.detail.as_str(),
    };
    let mut note = text("user activity ");
    note.append(quote_debug(cmd).as_str());
    note.append(
        " disables or clears the activity record; consistent with anti-forensic history tampering (MITRE T1070.003)",
    );
    let mut evidence: Vec<Evidence> = Vec::new();
    evidence.push(Evidence { field: text("command"), value: text(cmd) });
    let mut mitre: Vec<String> = Vec::new();
    mitre.push(text("T1070.003"));
    let f = Finding {
        severity: Some(Severity::Medium),
        category: Category::Concealment,
        code: text("USERACT-HISTORY-TAMPERED"),
        note,
        source: copy_source(src),
        evidence,
        mitre,
    };
    proof {
        assert(f.evidence.deep_view() =~= seq![("command"@, tampered_text(event@))]);
        assert(f.mitre.deep_view() =~= seq!["T1070.003"@]);
    }
    f
}

fn exec_during_media_finding(cmd: &str, cmd_ts: i64, dev_ts: i64, dev_id: &str, src: &Source) -> (r:
    Finding)
    ensures
        r@ == media_finding(cmd@, cmd_ts, dev_ts, dev_id@, src@),
{
    let mut note = text("the command ");
    note.append(quote_debug(cmd).as_str());
    note.append(" ran within ");
    note.append(decimal_text(REMOVABLE_MEDIA_WINDOW_SECS).as_str());
    note.append("s of removable mass-storage device ");
    note.append(quote_debug(dev_id).as_str());
    note.append(
        " being connected; consistent with activity involving external media (MITRE T1052 / T1091)",
    );
    let mut evidence: Vec<Evidence> = Vec::new();
    evidence.push(Evidence { field: text("command"), value: text(cmd) });
    evidence.push(Evidence { field: text("device"), value: text(dev_id) });
    evidence.push(Evidence { field: text("command_epoch"), value: decimal_text(cmd_ts) });
    evidence.push(Evidence { field: text("device_epoch"), value: decimal_text(dev_ts) });
    let mut mitre: Vec<String> = Vec::new();
    mitre.push(text("T1052"));
    mitre.push(text("T1091"));
    let f = Finding {
        severity: Some(Severity::Low),
        category: Category::Threat,
        code: text("USERACT-EXEC-DURING-REMOVABLE-MEDIA"),
        note,
        source: copy_source(src),
        evidence,
        mitre,
    };
    proof {
        assert(f.evidence.deep_view() =~= seq![
            ("command"@, cmd@),
            ("device"@, dev_id@),
            ("command_epoch"@, decimal_i64(cmd_ts)),
            ("device_epoch"@, decimal_i64(dev_ts)),
        ]);
        assert(f.mitre.deep_view() =~= seq!["T1052"@, "T1091"@]);
        assert(f.note@ =~= media_note(cmd@, dev_id@));
    }
    f
}

/// Audit a merged timeline for cross-source user-activity findings.
///
/// - `USERACT-EXEC-DURING-REMOVABLE-MEDIA` — a shell command executed within
///   [`REMOVABLE_MEDIA_WINDOW_SECS`] of a removable mass-storage device connection.
/// - `USERACT-HISTORY-TAMPERED` — a history-clearing activity present in the
///   timeline.
///
/// Every finding is an observation, never a verdict.
pub fn audit(events: &[UserActivity]) -> (r: Vec<Finding>)
    ensures
        r.deep_view() == audit_findings(events.deep_view(), source_stamp("host"@)),
{
    audit_with(events, &source("host"))
}

/// [`audit`] with a caller-supplied [`Source`] stamp (scope/version).
pub fn audit_with(events: &[UserActivity], src: &Source) -> (r: Vec<Finding>)
    ensures
        r.deep_view() == audit_findings(events.deep_view(), src@),
{
    let n = events.len();
    let ghost ev = events.deep_view();
    let mut windows: Vec<(i64, String)> = Vec::new();
    let mut i: usize = 0;
    while i < n
        invariant
            n == events@.len(),
            ev == events.deep_view(),
            i <= n,
            windows.deep_view() == media_windows(ev.take(i as int)),
        decreases n - i,
    {
        let e = &events[i];
        let ghost before = windows.deep_view();
        match (&e.action, &e.subject, e.timestamp) {
            (Action::Connected, Subject::Device { id, .. }, Some(ts)) => {
                if is_mass_storage_id(id.as_str()) {
                    windows.push((ts, id.clone()));
                }
            },
            _ => {},
        }
        proof {
            assert(ev.take(i + 1).drop_last() =~= ev.take(i as int));
            assert(ev.take(i + 1).last() == ev[i as int]);
            assert(windows.deep_view() =~= media_windows(ev.take(i + 1)));
        }
        i = i + 1;
    }
    proof {
        assert(ev.take(n as int) =~= ev);
    }
    let ghost wins = windows.deep_view();
    let mut findings: Vec<Finding> = Vec::new();
    let mut k: usize = 0;
    while k < n
        invariant
            n == events@.len(),
            ev == events.deep_view(),
            wins == windows.deep_view(),
            wins == media_windows(ev),
            k <= n,
            findings.deep_view() == findings_upto(ev, wins, k as int, src@),
        decreases n - k,
    {
        let event = &events[k];
        let ghost before = findings.deep_view();
        match event.action {
            Action::HistoryTampered => {
                findings.push(history_tampered_finding(event, src));
            },
            Action::Executed => {
                match (event.timestamp, &event.subject) {
                    (Some(ts), Subject::Command(cmd)) => {
                        let mut w: usize = 0;
                        let mut found = false;
                        proof {
                            assert(wins.skip(0) =~= wins);
                        }
                        while !found && w < windows.len()
                            invariant
                                wins == windows.deep_view(),
                                w <= windows@.len(),
                                !found ==> first_window(wins, ts) == first_window(
                                    wins.skip(w as int),
                                    ts,
                                ),
                                found ==> w < windows@.len() && first_window(wins, ts) == Some(
                                    wins[w as int],
                                ),
                            decreases windows.len() - w + if found {
                                0int
                            } else {
                                1int
                            },
                        {
                            let dev_ts = windows[w].0;
                            let diff: i128 = (ts as i128) - (dev_ts as i128);
                            proof {
                                assert(wins.skip(w as int)[0] == wins[w as int]);
                                assert(wins.skip(w as int).drop_first() =~= wins.skip(w + 1));
                            }
                            if -(REMOVABLE_MEDIA_WINDOW_SECS as i128) <= diff && diff <= REMOVABLE_MEDIA_WINDOW_SECS as i128 {
                                found = true;
                            } else {
                                w = w + 1;
                            }
                        }
                        if found {
                            let f = exec_during_media_finding(
                                cmd.as_str(),
                                ts,
                                windows[w].0,
                                windows[w].1.as_str(),
                                src,
                            );
                            findings.push(f);
                        } else {
                            proof {
                                assert(wins.skip(w as int).len() == 0);
                            }
                        }
                    },
                    _ => {},
                }
            },
            _ => {},
        }
        proof {
            assert(findings.deep_view() =~= findings_upto(ev, wins, k + 1, src@));
        }
        k = k + 1;
    }
    findings
}


proof fn lemma_infix_of_suffix(x: Seq<char>, y: Seq<char>, p: Seq<char>, at: int)
    requires
        0 <= at && at + p.len() <= y.len(),
        y.subrange(at, at + p.len()) == p,
    ensures
        has_infix(x + y, p),
{
    assert((x + y).subrange(x.len() + at, x.len() + at + p.len()) =~= p);
}

/// The phrase every finding's note is worded with.
pub open spec fn hedge_phrase() -> Seq<char> {
    "consistent with"@
}

proof fn lemma_history_note_hedged(cmd: Seq<char>)
    ensures
        has_infix(history_note(cmd), hedge_phrase()),
{
    let tail =
        " disables or clears the activity record; consistent with anti-forensic history tampering (MITRE T1070.003)"@;
    reveal_strlit(
        " disables or clears the activity record; consistent with anti-forensic history tampering (MITRE T1070.003)",
    );
    reveal_strlit("consistent with");
    assert(tail.subrange(41, 56) =~= hedge_phrase());
    lemma_infix_of_suffix("user activity "@ + debug_quoted(cmd), tail, hedge_phrase(), 41);
}

proof fn lemma_media_note_hedged(cmd: Seq<char>, dev_id: Seq<char>)
    ensures
        has_infix(media_note(cmd, dev_id), hedge_phrase()),
{
    let tail =
        " being connected; consistent with activity involving external media (MITRE T1052 / T1091)"@;
    reveal_strlit(
        " being connected; consistent with activity involving external media (MITRE T1052 / T1091)",
    );
    reveal_strlit("consistent with");
    assert(tail.subrange(18, 33) =~= hedge_phrase());
    lemma_infix_of_suffix(
        "the command "@ + debug_quoted(cmd) + " ran within "@ + decimal_i64(
            REMOVABLE_MEDIA_WINDOW_SECS,
        ) + "s of removable mass-storage device "@ + debug_quoted(dev_id),
        tail,
        hedge_phrase(),
        18,
    );
}

/// A finding is a rated observation whose note is worded "consistent with …".
pub open spec fn hedged(f: FindingView) -> bool {
    has_infix(f.note, hedge_phrase()) && f.severity is Some
}

/// Every finding is a rated observation worded as "consistent with …".
pub proof fn findings_are_hedged(events: Seq<ActivityView>, src: SourceView)
    ensures
        forall|i: int|
            0 <= i < audit_findings(events, src).len() ==> hedged(
                #[trigger] audit_findings(events, src)[i],
            ),
{
    lemma_findings_hedged(events, media_windows(events), events.len() as int, src);
}

proof fn lemma_findings_hedged(
    events: Seq<ActivityView>,
    windows: Seq<(i64, Seq<char>)>,
    n: int,
    src: SourceView,
)
    ensures
        forall|i: int|
            0 <= i < findings_upto(events, windows, n, src).len() ==> hedged(
                #[trigger] findings_upto(events, windows, n, src)[i],
            ),
    decreases n,
{
    if n > 0 {
        lemma_findings_hedged(events, windows, n - 1, src);
        let prev = findings_upto(events, windows, n - 1, src);
        let all = findings_upto(events, windows, n, src);
        match activity_finding(events[n - 1], windows, src) {
            Some(f) => {
                let a = events[n - 1];
                if a.action is HistoryTampered {
                    lemma_history_note_hedged(tampered_text(a));
                } else {
                    match (a.action, a.timestamp, a.subject) {
                        (Action::Executed, Some(ts), SubjectView::Command(cmd)) => {
                            let w = first_window(windows, ts)->0;
                            lemma_media_note_hedged(cmd, w.1);
                        },
                        _ => {},
                    }
                }
                assert forall|i: int| 0 <= i < all.len() implies hedged(#[trigger] all[i]) by {
                    if i < prev.len() {
                        assert(all[i] == prev[i]);
                    } else {
                        assert(all[i] == f);
                    }
                }
            },
            None => {
                assert(all =~= prev);
            },
        }
    }
}


/// Activity `a` opens a removable-media window that `ts` falls within.
pub open spec fn near_media(a: ActivityView, ts: i64) -> bool {
    match media_window(a) {
        Some(w) => within_window(ts, w.0),
        None => false,
    }
}

proof fn lemma_windows_members(events: Seq<ActivityView>, w: (i64, Seq<char>))
    ensures
        media_windows(events).contains(w) <==> exists|j: int|
            0 <= j < events.len() && media_window(#[trigger] events[j]) == Some(w),
    decreases events.len(),
{
    if events.len() > 0 {
        let init = events.drop_last();
        lemma_windows_members(init, w);
        let prev = media_windows(init);
        let tail = match media_window(events.last()) {
            Some(x) => seq![x],
            None => Seq::<(i64, Seq<char>)>::empty(),
        };
        assert(media_windows(events) == prev + tail);
        if (prev + tail).contains(w) {
            let i = choose|i: int| 0 <= i < (prev + tail).len() && (prev + tail)[i] == w;
            if i < prev.len() {
                assert(prev[i] == w);
                let j = choose|j: int| 0 <= j < init.len() && media_window(#[trigger] init[j]) == Some(w);
                assert(events[j] == init[j]);
            } else {
                assert(media_window(events[events.len() - 1]) == Some(w));
            }
        }
        if exists|j: int| 0 <= j < events.len() && media_window(#[trigger] events[j]) == Some(w) {
            let j = choose|j: int| 0 <= j < events.len() && media_window(#[trigger] events[j]) == Some(w);
            if j < events.len() - 1 {
                assert(init[j] == events[j]);
                let i = choose|i: int| 0 <= i < prev.len() && prev[i] == w;
                assert((prev + tail)[i] == w);
            } else {
                assert((prev + tail)[prev.len() as int] == w);
            }
        }
    }
}

proof fn lemma_first_window(windows: Seq<(i64, Seq<char>)>, ts: i64)
    ensures
        first_window(windows, ts) is Some <==> exists|i: int|
            0 <= i < windows.len() && within_window(ts, (#[trigger] windows[i]).0),
        first_window(windows, ts) is Some ==> windows.contains(first_window(windows, ts)->0)
            && within_window(ts, (first_window(windows, ts)->0).0),
    decreases windows.len(),
{
    if windows.len() > 0 {
        let rest = windows.drop_first();
        lemma_first_window(rest, ts);
        if !within_window(ts, windows[0].0) {
            if exists|i: int| 0 <= i < windows.len() && within_window(ts, (#[trigger] windows[i]).0) {
                let i = choose|i: int| 0 <= i < windows.len() && within_window(ts, (#[trigger] windows[i]).0);
                assert(rest[i - 1] == windows[i]);
            }
            if first_window(rest, ts) is Some {
                let w = first_window(rest, ts)->0;
                let i = choose|i: int| 0 <= i < rest.len() && rest[i] == w;
                assert(windows[i + 1] == w);
            }
        } else {
            assert(windows[0] == windows[0]);
        }
    }
}

/// A timestamped executed command draws `USERACT-EXEC-DURING-REMOVABLE-MEDIA`
/// exactly when some timestamped connection of a removable mass-storage device in
/// the timeline lies within [`REMOVABLE_MEDIA_WINDOW_SECS`] of it; the finding
/// then cites such a connection.
pub proof fn exec_finding_iff_near_media(events: Seq<ActivityView>, src: SourceView, k: int)
    requires
        0 <= k < events.len(),
        events[k].action is Executed,
        events[k].timestamp is Some,
        events[k].subject is Command,
    ensures
        activity_finding(events[k], media_windows(events), src) is Some <==> exists|j: int|
            0 <= j < events.len() && near_media(#[trigger] events[j], events[k].timestamp->0),
        activity_finding(events[k], media_windows(events), src) is Some ==> exists|j: int|
            0 <= j < events.len() && near_media(#[trigger] events[j], events[k].timestamp->0)
                && activity_finding(events[k], media_windows(events), src) == Some(
                media_finding(
                    events[k].subject->Command_0,
                    events[k].timestamp->0,
                    (media_window(events[j])->0).0,
                    (media_window(events[j])->0).1,
                    src,
                ),
            ),
{
    let ts = events[k].timestamp->0;
    let ws = media_windows(events);
    lemma_first_window(ws, ts);
    if first_window(ws, ts) is Some {
        let w = first_window(ws, ts)->0;
        lemma_windows_members(events, w);
        let j = choose|j: int| 0 <= j < events.len() && media_window(#[trigger] events[j]) == Some(w);
        assert(near_media(events[j], ts));
    }
    if exists|j: int| 0 <= j < events.len() && near_media(#[trigger] events[j], ts) {
        let j = choose|j: int| 0 <= j < events.len() && near_media(#[trigger] events[j], ts);
        let w = media_window(events[j])->0;
        lemma_windows_members(events, w);
        let i = choose|i: int| 0 <= i < ws.len() && ws[i] == w;
        assert(within_window(ts, ws[i].0));
    }
}

proof fn lemma_findings_include(
    events: Seq<ActivityView>,
    windows: Seq<(i64, Seq<char>)>,
    n: int,
    src: SourceView,
    k: int,
)
    requires
        0 <= k < n <= events.len(),
        activity_finding(events[k], windows, src) is Some,
    ensures
        findings_upto(events, windows, n, src).contains(
            activity_finding(events[k], windows, src)->0,
        ),
    decreases n,
{
    let f = activity_finding(events[k], windows, src)->0;
    let prev = findings_upto(events, windows, n - 1, src);
    let all = findings_upto(events, windows, n, src);
    if k < n - 1 {
        lemma_findings_include(events, windows, n - 1, src, k);
        let i = choose|i: int| 0 <= i < prev.len() && prev[i] == f;
        assert(all[i] == prev[i]);
    } else {
        assert(all[prev.len() as int] == f);
    }
}

/// Every history-tampering activity in the timeline is reported as a
/// `USERACT-HISTORY-TAMPERED` finding naming its command text.
pub proof fn history_tampering_is_reported(events: Seq<ActivityView>, src: SourceView, k: int)
    requires
        0 <= k < events.len(),
        events[k].action is HistoryTampered,
    ensures
        audit_findings(events, src).contains(history_finding(tampered_text(events[k]), src)),
{
    lemma_findings_include(events, media_windows(events), events.len() as int, src, k);
}


/// A timestamped executed command is reported as
/// `USERACT-EXEC-DURING-REMOVABLE-MEDIA` (Low / Threat, citing the command and its
/// epoch) whenever some timestamped connection of a device whose instance id names
/// a removable mass-storage bus lies within an hour of it, before or after.
pub proof fn exec_near_mass_storage_is_reported(
    events: Seq<ActivityView>,
    src: SourceView,
    k: int,
    j: int,
)
    requires
        0 <= k < events.len(),
        0 <= j < events.len(),
        events[k].action is Executed,
        events[k].timestamp is Some,
        events[k].subject is Command,
        events[j].action is Connected,
        events[j].subject is Device,
        events[j].timestamp is Some,
        mass_storage_id(events[j].subject->id),
        -3600 <= events[k].timestamp->0 - events[j].timestamp->0 <= 3600,
    ensures
        exists|i: int|
            0 <= i < audit_findings(events, src).len() && {
                let f = #[trigger] audit_findings(events, src)[i];
                &&& f.code == "USERACT-EXEC-DURING-REMOVABLE-MEDIA"@
                &&& f.severity == Some(Severity::Low)
                &&& f.category == Category::Threat
                &&& f.evidence[0] == ("command"@, events[k].subject->Command_0)
                &&& f.evidence[2] == ("command_epoch"@, decimal_i64(events[k].timestamp->0))
                &&& f.source == src
            },
{
    let t = events[k].timestamp->0;
    assert(media_window(events[j]) == Some((events[j].timestamp->0, events[j].subject->id)));
    assert(near_media(events[j], t));
    exec_finding_iff_near_media(events, src, k);
    let ws = media_windows(events);
    let f = activity_finding(events[k], ws, src)->0;
    lemma_findings_include(events, ws, events.len() as int, src, k);
    let fs = audit_findings(events, src);
    let i = choose|i: int| 0 <= i < fs.len() && fs[i] == f;
    assert(fs[i] == f);
}

/// Every history-tampering activity is reported as `USERACT-HISTORY-TAMPERED`
/// (Medium / Concealment) whose one evidence row is the command text: the
/// activity's command, or its detail when the subject is not a command.
pub proof fn history_tampering_is_reported_as_concealment(
    events: Seq<ActivityView>,
    src: SourceView,
    k: int,
)
    requires
        0 <= k < events.len(),
        events[k].action is HistoryTampered,
    ensures
        exists|i: int|
            0 <= i < audit_findings(events, src).len() && {
                let f = #[trigger] audit_findings(events, src)[i];
                &&& f.code == "USERACT-HISTORY-TAMPERED"@
                &&& f.severity == Some(Severity::Medium)
                &&& f.category == Category::Concealment
                &&& f.evidence == seq![
                    ("command"@, match events[k].subject {
                        SubjectView::Command(c) => c,
                        _ => events[k].detail,
                    }),
                ]
                &&& f.mitre == seq!["T1070.003"@]
                &&& f.source == src
            },
{
    history_tampering_is_reported(events, src, k);
    let fs = audit_findings(events, src);
    let f = history_finding(tampered_text(events[k]), src);
    let i = choose|i: int| 0 <= i < fs.len() && fs[i] == f;
    assert(fs[i] == f);
}

proof fn lemma_findings_origin(
    events: Seq<ActivityView>,
    windows: Seq<(i64, Seq<char>)>,
    n: int,
    src: SourceView,
    i: int,
)
    requires
        0 <= n <= events.len(),
        0 <= i < findings_upto(events, windows, n, src).len(),
    ensures
        exists|k: int|
            0 <= k < n && activity_finding(#[trigger] events[k], windows, src) == Some(
                findings_upto(events, windows, n, src)[i],
            ),
    decreases n,
{
    let prev = findings_upto(events, windows, n - 1, src);
    let all = findings_upto(events, windows, n, src);
    if i < prev.len() {
        lemma_findings_origin(events, windows, n - 1, src, i);
        assert(all[i] == prev[i]);
    } else {
        assert(activity_finding(events[n - 1], windows, src) == Some(all[i]));
    }
}

/// Every finding has a cause in the timeline: either a history-tampering activity
/// (`USERACT-HISTORY-TAMPERED`, naming its command text), or a timestamped executed
/// command together with a timestamped connection of a removable mass-storage
/// device within an hour of it (`USERACT-EXEC-DURING-REMOVABLE-MEDIA`, naming the
/// command and that device). Nothing else is ever reported.
pub proof fn findings_have_causes(events: Seq<ActivityView>, src: SourceView, i: int)
    requires
        0 <= i < audit_findings(events, src).len(),
    ensures
        ({
            let f = audit_findings(events, src)[i];
            &&& f.source == src
            &&& {
                ||| (f.code == "USERACT-HISTORY-TAMPERED"@ && f.severity == Some(Severity::Medium)
                    && f.category == Category::Concealment && f.mitre == seq!["T1070.003"@]
                    && exists|k: int|
                    0 <= k < events.len() && (#[trigger] events[k]).action is HistoryTampered
                        && f.evidence == seq![
                        ("command"@, match events[k].subject {
                            SubjectView::Command(c) => c,
                            _ => events[k].detail,
                        }),
                    ])
                ||| (f.code == "USERACT-EXEC-DURING-REMOVABLE-MEDIA"@ && f.severity == Some(
                    Severity::Low,
                ) && f.category == Category::Threat && f.mitre == seq!["T1052"@, "T1091"@]
                    && exists|k: int, j: int|
                    0 <= k < events.len() && 0 <= j < events.len()
                        && (#[trigger] events[k]).action is Executed && events[k].timestamp is Some
                        && events[k].subject is Command && (#[trigger] events[j]).action is Connected
                        && events[j].subject is Device && events[j].timestamp is Some
                        && mass_storage_id(events[j].subject->id) && -3600 <= events[k].timestamp->0
                        - events[j].timestamp->0 <= 3600 && f.evidence == seq![
                        ("command"@, events[k].subject->Command_0),
                        ("device"@, events[j].subject->id),
                        ("command_epoch"@, decimal_i64(events[k].timestamp->0)),
                        ("device_epoch"@, decimal_i64(events[j].timestamp->0)),
                    ])
            }
        }),
{
    let ws = media_windows(events);
    lemma_findings_origin(events, ws, events.len() as int, src, i);
    let f = audit_findings(events, src)[i];
    let k = choose|k: int|
        0 <= k < events.len() && activity_finding(#[trigger] events[k], ws, src) == Some(f);
    let a = events[k];
    if a.action is HistoryTampered {
        assert(f == history_finding(tampered_text(a), src));
    } else {
        let t = a.timestamp->0;
        lemma_first_window(ws, t);
        let w = first_window(ws, t)->0;
        lemma_windows_members(events, w);
        let j = choose|j: int| 0 <= j < events.len() && media_window(#[trigger] events[j]) == Some(w);
        assert(f == media_finding(a.subject->Command_0, t, w.0, w.1, src));
        assert(events[j].subject->id == w.1);
    }
}


/// Whether a finding carries the history-tampering code.
pub open spec fn is_history_code(f: FindingView) -> bool {
    f.code == "USERACT-HISTORY-TAMPERED"@
}

proof fn lemma_history_counts(
    events: Seq<ActivityView>,
    windows: Seq<(i64, Seq<char>)>,
    n: int,
    src: SourceView,
)
    requires
        0 <= n <= events.len(),
    ensures
        findings_upto(events, windows, n, src).filter(|f: FindingView| is_history_code(f)).len()
            == events.take(n).filter(|a: ActivityView| a.action is HistoryTampered).len(),
        findings_upto(events, windows, n, src).len() <= n,
    decreases n,
{
    broadcast use vstd::seq_lib::group_seq_lib_default;

    let q = |f: FindingView| is_history_code(f);
    let p = |a: ActivityView| a.action is HistoryTampered;
    if n == 0 {
        assert(events.take(0) =~= Seq::<ActivityView>::empty());
        assert(Seq::<ActivityView>::empty().filter(p) =~= Seq::<ActivityView>::empty()) by {
            reveal(Seq::filter);
        }
        assert(Seq::<FindingView>::empty().filter(q) =~= Seq::<FindingView>::empty()) by {
            reveal(Seq::filter);
        }
    } else {
        lemma_history_counts(events, windows, n - 1, src);
        let a = events[n - 1];
        assert(events.take(n) =~= events.take(n - 1).push(a));
        events.take(n - 1).lemma_filter_push(a, p);
        let prev = findings_upto(events, windows, n - 1, src);
        reveal_strlit("USERACT-HISTORY-TAMPERED");
        reveal_strlit("USERACT-EXEC-DURING-REMOVABLE-MEDIA");
        match activity_finding(a, windows, src) {
            Some(f) => {
                assert(findings_upto(events, windows, n, src) =~= prev.push(f));
                prev.lemma_filter_push(f, q);
                if a.action is HistoryTampered {
                    assert(is_history_code(f));
                } else {
                    assert(f.code.len() != "USERACT-HISTORY-TAMPERED"@.len());
                    assert(!is_history_code(f));
                }
            },
            None => {
                assert(findings_upto(events, windows, n, src) =~= prev);
                assert(!(a.action is HistoryTampered));
            },
        }
    }
}

/// One finding per history-tampering activity and at most one finding per
/// activity: the `USERACT-HISTORY-TAMPERED` findings are exactly as many as the
/// history-tampering activities, and there are never more findings than activities.
pub proof fn findings_count(events: Seq<ActivityView>, src: SourceView)
    ensures
        audit_findings(events, src).filter(|f: FindingView| f.code == "USERACT-HISTORY-TAMPERED"@).len()
            == events.filter(|a: ActivityView| a.action is HistoryTampered).len(),
        audit_findings(events, src).len() <= events.len(),
{
    lemma_history_counts(events, media_windows(events), events.len() as int, src);
    assert(events.take(events.len() as int) =~= events);
    assert((|f: FindingView| is_history_code(f)) =~= (|f: FindingView|
        f.code == "USERACT-HISTORY-TAMPERED"@));
}


proof fn lemma_findings_ordered(
    events: Seq<ActivityView>,
    windows: Seq<(i64, Seq<char>)>,
    n: int,
    src: SourceView,
    i: int,
    i2: int,
)
    requires
        0 <= n <= events.len(),
        0 <= i < i2 < findings_upto(events, windows, n, src).len(),
    ensures
        exists|k: int, k2: int|
            0 <= k < k2 < n && activity_finding(#[trigger] events[k], windows, src) == Some(
                findings_upto(events, windows, n, src)[i],
            ) && activity_finding(#[trigger] events[k2], windows, src) == Some(
                findings_upto(events, windows, n, src)[i2],
            ),
    decreases n,
{
    let prev = findings_upto(events, windows, n - 1, src);
    let all = findings_upto(events, windows, n, src);
    if i2 < prev.len() {
        lemma_findings_ordered(events, windows, n - 1, src, i, i2);
        assert(all[i] == prev[i] && all[i2] == prev[i2]);
        let (k, k2) = choose|k: int, k2: int|
            0 <= k < k2 < n - 1 && activity_finding(#[trigger] events[k], windows, src) == Some(
                prev[i],
            ) && activity_finding(#[trigger] events[k2], windows, src) == Some(prev[i2]);
        assert(activity_finding(events[k], windows, src) == Some(all[i]));
        assert(activity_finding(events[k2], windows, src) == Some(all[i2]));
    } else {
        lemma_findings_origin(events, windows, n - 1, src, i);
        let k = choose|k: int|
            0 <= k < n - 1 && activity_finding(#[trigger] events[k], windows, src) == Some(prev[i]);
        assert(all[i] == prev[i]);
        assert(activity_finding(events[n - 1], windows, src) == Some(all[i2]));
        assert(activity_finding(events[k], windows, src) == Some(all[i]));
    }
}

/// Findings come in activity order: of two findings, the earlier one stems from an
/// earlier activity.
pub proof fn findings_follow_activity_order(
    events: Seq<ActivityView>,
    src: SourceView,
    i: int,
    i2: int,
)
    requires
        0 <= i < i2 < audit_findings(events, src).len(),
    ensures
        exists|k: int, k2: int|
            0 <= k < k2 < events.len() && activity_finding(
                #[trigger] events[k],
                media_windows(events),
                src,
            ) == Some(audit_findings(events, src)[i]) && activity_finding(
                #[trigger] events[k2],
                media_windows(events),
                src,
            ) == Some(audit_findings(events, src)[i2]),
{
    lemma_findings_ordered(events, media_windows(events), events.len() as int, src, i, i2);
}

} // verus!
