//! The system mirror's reconciliation rules: detecting sequence gaps per
//! event source, deciding which snapshots to refresh, counting resyncs and
//! keeping a bounded window of recent event summaries.

use vstd::prelude::*;
use vstd::hash_map::StringHashMap;
use crate::comm::{ComponentIdentity, EventEnvelope, uuid_string, uuid_text};
use crate::recorder::{RecorderEvent, RecorderLifecycle};
use crate::text::{decimal_text, lemma_decimal_text, u64_text};

verus! {

/// The identity an event source is tracked by: its component type, its
/// component name and its runtime instance.
pub type SourceKey = (Seq<char>, Seq<char>, Seq<char>);

/// The identity of an event's source.
pub open spec fn source_key(source: ComponentIdentity) -> SourceKey {
    (source.component.component_type@, source.component.component_name@, source.instance_id.0@)
}

/// `field` preceded by its length and `:`, then `rest`.
pub open spec fn length_prefixed(field: Seq<char>, rest: Seq<char>) -> Seq<char> {
    decimal_text(field.len()) + ":"@ + field + rest
}

/// The text a source's history is stored under: type and name each prefixed
/// by their length, then the instance. Distinct identities never share a text
/// (`lemma_key_text_injective`).
pub open spec fn key_text(k: SourceKey) -> Seq<char> {
    length_prefixed(k.0, length_prefixed(k.1, k.2))
}

proof fn lemma_length_prefixed_injective(x: Seq<char>, rx: Seq<char>, y: Seq<char>, ry: Seq<char>)
    requires
        length_prefixed(x, rx) == length_prefixed(y, ry),
    ensures
        x == y,
        rx == ry,
{
    reveal_strlit(":");
    let s = length_prefixed(x, rx);
    let dx = decimal_text(x.len());
    let dy = decimal_text(y.len());
    lemma_decimal_text(x.len());
    lemma_decimal_text(y.len());
    assert(s =~= dx + (seq![':'] + (x + rx)));
    assert(s =~= dy + (seq![':'] + (y + ry)));
    assert(s[dx.len() as int] == ':');
    assert(s[dy.len() as int] == ':');
    if dx.len() < dy.len() {
        assert(s[dx.len() as int] == dy[dx.len() as int]);
        assert(false);
    }
    if dy.len() < dx.len() {
        assert(s[dy.len() as int] == dx[dy.len() as int]);
        assert(false);
    }
    assert(dx =~= s.subrange(0, dx.len() as int));
    assert(dy =~= s.subrange(0, dy.len() as int));
    assert(x.len() == y.len());
    let start: int = dx.len() as int + 1;
    assert(x =~= s.subrange(start, start + x.len() as int));
    assert(y =~= s.subrange(start, start + y.len() as int));
    assert(rx =~= s.subrange(start + x.len() as int, s.len() as int));
    assert(ry =~= s.subrange(start + y.len() as int, s.len() as int));
}

/// Distinct source identities are stored under distinct texts.
pub proof fn lemma_key_text_injective(a: SourceKey, b: SourceKey)
    requires
        key_text(a) == key_text(b),
    ensures
        a == b,
{
    lemma_length_prefixed_injective(a.0, length_prefixed(a.1, a.2), b.0, length_prefixed(b.1, b.2));
    lemma_length_prefixed_injective(a.1, a.2, b.1, b.2);
}

/// Whether observing `sequence` from source `key` reveals a gap: the source
/// was seen before and `sequence` is not the successor of its last sequence
/// (which saturates at `u64::MAX`).
pub open spec fn reveals_gap(last: Map<SourceKey, u64>, key: SourceKey, sequence: u64) -> bool {
    last.contains_key(key) && sequence != last[key].saturating_add(1)
}

/// Remembers the last event sequence number seen from each event source.
pub struct SequenceTracker {
    last_by_source: StringHashMap<u64>,
}

impl SequenceTracker {
    /// The last sequence seen, by source identity.
    pub closed spec fn view(&self) -> Map<SourceKey, u64> {
        Map::new(
            |k: SourceKey| self.last_by_source@.contains_key(key_text(k)),
            |k: SourceKey| self.last_by_source@[key_text(k)],
        )
    }

    pub fn new() -> (tracker: Self)
        ensures
            tracker.view() == Map::<SourceKey, u64>::empty(),
    {
        let tracker = SequenceTracker { last_by_source: StringHashMap::new() };
        assert(tracker.view() =~= Map::<SourceKey, u64>::empty());
        tracker
    }

    /// Records `sequence` as the last one from `source` and reports whether it
    /// reveals a gap (a lost event or a restarted sequence). The histories of
    /// all other sources are left as they were.
    pub fn observe(&mut self, source: &ComponentIdentity, sequence: u64) -> (gap: bool)
        ensures
            gap == reveals_gap(old(self).view(), source_key(*source), sequence),
            final(self).view() == old(self).view().insert(source_key(*source), sequence),
            forall|k: SourceKey|
                k != source_key(*source) ==> (#[trigger] final(self).view().contains_key(k)
                    == old(self).view().contains_key(k)) && (old(self).view().contains_key(k)
                    ==> final(self).view()[k] == old(self).view()[k]),
    {
        proof {
            reveal_strlit(":");
        }
        let kind = &source.component.component_type;
        let name = &source.component.component_name;
        let key = u64_text(kind.as_str().unicode_len() as u64).concat(":").concat(kind.as_str()).concat(
            u64_text(name.as_str().unicode_len() as u64).as_str(),
        ).concat(":").concat(name.as_str()).concat(source.instance_id.0.as_str());
        let ghost sk = source_key(*source);
        assert(key@ =~= key_text(sk));
        let gap = match self.last_by_source.get(key.as_str()) {
            Some(last) => sequence != last.saturating_add(1),
            None => false,
        };
        let ghost before = self.last_by_source@;
        self.last_by_source.insert(key, sequence);
        proof {
            assert forall|k: SourceKey| k != sk implies key_text(k) != key_text(sk) by {
                if key_text(k) == key_text(sk) {
                    lemma_key_text_injective(k, sk);
                }
            }
            assert(self.view() =~= old(self).view().insert(sk, sequence));
        }
        gap
    }
}

impl Default for SequenceTracker {
    fn default() -> (tracker: Self)
        ensures
            tracker.view() == Map::<SourceKey, u64>::empty(),
    {
        Self::new()
    }
}

/// Events observed in order never reveal a gap, while any other sequence
/// after a known one does: after `n` from a source, `n + 1` is a gap exactly
/// never, and any `m != n + 1` (with `n < u64::MAX`) always is. A source seen
/// for the first time never reveals one, and other sources' histories do not
/// count.
pub proof fn lemma_in_order_sequences_have_no_gap(
    last: Map<SourceKey, u64>,
    key: SourceKey,
    other: SourceKey,
    n: u64,
    m: u64,
)
    requires
        n < u64::MAX,
    ensures
        !reveals_gap(last.insert(key, n), key, (n + 1) as u64),
        m != n + 1 ==> reveals_gap(last.insert(key, n), key, m),
        !reveals_gap(Map::empty(), key, m),
        other != key ==> reveals_gap(last.insert(key, n), other, m) == reveals_gap(last, other, m),
{
}

/// A line of the mirror's recent-event log.
#[derive(Debug, Clone)]
pub struct EventSummary {
    pub source: ComponentIdentity,
    pub sequence: u64,
    pub event_id: String,
    pub correlation_id: Option<String>,
    pub summary: String,
}

/// Summarizes an event with the text `describe` gives its payload.
pub fn summarize<T, F: FnOnce(T) -> String>(event: EventEnvelope<T>, describe: F) -> (s:
    EventSummary)
    requires
        call_requires(describe, (event.payload,)),
    ensures
        s.source == event.source,
        s.sequence == event.sequence,
        s.event_id@ == uuid_text(event.event_id.0),
        match event.correlation_id {
            Some(id) => s.correlation_id matches Some(c) && c@ == uuid_text(id.0),
            None => s.correlation_id is None,
        },
        call_ensures(describe, (event.payload,), s.summary),
{
    let correlation_id = match event.correlation_id {
        Some(id) => Some(uuid_string(id.0)),
        None => None,
    };
    EventSummary {
        source: event.source,
        sequence: event.sequence,
        event_id: uuid_string(event.event_id.0),
        correlation_id,
        summary: describe(event.payload),
    }
}

/// The name of a recorder lifecycle as it is printed (`Debug`).
pub open spec fn recorder_lifecycle_text(lifecycle: RecorderLifecycle) -> Seq<char> {
    match lifecycle {
        RecorderLifecycle::Idle => "Idle"@,
        RecorderLifecycle::Recording => "Recording"@,
        RecorderLifecycle::Error => "Error"@,
    }
}

/// The line a recorder event is summarized with.
pub open spec fn recorder_event_text(event: RecorderEvent) -> Seq<char> {
    match event {
        RecorderEvent::LifecycleChanged { lifecycle } => "recorder lifecycle: "@
            + recorder_lifecycle_text(lifecycle),
        RecorderEvent::SessionStarted { path } => "recording started: "@ + path@,
        RecorderEvent::SessionStopped { path } => "recording stopped: "@ + path@,
        RecorderEvent::FrameRecorded { frame_id } => "frame recorded: "@ + decimal_text(
            frame_id as nat,
        ),
        RecorderEvent::DetectionRecorded { frame_id } => "detection recorded for frame: "@
            + decimal_text(frame_id as nat),
        RecorderEvent::Error { message } => "recorder error: "@ + message@,
    }
}

fn describe_recorder_event(payload: RecorderEvent) -> (text: String)
    ensures
        text@ == recorder_event_text(payload),
{
    match payload {
        RecorderEvent::LifecycleChanged { lifecycle } => {
            let name = match lifecycle {
                RecorderLifecycle::Idle => String::from_str("Idle"),
                RecorderLifecycle::Recording => String::from_str("Recording"),
                RecorderLifecycle::Error => String::from_str("Error"),
            };
            String::from_str("recorder lifecycle: ").concat(name.as_str())
        },
        RecorderEvent::SessionStarted { path } => String::from_str("recording started: ").concat(
            path.as_str(),
        ),
        RecorderEvent::SessionStopped { path } => String::from_str("recording stopped: ").concat(
            path.as_str(),
        ),
        RecorderEvent::FrameRecorded { frame_id } => String::from_str("frame recorded: ").concat(
            u64_text(frame_id).as_str(),
        ),
        RecorderEvent::DetectionRecorded { frame_id } => String::from_str(
            "detection recorded for frame: ",
        ).concat(u64_text(frame_id).as_str()),
        RecorderEvent::Error { message } => String::from_str("recorder error: ").concat(
            message.as_str(),
        ),
    }
}

/// Summarizes a recorder event for the operator's event log.
pub fn summarize_recorder(event: EventEnvelope<RecorderEvent>) -> (s: EventSummary)
    ensures
        s.source == event.source,
        s.sequence == event.sequence,
        s.event_id@ == uuid_text(event.event_id.0),
        match event.correlation_id {
            Some(id) => s.correlation_id matches Some(c) && c@ == uuid_text(id.0),
            None => s.correlation_id is None,
        },
        s.summary@ == recorder_event_text(event.payload),
{
    summarize(event, |payload: RecorderEvent| -> (text: String)
        ensures
            text@ == recorder_event_text(payload),
        { describe_recorder_event(payload) })
}

/// The component an event stream belongs to.
#[derive(Debug, Clone, Copy, PartialEq, Eq, Structural)]
pub enum MirroredComponent {
    Camera,
    Vision,
    Recorder,
}

/// What arrived on one of the mirror's event subscriptions.
#[derive(Debug, Clone)]
pub enum MirrorSignal {
    /// An event from a component with its source and sequence number.
    Event { component: MirroredComponent, source: ComponentIdentity, sequence: u64 },
    /// The subscription fell behind and events were lost.
    Lagged,
    /// The subscription ended.
    Closed,
}

/// Which snapshots the mirror reloads after a signal, and whether the signal
/// forces a full resync.
#[derive(Debug, Clone, Copy, PartialEq, Eq)]
pub struct MirrorRefresh {
    pub needs_resync: bool,
    pub refresh_camera: bool,
    pub refresh_vision: bool,
    pub refresh_recorder: bool,
}

/// Reconciliation plan for one signal: an event refreshes its component's
/// snapshot and forces a resync when it reveals a sequence gap; a lagged
/// subscription forces a resync of everything; a closed one is skipped.
pub fn plan_refresh(tracker: &mut SequenceTracker, signal: &MirrorSignal) -> (plan: Option<
    MirrorRefresh,
>)
    ensures
        match *signal {
            MirrorSignal::Event { component, source, sequence } => {
                &&& final(tracker).view() == old(tracker).view().insert(
                    source_key(source),
                    sequence,
                )
                &&& plan == Some(
                    MirrorRefresh {
                        needs_resync: reveals_gap(
                            old(tracker).view(),
                            source_key(source),
                            sequence,
                        ),
                        refresh_camera: component == MirroredComponent::Camera,
                        refresh_vision: component == MirroredComponent::Vision,
                        refresh_recorder: component == MirroredComponent::Recorder,
                    },
                )
            },
            MirrorSignal::Lagged => final(tracker).view() == old(tracker).view() && plan == Some(
                MirrorRefresh {
                    needs_resync: true,
                    refresh_camera: true,
                    refresh_vision: true,
                    refresh_recorder: true,
                },
            ),
            MirrorSignal::Closed => final(tracker).view() == old(tracker).view() && plan is None,
        },
{
    match signal {
        MirrorSignal::Event { component, source, sequence } => {
            let gap = tracker.observe(source, *sequence);
            Some(
                MirrorRefresh {
                    needs_resync: gap,
                    refresh_camera: *component == MirroredComponent::Camera,
                    refresh_vision: *component == MirroredComponent::Vision,
                    refresh_recorder: *component == MirroredComponent::Recorder,
                },
            )
        },
        MirrorSignal::Lagged => Some(
            MirrorRefresh {
                needs_resync: true,
                refresh_camera: true,
                refresh_vision: true,
                refresh_recorder: true,
            },
        ),
        MirrorSignal::Closed => None,
    }
}

/// How many recent event summaries the mirror keeps.
pub const RECENT_EVENT_LIMIT: usize = 80;

/// The newest `RECENT_EVENT_LIMIT` entries of a log, oldest first.
pub open spec fn recent_window<T>(log: Seq<T>) -> Seq<T> {
    if log.len() > RECENT_EVENT_LIMIT {
        log.subrange(log.len() - RECENT_EVENT_LIMIT, log.len() as int)
    } else {
        log
    }
}

/// Appends a summary to the recent-event log and drops the oldest entries
/// beyond the limit.
pub fn push_recent_event(recent: &mut Vec<EventSummary>, summary: EventSummary)
    ensures
        final(recent)@ == recent_window(old(recent)@.push(summary)),
{
    recent.push(summary);
    let ghost full = recent@;
    let ghost mut removed: int = 0;
    while recent.len() > RECENT_EVENT_LIMIT
        invariant
            recent@ == full.subrange(removed, full.len() as int),
            0 <= removed <= full.len(),
            full.len() > RECENT_EVENT_LIMIT ==> removed <= full.len() - RECENT_EVENT_LIMIT,
            full.len() <= RECENT_EVENT_LIMIT ==> removed == 0,
        decreases recent@.len(),
    {
        recent.remove(0);
        proof {
            removed = removed + 1;
        }
        assert(recent@ =~= full.subrange(removed, full.len() as int));
    }
    assert(recent@ =~= recent_window(full));
}

/// The recent-event log after appending `items`, one at a time, to an empty
/// log with `push_recent_event`.
pub open spec fn recent_after<T>(items: Seq<T>) -> Seq<T>
    decreases items.len(),
{
    if items.len() == 0 {
        Seq::empty()
    } else {
        recent_window(recent_after(items.drop_last()).push(items.last()))
    }
}

/// Over a whole run, the recent-event log holds the newest `min(n, 80)` of the
/// `n` summaries appended, oldest dropped first, in arrival order.
pub proof fn lemma_recent_events_over_a_run<T>(items: Seq<T>)
    ensures
        recent_after(items) == recent_window(items),
        recent_after(items).len() == (if items.len() < RECENT_EVENT_LIMIT {
            items.len()
        } else {
            RECENT_EVENT_LIMIT as nat
        }),
        forall|i: int|
            0 <= i < recent_after(items).len() ==> #[trigger] recent_after(items)[i]
                == items[items.len() - recent_after(items).len() + i],
    decreases items.len(),
{
    if items.len() > 0 {
        let prev = items.drop_last();
        lemma_recent_events_over_a_run(prev);
        assert(prev.push(items.last()) =~= items);
        assert(recent_window(recent_window(prev).push(items.last())) =~= recent_window(items));
    }
}

/// The resync counter after a reconciliation step: one more (saturating) when
/// the step forced a resync.
pub fn next_resync_count(count: u64, needs_resync: bool) -> (next: u64)
    ensures
        next == (if needs_resync {
            count.saturating_add(1)
        } else {
            count
        }),
{
    if needs_resync {
        count.saturating_add(1)
    } else {
        count
    }
}

/// The recent-event log never holds more than `RECENT_EVENT_LIMIT` entries,
/// and appending keeps the newest entry last.
pub proof fn lemma_recent_window_bounded(log: Seq<EventSummary>, summary: EventSummary)
    ensures
        recent_window(log.push(summary)).len() <= RECENT_EVENT_LIMIT,
        recent_window(log.push(summary)).last() == summary,
{
}

/// A recorder event's summary names what happened: a lifecycle change by the
/// lifecycle's name (`Idle`, `Recording`, `Error`), so that distinct
/// lifecycles give distinct lines, and a stored frame or detection by its
/// frame id, so that distinct ids give distinct lines.
pub proof fn lemma_recorder_summaries_name_their_payload(
    a: RecorderLifecycle,
    b: RecorderLifecycle,
    m: u64,
    n: u64,
)
    ensures
        recorder_event_text(RecorderEvent::LifecycleChanged { lifecycle: RecorderLifecycle::Idle })
            == "recorder lifecycle: Idle"@,
        recorder_event_text(
            RecorderEvent::LifecycleChanged { lifecycle: RecorderLifecycle::Recording },
        ) == "recorder lifecycle: Recording"@,
        recorder_event_text(RecorderEvent::LifecycleChanged { lifecycle: RecorderLifecycle::Error })
            == "recorder lifecycle: Error"@,
        recorder_event_text(RecorderEvent::LifecycleChanged { lifecycle: a })
            == recorder_event_text(RecorderEvent::LifecycleChanged { lifecycle: b }) ==> a == b,
        recorder_event_text(RecorderEvent::FrameRecorded { frame_id: m })
            == recorder_event_text(RecorderEvent::FrameRecorded { frame_id: n }) ==> m == n,
        recorder_event_text(RecorderEvent::DetectionRecorded { frame_id: m })
            == recorder_event_text(RecorderEvent::DetectionRecorded { frame_id: n }) ==> m == n,
{
    reveal_strlit("recorder lifecycle: ");
    reveal_strlit("Idle");
    reveal_strlit("Recording");
    reveal_strlit("Error");
    reveal_strlit("recorder lifecycle: Idle");
    reveal_strlit("recorder lifecycle: Recording");
    reveal_strlit("recorder lifecycle: Error");
    reveal_strlit("frame recorded: ");
    reveal_strlit("detection recorded for frame: ");
    assert("recorder lifecycle: "@ + "Idle"@ =~= "recorder lifecycle: Idle"@);
    assert("recorder lifecycle: "@ + "Recording"@ =~= "recorder lifecycle: Recording"@);
    assert("recorder lifecycle: "@ + "Error"@ =~= "recorder lifecycle: Error"@);
    let ta = recorder_event_text(RecorderEvent::LifecycleChanged { lifecycle: a });
    let tb = recorder_event_text(RecorderEvent::LifecycleChanged { lifecycle: b });
    if ta == tb && a != b {
        assert(ta.len() != tb.len() || ta[20] != tb[20]);
    }
    lemma_decimal_text(m as nat);
    lemma_decimal_text(n as nat);
    let pf = "frame recorded: "@;
    if recorder_event_text(RecorderEvent::FrameRecorded { frame_id: m }) == recorder_event_text(
        RecorderEvent::FrameRecorded { frame_id: n },
    ) {
        assert(decimal_text(m as nat) =~= (pf + decimal_text(m as nat)).subrange(
            pf.len() as int,
            (pf + decimal_text(m as nat)).len() as int,
        ));
        assert(decimal_text(n as nat) =~= (pf + decimal_text(n as nat)).subrange(
            pf.len() as int,
            (pf + decimal_text(n as nat)).len() as int,
        ));
    }
    let pd = "detection recorded for frame: "@;
    if recorder_event_text(RecorderEvent::DetectionRecorded { frame_id: m })
        == recorder_event_text(RecorderEvent::DetectionRecorded { frame_id: n }) {
        assert(decimal_text(m as nat) =~= (pd + decimal_text(m as nat)).subrange(
            pd.len() as int,
            (pd + decimal_text(m as nat)).len() as int,
        ));
        assert(decimal_text(n as nat) =~= (pd + decimal_text(n as nat)).subrange(
            pd.len() as int,
            (pd + decimal_text(n as nat)).len() as int,
        ));
    }
}

} // verus!
