//! The recorder's session bookkeeping: its lifecycle, its counters, the
//! decisions taken on commands, frames and vision events, the naming of
//! session directories and the frame files it writes and reads back.

use vstd::prelude::*;
use crate::comm::{ApiError, invalid_request_with};
use crate::frame::{Frame, FrameMeta, PixelFormat, frame_as_gray, frame_gray, layout_fits, fits_in_usize, bytes_contents, lemma_gray_rows_len, lemma_pixels_fit};
use crate::text::{char_digits_value, lemma_char_digits_push, decimal_text, u64_text, u128_text, lemma_decimal_text};
use crate::ordering::{Ranked, is_stable_sort, stable_sort_by_rank, stably_sorted_from};
use crate::pgm::{encode_pgm_header, pgm_header, pgm_decode, PgmFault, lemma_pgm_roundtrip};

verus! {

#[derive(Debug, Clone, Copy, PartialEq, Eq, Structural)]
pub enum RecorderLifecycle {
    Idle,
    Recording,
    Error,
}

#[derive(Debug, Clone)]
pub struct RecorderState {
    pub lifecycle: RecorderLifecycle,
    pub session_path: Option<String>,
    pub recorded_frames: u64,
    pub recorded_detections: u64,
    pub dropped_frames: u64,
    pub error: Option<String>,
}

impl Default for RecorderState {
    fn default() -> (state: Self)
        ensures
            state.lifecycle == RecorderLifecycle::Idle,
            state.session_path is None,
            state.recorded_frames == 0,
            state.recorded_detections == 0,
            state.dropped_frames == 0,
            state.error is None,
    {
        RecorderState {
            lifecycle: RecorderLifecycle::Idle,
            session_path: None,
            recorded_frames: 0,
            recorded_detections: 0,
            dropped_frames: 0,
            error: None,
        }
    }
}

/// Summary of a persisted recording session owned by the recorder.
#[derive(Debug, Clone)]
pub struct RecordedSession {
    /// Stable directory name relative to the recorder's configured session root.
    pub id: String,
    pub created_at_ms: u64,
    pub frame_count: u64,
    pub detection_count: u64,
}

/// Metadata for a single frame available from a persisted recording session.
#[derive(Debug, Clone)]
pub struct RecordedFrame {
    pub meta: FrameMeta,
}

#[derive(Debug, Clone)]
pub enum RecorderEvent {
    LifecycleChanged { lifecycle: RecorderLifecycle },
    SessionStarted { path: String },
    SessionStopped { path: String },
    FrameRecorded { frame_id: u64 },
    DetectionRecorded { frame_id: u64 },
    Error { message: String },
}

/// The fields a recorder state keeps apart from its lifecycle.
pub open spec fn same_counters(a: RecorderState, b: RecorderState) -> bool {
    &&& a.session_path == b.session_path
    &&& a.recorded_frames == b.recorded_frames
    &&& a.recorded_detections == b.recorded_detections
    &&& a.dropped_frames == b.dropped_frames
    &&& a.error == b.error
}

/// Accepting a start request: refused while a session is already recording.
pub fn check_start_recording(state: &RecorderState) -> (r: Result<(), ApiError>)
    ensures
        r is Ok <==> state.lifecycle != RecorderLifecycle::Recording,
        r matches Err(e) ==> e matches ApiError::Rejected(m) && m@
            == "recorder is already running"@,
{
    if state.lifecycle == RecorderLifecycle::Recording {
        return Err(ApiError::Rejected(String::from_str("recorder is already running")));
    }
    Ok(())
}

/// Opens a session at `path` (created on disk by the caller): the recorder is
/// recording with fresh counters and no error, and announces the session.
pub fn begin_session(state: &mut RecorderState, path: String) -> (started: RecorderEvent)
    ensures
        final(state).lifecycle == RecorderLifecycle::Recording,
        final(state).session_path == Some(path),
        final(state).recorded_frames == 0,
        final(state).recorded_detections == 0,
        final(state).dropped_frames == 0,
        final(state).error is None,
        started == (RecorderEvent::SessionStarted { path }),
{
    state.lifecycle = RecorderLifecycle::Recording;
    state.session_path = Some(path.clone());
    state.recorded_frames = 0;
    state.recorded_detections = 0;
    state.dropped_frames = 0;
    state.error = None;
    RecorderEvent::SessionStarted { path }
}

/// Stops a running session: the recorder returns to idle and announces the
/// session path (empty when none is known). Outside a session nothing
/// changes and nothing is announced.
pub fn stop_session(state: &mut RecorderState) -> (stopped: Option<RecorderEvent>)
    ensures
        old(state).lifecycle == RecorderLifecycle::Recording ==> {
            &&& final(state).lifecycle == RecorderLifecycle::Idle
            &&& same_counters(*final(state), *old(state))
            &&& stopped matches Some(RecorderEvent::SessionStopped { path }) && path@ == (
                match old(state).session_path {
                Some(p) => p@,
                None => Seq::<char>::empty(),
            })
        },
        old(state).lifecycle != RecorderLifecycle::Recording ==> {
            &&& *final(state) == *old(state)
            &&& stopped is None
        },
{
    if state.lifecycle == RecorderLifecycle::Recording {
        let path = match &state.session_path {
            Some(p) => p.clone(),
            None => String::new(),
        };
        state.lifecycle = RecorderLifecycle::Idle;
        Some(RecorderEvent::SessionStopped { path })
    } else {
        None
    }
}

/// What to do with a frame from the camera.
#[derive(Debug, Clone, PartialEq, Eq)]
pub enum FrameAction {
    /// Not recording: the frame is not looked at.
    Ignore,
    /// Recording, but too soon after the last stored frame: counted as dropped.
    Drop,
    /// Store the frame under the session directory.
    Store { session_path: String },
}

/// Decides on an incoming frame. `due` says whether the rate limit allows
/// storing a frame now. A frame that arrives too soon counts as dropped.
pub fn frame_arrived(state: &mut RecorderState, due: bool) -> (action: FrameAction)
    ensures
        old(state).lifecycle != RecorderLifecycle::Recording ==> action == FrameAction::Ignore
            && *final(state) == *old(state),
        old(state).lifecycle == RecorderLifecycle::Recording && !due ==> {
            &&& action == FrameAction::Drop
            &&& final(state).dropped_frames == old(state).dropped_frames.saturating_add(1)
            &&& final(state).lifecycle == old(state).lifecycle
            &&& final(state).session_path == old(state).session_path
            &&& final(state).recorded_frames == old(state).recorded_frames
            &&& final(state).recorded_detections == old(state).recorded_detections
            &&& final(state).error == old(state).error
        },
        old(state).lifecycle == RecorderLifecycle::Recording && due ==> {
            &&& *final(state) == *old(state)
            &&& match old(state).session_path {
                Some(p) => action matches FrameAction::Store { session_path } && session_path@
                    == p@,
                None => action == FrameAction::Ignore,
            }
        },
{
    if state.lifecycle != RecorderLifecycle::Recording {
        return FrameAction::Ignore;
    }
    if !due {
        state.dropped_frames = state.dropped_frames.saturating_add(1);
        return FrameAction::Drop;
    }
    match &state.session_path {
        Some(p) => FrameAction::Store { session_path: p.clone() },
        None => FrameAction::Ignore,
    }
}

/// A stored frame: counted, and announced by its id.
pub fn frame_stored(state: &mut RecorderState, frame_id: u64) -> (recorded: RecorderEvent)
    ensures
        final(state).recorded_frames == old(state).recorded_frames.saturating_add(1),
        final(state).lifecycle == old(state).lifecycle,
        final(state).session_path == old(state).session_path,
        final(state).recorded_detections == old(state).recorded_detections,
        final(state).dropped_frames == old(state).dropped_frames,
        final(state).error == old(state).error,
        recorded == (RecorderEvent::FrameRecorded { frame_id }),
{
    state.recorded_frames = state.recorded_frames.saturating_add(1);
    RecorderEvent::FrameRecorded { frame_id }
}

/// Whether a vision event is written to the session: only while recording
/// into a known session directory, which is returned.
pub fn vision_event_target(state: &RecorderState) -> (target: Option<String>)
    ensures
        match target {
            Some(p) => state.lifecycle == RecorderLifecycle::Recording && (
            state.session_path matches Some(q) && p@ == q@),
            None => state.lifecycle != RecorderLifecycle::Recording || state.session_path is None,
        },
{
    if state.lifecycle != RecorderLifecycle::Recording {
        return None;
    }
    match &state.session_path {
        Some(p) => Some(p.clone()),
        None => None,
    }
}

/// A stored detection: counted, and announced by the frame it belongs to.
pub fn detection_stored(state: &mut RecorderState, frame_id: u64) -> (recorded: RecorderEvent)
    ensures
        final(state).recorded_detections == old(state).recorded_detections.saturating_add(1),
        final(state).lifecycle == old(state).lifecycle,
        final(state).session_path == old(state).session_path,
        final(state).recorded_frames == old(state).recorded_frames,
        final(state).dropped_frames == old(state).dropped_frames,
        final(state).error == old(state).error,
        recorded == (RecorderEvent::DetectionRecorded { frame_id }),
{
    state.recorded_detections = state.recorded_detections.saturating_add(1);
    RecorderEvent::DetectionRecorded { frame_id }
}

/// Vision events lost to a lagging subscription count as dropped.
pub fn events_skipped(state: &mut RecorderState, skipped: u64)
    ensures
        final(state).dropped_frames == old(state).dropped_frames.saturating_add(skipped),
        final(state).lifecycle == old(state).lifecycle,
        final(state).session_path == old(state).session_path,
        final(state).recorded_frames == old(state).recorded_frames,
        final(state).recorded_detections == old(state).recorded_detections,
        final(state).error == old(state).error,
{
    state.dropped_frames = state.dropped_frames.saturating_add(skipped);
}

/// A failure puts the recorder in the error state with the message, which is
/// also announced.
pub fn recorder_failed(state: &mut RecorderState, message: &str) -> (failed: RecorderEvent)
    ensures
        final(state).lifecycle == RecorderLifecycle::Error,
        final(state).error matches Some(m) && m@ == message@,
        final(state).session_path == old(state).session_path,
        final(state).recorded_frames == old(state).recorded_frames,
        final(state).recorded_detections == old(state).recorded_detections,
        final(state).dropped_frames == old(state).dropped_frames,
        failed matches RecorderEvent::Error { message: m } && m@ == message@,
{
    state.lifecycle = RecorderLifecycle::Error;
    state.error = Some(String::from_str(message));
    RecorderEvent::Error { message: String::from_str(message) }
}

/// A session directory name: `session-` followed by one or more ASCII digits.
pub open spec fn is_session_name(value: Seq<char>) -> bool {
    &&& value.len() > 8
    &&& value.subrange(0, 8) == "session-"@
    &&& forall|i: int| 8 <= i < value.len() ==> '0' <= #[trigger] value[i] <= '9'
}

/// Whether `value` names a session directory.
pub fn is_session_id(value: &str) -> (r: bool)
    ensures
        r == is_session_name(value@),
{
    proof {
        reveal_strlit("session-");
    }
    let prefix = "session-";
    let n = value.unicode_len();
    if n <= 8 {
        return false;
    }
    let mut i: usize = 0;
    while i < 8
        invariant
            i <= 8,
            n == value@.len(),
            n > 8,
            prefix@ == "session-"@,
            prefix@.len() == 8,
            forall|k: int| 0 <= k < i ==> value@[k] == prefix@[k],
        decreases 8 - i,
    {
        if value.get_char(i) != prefix.get_char(i) {
            assert(value@.subrange(0, 8)[i as int] != "session-"@[i as int]);
            return false;
        }
        i = i + 1;
    }
    assert(value@.subrange(0, 8) =~= "session-"@);
    let mut j: usize = 8;
    while j < n
        invariant
            8 <= j <= n,
            n == value@.len(),
            forall|k: int| 8 <= k < j ==> '0' <= #[trigger] value@[k] <= '9',
        decreases n - j,
    {
        let c = value.get_char(j);
        if !('0' <= c && c <= '9') {
            return false;
        }
        j = j + 1;
    }
    true
}

/// Accepts a session id only when it names a session directory.
pub fn check_session_id(session_id: &str) -> (r: Result<(), ApiError>)
    ensures
        r is Ok <==> is_session_name(session_id@),
        r is Err ==> invalid_request_with(r, "invalid recorded session id"@),
{
    if !is_session_id(session_id) {
        return Err(ApiError::InvalidRequest(String::from_str("invalid recorded session id")));
    }
    Ok(())
}

/// The creation time a session directory name carries: the number after
/// `session-` when it fits in a `u64`, else 0.
pub open spec fn session_created_at(value: Seq<char>) -> u64 {
    if is_session_name(value) && char_digits_value(value.subrange(8, value.len() as int))
        <= u64::MAX {
        char_digits_value(value.subrange(8, value.len() as int)) as u64
    } else {
        0
    }
}

/// The creation time (milliseconds since the Unix epoch) encoded in a session
/// directory name, or 0 when the name carries none that fits in a `u64`.
pub fn session_created_at_ms(id: &str) -> (ms: u64)
    ensures
        ms == session_created_at(id@),
{
    if !is_session_id(id) {
        return 0;
    }
    let n = id.unicode_len();
    let mut acc: u128 = 0;
    let mut j: usize = 8;
    while j < n
        invariant
            8 <= j <= n,
            n == id@.len(),
            is_session_name(id@),
            acc == char_digits_value(id@.subrange(8, j as int)),
            acc <= u64::MAX,
        decreases n - j,
    {
        let c = id.get_char(j);
        proof {
            lemma_char_digits_push(id@.subrange(8, j as int), c);
            assert(id@.subrange(8, j + 1) =~= id@.subrange(8, j as int).push(c));
        }
        let digit = (c as u32 - 48) as u128;
        acc = acc * 10 + digit;
        if acc > 0xffff_ffff_ffff_ffffu128 {
            proof {
                lemma_digits_grow(id@, (j + 1) as int);
            }
            return 0;
        }
        j = j + 1;
    }
    acc as u64
}

proof fn lemma_digits_grow(value: Seq<char>, j: int)
    requires
        is_session_name(value),
        8 <= j <= value.len(),
    ensures
        char_digits_value(value.subrange(8, value.len() as int)) >= char_digits_value(
            value.subrange(8, j),
        ),
    decreases value.len() - j,
{
    if j < value.len() {
        lemma_digits_grow(value, j + 1);
        let c = value[j];
        lemma_char_digits_push(value.subrange(8, j), c);
        assert(value.subrange(8, j + 1) =~= value.subrange(8, j).push(c));
    }
}

/// A frame file in the recording format: a binary PGM header with the
/// frame's size, then its grayscale pixels.
pub fn pgm_frame_file(frame: &Frame) -> (r: Result<Vec<u8>, String>)
    requires
        fits_in_usize(frame.meta),
    ensures
        match r {
            Ok(file) => layout_fits(frame.meta, bytes_contents(frame.bytes).len()) && file@
                == pgm_header(frame.meta.width, frame.meta.height) + frame_gray(*frame),
            Err(msg) => !layout_fits(frame.meta, bytes_contents(frame.bytes).len()) && msg@
                == "frame data does not match its declared layout"@,
        },
{
    let gray = match frame_as_gray(frame) {
        Ok(g) => g,
        Err(e) => return Err(e),
    };
    let mut file = encode_pgm_header(frame.meta.width, frame.meta.height);
    let ghost header = file@;
    let mut i: usize = 0;
    while i < gray.len()
        invariant
            i <= gray@.len(),
            file@ == header + gray@.subrange(0, i as int),
        decreases gray@.len() - i,
    {
        file.push(gray[i]);
        i = i + 1;
        assert(gray@.subrange(0, i as int) =~= gray@.subrange(0, i - 1).push(gray@[i - 1]));
    }
    assert(gray@.subrange(0, gray@.len() as int) =~= gray@);
    Ok(file)
}

/// What is read back from a frame file is what was recorded: decoding the
/// file written for a frame, against the frame's own size, gives the frame's
/// grayscale pixels. (A frame's payload, like every allocation, is
/// addressable.)
pub proof fn lemma_recorded_frame_reads_back(frame: Frame)
    requires
        fits_in_usize(frame.meta),
        layout_fits(frame.meta, bytes_contents(frame.bytes).len()),
        bytes_contents(frame.bytes).len() <= usize::MAX,
    ensures
        pgm_decode(
            pgm_header(frame.meta.width, frame.meta.height) + frame_gray(frame),
            frame.meta.width,
            frame.meta.height,
        ) == Ok::<Seq<u8>, PgmFault>(frame_gray(frame)),
{
    lemma_pixels_fit(frame.meta, bytes_contents(frame.bytes).len());
    lemma_gray_rows_len(
        bytes_contents(frame.bytes),
        frame.meta.width as nat,
        frame.meta.stride as nat,
        frame.meta.pixel_format,
        frame.meta.height as nat,
    );
    assert(frame.meta.width as nat * frame.meta.height as nat == frame.meta.width * frame.meta.height);
    lemma_pgm_roundtrip(frame.meta.width, frame.meta.height, frame_gray(frame));
}

/// One line of a session's `frames.jsonl`.
#[derive(Debug, Clone)]
pub struct FrameRecord {
    pub frame_id: u64,
    pub timestamp_ms: u64,
    pub width: u32,
    pub height: u32,
    pub stride: u32,
    pub pixel_format: Option<PixelFormat>,
    pub path: String,
}

impl FrameRecord {
    /// The record of a frame stored as gray bytes at `path`.
    pub fn for_stored_frame(meta: &FrameMeta, path: String) -> (record: Self)
        ensures
            record.frame_id == meta.frame_id,
            record.timestamp_ms == meta.timestamp_ms,
            record.width == meta.width,
            record.height == meta.height,
            record.stride == meta.width,
            record.pixel_format == Some(PixelFormat::Gray8),
            record.path == path,
    {
        FrameRecord {
            frame_id: meta.frame_id,
            timestamp_ms: meta.timestamp_ms,
            width: meta.width,
            height: meta.height,
            stride: meta.width,
            pixel_format: Some(PixelFormat::Gray8),
            path,
        }
    }

    /// The frame metadata a record describes: a missing stride or one below
    /// the width reads as the width, a missing pixel format as Gray8.
    pub fn meta(self) -> (meta: FrameMeta)
        ensures
            meta.frame_id == self.frame_id,
            meta.timestamp_ms == self.timestamp_ms,
            meta.width == self.width,
            meta.height == self.height,
            meta.stride == (if self.stride >= self.width {
                self.stride
            } else {
                self.width
            }),
            meta.pixel_format == (match self.pixel_format {
                Some(f) => f,
                None => PixelFormat::Gray8,
            }),
    {
        FrameMeta {
            frame_id: self.frame_id,
            timestamp_ms: self.timestamp_ms,
            width: self.width,
            height: self.height,
            stride: if self.stride >= self.width {
                self.stride
            } else {
                self.width
            },
            pixel_format: match self.pixel_format {
                Some(f) => f,
                None => PixelFormat::Gray8,
            },
        }
    }

    /// The listing entry of a record: always its metadata, as `meta` gives it.
    pub fn recorded_frame(self) -> (r: Result<RecordedFrame, ApiError>)
        ensures
            r matches Ok(f) && {
                &&& f.meta.frame_id == self.frame_id
                &&& f.meta.timestamp_ms == self.timestamp_ms
                &&& f.meta.width == self.width
                &&& f.meta.height == self.height
                &&& f.meta.stride == (if self.stride >= self.width {
                    self.stride
                } else {
                    self.width
                })
                &&& f.meta.pixel_format == (match self.pixel_format {
                    Some(pf) => pf,
                    None => PixelFormat::Gray8,
                })
            },
    {
        Ok(RecordedFrame { meta: self.meta() })
    }
}

/// The directory name of a session started at `ms` milliseconds after the
/// Unix epoch.
pub open spec fn session_name_for(ms: nat) -> Seq<char> {
    "session-"@ + decimal_text(ms)
}

/// The directory name for a session started at `ms` milliseconds after the
/// Unix epoch: `session-{ms}`.
pub fn session_dir_name(ms: u128) -> (name: String)
    ensures
        name@ == session_name_for(ms as nat),
{
    String::from_str("session-").concat(u128_text(ms).as_str())
}

/// Sessions are listed under the names they were created with: a session
/// directory name is recognized as one, and carries the creation time it was
/// named after (when that fits in a `u64`).
pub proof fn lemma_session_name_roundtrip(ms: nat)
    ensures
        is_session_name(session_name_for(ms)),
        ms <= u64::MAX ==> session_created_at(session_name_for(ms)) == ms,
{
    reveal_strlit("session-");
    lemma_decimal_text(ms);
    let name = session_name_for(ms);
    let digits = decimal_text(ms);
    assert(name.subrange(0, 8) =~= "session-"@);
    assert(name.subrange(8, name.len() as int) =~= digits);
    assert forall|i: int| 8 <= i < name.len() implies '0' <= #[trigger] name[i] <= '9' by {
        assert(name[i] == digits[i - 8]);
    }
}

/// `s` left-padded with `'0'` to at least `width` characters.
pub open spec fn zero_padded(s: Seq<char>, width: nat) -> Seq<char> {
    if s.len() < width {
        Seq::new((width - s.len()) as nat, |i: int| '0') + s
    } else {
        s
    }
}

/// The file name of a stored frame: `frame_{id:08}.pgm`.
pub open spec fn frame_file_name_for(frame_id: u64) -> Seq<char> {
    "frame_"@ + zero_padded(decimal_text(frame_id as nat), 8) + ".pgm"@
}

/// The file a frame is stored in within a session's `frames` directory.
pub fn frame_file_name(frame_id: u64) -> (name: String)
    ensures
        name@ == frame_file_name_for(frame_id),
{
    let digits = u64_text(frame_id);
    let count = digits.as_str().unicode_len();
    let mut name = String::from_str("frame_");
    let ghost prefix = name@;
    let mut pad: usize = count;
    while pad < 8
        invariant
            count == decimal_text(frame_id as nat).len(),
            count <= pad <= 8 || (count > 8 && pad == count),
            name@ == prefix + Seq::new((pad - count) as nat, |i: int| '0'),
        decreases 8 - pad,
    {
        name.append("0");
        pad = pad + 1;
        proof {
            reveal_strlit("0");
        }
        assert(name@ =~= prefix + Seq::new((pad - count) as nat, |i: int| '0'));
    }
    assert(count < 8 ==> pad == 8);
    name.append(digits.as_str());
    name.append(".pgm");
    assert(name@ =~= frame_file_name_for(frame_id));
    name
}

/// The record of a frame in a session, by frame id: the first record with
/// that id, or `InvalidRequest` when there is none.
pub fn find_frame_record(records: Vec<FrameRecord>, frame_id: u64) -> (r: Result<
    FrameRecord,
    ApiError,
>)
    ensures
        match r {
            Ok(record) => exists|i: int|
                0 <= i < records@.len() && records@[i] == record && record.frame_id == frame_id
                    && forall|j: int| 0 <= j < i ==> (#[trigger] records@[j]).frame_id != frame_id,
            Err(e) => invalid_request_with(
                Err::<(), ApiError>(e),
                "recorded frame was not found"@,
            ) && forall|j: int| 0 <= j < records@.len() ==> (#[trigger] records@[j]).frame_id
                != frame_id,
        },
{
    let ghost all = records@;
    let mut rest = records;
    let mut taken: usize = 0;
    let mut i: usize = 0;
    while i < rest.len()
        invariant
            rest@ == all,
            all == records@,
            i <= all.len(),
            forall|j: int| 0 <= j < i ==> (#[trigger] all[j]).frame_id != frame_id,
        decreases all.len() - i,
    {
        if rest[i].frame_id == frame_id {
            let record = rest.remove(i);
            assert(record == all[i as int]);
            assert(exists|k: int|
                0 <= k < all.len() && all[k] == record && record.frame_id == frame_id && forall|
                    j: int,
                | 0 <= j < k ==> (#[trigger] all[j]).frame_id != frame_id) by {
                assert(all[i as int] == record);
            }
            return Ok(record);
        }
        i = i + 1;
    }
    Err(ApiError::InvalidRequest(String::from_str("recorded frame was not found")))
}

impl Ranked for FrameRecord {
    open spec fn rank(&self) -> int {
        self.frame_id as int
    }

    fn rank_value(&self) -> (r: i128) {
        self.frame_id as i128
    }
}

impl Ranked for RecordedSession {
    open spec fn rank(&self) -> int {
        -(self.created_at_ms as int)
    }

    fn rank_value(&self) -> (r: i128) {
        -(self.created_at_ms as i128)
    }
}

/// Frame records in frame-id order; records with the same id keep their
/// order in the file.
pub fn sort_frame_records(records: Vec<FrameRecord>) -> (sorted: Vec<FrameRecord>)
    ensures
        is_stable_sort(records@, sorted@),
        forall|k: int, l: int|
            0 <= k < l < sorted@.len() ==> sorted@[k].frame_id <= sorted@[l].frame_id,
{
    let sorted = stable_sort_by_rank(records);
    proof {
        let origin = choose|origin: Seq<int>| stably_sorted_from(records@, sorted@, origin);
        assert forall|k: int, l: int| 0 <= k < l < sorted@.len() implies sorted@[k].frame_id
            <= sorted@[l].frame_id by {
            assert(sorted@[k].rank() <= sorted@[l].rank());
        }
    }
    sorted
}

/// Sessions newest first by creation time; sessions created at the same time
/// keep their listing order.
pub fn sort_sessions_newest_first(sessions: Vec<RecordedSession>) -> (sorted: Vec<
    RecordedSession,
>)
    ensures
        is_stable_sort(sessions@, sorted@),
        forall|k: int, l: int|
            0 <= k < l < sorted@.len() ==> sorted@[k].created_at_ms >= sorted@[l].created_at_ms,
{
    let sorted = stable_sort_by_rank(sessions);
    proof {
        let origin = choose|origin: Seq<int>| stably_sorted_from(sessions@, sorted@, origin);
        assert forall|k: int, l: int| 0 <= k < l < sorted@.len() implies sorted@[k].created_at_ms
            >= sorted@[l].created_at_ms by {
            assert(sorted@[k].rank() <= sorted@[l].rank());
        }
    }
    sorted
}

} // verus!
