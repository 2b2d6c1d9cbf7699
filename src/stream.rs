//! Reassembly of a streamed chat completion: byte chunks are cut into
//! lines across chunk boundaries, `data: ` frames are decoded, text deltas
//! are accumulated and emitted, usage is captured once, and one activity
//! beacon is requested on the first delta.
use vstd::prelude::*;
use crate::json::{json_string_at, json_value_text_at, string_at, value_text_at};
use crate::text::{chars_of, has_prefix, seq_eq, starts_with, trim_bounds, trimmed};

verus! {

broadcast use vstd::string::group_string_axioms;

/// The text that `String::from_utf8_lossy` makes of `b`.
pub uninterp spec fn utf8_lossy(b: Seq<u8>) -> Seq<char>;

/// Relies on `String::from_utf8_lossy`: bytes to text, invalid sequences
/// replaced.
#[verifier::external_body]
fn decode_lossy(b: &[u8]) -> (r: String)
    ensures
        r@ == utf8_lossy(b@),
{
    String::from_utf8_lossy(b).into_owned()
}

pub open spec fn frame_prefix() -> Seq<char> {
    "data: "@
}

pub open spec fn done_marker() -> Seq<char> {
    "[DONE]"@
}

pub open spec fn usage_pointer() -> Seq<char> {
    "/usage"@
}

pub open spec fn content_pointer() -> Seq<char> {
    "/choices/0/delta/content"@
}

/// The payload of a complete line: what follows `data: ` in the trimmed,
/// decoded line, if it starts so.
pub open spec fn frame_payload(line: Seq<u8>) -> Option<Seq<char>> {
    let t = trimmed(utf8_lossy(line));
    if has_prefix(t, frame_prefix()) {
        Some(t.subrange(frame_prefix().len() as int, t.len() as int))
    } else {
        None
    }
}

/// The line is the end-of-stream sentinel `data: [DONE]`.
pub open spec fn is_done_line(line: Seq<u8>) -> bool {
    frame_payload(line) == Some(done_marker())
}

/// The line is a frame with a payload to decode.
pub open spec fn is_data_line(line: Seq<u8>) -> bool {
    match frame_payload(line) {
        Some(p) => p != done_marker() && p.len() > 0,
        None => false,
    }
}

/// What the engine hands to its caller while reading.
#[derive(Debug)]
pub enum StreamEvent {
    /// One text fragment, in arrival order.
    Delta(String),
    /// The one activity beacon of the turn, with the usage captured so far.
    Activity(Option<String>),
}

pub enum EventView {
    Delta(Seq<char>),
    Activity(Option<Seq<char>>),
}

impl View for StreamEvent {
    type V = EventView;

    open spec fn view(&self) -> EventView {
        match self {
            StreamEvent::Delta(s) => EventView::Delta(s@),
            StreamEvent::Activity(u) => EventView::Activity(
                match u {
                    Some(x) => Some(x@),
                    None => None,
                },
            ),
        }
    }
}

pub open spec fn event_views(v: Seq<StreamEvent>) -> Seq<EventView> {
    v.map_values(|e: StreamEvent| e@)
}

/// What has been decoded so far.
pub struct Progress {
    pub text: Seq<char>,
    pub usage: Option<Seq<char>>,
    pub reported: bool,
    pub events: Seq<EventView>,
}

/// Usage after a payload: kept once captured, else the payload's
/// non-null `usage` value.
pub open spec fn captured_usage(u: Option<Seq<char>>, payload: Seq<char>) -> Option<Seq<char>> {
    match u {
        Some(x) => Some(x),
        None => match json_value_text_at(payload, usage_pointer()) {
            Some(x) => if x != "null"@ {
                Some(x)
            } else {
                None
            },
            None => None,
        },
    }
}

/// The effect of one decoded frame.
pub open spec fn apply_payload(p: Progress, payload: Seq<char>) -> Progress {
    let usage = captured_usage(p.usage, payload);
    match json_string_at(payload, content_pointer()) {
        Some(c) => Progress {
            text: p.text + c,
            usage,
            reported: true,
            events: if p.reported {
                p.events.push(EventView::Delta(c))
            } else {
                p.events.push(EventView::Delta(c)).push(EventView::Activity(usage))
            },
        },
        None => Progress { usage, ..p },
    }
}

/// The effect of one complete line; only data lines have one.
pub open spec fn apply_line(p: Progress, line: Seq<u8>) -> Progress {
    if is_data_line(line) {
        apply_payload(p, frame_payload(line)->0)
    } else {
        p
    }
}

/// All lines applied in order.
pub open spec fn run_lines(p: Progress, lines: Seq<Seq<u8>>) -> Progress
    decreases lines.len(),
{
    if lines.len() == 0 {
        p
    } else {
        apply_line(run_lines(p, lines.drop_last()), lines.last())
    }
}

/// The lines of one chunk's batch applied in order, stopping at the first
/// sentinel; the flag says whether it stopped.
pub open spec fn run_batch(p: Progress, lines: Seq<Seq<u8>>) -> (Progress, bool)
    decreases lines.len(),
{
    if lines.len() == 0 {
        (p, false)
    } else {
        let (q, stopped) = run_batch(p, lines.drop_last());
        if stopped || is_done_line(lines.last()) {
            (q, true)
        } else {
            (apply_line(q, lines.last()), false)
        }
    }
}

/// `t` cut at each newline: the complete lines, and what follows the last
/// newline.
pub open spec fn split_lines(t: Seq<u8>) -> (Seq<Seq<u8>>, Seq<u8>)
    decreases t.len(),
{
    if t.len() == 0 {
        (seq![], seq![])
    } else {
        let (lines, cur) = split_lines(t.drop_last());
        if t.last() == 10u8 {
            (lines.push(cur), seq![])
        } else {
            (lines, cur.push(t.last()))
        }
    }
}

pub struct StreamModel {
    pub buffer: Seq<u8>,
    pub progress: Progress,
}

/// The state after one chunk: the pending line and the chunk are cut into
/// lines, the complete ones form a batch, the rest is kept.
pub open spec fn feed_model(m: StreamModel, chunk: Seq<u8>) -> StreamModel {
    let (lines, rest) = split_lines(m.buffer + chunk);
    StreamModel { buffer: rest, progress: run_batch(m.progress, lines).0 }
}

pub open spec fn initial_model() -> StreamModel {
    StreamModel {
        buffer: seq![],
        progress: Progress { text: seq![], usage: None, reported: false, events: seq![] },
    }
}

/// The state of one streamed completion.
pub struct ChatStream {
    buffer: Vec<u8>,
    text: String,
    usage: Option<String>,
    reported: bool,
    events: Ghost<Seq<EventView>>,
}

impl View for ChatStream {
    type V = StreamModel;

    closed spec fn view(&self) -> StreamModel {
        StreamModel {
            buffer: self.buffer@,
            progress: Progress {
                text: self.text@,
                usage: match self.usage {
                    Some(u) => Some(u@),
                    None => None,
                },
                reported: self.reported,
                events: self.events@,
            },
        }
    }
}

impl ChatStream {
    pub fn new() -> (r: Self)
        ensures
            r@ == initial_model(),
    {
        ChatStream {
            buffer: Vec::new(),
            text: String::new(),
            usage: None,
            reported: false,
            events: Ghost(Seq::empty()),
        }
    }

    /// The text accumulated so far: the final result once the transport
    /// has ended.
    pub fn full_text(&self) -> (r: String)
        ensures
            r@ == self@.progress.text,
    {
        self.text.clone()
    }

    /// The usage captured so far.
    pub fn usage(&self) -> (r: Option<String>)
        ensures
            r matches Some(u) ==> self@.progress.usage == Some(u@),
            r is None ==> self@.progress.usage is None,
    {
        match &self.usage {
            Some(u) => Some(u.clone()),
            None => None,
        }
    }

    fn apply_payload(&mut self, payload: &str, out: &mut Vec<StreamEvent>)
        ensures
            final(self)@.buffer == old(self)@.buffer,
            final(self)@.progress == apply_payload(old(self)@.progress, payload@),
            final(self)@.progress.events == old(self)@.progress.events + event_views(
                final(out)@.skip(old(out)@.len() as int),
            ),
            final(out)@.len() >= old(out)@.len(),
            final(out)@.subrange(0, old(out)@.len() as int) == old(out)@,
    {
        let ghost p0 = self@.progress;
        let ghost out0 = out@;
        if self.usage.is_none() {
            match value_text_at(payload, "/usage") {
                Some(u) => {
                    let uv = chars_of(u.as_str());
                    let nullv = chars_of("null");
                    if !seq_eq(&uv, &nullv) {
                        self.usage = Some(u);
                    }
                },
                None => {},
            }
        }
        assert(self@.progress.usage == captured_usage(p0.usage, payload@));
        match string_at(payload, "/choices/0/delta/content") {
            Some(c) => {
                self.text.append(c.as_str());
                let d = c.clone();
                out.push(StreamEvent::Delta(d));
                self.events = Ghost(self.events@.push(EventView::Delta(c@)));
                if !self.reported {
                    self.reported = true;
                    let u = match &self.usage {
                        Some(u) => Some(u.clone()),
                        None => None,
                    };
                    let ghost uv = self@.progress.usage;
                    out.push(StreamEvent::Activity(u));
                    self.events = Ghost(self.events@.push(EventView::Activity(uv)));
                }
            },
            None => {},
        }
        assert(event_views(out@.skip(out0.len() as int)) =~= self@.progress.events.skip(
            p0.events.len() as int,
        ));
        assert(self@.progress.events =~= p0.events + self@.progress.events.skip(
            p0.events.len() as int,
        ));
        assert(out@.subrange(0, out0.len() as int) =~= out0);
    }

    /// Handles one complete line; says whether it was the sentinel.
    fn take_line(&mut self, line: &[u8], out: &mut Vec<StreamEvent>) -> (done: bool)
        ensures
            done == is_done_line(line@),
            final(self)@.buffer == old(self)@.buffer,
            final(self)@.progress == (if done {
                old(self)@.progress
            } else {
                apply_line(old(self)@.progress, line@)
            }),
            final(self)@.progress.events == old(self)@.progress.events + event_views(
                final(out)@.skip(old(out)@.len() as int),
            ),
            final(out)@.len() >= old(out)@.len(),
            final(out)@.subrange(0, old(out)@.len() as int) == old(out)@,
    {
        proof {
            reveal_strlit("data: ");
            reveal_strlit("[DONE]");
        }
        let s = decode_lossy(line);
        let v = chars_of(s.as_str());
        let (a, b) = trim_bounds(&v);
        let t = s.as_str().substring_char(a, b);
        let tv = chars_of(t);
        let prefix = chars_of("data: ");
        if !starts_with(&tv, &prefix) {
            assert(event_views(out@.skip(out@.len() as int)) =~= seq![]);
            assert(out@.subrange(0, out@.len() as int) =~= out@);
            assert(self@.progress.events =~= self@.progress.events + seq![]);
            return false;
        }
        let payload = t.substring_char(6, tv.len());
        let pv = chars_of(payload);
        let done = chars_of("[DONE]");
        if seq_eq(&pv, &done) || pv.len() == 0 {
            assert(event_views(out@.skip(out@.len() as int)) =~= seq![]);
            assert(out@.subrange(0, out@.len() as int) =~= out@);
            assert(self@.progress.events =~= self@.progress.events + seq![]);
            return seq_eq(&pv, &done);
        }
        self.apply_payload(payload, out);
        false
    }

    /// Takes one chunk of the response body and returns, in order, what it
    /// decoded: each delta, and the activity beacon on the first one.
    pub fn feed(&mut self, chunk: &[u8]) -> (out: Vec<StreamEvent>)
        ensures
            final(self)@ == feed_model(old(self)@, chunk@),
            final(self)@.progress.events == old(self)@.progress.events + event_views(out@),
            old(self)@.progress.usage is Some ==> final(self)@.progress.usage == old(
                self,
            )@.progress.usage,
    {
        let ghost p0 = self@.progress;
        let mut data: Vec<u8> = Vec::new();
        let mut k: usize = 0;
        while k < self.buffer.len()
            invariant
                k <= self.buffer@.len(),
                data@ == self.buffer@.subrange(0, k as int),
            decreases self.buffer@.len() - k,
        {
            data.push(self.buffer[k]);
            k = k + 1;
            assert(data@ =~= self.buffer@.subrange(0, k as int));
        }
        let mut k: usize = 0;
        let ghost base = data@;
        while k < chunk.len()
            invariant
                k <= chunk@.len(),
                data@ == base + chunk@.subrange(0, k as int),
            decreases chunk@.len() - k,
        {
            data.push(chunk[k]);
            k = k + 1;
            assert(data@ =~= base + chunk@.subrange(0, k as int));
        }
        assert(base =~= self.buffer@);
        assert(data@ =~= self@.buffer + chunk@);
        let mut out: Vec<StreamEvent> = Vec::new();
        let mut cur: Vec<u8> = Vec::new();
        let mut stopped = false;
        let mut i: usize = 0;
        assert(data@.subrange(0, 0) =~= seq![]);
        while i < data.len()
            invariant
                i <= data@.len(),
                cur@ == split_lines(data@.subrange(0, i as int)).1,
                run_batch(p0, split_lines(data@.subrange(0, i as int)).0) == (self@.progress, stopped),
                self@.progress.events == p0.events + event_views(out@),
                p0.usage is Some ==> self@.progress.usage == p0.usage,
            decreases data@.len() - i,
        {
            let ghost before = data@.subrange(0, i as int);
            assert(data@.subrange(0, i + 1).drop_last() =~= before);
            let ghost out0 = out@;
            let ghost lines0 = split_lines(before).0;
            assert(lines0.push(cur@).drop_last() =~= lines0);
            assert(lines0.push(cur@).last() == cur@);
            if data[i] == 10u8 {
                if !stopped {
                    let done = self.take_line(cur.as_slice(), &mut out);
                    if done {
                        stopped = true;
                    }
                    proof {
                        assert(out@ =~= out0 + out@.skip(out0.len() as int));
                        assert(event_views(out@) =~= event_views(out0) + event_views(
                            out@.skip(out0.len() as int),
                        ));
                        lemma_usage_kept(p0, split_lines(before).0.push(cur@));
                    }
                }
                cur = Vec::new();
            } else {
                cur.push(data[i]);
            }
            i = i + 1;
        }
        assert(data@.subrange(0, i as int) =~= data@);
        self.buffer = cur;
        out
    }
}

/// The bytes of the chunks, in order.
pub open spec fn flatten(chunks: Seq<Seq<u8>>) -> Seq<u8>
    decreases chunks.len(),
{
    if chunks.len() == 0 {
        seq![]
    } else {
        flatten(chunks.drop_last()) + chunks.last()
    }
}

/// The state after feeding `chunks` in order to a new engine.
pub open spec fn run_chunks(chunks: Seq<Seq<u8>>) -> StreamModel
    decreases chunks.len(),
{
    if chunks.len() == 0 {
        initial_model()
    } else {
        feed_model(run_chunks(chunks.drop_last()), chunks.last())
    }
}

/// No data frame follows a sentinel line.
pub open spec fn done_is_final(lines: Seq<Seq<u8>>) -> bool {
    forall|i: int, j: int|
        0 <= i < j < lines.len() && #[trigger] is_done_line(lines[i]) ==> !#[trigger] is_data_line(
            lines[j],
        )
}

/// The state that the whole text `t` gives, read as one piece.
pub open spec fn whole_model(t: Seq<u8>) -> StreamModel {
    StreamModel {
        buffer: split_lines(t).1,
        progress: run_lines(initial_model().progress, split_lines(t).0),
    }
}

proof fn lemma_rest_has_no_newline(t: Seq<u8>)
    ensures
        !split_lines(t).1.contains(10u8),
    decreases t.len(),
{
    if t.len() > 0 {
        lemma_rest_has_no_newline(t.drop_last());
        let cur = split_lines(t.drop_last()).1;
        if t.last() != 10u8 {
            assert forall|k: int| 0 <= k < cur.len() + 1 implies cur.push(t.last())[k] != 10u8 by {
                if k < cur.len() {
                    assert(cur.push(t.last())[k] == cur[k]);
                }
            }
        }
    }
}

proof fn lemma_no_newline_split(s: Seq<u8>)
    requires
        !s.contains(10u8),
    ensures
        split_lines(s) == (Seq::<Seq<u8>>::empty(), s),
    decreases s.len(),
{
    if s.len() > 0 {
        let d = s.drop_last();
        assert(!d.contains(10u8)) by {
            if d.contains(10u8) {
                let k = choose|k: int| 0 <= k < d.len() && d[k] == 10u8;
                assert(s[k] == 10u8);
            }
        }
        lemma_no_newline_split(d);
        assert(s[s.len() - 1] != 10u8);
        assert(d.push(s.last()) =~= s);
    } else {
        assert(s =~= seq![]);
    }
}

proof fn lemma_split_append(t: Seq<u8>, c: Seq<u8>)
    ensures
        split_lines(t + c).0 == split_lines(t).0 + split_lines(split_lines(t).1 + c).0,
        split_lines(t + c).1 == split_lines(split_lines(t).1 + c).1,
    decreases c.len(),
{
    let r = split_lines(t).1;
    if c.len() == 0 {
        assert(t + c =~= t);
        assert(r + c =~= r);
        lemma_rest_has_no_newline(t);
        lemma_no_newline_split(r);
        assert(split_lines(t).0 + Seq::<Seq<u8>>::empty() =~= split_lines(t).0);
    } else {
        let c1 = c.drop_last();
        lemma_split_append(t, c1);
        assert((t + c).drop_last() =~= t + c1);
        assert((r + c).drop_last() =~= r + c1);
        assert((t + c).last() == c.last());
        assert((r + c).last() == c.last());
        let a = split_lines(t).0;
        let b = split_lines(r + c1).0;
        assert((a + b).push(split_lines(r + c1).1) =~= a + b.push(split_lines(r + c1).1));
    }
}

proof fn lemma_run_lines_append(p: Progress, a: Seq<Seq<u8>>, b: Seq<Seq<u8>>)
    ensures
        run_lines(p, a + b) == run_lines(run_lines(p, a), b),
    decreases b.len(),
{
    if b.len() == 0 {
        assert(a + b =~= a);
    } else {
        lemma_run_lines_append(p, a, b.drop_last());
        assert((a + b).drop_last() =~= a + b.drop_last());
        assert((a + b).last() == b.last());
    }
}

proof fn lemma_batch_stopped(p: Progress, lines: Seq<Seq<u8>>)
    ensures
        run_batch(p, lines).1 ==> exists|k: int| 0 <= k < lines.len() && is_done_line(lines[k]),
    decreases lines.len(),
{
    if lines.len() > 0 {
        let d = lines.drop_last();
        lemma_batch_stopped(p, d);
        if run_batch(p, d).1 {
            let k = choose|k: int| 0 <= k < d.len() && is_done_line(d[k]);
            assert(lines[k] == d[k]);
        } else if is_done_line(lines.last()) {
            assert(is_done_line(lines[lines.len() - 1]));
        }
    }
}

proof fn lemma_batch_is_run(p: Progress, lines: Seq<Seq<u8>>)
    requires
        done_is_final(lines),
    ensures
        run_batch(p, lines).0 == run_lines(p, lines),
    decreases lines.len(),
{
    if lines.len() > 0 {
        let d = lines.drop_last();
        assert(done_is_final(d)) by {
            assert forall|i: int, j: int|
                0 <= i < j < d.len() && #[trigger] is_done_line(d[i]) implies !#[trigger] is_data_line(
                d[j],
            ) by {
                assert(d[i] == lines[i] && d[j] == lines[j]);
            }
        }
        lemma_batch_is_run(p, d);
        lemma_batch_stopped(p, d);
        let last = lines.len() - 1;
        if run_batch(p, d).1 {
            let k = choose|k: int| 0 <= k < d.len() && is_done_line(d[k]);
            assert(lines[k] == d[k]);
            assert(is_done_line(lines[k]));
            assert(!is_data_line(lines[last]));
        } else if is_done_line(lines.last()) {
            assert(!is_data_line(lines.last()));
        }
    }
}

proof fn lemma_run_chunks(chunks: Seq<Seq<u8>>)
    requires
        done_is_final(split_lines(flatten(chunks)).0),
    ensures
        run_chunks(chunks) == whole_model(flatten(chunks)),
    decreases chunks.len(),
{
    if chunks.len() == 0 {
        assert(split_lines(seq![]).0 =~= seq![]);
    } else {
        let prev = chunks.drop_last();
        let c = chunks.last();
        let t = flatten(prev);
        let r = split_lines(t).1;
        lemma_split_append(t, c);
        let a = split_lines(t).0;
        let b = split_lines(r + c).0;
        assert(split_lines(t + c).0 == a + b);
        assert(done_is_final(a)) by {
            assert forall|i: int, j: int|
                0 <= i < j < a.len() && #[trigger] is_done_line(a[i]) implies !#[trigger] is_data_line(
                a[j],
            ) by {
                assert((a + b)[i] == a[i] && (a + b)[j] == a[j]);
            }
        }
        assert(done_is_final(b)) by {
            assert forall|i: int, j: int|
                0 <= i < j < b.len() && #[trigger] is_done_line(b[i]) implies !#[trigger] is_data_line(
                b[j],
            ) by {
                assert((a + b)[i + a.len()] == b[i] && (a + b)[j + a.len()] == b[j]);
            }
        }
        lemma_run_chunks(prev);
        let m = run_chunks(prev);
        lemma_batch_is_run(m.progress, b);
        lemma_run_lines_append(initial_model().progress, a, b);
    }
}

/// Split invariance: two ways of cutting the same bytes into chunks give
/// the same emitted events, the same text, the same usage and the same
/// pending line, provided no data frame follows a `[DONE]` sentinel (a
/// sentinel ends only the batch of the chunk it arrives in).
pub proof fn lemma_split_invariance(a: Seq<Seq<u8>>, b: Seq<Seq<u8>>)
    requires
        flatten(a) == flatten(b),
        done_is_final(split_lines(flatten(a)).0),
    ensures
        run_chunks(a) == run_chunks(b),
        run_chunks(a) == whole_model(flatten(a)),
{
    lemma_run_chunks(a);
    lemma_run_chunks(b);
}

/// Usage is captured once, on its first non-null occurrence: after a frame
/// whose `usage` is non-null, a later frame's `usage` does not replace it.
pub proof fn lemma_usage_first_wins(p: Progress, first: Seq<char>, second: Seq<char>, u: Seq<char>)
    requires
        p.usage is None,
        json_value_text_at(first, usage_pointer()) == Some(u),
        u != "null"@,
    ensures
        apply_payload(p, first).usage == Some(u),
        apply_payload(apply_payload(p, first), second).usage == Some(u),
{
}

/// The number of activity beacons among `events`.
pub open spec fn activity_count(events: Seq<EventView>) -> nat
    decreases events.len(),
{
    if events.len() == 0 {
        0
    } else {
        activity_count(events.drop_last()) + if events.last() is Activity {
            1nat
        } else {
            0nat
        }
    }
}

/// One beacon once content has been seen, none before.
pub open spec fn beacon_accounted(p: Progress) -> bool {
    activity_count(p.events) == if p.reported {
        1nat
    } else {
        0nat
    }
}

proof fn lemma_count_push(events: Seq<EventView>, e: EventView)
    ensures
        activity_count(events.push(e)) == activity_count(events) + if e is Activity {
            1nat
        } else {
            0nat
        },
{
    assert(events.push(e).drop_last() =~= events);
}

proof fn lemma_payload_accounted(p: Progress, payload: Seq<char>)
    requires
        beacon_accounted(p),
    ensures
        beacon_accounted(apply_payload(p, payload)),
{
    match json_string_at(payload, content_pointer()) {
        Some(c) => {
            lemma_count_push(p.events, EventView::Delta(c));
            if !p.reported {
                let usage = captured_usage(p.usage, payload);
                lemma_count_push(p.events.push(EventView::Delta(c)), EventView::Activity(usage));
            }
        },
        None => {},
    }
}

proof fn lemma_batch_accounted(p: Progress, lines: Seq<Seq<u8>>)
    requires
        beacon_accounted(p),
    ensures
        beacon_accounted(run_batch(p, lines).0),
    decreases lines.len(),
{
    if lines.len() > 0 {
        lemma_batch_accounted(p, lines.drop_last());
        let q = run_batch(p, lines.drop_last()).0;
        if is_data_line(lines.last()) {
            lemma_payload_accounted(q, frame_payload(lines.last())->0);
        }
    }
}

proof fn lemma_chunks_accounted(chunks: Seq<Seq<u8>>)
    ensures
        beacon_accounted(run_chunks(chunks).progress),
    decreases chunks.len(),
{
    if chunks.len() > 0 {
        lemma_chunks_accounted(chunks.drop_last());
        let m = run_chunks(chunks.drop_last());
        lemma_batch_accounted(m.progress, split_lines(m.buffer + chunks.last()).0);
    }
}

/// A turn asks for at most one activity beacon, however its bytes arrive:
/// exactly one once any content has been emitted, none before.
pub proof fn lemma_single_activity_beacon(chunks: Seq<Seq<u8>>)
    ensures
        activity_count(run_chunks(chunks).progress.events) <= 1,
        activity_count(run_chunks(chunks).progress.events) == 1 <==> run_chunks(
            chunks,
        ).progress.reported,
{
    lemma_chunks_accounted(chunks);
}

/// Once captured, usage never changes, whatever lines follow.
pub proof fn lemma_usage_kept(p: Progress, lines: Seq<Seq<u8>>)
    ensures
        p.usage is Some ==> run_batch(p, lines).0.usage == p.usage,
        p.usage is Some ==> run_lines(p, lines).usage == p.usage,
    decreases lines.len(),
{
    if lines.len() > 0 {
        lemma_usage_kept(p, lines.drop_last());
    }
}

} // verus!
