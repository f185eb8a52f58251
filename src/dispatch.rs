//! The handling of one inbound event, as a state machine.
//!
//! The caller performs each returned action (fetch, extract, upload, publish,
//! acknowledge, remove the scratch file) and feeds back what came of it. Any
//! failure ends the event in `Failed`, leaving its message unacknowledged for
//! the broker to deliver again.
use vstd::prelude::*;
use crate::error::ExtractionError;
use crate::event::{
    fresh_preview_id, is_id_char, scratch_path, scratch_path_of, ProcessEvent, PREVIEW_ID_LEN,
};
use crate::extract::{FrameResult, StreamDuration};

verus! {

/// Where the handling of an event stands.
#[derive(Clone, Copy, Debug, PartialEq, Eq, Structural)]
pub enum Stage {
    Received,
    Fetching,
    Extracting,
    Uploading,
    Publishing,
    Acknowledging,
    CleaningUp,
    Done,
    Failed,
}

/// A fetch, upload, publish, acknowledgment or removal that did not succeed.
#[derive(Clone, Copy, Debug, PartialEq, Eq, Structural)]
pub struct TransportError;

/// What the caller reports back.
pub enum TaskEvent {
    /// The message body was parsed.
    Parsed(ProcessEvent),
    /// The message body is not a well-formed event.
    Malformed,
    /// The source video was copied to the scratch file, or not.
    Fetched(Result<(), TransportError>),
    /// The extraction ran on the scratch file.
    Extracted(Result<FrameResult, ExtractionError>),
    /// The preview asked for was stored, or not.
    Uploaded(Result<(), TransportError>),
    /// The metadata was published, or not.
    Published(Result<(), TransportError>),
    /// The message was acknowledged, or not.
    Acknowledged(Result<(), TransportError>),
    /// The scratch file was removed, or not.
    Removed(Result<(), TransportError>),
}

/// The completion event of a video.
pub struct PreviewMetadata {
    /// Object-store key of the source video.
    pub reference: String,
    /// Length of the video.
    pub duration: StreamDuration,
    /// Seconds between two previews.
    pub step: i32,
    /// Object-store keys of the previews, in decode order.
    pub previews: Vec<String>,
}

/// What the caller is to do next.
pub enum Action {
    /// Copy object `key` of the video bucket into the scratch file `path`.
    Fetch { key: String, path: String },
    /// Extract the previews of the scratch file `path`.
    Extract { path: String },
    /// Store preview `index` under `key` in the preview bucket.
    Upload { index: usize, key: String },
    /// Publish the completion event.
    Publish(PreviewMetadata),
    /// Acknowledge the inbound message.
    Acknowledge,
    /// Remove the scratch file `path`.
    RemoveScratch { path: String },
    /// Give the event up: report it and leave the message unacknowledged.
    Abandon,
    /// Nothing is left to do.
    Idle,
}

/// The shape of an action, as the law of the state machine sees it.
pub ghost enum ActionKind {
    Fetch,
    Extract,
    Upload(nat),
    Publish(nat),
    Acknowledge,
    RemoveScratch,
    Abandon,
    Idle,
}

/// The shape of a reported outcome.
pub ghost enum EventKind {
    Parsed,
    Malformed,
    Fetched(bool),
    /// `Some(n)`: the extraction gave `n` previews.
    Extracted(Option<nat>),
    Uploaded(bool),
    Published(bool),
    Acknowledged(bool),
    Removed(bool),
}

/// The abstract state: the stage, the number of previews and how many of
/// them are stored.
pub ghost struct TaskState {
    pub stage: Stage,
    pub previews: nat,
    pub uploaded: nat,
}

impl Action {
    pub open spec fn kind(&self) -> ActionKind {
        match self {
            Action::Fetch { .. } => ActionKind::Fetch,
            Action::Extract { .. } => ActionKind::Extract,
            Action::Upload { index, .. } => ActionKind::Upload(*index as nat),
            Action::Publish(m) => ActionKind::Publish(m.previews@.len()),
            Action::Acknowledge => ActionKind::Acknowledge,
            Action::RemoveScratch { .. } => ActionKind::RemoveScratch,
            Action::Abandon => ActionKind::Abandon,
            Action::Idle => ActionKind::Idle,
        }
    }
}

impl TaskEvent {
    pub open spec fn kind(&self) -> EventKind {
        match self {
            TaskEvent::Parsed(_) => EventKind::Parsed,
            TaskEvent::Malformed => EventKind::Malformed,
            TaskEvent::Fetched(r) => EventKind::Fetched(r is Ok),
            TaskEvent::Extracted(r) => EventKind::Extracted(
                match r {
                    Ok(res) => Some(res.frames@.len()),
                    Err(_) => None,
                },
            ),
            TaskEvent::Uploaded(r) => EventKind::Uploaded(r is Ok),
            TaskEvent::Published(r) => EventKind::Published(r is Ok),
            TaskEvent::Acknowledged(r) => EventKind::Acknowledged(r is Ok),
            TaskEvent::Removed(r) => EventKind::Removed(r is Ok),
        }
    }
}

/// The state an event starts in.
pub open spec fn initial_state() -> TaskState {
    TaskState { stage: Stage::Received, previews: 0, uploaded: 0 }
}

/// Gives up: the stage becomes `Failed`, the counts stay as they are.
pub open spec fn fail(s: TaskState) -> (TaskState, ActionKind) {
    (TaskState { stage: Stage::Failed, ..s }, ActionKind::Abandon)
}

/// The next state and action after an outcome.
pub open spec fn transition(s: TaskState, e: EventKind) -> (TaskState, ActionKind) {
    match s.stage {
        Stage::Done | Stage::Failed => (s, ActionKind::Idle),
        Stage::Received => match e {
            EventKind::Parsed => (TaskState { stage: Stage::Fetching, ..s }, ActionKind::Fetch),
            _ => fail(s),
        },
        Stage::Fetching => match e {
            EventKind::Fetched(true) => (
                TaskState { stage: Stage::Extracting, ..s },
                ActionKind::Extract,
            ),
            _ => fail(s),
        },
        Stage::Extracting => match e {
            EventKind::Extracted(Some(n)) => if n == 0 {
                (
                    TaskState { stage: Stage::Publishing, previews: 0, uploaded: 0 },
                    ActionKind::Publish(0),
                )
            } else {
                (
                    TaskState { stage: Stage::Uploading, previews: n, uploaded: 0 },
                    ActionKind::Upload(0),
                )
            },
            _ => fail(s),
        },
        Stage::Uploading => match e {
            EventKind::Uploaded(true) => if s.uploaded + 1 >= s.previews {
                (
                    TaskState { stage: Stage::Publishing, uploaded: s.previews, ..s },
                    ActionKind::Publish(s.previews),
                )
            } else {
                (
                    TaskState { uploaded: s.uploaded + 1, ..s },
                    ActionKind::Upload(s.uploaded + 1),
                )
            },
            _ => fail(s),
        },
        Stage::Publishing => match e {
            EventKind::Published(true) => (
                TaskState { stage: Stage::Acknowledging, ..s },
                ActionKind::Acknowledge,
            ),
            _ => fail(s),
        },
        Stage::Acknowledging => match e {
            EventKind::Acknowledged(true) => (
                TaskState { stage: Stage::CleaningUp, ..s },
                ActionKind::RemoveScratch,
            ),
            _ => fail(s),
        },
        Stage::CleaningUp => match e {
            EventKind::Removed(true) => (TaskState { stage: Stage::Done, ..s }, ActionKind::Idle),
            _ => fail(s),
        },
    }
}

/// The actions that a sequence of outcomes draws from state `s`.
pub open spec fn run(s: TaskState, events: Seq<EventKind>) -> Seq<ActionKind>
    decreases events.len(),
{
    if events.len() == 0 {
        Seq::empty()
    } else {
        seq![transition(s, events[0]).1] + run(transition(s, events[0]).0, events.drop_first())
    }
}

/// The state that a sequence of outcomes leads to from `s`.
pub open spec fn run_state(s: TaskState, events: Seq<EventKind>) -> TaskState
    decreases events.len(),
{
    if events.len() == 0 {
        s
    } else {
        run_state(transition(s, events[0]).0, events.drop_first())
    }
}

/// Outcomes of an event whose every step succeeds, with `n` previews.
pub open spec fn successful_outcomes(n: nat) -> Seq<EventKind> {
    seq![EventKind::Parsed, EventKind::Fetched(true), EventKind::Extracted(Some(n))]
        + Seq::new(n, |i: int| EventKind::Uploaded(true))
        + seq![EventKind::Published(true), EventKind::Acknowledged(true), EventKind::Removed(true)]
}

/// Actions of an event whose every step succeeds, with `n` previews: fetch,
/// extract, one upload per preview, one publish of `n` keys, one
/// acknowledgment, one removal of the scratch file.
pub open spec fn successful_actions(n: nat) -> Seq<ActionKind> {
    seq![ActionKind::Fetch, ActionKind::Extract] + Seq::new(n, |i: int| ActionKind::Upload(i as nat))
        + seq![ActionKind::Publish(n), ActionKind::Acknowledge, ActionKind::RemoveScratch, ActionKind::Idle]
}

proof fn lemma_run_append(s: TaskState, a: Seq<EventKind>, b: Seq<EventKind>)
    ensures
        run(s, a + b) == run(s, a) + run(run_state(s, a), b),
        run_state(s, a + b) == run_state(run_state(s, a), b),
    decreases a.len(),
{
    if a.len() == 0 {
        assert(a + b =~= b);
        assert(run(s, a) + run(s, b) =~= run(s, b));
    } else {
        let next = transition(s, a[0]).0;
        assert((a + b).drop_first() =~= a.drop_first() + b);
        lemma_run_append(next, a.drop_first(), b);
        assert(run(s, a + b) =~= run(s, a) + run(run_state(s, a), b));
    }
}

proof fn lemma_run_one(s: TaskState, e: EventKind)
    ensures
        run(s, seq![e]) == seq![transition(s, e).1],
        run_state(s, seq![e]) == transition(s, e).0,
{
    let one = seq![e];
    assert(one.len() == 1 && one[0] == e);
    assert(one.drop_first() =~= Seq::<EventKind>::empty());
    assert(run(transition(s, e).0, one.drop_first()) == Seq::<ActionKind>::empty());
    assert(run_state(transition(s, e).0, one.drop_first()) == transition(s, e).0);
    assert(seq![transition(s, e).1] + Seq::<ActionKind>::empty() =~= seq![transition(s, e).1]);
}

proof fn lemma_run_three(s: TaskState, e0: EventKind, e1: EventKind, e2: EventKind)
    ensures
        run(s, seq![e0, e1, e2]) == seq![
            transition(s, e0).1,
            transition(transition(s, e0).0, e1).1,
            transition(transition(transition(s, e0).0, e1).0, e2).1,
        ],
        run_state(s, seq![e0, e1, e2]) == transition(transition(transition(s, e0).0, e1).0, e2).0,
{
    let s1 = transition(s, e0).0;
    let s2 = transition(s1, e1).0;
    assert(seq![e0, e1, e2] =~= seq![e0] + (seq![e1] + seq![e2]));
    lemma_run_one(s, e0);
    lemma_run_one(s1, e1);
    lemma_run_one(s2, e2);
    lemma_run_append(s1, seq![e1], seq![e2]);
    lemma_run_append(s, seq![e0], seq![e1] + seq![e2]);
    assert(run(s, seq![e0, e1, e2]) =~= seq![
        transition(s, e0).1,
        transition(s1, e1).1,
        transition(s2, e2).1,
    ]);
}

proof fn lemma_run_uploads(n: nat, k: nat)
    requires
        k < n,
    ensures
        run(
            TaskState { stage: Stage::Uploading, previews: n, uploaded: k },
            Seq::new((n - k) as nat, |i: int| EventKind::Uploaded(true)),
        ) == Seq::new((n - k - 1) as nat, |i: int| ActionKind::Upload((k + 1 + i) as nat)).push(
            ActionKind::Publish(n),
        ),
        run_state(
            TaskState { stage: Stage::Uploading, previews: n, uploaded: k },
            Seq::new((n - k) as nat, |i: int| EventKind::Uploaded(true)),
        ) == (TaskState { stage: Stage::Publishing, previews: n, uploaded: n }),
    decreases n - k,
{
    let s = TaskState { stage: Stage::Uploading, previews: n, uploaded: k };
    let evs = Seq::new((n - k) as nat, |i: int| EventKind::Uploaded(true));
    if k + 1 == n {
        assert(evs =~= seq![EventKind::Uploaded(true)]);
        lemma_run_one(s, EventKind::Uploaded(true));
        assert(Seq::new((n - k - 1) as nat, |i: int| ActionKind::Upload((k + 1 + i) as nat)).push(
            ActionKind::Publish(n),
        ) =~= seq![ActionKind::Publish(n)]);
    } else {
        let rest = Seq::new((n - (k + 1)) as nat, |i: int| EventKind::Uploaded(true));
        assert(evs =~= seq![EventKind::Uploaded(true)] + rest);
        lemma_run_one(s, EventKind::Uploaded(true));
        lemma_run_append(s, seq![EventKind::Uploaded(true)], rest);
        lemma_run_uploads(n, k + 1);
        assert(run(s, evs) =~= Seq::new(
            (n - k - 1) as nat,
            |i: int| ActionKind::Upload((k + 1 + i) as nat),
        ).push(ActionKind::Publish(n)));
    }
}

/// An event whose every step succeeds, with `n` previews, draws in this
/// order: one fetch, one extraction, one upload of each preview by
/// ascending index, exactly one publish of `n` keys, exactly one
/// acknowledgment, one removal of the scratch file, and then nothing; the
/// handling ends in `Done`.
pub proof fn lemma_successful_event(n: nat)
    ensures
        run(initial_state(), successful_outcomes(n)) == successful_actions(n),
        run_state(initial_state(), successful_outcomes(n)).stage == Stage::Done,
{
    let head = seq![EventKind::Parsed, EventKind::Fetched(true), EventKind::Extracted(Some(n))];
    let uploads = Seq::new(n, |i: int| EventKind::Uploaded(true));
    let tail = seq![EventKind::Published(true), EventKind::Acknowledged(true), EventKind::Removed(true)];
    let s0 = initial_state();
    lemma_run_three(s0, head[0], head[1], head[2]);
    assert(head =~= seq![head[0], head[1], head[2]]);
    let s1 = run_state(s0, head);
    lemma_run_append(s0, head, uploads);
    let s2 = run_state(s1, uploads);
    lemma_run_append(s0, head + uploads, tail);
    assert(successful_outcomes(n) =~= head + uploads + tail);
    assert(tail =~= seq![tail[0], tail[1], tail[2]]);
    lemma_run_three(s2, tail[0], tail[1], tail[2]);
    if n == 0 {
        assert(uploads =~= Seq::<EventKind>::empty());
        assert(run(s1, uploads) =~= Seq::<ActionKind>::empty());
        assert(run(s0, successful_outcomes(n)) =~= successful_actions(n));
    } else {
        lemma_run_uploads(n, 0);
        assert(uploads =~= Seq::new((n - 0) as nat, |i: int| EventKind::Uploaded(true)));
        assert(run(s0, successful_outcomes(n)) =~= successful_actions(n));
    }
}

/// Once an event has failed, no outcome moves it: it stays `Failed` and
/// draws no further action, in particular no acknowledgment.
pub proof fn lemma_failed_is_final(s: TaskState, events: Seq<EventKind>)
    requires
        s.stage == Stage::Failed,
    ensures
        run_state(s, events) == s,
        run(s, events).len() == events.len(),
        forall|i: int| 0 <= i < events.len() ==> #[trigger] run(s, events)[i] == ActionKind::Idle,
    decreases events.len(),
{
    if events.len() > 0 {
        let rest = events.drop_first();
        lemma_failed_is_final(s, rest);
        assert forall|i: int| 0 <= i < events.len() implies #[trigger] run(s, events)[i]
            == ActionKind::Idle by {
            if i > 0 {
                assert(run(s, events)[i] == run(s, rest)[i - 1]);
            }
        }
    }
}

/// A message body that is not a well-formed event makes its handling give up
/// at once, and no later outcome leads to an acknowledgment: the message stays
/// unacknowledged for redelivery.
pub proof fn lemma_malformed_event(rest: Seq<EventKind>)
    ensures
        run(initial_state(), seq![EventKind::Malformed] + rest)[0] == ActionKind::Abandon,
        forall|i: int|
            0 <= i < run(initial_state(), seq![EventKind::Malformed] + rest).len() ==> #[trigger] run(
                initial_state(),
                seq![EventKind::Malformed] + rest,
            )[i] != ActionKind::Acknowledge,
        run_state(initial_state(), seq![EventKind::Malformed] + rest).stage == Stage::Failed,
{
    let s0 = initial_state();
    let failed = transition(s0, EventKind::Malformed).0;
    lemma_run_one(s0, EventKind::Malformed);
    lemma_run_append(s0, seq![EventKind::Malformed], rest);
    lemma_failed_is_final(failed, rest);
    let all = run(s0, seq![EventKind::Malformed] + rest);
    assert(all == seq![ActionKind::Abandon] + run(failed, rest));
    assert forall|i: int| 0 <= i < all.len() implies #[trigger] all[i] != ActionKind::Acknowledge by {
        if i > 0 {
            assert(all[i] == run(failed, rest)[i - 1]);
        }
    }
}

/// The handling of one event.
pub struct EventTask {
    stage: Stage,
    reference: String,
    path: String,
    cadence: i32,
    duration: StreamDuration,
    frames: Vec<Vec<u8>>,
    ids: Vec<String>,
    uploaded: usize,
}

impl EventTask {
    /// The abstract state.
    pub closed spec fn state(&self) -> TaskState {
        TaskState {
            stage: self.stage,
            previews: self.frames@.len(),
            uploaded: self.uploaded as nat,
        }
    }

    /// The previews held, as bytes.
    pub closed spec fn previews(&self) -> Seq<Seq<u8>> {
        self.frames@.map_values(|f: Vec<u8>| f@)
    }

    /// The keys given to the previews.
    pub closed spec fn keys(&self) -> Seq<Seq<char>> {
        self.ids@.map_values(|k: String| k@)
    }

    /// The source video's key; empty until the event is parsed.
    pub closed spec fn reference_spec(&self) -> Seq<char> {
        self.reference@
    }

    /// Seconds between two previews, as the extraction reported it.
    pub closed spec fn cadence_spec(&self) -> i32 {
        self.cadence
    }

    /// The video's length, as the extraction reported it.
    pub closed spec fn duration_spec(&self) -> StreamDuration {
        self.duration
    }

    /// The scratch file; empty until the event is parsed.
    pub closed spec fn path_spec(&self) -> Seq<char> {
        self.path@
    }

    pub closed spec fn wf(&self) -> bool {
        &&& self.ids@.len() == self.frames@.len()
        &&& self.uploaded <= self.frames@.len()
        &&& self.stage == Stage::Uploading ==> self.uploaded < self.frames@.len()
        &&& forall|i: int|
            0 <= i < self.ids@.len() ==> (#[trigger] self.ids@[i])@.len() == PREVIEW_ID_LEN
                && forall|j: int| 0 <= j < self.ids@[i]@.len() ==> is_id_char(self.ids@[i]@[j])
    }

    /// A task for a message just received.
    pub fn new() -> (r: EventTask)
        ensures
            r.wf(),
            r.state() == initial_state(),
            r.previews().len() == 0,
    {
        let r = EventTask {
            stage: Stage::Received,
            reference: String::new(),
            path: String::new(),
            cadence: 0,
            duration: StreamDuration {
                ticks: 0,
                time_base: crate::sampler::Rational { num: 1, den: 1 },
            },
            frames: Vec::new(),
            ids: Vec::new(),
            uploaded: 0,
        };
        assert(r.previews() =~= Seq::<Seq<u8>>::empty());
        r
    }

    /// Where the handling stands.
    pub fn stage(&self) -> (r: Stage)
        ensures
            r == self.state().stage,
    {
        self.stage
    }

    /// The bytes of preview `index`, for its upload.
    pub fn preview(&self, index: usize) -> (r: &Vec<u8>)
        requires
            index < self.state().previews,
        ensures
            r@ == self.previews()[index as int],
    {
        &self.frames[index]
    }

    /// Number of previews held.
    pub fn preview_count(&self) -> (r: usize)
        ensures
            r == self.state().previews,
    {
        self.frames.len()
    }

    fn give_up(&mut self) -> (a: Action)
        requires
            old(self).wf(),
        ensures
            final(self).wf(),
            final(self).state() == (TaskState { stage: Stage::Failed, ..old(self).state() }),
            final(self).previews() == old(self).previews(),
            final(self).keys() == old(self).keys(),
            final(self).reference_spec() == old(self).reference_spec(),
            final(self).path_spec() == old(self).path_spec(),
            final(self).cadence_spec() == old(self).cadence_spec(),
            final(self).duration_spec() == old(self).duration_spec(),
            a.kind() == ActionKind::Abandon,
    {
        self.stage = Stage::Failed;
        Action::Abandon
    }

    fn metadata(&self) -> (m: PreviewMetadata)
        requires
            self.wf(),
        ensures
            m.reference@ == self.reference_spec(),
            m.step == self.cadence_spec(),
            m.duration == self.duration_spec(),
            m.previews@.map_values(|k: String| k@) == self.keys(),
            m.previews@.len() == self.state().previews,
    {
        let mut keys: Vec<String> = Vec::new();
        let mut i: usize = 0;
        while i < self.ids.len()
            invariant
                i <= self.ids@.len(),
                keys@.len() == i,
                forall|j: int| 0 <= j < i ==> (#[trigger] keys@[j])@ == self.ids@[j]@,
            decreases self.ids@.len() - i,
        {
            keys.push(self.ids[i].clone());
            i += 1;
        }
        assert(keys@.map_values(|k: String| k@) =~= self.keys());
        PreviewMetadata {
            reference: self.reference.clone(),
            duration: self.duration,
            step: self.cadence,
            previews: keys,
        }
    }

    /// Takes in what came of the last action and returns the next one.
    pub fn handle(&mut self, event: TaskEvent) -> (a: Action)
        requires
            old(self).wf(),
        ensures
            final(self).wf(),
            (final(self).state(), a.kind()) == transition(old(self).state(), event.kind()),
            a matches Action::Fetch { key, path } ==> event matches TaskEvent::Parsed(ev) && key@
                == ev.reference@ && path@ == scratch_path_of(ev.reference@, ev.mimetype@),
            a matches Action::Extract { path } ==> path@ == old(self).path_spec(),
            a matches Action::Upload { index, key } ==> index < final(self).keys().len() && key@
                == final(self).keys()[index as int] && key@.len() == PREVIEW_ID_LEN && forall|j: int|
                0 <= j < key@.len() ==> is_id_char(#[trigger] key@[j]),
            a matches Action::Publish(m) ==> m.reference@ == final(self).reference_spec()
                && m.previews@.map_values(|k: String| k@) == final(self).keys() && m.step
                == final(self).cadence_spec() && m.duration == final(self).duration_spec(),
            a matches Action::RemoveScratch { path } ==> path@ == final(self).path_spec(),
            event matches TaskEvent::Parsed(ev) ==> (old(self).state().stage == Stage::Received
                ==> final(self).reference_spec() == ev.reference@ && final(self).path_spec()
                == scratch_path_of(ev.reference@, ev.mimetype@)),
            !(old(self).state().stage == Stage::Received && event is Parsed) ==> {
                &&& final(self).reference_spec() == old(self).reference_spec()
                &&& final(self).path_spec() == old(self).path_spec()
            },
            !(old(self).state().stage == Stage::Extracting && event matches TaskEvent::Extracted(
                Ok(_),
            )) ==> {
                &&& final(self).previews() == old(self).previews()
                &&& final(self).keys() == old(self).keys()
                &&& final(self).cadence_spec() == old(self).cadence_spec()
                &&& final(self).duration_spec() == old(self).duration_spec()
            },
            event matches TaskEvent::Extracted(Ok(res)) ==> (old(self).state().stage
                == Stage::Extracting ==> final(self).previews() == res.previews()
                && final(self).keys().len() == res.previews().len() && final(self).cadence_spec()
                == res.step_in_seconds && final(self).duration_spec() == res.duration),
    {
        match self.stage {
            Stage::Done | Stage::Failed => {
                return Action::Idle;
            },
            _ => {},
        }
        match event {
            TaskEvent::Parsed(ev) => {
                if self.stage != Stage::Received {
                    return self.give_up();
                }
                let path = scratch_path(&ev);
                self.reference = ev.reference.clone();
                self.path = path.clone();
                self.stage = Stage::Fetching;
                Action::Fetch { key: ev.reference, path }
            },
            TaskEvent::Fetched(Ok(())) => {
                if self.stage != Stage::Fetching {
                    return self.give_up();
                }
                self.stage = Stage::Extracting;
                Action::Extract { path: self.path.clone() }
            },
            TaskEvent::Extracted(Ok(res)) => {
                if self.stage != Stage::Extracting {
                    return self.give_up();
                }
                let n = res.frames.len();
                let mut ids: Vec<String> = Vec::new();
                let mut i: usize = 0;
                while i < n
                    invariant
                        i <= n,
                        ids@.len() == i,
                        forall|k: int|
                            0 <= k < ids@.len() ==> (#[trigger] ids@[k])@.len() == PREVIEW_ID_LEN
                                && forall|j: int|
                                0 <= j < ids@[k]@.len() ==> is_id_char(ids@[k]@[j]),
                    decreases n - i,
                {
                    ids.push(fresh_preview_id());
                    i += 1;
                }
                self.cadence = res.step_in_seconds;
                self.duration = res.duration;
                self.frames = res.frames;
                self.ids = ids;
                self.uploaded = 0;
                assert(self.previews() =~= res.previews());
                if n == 0 {
                    self.stage = Stage::Publishing;
                    Action::Publish(self.metadata())
                } else {
                    self.stage = Stage::Uploading;
                    Action::Upload { index: 0, key: self.ids[0].clone() }
                }
            },
            TaskEvent::Uploaded(Ok(())) => {
                if self.stage != Stage::Uploading {
                    return self.give_up();
                }
                let n = self.frames.len();
                assert(self.uploaded < n);
                if self.uploaded + 1 >= n {
                    self.uploaded = n;
                    self.stage = Stage::Publishing;
                    Action::Publish(self.metadata())
                } else {
                    self.uploaded = self.uploaded + 1;
                    Action::Upload { index: self.uploaded, key: self.ids[self.uploaded].clone() }
                }
            },
            TaskEvent::Published(Ok(())) => {
                if self.stage != Stage::Publishing {
                    return self.give_up();
                }
                self.stage = Stage::Acknowledging;
                Action::Acknowledge
            },
            TaskEvent::Acknowledged(Ok(())) => {
                if self.stage != Stage::Acknowledging {
                    return self.give_up();
                }
                self.stage = Stage::CleaningUp;
                Action::RemoveScratch { path: self.path.clone() }
            },
            TaskEvent::Removed(Ok(())) => {
                if self.stage != Stage::CleaningUp {
                    return self.give_up();
                }
                self.stage = Stage::Done;
                Action::Idle
            },
            _ => self.give_up(),
        }
    }
}

} // verus!
