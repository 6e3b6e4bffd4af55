use vstd::prelude::*;
use crate::mitch::{Commands, opcode_bytes};

verus! {

/// Bytes of device-side header in front of each data notification.
pub const HEADER_LEN: usize = 4;

/// Channels in one sample pushed to the outlet.
pub const CHANNELS: usize = 16;

/// The sample carried by a data notification: each of the sixteen bytes after
/// the header, zero-extended. Shorter payloads carry none.
pub open spec fn sample_of(payload: Seq<u8>) -> Option<Seq<i16>> {
    if payload.len() < HEADER_LEN + CHANNELS {
        None
    } else {
        Some(Seq::new(CHANNELS as nat, |i: int| payload[HEADER_LEN + i] as i16))
    }
}

/// The power byte of a response read back after `GetPower`: the byte at index four.
pub open spec fn power_of(response: Seq<u8>) -> Option<u8> {
    if response.len() <= 4 {
        None
    } else {
        Some(response[4])
    }
}

/// Decodes a data notification into one sample, or `None` for a short frame.
pub fn decode_sample(payload: &[u8]) -> (r: Option<Vec<i16>>)
    ensures
        match sample_of(payload@) {
            Some(s) => r is Some && r->Some_0@ == s,
            None => r is None,
        },
        payload@.len() < HEADER_LEN ==> r is None,
{
    if payload.len() < HEADER_LEN + CHANNELS {
        return None;
    }
    let mut out: Vec<i16> = Vec::new();
    let mut i: usize = 0;
    while i < CHANNELS
        invariant
            i <= CHANNELS,
            payload@.len() >= HEADER_LEN + CHANNELS,
            out@ == Seq::new(i as nat, |k: int| payload@[HEADER_LEN + k] as i16),
        decreases CHANNELS - i,
    {
        out.push(payload[HEADER_LEN + i] as i16);
        i = i + 1;
        assert(out@ =~= Seq::new(i as nat, |k: int| payload@[HEADER_LEN + k] as i16));
    }
    Some(out)
}

/// The power byte of the response to `GetPower`, or `None` if it is too short
/// to hold one.
pub fn status_byte(response: &[u8]) -> (r: Option<u8>)
    ensures
        r == power_of(response@),
{
    if response.len() <= 4 {
        None
    } else {
        Some(response[4])
    }
}

/// What reaches a device actor: a command from its channel, the channel's
/// closure, an item of the device's event stream, or the outcome of an
/// operation that the actor asked for.
#[derive(Clone, Debug, PartialEq, Eq)]
pub enum ActorInput {
    /// Begin streaming samples to a new outlet.
    StartRecording,
    /// Report the power byte.
    Status,
    /// Stop and clean up.
    Shutdown,
    /// Every sender of the command channel was dropped.
    ChannelClosed,
    /// A characteristic value notification; `from_data` tells whether it came
    /// from the data characteristic.
    Notification { from_data: bool, value: Vec<u8> },
    /// The device reported that its connection was lost.
    Disconnected,
    /// The outcome of the one reconnect attempt.
    Reconnected { ok: bool },
    /// The device event stream ended.
    StreamEnded,
    /// A transport operation asked for by the actor failed.
    OperationFailed,
    /// Any other device event.
    OtherEvent,
}

/// An operation the actor asks its driver to perform, in order.
#[derive(Clone, Debug, PartialEq, Eq)]
pub enum Effect {
    /// Create the sample outlet for this device.
    OpenOutlet,
    /// Write an opcode to the command characteristic, with response.
    Write(Commands),
    /// Read the command characteristic once to drain the acknowledgement.
    ReadCommand,
    /// Read the command characteristic and reply with its power byte.
    ReadPower,
    /// Enable notifications on the data characteristic.
    EnableNotify,
    /// Push one sample to the outlet.
    PushSample(Vec<i16>),
    /// Try once to connect the device again.
    Reconnect,
    /// Disconnect the device, ignoring errors.
    DisconnectDevice,
    /// Remove this actor's own registry entry.
    Unregister,
    /// Drop the sample outlet.
    CloseOutlet,
}

/// An effect as a mathematical value.
pub enum Act {
    OpenOutlet,
    Write(Seq<u8>),
    ReadCommand,
    ReadPower,
    EnableNotify,
    PushSample(Seq<i16>),
    Reconnect,
    DisconnectDevice,
    Unregister,
    CloseOutlet,
}

impl View for Effect {
    type V = Act;

    open spec fn view(&self) -> Act {
        match self {
            Effect::OpenOutlet => Act::OpenOutlet,
            Effect::Write(c) => Act::Write(opcode_bytes(*c)),
            Effect::ReadCommand => Act::ReadCommand,
            Effect::ReadPower => Act::ReadPower,
            Effect::EnableNotify => Act::EnableNotify,
            Effect::PushSample(s) => Act::PushSample(s@),
            Effect::Reconnect => Act::Reconnect,
            Effect::DisconnectDevice => Act::DisconnectDevice,
            Effect::Unregister => Act::Unregister,
            Effect::CloseOutlet => Act::CloseOutlet,
        }
    }
}

/// The effects of a list, as mathematical values.
pub open spec fn acts(v: Seq<Effect>) -> Seq<Act> {
    v.map_values(|e: Effect| e@)
}

/// What a device actor remembers between inputs: whether an outlet exists
/// (it is streaming) and whether it has entered cleanup.
#[derive(Clone, Copy, Debug, PartialEq, Eq, Structural)]
pub struct ActorState {
    pub streaming: bool,
    pub finished: bool,
}

/// Streaming starts: outlet, start opcode, acknowledgement drain, notifications.
pub open spec fn arm_acts() -> Seq<Act> {
    seq![
        Act::OpenOutlet,
        Act::Write(opcode_bytes(Commands::StartPressureStream)),
        Act::ReadCommand,
        Act::EnableNotify,
    ]
}

/// Streaming resumes after a reconnect: start opcode, drain, notifications.
pub open spec fn rearm_acts() -> Seq<Act> {
    seq![Act::Write(opcode_bytes(Commands::StartPressureStream)), Act::ReadCommand, Act::EnableNotify]
}

/// Cleanup: disconnect, remove the own entry, then drop the outlet if any.
pub open spec fn cleanup_acts(streaming: bool) -> Seq<Act> {
    if streaming {
        seq![Act::DisconnectDevice, Act::Unregister, Act::CloseOutlet]
    } else {
        seq![Act::DisconnectDevice, Act::Unregister]
    }
}

/// Whether an input ends the actor.
pub open spec fn is_exit(i: ActorInput) -> bool {
    match i {
        ActorInput::Shutdown | ActorInput::ChannelClosed | ActorInput::StreamEnded
        | ActorInput::OperationFailed => true,
        _ => false,
    }
}

/// The state after one input.
pub open spec fn next_state(s: ActorState, i: ActorInput) -> ActorState {
    if s.finished {
        s
    } else if is_exit(i) {
        ActorState { streaming: false, finished: true }
    } else {
        match i {
            ActorInput::StartRecording => ActorState { streaming: true, finished: false },
            _ => s,
        }
    }
}

/// The effects of one input, in the order they are to be performed.
pub open spec fn effects_of(s: ActorState, i: ActorInput) -> Seq<Act> {
    if s.finished {
        seq![]
    } else if is_exit(i) {
        cleanup_acts(s.streaming)
    } else {
        match i {
            ActorInput::StartRecording => arm_acts(),
            ActorInput::Status => seq![Act::Write(opcode_bytes(Commands::GetPower)), Act::ReadPower],
            ActorInput::Notification { from_data, value } => {
                if from_data && s.streaming && sample_of(value@) is Some {
                    seq![Act::PushSample(sample_of(value@)->Some_0)]
                } else {
                    seq![]
                }
            },
            ActorInput::Disconnected => seq![Act::Reconnect],
            ActorInput::Reconnected { ok } => {
                if ok && s.streaming {
                    rearm_acts()
                } else {
                    seq![]
                }
            },
            _ => seq![],
        }
    }
}

/// The state and the whole list of effects after a sequence of inputs.
pub open spec fn run(s: ActorState, inputs: Seq<ActorInput>) -> (ActorState, Seq<Act>)
    decreases inputs.len(),
{
    if inputs.len() == 0 {
        (s, seq![])
    } else {
        let (m, t) = run(s, inputs.drop_last());
        (next_state(m, inputs.last()), t + effects_of(m, inputs.last()))
    }
}

impl ActorState {
    /// The state of an actor that has just been spawned.
    pub fn spawned() -> (r: ActorState)
        ensures
            !r.streaming,
            !r.finished,
    {
        ActorState { streaming: false, finished: false }
    }

    /// Handles one input: updates the state and returns the effects to perform.
    /// Once finished, the actor ignores everything.
    pub fn step(&mut self, input: &ActorInput) -> (r: Vec<Effect>)
        ensures
            *final(self) == next_state(*old(self), *input),
            acts(r@) == effects_of(*old(self), *input),
    {
        let s = *self;
        let mut r: Vec<Effect> = Vec::new();
        if s.finished {
            assert(acts(r@) =~= effects_of(s, *input));
            return r;
        }
        match input {
            ActorInput::Shutdown | ActorInput::ChannelClosed | ActorInput::StreamEnded
            | ActorInput::OperationFailed => {
                r.push(Effect::DisconnectDevice);
                r.push(Effect::Unregister);
                if s.streaming {
                    r.push(Effect::CloseOutlet);
                }
                *self = ActorState { streaming: false, finished: true };
            },
            ActorInput::StartRecording => {
                r.push(Effect::OpenOutlet);
                r.push(Effect::Write(Commands::StartPressureStream));
                r.push(Effect::ReadCommand);
                r.push(Effect::EnableNotify);
                *self = ActorState { streaming: true, finished: false };
            },
            ActorInput::Status => {
                r.push(Effect::Write(Commands::GetPower));
                r.push(Effect::ReadPower);
            },
            ActorInput::Notification { from_data, value } => {
                if *from_data && s.streaming {
                    match decode_sample(value.as_slice()) {
                        Some(sample) => r.push(Effect::PushSample(sample)),
                        None => {},
                    }
                }
            },
            ActorInput::Disconnected => {
                r.push(Effect::Reconnect);
            },
            ActorInput::Reconnected { ok } => {
                if *ok && s.streaming {
                    r.push(Effect::Write(Commands::StartPressureStream));
                    r.push(Effect::ReadCommand);
                    r.push(Effect::EnableNotify);
                }
            },
            ActorInput::OtherEvent => {},
        }
        assert(acts(r@) =~= effects_of(s, *input));
        r
    }
}

/// The state of a freshly spawned actor.
pub open spec fn initial_state() -> ActorState {
    ActorState { streaming: false, finished: false }
}

/// Every push in a list of effects comes after some `EnableNotify`.
pub open spec fn notify_precedes_push(t: Seq<Act>) -> bool {
    forall|k: int|
        0 <= k < t.len() && #[trigger] t[k] is PushSample ==> exists|j: int|
            0 <= j < k && #[trigger] t[j] is EnableNotify
}

/// Some effect of a list is `EnableNotify`.
pub open spec fn has_notify(t: Seq<Act>) -> bool {
    exists|j: int| 0 <= j < t.len() && #[trigger] t[j] is EnableNotify
}

proof fn lemma_run_invariant(inputs: Seq<ActorInput>)
    ensures
        notify_precedes_push(run(initial_state(), inputs).1),
        run(initial_state(), inputs).0.streaming ==> has_notify(run(initial_state(), inputs).1),
        run(initial_state(), inputs).0.finished ==> !run(initial_state(), inputs).0.streaming,
    decreases inputs.len(),
{
    if inputs.len() > 0 {
        let prev = inputs.drop_last();
        lemma_run_invariant(prev);
        let (m, t) = run(initial_state(), prev);
        let i = inputs.last();
        let e = effects_of(m, i);
        let t2 = t + e;
        assert(run(initial_state(), inputs) == (next_state(m, i), t2));
        assert forall|k: int| 0 <= k < t2.len() && #[trigger] t2[k] is PushSample implies exists|
            j: int,
        | 0 <= j < k && #[trigger] t2[j] is EnableNotify by {
            if k < t.len() {
                assert(t[k] is PushSample);
                let j = choose|j: int| 0 <= j < k && #[trigger] t[j] is EnableNotify;
                assert(t2[j] is EnableNotify);
            } else {
                assert(e[k - t.len()] is PushSample);
                assert(m.streaming);
                let j = choose|j: int| 0 <= j < t.len() && #[trigger] t[j] is EnableNotify;
                assert(t2[j] is EnableNotify);
            }
        }
        if next_state(m, i).streaming {
            if m.streaming {
                let j = choose|j: int| 0 <= j < t.len() && #[trigger] t[j] is EnableNotify;
                assert(t2[j] is EnableNotify);
            } else {
                assert(i is StartRecording);
                assert(t2[t.len() + 3int] is EnableNotify);
            }
        }
    }
}

/// Notifications on the data characteristic are enabled before the first
/// sample is pushed: in the effects of any sequence of inputs to a fresh actor,
/// each `PushSample` is preceded by an `EnableNotify`.
pub proof fn lemma_notify_before_push(inputs: Seq<ActorInput>)
    ensures
        notify_precedes_push(run(initial_state(), inputs).1),
{
    lemma_run_invariant(inputs);
}

/// A second `Shutdown` is harmless: the first one cleans up (ending with the
/// removal of the own registry entry unless cleanup already ran), and the
/// second one changes nothing and asks for nothing.
pub proof fn lemma_shutdown_twice(s: ActorState)
    ensures
        next_state(s, ActorInput::Shutdown).finished,
        !s.finished ==> effects_of(s, ActorInput::Shutdown) == cleanup_acts(s.streaming),
        next_state(next_state(s, ActorInput::Shutdown), ActorInput::Shutdown) == next_state(
            s,
            ActorInput::Shutdown,
        ),
        effects_of(next_state(s, ActorInput::Shutdown), ActorInput::Shutdown) == Seq::<Act>::empty(),
{
}

/// Every way out of the loop ends in cleanup, whose effects disconnect the
/// device and remove the actor's own registry entry.
pub proof fn lemma_exit_unregisters(s: ActorState, i: ActorInput)
    requires
        !s.finished,
        is_exit(i),
    ensures
        next_state(s, i).finished,
        effects_of(s, i)[0] is DisconnectDevice,
        effects_of(s, i)[1] is Unregister,
{
}

/// Inputs are handled one at a time in arrival order: handling `a` and then
/// `b` gives the effects of `a` followed by those of `b`, the latter computed
/// from the state that `a` left behind.
pub proof fn lemma_run_in_order(s: ActorState, a: Seq<ActorInput>, b: Seq<ActorInput>)
    ensures
        run(s, a + b) == (run(run(s, a).0, b).0, run(s, a).1 + run(run(s, a).0, b).1),
    decreases b.len(),
{
    if b.len() == 0 {
        assert(a + b =~= a);
        assert(run(s, a).1 + Seq::<Act>::empty() =~= run(s, a).1);
    } else {
        lemma_run_in_order(s, a, b.drop_last());
        assert((a + b).drop_last() =~= a + b.drop_last());
        assert((a + b).last() == b.last());
        let (m, t) = run(s, a);
        let (m2, t2) = run(m, b.drop_last());
        assert(t + t2 + effects_of(m2, b.last()) =~= t + (t2 + effects_of(m2, b.last())));
    }
}

} // verus!
