//! The actor of one CPU cluster.
//!
//! The actor owns the cluster's hardware and takes commands over a channel.
//! In the governed state it only waits for commands. In the idle state, with
//! the platform governor in userspace mode, it wakes every 25 ms to sample
//! the cores itself and looks for a command without waiting.

use crate::cycles::{max_delta, tracked_after, CycleTracker};
use crate::error::{ActorError, SetupError};
use crate::order::{ints, sort};
use crate::text::{all_words_in_range, list_values, parse_list, words};
use std::sync::mpsc::Receiver;
use std::sync::mpsc::TryRecvError;
use vstd::prelude::*;

verus! {

/// A frequency in kilohertz.
pub type Freq = usize;

/// Milliseconds between two samples of an idle cluster.
pub const TICK_MILLIS: u64 = 25;

#[verifier::external_type_specification]
#[verifier::external_body]
#[verifier::reject_recursive_types(T)]
pub struct ExReceiver<T>(Receiver<T>);

/// A command to the actor.
pub enum Event {
    /// Load the idle profile; the flag says whether the platform governor is
    /// in userspace mode.
    InitDefault(bool),
    /// Load a game; the flag says whether the cluster is governed.
    InitGame(bool),
    /// Set the frequency.
    SetFasFreq(Freq),
    /// Switch the governor mode.
    SetFasGovernor(bool),
}

/// The actor's operating state.
#[derive(Clone, Copy, PartialEq, Eq, Structural, Debug)]
pub enum State {
    /// Frame-aware: the control loop drives the frequency.
    Fas,
    /// Idle: the hardware governor or the actor's own sampling drives it.
    Normal,
}

/// How the actor takes its next command.
#[derive(Clone, Copy, PartialEq, Eq, Structural, Debug)]
pub enum Wait {
    /// Wait until a command arrives.
    Block,
    /// Take a command only if one is pending.
    Poll,
}

/// The idle actor samples the cores itself.
pub open spec fn self_polling(state: State, userspace_governor: bool) -> bool {
    userspace_governor && state == State::Normal
}

/// What the event loop carries from one iteration to the next.
#[derive(Clone, Copy, PartialEq, Eq, Structural, Debug)]
pub struct Control {
    pub state: State,
    pub userspace_governor: bool,
}

impl Control {
    /// The control record after `event`: the idle profile makes the actor
    /// idle and records the governor's mode, a game makes it governed, and
    /// the other commands change nothing.
    pub open spec fn after(self, event: Event) -> Control {
        match event {
            Event::InitDefault(userspace) => Control {
                state: State::Normal,
                userspace_governor: userspace,
            },
            Event::InitGame(_) => Control {
                state: State::Fas,
                userspace_governor: self.userspace_governor,
            },
            Event::SetFasFreq(_) => self,
            Event::SetFasGovernor(_) => self,
        }
    }

    /// An actor starts idle, with the governor taken not to be in userspace
    /// mode.
    pub fn new() -> (c: Control)
        ensures
            c == (Control { state: State::Normal, userspace_governor: false }),
    {
        Control { state: State::Normal, userspace_governor: false }
    }

    /// Whether the actor sleeps a tick and samples the cores before it looks
    /// for a command.
    pub fn polls(&self) -> (polls: bool)
        ensures
            polls == self_polling(self.state, self.userspace_governor),
    {
        self.userspace_governor && self.state == State::Normal
    }

    /// Records `event`. The hardware command that goes with it is the
    /// caller's to run.
    pub fn apply(&mut self, event: &Event)
        ensures
            *final(self) == old(self).after(*event),
    {
        match event {
            Event::InitDefault(userspace) => {
                self.state = State::Normal;
                self.userspace_governor = *userspace;
            },
            Event::InitGame(_) => {
                self.state = State::Fas;
            },
            Event::SetFasFreq(_) => {},
            Event::SetFasGovernor(_) => {},
        }
    }
}

/// How the actor takes its next command: it waits, unless it samples the
/// cores itself.
pub fn wait_mode(state: State, userspace_governor: bool) -> (wait: Wait)
    ensures
        wait == if self_polling(state, userspace_governor) {
            Wait::Poll
        } else {
            Wait::Block
        },
{
    match state {
        State::Fas => Wait::Block,
        State::Normal => if userspace_governor {
            Wait::Poll
        } else {
            Wait::Block
        },
    }
}

/// Waits on the channel with `Receiver::recv`, which blocks until a command
/// arrives or every sender is gone; `None` in the second case.
#[verifier::external_body]
fn recv_blocking(rx: &Receiver<Event>) -> (event: Option<Event>) {
    rx.recv().ok()
}

/// What a look at the channel found.
pub enum Pending {
    Command(Event),
    Nothing,
    Disconnected,
}

/// Looks at the channel with `Receiver::try_recv`, which never blocks: a
/// command if one is pending, else whether the channel is only empty or every
/// sender is gone.
#[verifier::external_body]
fn recv_pending(rx: &Receiver<Event>) -> (found: Pending) {
    match rx.try_recv() {
        Ok(event) => Pending::Command(event),
        Err(TryRecvError::Empty) => Pending::Nothing,
        Err(TryRecvError::Disconnected) => Pending::Disconnected,
    }
}

/// The entries of `s` as mathematical integers.
pub open spec fn freq_ints(s: Seq<Freq>) -> Seq<int> {
    Seq::new(s.len(), |k: int| s[k] as int)
}

/// The entries of `s` as mathematical integers.
pub open spec fn cpu_ints(s: Seq<i32>) -> Seq<int> {
    Seq::new(s.len(), |k: int| s[k] as int)
}

/// `r` holds the values of `s`, each as often, in ascending order.
pub open spec fn is_sorting_of(r: Seq<int>, s: Seq<int>) -> bool {
    &&& forall|i: int, j: int| 0 <= i <= j < r.len() ==> r[i] <= r[j]
    &&& r.to_multiset() == s.to_multiset()
}

/// Every word of `text` is a frequency: an integer without a minus sign
/// that fits the machine word.
pub open spec fn lists_freqs(text: Seq<u8>) -> bool {
    all_words_in_range(text, false, 0, usize::MAX as int)
}

/// Every word of `text` is a core number: a 32-bit integer.
pub open spec fn lists_cpus(text: Seq<u8>) -> bool {
    all_words_in_range(text, true, i32::MIN as int, i32::MAX as int)
}

/// What an actor knows of its cluster.
pub struct Topology {
    pub cpus: Seq<i32>,
    pub freqs: Seq<Freq>,
}

/// The actor of one cluster: its cores, its frequencies, and the channel
/// its commands arrive on.
pub struct Insider {
    cpus: Vec<i32>,
    freqs: Vec<Freq>,
    rx: Receiver<Event>,
}

impl View for Insider {
    type V = Topology;

    closed spec fn view(&self) -> Topology {
        Topology { cpus: self.cpus@, freqs: self.freqs@ }
    }
}

/// Reads a list of integers and puts it in ascending order.
fn parse_sorted(text: &[u8], signed: bool, min: i128, max: i128) -> (list: Result<
    Vec<i128>,
    SetupError,
>)
    ensures
        list is Ok <==> all_words_in_range(text@, signed, min as int, max as int),
        list matches Ok(v) ==> {
            &&& is_sorting_of(ints(v@), list_values(text@, signed))
            &&& forall|k: int| 0 <= k < v@.len() ==> min <= #[trigger] v@[k] <= max
        },
        list matches Err(e) ==> e == SetupError::Unparseable,
{
    match parse_list(text, signed, min, max) {
        Ok(listed) => {
            let ordered: Vec<i128> = sort(&listed);
            proof {
                assert forall|k: int| 0 <= k < ordered@.len() implies min <= #[trigger] ordered@[k]
                    <= max by {
                    vstd::seq_lib::to_multiset_contains(ordered@, ordered@[k]);
                    vstd::seq_lib::to_multiset_contains(listed@, ordered@[k]);
                    assert(ordered@.contains(ordered@[k]));
                    let m = choose|m: int| 0 <= m < listed@.len() && listed@[m] == ordered@[k];
                    assert(ints(listed@).len() == list_values(text@, signed).len());
                    assert(ints(listed@)[m] == list_values(text@, signed)[m]);
                    assert(crate::text::word_in_range(
                        words(text@)[m],
                        signed,
                        min as int,
                        max as int,
                    ));
                }
                assert forall|i: int, j: int| 0 <= i <= j < ints(ordered@).len() implies ints(
                    ordered@,
                )[i] <= ints(ordered@)[j] by {
                    assert(ordered@[i] <= ordered@[j]);
                }
            }
            Ok(ordered)
        },
        Err(e) => Err(e),
    }
}

impl Insider {
    /// Sets an actor up from its cluster's two topology lists: `frequencies`,
    /// the frequencies the cluster supports in kilohertz, and `affected_cpus`,
    /// its cores. Both are kept in ascending order. A cluster without a core
    /// is refused. The caller starts the thread that runs the actor.
    pub fn spawn(rx: Receiver<Event>, frequencies: &[u8], affected_cpus: &[u8]) -> (actor: Result<
        Insider,
        SetupError,
    >)
        ensures
            match actor {
                Ok(a) => {
                    &&& lists_freqs(frequencies@)
                    &&& lists_cpus(affected_cpus@)
                    &&& a@.cpus.len() > 0
                    &&& is_sorting_of(freq_ints(a@.freqs), list_values(frequencies@, false))
                    &&& is_sorting_of(cpu_ints(a@.cpus), list_values(affected_cpus@, true))
                },
                Err(SetupError::Unparseable) => !(lists_freqs(frequencies@) && lists_cpus(
                    affected_cpus@,
                )),
                Err(SetupError::Empty) => {
                    &&& lists_freqs(frequencies@)
                    &&& lists_cpus(affected_cpus@)
                    &&& words(affected_cpus@).len() == 0
                },
            },
    {
        let freq_list: Vec<i128> = match parse_sorted(frequencies, false, 0, usize::MAX as i128) {
            Ok(v) => v,
            Err(e) => {
                return Err(e);
            },
        };
        let cpu_list: Vec<i128> = match parse_sorted(
            affected_cpus,
            true,
            i32::MIN as i128,
            i32::MAX as i128,
        ) {
            Ok(v) => v,
            Err(e) => {
                return Err(e);
            },
        };
        proof {
            ints(cpu_list@).to_multiset_ensures();
            list_values(affected_cpus@, true).to_multiset_ensures();
        }
        if cpu_list.len() == 0 {
            return Err(SetupError::Empty);
        }
        let mut freqs: Vec<Freq> = Vec::new();
        let mut i: usize = 0;
        while i < freq_list.len()
            invariant
                i <= freq_list.len(),
                freqs@.len() == i,
                forall|k: int|
                    0 <= k < freq_list@.len() ==> 0 <= #[trigger] freq_list@[k] <= usize::MAX,
                forall|k: int| 0 <= k < i ==> #[trigger] freqs@[k] as int == freq_list@[k],
            decreases freq_list.len() - i,
        {
            freqs.push(freq_list[i] as usize);
            i = i + 1;
        }
        let mut cpus: Vec<i32> = Vec::new();
        let mut j: usize = 0;
        while j < cpu_list.len()
            invariant
                j <= cpu_list.len(),
                cpus@.len() == j,
                forall|k: int|
                    0 <= k < cpu_list@.len() ==> i32::MIN <= #[trigger] cpu_list@[k] <= i32::MAX,
                forall|k: int| 0 <= k < j ==> #[trigger] cpus@[k] as int == cpu_list@[k],
            decreases cpu_list.len() - j,
        {
            cpus.push(cpu_list[j] as i32);
            j = j + 1;
        }
        proof {
            assert(freq_ints(freqs@) =~= ints(freq_list@));
            assert(cpu_ints(cpus@) =~= ints(cpu_list@));
        }
        Ok(Insider { cpus, freqs, rx })
    }

    /// The cluster's cores, in ascending order.
    pub fn cpus(&self) -> (cpus: &Vec<i32>)
        ensures
            cpus@ == self@.cpus,
    {
        &self.cpus
    }

    /// The cluster's frequencies in kilohertz, in ascending order.
    pub fn freqs(&self) -> (freqs: &Vec<Freq>)
        ensures
            freqs@ == self@.freqs,
    {
        &self.freqs
    }

    /// Takes the next command from the channel: waiting for it, or only if
    /// one is pending, as `wait_mode` says for `state` and
    /// `userspace_governor`. What the channel hands over is the senders'
    /// choice; `after_wait` and `after_poll` say what is returned for each
    /// thing it can hand over. An actor that waits never comes back empty.
    pub fn recv_event(&self, state: State, userspace_governor: bool) -> (event: Result<
        Option<Event>,
        ActorError,
    >)
        ensures
            !self_polling(state, userspace_governor) ==> !(event matches Ok(None)),
            event matches Err(e) ==> e == ActorError::ChannelDisconnect,
    {
        match wait_mode(state, userspace_governor) {
            Wait::Block => {
                // Blocks until a command arrives or every sender is gone.
                let found: Option<Event> = recv_blocking(&self.rx);
                after_wait(found)
            },
            Wait::Poll => {
                // Never blocks.
                let found: Pending = recv_pending(&self.rx);
                after_poll(found)
            },
        }
    }

    /// The largest number of cycles any core of the cluster ran since it was
    /// sampled last. `counts` holds one reading of a cycle counter per core,
    /// in the order of `cpus`. A core that is sampled for the first time only
    /// sets its baseline.
    pub fn max_cycles(&self, tracker: &mut CycleTracker, counts: &Vec<u64>) -> (cycles: u64)
        requires
            counts@.len() == self@.cpus.len(),
        ensures
            cycles == max_delta(old(tracker)@, self@.cpus, counts@),
            final(tracker)@ == tracked_after(old(tracker)@, self@.cpus, counts@),
    {
        tracker.max_cycles(&self.cpus, counts)
    }
}

/// What a wait on the channel comes to: the command that arrived, or the end
/// of the actor where every sender is gone.
pub open spec fn waited(found: Option<Event>) -> Result<Option<Event>, ActorError> {
    match found {
        Some(event) => Ok(Some(event)),
        None => Err(ActorError::ChannelDisconnect),
    }
}

/// What a look at the channel comes to: the pending command, nothing where
/// the channel is only empty, or the end of the actor where every sender is
/// gone.
pub open spec fn polled(found: Pending) -> Result<Option<Event>, ActorError> {
    match found {
        Pending::Command(event) => Ok(Some(event)),
        Pending::Nothing => Ok(None),
        Pending::Disconnected => Err(ActorError::ChannelDisconnect),
    }
}

/// Turns what a wait on the channel ended with into the actor's next step.
pub fn after_wait(found: Option<Event>) -> (event: Result<Option<Event>, ActorError>)
    ensures
        event == waited(found),
{
    match found {
        Some(event) => Ok(Some(event)),
        None => Err(ActorError::ChannelDisconnect),
    }
}

/// Turns what a look at the channel found into the actor's next step.
pub fn after_poll(found: Pending) -> (event: Result<Option<Event>, ActorError>)
    ensures
        event == polled(found),
{
    match found {
        Pending::Command(event) => Ok(Some(event)),
        Pending::Nothing => Ok(None),
        Pending::Disconnected => Err(ActorError::ChannelDisconnect),
    }
}

} // verus!
