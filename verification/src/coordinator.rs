use vstd::prelude::*;
use crate::address::IpAddress;
use crate::pool::AdmissionPool;
use crate::probe::ProbeRequest;

verus! {

/// Everything one scan run is given: the target, the inclusive port range,
/// the concurrency ceiling and the verbosity flag. The range may be empty
/// (start above end); the ceiling must be at least one.
#[derive(Clone, Copy, Debug, PartialEq, Eq, Structural)]
pub struct ScanConfig {
    pub target: IpAddress,
    pub start_port: u16,
    pub end_port: u16,
    pub max_tasks: usize,
    pub verbose: bool,
}

impl ScanConfig {
    /// A configuration is well formed when it admits at least one concurrent
    /// probe.
    pub open spec fn wf(&self) -> bool {
        1 <= self.max_tasks
    }

    /// How many ports the range holds: `end - start + 1` when the bounds are
    /// ordered, zero when start is above end.
    pub open spec fn range_len(&self) -> int {
        if self.start_port <= self.end_port {
            self.end_port - self.start_port + 1
        } else {
            0
        }
    }

    /// Whether `port` lies in the inclusive range.
    pub open spec fn port_in_range(&self, port: u16) -> bool {
        self.start_port <= port <= self.end_port
    }
}

/// One line of observable output, in the order the coordinator hands them
/// out. Callers print these; the coordinator only decides what is emitted
/// and when.
#[derive(Clone, Copy, Debug, PartialEq, Eq, Structural)]
pub enum OutputEvent {
    /// The opening line naming the target and the port bounds.
    Summary { target: IpAddress, start_port: u16, end_port: u16 },
    /// The per-port line announced before a probe attempt, verbose runs only.
    Scanning { port: u16 },
    /// A port whose probe established a connection.
    PortOpen { port: u16 },
    /// The closing line, emitted once every probe has finished.
    Completed,
}

/// The summary event a given configuration opens with.
pub open spec fn summary_of(config: ScanConfig) -> OutputEvent {
    OutputEvent::Summary {
        target: config.target,
        start_port: config.start_port,
        end_port: config.end_port,
    }
}

/// The ascending run of `count` ports starting at `start`.
pub open spec fn ports_from(start: u16, count: nat) -> Seq<u16> {
    Seq::new(count, |i: int| (start + i) as u16)
}

/// The ports named by the scanning events of `events`, in emission order.
pub open spec fn scanning_ports(events: Seq<OutputEvent>) -> Seq<u16>
    decreases events.len(),
{
    if events.len() == 0 {
        Seq::empty()
    } else {
        let rest = scanning_ports(events.drop_last());
        match events.last() {
            OutputEvent::Scanning { port } => rest.push(port),
            _ => rest,
        }
    }
}

/// The ports reported open by `events`, in emission order.
pub open spec fn open_ports(events: Seq<OutputEvent>) -> Seq<u16>
    decreases events.len(),
{
    if events.len() == 0 {
        Seq::empty()
    } else {
        let rest = open_ports(events.drop_last());
        match events.last() {
            OutputEvent::PortOpen { port } => rest.push(port),
            _ => rest,
        }
    }
}

/// Appending one event extends the scanning projection exactly when the
/// event is a scanning line.
proof fn lemma_scanning_push(events: Seq<OutputEvent>, event: OutputEvent)
    ensures
        scanning_ports(events.push(event)) == (match event {
            OutputEvent::Scanning { port } => scanning_ports(events).push(port),
            _ => scanning_ports(events),
        }),
{
    assert(events.push(event).drop_last() =~= events);
    assert(events.push(event).last() == event);
}

/// Appending one event extends the open-port projection exactly when the
/// event reports an open port.
proof fn lemma_open_push(events: Seq<OutputEvent>, event: OutputEvent)
    ensures
        open_ports(events.push(event)) == (match event {
            OutputEvent::PortOpen { port } => open_ports(events).push(port),
            _ => open_ports(events),
        }),
{
    assert(events.push(event).drop_last() =~= events);
    assert(events.push(event).last() == event);
}

/// Extending the ascending run of ports by one appends the next port.
proof fn lemma_ports_from_push(start: u16, count: nat)
    ensures
        ports_from(start, count + 1) == ports_from(start, count).push(((start + count) as u16)),
{
    assert(ports_from(start, count + 1) =~= ports_from(start, count).push(((start + count) as u16)));
}

/// Where a run stands.
#[derive(Clone, Copy, Debug, PartialEq, Eq, Structural)]
pub enum Phase {
    /// Configured, nothing emitted yet.
    Init,
    /// The summary is out; ports are being dispatched in ascending order.
    Dispatch,
    /// Every port is dispatched; waiting for the in-flight probes.
    Join,
    /// Every probe finished and the completion line is out.
    Done,
}

/// The scan coordinator: drives one run over the whole port range under the
/// concurrency ceiling. It dispatches ports in ascending order, admits each
/// probe through the fixed-capacity pool, takes finished probes back, and
/// declares the run done only once every dispatched probe has finished.
///
/// Callers own the blocking and the I/O: they wait until a permit is free
/// before dispatching, run each [`ProbeRequest`] as a real connection
/// attempt, feed the outcome back through [`Coordinator::probe_finished`],
/// and print every [`OutputEvent`] the coordinator hands out, in order.
pub struct Coordinator {
    config: ScanConfig,
    pool: AdmissionPool,
    phase: Phase,
    dispatched_count: usize,
    finished_count: usize,
    dispatched: Ghost<Seq<u16>>,
    events: Ghost<Seq<OutputEvent>>,
}

impl Coordinator {
    /// The configuration the run was started with.
    pub closed spec fn config(&self) -> ScanConfig {
        self.config
    }

    /// The phase the run is in.
    pub closed spec fn phase(&self) -> Phase {
        self.phase
    }

    /// How many probes have been dispatched so far.
    pub closed spec fn launched(&self) -> int {
        self.dispatched_count as int
    }

    /// How many dispatched probes have finished so far.
    pub closed spec fn finished(&self) -> int {
        self.finished_count as int
    }

    /// How many probes hold an admission permit right now.
    pub closed spec fn in_flight(&self) -> int {
        self.pool.held()
    }

    /// The ports dispatched so far, in dispatch order.
    pub closed spec fn dispatched(&self) -> Seq<u16> {
        self.dispatched@
    }

    /// Every output event handed out so far, in emission order.
    pub closed spec fn events(&self) -> Seq<OutputEvent> {
        self.events@
    }

    /// The coordinator's invariant, established by [`Coordinator::new`] and
    /// preserved by every transition.
    pub closed spec fn wf(&self) -> bool {
        &&& self.config.wf()
        &&& self.pool.wf()
        &&& self.pool.cap() == self.config.max_tasks as int
        &&& self.finished_count <= self.dispatched_count
        &&& self.dispatched_count as int <= self.config.range_len()
        &&& self.pool.held() == self.dispatched_count - self.finished_count
        &&& self.dispatched@ == ports_from(self.config.start_port, self.dispatched_count as nat)
        &&& (self.phase is Init ==> self.dispatched_count == 0 && self.finished_count == 0
            && self.events@ == Seq::<OutputEvent>::empty())
        &&& (!(self.phase is Init) ==> self.events@.len() >= 1
            && self.events@[0] == summary_of(self.config))
        &&& (forall|i: int| 1 <= i < self.events@.len()
            ==> !((#[trigger] self.events@[i]) is Summary))
        &&& (self.phase is Join || self.phase is Done
            ==> self.dispatched_count as int == self.config.range_len())
        &&& (self.phase is Done ==> self.finished_count == self.dispatched_count
            && self.events@.len() >= 1 && self.events@.last() is Completed)
        &&& (forall|i: int| 0 <= i < self.events@.len()
            && (#[trigger] self.events@[i]) is Completed
            ==> self.phase is Done && i == self.events@.len() - 1)
        &&& (self.config.verbose ==> scanning_ports(self.events@) == self.dispatched@)
        &&& (!self.config.verbose ==> scanning_ports(self.events@) == Seq::<u16>::empty())
        &&& (forall|i: int| 0 <= i < open_ports(self.events@).len()
            ==> self.dispatched@.contains(#[trigger] open_ports(self.events@)[i]))
    }

    /// Sets up a run: nothing dispatched, nothing emitted, all permits free.
    pub fn new(config: ScanConfig) -> (coordinator: Self)
        requires
            config.wf(),
        ensures
            coordinator.wf(),
            coordinator.config() == config,
            coordinator.phase() is Init,
            coordinator.launched() == 0,
            coordinator.finished() == 0,
            coordinator.in_flight() == 0,
            coordinator.dispatched() == Seq::<u16>::empty(),
            coordinator.events() == Seq::<OutputEvent>::empty(),
    {
        let pool = AdmissionPool::new(config.max_tasks);
        let coordinator = Coordinator {
            config,
            pool,
            phase: Phase::Init,
            dispatched_count: 0,
            finished_count: 0,
            dispatched: Ghost(Seq::empty()),
            events: Ghost(Seq::empty()),
        };
        proof {
            assert(coordinator.dispatched@ =~= ports_from(config.start_port, 0));
            assert(scanning_ports(coordinator.events@) =~= Seq::<u16>::empty());
            assert(open_ports(coordinator.events@) =~= Seq::<u16>::empty());
        }
        coordinator
    }

    /// Opens the run: emits the summary event and moves to dispatching.
    pub fn start(&mut self) -> (event: OutputEvent)
        requires
            old(self).wf(),
            old(self).phase() is Init,
        ensures
            final(self).wf(),
            final(self).config() == old(self).config(),
            final(self).phase() is Dispatch,
            final(self).launched() == 0,
            final(self).finished() == 0,
            final(self).in_flight() == 0,
            final(self).dispatched() == old(self).dispatched(),
            event == summary_of(old(self).config()),
            final(self).events() == old(self).events().push(event),
    {
        let event = OutputEvent::Summary {
            target: self.config.target,
            start_port: self.config.start_port,
            end_port: self.config.end_port,
        };
        proof {
            lemma_scanning_push(self.events@, event);
            lemma_open_push(self.events@, event);
        }
        self.events = Ghost(self.events@.push(event));
        self.phase = Phase::Dispatch;
        event
    }

    /// True while some port of the range has not been dispatched yet.
    pub fn has_next_port(&self) -> (more: bool)
        requires
            self.wf(),
        ensures
            more == (self.launched() < self.config().range_len()),
    {
        if self.config.start_port > self.config.end_port {
            false
        } else {
            let total: usize = (self.config.end_port - self.config.start_port) as usize + 1;
            self.dispatched_count < total
        }
    }

    /// True when a permit is free, so the next port may be dispatched at
    /// once; false is the backpressure signal to wait for a finished probe.
    pub fn can_dispatch(&self) -> (free: bool)
        requires
            self.wf(),
        ensures
            free == (self.in_flight() < self.config().max_tasks as int),
    {
        self.pool.has_free_permit()
    }

    /// How many probes hold a permit right now, for instrumented runs.
    pub fn probes_in_flight(&self) -> (count: usize)
        ensures
            count as int == self.in_flight(),
    {
        self.pool.held_count()
    }

    /// Dispatches the next port in ascending order: draws one permit and
    /// hands out the probe request, together with the scanning event on
    /// verbose runs. The permit travels with the probe until
    /// [`Coordinator::probe_finished`] returns it.
    pub fn dispatch_next(&mut self) -> (dispatch: (ProbeRequest, Option<OutputEvent>))
        requires
            old(self).wf(),
            old(self).phase() is Dispatch,
            old(self).launched() < old(self).config().range_len(),
            old(self).in_flight() < old(self).config().max_tasks as int,
        ensures
            final(self).wf(),
            final(self).config() == old(self).config(),
            final(self).phase() is Dispatch,
            final(self).launched() == old(self).launched() + 1,
            final(self).finished() == old(self).finished(),
            final(self).in_flight() == old(self).in_flight() + 1,
            dispatch.0 == (ProbeRequest {
                target: old(self).config().target,
                port: (old(self).config().start_port + old(self).launched()) as u16,
                verbose: old(self).config().verbose,
            }),
            old(self).config().port_in_range(dispatch.0.port),
            final(self).dispatched() == old(self).dispatched().push(dispatch.0.port),
            dispatch.1 == (if old(self).config().verbose {
                Some(OutputEvent::Scanning { port: dispatch.0.port })
            } else {
                None::<OutputEvent>
            }),
            (old(self).config().verbose ==> final(self).events()
                == old(self).events().push(OutputEvent::Scanning { port: dispatch.0.port })),
            (!old(self).config().verbose ==> final(self).events() == old(self).events()),
    {
        proof {
            assert(self.config.range_len() <= 65536);
            assert(self.config.start_port + self.dispatched_count <= self.config.end_port);
        }
        let offset: u16 = self.dispatched_count as u16;
        let port: u16 = self.config.start_port + offset;
        proof {
            lemma_ports_from_push(self.config.start_port, self.dispatched_count as nat);
        }
        self.pool.acquire();
        self.dispatched_count = self.dispatched_count + 1;
        self.dispatched = Ghost(self.dispatched@.push(port));
        let request = ProbeRequest {
            target: self.config.target,
            port,
            verbose: self.config.verbose,
        };
        let announce: Option<OutputEvent> = if self.config.verbose {
            let event = OutputEvent::Scanning { port };
            proof {
                lemma_scanning_push(self.events@, event);
                lemma_open_push(self.events@, event);
            }
            self.events = Ghost(self.events@.push(event));
            Some(event)
        } else {
            None
        };
        proof {
            assert forall|i: int| 0 <= i < open_ports(self.events@).len()
                implies self.dispatched@.contains(#[trigger] open_ports(self.events@)[i]) by {
                let x = open_ports(self.events@)[i];
                assert(open_ports(old(self).events@)[i] == x);
                assert(old(self).dispatched@.contains(x));
                let j = choose|j: int|
                    0 <= j < old(self).dispatched@.len() && old(self).dispatched@[j] == x;
                assert(self.dispatched@[j] == x);
            };
        }
        (request, announce)
    }

    /// Takes back one finished probe: returns its permit and, when the port
    /// was open, hands out the report event for it.
    pub fn probe_finished(&mut self, port: u16, open: bool) -> (event: Option<OutputEvent>)
        requires
            old(self).wf(),
            old(self).phase() is Dispatch || old(self).phase() is Join,
            old(self).finished() < old(self).launched(),
            old(self).dispatched().contains(port),
        ensures
            final(self).wf(),
            final(self).config() == old(self).config(),
            final(self).phase() == old(self).phase(),
            final(self).launched() == old(self).launched(),
            final(self).finished() == old(self).finished() + 1,
            final(self).in_flight() == old(self).in_flight() - 1,
            final(self).dispatched() == old(self).dispatched(),
            event == (if open {
                Some(OutputEvent::PortOpen { port })
            } else {
                None::<OutputEvent>
            }),
            (open ==> final(self).events()
                == old(self).events().push(OutputEvent::PortOpen { port })),
            (!open ==> final(self).events() == old(self).events()),
    {
        self.pool.release();
        self.finished_count = self.finished_count + 1;
        if open {
            let event = OutputEvent::PortOpen { port };
            proof {
                lemma_scanning_push(self.events@, event);
                lemma_open_push(self.events@, event);
            }
            self.events = Ghost(self.events@.push(event));
            Some(event)
        } else {
            None
        }
    }

    /// Closes dispatching once every port of the range has been launched;
    /// the run then only waits for the in-flight probes.
    pub fn begin_join(&mut self)
        requires
            old(self).wf(),
            old(self).phase() is Dispatch,
            old(self).launched() == old(self).config().range_len(),
        ensures
            final(self).wf(),
            final(self).config() == old(self).config(),
            final(self).phase() is Join,
            final(self).launched() == old(self).launched(),
            final(self).finished() == old(self).finished(),
            final(self).in_flight() == old(self).in_flight(),
            final(self).dispatched() == old(self).dispatched(),
            final(self).events() == old(self).events(),
    {
        self.phase = Phase::Join;
    }

    /// True once every dispatched probe has finished.
    pub fn all_finished(&self) -> (done: bool)
        requires
            self.wf(),
        ensures
            done == (self.finished() == self.launched()),
    {
        self.finished_count == self.dispatched_count
    }

    /// Ends the run: every probe has finished, so the completion event goes
    /// out last and the coordinator is done.
    pub fn complete(&mut self) -> (event: OutputEvent)
        requires
            old(self).wf(),
            old(self).phase() is Join,
            old(self).finished() == old(self).launched(),
        ensures
            final(self).wf(),
            final(self).config() == old(self).config(),
            final(self).phase() is Done,
            final(self).launched() == old(self).launched(),
            final(self).finished() == old(self).finished(),
            final(self).in_flight() == 0,
            final(self).dispatched() == old(self).dispatched(),
            event == OutputEvent::Completed,
            final(self).events() == old(self).events().push(OutputEvent::Completed),
    {
        let event = OutputEvent::Completed;
        proof {
            lemma_scanning_push(self.events@, event);
            lemma_open_push(self.events@, event);
        }
        self.events = Ghost(self.events@.push(event));
        self.phase = Phase::Done;
        event
    }
}

/// Law: once a run reaches the join (or done) phase, exactly one probe has
/// been dispatched per port of the range — `end - start + 1` of them, each
/// against a distinct port, in ascending order, and all inside the range.
pub proof fn lemma_every_port_probed_once(coordinator: Coordinator)
    requires
        coordinator.wf(),
        coordinator.phase() is Join || coordinator.phase() is Done,
    ensures
        coordinator.launched() == coordinator.config().range_len(),
        coordinator.dispatched().len() == coordinator.config().range_len(),
        forall|i: int| 0 <= i < coordinator.dispatched().len()
            ==> #[trigger] coordinator.dispatched()[i]
                == coordinator.config().start_port + i,
        forall|i: int| 0 <= i < coordinator.dispatched().len()
            ==> coordinator.config().port_in_range(#[trigger] coordinator.dispatched()[i]),
        forall|i: int, j: int| 0 <= i < j < coordinator.dispatched().len()
            ==> coordinator.dispatched()[i] != coordinator.dispatched()[j],
{
    let config = coordinator.config();
    assert forall|i: int| 0 <= i < coordinator.dispatched().len()
        implies #[trigger] coordinator.dispatched()[i] == config.start_port + i by {
        assert(config.start_port + i <= config.end_port);
    };
}

/// Law: with an empty range (start above end) no probe is ever dispatched,
/// yet the run still opens with the summary event and, once done, still
/// closes with the completion event.
pub proof fn lemma_empty_range_no_probes(coordinator: Coordinator)
    requires
        coordinator.wf(),
        coordinator.config().start_port > coordinator.config().end_port,
        !(coordinator.phase() is Init),
    ensures
        coordinator.launched() == 0,
        coordinator.dispatched() == Seq::<u16>::empty(),
        coordinator.events().len() >= 1,
        coordinator.events()[0] == summary_of(coordinator.config()),
        coordinator.phase() is Done ==> coordinator.events().last() is Completed,
{
    assert(coordinator.dispatched() =~= Seq::<u16>::empty());
}

/// Law: at no point do more probes hold an admission permit than the
/// concurrency ceiling allows; the holders are exactly the dispatched
/// probes that have not finished.
pub proof fn lemma_concurrency_bounded(coordinator: Coordinator)
    requires
        coordinator.wf(),
    ensures
        0 <= coordinator.in_flight() <= coordinator.config().max_tasks as int,
        coordinator.in_flight() == coordinator.launched() - coordinator.finished(),
{
}

/// Law: a quiet run never emits a scanning event; a verbose run emits
/// exactly one scanning event per dispatched port, in ascending dispatch
/// order, whatever order the probes finish in.
pub proof fn lemma_scanning_events(coordinator: Coordinator)
    requires
        coordinator.wf(),
    ensures
        !coordinator.config().verbose
            ==> scanning_ports(coordinator.events()) == Seq::<u16>::empty(),
        coordinator.config().verbose
            ==> scanning_ports(coordinator.events()) == coordinator.dispatched(),
{
}

/// Law: a ceiling of one serializes the run — while any probe is in flight
/// it is the only one, and no further dispatch is admitted until it has
/// finished and returned its permit.
pub proof fn lemma_serialized_when_capacity_one(coordinator: Coordinator)
    requires
        coordinator.wf(),
        coordinator.config().max_tasks == 1,
        1 <= coordinator.in_flight(),
    ensures
        coordinator.in_flight() == 1,
        !(coordinator.in_flight() < coordinator.config().max_tasks as int),
{
}

/// Law: the completion event is emitted exactly once, as the very last
/// event of a finished run, and never before the run is done.
pub proof fn lemma_completion_last(coordinator: Coordinator)
    requires
        coordinator.wf(),
    ensures
        coordinator.phase() is Done ==> coordinator.events().len() >= 1
            && coordinator.events().last() is Completed,
        forall|i: int| 0 <= i < coordinator.events().len()
            && (#[trigger] coordinator.events()[i]) is Completed
            ==> coordinator.phase() is Done && i == coordinator.events().len() - 1,
{
}

/// Law: every run that has started opens with the summary event, and no
/// later event is a summary.
pub proof fn lemma_summary_first(coordinator: Coordinator)
    requires
        coordinator.wf(),
        !(coordinator.phase() is Init),
    ensures
        coordinator.events().len() >= 1,
        coordinator.events()[0] == summary_of(coordinator.config()),
        forall|i: int| 1 <= i < coordinator.events().len()
            ==> !((#[trigger] coordinator.events()[i]) is Summary),
{
}

/// Law: every port reported open was one of the dispatched ports — no open
/// report is invented for a port the run never probed.
pub proof fn lemma_open_reported_was_probed(coordinator: Coordinator)
    requires
        coordinator.wf(),
    ensures
        forall|i: int| 0 <= i < open_ports(coordinator.events()).len()
            ==> coordinator.dispatched().contains(
                #[trigger] open_ports(coordinator.events())[i]),
{
}

} // verus!
