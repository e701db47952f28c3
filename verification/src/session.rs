//! The logging session: when a log file is open, under which identity, and
//! what is written to it.
//!
//! The controller is a state machine. It is either idle or logging, and it
//! numbers what it logs: a session holds one or more splits, and each split is
//! one log file. Each transition takes what happened, changes the state and
//! says what has to be done to the file. Doing it is left to the caller, which
//! owns the file.

use crate::command::{payload_of, realtime_data, Command, CommandError, FLAG_REALTIME_DATA};
use crate::logfile::{
    file_name_of, header_bytes, header_fault, marker_bytes, truncated_seconds, FormatError,
    LogStart, MLog, MLogView, HEADER_LEN, MARKER_LEN,
};
use vstd::prelude::*;
use vstd::utf8::encode_utf8;

verus! {

/// Milliseconds that one query and its response are taken to cost.
pub const PROTOCOL_OVERHEAD_MS: u64 = 20;

/// Why a transition reports a failure.
#[derive(Clone, Copy, Debug, PartialEq, Eq)]
pub enum SessionError {
    /// The query for a row of realtime data failed.
    Query(CommandError),
    /// No header can be built for a log file.
    Format(FormatError),
    /// The split number is the last that 16 bits hold. No file is started
    /// under it, since the split after it could not be numbered.
    SplitsExhausted,
    /// The session number is the last that 16 bits hold.
    SessionsExhausted,
    /// The size of the log file would not fit in 64 bits.
    FileFull,
}

impl SessionError {
    /// Whether the failure is one of the link. A run cannot go on without
    /// its link; after any other failure it can, idle.
    pub open spec fn is_link_failure(self) -> bool {
        self == SessionError::Query(CommandError::Link)
    }

    /// Says whether the failure ends the run: a failure of the link does, and
    /// no other.
    pub fn ends_run(&self) -> (fatal: bool)
        ensures
            fatal == self.is_link_failure(),
    {
        match self {
            SessionError::Query(CommandError::Link) => true,
            _ => false,
        }
    }
}

/// What the caller has to do to the log file.
#[derive(Debug, PartialEq, Eq)]
pub enum Action {
    /// Nothing.
    Nothing,
    /// Create the file and write its header.
    Open(LogStart),
    /// Write these bytes at the end of the open file.
    Append(Vec<u8>),
    /// Flush the open file and close it.
    Close,
}

/// What a transition leaves to the caller: an action on the log file, and a
/// failure to report where there was one. The action is due in either case.
#[derive(Debug, PartialEq, Eq)]
pub struct Step {
    /// What to do to the log file.
    pub action: Action,
    /// What went wrong, if anything.
    pub error: Option<SessionError>,
}

/// An action, with its bytes and text as sequences.
pub enum ActionView {
    /// Nothing.
    Nothing,
    /// Create the file of this name and write this header.
    Open { name: Seq<char>, header: Seq<u8> },
    /// Write these bytes at the end of the open file.
    Append { bytes: Seq<u8> },
    /// Flush the open file and close it.
    Close,
}

impl View for Action {
    type V = ActionView;

    open spec fn view(&self) -> ActionView {
        match self {
            Action::Nothing => ActionView::Nothing,
            Action::Open(start) => ActionView::Open { name: start.name@, header: start.header@ },
            Action::Append(bytes) => ActionView::Append { bytes: bytes@ },
            Action::Close => ActionView::Close,
        }
    }
}

/// What can happen to a controller.
pub enum Event {
    /// The operator asks to start or to stop logging, at the given time.
    Toggle { stamp: Seq<char>, seconds: i64 },
    /// The operator asks for a new session.
    NewSession,
    /// The unit has answered the query for a row with these bytes.
    Tick { response: Seq<u8> },
    /// The operator marks the given time.
    Mark { timestamp: u32 },
    /// Logging has to end: the program quits, or the file cannot be written.
    Close,
}

/// The state of a controller.
pub struct State {
    /// The settings of the log files.
    pub log: MLogView,
    /// The number of the session; the first is 1.
    pub session_id: u16,
    /// The number of the split in its session; the first is 1. While logging
    /// it is the split that is written, else the one that comes next.
    pub split_id: u16,
    /// Whether a log file is open.
    pub logging: bool,
    /// The size in bytes of the log file that is open or was open last.
    pub file_size: u64,
}

impl State {
    /// The state at the start of a run.
    pub open spec fn initial(log: MLogView) -> State {
        State { log, session_id: 1, split_id: 1, logging: false, file_size: 0 }
    }

    /// What every state that a run reaches has: numbers that start at 1 and,
    /// while logging, a split number that can still go up and a file that
    /// holds its header.
    pub open spec fn wf(self) -> bool {
        &&& self.session_id >= 1
        &&& self.split_id >= 1
        &&& self.logging ==> self.split_id < u16::MAX && self.file_size >= HEADER_LEN
    }

    /// The state once logging has ended: the next split gets the next number.
    /// Nothing changes when no file was open.
    pub open spec fn stopped(self) -> State {
        if self.logging {
            State { logging: false, split_id: (self.split_id + 1) as u16, ..self }
        } else {
            self
        }
    }

    /// What stands against a new log file, if anything.
    pub open spec fn start_fault(self) -> Option<SessionError> {
        if self.split_id == u16::MAX {
            Some(SessionError::SplitsExhausted)
        } else {
            match header_fault(encode_utf8(self.log.signature), self.log.row_size) {
                Some(fault) => Some(SessionError::Format(fault)),
                None => None,
            }
        }
    }

    /// What stands against that many more bytes in the open file, if anything.
    pub open spec fn append_fault(self, count: nat) -> Option<SessionError> {
        if self.file_size + count > u64::MAX {
            Some(SessionError::FileFull)
        } else {
            None
        }
    }

    /// The state after that many bytes have gone to the open file.
    pub open spec fn appended(self, count: nat) -> State {
        State { file_size: (self.file_size + count) as u64, ..self }
    }

    /// The failure that an event meets in this state, if any.
    pub open spec fn error(self, event: Event) -> Option<SessionError> {
        match event {
            Event::Toggle { .. } => if self.logging {
                None
            } else {
                self.start_fault()
            },
            Event::NewSession => if !self.logging && self.session_id == u16::MAX {
                Some(SessionError::SessionsExhausted)
            } else {
                None
            },
            Event::Tick { response } => match payload_of(response, FLAG_REALTIME_DATA) {
                Err(fault) => Some(SessionError::Query(fault)),
                Ok(row) => if self.logging {
                    self.append_fault(row.len())
                } else {
                    None
                },
            },
            Event::Mark { .. } => if self.logging {
                self.append_fault(MARKER_LEN as nat)
            } else {
                None
            },
            Event::Close => None,
        }
    }

    /// The state that an event leads to.
    ///
    /// A toggle starts logging when idle, unless something stands against a
    /// new file, and stops it when logging. A new session begins only when
    /// idle: its number goes up and its splits start again at 1. A row or a
    /// marker grows the open file. Any failure while logging stops it.
    pub open spec fn next(self, event: Event) -> State {
        if self.error(event) is Some {
            self.stopped()
        } else {
            match event {
                Event::Toggle { .. } => if self.logging {
                    self.stopped()
                } else {
                    State { logging: true, file_size: HEADER_LEN as u64, ..self }
                },
                Event::NewSession => if self.logging {
                    self
                } else {
                    State { session_id: (self.session_id + 1) as u16, split_id: 1, ..self }
                },
                Event::Tick { response } => if self.logging {
                    self.appended(payload_of(response, FLAG_REALTIME_DATA)->Ok_0.len())
                } else {
                    self
                },
                Event::Mark { .. } => if self.logging {
                    self.appended(MARKER_LEN as nat)
                } else {
                    self
                },
                Event::Close => self.stopped(),
            }
        }
    }

    /// What an event leaves the caller to do to the log file.
    ///
    /// The file is closed whenever logging ends, by a toggle, by a close or
    /// by a failure. It is opened by a toggle that starts logging, under the
    /// current numbers. Rows and markers are appended while logging.
    pub open spec fn action(self, event: Event) -> ActionView {
        if self.error(event) is Some || event is Close {
            if self.logging {
                ActionView::Close
            } else {
                ActionView::Nothing
            }
        } else {
            match event {
                Event::Toggle { stamp, seconds } => if self.logging {
                    ActionView::Close
                } else {
                    ActionView::Open {
                        name: file_name_of(
                            self.log.path,
                            self.log.prefix,
                            stamp,
                            self.session_id,
                            self.split_id,
                        ),
                        header: header_bytes(
                            encode_utf8(self.log.signature),
                            truncated_seconds(seconds),
                            self.log.row_size as u16,
                        ),
                    }
                },
                Event::Tick { response } => if self.logging {
                    ActionView::Append { bytes: payload_of(response, FLAG_REALTIME_DATA)->Ok_0 }
                } else {
                    ActionView::Nothing
                },
                Event::Mark { timestamp } => if self.logging {
                    ActionView::Append { bytes: marker_bytes(timestamp) }
                } else {
                    ActionView::Nothing
                },
                _ => ActionView::Nothing,
            }
        }
    }
}

/// The state after a series of events, taken in order.
pub open spec fn run(state: State, events: Seq<Event>) -> State
    decreases events.len(),
{
    if events.len() == 0 {
        state
    } else {
        run(state, events.drop_last()).next(events.last())
    }
}

/// The first identity comes before the second: in an earlier session, or in
/// the same session with a lower split number.
pub open spec fn comes_before(first: (u16, u16), second: (u16, u16)) -> bool {
    first.0 < second.0 || (first.0 == second.0 && first.1 < second.1)
}

/// The identities, session and split, under which a series of events opens
/// log files, in the order of the events.
pub open spec fn opened(state: State, events: Seq<Event>) -> Seq<(u16, u16)>
    decreases events.len(),
{
    if events.len() == 0 {
        Seq::empty()
    } else {
        let before = run(state, events.drop_last());
        let earlier = opened(state, events.drop_last());
        if before.action(events.last()) is Open {
            earlier.push((before.session_id, before.split_id))
        } else {
            earlier
        }
    }
}

/// The pause between two ticks for a rate in rows per second: the period of
/// the rate in milliseconds, rounded up, less the overhead of the protocol,
/// and never below zero. A rate of zero gives the longest pause there is.
pub open spec fn pacing_interval(data_rate: u16) -> u64 {
    if data_rate == 0 {
        u64::MAX
    } else {
        let period = (1000 + data_rate - 1) / (data_rate as int);
        if period > PROTOCOL_OVERHEAD_MS {
            (period - PROTOCOL_OVERHEAD_MS) as u64
        } else {
            0
        }
    }
}

/// Says how many milliseconds to pause between two ticks so that rows come
/// at about the given rate per second: the shortest whole number of
/// milliseconds that, together with the overhead of the protocol, makes up
/// the period of the rate. The pause is advisory.
pub fn pacing_interval_ms(data_rate: u16) -> (pause: u64)
    ensures
        pause == pacing_interval(data_rate),
        data_rate > 0 ==> (pause + PROTOCOL_OVERHEAD_MS) * data_rate >= 1000,
        data_rate > 0 && pause > 0 ==> (pause + PROTOCOL_OVERHEAD_MS - 1) * data_rate < 1000,
{
    if data_rate == 0 {
        return u64::MAX;
    }
    let rate: u64 = data_rate as u64;
    let period: u64 = (1000 + rate - 1) / rate;
    proof {
        let p = period as int;
        let r = rate as int;
        assert(p * r <= 1000 + r - 1 < (p + 1) * r) by (nonlinear_arith)
            requires
                r > 0,
                p == (1000 + r - 1) / r,
        ;
        assert(p * r >= 1000 && (p - 1) * r < 1000) by (nonlinear_arith)
            requires
                p * r <= 1000 + r - 1 < (p + 1) * r,
        ;
        if p <= 20 {
            assert(20 * r >= p * r) by (nonlinear_arith)
                requires
                    p <= 20,
                    r > 0,
            ;
        }
    }
    if period > PROTOCOL_OVERHEAD_MS {
        period - PROTOCOL_OVERHEAD_MS
    } else {
        0
    }
}

/// The controller of a run: the settings of its log files and where it
/// stands.
pub struct Controller {
    log: MLog,
    session_id: u16,
    split_id: u16,
    logging: bool,
    file_size: u64,
}

impl View for Controller {
    type V = State;

    closed spec fn view(&self) -> State {
        State {
            log: self.log@,
            session_id: self.session_id,
            split_id: self.split_id,
            logging: self.logging,
            file_size: self.file_size,
        }
    }
}

impl Controller {
    #[verifier::type_invariant]
    spec fn inv(self) -> bool {
        self@.wf()
    }

    /// Starts a run: idle, in session 1, with split 1 to come.
    pub fn new(log: MLog) -> (controller: Controller)
        ensures
            controller@ == State::initial(log@),
            controller@.wf(),
    {
        Controller { log, session_id: 1, split_id: 1, logging: false, file_size: 0 }
    }

    /// Starts a run from the first response to the realtime query. The row
    /// that it carries is not logged: its length becomes the row size of the
    /// run, which every header then states. A response that yields no row
    /// starts nothing.
    pub fn negotiate(
        path: &String,
        prefix: &String,
        signature: &String,
        first_response: &[u8],
    ) -> (r: Result<Controller, CommandError>)
        ensures
            match payload_of(first_response@, FLAG_REALTIME_DATA) {
                Ok(row) => r matches Ok(controller) && controller@.wf() && controller@
                    == State::initial(
                    MLogView {
                        path: path@,
                        prefix: prefix@,
                        signature: signature@,
                        row_size: row.len() as usize,
                    },
                ),
                Err(fault) => r matches Err(e) && e == fault,
            },
    {
        match realtime_data(first_response) {
            Ok(row) => Ok(Controller::new(MLog::init(path, prefix, signature, row.len()))),
            Err(fault) => Err(fault),
        }
    }

    /// The query to send on every tick, logging or not: the one for a row of
    /// realtime data. Its response goes to [`Controller::tick`].
    pub fn query(&self) -> (command: Command)
        ensures
            command == Command::RealtimeData,
    {
        Command::RealtimeData
    }

    /// The number of the session.
    pub fn session_id(&self) -> (id: u16)
        ensures
            id == self@.session_id,
            self@.wf(),
    {
        proof {
            use_type_invariant(self);
        }
        self.session_id
    }

    /// The number of the split that is written or, when idle, comes next.
    pub fn split_id(&self) -> (id: u16)
        ensures
            id == self@.split_id,
            self@.wf(),
    {
        proof {
            use_type_invariant(self);
        }
        self.split_id
    }

    /// Whether a log file is open.
    pub fn is_logging(&self) -> (logging: bool)
        ensures
            logging == self@.logging,
            self@.wf(),
    {
        proof {
            use_type_invariant(self);
        }
        self.logging
    }

    /// The size in bytes of the log file that is open or was open last; 0
    /// before the first.
    pub fn file_size(&self) -> (size: u64)
        ensures
            size == self@.file_size,
            self@.wf(),
    {
        proof {
            use_type_invariant(self);
        }
        self.file_size
    }

    /// Ends logging, if a file is open, and says what to do to it.
    fn stop(&mut self) -> (action: Action)
        ensures
            final(self)@ == old(self)@.stopped(),
            action@ == if old(self)@.logging {
                ActionView::Close
            } else {
                ActionView::Nothing
            },
    {
        proof {
            use_type_invariant(&*self);
        }
        if self.logging {
            self.logging = false;
            self.split_id = self.split_id + 1;
            Action::Close
        } else {
            Action::Nothing
        }
    }

    /// Hands bytes on to the open file, if its size allows it.
    fn append(&mut self, bytes: Vec<u8>) -> (step: Step)
        requires
            old(self)@.logging,
        ensures
            match old(self)@.append_fault(bytes@.len()) {
                Some(fault) => final(self)@ == old(self)@.stopped() && step.action@
                    == ActionView::Close && step.error == Some(fault),
                None => final(self)@ == old(self)@.appended(bytes@.len()) && step.action@
                    == (ActionView::Append { bytes: bytes@ }) && step.error.is_none(),
            },
    {
        proof {
            use_type_invariant(&*self);
        }
        match self.file_size.checked_add(bytes.len() as u64) {
            Some(size) => {
                self.file_size = size;
                Step { action: Action::Append(bytes), error: None }
            },
            None => {
                let action = self.stop();
                Step { action, error: Some(SessionError::FileFull) }
            },
        }
    }

    /// Starts logging when idle, and stops it when logging.
    ///
    /// Starting takes the time, as the text for the file's name and as seconds
    /// since the epoch for its header, and asks for a new file under the
    /// current session and split. It fails, and changes nothing, when the
    /// split number is the last one or no header can be built. Stopping asks
    /// for the file to be closed and moves on to the next split.
    pub fn toggle(&mut self, stamp: &str, seconds: i64) -> (step: Step)
        ensures
            final(self)@ == old(self)@.next(Event::Toggle { stamp: stamp@, seconds }),
            step.action@ == old(self)@.action(Event::Toggle { stamp: stamp@, seconds }),
            step.error == old(self)@.error(Event::Toggle { stamp: stamp@, seconds }),
            final(self)@.wf(),
    {
        proof {
            use_type_invariant(&*self);
        }
        if self.logging {
            let action = self.stop();
            return Step { action, error: None };
        }
        if self.split_id == u16::MAX {
            return Step { action: Action::Nothing, error: Some(SessionError::SplitsExhausted) };
        }
        match self.log.open((self.session_id, self.split_id), stamp, seconds) {
            Err(fault) => Step { action: Action::Nothing, error: Some(SessionError::Format(fault)) },
            Ok(start) => {
                self.file_size = HEADER_LEN as u64;
                self.logging = true;
                Step { action: Action::Open(start), error: None }
            },
        }
    }

    /// Begins a new session when idle: the session number goes up and the
    /// splits start again at 1. While logging, nothing happens. It fails, and
    /// changes nothing, when the session number is the last one.
    pub fn new_session(&mut self) -> (step: Step)
        ensures
            final(self)@ == old(self)@.next(Event::NewSession),
            step.action@ == old(self)@.action(Event::NewSession),
            step.error == old(self)@.error(Event::NewSession),
            final(self)@.wf(),
    {
        proof {
            use_type_invariant(&*self);
        }
        if self.logging {
            return Step { action: Action::Nothing, error: None };
        }
        if self.session_id == u16::MAX {
            return Step { action: Action::Nothing, error: Some(SessionError::SessionsExhausted) };
        }
        self.session_id = self.session_id + 1;
        self.split_id = 1;
        Step { action: Action::Nothing, error: None }
    }

    /// Takes the response to the query for a row, which is made on every
    /// tick, logging or not.
    ///
    /// While logging, the row is handed on to the file and counted. A
    /// response that yields no row is reported, and ends logging if a file is
    /// open.
    pub fn tick(&mut self, response: &[u8]) -> (step: Step)
        ensures
            final(self)@ == old(self)@.next(Event::Tick { response: response@ }),
            step.action@ == old(self)@.action(Event::Tick { response: response@ }),
            step.error == old(self)@.error(Event::Tick { response: response@ }),
            final(self)@.wf(),
    {
        proof {
            use_type_invariant(&*self);
        }
        match realtime_data(response) {
            Err(fault) => {
                let action = self.stop();
                Step { action, error: Some(SessionError::Query(fault)) }
            },
            Ok(row) => {
                if self.logging {
                    self.append(row)
                } else {
                    Step { action: Action::Nothing, error: None }
                }
            },
        }
    }

    /// Marks the given time in the log: while logging, a marker is handed on
    /// to the file and counted. When idle, nothing happens.
    pub fn mark(&mut self, timestamp: u32) -> (step: Step)
        ensures
            final(self)@ == old(self)@.next(Event::Mark { timestamp }),
            step.action@ == old(self)@.action(Event::Mark { timestamp }),
            step.error == old(self)@.error(Event::Mark { timestamp }),
            final(self)@.wf(),
    {
        proof {
            use_type_invariant(&*self);
        }
        if self.logging {
            self.append(MLog::marker(timestamp))
        } else {
            Step { action: Action::Nothing, error: None }
        }
    }

    /// Ends logging: asks for the open file to be closed and moves on to the
    /// next split. When idle, nothing happens; that is no failure.
    pub fn close(&mut self) -> (step: Step)
        ensures
            final(self)@ == old(self)@.next(Event::Close),
            step.action@ == old(self)@.action(Event::Close),
            step.error == old(self)@.error(Event::Close),
            final(self)@.wf(),
    {
        proof {
            use_type_invariant(&*self);
        }
        let action = self.stop();
        Step { action, error: None }
    }
}

/// Every event leads from a well-formed state to a well-formed state.
pub proof fn lemma_next_keeps_wf(state: State, event: Event)
    requires
        state.wf(),
    ensures
        state.next(event).wf(),
{
}

/// While logging, the identity stands still. No event changes the session
/// number of a controller that is logging, and the split number changes only
/// as logging ends: then the next split gets the next number, so that no two
/// files of a session share one.
pub proof fn lemma_ids_fixed_while_logging(state: State, event: Event)
    requires
        state.wf(),
        state.logging,
    ensures
        state.next(event).session_id == state.session_id,
        state.next(event).logging ==> state.next(event).split_id == state.split_id,
        !state.next(event).logging ==> state.next(event).split_id == state.split_id + 1,
{
}

/// The numbers never go back. No event lowers the session number, and the
/// split number goes down only where a new session begins and starts its
/// splits again at 1.
pub proof fn lemma_ids_never_decrease(state: State, event: Event)
    requires
        state.wf(),
    ensures
        state.next(event).session_id >= state.session_id,
        state.next(event).session_id == state.session_id ==> state.next(event).split_id
            >= state.split_id,
        !(event is NewSession) ==> state.next(event).split_id >= state.split_id,
{
}

/// Asking for a new session while logging does nothing at all.
pub proof fn lemma_new_session_while_logging(state: State)
    requires
        state.logging,
    ensures
        state.next(Event::NewSession) == state,
        state.action(Event::NewSession) == ActionView::Nothing,
        state.error(Event::NewSession) is None,
{
}

/// Closing when no file is open does nothing and is no failure, so closing
/// twice is the same as closing once.
pub proof fn lemma_close_is_idempotent(state: State)
    ensures
        !state.logging ==> state.next(Event::Close) == state,
        !state.logging ==> state.action(Event::Close) == ActionView::Nothing,
        state.error(Event::Close) is None,
        state.next(Event::Close).next(Event::Close) == state.next(Event::Close),
{
}

/// The size that the controller keeps is the number of bytes that it has
/// handed out for the file. Opening sets it to the length of the header, 81;
/// appending adds the length of the bytes; closing and doing nothing leave it
/// as it is. A file is opened only when idle, and written and closed only
/// when one is open.
pub proof fn lemma_size_counts_bytes(state: State, event: Event)
    requires
        state.wf(),
    ensures
        match state.action(event) {
            ActionView::Open { name, header } => {
                &&& !state.logging
                &&& state.next(event).logging
                &&& header.len() == HEADER_LEN
                &&& state.next(event).file_size == header.len()
            },
            ActionView::Append { bytes } => {
                &&& state.logging
                &&& state.next(event).logging
                &&& state.next(event).file_size == state.file_size + bytes.len()
            },
            ActionView::Close => {
                &&& state.logging
                &&& !state.next(event).logging
                &&& state.next(event).file_size == state.file_size
            },
            ActionView::Nothing => {
                &&& state.next(event).logging == state.logging
                &&& state.next(event).file_size == state.file_size
            },
        },
{
}

/// Over any series of events the state stays well-formed and the numbers keep
/// their order: the session number does not go down, and as long as it is the
/// same the split number does not go down either.
pub proof fn lemma_run_keeps_order(state: State, events: Seq<Event>)
    requires
        state.wf(),
    ensures
        run(state, events).wf(),
        run(state, events).session_id >= state.session_id,
        run(state, events).session_id == state.session_id ==> run(state, events).split_id
            >= state.split_id,
    decreases events.len(),
{
    if events.len() > 0 {
        lemma_run_keeps_order(state, events.drop_last());
    }
}

/// What holds of the files opened so far: each has an identity before that
/// of any opened later, none is ahead of where the controller stands, and
/// once the controller is idle all of them lie behind it.
spec fn opened_in_order(now: State, ids: Seq<(u16, u16)>) -> bool {
    &&& forall|i: int, j: int| 0 <= i < j < ids.len() ==> comes_before(ids[i], ids[j])
    &&& forall|i: int|
        0 <= i < ids.len() ==> ids[i] == (now.session_id, now.split_id) || comes_before(
            #[trigger] ids[i],
            (now.session_id, now.split_id),
        )
    &&& !now.logging ==> forall|i: int|
        0 <= i < ids.len() ==> comes_before(#[trigger] ids[i], (now.session_id, now.split_id))
}

proof fn lemma_opened_in_order(state: State, events: Seq<Event>)
    requires
        state.wf(),
    ensures
        run(state, events).wf(),
        opened_in_order(run(state, events), opened(state, events)),
    decreases events.len(),
{
    if events.len() > 0 {
        lemma_opened_in_order(state, events.drop_last());
    }
}

/// No identity is used twice. Over any series of events, each log file is
/// opened under an identity that comes after those of all files opened
/// before it, so no two files of a run share their session and split.
pub proof fn lemma_files_never_share_an_identity(
    state: State,
    events: Seq<Event>,
    first: int,
    second: int,
)
    requires
        state.wf(),
        0 <= first < second < opened(state, events).len(),
    ensures
        comes_before(opened(state, events)[first], opened(state, events)[second]),
        opened(state, events)[first] != opened(state, events)[second],
{
    lemma_opened_in_order(state, events);
    let earlier = opened(state, events)[first];
    let later = opened(state, events)[second];
    assert(comes_before(earlier, later));
}

} // verus!
