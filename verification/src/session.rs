//! What goes on between the controller and one player: a command is run over a channel, run
//! again where that fails, and what came of it is kept.

use circular_buffer::CircularBuffer;
use vstd::prelude::*;

use crate::icons::{ERROR, EXEC_ERR, SUCCESSFUL, TIMED_OUT};

verus! {

/// What one run of a command printed, and when, in seconds of the Unix clock.
pub struct Log {
    pub stdout: Option<String>,
    pub stderr: Option<String>,
    pub timestamp: i64,
}

/// What a `Log` stands for.
pub struct LogModel {
    pub stdout: Option<Seq<char>>,
    pub stderr: Option<Seq<char>>,
    pub timestamp: i64,
}

impl View for Log {
    type V = LogModel;

    open spec fn view(&self) -> LogModel {
        LogModel {
            stdout: match self.stdout {
                Some(s) => Some(s@),
                None => None,
            },
            stderr: match self.stderr {
                Some(s) => Some(s@),
                None => None,
            },
            timestamp: self.timestamp,
        }
    }
}

/// The bounded buffer of the `circular_buffer` crate.
#[verifier::external_type_specification]
#[verifier::external_body]
#[verifier::reject_recursive_types(T)]
pub struct ExCircularBuffer<const N: usize, T>(CircularBuffer<N, T>);

/// The logs that a buffer holds, oldest first.
pub uninterp spec fn logs_in(buffer: CircularBuffer<1024, Log>) -> Seq<LogModel>;

/// How many logs of a player are kept.
pub const LOG_CAPACITY: usize = 1024;

/// `logs` with one more at the end; where they were as many as are kept, the oldest is dropped.
pub open spec fn with_log(logs: Seq<LogModel>, log: LogModel) -> Seq<LogModel> {
    if logs.len() >= LOG_CAPACITY {
        logs.drop_first().push(log)
    } else {
        logs.push(log)
    }
}

/// `circular_buffer::CircularBuffer::new`: a buffer that holds nothing.
#[verifier::external_body]
fn new_buffer() -> (buffer: CircularBuffer<1024, Log>)
    ensures
        logs_in(buffer) == Seq::<LogModel>::empty(),
{
    CircularBuffer::new()
}

/// `circular_buffer::CircularBuffer::push_back`: puts a log at the back; a full buffer drops the
/// one at its front.
#[verifier::external_body]
fn push_log(buffer: &mut CircularBuffer<1024, Log>, log: Log)
    ensures
        logs_in(*final(buffer)) == with_log(logs_in(*old(buffer)), log@),
{
    buffer.push_back(log);
}

/// `circular_buffer::CircularBuffer::len`: how many logs the buffer holds.
#[verifier::external_body]
pub(crate) fn log_count(buffer: &CircularBuffer<1024, Log>) -> (count: usize)
    ensures
        count == logs_in(*buffer).len(),
{
    buffer.len()
}

/// `circular_buffer::CircularBuffer::get`: the log at a place, counted from the oldest.
#[verifier::external_body]
pub(crate) fn log_at(buffer: &CircularBuffer<1024, Log>, index: usize) -> (log: Option<&Log>)
    ensures
        log is Some <==> index < logs_in(*buffer).len(),
        log matches Some(l) ==> l@ == logs_in(*buffer)[index as int],
{
    buffer.get(index)
}

/// The text that bytes are read as where not all of them need be UTF-8.
pub uninterp spec fn lossy_text(bytes: Seq<u8>) -> Seq<char>;

/// `String::from_utf8_lossy`: the text that valid UTF-8 spells; a replacement character stands
/// for what is not valid, in a way that is not spelled out.
#[verifier::external_body]
fn decode_lossy(bytes: &Vec<u8>) -> (text: String)
    ensures
        text@ == lossy_text(bytes@),
        vstd::utf8::valid_utf8(bytes@) ==> text@ == vstd::utf8::decode_utf8(bytes@),
{
    String::from_utf8_lossy(bytes).into_owned()
}

/// What is known of a player: the connection to it, if there is one, what its commands printed,
/// and how the last of them went.
pub struct ClientInfo<C> {
    pub connection: Option<C>,
    pub output: CircularBuffer<1024, Log>,
    pub status: char,
    pub msg: String,
}

/// What a `ClientInfo` stands for.
pub struct InfoModel<C> {
    pub connection: Option<C>,
    pub output: Seq<LogModel>,
    pub status: char,
    pub msg: Seq<char>,
}

impl<C> View for ClientInfo<C> {
    type V = InfoModel<C>;

    open spec fn view(&self) -> InfoModel<C> {
        InfoModel {
            connection: self.connection,
            output: logs_in(self.output),
            status: self.status,
            msg: self.msg@,
        }
    }
}

impl<C> ClientInfo<C> {
    /// No more logs than are kept.
    pub open spec fn wf(&self) -> bool {
        self@.output.len() <= LOG_CAPACITY
    }
}

impl<C> Default for ClientInfo<C> {
    /// Nothing is known of a player at first.
    fn default() -> (info: Self)
        ensures
            info.wf(),
            info@ == (InfoModel::<C> {
                connection: None,
                output: Seq::empty(),
                status: '\0',
                msg: Seq::empty(),
            }),
    {
        ClientInfo { connection: None, output: new_buffer(), status: '\0', msg: String::new() }
    }
}

/// What a command that came to its end printed, and its exit status.
pub struct ExecOutput {
    pub stdout: Option<Vec<u8>>,
    pub stderr: Option<Vec<u8>>,
    pub exit_status: u32,
}

/// The bytes of an optional buffer.
pub open spec fn bytes_of(buffer: Option<Vec<u8>>) -> Option<Seq<u8>> {
    match buffer {
        Some(b) => Some(b@),
        None => None,
    }
}

/// What an `ExecOutput` stands for.
pub struct OutputModel {
    pub stdout: Option<Seq<u8>>,
    pub stderr: Option<Seq<u8>>,
    pub exit_status: u32,
}

impl View for ExecOutput {
    type V = OutputModel;

    open spec fn view(&self) -> OutputModel {
        OutputModel {
            stdout: bytes_of(self.stdout),
            stderr: bytes_of(self.stderr),
            exit_status: self.exit_status,
        }
    }
}

impl ExecOutput {
    /// What is left of the output of a download: the exit status and the file.
    pub fn downloaded(self) -> (file: (u32, Option<Vec<u8>>))
        ensures
            file.0 == self@.exit_status,
            bytes_of(file.1) == self@.stdout,
    {
        (self.exit_status, self.stdout)
    }

    /// What is left of the output of an upload: the exit status.
    pub fn uploaded(self) -> (exit_status: u32)
        ensures
            exit_status == self@.exit_status,
    {
        self.exit_status
    }
}

/// The command by which a player takes a file from its standard input.
pub fn upload_command(path: &str) -> (command: String)
    ensures
        command@ == "scp /dev/stdin "@ + path@,
{
    "scp /dev/stdin ".to_owned().concat(path)
}

/// The command by which a player prints a file on its standard output.
pub fn download_command(path: &str) -> (command: String)
    ensures
        command@ == "scp "@ + path@ + " /dev/stdout"@,
{
    "scp ".to_owned().concat(path).concat(" /dev/stdout")
}

/// How far a command has come.
#[derive(Debug, Clone, Copy, PartialEq, Eq, Structural)]
pub enum ExecStep {
    /// A connection is being made.
    Connecting,
    /// A channel is being opened.
    Opening,
    /// The command is being sent.
    Starting,
    /// The input of the command is being sent.
    Sending,
    /// The input of the command is being ended.
    Ending,
    /// The player is being listened to.
    Waiting,
    /// The channel is being closed.
    Closing,
    /// Nothing is left to do.
    Finished,
}

/// What came of a step.
pub enum ExecEvent<C, E> {
    /// There is a new connection.
    Connected(C),
    /// The step is done.
    Done,
    /// The command printed something.
    Data(Vec<u8>),
    /// The command printed something on its error output.
    ExtendedData(Vec<u8>),
    /// The command came to its end.
    ExitStatus(u32),
    /// The player sent something else.
    Other,
    /// The player has nothing more to send.
    End,
    /// The step failed.
    Failed(E),
}

/// What is to be done next.
pub enum ExecAction<E> {
    OpenSession,
    Exec,
    SendData,
    SendEof,
    Wait,
    Close,
    Finish(ExecResult<E>),
}

/// What came of a command.
pub enum ExecResult<E> {
    /// It came to its end.
    Output(ExecOutput),
    /// The channel ended before the command did.
    NoExitStatus,
    /// A step failed.
    Failed(E),
}

/// A command that is being run.
pub struct ExecJob {
    pub step: ExecStep,
    /// Whether there is input for the command.
    pub has_data: bool,
    pub stdout: Option<Vec<u8>>,
    pub stderr: Option<Vec<u8>>,
    pub exit_status: Option<u32>,
}

/// What an `ExecJob` stands for.
pub struct JobModel {
    pub step: ExecStep,
    pub has_data: bool,
    pub stdout: Option<Seq<u8>>,
    pub stderr: Option<Seq<u8>>,
    pub exit_status: Option<u32>,
}

impl View for ExecJob {
    type V = JobModel;

    open spec fn view(&self) -> JobModel {
        JobModel {
            step: self.step,
            has_data: self.has_data,
            stdout: bytes_of(self.stdout),
            stderr: bytes_of(self.stderr),
            exit_status: self.exit_status,
        }
    }
}

/// A command of which nothing was done yet.
pub open spec fn new_job(has_data: bool) -> JobModel {
    JobModel {
        step: ExecStep::Connecting,
        has_data,
        stdout: None,
        stderr: None,
        exit_status: None,
    }
}

/// `printed` with more at its end.
pub open spec fn with_bytes(printed: Option<Seq<u8>>, data: Seq<u8>) -> Option<Seq<u8>> {
    match printed {
        Some(p) => Some(p + data),
        None => Some(data),
    }
}

/// The events that can come of a step.
pub open spec fn can_follow<C, E>(step: ExecStep, event: ExecEvent<C, E>) -> bool {
    match event {
        ExecEvent::Failed(_) => step != ExecStep::Finished,
        ExecEvent::Connected(_) => step == ExecStep::Connecting,
        ExecEvent::Done => {
            ||| step == ExecStep::Opening
            ||| step == ExecStep::Starting
            ||| step == ExecStep::Sending
            ||| step == ExecStep::Ending
            ||| step == ExecStep::Closing
        },
        _ => step == ExecStep::Waiting,
    }
}

/// The step after one that is done.
pub open spec fn step_after(job: JobModel) -> ExecStep {
    match job.step {
        ExecStep::Connecting => ExecStep::Opening,
        ExecStep::Opening => ExecStep::Starting,
        ExecStep::Starting => if job.has_data {
            ExecStep::Sending
        } else {
            ExecStep::Waiting
        },
        ExecStep::Sending => ExecStep::Ending,
        ExecStep::Ending => ExecStep::Waiting,
        ExecStep::Waiting => ExecStep::Closing,
        ExecStep::Closing => ExecStep::Finished,
        ExecStep::Finished => ExecStep::Finished,
    }
}

/// A command after one more event; once its channel is closed, what it printed is handed over.
pub open spec fn job_after<C, E>(job: JobModel, event: ExecEvent<C, E>) -> JobModel {
    match event {
        ExecEvent::Connected(_) => JobModel { step: step_after(job), ..job },
        ExecEvent::Done => if job.step == ExecStep::Closing {
            JobModel { step: step_after(job), stdout: None, stderr: None, ..job }
        } else {
            JobModel { step: step_after(job), ..job }
        },
        ExecEvent::Data(data) => JobModel { stdout: with_bytes(job.stdout, data@), ..job },
        ExecEvent::ExtendedData(data) => JobModel { stderr: with_bytes(job.stderr, data@), ..job },
        ExecEvent::ExitStatus(status) => JobModel {
            step: step_after(job),
            exit_status: Some(status),
            ..job
        },
        ExecEvent::Other => job,
        ExecEvent::End => JobModel { step: step_after(job), exit_status: None, ..job },
        ExecEvent::Failed(_) => JobModel { step: ExecStep::Finished, ..job },
    }
}

/// What a command is told to do at a step that it has not finished.
pub open spec fn is_action_for<E>(step: ExecStep, action: ExecAction<E>) -> bool {
    match step {
        ExecStep::Opening => action is OpenSession,
        ExecStep::Starting => action is Exec,
        ExecStep::Sending => action is SendData,
        ExecStep::Ending => action is SendEof,
        ExecStep::Waiting => action is Wait,
        ExecStep::Closing => action is Close,
        _ => false,
    }
}

/// What comes of a command whose channel was closed, or of whose steps one failed.
pub open spec fn is_result_of<C, E>(
    job: JobModel,
    event: ExecEvent<C, E>,
    result: ExecResult<E>,
) -> bool {
    match event {
        ExecEvent::Failed(e) => result == ExecResult::<E>::Failed(e),
        _ => match job.exit_status {
            Some(exit_status) => result matches ExecResult::Output(output) && output@ == (
            OutputModel { stdout: job.stdout, stderr: job.stderr, exit_status }),
            None => result is NoExitStatus,
        },
    }
}

/// What is known of a player after an event: a new connection is kept where there was none.
pub open spec fn connection_after<C, E>(
    connection: Option<C>,
    event: ExecEvent<C, E>,
) -> Option<C> {
    match event {
        ExecEvent::Connected(new) => match connection {
            Some(kept) => Some(kept),
            None => Some(new),
        },
        _ => connection,
    }
}

/// Adds bytes to what was printed.
fn push_bytes(printed: &mut Option<Vec<u8>>, data: Vec<u8>)
    ensures
        bytes_of(*final(printed)) == with_bytes(bytes_of(*old(printed)), data@),
{
    let mut data = data;
    match printed.take() {
        Some(mut p) => {
            p.append(&mut data);
            *printed = Some(p);
        },
        None => {
            *printed = Some(data);
        },
    }
}

impl ExecJob {
    /// A command that starts with a connection being made.
    pub fn new(has_data: bool) -> (job: Self)
        ensures
            job@ == new_job(has_data),
    {
        ExecJob {
            step: ExecStep::Connecting,
            has_data,
            stdout: None,
            stderr: None,
            exit_status: None,
        }
    }

    /// Takes in what came of the last step and says what is to be done next.
    pub fn advance<C, E>(
        &mut self,
        info: &mut ClientInfo<C>,
        event: ExecEvent<C, E>,
    ) -> (action: ExecAction<E>)
        requires
            can_follow(old(self)@.step, event),
        ensures
            final(self)@ == job_after(old(self)@, event),
            final(self)@.step != ExecStep::Finished ==> is_action_for(final(self)@.step, action),
            final(self)@.step == ExecStep::Finished ==> {
                &&& action matches ExecAction::Finish(result)
                &&& is_result_of(old(self)@, event, result)
            },
            final(info)@ == (InfoModel::<C> {
                connection: connection_after(old(info)@.connection, event),
                ..old(info)@
            }),
    {
        match event {
            ExecEvent::Failed(e) => {
                self.step = ExecStep::Finished;
                return ExecAction::Finish(ExecResult::Failed(e));
            },
            ExecEvent::Connected(new) => {
                if info.connection.is_none() {
                    info.connection = Some(new);
                }
                self.step = ExecStep::Opening;
            },
            ExecEvent::Data(data) => {
                push_bytes(&mut self.stdout, data);
            },
            ExecEvent::ExtendedData(data) => {
                push_bytes(&mut self.stderr, data);
            },
            ExecEvent::ExitStatus(status) => {
                self.exit_status = Some(status);
                self.step = ExecStep::Closing;
            },
            ExecEvent::Other => {},
            ExecEvent::End => {
                self.exit_status = None;
                self.step = ExecStep::Closing;
            },
            ExecEvent::Done => {
                self.step = match self.step {
                    ExecStep::Opening => ExecStep::Starting,
                    ExecStep::Starting => if self.has_data {
                        ExecStep::Sending
                    } else {
                        ExecStep::Waiting
                    },
                    ExecStep::Sending => ExecStep::Ending,
                    ExecStep::Ending => ExecStep::Waiting,
                    _ => ExecStep::Finished,
                };
            },
        }
        match self.step {
            ExecStep::Opening => ExecAction::OpenSession,
            ExecStep::Starting => ExecAction::Exec,
            ExecStep::Sending => ExecAction::SendData,
            ExecStep::Ending => ExecAction::SendEof,
            ExecStep::Waiting => ExecAction::Wait,
            ExecStep::Closing => ExecAction::Close,
            _ => {
                let stdout = self.stdout.take();
                let stderr = self.stderr.take();
                match self.exit_status {
                    Some(exit_status) => ExecAction::Finish(
                        ExecResult::Output(ExecOutput { stdout, stderr, exit_status }),
                    ),
                    None => ExecAction::Finish(ExecResult::NoExitStatus),
                }
            },
        }
    }
}

/// Which errors tell that the connection is gone.
#[derive(Debug, Clone, Copy, PartialEq, Eq, Structural)]
pub enum ErrorKind {
    Disconnect,
    SendError,
    Other,
}

/// What came of one attempt at an action, or of all of them where the time was up.
pub enum Outcome {
    /// The command came to its end, at a time in seconds of the Unix clock.
    Finished(ExecOutput, i64),
    /// The attempt failed, with an error of some kind and what is said of it.
    Failed(ErrorKind, String),
    /// The time that the action may take was up.
    TimedOut,
}

/// How often an action is tried.
pub const ATTEMPTS: u32 = 3;

/// What is said of a player on which an action took too long.
pub const TIMED_OUT_MESSAGE: &'static str = "Action timed out";

/// The text of what was printed.
pub open spec fn printed_text(printed: Option<Seq<u8>>) -> Option<Seq<char>> {
    match printed {
        Some(bytes) => Some(lossy_text(bytes)),
        None => None,
    }
}

/// The connection is gone after an error of this kind.
pub open spec fn loses_connection(kind: ErrorKind) -> bool {
    kind == ErrorKind::Disconnect || kind == ErrorKind::SendError
}

/// What is known of a player after an outcome.
pub open spec fn info_after<C>(info: InfoModel<C>, outcome: Outcome) -> InfoModel<C> {
    match outcome {
        Outcome::Finished(output, timestamp) => InfoModel {
            output: with_log(
                info.output,
                LogModel {
                    stdout: printed_text(output@.stdout),
                    stderr: printed_text(output@.stderr),
                    timestamp,
                },
            ),
            status: if output@.exit_status == 0 {
                SUCCESSFUL
            } else {
                EXEC_ERR
            },
            ..info
        },
        Outcome::Failed(kind, text) => InfoModel {
            connection: if loses_connection(kind) {
                None
            } else {
                info.connection
            },
            status: ERROR,
            msg: text@,
            ..info
        },
        Outcome::TimedOut => InfoModel {
            status: TIMED_OUT,
            msg: TIMED_OUT_MESSAGE@,
            ..info
        },
    }
}

/// An action that is being run on one player.
pub struct ActionRun {
    /// How many attempts failed so far.
    pub failures: u32,
}

/// Whether an action that failed `failures` times is tried once more after an outcome.
pub open spec fn tries_again(failures: int, outcome: Outcome) -> bool {
    outcome is Failed && failures + 1 < ATTEMPTS
}

/// Reads what was printed as text.
fn text_of_output(printed: Option<Vec<u8>>) -> (text: Option<String>)
    ensures
        crate::arguments::text_of(text) == printed_text(bytes_of(printed)),
{
    match printed {
        Some(bytes) => Some(decode_lossy(&bytes)),
        None => None,
    }
}

impl ActionRun {
    /// An action before its first attempt.
    pub fn new() -> (run: Self)
        ensures
            run.failures == 0,
    {
        ActionRun { failures: 0 }
    }

    /// Keeps what came of an attempt and tells whether there is another one.
    pub fn record<C>(&mut self, info: &mut ClientInfo<C>, outcome: Outcome) -> (again: bool)
        requires
            old(self).failures < ATTEMPTS,
            old(info).wf(),
        ensures
            final(info).wf(),
            final(info)@ == info_after(old(info)@, outcome),
            outcome matches Outcome::Finished(output, _) ==> {
                &&& final(info).status == SUCCESSFUL <==> output.exit_status == 0
                &&& final(info).status == EXEC_ERR <==> output.exit_status != 0
                &&& !again
            },
            outcome matches Outcome::Failed(_, text) ==> final(info).status == ERROR
                && final(info).msg@ == text@,
            outcome is TimedOut ==> final(info).status == TIMED_OUT && !again,
            again == tries_again(old(self).failures as int, outcome),
            final(self).failures == old(self).failures + if outcome is Failed {
                1int
            } else {
                0int
            },
    {
        match outcome {
            Outcome::Finished(output, timestamp) => {
                let stdout = text_of_output(output.stdout);
                let stderr = text_of_output(output.stderr);
                push_log(&mut info.output, Log { stdout, stderr, timestamp });
                info.status = if output.exit_status == 0 {
                    SUCCESSFUL
                } else {
                    EXEC_ERR
                };
                false
            },
            Outcome::Failed(kind, text) => {
                info.msg = text;
                info.status = ERROR;
                match kind {
                    ErrorKind::Disconnect | ErrorKind::SendError => {
                        info.connection = None;
                    },
                    ErrorKind::Other => {},
                }
                self.failures += 1;
                self.failures < ATTEMPTS
            },
            Outcome::TimedOut => {
                info.msg = TIMED_OUT_MESSAGE.to_owned();
                info.status = TIMED_OUT;
                false
            },
        }
    }
}

/// The last screenshot of a player, as a picture file.
pub struct Screenshot {
    pub image: Option<Vec<u8>>,
}

impl Screenshot {
    /// No screenshot was taken yet.
    pub fn new() -> (screenshot: Self)
        ensures
            screenshot.image is None,
    {
        Screenshot { image: None }
    }

    /// Tells whether a picture has to be fetched; one that was fetched before will do where
    /// `buffer` says so.
    pub fn needs_fetch(&self, buffer: bool) -> (needed: bool)
        ensures
            needed == !(buffer && self.image is Some),
    {
        !(buffer && self.image.is_some())
    }

    /// Keeps the picture that a download brought; where it brought none, the old one stays.
    pub fn store(&mut self, downloaded: Option<(u32, Option<Vec<u8>>)>)
        ensures
            bytes_of(final(self).image) == match downloaded {
                Some((_, Some(png))) => Some(png@),
                _ => bytes_of(old(self).image),
            },
    {
        match downloaded {
            Some((_, Some(png))) => {
                self.image = Some(png);
            },
            _ => {},
        }
    }
}

/// What the `Data` events among `events` carry, put together; `None` where there are none.
pub open spec fn collected<C, E>(events: Seq<ExecEvent<C, E>>) -> Option<Seq<u8>>
    decreases events.len(),
{
    if events.len() == 0 {
        None
    } else {
        match events.last() {
            ExecEvent::Data(data) => with_bytes(collected(events.drop_last()), data@),
            _ => collected(events.drop_last()),
        }
    }
}

/// What the `ExtendedData` events among `events` carry, put together.
pub open spec fn collected_errors<C, E>(events: Seq<ExecEvent<C, E>>) -> Option<Seq<u8>>
    decreases events.len(),
{
    if events.len() == 0 {
        None
    } else {
        match events.last() {
            ExecEvent::ExtendedData(data) => with_bytes(
                collected_errors(events.drop_last()),
                data@,
            ),
            _ => collected_errors(events.drop_last()),
        }
    }
}

/// A command after some events, one after the other.
pub open spec fn job_after_all<C, E>(job: JobModel, events: Seq<ExecEvent<C, E>>) -> JobModel
    decreases events.len(),
{
    if events.len() == 0 {
        job
    } else {
        job_after(job_after_all(job, events.drop_last()), events.last())
    }
}

/// The events up to which a player is listened to, where every step is done.
pub open spec fn opening_events<C, E>(connection: C, has_data: bool) -> Seq<ExecEvent<C, E>> {
    let sent = seq![ExecEvent::Connected(connection), ExecEvent::Done, ExecEvent::Done];
    if has_data {
        sent.push(ExecEvent::Done).push(ExecEvent::Done)
    } else {
        sent
    }
}

/// A command whose steps are all done, its input sent and ended where it has one, is listened to,
/// and nothing was printed yet.
pub proof fn law_a_started_command_is_listened_to<C, E>(connection: C, has_data: bool)
    ensures
        job_after_all(new_job(has_data), opening_events::<C, E>(connection, has_data)) == (
        JobModel { step: ExecStep::Waiting, ..new_job(has_data) }),
{
    let events = opening_events::<C, E>(connection, has_data);
    let started = seq![
        ExecEvent::<C, E>::Connected(connection),
        ExecEvent::<C, E>::Done,
        ExecEvent::<C, E>::Done,
    ];
    reveal_with_fuel(job_after_all, 6);
    assert(started.drop_last().drop_last().drop_last() =~= Seq::<ExecEvent<C, E>>::empty());
    if has_data {
        assert(events.drop_last().drop_last() =~= started);
    }
}

/// A player that is listened to is listened to until it reports an exit status or has nothing
/// more to send; what it printed until then is kept in order, each output by itself.
pub proof fn law_output_is_collected_in_order<C, E>(job: JobModel, events: Seq<ExecEvent<C, E>>)
    requires
        job.step == ExecStep::Waiting,
        job.stdout is None,
        job.stderr is None,
        forall|i: int|
            0 <= i < events.len() ==> (#[trigger] events[i] is Data || events[i] is ExtendedData
                || events[i] is Other),
    ensures
        job_after_all(job, events) == (JobModel {
            stdout: collected(events),
            stderr: collected_errors(events),
            ..job
        }),
    decreases events.len(),
{
    if events.len() > 0 {
        law_output_is_collected_in_order(job, events.drop_last());
        assert(events.last() == events[events.len() - 1]);
    }
}

/// A command that came to its end reports what was printed before its exit status, and a channel
/// that ended without one reports none, whatever was printed.
pub proof fn law_result_reports_the_output<C, E>(
    job: JobModel,
    events: Seq<ExecEvent<C, E>>,
    exit_status: u32,
    result: ExecResult<E>,
)
    requires
        job.step == ExecStep::Waiting,
        job.stdout is None,
        job.stderr is None,
        forall|i: int|
            0 <= i < events.len() ==> (#[trigger] events[i] is Data || events[i] is ExtendedData
                || events[i] is Other),
    ensures
        is_result_of(
            job_after(job_after_all(job, events), ExecEvent::<C, E>::ExitStatus(exit_status)),
            ExecEvent::<C, E>::Done,
            result,
        ) <==> (result matches ExecResult::Output(output) && output@ == (OutputModel {
            stdout: collected(events),
            stderr: collected_errors(events),
            exit_status,
        })),
        is_result_of(
            job_after(job_after_all(job, events), ExecEvent::<C, E>::End),
            ExecEvent::<C, E>::Done,
            result,
        ) <==> result is NoExitStatus,
{
    law_output_is_collected_in_order(job, events);
}

/// An action is tried three times at most: a third failure ends it, as does a first success.
pub proof fn law_three_attempts_at_most(failures: int, outcome: Outcome)
    requires
        0 <= failures < ATTEMPTS,
    ensures
        tries_again(failures, outcome) ==> failures + 1 < 3 && outcome is Failed,
        outcome is Failed && failures < 2 ==> tries_again(failures, outcome),
        outcome !is Failed ==> !tries_again(failures, outcome),
{
}

/// The newest log is the last one kept, and the others keep their order.
pub proof fn law_newest_log_is_kept(logs: Seq<LogModel>, log: LogModel)
    requires
        logs.len() <= LOG_CAPACITY,
    ensures
        with_log(logs, log).len() <= LOG_CAPACITY,
        with_log(logs, log).last() == log,
        logs.len() < LOG_CAPACITY ==> with_log(logs, log).drop_last() == logs,
        logs.len() == LOG_CAPACITY ==> with_log(logs, log).drop_last() == logs.drop_first(),
{
    if logs.len() < LOG_CAPACITY {
        assert(with_log(logs, log).drop_last() =~= logs);
    } else {
        assert(with_log(logs, log).drop_last() =~= logs.drop_first());
    }
}

/// A connection is kept for the next command, unless an error tells that it is gone.
pub proof fn law_connection_is_kept<C>(info: InfoModel<C>, outcome: Outcome)
    ensures
        match outcome {
            Outcome::Failed(kind, _) if loses_connection(kind) => info_after(
                info,
                outcome,
            ).connection is None,
            _ => info_after(info, outcome).connection == info.connection,
        },
{
}

/// A command that came to its end counts as a success exactly where its exit status is zero, and as
/// a failure for every other one. What it printed is the newest log, each output by itself, and at
/// most 1024 logs are kept; message and connection stay as they are.
pub proof fn law_the_exit_status_tells_how_it_went<C>(
    info: InfoModel<C>,
    output: ExecOutput,
    timestamp: i64,
)
    ensures
        ({
            let after = info_after(info, Outcome::Finished(output, timestamp));
            &&& after.status == '\u{e877}' <==> output.exit_status == 0
            &&& after.status == '\u{e000}' <==> output.exit_status != 0
            &&& after.output.len() > 0
            &&& after.output.last().timestamp == timestamp
            &&& output.stdout is None <==> after.output.last().stdout is None
            &&& output.stdout matches Some(bytes) ==> after.output.last().stdout == Some(
                lossy_text(bytes@),
            )
            &&& output.stderr is None <==> after.output.last().stderr is None
            &&& output.stderr matches Some(bytes) ==> after.output.last().stderr == Some(
                lossy_text(bytes@),
            )
            &&& info.output.len() < 1024 ==> after.output.drop_last() == info.output
            &&& info.output.len() == 1024 ==> after.output.drop_last() == info.output.drop_first()
            &&& after.msg == info.msg
            &&& after.connection == info.connection
        }),
{
    let after = info_after(info, Outcome::Finished(output, timestamp));
    if info.output.len() < 1024 {
        assert(after.output.drop_last() =~= info.output);
    } else if info.output.len() == 1024 {
        assert(after.output.drop_last() =~= info.output.drop_first());
    }
}

/// A failed attempt shows its error and what is said of it, and logs nothing. The connection is
/// given up exactly where the error tells that it is gone.
pub proof fn law_a_failed_attempt_shows_its_error<C>(
    info: InfoModel<C>,
    kind: ErrorKind,
    text: String,
)
    ensures
        ({
            let after = info_after(info, Outcome::Failed(kind, text));
            &&& after.status == '\u{e001}'
            &&& after.msg == text@
            &&& after.output == info.output
            &&& kind == ErrorKind::Other ==> after.connection == info.connection
            &&& kind == ErrorKind::Disconnect ==> after.connection is None
            &&& kind == ErrorKind::SendError ==> after.connection is None
        }),
{
}

/// An action that took too long says so; logs and connection stay as they are.
pub proof fn law_a_late_action_says_so<C>(info: InfoModel<C>)
    ensures
        ({
            let after = info_after(info, Outcome::TimedOut);
            &&& after.status == '\u{e51d}'
            &&& after.msg == "Action timed out"@
            &&& after.output == info.output
            &&& after.connection == info.connection
        }),
{
}

/// An action is tried again exactly after its first and its second failure.
pub proof fn law_two_failures_are_forgiven(failures: int, outcome: Outcome)
    requires
        failures >= 0,
    ensures
        tries_again(failures, outcome) <==> outcome is Failed && (failures == 0 || failures == 1),
{
}

/// What a command prints is added at the end of what the same output holds, and changes nothing
/// else; what else the player sends changes nothing.
pub proof fn law_printed_bytes_are_added_at_the_end<C, E>(job: JobModel, data: Vec<u8>)
    ensures
        ({
            let printed = job_after(job, ExecEvent::<C, E>::Data(data));
            let complained = job_after(job, ExecEvent::<C, E>::ExtendedData(data));
            &&& job.stdout is None ==> printed.stdout == Some(data@)
            &&& job.stdout matches Some(before) ==> printed.stdout == Some(before + data@)
            &&& printed == (JobModel { stdout: printed.stdout, ..job })
            &&& job.stderr is None ==> complained.stderr == Some(data@)
            &&& job.stderr matches Some(before) ==> complained.stderr == Some(before + data@)
            &&& complained == (JobModel { stderr: complained.stderr, ..job })
            &&& job_after(job, ExecEvent::<C, E>::Other) == job
        }),
{
}

/// A player is listened to until it reports an exit status, which is kept, or has nothing more to
/// send; then the channel is closed. A failed step ends the command at once.
pub proof fn law_listening_ends_with_the_status<C, E>(job: JobModel, status: u32, error: E)
    requires
        job.step == ExecStep::Waiting,
    ensures
        job_after(job, ExecEvent::<C, E>::ExitStatus(status)) == (JobModel {
            step: ExecStep::Closing,
            exit_status: Some(status),
            ..job
        }),
        job_after(job, ExecEvent::<C, E>::End) == (JobModel {
            step: ExecStep::Closing,
            exit_status: None,
            ..job
        }),
        job_after(job, ExecEvent::<C, E>::Failed(error)).step == ExecStep::Finished,
{
}

/// The steps come in this order: connect, open a channel, send the command, send and end its input
/// where there is one, listen, close; and each is told to do what it is about.
pub proof fn law_the_steps_come_in_order<C, E>(job: JobModel, connection: C, action: ExecAction<E>)
    ensures
        job.step == ExecStep::Connecting ==> job_after(
            job,
            ExecEvent::<C, E>::Connected(connection),
        ) == (JobModel { step: ExecStep::Opening, ..job }),
        job.step == ExecStep::Opening ==> job_after(job, ExecEvent::<C, E>::Done) == (JobModel {
            step: ExecStep::Starting,
            ..job
        }),
        job.step == ExecStep::Starting && job.has_data ==> job_after(
            job,
            ExecEvent::<C, E>::Done,
        ) == (JobModel { step: ExecStep::Sending, ..job }),
        job.step == ExecStep::Starting && !job.has_data ==> job_after(
            job,
            ExecEvent::<C, E>::Done,
        ) == (JobModel { step: ExecStep::Waiting, ..job }),
        job.step == ExecStep::Sending ==> job_after(job, ExecEvent::<C, E>::Done) == (JobModel {
            step: ExecStep::Ending,
            ..job
        }),
        job.step == ExecStep::Ending ==> job_after(job, ExecEvent::<C, E>::Done) == (JobModel {
            step: ExecStep::Waiting,
            ..job
        }),
        job.step == ExecStep::Closing ==> job_after(job, ExecEvent::<C, E>::Done).step
            == ExecStep::Finished,
        is_action_for(ExecStep::Opening, action) <==> action is OpenSession,
        is_action_for(ExecStep::Starting, action) <==> action is Exec,
        is_action_for(ExecStep::Sending, action) <==> action is SendData,
        is_action_for(ExecStep::Ending, action) <==> action is SendEof,
        is_action_for(ExecStep::Waiting, action) <==> action is Wait,
        is_action_for(ExecStep::Closing, action) <==> action is Close,
        !is_action_for(ExecStep::Connecting, action),
        !is_action_for(ExecStep::Finished, action),
{
}

/// Every answer to a step is taken: a connection while connecting, what the player sends while it is
/// listened to, that a step is done at any other step, and a failure at each, until the command is
/// finished.
pub proof fn law_every_answer_is_taken<C, E>(
    step: ExecStep,
    connection: C,
    data: Vec<u8>,
    status: u32,
    error: E,
)
    ensures
        can_follow(step, ExecEvent::<C, E>::Connected(connection)) <==> step
            == ExecStep::Connecting,
        can_follow(step, ExecEvent::<C, E>::Done) <==> step != ExecStep::Connecting && step
            != ExecStep::Waiting && step != ExecStep::Finished,
        can_follow(step, ExecEvent::<C, E>::Data(data)) <==> step == ExecStep::Waiting,
        can_follow(step, ExecEvent::<C, E>::ExtendedData(data)) <==> step == ExecStep::Waiting,
        can_follow(step, ExecEvent::<C, E>::ExitStatus(status)) <==> step == ExecStep::Waiting,
        can_follow(step, ExecEvent::<C, E>::Other) <==> step == ExecStep::Waiting,
        can_follow(step, ExecEvent::<C, E>::End) <==> step == ExecStep::Waiting,
        can_follow(step, ExecEvent::<C, E>::Failed(error)) <==> step != ExecStep::Finished,
{
}

/// A command whose channel is closed reports both outputs and the exit status, or that there was
/// none; one of whose steps failed reports that failure.
pub proof fn law_the_report_is_what_was_kept<C, E>(
    job: JobModel,
    error: E,
    result: ExecResult<E>,
)
    ensures
        is_result_of(job, ExecEvent::<C, E>::Failed(error), result) <==> result
            == ExecResult::<E>::Failed(error),
        job.exit_status is None ==> (is_result_of(job, ExecEvent::<C, E>::Done, result)
            <==> result is NoExitStatus),
        job.exit_status is Some ==> (is_result_of(job, ExecEvent::<C, E>::Done, result) <==> (
        result matches ExecResult::Output(output) && {
            &&& output.exit_status == job.exit_status->0
            &&& bytes_of(output.stdout) == job.stdout
            &&& bytes_of(output.stderr) == job.stderr
        })),
{
}

/// A new connection is taken where there is none; one that is there stays, whatever happens.
pub proof fn law_a_connection_stays<C, E>(
    connection: Option<C>,
    event: ExecEvent<C, E>,
)
    ensures
        connection is Some ==> connection_after(connection, event) == connection,
        connection is None ==> connection_after(connection, event) == match event {
            ExecEvent::Connected(new) => Some(new),
            _ => None::<C>,
        },
{
}

/// What is said of a log, of the output of a command and of a player is said of each of their
/// fields.
pub proof fn law_nothing_known_is_left_out<C>(
    log: Log,
    output: ExecOutput,
    info: ClientInfo<C>,
    job: ExecJob,
)
    ensures
        log.stdout is None <==> log@.stdout is None,
        log.stdout matches Some(text) ==> log@.stdout == Some(text@),
        log.stderr is None <==> log@.stderr is None,
        log.stderr matches Some(text) ==> log@.stderr == Some(text@),
        log@.timestamp == log.timestamp,
        output.stdout is None <==> output@.stdout is None,
        output.stdout matches Some(bytes) ==> output@.stdout == Some(bytes@),
        output.stderr is None <==> output@.stderr is None,
        output.stderr matches Some(bytes) ==> output@.stderr == Some(bytes@),
        output@.exit_status == output.exit_status,
        info@.connection == info.connection,
        info@.output == logs_in(info.output),
        info@.status == info.status,
        info@.msg == info.msg@,
        job@.step == job.step,
        job@.has_data == job.has_data,
        job@.exit_status == job.exit_status,
        job.stdout is None <==> job@.stdout is None,
        job.stdout matches Some(bytes) ==> job@.stdout == Some(bytes@),
        job.stderr is None <==> job@.stderr is None,
        job.stderr matches Some(bytes) ==> job@.stderr == Some(bytes@),
{
}

} // verus!
