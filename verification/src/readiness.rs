//! How an endpoint tells that it is ready, and how the controller waits for it.

use crate::numeral;
use crate::numeral::NumberError;
use crate::text;
use vstd::prelude::*;

verus! {

/// The word that an endpoint prints when it is ready, with the number of its process
/// behind it.
pub const READY_MARKER: &'static str = "BENCHY_READY";

/// How long the controller waits for the word, in seconds.
pub const READY_TIMEOUT_SECONDS: u64 = 20;

/// The word and the space that the number stands behind.
pub open spec fn ready_prefix() -> Seq<char> {
    READY_MARKER@ + seq![' ']
}

/// The line by which a process tells that it is ready.
pub open spec fn ready_text(pid: u32) -> Seq<char> {
    ready_prefix() + numeral::decimal(pid as int)
}

/// The line by which a process tells that it is ready.
pub fn ready_line(pid: u32) -> (line: String)
    ensures
        line@ == ready_text(pid),
{
    let mut line = READY_MARKER.to_owned();
    line.push(' ');
    line.append(numeral::decimal_text(pid as u64).as_str());
    assert(line@ =~= ready_text(pid));
    line
}

/// Why waiting for an endpoint failed.
#[derive(Clone, Copy, Debug, PartialEq, Eq, Structural)]
pub enum ReadyError {
    /// The output of the endpoint was not captured.
    NotCaptured,
    /// The output of the endpoint could not be read.
    ReadFailed,
    /// The endpoint told a number that is no process number.
    InvalidPid(NumberError),
    /// The endpoint closed its output before it was ready.
    Exited,
    /// The time was up.
    TimedOut,
}

impl ReadyError {
    /// What went wrong, in words; nothing where the failure of the read says it itself.
    pub open spec fn words(self) -> Option<Seq<char>> {
        match self {
            ReadyError::NotCaptured => Some("endpoint stdout was not captured"@),
            ReadyError::ReadFailed => None,
            ReadyError::InvalidPid(_) => Some("endpoint returned an invalid PID"@),
            ReadyError::Exited => Some("endpoint exited before becoming ready"@),
            ReadyError::TimedOut => Some("timed out waiting for endpoint readiness"@),
        }
    }

    /// What went wrong, in words; nothing where the failure of the read says it itself.
    pub fn message(&self) -> (message: Option<String>)
        ensures
            text::optional_view(message) == self.words(),
    {
        match self {
            ReadyError::NotCaptured => Some("endpoint stdout was not captured".to_owned()),
            ReadyError::ReadFailed => None,
            ReadyError::InvalidPid(_) => Some("endpoint returned an invalid PID".to_owned()),
            ReadyError::Exited => Some("endpoint exited before becoming ready".to_owned()),
            ReadyError::TimedOut => Some("timed out waiting for endpoint readiness".to_owned()),
        }
    }
}

/// What happens while the controller waits for an endpoint.
#[derive(Debug, PartialEq, Eq)]
pub enum ReadyEvent {
    /// There is no output to read.
    NotCaptured,
    /// The endpoint printed this line.
    Line(String),
    /// The endpoint closed its output.
    Closed,
    /// Reading the output failed.
    ReadFailed,
    /// The time is up.
    TimedOut,
}

/// An event, its text seen as a sequence of characters.
pub enum ReadyEventView {
    NotCaptured,
    Line(Seq<char>),
    Closed,
    ReadFailed,
    TimedOut,
}

impl View for ReadyEvent {
    type V = ReadyEventView;

    open spec fn view(&self) -> ReadyEventView {
        match *self {
            ReadyEvent::NotCaptured => ReadyEventView::NotCaptured,
            ReadyEvent::Line(line) => ReadyEventView::Line(line@),
            ReadyEvent::Closed => ReadyEventView::Closed,
            ReadyEvent::ReadFailed => ReadyEventView::ReadFailed,
            ReadyEvent::TimedOut => ReadyEventView::TimedOut,
        }
    }
}

/// Where the wait stands behind an event.
#[derive(Clone, Copy, Debug, PartialEq, Eq, Structural)]
pub enum ReadyStep {
    /// Go on waiting.
    Wait,
    /// The endpoint is ready; this is its process.
    Ready(u32),
    /// The endpoint will not be ready.
    Failed(ReadyError),
}

/// Whether the line begins with the word and the space.
pub open spec fn is_marked(line: Seq<char>) -> bool {
    line.len() >= ready_prefix().len() && line.take(ready_prefix().len() as int) == ready_prefix()
}

/// What a line tells: a marked one the number behind the mark, any other nothing.
pub open spec fn line_read(line: Seq<char>) -> ReadyStep {
    if is_marked(line) {
        match numeral::number_read(line.skip(ready_prefix().len() as int), u32::MAX as int) {
            Ok(pid) => ReadyStep::Ready(pid as u32),
            Err(error) => ReadyStep::Failed(ReadyError::InvalidPid(error)),
        }
    } else {
        ReadyStep::Wait
    }
}

/// Where the wait stands behind an event.
pub open spec fn ready_step(event: ReadyEventView) -> ReadyStep {
    match event {
        ReadyEventView::NotCaptured => ReadyStep::Failed(ReadyError::NotCaptured),
        ReadyEventView::Line(line) => line_read(line),
        ReadyEventView::Closed => ReadyStep::Failed(ReadyError::Exited),
        ReadyEventView::ReadFailed => ReadyStep::Failed(ReadyError::ReadFailed),
        ReadyEventView::TimedOut => ReadyStep::Failed(ReadyError::TimedOut),
    }
}

/// What a line tells.
pub fn read_line(line: &str) -> (step: ReadyStep)
    ensures
        step == line_read(line@),
{
    let mut prefix = READY_MARKER.to_owned();
    prefix.push(' ');
    assert(prefix@ =~= ready_prefix());
    match text::strip_prefix(line, prefix.as_str()) {
        None => ReadyStep::Wait,
        Some(rest) => {
            let result = numeral::parse_number(rest.as_str(), u32::MAX as u64);
            proof {
                if let Ok(value) = result {
                    numeral::number_read_accepts(rest@, u32::MAX as int, value as int);
                }
            }
            match result {
                Ok(pid) => ReadyStep::Ready(pid as u32),
                Err(error) => ReadyStep::Failed(ReadyError::InvalidPid(error)),
            }
        },
    }
}

/// Where the wait stands behind an event.
pub fn wait_ready(event: &ReadyEvent) -> (step: ReadyStep)
    ensures
        step == ready_step(event@),
{
    match event {
        ReadyEvent::NotCaptured => ReadyStep::Failed(ReadyError::NotCaptured),
        ReadyEvent::Line(line) => read_line(line.as_str()),
        ReadyEvent::Closed => ReadyStep::Failed(ReadyError::Exited),
        ReadyEvent::ReadFailed => ReadyStep::Failed(ReadyError::ReadFailed),
        ReadyEvent::TimedOut => ReadyStep::Failed(ReadyError::TimedOut),
    }
}

/// Where the wait stands behind a series of events: the first that ends it decides.
pub open spec fn wait_outcome(events: Seq<ReadyEventView>) -> ReadyStep
    decreases events.len(),
{
    if events.len() == 0 {
        ReadyStep::Wait
    } else if ready_step(events[0]) is Wait {
        wait_outcome(events.drop_first())
    } else {
        ready_step(events[0])
    }
}

/// A line by which a process tells that it is ready is read as the number of that
/// process.
pub proof fn ready_line_reads_back(pid: u32)
    ensures
        line_read(ready_text(pid)) == ReadyStep::Ready(pid),
{
    let line = ready_text(pid);
    let n = ready_prefix().len() as int;
    assert(line.take(n) =~= ready_prefix());
    assert(line.skip(n) =~= numeral::decimal(pid as int));
    numeral::decimal_reads_back(pid as int, u32::MAX as int);
}

/// Whatever other lines an endpoint prints before, and whatever happens after, the
/// controller learns the process of an endpoint that tells that it is ready.
pub proof fn announced_process_is_found(
    before: Seq<Seq<char>>,
    pid: u32,
    after: Seq<ReadyEventView>,
)
    requires
        forall|i: int| 0 <= i < before.len() ==> !is_marked(#[trigger] before[i]),
    ensures
        wait_outcome(
            before.map_values(|line: Seq<char>| ReadyEventView::Line(line))
                + seq![ReadyEventView::Line(ready_text(pid))] + after,
        ) == ReadyStep::Ready(pid),
    decreases before.len(),
{
    let events = before.map_values(|line: Seq<char>| ReadyEventView::Line(line))
        + seq![ReadyEventView::Line(ready_text(pid))] + after;
    if before.len() == 0 {
        assert(events[0] == ReadyEventView::Line(ready_text(pid)));
        ready_line_reads_back(pid);
    } else {
        let rest = before.drop_first();
        assert forall|i: int| 0 <= i < rest.len() implies !is_marked(#[trigger] rest[i]) by {
            assert(rest[i] == before[i + 1]);
        }
        announced_process_is_found(rest, pid, after);
        assert(!is_marked(before[0]));
        assert(events[0] == ReadyEventView::Line(before[0]));
        assert(events.drop_first() =~= rest.map_values(
            |line: Seq<char>| ReadyEventView::Line(line),
        ) + seq![ReadyEventView::Line(ready_text(pid))] + after);
    }
}

/// An endpoint that closes its output without a marked line has failed.
pub proof fn silent_endpoint_fails(lines: Seq<Seq<char>>)
    requires
        forall|i: int| 0 <= i < lines.len() ==> !is_marked(#[trigger] lines[i]),
    ensures
        wait_outcome(
            lines.map_values(|line: Seq<char>| ReadyEventView::Line(line)).push(
                ReadyEventView::Closed,
            ),
        ) == ReadyStep::Failed(ReadyError::Exited),
    decreases lines.len(),
{
    let events = lines.map_values(|line: Seq<char>| ReadyEventView::Line(line)).push(
        ReadyEventView::Closed,
    );
    if lines.len() > 0 {
        let rest = lines.drop_first();
        assert forall|i: int| 0 <= i < rest.len() implies !is_marked(#[trigger] rest[i]) by {
            assert(rest[i] == lines[i + 1]);
        }
        silent_endpoint_fails(rest);
        assert(!is_marked(lines[0]));
        assert(events.drop_first() =~= rest.map_values(
            |line: Seq<char>| ReadyEventView::Line(line),
        ).push(ReadyEventView::Closed));
    }
}

/// The line by which a process tells that it is ready is the word `BENCHY_READY`, one space,
/// and the numeral of the process.
pub proof fn ready_line_is_word_and_process(pid: u32)
    ensures
        ({
            let fields = text::split(ready_text(pid), ' ');
            &&& fields.len() == 2
            &&& fields[0] == "BENCHY_READY"@
            &&& numeral::is_numeral_of(fields[1], pid as int)
        }),
{
    reveal_strlit("BENCHY_READY");
    let number = numeral::decimal(pid as int);
    let fields = seq!["BENCHY_READY"@, number];
    numeral::lemma_numeral_lacks(pid as int, 10, ' ');
    text::split_undoes_joined(fields, ' ');
    text::joined_grows_by_a_part(seq![fields[0]], number, seq![' ']);
    text::joined_grows_by_a_part(Seq::empty(), fields[0], seq![' ']);
    assert(seq![fields[0]].push(number) =~= fields);
    assert(text::joined(fields, seq![' ']) =~= ready_text(pid));
    numeral::decimal_is_the_only_numeral(number, pid as int);
}

/// A line that begins with `BENCHY_READY` and a space tells the process whose number stands
/// behind them, or fails for the reason that what stands there is no number of a process.
/// Any other line tells nothing.
pub proof fn lines_tell_a_process_or_nothing(line: Seq<char>, rest: Seq<char>)
    ensures
        line == "BENCHY_READY "@ + rest ==> line_read(line) == (match numeral::number_read(
            rest,
            u32::MAX as int,
        ) {
            Ok(pid) => ReadyStep::Ready(pid as u32),
            Err(error) => ReadyStep::Failed(ReadyError::InvalidPid(error)),
        }),
        (forall|behind: Seq<char>| line != "BENCHY_READY "@ + behind) ==> line_read(line) is Wait,
{
    reveal_strlit("BENCHY_READY");
    reveal_strlit("BENCHY_READY ");
    assert(ready_prefix() =~= "BENCHY_READY "@);
    let n = ready_prefix().len() as int;
    if line == "BENCHY_READY "@ + rest {
        assert(line.take(n) =~= ready_prefix());
        assert(line.skip(n) =~= rest);
    }
    if is_marked(line) {
        assert(line =~= "BENCHY_READY "@ + line.skip(n));
    }
}

/// Lines that tell nothing do not end the wait, however many there are; the first event that
/// is no line does, and tells why: the output was not there, was closed, could not be read,
/// or the time was up.
pub proof fn wait_ends_for_its_reason(
    lines: Seq<Seq<char>>,
    last: ReadyEventView,
    after: Seq<ReadyEventView>,
)
    requires
        forall|i: int| 0 <= i < lines.len() ==> line_read(#[trigger] lines[i]) is Wait,
        last !is Line,
    ensures
        wait_outcome(lines.map_values(|line: Seq<char>| ReadyEventView::Line(line))) is Wait,
        wait_outcome(
            lines.map_values(|line: Seq<char>| ReadyEventView::Line(line)) + seq![last] + after,
        ) == ReadyStep::Failed(
            match last {
                ReadyEventView::NotCaptured => ReadyError::NotCaptured,
                ReadyEventView::Closed => ReadyError::Exited,
                ReadyEventView::ReadFailed => ReadyError::ReadFailed,
                _ => ReadyError::TimedOut,
            },
        ),
    decreases lines.len(),
{
    let told = lines.map_values(|line: Seq<char>| ReadyEventView::Line(line));
    let events = told + seq![last] + after;
    if lines.len() == 0 {
        assert(events[0] == last);
    } else {
        let rest = lines.drop_first();
        let rest_told = rest.map_values(|line: Seq<char>| ReadyEventView::Line(line));
        assert forall|i: int| 0 <= i < rest.len() implies line_read(#[trigger] rest[i]) is Wait by {
            assert(rest[i] == lines[i + 1]);
        }
        wait_ends_for_its_reason(rest, last, after);
        assert(line_read(lines[0]) is Wait);
        assert(events[0] == ReadyEventView::Line(lines[0]));
        assert(told[0] == ReadyEventView::Line(lines[0]));
        assert(told.drop_first() =~= rest_told);
        assert(events.drop_first() =~= rest_told + seq![last] + after);
    }
}

/// The first line that tells a process, or that fails to, ends the wait, whatever comes
/// behind it.
pub proof fn first_telling_line_ends_the_wait(
    before: Seq<Seq<char>>,
    line: Seq<char>,
    after: Seq<ReadyEventView>,
)
    requires
        forall|i: int| 0 <= i < before.len() ==> line_read(#[trigger] before[i]) is Wait,
        !(line_read(line) is Wait),
    ensures
        wait_outcome(
            before.map_values(|line: Seq<char>| ReadyEventView::Line(line))
                + seq![ReadyEventView::Line(line)] + after,
        ) == line_read(line),
    decreases before.len(),
{
    let told = before.map_values(|line: Seq<char>| ReadyEventView::Line(line));
    let events = told + seq![ReadyEventView::Line(line)] + after;
    if before.len() == 0 {
        assert(events[0] == ReadyEventView::Line(line));
    } else {
        let rest = before.drop_first();
        assert forall|i: int| 0 <= i < rest.len() implies line_read(#[trigger] rest[i]) is Wait by {
            assert(rest[i] == before[i + 1]);
        }
        first_telling_line_ends_the_wait(rest, line, after);
        assert(line_read(before[0]) is Wait);
        assert(events[0] == ReadyEventView::Line(before[0]));
        assert(events.drop_first() =~= rest.map_values(
            |line: Seq<char>| ReadyEventView::Line(line),
        ) + seq![ReadyEventView::Line(line)] + after);
    }
}

/// The controller waits for a third of a minute.
pub proof fn wait_is_limited()
    ensures
        3 * READY_TIMEOUT_SECONDS == 60,
{
}

/// A line is seen as its text, and any other event as itself.
pub proof fn events_are_seen_as_they_are(line: String)
    ensures
        ReadyEvent::Line(line)@ == ReadyEventView::Line(line@),
        ReadyEvent::NotCaptured@ is NotCaptured,
        ReadyEvent::Closed@ is Closed,
        ReadyEvent::ReadFailed@ is ReadFailed,
        ReadyEvent::TimedOut@ is TimedOut,
{
}

} // verus!
