//! The command line's own decisions: its commands and output formats, which
//! sources a command measures, and how a `--duration` argument reads.

use vstd::prelude::*;

use std::collections::BTreeMap;
use std::time::Duration;

use crate::duration::{
    duration_error_message, is_duration_result, lemma_duration_outcome_total, minutes_overflow,
    parse_duration, spec_duration,
};
use crate::errors::WattchError;
use crate::proto::Source;
use crate::sources::{first_problem, find_id, lemma_find_id, source_keys};
use crate::text::{decimal, push_decimal, push_str};

verus! {

/// The sampling interval a command uses when none is given, in ms.
pub const DEFAULT_STREAM_INTERVAL_MS: u64 = 100;

/// How `wattch sources` prints the sources.
#[derive(Clone, Copy, Debug, PartialEq, Eq, Structural)]
pub enum SourcesFormat {
    Table,
    Csv,
    Json,
}

/// How `wattch stream` prints samples.
#[derive(Clone, Copy, Debug, PartialEq, Eq, Structural)]
pub enum StreamFormat {
    Table,
    Line,
    Csv,
    Jsonl,
}

/// How `wattch run` prints its report.
#[derive(Clone, Copy, Debug, PartialEq, Eq, Structural)]
pub enum RunFormat {
    Table,
    Csv,
    Json,
}

/// A parsed `wattch` command line.
#[derive(Debug)]
pub struct Cli {
    pub command: Command,
}

/// The `wattch` subcommands and their options.
#[derive(Debug)]
pub enum Command {
    /// Checks that the daemon answers.
    Hello,
    /// Lists the daemon's energy sources.
    Sources { format: SourcesFormat },
    /// Prints samples of some sources every `interval_ms`, for `duration`
    /// or until interrupted.
    Stream {
        interval_ms: u64,
        duration: Option<Duration>,
        source: Vec<u32>,
        format: StreamFormat,
        summary: bool,
    },
    /// Runs `command` and reports the energy the sources used meanwhile.
    Run {
        interval_ms: u64,
        source: Vec<u32>,
        format: RunFormat,
        summary: bool,
        command: Vec<String>,
    },
}

/// Whether `r` is what reading the `--duration` argument `v` gives: the
/// duration it denotes, or the message of the error for `v`.
pub open spec fn is_duration_arg_result(v: Seq<char>, r: Result<Duration, String>) -> bool {
    &&& spec_duration(v) matches Some(d) ==> r == Ok::<Duration, String>(d)
    &&& duration_error_message(v) matches Some(m) ==> (r matches Err(e) && e@ == "bad request: "@
        + m)
}

/// Reads a `--duration` argument; a refusal is its message.
pub fn parse_duration_arg(value: &str) -> (r: Result<Duration, String>)
    requires
        !minutes_overflow(value@),
    ensures
        is_duration_arg_result(value@, r),
{
    match parse_duration(value) {
        Ok(d) => Ok(d),
        Err(error) => Err(error.to_string()),
    }
}

/// `parse_duration_arg(v)` is `parse_duration(v)` with the error turned
/// into its message, for every text `v`: given what the two return (their
/// contracts are `is_duration_arg_result` and `is_duration_result`), the
/// argument reader gives the same duration, or the error's text.
pub proof fn lemma_duration_arg_is_parse_duration(
    v: Seq<char>,
    parsed: Result<Duration, WattchError>,
    read: Result<Duration, String>,
)
    requires
        is_duration_result(v, parsed),
        is_duration_arg_result(v, read),
    ensures
        match parsed {
            Ok(d) => read == Ok::<Duration, String>(d),
            Err(e) => read matches Err(m) && m@ == e.spec_message(),
        },
{
    lemma_duration_outcome_total(v);
}

/// The sources with the requested ids, in the order requested, each the
/// first source with its id.
pub open spec fn spec_pick_sources(sources: Seq<Source>, ids: Seq<u32>) -> Seq<Source> {
    ids.map_values(|id: u32| sources[find_id(source_keys(sources), id)->0 as int])
}

/// The first source with id `id`.
fn find_source(sources: &[Source], id: u32) -> (r: Option<usize>)
    ensures
        r matches Some(i) ==> find_id(source_keys(sources@), id) == Some(i as nat),
        r is None ==> find_id(source_keys(sources@), id) is None,
{
    let ghost keys = source_keys(sources@);
    let mut i: usize = 0;
    while i < sources.len()
        invariant
            i <= sources@.len(),
            keys == source_keys(sources@),
            forall|j: int| 0 <= j < i ==> keys[j].0 != id,
        decreases sources@.len() - i,
    {
        proof {
            assert(keys[i as int] == (sources@[i as int].source_id, sources@[i as int].available));
        }
        if sources[i].source_id == id {
            proof {
                lemma_find_id(keys, id);
                match find_id(keys, id) {
                    Some(k) => {
                        if k < i {
                            assert(keys[k as int].0 == id);
                        }
                    },
                    None => {
                        assert(keys[i as int].0 == id);
                    },
                }
            }
            return Some(i);
        }
        i += 1;
    }
    proof {
        lemma_find_id(keys, id);
        if let Some(k) = find_id(keys, id) {
            assert(keys[k as int].0 == id);
        }
    }
    None
}

/// The sources a command measures: every available one when none is
/// requested; else each requested one, refusing an id that names no
/// source or an unavailable one (the first such id decides).
pub fn select_sources(sources: &[Source], requested_sources: &[u32]) -> (r: Result<
    Vec<Source>,
    WattchError,
>)
    ensures
        requested_sources@.len() == 0 ==> r is Ok && r->Ok_0@ == sources@.filter(
            |s: Source| s.available,
        ),
        requested_sources@.len() > 0 ==> match first_problem(
            source_keys(sources@),
            requested_sources@,
        ) {
            Some(e) => r == Err::<Vec<Source>, WattchError>(e),
            None => r is Ok && r->Ok_0@ == spec_pick_sources(sources@, requested_sources@),
        },
{
    let mut selected: Vec<Source> = Vec::new();
    if requested_sources.len() == 0 {
        let mut i: usize = 0;
        while i < sources.len()
            invariant
                i <= sources@.len(),
                selected@ == sources@.take(i as int).filter(|s: Source| s.available),
            decreases sources@.len() - i,
        {
            assert(sources@.take(i + 1).drop_last() =~= sources@.take(i as int));
            proof {
                reveal_with_fuel(Seq::filter, 1);
            }
            if sources[i].available {
                selected.push(sources[i].clone());
            }
            i += 1;
        }
        assert(sources@.take(i as int) =~= sources@);
        return Ok(selected);
    }
    let ghost keys = source_keys(sources@);
    let ghost ids = requested_sources@;
    assert(ids.skip(0) =~= ids);
    let mut i: usize = 0;
    while i < requested_sources.len()
        invariant
            i <= ids.len(),
            ids == requested_sources@,
            keys == source_keys(sources@),
            first_problem(keys, ids) == first_problem(keys, ids.skip(i as int)),
            first_problem(keys, ids.take(i as int)) is None,
            selected@ == spec_pick_sources(sources@, ids.take(i as int)),
        decreases ids.len() - i,
    {
        let id = requested_sources[i];
        let ghost rest = ids.skip(i as int);
        assert(rest[0] == id);
        assert(rest.drop_first() =~= ids.skip(i + 1));
        proof {
            lemma_find_id(keys, id);
        }
        let k = match find_source(sources, id) {
            Some(k) => k,
            None => {
                return Err(WattchError::SourceNotFound(id));
            },
        };
        proof {
            assert(keys[k as int] == (sources@[k as int].source_id, sources@[k as int].available));
        }
        if !sources[k].available {
            return Err(WattchError::SourceUnavailable(id));
        }
        selected.push(sources[k].clone());
        proof {
            lemma_first_problem_push(keys, ids.take(i as int), id);
            assert(ids.take(i + 1) =~= ids.take(i as int).push(id));
            assert(spec_pick_sources(sources@, ids.take(i + 1)) =~= spec_pick_sources(
                sources@,
                ids.take(i as int),
            ).push(sources@[k as int]));
        }
        i += 1;
    }
    assert(ids.skip(i as int) =~= Seq::<u32>::empty());
    assert(ids.take(i as int) =~= ids);
    Ok(selected)
}

proof fn lemma_first_problem_push(keys: Seq<(u32, bool)>, ids: Seq<u32>, id: u32)
    requires
        first_problem(keys, ids) is None,
        crate::sources::id_problem(keys, id) is None,
    ensures
        first_problem(keys, ids.push(id)) is None,
    decreases ids.len(),
{
    if ids.len() > 0 {
        assert(ids.push(id).drop_first() =~= ids.drop_first().push(id));
        assert(ids.push(id)[0] == ids[0]);
        lemma_first_problem_push(keys, ids.drop_first(), id);
    } else {
        assert(ids.push(id).drop_first() =~= Seq::<u32>::empty());
        assert(ids.push(id)[0] == id);
        assert(first_problem(keys, Seq::<u32>::empty()) is None);
    }
}

/// Each source's name under its id; of two sources with one id, the later
/// one's name stays.
pub open spec fn spec_name_map(sources: Seq<Source>) -> Map<u32, String>
    decreases sources.len(),
{
    if sources.len() == 0 {
        Map::empty()
    } else {
        spec_name_map(sources.drop_last()).insert(sources.last().source_id, sources.last().name)
    }
}

/// Maps each source's id to its name.
pub fn source_name_map(sources: &[Source]) -> (r: BTreeMap<u32, String>)
    ensures
        r@ == spec_name_map(sources@),
{
    let mut names: BTreeMap<u32, String> = BTreeMap::new();
    let mut i: usize = 0;
    while i < sources.len()
        invariant
            i <= sources@.len(),
            names@ == spec_name_map(sources@.take(i as int)),
        decreases sources@.len() - i,
    {
        assert(sources@.take(i + 1).drop_last() =~= sources@.take(i as int));
        names.insert(sources[i].source_id, sources[i].name.clone());
        i += 1;
    }
    assert(sources@.take(i as int) =~= sources@);
    names
}

} // verus!

verus! {

/// The text of an error the daemon answered with.
pub open spec fn daemon_error_text(code: u32, message: Seq<char>) -> Seq<char> {
    "daemon error "@ + decimal(code as nat) + ": "@ + message
}

/// Renders an error the daemon answered with: `daemon error <code>: <message>`.
pub fn daemon_error_message(code: u32, message: &str) -> (r: String)
    ensures
        r@ == daemon_error_text(code, message@),
{
    let mut text = "daemon error ".to_string();
    push_decimal(&mut text, code as u64);
    push_str(&mut text, ": ");
    push_str(&mut text, message);
    text
}

/// What happens while `wattch stream` waits for samples.
pub enum StreamEvent {
    /// The user interrupted the command.
    Interrupted,
    /// The requested duration is over.
    DurationElapsed,
    /// The next response could not be read.
    Disconnected,
    /// A sample came.
    Sample,
    /// The daemon answered with an error.
    DaemonError { code: u32, message: String },
    /// The daemon reported the stream stopped.
    Stopped,
    /// Some other response came.
    OtherResponse,
}

/// What `wattch stream` does next.
pub enum StreamAction {
    /// Print the sample and wait on.
    PrintSample,
    /// Wait on.
    Wait,
    /// Ask the daemon to stop the stream, and end.
    StopAndEnd,
    /// Report the lost connection, and end.
    ReportDisconnectAndEnd,
    /// End.
    End,
    /// Fail with this message.
    Fail(String),
}

/// Whether `action` is what `wattch stream` does on `event`: an interrupt
/// or the end of the duration stops the stream; a lost connection or a
/// stop report ends it; a daemon error fails the command with its text.
pub open spec fn is_stream_step(event: StreamEvent, action: StreamAction) -> bool {
    match event {
        StreamEvent::Interrupted | StreamEvent::DurationElapsed => action is StopAndEnd,
        StreamEvent::Disconnected => action is ReportDisconnectAndEnd,
        StreamEvent::Sample => action is PrintSample,
        StreamEvent::DaemonError { code, message } => action matches StreamAction::Fail(m) && m@
            == daemon_error_text(code, message@),
        StreamEvent::Stopped => action is End,
        StreamEvent::OtherResponse => action is Wait,
    }
}

/// Decides what `wattch stream` does on `event`.
pub fn stream_step(event: StreamEvent) -> (r: StreamAction)
    ensures
        is_stream_step(event, r),
{
    match event {
        StreamEvent::Interrupted | StreamEvent::DurationElapsed => StreamAction::StopAndEnd,
        StreamEvent::Disconnected => StreamAction::ReportDisconnectAndEnd,
        StreamEvent::Sample => StreamAction::PrintSample,
        StreamEvent::DaemonError { code, message } => StreamAction::Fail(
            daemon_error_message(code, message.as_str()),
        ),
        StreamEvent::Stopped => StreamAction::End,
        StreamEvent::OtherResponse => StreamAction::Wait,
    }
}

} // verus!

verus! {

/// The exit code `wattch run` reports when it is interrupted.
pub const INTERRUPTED_EXIT_CODE: i32 = 130;

/// The exit code `wattch run` reports for a command that ended with `code`:
/// that code, or 1 where the command left none (it was killed by a signal).
pub open spec fn spec_exit_code(code: Option<i32>) -> i32 {
    match code {
        Some(c) => c,
        None => 1,
    }
}

/// The exit code `wattch run` reports for a command that ended with `code`.
pub fn exit_code_of(code: Option<i32>) -> (r: i32)
    ensures
        r == spec_exit_code(code),
{
    match code {
        Some(c) => c,
        None => 1,
    }
}

/// What happens while `wattch run` waits for its command to end.
pub enum RunEvent {
    /// The user interrupted `wattch run`.
    Interrupted,
    /// The next response could not be read.
    Disconnected,
    /// A sample came.
    Sample,
    /// The daemon answered with an error.
    DaemonError { code: u32, message: String },
    /// Some other response came.
    OtherResponse,
    /// A look at the command found it still running.
    ChildRunning,
    /// The command ended, with this exit code if it left one.
    ChildExited(Option<i32>),
}

/// What `wattch run` does next.
pub enum RunAction {
    /// Add the sample to the summaries and wait on.
    ObserveSample,
    /// Wait on.
    Wait,
    /// Kill the command and report `exit_code`.
    KillChild { exit_code: i32 },
    /// Report the lost connection, wait for the command to end, and report
    /// its exit code.
    ReportDisconnectAndAwaitChild,
    /// Report `exit_code`.
    Finish { exit_code: i32 },
    /// Fail with this message.
    Fail(String),
}

/// Whether `action` is what `wattch run` does on `event`: an interrupt
/// kills the command and reports 130; an ended command's code is
/// reported; a daemon error fails the run with its text.
pub open spec fn is_run_step(event: RunEvent, action: RunAction) -> bool {
    match event {
        RunEvent::Interrupted => action == (RunAction::KillChild { exit_code: INTERRUPTED_EXIT_CODE }),
        RunEvent::Disconnected => action is ReportDisconnectAndAwaitChild,
        RunEvent::Sample => action is ObserveSample,
        RunEvent::DaemonError { code, message } => action matches RunAction::Fail(m) && m@
            == daemon_error_text(code, message@),
        RunEvent::OtherResponse | RunEvent::ChildRunning => action is Wait,
        RunEvent::ChildExited(code) => action == (RunAction::Finish {
            exit_code: spec_exit_code(code),
        }),
    }
}

/// Decides what `wattch run` does on `event`.
pub fn run_step(event: RunEvent) -> (r: RunAction)
    ensures
        is_run_step(event, r),
{
    match event {
        RunEvent::Interrupted => RunAction::KillChild { exit_code: INTERRUPTED_EXIT_CODE },
        RunEvent::Disconnected => RunAction::ReportDisconnectAndAwaitChild,
        RunEvent::Sample => RunAction::ObserveSample,
        RunEvent::DaemonError { code, message } => RunAction::Fail(
            daemon_error_message(code, message.as_str()),
        ),
        RunEvent::OtherResponse | RunEvent::ChildRunning => RunAction::Wait,
        RunEvent::ChildExited(code) => RunAction::Finish { exit_code: exit_code_of(code) },
    }
}

} // verus!
