//! The decisions of the consumer: what is to be done with a delivered line,
//! in which order, and when the delivery may be acknowledged.
//!
//! The consumer itself waits on the queue and talks to the store, the log
//! and the cache. What it does next is decided here: `begin` reads the line
//! and derives what the sinks need, and `advance` takes the outcome of one
//! step to the next. A line goes to the store first, then to the audit log,
//! then to the cache; it is acknowledged once all three have taken it. The
//! first step that fails ends the handling, and the delivery stays
//! unacknowledged, to be delivered again.

use crate::location::{
    audit_log_location, hierarchical_key, hierarchical_path, log_location, LogLocation,
    LogLocationView,
};
use crate::message::{message_of, parse_socket_data, BaseStationMessage, MessageView};
use vstd::prelude::*;

verus! {

/// The key of the cache slot that holds the line seen last.
pub const LAST_MESSAGE_KEY: &'static str = "lastMessage";

/// The name of the store's collection that holds the aggregate.
pub const COLLECTION: &'static str = "messages";

/// Why the handling of a message ended without an acknowledgment.
#[derive(Debug, Clone, Copy, PartialEq, Eq, Structural)]
pub enum Failure {
    /// The generated date does not fall into year, month and day, so the
    /// message has no path in the store.
    MalformedDate,
    /// The store did not take the report.
    StoreWrite,
    /// The audit log did not take the line.
    LogWrite,
    /// The cache did not take the line.
    CacheWrite,
    /// The queue did not take the acknowledgment.
    Acknowledgment,
}

/// How far the handling of a message has come: the step to take next, or how
/// it ended.
#[derive(Debug, Clone, Copy, PartialEq, Eq, Structural)]
pub enum Stage {
    /// Next, append the report to the store under the message's path.
    AppendReport,
    /// Next, append the line to the day's audit log.
    AppendLine,
    /// Next, put the line into the cache as the one seen last.
    SetLast,
    /// Next, acknowledge the delivery.
    Acknowledge,
    /// The message is stored, logged, cached and acknowledged.
    Done,
    /// The handling ended early; the delivery is not acknowledged.
    Aborted(Failure),
}

/// What the handling of one line works on.
#[derive(Debug, Clone, PartialEq, Eq)]
pub struct Handling {
    /// The line as it was delivered: what the log and the cache receive.
    pub line: String,
    /// The message read from the line: what the store receives.
    pub message: BaseStationMessage,
    /// The path in the store under which the report is appended.
    pub path: String,
    /// Where the audit log of the message's day lies.
    pub log: LogLocation,
}

/// A handling with each text as its sequence of characters.
pub struct HandlingView {
    pub line: Seq<char>,
    pub message: MessageView,
    pub path: Seq<char>,
    pub log: LogLocationView,
}

impl View for Handling {
    type V = HandlingView;

    open spec fn view(&self) -> HandlingView {
        HandlingView {
            line: self.line@,
            message: self.message@,
            path: self.path@,
            log: self.log@,
        }
    }
}

/// What the handling of `line` works on: the message it denotes, the
/// message's path in the store and the log of its day. A line whose message
/// has no path is not handled.
pub open spec fn handling_of(line: Seq<char>) -> Option<HandlingView> {
    let message = message_of(line);
    match hierarchical_path(message) {
        Some(path) => Some(
            HandlingView { line, message, path, log: log_location(message.generated_date) },
        ),
        None => None,
    }
}

/// The stage that follows `stage` once its step has succeeded or failed. A
/// step that succeeds leads to the next one; a step that fails ends the
/// handling with the failure of its sink. `Done` and `Aborted` are final.
pub open spec fn stage_after(stage: Stage, succeeded: bool) -> Stage {
    match stage {
        Stage::AppendReport => if succeeded {
            Stage::AppendLine
        } else {
            Stage::Aborted(Failure::StoreWrite)
        },
        Stage::AppendLine => if succeeded {
            Stage::SetLast
        } else {
            Stage::Aborted(Failure::LogWrite)
        },
        Stage::SetLast => if succeeded {
            Stage::Acknowledge
        } else {
            Stage::Aborted(Failure::CacheWrite)
        },
        Stage::Acknowledge => if succeeded {
            Stage::Done
        } else {
            Stage::Aborted(Failure::Acknowledgment)
        },
        Stage::Done => Stage::Done,
        Stage::Aborted(failure) => Stage::Aborted(failure),
    }
}

/// The stage reached from `stage` when the steps taken one after another
/// end as `outcomes` says, the first outcome belonging to the first step.
pub open spec fn stage_reached(stage: Stage, outcomes: Seq<bool>) -> Stage
    decreases outcomes.len(),
{
    if outcomes.len() == 0 {
        stage
    } else {
        stage_reached(stage_after(stage, outcomes[0]), outcomes.drop_first())
    }
}

/// Where the handling of a delivered line stands once the steps taken have
/// ended as `outcomes` says. A line that is not handled stands at once at
/// its end, aborted for its date, whatever the sinks would have done.
pub open spec fn delivery_outcome(line: Seq<char>, outcomes: Seq<bool>) -> Stage {
    match handling_of(line) {
        Some(_) => stage_reached(Stage::AppendReport, outcomes),
        None => Stage::Aborted(Failure::MalformedDate),
    }
}

/// Whether the delivery is, or is about to be, acknowledged at `stage`.
pub open spec fn acknowledges(stage: Stage) -> bool {
    stage is Acknowledge || stage is Done
}

/// Reads a delivered line and derives what its handling needs. Every line is
/// accepted but one whose generated date does not fall into year, month and
/// day: that one has no path in the store and is not handled. The result
/// depends on the line alone, so a line delivered again is handled as it
/// was the first time.
pub fn begin(line: &str) -> (out: Result<Handling, Failure>)
    ensures
        match out {
            Ok(handling) => handling_of(line@) == Some(handling@),
            Err(failure) => failure == Failure::MalformedDate && handling_of(line@) is None,
        },
{
    let message = parse_socket_data(line);
    match hierarchical_key(&message) {
        Some(path) => {
            let log = audit_log_location(message.generated_date.as_str());
            Ok(Handling { line: line.to_owned(), message, path, log })
        },
        None => Err(Failure::MalformedDate),
    }
}

/// Takes the outcome of the step of `stage` to the stage that follows.
pub fn advance(stage: Stage, succeeded: bool) -> (next: Stage)
    ensures
        next == stage_after(stage, succeeded),
{
    match stage {
        Stage::AppendReport => if succeeded {
            Stage::AppendLine
        } else {
            Stage::Aborted(Failure::StoreWrite)
        },
        Stage::AppendLine => if succeeded {
            Stage::SetLast
        } else {
            Stage::Aborted(Failure::LogWrite)
        },
        Stage::SetLast => if succeeded {
            Stage::Acknowledge
        } else {
            Stage::Aborted(Failure::CacheWrite)
        },
        Stage::Acknowledge => if succeeded {
            Stage::Done
        } else {
            Stage::Aborted(Failure::Acknowledgment)
        },
        Stage::Done => Stage::Done,
        Stage::Aborted(failure) => Stage::Aborted(failure),
    }
}

/// Whether the handling has ended at `stage`, so that no step is left.
pub fn is_final(stage: Stage) -> (out: bool)
    ensures
        out == (stage is Done || stage is Aborted),
{
    match stage {
        Stage::Done => true,
        Stage::Aborted(_) => true,
        _ => false,
    }
}

/// The stage reached by taking the steps from `stage` on with the given
/// outcomes, one after another.
pub fn run(stage: Stage, outcomes: &[bool]) -> (out: Stage)
    ensures
        out == stage_reached(stage, outcomes@),
{
    let mut current = stage;
    let mut i: usize = 0;
    proof {
        assert(outcomes@.skip(0) =~= outcomes@);
    }
    while i < outcomes.len()
        invariant
            i <= outcomes.len(),
            stage_reached(stage, outcomes@) == stage_reached(current, outcomes@.skip(i as int)),
        decreases outcomes.len() - i,
    {
        proof {
            let rest = outcomes@.skip(i as int);
            assert(rest[0] == outcomes@[i as int]);
            assert(rest.drop_first() =~= outcomes@.skip(i + 1));
        }
        current = advance(current, outcomes[i]);
        i += 1;
    }
    current
}

/// Where the handling of `line` stands once the steps taken have ended as
/// `outcomes` says: the whole of one delivery, from the line to its
/// acknowledgment or to the failure that kept it from being acknowledged.
pub fn handle(line: &str, outcomes: &[bool]) -> (out: Stage)
    ensures
        out == delivery_outcome(line@, outcomes@),
{
    match begin(line) {
        Ok(_) => run(Stage::AppendReport, outcomes),
        Err(failure) => Stage::Aborted(failure),
    }
}

/// An ended handling stays as it ended, whatever is reported to it.
pub proof fn lemma_final_stages_stay(stage: Stage, outcomes: Seq<bool>)
    requires
        stage is Done || stage is Aborted,
    ensures
        stage_reached(stage, outcomes) == stage,
    decreases outcomes.len(),
{
    if outcomes.len() > 0 {
        lemma_final_stages_stay(stage, outcomes.drop_first());
    }
}

/// A delivery is acknowledged only after the store, the log and the cache
/// have each taken the message: whatever the outcomes, the handling stands
/// at the acknowledgment or beyond it only if the first three steps
/// succeeded; and it is done only if the acknowledgment succeeded too.
pub proof fn lemma_acknowledged_only_after_all_sinks(outcomes: Seq<bool>)
    ensures
        acknowledges(stage_reached(Stage::AppendReport, outcomes)) ==> outcomes.len() >= 3
            && outcomes[0] && outcomes[1] && outcomes[2],
        stage_reached(Stage::AppendReport, outcomes) is Done ==> outcomes.len() >= 4
            && outcomes[3],
{
    let s0 = Stage::AppendReport;
    if outcomes.len() >= 1 {
        let o1 = outcomes.drop_first();
        let s1 = stage_after(s0, outcomes[0]);
        assert(stage_reached(s0, outcomes) == stage_reached(s1, o1));
        if !outcomes[0] {
            lemma_final_stages_stay(s1, o1);
        } else if o1.len() >= 1 {
            let o2 = o1.drop_first();
            let s2 = stage_after(s1, o1[0]);
            assert(o1[0] == outcomes[1]);
            assert(stage_reached(s1, o1) == stage_reached(s2, o2));
            if !o1[0] {
                lemma_final_stages_stay(s2, o2);
            } else if o2.len() >= 1 {
                let o3 = o2.drop_first();
                let s3 = stage_after(s2, o2[0]);
                assert(o2[0] == outcomes[2]);
                assert(stage_reached(s2, o2) == stage_reached(s3, o3));
                if !o2[0] {
                    lemma_final_stages_stay(s3, o3);
                } else if o3.len() >= 1 {
                    let o4 = o3.drop_first();
                    let s4 = stage_after(s3, o3[0]);
                    assert(o3[0] == outcomes[3]);
                    assert(stage_reached(s3, o3) == stage_reached(s4, o4));
                    lemma_final_stages_stay(s4, o4);
                }
            }
        }
    }
}

/// If the store does not take the report, the delivery is never
/// acknowledged: the handling ends with the store's failure and stays there,
/// after the failed write and after anything reported later.
pub proof fn lemma_store_failure_blocks_acknowledgment(outcomes: Seq<bool>)
    requires
        outcomes.len() >= 1,
        !outcomes[0],
    ensures
        forall|n: int|
            1 <= n <= outcomes.len() ==> #[trigger] stage_reached(
                Stage::AppendReport,
                outcomes.take(n),
            ) == Stage::Aborted(Failure::StoreWrite),
        !acknowledges(stage_reached(Stage::AppendReport, outcomes)),
{
    assert forall|n: int| 1 <= n <= outcomes.len() implies #[trigger] stage_reached(
        Stage::AppendReport,
        outcomes.take(n),
    ) == Stage::Aborted(Failure::StoreWrite) by {
        let taken = outcomes.take(n);
        assert(taken[0] == outcomes[0]);
        assert(stage_reached(Stage::AppendReport, taken) == stage_reached(
            Stage::Aborted(Failure::StoreWrite),
            taken.drop_first(),
        ));
        lemma_final_stages_stay(Stage::Aborted(Failure::StoreWrite), taken.drop_first());
    }
    assert(outcomes.take(outcomes.len() as int) =~= outcomes);
}

/// A line whose generated date does not fall into year, month and day is
/// never acknowledged, whatever the sinks would have done with it; and a
/// line that is acknowledged has such a date and was taken by the store,
/// the log and the cache.
pub proof fn lemma_acknowledged_lines_are_well_dated_and_stored(
    line: Seq<char>,
    outcomes: Seq<bool>,
)
    ensures
        hierarchical_path(message_of(line)) is None ==> delivery_outcome(line, outcomes)
            == Stage::Aborted(Failure::MalformedDate),
        acknowledges(delivery_outcome(line, outcomes)) ==> {
            &&& hierarchical_path(message_of(line)) is Some
            &&& outcomes.len() >= 3
            &&& outcomes[0]
            &&& outcomes[1]
            &&& outcomes[2]
        },
{
    lemma_acknowledged_only_after_all_sinks(outcomes);
}

/// A delivery whose four steps succeed is done: the store, the log and the
/// cache have taken the message and the queue the acknowledgment, and
/// nothing reported afterwards changes that.
pub proof fn lemma_four_successes_finish(outcomes: Seq<bool>)
    requires
        outcomes.len() >= 4,
        outcomes[0] && outcomes[1] && outcomes[2] && outcomes[3],
    ensures
        stage_reached(Stage::AppendReport, outcomes) == Stage::Done,
{
    let o1 = outcomes.drop_first();
    let o2 = o1.drop_first();
    let o3 = o2.drop_first();
    let o4 = o3.drop_first();
    assert(o1[0] == outcomes[1] && o2[0] == outcomes[2] && o3[0] == outcomes[3]);
    lemma_final_stages_stay(Stage::Done, o4);
    assert(stage_reached(Stage::Acknowledge, o3) == stage_reached(Stage::Done, o4));
    assert(stage_reached(Stage::SetLast, o2) == stage_reached(Stage::Acknowledge, o3));
    assert(stage_reached(Stage::AppendLine, o1) == stage_reached(Stage::SetLast, o2));
    assert(stage_reached(Stage::AppendReport, outcomes) == stage_reached(Stage::AppendLine, o1));
}

} // verus!
