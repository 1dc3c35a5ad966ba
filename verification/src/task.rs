//! The writing task and its channel over time.
//!
//! The channel is modelled as what it does: it hands messages on in the order in which they were
//! sent, it refuses what is sent after its receiving end has been closed, and what was accepted
//! before is still received. A receiver that finds the channel empty is told of its end once the
//! channel is closed or has no sender left, and waits otherwise.

use vstd::prelude::*;

use crate::level::LevelFilter;
use crate::lifecycle::configured;
use crate::logger::{law_one_message_per_destination, LogMsgView, TinyLogger};
use crate::session::{
    file_output, law_close_loses_nothing, law_destinations_get_what_they_take, plain_lines,
    plain_messages, sent, shown_lines, stdout_output, syslog_output, Logged,
};
use crate::writer::{next_action, WriterActionView};

verus! {

/// A writing task with its channel.
pub struct Task {
    /// Whether there is a log file.
    pub has_file: bool,
    /// The messages that are accepted and not yet received, the oldest first.
    pub queue: Seq<LogMsgView>,
    /// Whether the receiving end is closed, which every sender sees.
    pub closed: bool,
    /// How many senders there are.
    pub senders: nat,
    /// The messages that the task has handled, the oldest first.
    pub handled: Seq<LogMsgView>,
    /// Whether the task has ended: it has returned, or it has failed.
    pub stopped: bool,
    /// Whether the task has failed. The message that it failed on and what came after it stay in
    /// the queue.
    pub failed: bool,
}

/// Something that happens to a task.
pub enum TaskEvent {
    /// A sender sends a message.
    Send(LogMsgView),
    /// A sender is cloned.
    Clone,
    /// A sender is dropped.
    Drop,
    /// The task gets the chance to receive once and to do what follows from it.
    Turn,
    /// The same, but writing, flushing or handing over what was received fails.
    Fail,
}

/// A task that has not received anything, on a new channel.
pub open spec fn new_task(has_file: bool, senders: nat) -> Task {
    Task {
        has_file,
        queue: seq![],
        closed: false,
        senders,
        handled: seq![],
        stopped: false,
        failed: false,
    }
}

impl Task {
    /// A message that is sent now is accepted.
    pub open spec fn accepts(self) -> bool {
        self.senders > 0 && !self.closed
    }

    /// What receiving gives: a message, the end of the channel, or nothing yet.
    pub open spec fn received(self) -> Option<Option<LogMsgView>> {
        if self.queue.len() > 0 {
            Some(Some(self.queue[0]))
        } else if self.closed || self.senders == 0 {
            Some(None)
        } else {
            None
        }
    }

    /// The task after it has received once and done what follows. A task that returns gives up its
    /// receiving end, which closes the channel.
    pub open spec fn turn(self) -> Task {
        match self.received() {
            Some(received) if !self.stopped => match next_action(self.has_file, received) {
                WriterActionView::Stop => Task { closed: true, stopped: true, ..self },
                WriterActionView::CloseChannel => Task {
                    queue: self.queue.drop_first(),
                    handled: self.handled.push(self.queue[0]),
                    closed: true,
                    ..self
                },
                _ => Task {
                    queue: self.queue.drop_first(),
                    handled: self.handled.push(self.queue[0]),
                    ..self
                },
            },
            _ => self,
        }
    }

    /// The next message is one that the task has to write somewhere.
    pub open spec fn can_fail(self) -> bool {
        !self.stopped && self.queue.len() > 0 && next_action(
            self.has_file,
            Some(self.queue[0]),
        ).is_work()
    }

    /// The task after it has received a message and failed to write it. It ends and gives up its
    /// receiving end, which closes the channel. Where there is nothing to write, nothing can fail.
    pub open spec fn failure(self) -> Task {
        if self.can_fail() {
            Task { closed: true, stopped: true, failed: true, ..self }
        } else {
            self
        }
    }

    /// The task after an event.
    pub open spec fn step(self, event: TaskEvent) -> Task {
        match event {
            TaskEvent::Send(message) => if self.accepts() {
                Task { queue: self.queue.push(message), ..self }
            } else {
                self
            },
            TaskEvent::Clone => if self.senders > 0 {
                Task { senders: self.senders + 1, ..self }
            } else {
                self
            },
            TaskEvent::Drop => if self.senders > 0 {
                Task { senders: (self.senders - 1) as nat, ..self }
            } else {
                self
            },
            TaskEvent::Turn => self.turn(),
            TaskEvent::Fail => self.failure(),
        }
    }

    /// The task after a list of events.
    pub open spec fn run(self, events: Seq<TaskEvent>) -> Task
        decreases events.len(),
    {
        if events.len() == 0 {
            self
        } else {
            self.step(events[0]).run(events.drop_first())
        }
    }

    /// The messages that are accepted in the course of a list of events.
    pub open spec fn accepted(self, events: Seq<TaskEvent>) -> Seq<LogMsgView>
        decreases events.len(),
    {
        if events.len() == 0 {
            seq![]
        } else {
            let rest = self.step(events[0]).accepted(events.drop_first());
            match events[0] {
                TaskEvent::Send(message) if self.accepts() => seq![message] + rest,
                _ => rest,
            }
        }
    }

    /// What holds of every task: one that has handled a request to close has closed its channel,
    /// one that has ended has closed it too, and one that has returned has left nothing behind.
    pub open spec fn valid(self) -> bool {
        &&& self.handled.contains(LogMsgView::Close) ==> self.closed
        &&& self.stopped ==> self.closed
        &&& self.failed ==> self.stopped
        &&& self.stopped && !self.failed ==> self.queue.len() == 0
    }

    /// The task is bound to return: a request to close has been accepted, or no sender is left.
    pub open spec fn ending(self) -> bool {
        self.closed || self.senders == 0 || self.queue.contains(LogMsgView::Close)
    }
}

/// No write fails in a list of events.
pub open spec fn no_failure(events: Seq<TaskEvent>) -> bool {
    forall|i: int| 0 <= i < events.len() ==> !(#[trigger] events[i] is Fail)
}

/// How many turns a list of events gives the task.
pub open spec fn turns(events: Seq<TaskEvent>) -> nat
    decreases events.len(),
{
    if events.len() == 0 {
        0
    } else {
        turns(events.drop_first()) + (if events[0] is Turn {
            1nat
        } else {
            0nat
        })
    }
}

/// How many senders a list of events drops.
pub open spec fn drops(events: Seq<TaskEvent>) -> nat
    decreases events.len(),
{
    if events.len() == 0 {
        0
    } else {
        drops(events.drop_first()) + (if events[0] is Drop {
            1nat
        } else {
            0nat
        })
    }
}

/// One event keeps a task valid and its channel closed.
proof fn lemma_step_keeps(task: Task, event: TaskEvent)
    requires
        task.valid(),
    ensures
        task.step(event).valid(),
        task.closed ==> task.step(event).closed,
        task.stopped ==> {
            &&& task.step(event).stopped
            &&& task.step(event).failed == task.failed
            &&& task.step(event).handled == task.handled
            &&& task.step(event).queue == task.queue
        },
        !(event is Fail) ==> task.step(event).failed == task.failed,
        task.ending() ==> task.step(event).ending(),
        task.step(event).has_file == task.has_file,
{
    let after = task.step(event);
    if event is Turn && !task.stopped && task.queue.len() > 0 {
        let message = task.queue[0];
        assert(task.handled.push(message).contains(LogMsgView::Close) ==> task.handled.contains(
            LogMsgView::Close,
        ) || message == LogMsgView::Close) by {
            if task.handled.push(message).contains(LogMsgView::Close) && message
                != LogMsgView::Close {
                let i = choose|i: int|
                    0 <= i < task.handled.push(message).len() && task.handled.push(message)[i]
                        == LogMsgView::Close;
                assert(task.handled[i] == LogMsgView::Close);
            }
        }
        if task.queue.contains(LogMsgView::Close) && message != LogMsgView::Close {
            let i = choose|i: int|
                0 <= i < task.queue.len() && task.queue[i] == LogMsgView::Close;
            assert(after.queue[i - 1] == LogMsgView::Close);
        }
    }
    if event is Send && task.queue.contains(LogMsgView::Close) && task.accepts() {
        let i = choose|i: int| 0 <= i < task.queue.len() && task.queue[i] == LogMsgView::Close;
        assert(after.queue[i] == LogMsgView::Close);
    }
}

/// From the first request to close that the task handles on, the channel is closed: every sender
/// sees it closed, and whatever is sent is refused and changes nothing. It stays so, whatever
/// happens. A task that has returned has left nothing in the channel, and a task that has ended
/// does nothing more.
pub proof fn law_closed_for_good(task: Task, events: Seq<TaskEvent>, message: LogMsgView)
    requires
        task.valid(),
    ensures
        task.run(events).valid(),
        task.closed ==> task.run(events).closed,
        task.run(events).closed ==> {
            &&& !task.run(events).accepts()
            &&& task.run(events).step(TaskEvent::Send(message)) == task.run(events)
        },
        task.stopped ==> {
            &&& task.run(events).stopped
            &&& task.run(events).failed == task.failed
            &&& task.run(events).handled == task.handled
            &&& task.run(events).queue == task.queue
        },
        task.closed ==> task.accepted(events).len() == 0,
    decreases events.len(),
{
    if events.len() > 0 {
        lemma_step_keeps(task, events[0]);
        law_closed_for_good(task.step(events[0]), events.drop_first(), message);
    }
}

/// Nothing that is accepted is lost and nothing is handled twice: what the task has handled,
/// followed by what is still in the channel, is what there was and then what has been accepted
/// since, in this order.
pub proof fn law_nothing_accepted_is_lost(task: Task, events: Seq<TaskEvent>)
    ensures
        task.run(events).handled + task.run(events).queue == task.handled + task.queue
            + task.accepted(events),
        task.run(events).has_file == task.has_file,
    decreases events.len(),
{
    if events.len() > 0 {
        let next = task.step(events[0]);
        law_nothing_accepted_is_lost(next, events.drop_first());
        let rest = next.accepted(events.drop_first());
        match events[0] {
            TaskEvent::Send(message) if task.accepts() => {
                assert(next.handled + next.queue + rest == task.handled + task.queue + (
                seq![message] + rest));
            },
            TaskEvent::Turn => {
                assert(next.handled + next.queue == task.handled + task.queue);
            },
            _ => {},
        }
    } else {
        assert(task.handled + task.queue + task.accepted(events) == task.handled + task.queue);
    }
}

/// A task fails only where a write fails.
proof fn lemma_no_failure(task: Task, events: Seq<TaskEvent>)
    requires
        task.valid(),
        no_failure(events),
    ensures
        task.run(events).failed == task.failed,
    decreases events.len(),
{
    if events.len() > 0 {
        let rest = events.drop_first();
        assert(forall|i: int| 0 <= i < rest.len() ==> rest[i] == events[i + 1]);
        lemma_step_keeps(task, events[0]);
        lemma_no_failure(task.step(events[0]), rest);
    }
}

/// A write that fails ends the task at once and for good. What the task handled before stays
/// written; the message on which it failed, and every message after it, is never handled. The
/// channel is closed, so nothing more is accepted.
pub proof fn law_failed_write_ends_the_task(task: Task, events: Seq<TaskEvent>)
    requires
        task.valid(),
        task.can_fail(),
    ensures
        ({
            let failed = task.step(TaskEvent::Fail);
            let after = failed.run(events);
            &&& failed.stopped && failed.failed && failed.closed
            &&& after.stopped && after.failed && after.closed
            &&& after.handled == task.handled
            &&& after.queue == task.queue
            &&& failed.accepted(events).len() == 0
        }),
{
    lemma_step_keeps(task, TaskEvent::Fail);
    law_closed_for_good(task.step(TaskEvent::Fail), events, LogMsgView::Close);
}

/// Whatever fails, what the task has handled is the beginning of what there was and of what has
/// been accepted since: nothing is left out before the message on which it fails.
pub proof fn law_handled_in_order(task: Task, events: Seq<TaskEvent>)
    ensures
        task.run(events).handled.is_prefix_of(task.handled + task.queue + task.accepted(events)),
{
    law_nothing_accepted_is_lost(task, events);
    let after = task.run(events);
    assert((after.handled + after.queue).subrange(0, after.handled.len() as int) == after.handled);
}

/// Once a request to close has been accepted, or no sender is left, the task ends as soon as it
/// has had one turn more than there are messages to handle, whatever senders are still alive. If no
/// write fails, it returns, and has then handled every message that was accepted.
pub proof fn law_task_returns(task: Task, events: Seq<TaskEvent>)
    requires
        task.valid(),
        task.ending(),
        turns(events) > task.queue.len() + task.accepted(events).len(),
    ensures
        task.run(events).stopped,
        !task.failed && no_failure(events) ==> {
            &&& !task.run(events).failed
            &&& task.run(events).handled == task.handled + task.queue + task.accepted(events)
        },
{
    lemma_task_stops(task, events);
    law_closed_for_good(task, events, LogMsgView::Close);
    law_nothing_accepted_is_lost(task, events);
    if !task.failed && no_failure(events) {
        lemma_no_failure(task, events);
        let after = task.run(events);
        assert(after.handled + after.queue == after.handled);
    }
}

/// Every turn of a task that is bound to return takes one message, or is the last.
proof fn lemma_task_stops(task: Task, events: Seq<TaskEvent>)
    requires
        task.valid(),
        task.ending(),
        task.stopped || turns(events) > task.queue.len() + task.accepted(events).len(),
    ensures
        task.run(events).stopped,
    decreases events.len(),
{
    if events.len() > 0 {
        lemma_step_keeps(task, events[0]);
        lemma_task_stops(task.step(events[0]), events.drop_first());
    }
}

/// As long as nobody asks to close, some sender is left and no write fails, the task does not
/// return and its channel stays open.
pub proof fn law_task_goes_on(task: Task, events: Seq<TaskEvent>)
    requires
        !task.stopped,
        !task.closed,
        !task.queue.contains(LogMsgView::Close),
        task.senders > drops(events),
        no_failure(events),
        forall|i: int|
            0 <= i < events.len() ==> #[trigger] events[i] != TaskEvent::Send(LogMsgView::Close),
    ensures
        !task.run(events).stopped,
        !task.run(events).closed,
    decreases events.len(),
{
    if events.len() > 0 {
        let next = task.step(events[0]);
        let rest = events.drop_first();
        assert(forall|i: int| 0 <= i < rest.len() ==> rest[i] == events[i + 1]);
        assert(forall|i: int|
            0 <= i < next.queue.len() ==> next.queue[i] != LogMsgView::Close) by {
            assert(forall|i: int|
                0 <= i < task.queue.len() ==> task.queue[i] != LogMsgView::Close);
        }
        law_task_goes_on(next, rest);
    }
}

/// A run of two lists of events is a run of the first and then of the second.
proof fn lemma_run_in_a_row(task: Task, first: Seq<TaskEvent>, second: Seq<TaskEvent>)
    ensures
        task.run(first + second) == task.run(first).run(second),
        task.accepted(first + second) == task.accepted(first) + task.run(first).accepted(second),
    decreases first.len(),
{
    if first.len() == 0 {
        assert(first + second == second);
        assert(task.accepted(first) + task.run(first).accepted(second) == task.accepted(second));
    } else {
        assert((first + second).drop_first() == first.drop_first() + second);
        lemma_run_in_a_row(task.step(first[0]), first.drop_first(), second);
        assert((first + second)[0] == first[0]);
        match first[0] {
            TaskEvent::Send(message) if task.accepts() => {
                let begin = task.step(first[0]).accepted(first.drop_first());
                let end = task.run(first).accepted(second);
                assert(seq![message] + (begin + end) == seq![message] + begin + end);
            },
            _ => {},
        }
    }
}

/// A new task that gets turns enough after a request to close has been accepted, or after the last
/// sender is gone, returns if no write fails, and has handled exactly the messages that were
/// accepted, in order.
pub proof fn law_everything_accepted_is_handled(
    has_file: bool,
    senders: nat,
    first: Seq<TaskEvent>,
    second: Seq<TaskEvent>,
)
    requires
        no_failure(first),
        no_failure(second),
        new_task(has_file, senders).run(first).ending(),
        turns(second) > new_task(has_file, senders).run(first).queue.len() + new_task(
            has_file,
            senders,
        ).run(first).accepted(second).len(),
    ensures
        new_task(has_file, senders).run(first + second).stopped,
        !new_task(has_file, senders).run(first + second).failed,
        new_task(has_file, senders).run(first + second).handled == new_task(
            has_file,
            senders,
        ).accepted(first + second),
{
    let task = new_task(has_file, senders);
    law_closed_for_good(task, first, LogMsgView::Close);
    lemma_no_failure(task, first);
    law_task_returns(task.run(first), second);
    lemma_run_in_a_row(task, first, second);
    law_nothing_accepted_is_lost(task, first);
    assert(task.handled + task.queue + task.accepted(first) == task.accepted(first));
}

/// A session whose messages have been accepted, and after them a request to close, is written in
/// full before the task returns, if no write fails: each destination has then got, in order,
/// exactly the records that its filter takes.
pub proof fn law_session_is_written(
    level: LevelFilter,
    file: Option<Seq<char>>,
    file_level: LevelFilter,
    syslog_level: LevelFilter,
    session: Seq<Logged>,
    senders: nat,
    first: Seq<TaskEvent>,
    second: Seq<TaskEvent>,
)
    requires
        ({
            let logger = configured(level, file, file_level, syslog_level);
            let task = new_task(logger.file_level != LevelFilter::Off, senders);
            &&& no_failure(first) && no_failure(second)
            &&& task.accepted(first) == sent(logger, session).push(LogMsgView::Close)
            &&& task.run(first).accepted(second).len() == 0
            &&& turns(second) > task.run(first).queue.len()
        }),
    ensures
        ({
            let logger = configured(level, file, file_level, syslog_level);
            let has_file = logger.file_level != LevelFilter::Off;
            let after = new_task(has_file, senders).run(first + second);
            &&& after.stopped && !after.failed
            &&& stdout_output(has_file, after.handled) == shown_lines(level, session)
            &&& file_output(has_file, after.handled) == (if file is Some {
                plain_lines(file_level, session)
            } else {
                seq![]
            })
            &&& syslog_output(has_file, after.handled) == plain_messages(syslog_level, session)
        }),
{
    let logger = configured(level, file, file_level, syslog_level);
    let task = new_task(logger.file_level != LevelFilter::Off, senders);
    let messages = sent(logger, session).push(LogMsgView::Close);
    let middle = task.run(first);
    law_closed_for_good(task, first, LogMsgView::Close);
    law_nothing_accepted_is_lost(task, first);
    assert(middle.handled + middle.queue == messages);
    let last = messages.len() - 1;
    assert((middle.handled + middle.queue)[last] == LogMsgView::Close);
    if last < middle.handled.len() {
        assert(middle.handled[last] == LogMsgView::Close);
    } else {
        assert(middle.queue[last - middle.handled.len()] == LogMsgView::Close);
    }
    assert(middle.ending());
    law_everything_accepted_is_handled(task.has_file, senders, first, second);
    lemma_run_in_a_row(task, first, second);
    assert(task.accepted(first + second) == messages);
    law_destinations_get_what_they_take(level, file, file_level, syslog_level, session);
}

/// Two tasks that differ by a request to close behind another accept the same messages.
proof fn lemma_same_accepted(
    task: Task,
    other: Task,
    before: Seq<LogMsgView>,
    after: Seq<LogMsgView>,
    events: Seq<TaskEvent>,
)
    requires
        task.valid(),
        !task.failed,
        no_failure(events),
        task.closed || before.contains(LogMsgView::Close),
        task.queue == before.push(LogMsgView::Close) + after,
        other == (Task { queue: before + after, ..task }),
    ensures
        task.accepted(events) == other.accepted(events),
    decreases events.len(),
{
    if task.closed {
        law_closed_for_good(task, events, LogMsgView::Close);
        assert(other.valid());
        law_closed_for_good(other, events, LogMsgView::Close);
    } else if events.len() > 0 {
        let rest = events.drop_first();
        assert(forall|i: int| 0 <= i < rest.len() ==> rest[i] == events[i + 1]);
        assert(!(events[0] is Fail));
        lemma_step_keeps(task, events[0]);
        match events[0] {
            TaskEvent::Send(message) => {
                let grown = if task.accepts() {
                    after.push(message)
                } else {
                    after
                };
                assert(task.step(events[0]).queue == before.push(LogMsgView::Close) + grown);
                assert(other.step(events[0]).queue == before + grown);
                lemma_same_accepted(
                    task.step(events[0]),
                    other.step(events[0]),
                    before,
                    grown,
                    rest,
                );
            },
            TaskEvent::Turn => {
                let head = before[0];
                let tail = before.drop_first();
                assert(task.queue[0] == head && other.queue[0] == head);
                assert(task.queue.drop_first() == tail.push(LogMsgView::Close) + after);
                assert(other.queue.drop_first() == tail + after);
                if head != LogMsgView::Close {
                    let i = choose|i: int|
                        0 <= i < before.len() && before[i] == LogMsgView::Close;
                    assert(tail[i - 1] == LogMsgView::Close);
                }
                lemma_same_accepted(
                    task.step(events[0]),
                    other.step(events[0]),
                    tail,
                    after,
                    rest,
                );
            },
            _ => {
                lemma_same_accepted(
                    task.step(events[0]),
                    other.step(events[0]),
                    before,
                    after,
                    rest,
                );
            },
        }
    }
}

/// A second request to close changes nothing: with it or without it the task returns, if no write
/// fails, the same messages are accepted, and the same is written.
pub proof fn law_second_close_changes_nothing(
    task: Task,
    before: Seq<LogMsgView>,
    after: Seq<LogMsgView>,
    events: Seq<TaskEvent>,
)
    requires
        task.valid(),
        !task.failed,
        no_failure(events),
        task.closed || before.contains(LogMsgView::Close),
        task.queue == before.push(LogMsgView::Close) + after,
        turns(events) > task.queue.len() + task.accepted(events).len(),
    ensures
        ({
            let other = Task { queue: before + after, ..task };
            let with = task.run(events);
            let without = other.run(events);
            &&& with.stopped && without.stopped && !with.failed && !without.failed
            &&& task.accepted(events) == other.accepted(events)
            &&& stdout_output(task.has_file, with.handled) == stdout_output(
                task.has_file,
                without.handled,
            )
            &&& file_output(task.has_file, with.handled) == file_output(
                task.has_file,
                without.handled,
            )
            &&& syslog_output(task.has_file, with.handled) == syslog_output(
                task.has_file,
                without.handled,
            )
        }),
{
    let other = Task { queue: before + after, ..task };
    if before.contains(LogMsgView::Close) {
        let i = choose|i: int| 0 <= i < before.len() && before[i] == LogMsgView::Close;
        assert(task.queue[i] == LogMsgView::Close);
        assert(other.queue[i] == LogMsgView::Close);
    }
    assert(task.queue.len() > 0);
    lemma_same_accepted(task, other, before, after, events);
    law_task_returns(task, events);
    law_task_returns(other, events);
    let accepted = task.accepted(events);
    let old = task.handled + before;
    let new = after + accepted;
    assert(task.run(events).handled == old.push(LogMsgView::Close) + new);
    assert(other.run(events).handled == old + new);
    law_close_loses_nothing(task.has_file, old, new);
}

/// A task keeps its channel open, and does not return, as long as all that is sent to it are
/// messages that records become, with whatever loggers, times and shown lines, while some sender
/// is left and no write fails. Only the end of a logger closes the channel.
pub proof fn law_records_keep_the_channel_open(task: Task, events: Seq<TaskEvent>)
    requires
        !task.stopped,
        !task.closed,
        !task.queue.contains(LogMsgView::Close),
        task.senders > drops(events),
        no_failure(events),
        forall|i: int|
            0 <= i < events.len() && (#[trigger] events[i]) is Send ==> exists|
                logger: TinyLogger,
                logged: Logged,
            | #[trigger]
                logger.messages(logged.record, logged.time, logged.shown).contains(
                    events[i]->Send_0,
                ),
    ensures
        !task.run(events).closed,
        !task.run(events).stopped,
{
    assert forall|i: int| 0 <= i < events.len() implies #[trigger] events[i] != TaskEvent::Send(
        LogMsgView::Close,
    ) by {
        if events[i] is Send {
            let (logger, logged) = choose|logger: TinyLogger, logged: Logged| #[trigger]
                logger.messages(logged.record, logged.time, logged.shown).contains(
                    events[i]->Send_0,
                );
            law_one_message_per_destination(logger, logged.record, logged.time, logged.shown);
        }
    }
    law_task_goes_on(task, events);
}

} // verus!
