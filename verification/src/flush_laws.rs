//! What a whole flush of the queue comes to, whatever the remote board
//! answers: the run of the conversation as a function of the answers, and the
//! laws of that run.

use vstd::prelude::*;
use crate::planka::CallModel;
use crate::planka::ReplyModel;
use crate::queue::dequeued;
use crate::queue::first_call;
use crate::queue::flush_step;
use crate::queue::seek;
use crate::queue::FlushModel;
use crate::queue::PendingOpKind;
use crate::queue::PendingOpModel;
use crate::queue::StageModel;
use crate::find::first_where;
use crate::find::lemma_first_found;
use crate::find::lemma_first_where;
use crate::todo::TodoModel;

verus! {

/// A bound on the requests that a flush may still make.
pub open spec fn work_left(f: FlushModel) -> nat {
    if f.next < 0 || f.next >= f.ops.len() {
        0
    } else {
        (3 * (f.ops.len() - f.next) + match f.stage {
            StageModel::Idle => 3int,
            StageModel::First => 2int,
            StageModel::Card { .. } => 1int,
            StageModel::FollowUp => 0int,
        }) as nat
    }
}

/// What moving on gives: the flush stands at a change that has a request, the
/// first one from `from` on, or at its end. Nothing else of it changes.
pub proof fn lemma_seek(f: FlushModel, from: int)
    requires
        0 <= from,
    ensures
        ({
            let (g, call) = seek(f, from);
            &&& g == (FlushModel { next: g.next, stage: g.stage, ..f })
            &&& call is Some ==> from <= g.next < f.ops.len() && g.stage == StageModel::First
                && call == first_call(f.ops[g.next])
            &&& call is None ==> g.next == f.ops.len() && g.stage == StageModel::Idle
            &&& forall|j: int| from <= j < g.next ==> first_call(#[trigger] f.ops[j]) is None
        }),
    decreases f.ops.len() - from,
{
    if from < f.ops.len() && first_call(f.ops[from]) is None {
        lemma_seek(f, from + 1);
    }
}

/// Every step that asks for another request leaves less work.
pub proof fn lemma_step_decreases(f: FlushModel, reply: Option<ReplyModel>)
    ensures
        flush_step(f, reply).1 is Some ==> work_left(flush_step(f, reply).0) < work_left(f),
{
    if 0 <= f.next < f.ops.len() {
        lemma_seek(f, f.next);
        lemma_seek(f, f.next + 1);
        let op = f.ops[f.next];
        match f.stage {
            StageModel::First => match op.kind {
                PendingOpKind::Create => {},
                _ => {
                    let g = crate::queue::struck(
                        FlushModel { todos: crate::queue::confirmed(f.todos, op), ..f },
                        op.ts,
                    );
                    lemma_seek(g, f.next + 1);
                },
            },
            StageModel::Card { lists } => match (reply, op.name) {
                (Some(ReplyModel::Card(Ok(card_id))), Some(name)) => {
                    let g = crate::queue::struck(
                        FlushModel {
                            todos: crate::queue::card_created(
                                f.todos,
                                op.project,
                                name,
                                lists,
                                card_id,
                            ),
                            ..f
                        },
                        op.ts,
                    );
                    lemma_seek(g, f.next + 1);
                },
                _ => {},
            },
            _ => {},
        }
    } else {
        lemma_seek(f, f.ops.len() as int);
    }
}

/// The flush after the conversation has run to its end. `answers` gives the
/// remote board's answer to each request; it may depend on which change of
/// the flush the request is made for.
pub open spec fn run(
    f: FlushModel,
    call: Option<CallModel>,
    answers: spec_fn(int, CallModel) -> ReplyModel,
) -> FlushModel
    decreases work_left(f),
    via run_decreases
{
    match call {
        None => f,
        Some(c) => {
            let step = flush_step(f, Some(answers(f.next, c)));
            if step.1 is Some {
                run(step.0, step.1, answers)
            } else {
                step.0
            }
        },
    }
}

/// The run of a flush ends: every step that goes on leaves less work.
#[via_fn]
proof fn run_decreases(
    f: FlushModel,
    call: Option<CallModel>,
    answers: spec_fn(int, CallModel) -> ReplyModel,
) {
    match call {
        None => {},
        Some(c) => {
            lemma_step_decreases(f, Some(answers(f.next, c)));
        },
    }
}

/// A flush that has not asked anything yet.
pub open spec fn fresh(todos: Seq<TodoModel>, queue: Seq<PendingOpModel>) -> FlushModel {
    FlushModel { todos, queue, ops: queue, next: 0, stage: StageModel::Idle, removed: false }
}

/// The tasks and the queue after one whole flush.
pub open spec fn flushed(
    todos: Seq<TodoModel>,
    queue: Seq<PendingOpModel>,
    answers: spec_fn(int, CallModel) -> ReplyModel,
) -> FlushModel {
    let step = flush_step(fresh(todos, queue), None);
    run(step.0, step.1, answers)
}

/// Whether an answer is the success that the request calls for.
pub open spec fn succeeds(call: CallModel, reply: ReplyModel) -> bool {
    match call {
        CallModel::ResolveLists { .. } => reply matches ReplyModel::Lists(Ok(_)),
        CallModel::CreateCard { .. } => reply matches ReplyModel::Card(Ok(_)),
        _ => reply matches ReplyModel::Done(Ok(_)),
    }
}

/// Whether a change holds what its requests take: a Create its name, a Move
/// its card and list, an Update and a Delete their card.
pub open spec fn complete(op: PendingOpModel) -> bool {
    first_call(op) is Some && (op.kind == PendingOpKind::Create ==> op.name is Some)
}

/// Whether the remote board refuses the change at position `k` of a flush:
/// the change has no request to make, or its request fails, or, for a Create,
/// the lists are found but the request that creates the card fails.
pub open spec fn refused(
    ops: Seq<PendingOpModel>,
    k: int,
    answers: spec_fn(int, CallModel) -> ReplyModel,
) -> bool {
    let op = ops[k];
    match first_call(op) {
        None => true,
        Some(c) => match op.kind {
            PendingOpKind::Create => match (answers(k, c), op.name) {
                (ReplyModel::Lists(Ok(lists)), Some(name)) => !succeeds(
                    CallModel::CreateCard { list_id: lists.todo_list_id, name, due: op.due },
                    answers(
                        k,
                        CallModel::CreateCard { list_id: lists.todo_list_id, name, due: op.due },
                    ),
                ),
                _ => true,
            },
            _ => !succeeds(c, answers(k, c)),
        },
    }
}

/// The number of changes that a flush is done with.
pub open spec fn settled(f: FlushModel) -> int {
    if f.stage == StageModel::FollowUp {
        f.next + 1
    } else {
        f.next
    }
}

/// A flush on its way through a queue of complete changes, every request so
/// far answered by a success: the queue holds what is not yet settled.
pub open spec fn converging(f: FlushModel, call: Option<CallModel>) -> bool {
    &&& forall|i: int| 0 <= i < f.ops.len() ==> complete(#[trigger] f.ops[i])
    &&& 0 <= f.next <= f.ops.len()
    &&& f.queue == f.ops.skip(settled(f))
    &&& call is None ==> f.next == f.ops.len() && f.stage == StageModel::Idle
    &&& call is Some ==> f.next < f.ops.len() && match f.stage {
        StageModel::Idle => false,
        StageModel::First => call == first_call(f.ops[f.next]),
        StageModel::Card { .. } => f.ops[f.next].kind == PendingOpKind::Create
            && call->0 is CreateCard,
        StageModel::FollowUp => true,
    }
}

/// Removing by the timestamp of the change at the head of the queue removes
/// that change.
proof fn lemma_dequeue_head(ops: Seq<PendingOpModel>, k: int)
    requires
        0 <= k < ops.len(),
    ensures
        dequeued(ops.skip(k), ops[k].ts) == ops.skip(k + 1),
        crate::queue::queued(ops.skip(k), ops[k].ts),
{
    let ts = ops[k].ts;
    let p = |p: PendingOpModel| p.ts == ts;
    let q = ops.skip(k);
    assert(q[0] == ops[k]);
    assert(p(q[0]));
    lemma_first_found(q, p, 0);
    assert(q.remove(0) =~= ops.skip(k + 1));
}

/// A step that is answered by a success keeps a flush converging.
proof fn lemma_converging_step(
    f: FlushModel,
    c: CallModel,
    answers: spec_fn(int, CallModel) -> ReplyModel,
)
    requires
        converging(f, Some(c)),
        forall|k: int, c: CallModel| succeeds(c, #[trigger] answers(k, c)),
    ensures
        converging(
            flush_step(f, Some(answers(f.next, c))).0,
            flush_step(f, Some(answers(f.next, c))).1,
        ),
{
    let reply = answers(f.next, c);
    assert(succeeds(c, reply));
    let op = f.ops[f.next];
    assert(complete(op));
    let step = flush_step(f, Some(reply));
    match f.stage {
        StageModel::Idle => {},
        StageModel::First => match op.kind {
            PendingOpKind::Create => {
                assert(step.0.queue == f.queue);
            },
            _ => {
                let g = crate::queue::struck(
                    FlushModel { todos: crate::queue::confirmed(f.todos, op), ..f },
                    op.ts,
                );
                lemma_dequeue_head(f.ops, f.next);
                lemma_seek(g, f.next + 1);
                if f.next + 1 < f.ops.len() {
                    assert(complete(f.ops[f.next + 1]));
                }
            },
        },
        StageModel::Card { lists } => {
            let name = op.name->0;
            let card_id = reply->Card_0->Ok_0;
            let g = crate::queue::struck(
                FlushModel {
                    todos: crate::queue::card_created(f.todos, op.project, name, lists, card_id),
                    ..f
                },
                op.ts,
            );
            lemma_dequeue_head(f.ops, f.next);
            lemma_seek(g, f.next + 1);
            if f.next + 1 < f.ops.len() {
                assert(complete(f.ops[f.next + 1]));
            }
        },
        StageModel::FollowUp => {
            lemma_seek(f, f.next + 1);
            if f.next + 1 < f.ops.len() {
                assert(complete(f.ops[f.next + 1]));
            }
        },
    }
}

/// A converging flush ends with an empty queue.
proof fn lemma_converges_from(
    f: FlushModel,
    call: Option<CallModel>,
    answers: spec_fn(int, CallModel) -> ReplyModel,
)
    requires
        converging(f, call),
        forall|k: int, c: CallModel| succeeds(c, #[trigger] answers(k, c)),
    ensures
        run(f, call, answers).queue.len() == 0,
        run(f, call, answers).todos.len() == f.todos.len(),
    decreases work_left(f),
{
    match call {
        None => {},
        Some(c) => {
            let step = flush_step(f, Some(answers(f.next, c)));
            lemma_step_decreases(f, Some(answers(f.next, c)));
            lemma_converging_step(f, c, answers);
            lemma_step_keeps_count(f, Some(answers(f.next, c)));
            if step.1 is Some {
                lemma_converges_from(step.0, step.1, answers);
            }
        },
    }
}

/// No step of a flush adds or removes a task.
pub proof fn lemma_step_keeps_count(f: FlushModel, reply: Option<ReplyModel>)
    ensures
        flush_step(f, reply).0.todos.len() == f.todos.len(),
        flush_step(f, reply).0.ops == f.ops,
{
    if 0 <= f.next < f.ops.len() {
        lemma_seek(f, f.next);
        lemma_seek(f, f.next + 1);
        let op = f.ops[f.next];
        match f.stage {
            StageModel::First => match op.kind {
                PendingOpKind::Create => {},
                _ => {
                    let g = crate::queue::struck(
                        FlushModel { todos: crate::queue::confirmed(f.todos, op), ..f },
                        op.ts,
                    );
                    lemma_seek(g, f.next + 1);
                },
            },
            StageModel::Card { lists } => match (reply, op.name) {
                (Some(ReplyModel::Card(Ok(card_id))), Some(name)) => {
                    let g = crate::queue::struck(
                        FlushModel {
                            todos: crate::queue::card_created(
                                f.todos,
                                op.project,
                                name,
                                lists,
                                card_id,
                            ),
                            ..f
                        },
                        op.ts,
                    );
                    lemma_seek(g, f.next + 1);
                },
                _ => {},
            },
            _ => {},
        }
    } else {
        lemma_seek(f, f.ops.len() as int);
    }
}

/// Flush convergence: where every queued change is complete and the remote
/// board answers every request with success, one flush empties the queue. No
/// task is added or lost on the way.
pub proof fn lemma_flush_converges(
    todos: Seq<TodoModel>,
    queue: Seq<PendingOpModel>,
    answers: spec_fn(int, CallModel) -> ReplyModel,
)
    requires
        forall|i: int| 0 <= i < queue.len() ==> complete(#[trigger] queue[i]),
        forall|k: int, c: CallModel| succeeds(c, #[trigger] answers(k, c)),
    ensures
        flushed(todos, queue, answers).queue.len() == 0,
        flushed(todos, queue, answers).todos.len() == todos.len(),
{
    let start = fresh(todos, queue);
    let step = flush_step(start, None);
    lemma_seek(start, 0);
    if queue.len() > 0 {
        assert(complete(queue[0]));
    }
    assert(queue.skip(0) =~= queue);
    lemma_converges_from(step.0, step.1, answers);
}

/// Removing by another timestamp keeps a change in the queue.
proof fn lemma_dequeue_keeps(queue: Seq<PendingOpModel>, ts: i64, op: PendingOpModel)
    requires
        queue.contains(op),
        op.ts != ts,
    ensures
        dequeued(queue, ts).contains(op),
{
    let p = |p: PendingOpModel| p.ts == ts;
    let i = choose|i: int| 0 <= i < queue.len() && queue[i] == op;
    lemma_first_where(queue, p);
    match first_where(queue, p) {
        Some(j) => {
            assert(p(queue[j]));
            let rest = queue.remove(j);
            if i < j {
                assert(rest[i] == op);
            } else {
                assert(rest[i - 1] == op);
            }
        },
        None => {},
    }
}

/// A flush on its way, with the change at position `k` still in the queue:
/// the board refuses that change and no other change has its timestamp.
pub open spec fn persisting(
    f: FlushModel,
    call: Option<CallModel>,
    k: int,
    answers: spec_fn(int, CallModel) -> ReplyModel,
) -> bool {
    &&& 0 <= k < f.ops.len()
    &&& refused(f.ops, k, answers)
    &&& forall|j: int| 0 <= j < f.ops.len() && j != k ==> (#[trigger] f.ops[j]).ts != f.ops[k].ts
    &&& f.queue.contains(f.ops[k])
    &&& call is Some && f.next == k ==> match f.stage {
        StageModel::Idle => true,
        StageModel::First => call == first_call(f.ops[k]),
        StageModel::Card { lists } => {
            &&& f.ops[k].kind == PendingOpKind::Create
            &&& f.ops[k].name is Some
            &&& first_call(f.ops[k]) matches Some(c) && answers(k, c) == ReplyModel::Lists(
                Ok(lists),
            )
            &&& call == Some(
                CallModel::CreateCard {
                    list_id: lists.todo_list_id,
                    name: f.ops[k].name->0,
                    due: f.ops[k].due,
                },
            )
        },
        StageModel::FollowUp => false,
    }
}

/// A step keeps a refused change in the queue.
proof fn lemma_persisting_step(
    f: FlushModel,
    c: CallModel,
    k: int,
    answers: spec_fn(int, CallModel) -> ReplyModel,
)
    requires
        persisting(f, Some(c), k, answers),
    ensures
        persisting(
            flush_step(f, Some(answers(f.next, c))).0,
            flush_step(f, Some(answers(f.next, c))).1,
            k,
            answers,
        ),
{
    let reply = answers(f.next, c);
    let step = flush_step(f, Some(reply));
    lemma_step_keeps_count(f, Some(reply));
    if 0 <= f.next < f.ops.len() {
        let op = f.ops[f.next];
        lemma_seek(f, f.next);
        lemma_seek(f, f.next + 1);
        if f.next != k {
            assert(op.ts != f.ops[k].ts);
            lemma_dequeue_keeps(f.queue, op.ts, f.ops[k]);
        }
        match f.stage {
            StageModel::First => match op.kind {
                PendingOpKind::Create => {},
                _ => {
                    let g = crate::queue::struck(
                        FlushModel { todos: crate::queue::confirmed(f.todos, op), ..f },
                        op.ts,
                    );
                    lemma_seek(g, f.next + 1);
                },
            },
            StageModel::Card { lists } => match (reply, op.name) {
                (ReplyModel::Card(Ok(card_id)), Some(name)) => {
                    let g = crate::queue::struck(
                        FlushModel {
                            todos: crate::queue::card_created(
                                f.todos,
                                op.project,
                                name,
                                lists,
                                card_id,
                            ),
                            ..f
                        },
                        op.ts,
                    );
                    lemma_seek(g, f.next + 1);
                },
                _ => {},
            },
            _ => {},
        }
    } else {
        lemma_seek(f, f.ops.len() as int);
    }
}

/// A flush that holds a refused change ends with that change in the queue.
proof fn lemma_persists_from(
    f: FlushModel,
    call: Option<CallModel>,
    k: int,
    answers: spec_fn(int, CallModel) -> ReplyModel,
)
    requires
        persisting(f, call, k, answers),
    ensures
        run(f, call, answers).queue.contains(f.ops[k]),
    decreases work_left(f),
{
    match call {
        None => {},
        Some(c) => {
            let step = flush_step(f, Some(answers(f.next, c)));
            lemma_step_decreases(f, Some(answers(f.next, c)));
            lemma_persisting_step(f, c, k, answers);
            lemma_step_keeps_count(f, Some(answers(f.next, c)));
            if step.1 is Some {
                lemma_persists_from(step.0, step.1, k, answers);
            }
        },
    }
}

/// Retry persistence: a queued change that the remote board refuses is still
/// in the queue after the flush, unchanged, whatever becomes of the others.
/// The change is found again by its timestamp, so no other queued change may
/// have the same one.
pub proof fn lemma_retry_persistence(
    todos: Seq<TodoModel>,
    queue: Seq<PendingOpModel>,
    answers: spec_fn(int, CallModel) -> ReplyModel,
    k: int,
)
    requires
        0 <= k < queue.len(),
        refused(queue, k, answers),
        forall|j: int| 0 <= j < queue.len() && j != k ==> (#[trigger] queue[j]).ts != queue[k].ts,
    ensures
        flushed(todos, queue, answers).queue.contains(queue[k]),
{
    let start = fresh(todos, queue);
    let step = flush_step(start, None);
    lemma_seek(start, 0);
    lemma_step_keeps_count(start, None);
    assert(queue[k] == queue[k]);
    lemma_persists_from(step.0, step.1, k, answers);
}

/// A flush on its way on which nothing has changed so far, the board
/// refusing every change.
pub open spec fn idling(
    f: FlushModel,
    call: Option<CallModel>,
    answers: spec_fn(int, CallModel) -> ReplyModel,
    todos: Seq<TodoModel>,
    queue: Seq<PendingOpModel>,
) -> bool {
    &&& forall|k: int| 0 <= k < f.ops.len() ==> refused(f.ops, k, answers)
    &&& f.todos == todos
    &&& f.queue == queue
    &&& !f.removed
    &&& call is Some && 0 <= f.next < f.ops.len() ==> match f.stage {
        StageModel::Idle => true,
        StageModel::First => call == first_call(f.ops[f.next]),
        StageModel::Card { lists } => {
            &&& f.ops[f.next].kind == PendingOpKind::Create
            &&& f.ops[f.next].name is Some
            &&& first_call(f.ops[f.next]) matches Some(c) && answers(f.next, c)
                == ReplyModel::Lists(Ok(lists))
            &&& call == Some(
                CallModel::CreateCard {
                    list_id: lists.todo_list_id,
                    name: f.ops[f.next].name->0,
                    due: f.ops[f.next].due,
                },
            )
        },
        StageModel::FollowUp => false,
    }
}

/// A step of a flush that the board refuses changes nothing.
proof fn lemma_idling_step(
    f: FlushModel,
    c: CallModel,
    answers: spec_fn(int, CallModel) -> ReplyModel,
    todos: Seq<TodoModel>,
    queue: Seq<PendingOpModel>,
)
    requires
        idling(f, Some(c), answers, todos, queue),
    ensures
        idling(
            flush_step(f, Some(answers(f.next, c))).0,
            flush_step(f, Some(answers(f.next, c))).1,
            answers,
            todos,
            queue,
        ),
{
    let reply = answers(f.next, c);
    lemma_step_keeps_count(f, Some(reply));
    if 0 <= f.next < f.ops.len() {
        assert(refused(f.ops, f.next, answers));
        lemma_seek(f, f.next);
        lemma_seek(f, f.next + 1);
    } else {
        lemma_seek(f, f.ops.len() as int);
    }
}

/// A flush that the board refuses throughout ends as it began.
proof fn lemma_idles_from(
    f: FlushModel,
    call: Option<CallModel>,
    answers: spec_fn(int, CallModel) -> ReplyModel,
    todos: Seq<TodoModel>,
    queue: Seq<PendingOpModel>,
)
    requires
        idling(f, call, answers, todos, queue),
    ensures
        run(f, call, answers).todos == todos,
        run(f, call, answers).queue == queue,
        !run(f, call, answers).removed,
    decreases work_left(f),
{
    match call {
        None => {},
        Some(c) => {
            let step = flush_step(f, Some(answers(f.next, c)));
            lemma_step_decreases(f, Some(answers(f.next, c)));
            lemma_idling_step(f, c, answers, todos, queue);
            if step.1 is Some {
                lemma_idles_from(step.0, step.1, answers, todos, queue);
            }
        },
    }
}

/// A flush during which the remote board refuses every change leaves the
/// tasks and the queue as they were, and says that nothing was removed.
pub proof fn lemma_flush_without_success(
    todos: Seq<TodoModel>,
    queue: Seq<PendingOpModel>,
    answers: spec_fn(int, CallModel) -> ReplyModel,
)
    requires
        forall|k: int| 0 <= k < queue.len() ==> refused(queue, k, answers),
    ensures
        flushed(todos, queue, answers).todos == todos,
        flushed(todos, queue, answers).queue == queue,
        !flushed(todos, queue, answers).removed,
{
    let start = fresh(todos, queue);
    let step = flush_step(start, None);
    lemma_seek(start, 0);
    lemma_step_keeps_count(start, None);
    lemma_idles_from(step.0, step.1, answers, todos, queue);
}

} // verus!
