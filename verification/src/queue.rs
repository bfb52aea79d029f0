//! The queue of local changes that still have to reach the remote board.
//!
//! Flushing the queue is a conversation with the remote board. The library
//! decides what to ask next and what an answer means; the caller carries each
//! request to the board and comes back with the answer.

use vstd::prelude::*;
use crate::planka::CallModel;
use crate::planka::ListsModel;
use crate::planka::PlankaLists;
use crate::planka::RemoteCall;
use crate::planka::RemoteReply;
use crate::planka::ReplyModel;
use crate::text::clone_opt;
use crate::find::first_where;
use crate::find::lemma_first_absent;
use crate::find::lemma_first_found;
use crate::text::opt_is;
use crate::find::position;
use crate::todo::Todo;
use crate::todo::TodoModel;

verus! {

/// What a queued change asks of the remote board.
#[derive(Clone, Copy, Debug, PartialEq, Eq, Structural)]
pub enum PendingOpKind {
    Create,
    Move,
    Update,
    Delete,
}

/// One local change that is not yet confirmed by the remote board. The
/// timestamp is also the key by which the change is removed from the queue.
#[derive(Debug)]
pub struct PendingOp {
    pub kind: PendingOpKind,
    pub project: String,
    pub card_id: Option<String>,
    pub list_id: Option<String>,
    pub name: Option<String>,
    pub due: Option<String>,
    pub ts: i64,
}

/// The model of [`PendingOp`].
pub struct PendingOpModel {
    pub kind: PendingOpKind,
    pub project: Seq<char>,
    pub card_id: Option<Seq<char>>,
    pub list_id: Option<Seq<char>>,
    pub name: Option<Seq<char>>,
    pub due: Option<Seq<char>>,
    pub ts: i64,
}

impl View for PendingOp {
    type V = PendingOpModel;

    open spec fn view(&self) -> PendingOpModel {
        PendingOpModel {
            kind: self.kind,
            project: self.project@,
            card_id: self.card_id.deep_view(),
            list_id: self.list_id.deep_view(),
            name: self.name.deep_view(),
            due: self.due.deep_view(),
            ts: self.ts,
        }
    }
}

impl DeepView for PendingOp {
    type V = PendingOpModel;

    open spec fn deep_view(&self) -> PendingOpModel {
        self@
    }
}

impl Clone for PendingOp {
    fn clone(&self) -> (r: Self)
        ensures
            r@ == self@,
    {
        PendingOp {
            kind: self.kind,
            project: self.project.clone(),
            card_id: clone_opt(&self.card_id),
            list_id: clone_opt(&self.list_id),
            name: clone_opt(&self.name),
            due: clone_opt(&self.due),
            ts: self.ts,
        }
    }
}

/// Copies a queue.
pub fn clone_ops(v: &Vec<PendingOp>) -> (r: Vec<PendingOp>)
    ensures
        r.deep_view() == v.deep_view(),
{
    let mut r: Vec<PendingOp> = Vec::new();
    let mut i: usize = 0;
    while i < v.len()
        invariant
            i <= v.len(),
            r.len() == i,
            forall|j: int| 0 <= j < i ==> r[j]@ == v[j]@,
        decreases v.len() - i,
    {
        r.push(v[i].clone());
        i = i + 1;
    }
    assert(r.deep_view() =~= v.deep_view());
    r
}

/// Where a flush stands with the change it is working on.
#[derive(Debug)]
pub enum FlushStage {
    /// No request is out.
    Idle,
    /// The first request of the change is out.
    First,
    /// The lists are known and the request to create the card is out.
    Card { lists: PlankaLists },
    /// The card is created and linked; the request that moves it to the list
    /// the task had been put in meanwhile is out.
    FollowUp,
}

/// The model of [`FlushStage`].
pub enum StageModel {
    Idle,
    First,
    Card { lists: ListsModel },
    FollowUp,
}

impl View for FlushStage {
    type V = StageModel;

    open spec fn view(&self) -> StageModel {
        match self {
            FlushStage::Idle => StageModel::Idle,
            FlushStage::First => StageModel::First,
            FlushStage::Card { lists } => StageModel::Card { lists: lists@ },
            FlushStage::FollowUp => StageModel::FollowUp,
        }
    }
}

/// One flush of the queue: the changes that were queued when it began, the
/// one it is working on, and whether any was removed so far.
#[derive(Debug)]
pub struct FlushSession {
    pub ops: Vec<PendingOp>,
    pub next: usize,
    pub stage: FlushStage,
    pub removed: bool,
}

/// The tasks, the queue and the flush that works on them.
pub struct FlushModel {
    pub todos: Seq<TodoModel>,
    pub queue: Seq<PendingOpModel>,
    pub ops: Seq<PendingOpModel>,
    pub next: int,
    pub stage: StageModel,
    pub removed: bool,
}

/// The model of a flush together with what it works on.
pub open spec fn flush_model(
    todos: Seq<TodoModel>,
    queue: Seq<PendingOpModel>,
    session: FlushSession,
) -> FlushModel {
    FlushModel {
        todos,
        queue,
        ops: session.ops.deep_view(),
        next: session.next as int,
        stage: session.stage@,
        removed: session.removed,
    }
}

/// The first request that a change needs, if it holds what the request takes:
/// a Move its card and its list, an Update and a Delete their card. A Create
/// first asks for the lists of its project.
pub open spec fn first_call(op: PendingOpModel) -> Option<CallModel> {
    match op.kind {
        PendingOpKind::Create => Some(CallModel::ResolveLists { board_name: op.project }),
        PendingOpKind::Move => match (op.card_id, op.list_id) {
            (Some(card_id), Some(list_id)) => Some(CallModel::MoveCard { card_id, list_id }),
            _ => None,
        },
        PendingOpKind::Update => match op.card_id {
            Some(card_id) => Some(CallModel::UpdateCard { card_id, name: op.name, due: op.due }),
            None => None,
        },
        PendingOpKind::Delete => match op.card_id {
            Some(card_id) => Some(CallModel::DeleteCard { card_id }),
            None => None,
        },
    }
}

/// The flush moved on to the first change at or after `from` that has a
/// request to make, or to its end.
pub open spec fn seek(f: FlushModel, from: int) -> (FlushModel, Option<CallModel>)
    decreases f.ops.len() - from,
{
    if from < 0 || from >= f.ops.len() {
        (FlushModel { next: f.ops.len() as int, stage: StageModel::Idle, ..f }, None)
    } else {
        match first_call(f.ops[from]) {
            Some(call) => (FlushModel { next: from, stage: StageModel::First, ..f }, Some(call)),
            None => seek(f, from + 1),
        }
    }
}

/// The queue without the first change that has the given timestamp.
pub open spec fn dequeued(queue: Seq<PendingOpModel>, ts: i64) -> Seq<PendingOpModel> {
    match first_where(queue, |p: PendingOpModel| p.ts == ts) {
        Some(i) => queue.remove(i),
        None => queue,
    }
}

/// Whether the queue holds a change with the given timestamp.
pub open spec fn queued(queue: Seq<PendingOpModel>, ts: i64) -> bool {
    first_where(queue, |p: PendingOpModel| p.ts == ts) is Some
}

/// Whether a task waits for the card of a queued Create: same project, same
/// name, no card yet.
pub open spec fn awaits_card(t: TodoModel, project: Seq<char>, name: Seq<char>) -> bool {
    t.project == project && t.planka_card_id is None && t.description == name
}

/// The list that a task was put in while its card did not exist yet: Doing
/// where its list says so, else Done where it is completed.
pub open spec fn wanted_list(t: TodoModel, lists: ListsModel) -> Option<Seq<char>> {
    if t.planka_list_id == Some(lists.doing_list_id) {
        Some(lists.doing_list_id)
    } else if t.done {
        Some(lists.done_list_id)
    } else {
        None
    }
}

/// A task linked to its newly created card. The card was created in the To Do
/// list; the task is recorded in the list it wants, and is no longer dirty.
pub open spec fn linked(t: TodoModel, lists: ListsModel, card_id: Seq<char>) -> TodoModel {
    TodoModel {
        planka_card_id: Some(card_id),
        planka_list_id: Some(
            match wanted_list(t, lists) {
                Some(l) => l,
                None => lists.todo_list_id,
            },
        ),
        planka_board_id: Some(lists.board_id),
        sync_dirty: false,
        ..t
    }
}

/// The tasks after a card was created for a queued Create: the first task that
/// waits for it is linked.
pub open spec fn card_created(
    todos: Seq<TodoModel>,
    project: Seq<char>,
    name: Seq<char>,
    lists: ListsModel,
    card_id: Seq<char>,
) -> Seq<TodoModel> {
    match first_where(todos, |t: TodoModel| awaits_card(t, project, name)) {
        Some(i) => todos.update(i, linked(todos[i], lists, card_id)),
        None => todos,
    }
}

/// The list to move a newly created card to, if the task that waited for it
/// wants another list than To Do.
pub open spec fn follow_up(
    todos: Seq<TodoModel>,
    project: Seq<char>,
    name: Seq<char>,
    lists: ListsModel,
) -> Option<Seq<char>> {
    match first_where(todos, |t: TodoModel| awaits_card(t, project, name)) {
        Some(i) => wanted_list(todos[i], lists),
        None => None,
    }
}

/// The tasks after a card was moved remotely: the first task with that card
/// records the list and is no longer dirty.
pub open spec fn card_moved(todos: Seq<TodoModel>, card_id: Seq<char>, list_id: Seq<char>) -> Seq<
    TodoModel,
> {
    match first_where(todos, |t: TodoModel| t.planka_card_id == Some(card_id)) {
        Some(i) => todos.update(
            i,
            TodoModel { planka_list_id: Some(list_id), sync_dirty: false, ..todos[i] },
        ),
        None => todos,
    }
}

/// The tasks after the remote board confirmed a Move, an Update or a Delete.
/// Only a Move leaves a trace: the other two were applied locally when the
/// user made them.
pub open spec fn confirmed(todos: Seq<TodoModel>, op: PendingOpModel) -> Seq<TodoModel> {
    match (op.kind, op.card_id, op.list_id) {
        (PendingOpKind::Move, Some(card_id), Some(list_id)) => card_moved(todos, card_id, list_id),
        _ => todos,
    }
}

/// The flush with the change it works on removed from the queue.
pub open spec fn struck(f: FlushModel, ts: i64) -> FlushModel {
    FlushModel {
        queue: dequeued(f.queue, ts),
        removed: f.removed || queued(f.queue, ts),
        ..f
    }
}

/// One step of a flush: what the answer to the request that is out means, and
/// which request comes next. `None` as the next request ends the flush.
///
/// A change whose request succeeds is removed from the queue, by its
/// timestamp; one whose request fails stays for the next flush. An answer
/// that is missing, or is not the kind that the request calls for, counts as
/// a failure.
pub open spec fn flush_step(f: FlushModel, reply: Option<ReplyModel>) -> (
    FlushModel,
    Option<CallModel>,
) {
    if f.next < 0 || f.next >= f.ops.len() {
        seek(f, f.ops.len() as int)
    } else {
        let op = f.ops[f.next];
        match f.stage {
            StageModel::Idle => seek(f, f.next),
            StageModel::First => match op.kind {
                PendingOpKind::Create => match (reply, op.name) {
                    (Some(ReplyModel::Lists(Ok(lists))), Some(name)) => (
                        FlushModel { stage: StageModel::Card { lists }, ..f },
                        Some(
                            CallModel::CreateCard {
                                list_id: lists.todo_list_id,
                                name,
                                due: op.due,
                            },
                        ),
                    ),
                    _ => seek(f, f.next + 1),
                },
                _ => match reply {
                    Some(ReplyModel::Done(Ok(()))) => seek(
                        struck(FlushModel { todos: confirmed(f.todos, op), ..f }, op.ts),
                        f.next + 1,
                    ),
                    _ => seek(f, f.next + 1),
                },
            },
            StageModel::Card { lists } => match (reply, op.name) {
                (Some(ReplyModel::Card(Ok(card_id))), Some(name)) => {
                    let g = struck(
                        FlushModel {
                            todos: card_created(f.todos, op.project, name, lists, card_id),
                            ..f
                        },
                        op.ts,
                    );
                    match follow_up(f.todos, op.project, name, lists) {
                        Some(list_id) => (
                            FlushModel { stage: StageModel::FollowUp, ..g },
                            Some(CallModel::MoveCard { card_id, list_id }),
                        ),
                        None => seek(g, f.next + 1),
                    }
                },
                _ => seek(f, f.next + 1),
            },
            StageModel::FollowUp => seek(f, f.next + 1),
        }
    }
}

/// The first request that a change needs.
pub fn first_request(op: &PendingOp) -> (call: Option<RemoteCall>)
    ensures
        call.deep_view() == first_call(op@),
{
    match op.kind {
        PendingOpKind::Create => Some(RemoteCall::ResolveLists { board_name: op.project.clone() }),
        PendingOpKind::Move => match (&op.card_id, &op.list_id) {
            (Some(card_id), Some(list_id)) => Some(
                RemoteCall::MoveCard { card_id: card_id.clone(), list_id: list_id.clone() },
            ),
            _ => None,
        },
        PendingOpKind::Update => match &op.card_id {
            Some(card_id) => Some(
                RemoteCall::UpdateCard {
                    card_id: card_id.clone(),
                    name: clone_opt(&op.name),
                    due: clone_opt(&op.due),
                },
            ),
            None => None,
        },
        PendingOpKind::Delete => match &op.card_id {
            Some(card_id) => Some(RemoteCall::DeleteCard { card_id: card_id.clone() }),
            None => None,
        },
    }
}

/// Moves a flush on to the first change at or after `from` that has a request
/// to make.
fn seek_from(
    session: &mut FlushSession,
    from: usize,
    Ghost(todos): Ghost<Seq<TodoModel>>,
    Ghost(queue): Ghost<Seq<PendingOpModel>>,
) -> (call: Option<RemoteCall>)
    ensures
        (flush_model(todos, queue, *final(session)), call.deep_view()) == seek(
            flush_model(todos, queue, *old(session)),
            from as int,
        ),
{
    let ghost start = flush_model(todos, queue, *session);
    let mut i: usize = from;
    while i < session.ops.len()
        invariant
            from <= i,
            seek(start, i as int) == seek(start, from as int),
            flush_model(todos, queue, *session) == start,
            flush_model(todos, queue, *old(session)) == start,
        decreases session.ops.len() - i,
    {
        assert(start.ops[i as int] == session.ops[i as int]@);
        match first_request(&session.ops[i]) {
            Some(call) => {
                session.next = i;
                session.stage = FlushStage::First;
                return Some(call);
            },
            None => {},
        }
        i = i + 1;
    }
    session.next = session.ops.len();
    session.stage = FlushStage::Idle;
    None
}

/// Removes from the queue the first change with the given timestamp, and says
/// whether there was one.
pub fn dequeue(queue: &mut Vec<PendingOp>, ts: i64) -> (found: bool)
    ensures
        final(queue).deep_view() == dequeued(old(queue).deep_view(), ts),
        found == queued(old(queue).deep_view(), ts),
{
    let ghost p = |p: PendingOpModel| p.ts == ts;
    let mut i: usize = 0;
    while i < queue.len()
        invariant
            i <= queue.len(),
            *queue == *old(queue),
            p == |p: PendingOpModel| p.ts == ts,
            forall|j: int| 0 <= j < i ==> !p(#[trigger] queue.deep_view()[j]),
        decreases queue.len() - i,
    {
        if queue[i].ts == ts {
            proof {
                assert(p(queue.deep_view()[i as int]));
                lemma_first_found(queue.deep_view(), p, i as int);
            }
            let ghost before = queue.deep_view();
            let _ = queue.remove(i);
            assert(queue.deep_view() =~= before.remove(i as int));
            return true;
        }
        i = i + 1;
    }
    proof {
        lemma_first_absent(queue.deep_view(), p);
    }
    false
}

/// The position of the first task that waits for the card of a queued Create.
fn find_waiting(todos: &Vec<Todo>, project: &String, name: &String) -> (r: Option<usize>)
    ensures
        position(r) == first_where(
            todos.deep_view(),
            |t: TodoModel| awaits_card(t, project@, name@),
        ),
{
    let ghost p = |t: TodoModel| awaits_card(t, project@, name@);
    let mut i: usize = 0;
    while i < todos.len()
        invariant
            i <= todos.len(),
            p == |t: TodoModel| awaits_card(t, project@, name@),
            forall|j: int| 0 <= j < i ==> !p(#[trigger] todos.deep_view()[j]),
        decreases todos.len() - i,
    {
        if todos[i].project == *project && todos[i].planka_card_id.is_none()
            && todos[i].description == *name {
            proof {
                assert(p(todos.deep_view()[i as int]));
                lemma_first_found(todos.deep_view(), p, i as int);
            }
            return Some(i);
        }
        i = i + 1;
    }
    proof {
        lemma_first_absent(todos.deep_view(), p);
    }
    None
}

/// Links the first task that waits for a newly created card, and gives the
/// list to move the card to if the task wants another one than To Do.
pub fn link_created(
    todos: &mut Vec<Todo>,
    project: &String,
    name: &String,
    lists: &PlankaLists,
    card_id: &String,
) -> (target: Option<String>)
    ensures
        final(todos).deep_view() == card_created(
            old(todos).deep_view(),
            project@,
            name@,
            lists@,
            card_id@,
        ),
        target.deep_view() == follow_up(old(todos).deep_view(), project@, name@, lists@),
{
    match find_waiting(todos, project, name) {
        Some(i) => {
            let ghost before = todos.deep_view();
            let target = if opt_is(&todos[i].planka_list_id, &lists.doing_list_id) {
                Some(lists.doing_list_id.clone())
            } else if todos[i].done {
                Some(lists.done_list_id.clone())
            } else {
                None
            };
            let list = match &target {
                Some(l) => l.clone(),
                None => lists.todo_list_id.clone(),
            };
            let t = &mut todos[i];
            t.planka_card_id = Some(card_id.clone());
            t.planka_list_id = Some(list);
            t.planka_board_id = Some(lists.board_id.clone());
            t.sync_dirty = false;
            assert(todos.deep_view() =~= before.update(
                i as int,
                linked(before[i as int], lists@, card_id@),
            ));
            target
        },
        None => None,
    }
}

/// Records that a card was moved remotely.
pub fn mark_moved(todos: &mut Vec<Todo>, card_id: &String, list_id: &String)
    ensures
        final(todos).deep_view() == card_moved(old(todos).deep_view(), card_id@, list_id@),
{
    let ghost p = |t: TodoModel| t.planka_card_id == Some(card_id@);
    let mut i: usize = 0;
    while i < todos.len()
        invariant
            i <= todos.len(),
            *todos == *old(todos),
            p == |t: TodoModel| t.planka_card_id == Some(card_id@),
            forall|j: int| 0 <= j < i ==> !p(#[trigger] todos.deep_view()[j]),
        decreases todos.len() - i,
    {
        if opt_is(&todos[i].planka_card_id, card_id) {
            proof {
                assert(p(todos.deep_view()[i as int]));
                lemma_first_found(todos.deep_view(), p, i as int);
            }
            let ghost before = todos.deep_view();
            let t = &mut todos[i];
            t.planka_list_id = Some(list_id.clone());
            t.sync_dirty = false;
            assert(todos.deep_view() =~= before.update(
                i as int,
                TodoModel {
                    planka_list_id: Some(list_id@),
                    sync_dirty: false,
                    ..before[i as int]
                },
            ));
            return ;
        }
        i = i + 1;
    }
    proof {
        lemma_first_absent(todos.deep_view(), p);
    }
}

/// Records that the remote board confirmed a Move, an Update or a Delete.
pub fn confirm(todos: &mut Vec<Todo>, op: &PendingOp)
    ensures
        final(todos).deep_view() == confirmed(old(todos).deep_view(), op@),
{
    match (op.kind, &op.card_id, &op.list_id) {
        (PendingOpKind::Move, Some(card_id), Some(list_id)) => mark_moved(todos, card_id, list_id),
        _ => {},
    }
}

/// A flush of the given queue that has not asked anything yet.
pub fn begin(queue: &Vec<PendingOp>) -> (session: FlushSession)
    ensures
        session.ops.deep_view() == queue.deep_view(),
        session.next == 0,
        session.stage@ == StageModel::Idle,
        !session.removed,
{
    FlushSession { ops: clone_ops(queue), next: 0, stage: FlushStage::Idle, removed: false }
}

/// Where a flush moves on to does not depend on where it stood.
proof fn lemma_seek_from_anywhere(f: FlushModel, g: FlushModel, from: int)
    requires
        g == (FlushModel { next: g.next, stage: g.stage, ..f }),
    ensures
        seek(f, from) == seek(g, from),
    decreases f.ops.len() - from,
{
    if 0 <= from < f.ops.len() && first_call(f.ops[from]) is None {
        lemma_seek_from_anywhere(f, g, from + 1);
    }
}

/// One step of a flush. Call it first with no answer, then with the answer
/// to each request it gave, until it gives none.
pub fn advance(
    todos: &mut Vec<Todo>,
    queue: &mut Vec<PendingOp>,
    session: &mut FlushSession,
    reply: Option<RemoteReply>,
) -> (call: Option<RemoteCall>)
    ensures
        (
            flush_model(final(todos).deep_view(), final(queue).deep_view(), *final(session)),
            call.deep_view(),
        ) == flush_step(
            flush_model(old(todos).deep_view(), old(queue).deep_view(), *old(session)),
            reply.deep_view(),
        ),
{
    let ghost f = flush_model(todos.deep_view(), queue.deep_view(), *session);
    if session.next >= session.ops.len() {
        let end = session.ops.len();
        return seek_from(session, end, Ghost(f.todos), Ghost(f.queue));
    }
    let k = session.next;
    assert(f.ops[k as int] == session.ops[k as int]@);
    let mut stage = FlushStage::Idle;
    std::mem::swap(&mut stage, &mut session.stage);
    let ghost idle = flush_model(f.todos, f.queue, *session);
    match stage {
        FlushStage::Idle => seek_from(session, k, Ghost(f.todos), Ghost(f.queue)),
        FlushStage::First => match session.ops[k].kind {
            PendingOpKind::Create => match (reply, &session.ops[k].name) {
                (Some(RemoteReply::Lists(Ok(lists))), Some(name)) => {
                    let call = RemoteCall::CreateCard {
                        list_id: lists.todo_list_id.clone(),
                        name: name.clone(),
                        due: clone_opt(&session.ops[k].due),
                    };
                    session.stage = FlushStage::Card { lists };
                    Some(call)
                },
                _ => {
                    proof {
                        lemma_seek_from_anywhere(f, idle, k + 1);
                    }
                    seek_from(session, k + 1, Ghost(f.todos), Ghost(f.queue))
                },
            },
            _ => match reply {
                Some(RemoteReply::Done(Ok(()))) => {
                    confirm(todos, &session.ops[k]);
                    let found = dequeue(queue, session.ops[k].ts);
                    session.removed = session.removed || found;
                    proof {
                        let op = f.ops[k as int];
                        let g = struck(FlushModel { todos: confirmed(f.todos, op), ..f }, op.ts);
                        lemma_seek_from_anywhere(
                            g,
                            flush_model(todos.deep_view(), queue.deep_view(), *session),
                            k + 1,
                        );
                    }
                    seek_from(session, k + 1, Ghost(todos.deep_view()), Ghost(queue.deep_view()))
                },
                _ => {
                    proof {
                        lemma_seek_from_anywhere(f, idle, k + 1);
                    }
                    seek_from(session, k + 1, Ghost(f.todos), Ghost(f.queue))
                },
            },
        },
        FlushStage::Card { lists } => match (reply, &session.ops[k].name) {
            (Some(RemoteReply::Card(Ok(card_id))), Some(name)) => {
                let target = link_created(todos, &session.ops[k].project, name, &lists, &card_id);
                let found = dequeue(queue, session.ops[k].ts);
                session.removed = session.removed || found;
                match target {
                    Some(list_id) => {
                        session.stage = FlushStage::FollowUp;
                        Some(RemoteCall::MoveCard { card_id, list_id })
                    },
                    None => {
                        proof {
                            let op = f.ops[k as int];
                            let g = struck(
                                FlushModel {
                                    todos: card_created(
                                        f.todos,
                                        op.project,
                                        name@,
                                        lists@,
                                        card_id@,
                                    ),
                                    ..f
                                },
                                op.ts,
                            );
                            lemma_seek_from_anywhere(
                                g,
                                flush_model(todos.deep_view(), queue.deep_view(), *session),
                                k + 1,
                            );
                        }
                        seek_from(
                            session,
                            k + 1,
                            Ghost(todos.deep_view()),
                            Ghost(queue.deep_view()),
                        )
                    },
                }
            },
            _ => {
                proof {
                    lemma_seek_from_anywhere(f, idle, k + 1);
                }
                seek_from(session, k + 1, Ghost(f.todos), Ghost(f.queue))
            },
        },
        FlushStage::FollowUp => {
            proof {
                lemma_seek_from_anywhere(f, idle, k + 1);
            }
            seek_from(session, k + 1, Ghost(f.todos), Ghost(f.queue))
        },
    }
}

} // verus!
