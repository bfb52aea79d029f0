//! What the user does to the tasks: which task is selected, and adding,
//! editing, deleting and moving a task.
//!
//! A change is sent to the remote board at once where that is possible. The
//! library names the request; the caller carries it to the board and hands
//! the answer to the action. Where the board cannot be reached or refuses,
//! the task is marked dirty and the change is queued.

use vstd::prelude::*;
use crate::app::cached_lists;
use crate::app::App;
use crate::app::AppModel;
use crate::clock::local_timestamp;
use crate::due::due_date;
use crate::due::parse_due_date;
use crate::clock::Clock;
use crate::clock::local_today;
use crate::clock::today_shown;
use crate::planka::CallModel;
use crate::planka::ListsModel;
use crate::planka::RemoteCall;
use crate::planka::RemoteReply;
use crate::planka::ReplyModel;
use crate::queue::PendingOp;
use crate::queue::PendingOpKind;
use crate::queue::PendingOpModel;
use crate::text::blank;
use crate::text::chars_of;
use crate::text::clone_opt;
use crate::text::joined;
use crate::text::contains_chars;
use crate::text::contains_text;
use crate::text::is_blank;
use crate::text::lowercase;
use crate::text::lowercase_of;
use crate::text::opt_is;
use crate::text::text_outcome;
use crate::todo::status_of;
use crate::todo::Status;
use crate::todo::Todo;
use crate::todo::TodoModel;

verus! {

/// Whether a task passes the search. An empty query lets every task pass;
/// else the query, in lower case, has to stand in the task's description or
/// in its due date, both in lower case.
pub open spec fn passes_search(t: TodoModel, query: Seq<char>) -> bool {
    query.len() == 0 || contains_text(lowercase_of(t.description), lowercase_of(query)) || (
    t.due_date matches Some(d) && contains_text(lowercase_of(d), lowercase_of(query)))
}

/// Whether the task at position `i` is shown in the given column: it belongs
/// to the current project, passes the search and has that status.
pub open spec fn shown_as(a: AppModel, i: int, status: Status) -> bool {
    &&& 0 <= i < a.todos.len()
    &&& a.todos[i].project == a.current_project
    &&& passes_search(a.todos[i], a.search_query)
    &&& status_of(a.todos[i], cached_lists(a.planka_lists_by_board, a.current_project)) == status
}

/// The positions of the first `n` tasks that are shown in the given column.
pub open spec fn column_upto(a: AppModel, n: int, status: Status) -> Seq<int> {
    Seq::new(n as nat, |i: int| i).filter(|i: int| shown_as(a, i, status))
}

/// The positions of the tasks that are shown in the given column, in the
/// order of the tasks.
pub open spec fn column(a: AppModel, status: Status) -> Seq<int> {
    column_upto(a, a.todos.len() as int, status)
}

/// The positions of the tasks on the screen, in the order in which they are
/// shown: first the Doing column, then To Do, then Done.
pub open spec fn visible(a: AppModel) -> Seq<int> {
    column(a, Status::Doing) + column(a, Status::Todo) + column(a, Status::Done)
}

/// The position of the task that the cursor is on.
pub open spec fn selected_task(a: AppModel) -> Option<int> {
    if a.selected < visible(a).len() {
        Some(visible(a)[a.selected as int])
    } else {
        None
    }
}

/// Positions of executable code as positions of a sequence.
pub open spec fn positions(v: Seq<usize>) -> Seq<int> {
    v.map_values(|i: usize| i as int)
}

/// Every position on the screen is the position of a task.
pub proof fn lemma_visible_in_range(a: AppModel, k: int)
    requires
        0 <= k < visible(a).len(),
    ensures
        0 <= visible(a)[k] < a.todos.len(),
{
    let all = Seq::new(a.todos.len(), |i: int| i);
    let doing = column(a, Status::Doing);
    let waiting = column(a, Status::Todo);
    let done = column(a, Status::Done);
    if k < doing.len() {
        all.lemma_filter_pred(|i: int| shown_as(a, i, Status::Doing), k);
    } else if k < doing.len() + waiting.len() {
        all.lemma_filter_pred(|i: int| shown_as(a, i, Status::Todo), k - doing.len());
    } else {
        all.lemma_filter_pred(
            |i: int| shown_as(a, i, Status::Done),
            k - doing.len() - waiting.len(),
        );
    }
}

impl App {
    /// Whether a task passes the search.
    fn passes(&self, t: &Todo) -> (r: bool)
        ensures
            r == passes_search(t@, self@.search_query),
    {
        if self.search_query.as_str().is_empty() {
            return true;
        }
        let q = chars_of(lowercase(self.search_query.as_str()).as_str());
        let d = chars_of(lowercase(t.description.as_str()).as_str());
        if contains_chars(&d, &q) {
            return true;
        }
        match &t.due_date {
            Some(due) => {
                let x = chars_of(lowercase(due.as_str()).as_str());
                contains_chars(&x, &q)
            },
            None => false,
        }
    }

    /// The positions of the tasks on the screen, in the order in which they
    /// are shown.
    pub fn filtered_todos(&self) -> (order: Vec<usize>)
        ensures
            positions(order@) == visible(self@),
    {
        let lists = self.lists_for(&self.current_project);
        let mut doing: Vec<usize> = Vec::new();
        let mut waiting: Vec<usize> = Vec::new();
        let mut done: Vec<usize> = Vec::new();
        let ghost a = self@;
        let mut i: usize = 0;
        assert(positions(doing@) =~= column_upto(a, 0, Status::Doing));
        assert(positions(waiting@) =~= column_upto(a, 0, Status::Todo));
        assert(positions(done@) =~= column_upto(a, 0, Status::Done));
        while i < self.todos.len()
            invariant
                i <= self.todos.len(),
                a == self@,
                lists.deep_view() == cached_lists(a.planka_lists_by_board, a.current_project),
                positions(doing@) == column_upto(a, i as int, Status::Doing),
                positions(waiting@) == column_upto(a, i as int, Status::Todo),
                positions(done@) == column_upto(a, i as int, Status::Done),
            decreases self.todos.len() - i,
        {
            let t = &self.todos[i];
            assert(a.todos[i as int] == t@);
            let ghost before = Seq::new(i as nat, |k: int| k);
            proof {
                assert(Seq::new((i + 1) as nat, |k: int| k) =~= before.push(i as int));
                before.lemma_filter_push(i as int, |k: int| shown_as(a, k, Status::Doing));
                before.lemma_filter_push(i as int, |k: int| shown_as(a, k, Status::Todo));
                before.lemma_filter_push(i as int, |k: int| shown_as(a, k, Status::Done));
            }
            if t.project == self.current_project && self.passes(t) {
                let ghost d0 = doing@;
                let ghost w0 = waiting@;
                let ghost n0 = done@;
                match t.status(&lists) {
                    Status::Doing => {
                        doing.push(i);
                        assert(positions(doing@) =~= positions(d0).push(i as int));
                    },
                    Status::Todo => {
                        waiting.push(i);
                        assert(positions(waiting@) =~= positions(w0).push(i as int));
                    },
                    Status::Done => {
                        done.push(i);
                        assert(positions(done@) =~= positions(n0).push(i as int));
                    },
                }
            }
            i = i + 1;
        }
        let ghost d = doing@;
        let ghost w = waiting@;
        let ghost n = done@;
        doing.append(&mut waiting);
        doing.append(&mut done);
        assert(positions(doing@) =~= positions(d) + positions(w) + positions(n));
        doing
    }

    /// The position of the task that the cursor is on.
    pub fn selected_index_in_all(&self) -> (r: Option<usize>)
        ensures
            crate::find::position(r) == selected_task(self@),
            r matches Some(i) ==> i < self.todos.len(),
    {
        let order = self.filtered_todos();
        if self.selected < order.len() {
            proof {
                lemma_visible_in_range(self@, self.selected as int);
            }
            Some(order[self.selected])
        } else {
            None
        }
    }
}

/// The model of what an action gives back: nothing, or the message that
/// refuses it.
pub open spec fn outcome(r: Result<(), String>) -> Result<(), Seq<char>> {
    match r {
        Ok(_) => Ok(()),
        Err(e) => Err(e@),
    }
}

/// The model of a due date that was read, none where none was typed, or the
/// message that refuses what was typed.
pub open spec fn due_outcome(r: Result<Option<String>, String>) -> Result<
    Option<Seq<char>>,
    Seq<char>,
> {
    match r {
        Ok(d) => Ok(d.deep_view()),
        Err(e) => Err(e@),
    }
}

/// The due date that the user typed as it is kept, by the given clock and
/// what the time zone says: none where only white space was typed. A task
/// without a description is refused before the due date is looked at.
pub open spec fn due_typed(
    a: AppModel,
    clock: Clock,
    parts: Option<(i32, u32, u32)>,
    instant: Option<i64>,
) -> Result<Option<Seq<char>>, Seq<char>> {
    if blank(a.input_description) {
        Err(no_description())
    } else if blank(a.input_due_date) {
        Ok(None)
    } else {
        match due_date(a.input_due_date, clock, parts, instant) {
            Ok(text) => Ok(Some(text)),
            Err(e) => Err(e),
        }
    }
}

/// What the user is told when a task would have no description.
pub open spec fn no_description() -> Seq<char> {
    "Description cannot be empty."@
}

/// A queued change of the current project.
pub open spec fn queued_op(
    a: AppModel,
    kind: PendingOpKind,
    card_id: Option<Seq<char>>,
    list_id: Option<Seq<char>>,
    name: Option<Seq<char>>,
    due: Option<Seq<char>>,
    ts: i64,
) -> PendingOpModel {
    PendingOpModel { kind, project: a.current_project, card_id, list_id, name, due, ts }
}

/// The message of a failed request: what was tried, then what the remote
/// board said.
pub open spec fn failure(
    what: Seq<char>,
    reply: Option<ReplyModel>,
    otherwise: Option<Seq<char>>,
) -> Option<Seq<char>> {
    match reply {
        Some(ReplyModel::Done(Err(e))) => Some(what + e),
        Some(ReplyModel::Card(Err(e))) => Some(what + e),
        Some(ReplyModel::Lists(Err(e))) => Some(what + e),
        _ => otherwise,
    }
}

/// Whether the remote board confirmed a move, an update or a delete.
pub open spec fn confirmed_done(reply: Option<ReplyModel>) -> bool {
    reply matches Some(ReplyModel::Done(Ok(_)))
}

/// The request that resolves the lists of a board, where they are not
/// remembered yet.
pub open spec fn lists_wanted(a: AppModel, board: Seq<char>) -> Option<CallModel> {
    match cached_lists(a.planka_lists_by_board, board) {
        Some(_) => None,
        None => Some(CallModel::ResolveLists { board_name: board }),
    }
}

/// The application after the remote board answered the request for the
/// lists of a board. Lists that were found are remembered, and become the
/// lists at hand where the board is the current project. A failure is told
/// to the user where `tell` is set, and passed over in silence else.
pub open spec fn lists_answered(
    a: AppModel,
    board: Seq<char>,
    reply: ReplyModel,
    tell: bool,
) -> AppModel {
    match reply {
        ReplyModel::Lists(Ok(lists)) => AppModel {
            planka_lists_by_board: crate::app::with_lists(a.planka_lists_by_board, board, lists),
            planka_lists: if board == a.current_project {
                Some(lists)
            } else {
                a.planka_lists
            },
            ..a
        },
        ReplyModel::Lists(Err(e)) => if tell {
            AppModel { error_message: Some(e), ..a }
        } else {
            a
        },
        _ => a,
    }
}

/// The request that creates the card of the task that is being added: it
/// is made where the task has a description and the lists of the current
/// project are remembered. The card goes to the To Do list.
pub open spec fn add_wanted(a: AppModel, due: Option<Seq<char>>) -> Option<CallModel> {
    if blank(a.input_description) {
        None
    } else {
        match cached_lists(a.planka_lists_by_board, a.current_project) {
            Some(lists) => Some(
                CallModel::CreateCard {
                    list_id: lists.todo_list_id,
                    name: a.input_description,
                    due,
                },
            ),
            None => None,
        }
    }
}

/// The task that is being added, as it stands before the remote board is
/// asked.
pub open spec fn drafted(a: AppModel, due: Option<Seq<char>>, today: Seq<char>) -> TodoModel {
    TodoModel {
        description: a.input_description,
        due_date: due,
        created_date: today,
        done: false,
        project: a.current_project,
        planka_card_id: None,
        planka_list_id: None,
        planka_board_id: None,
        sync_dirty: false,
    }
}

/// The application after a task was added. Where the remote board created
/// the card, the task is linked to it. In every other case the task is dirty
/// and a Create is queued. The project of the task is among the projects,
/// the input is cleared and no message is left.
pub open spec fn added(
    a: AppModel,
    due: Option<Seq<char>>,
    today: Seq<char>,
    ts: i64,
    reply: Option<ReplyModel>,
) -> AppModel {
    let draft = drafted(a, due, today);
    let rest = AppModel {
        projects: if a.projects.contains(a.current_project) {
            a.projects
        } else {
            a.projects.push(a.current_project)
        },
        input_description: Seq::empty(),
        input_due_date: Seq::empty(),
        error_message: None,
        ..a
    };
    match (reply, cached_lists(a.planka_lists_by_board, a.current_project)) {
        (Some(ReplyModel::Card(Ok(card_id))), Some(lists)) => AppModel {
            todos: a.todos.push(
                TodoModel {
                    planka_card_id: Some(card_id),
                    planka_list_id: Some(lists.todo_list_id),
                    planka_board_id: Some(lists.board_id),
                    ..draft
                },
            ),
            ..rest
        },
        _ => AppModel {
            todos: a.todos.push(TodoModel { sync_dirty: true, ..draft }),
            pending_ops: a.pending_ops.push(
                queued_op(
                    a,
                    PendingOpKind::Create,
                    None,
                    None,
                    Some(a.input_description),
                    due,
                    ts,
                ),
            ),
            ..rest
        },
    }
}

/// The position of the task that is being edited, where there is one and
/// the edit can be saved.
pub open spec fn editing(a: AppModel) -> Option<int> {
    match a.editing_index {
        Some(i) => if i < a.todos.len() && !blank(a.input_description) {
            Some(i as int)
        } else {
            None
        },
        None => None,
    }
}

/// The request that updates the card of the task that is being edited,
/// where the task is linked.
pub open spec fn edit_wanted(a: AppModel, due: Option<Seq<char>>) -> Option<CallModel> {
    match editing(a) {
        Some(i) => match a.todos[i].planka_card_id {
            Some(card_id) => Some(
                CallModel::UpdateCard { card_id, name: Some(a.input_description), due },
            ),
            None => None,
        },
        None => None,
    }
}

/// The application after an edit was saved. The task takes the new
/// description and due date. Where it is linked and the remote board did not
/// confirm the update, it is dirty and an Update is queued.
pub open spec fn edited(
    a: AppModel,
    i: int,
    due: Option<Seq<char>>,
    ts: i64,
    reply: Option<ReplyModel>,
) -> AppModel {
    let t = TodoModel { description: a.input_description, due_date: due, ..a.todos[i] };
    let rest = AppModel {
        input_description: Seq::empty(),
        input_due_date: Seq::empty(),
        editing_index: None,
        ..a
    };
    match t.planka_card_id {
        Some(card_id) if !confirmed_done(reply) => AppModel {
            todos: a.todos.update(i, TodoModel { sync_dirty: true, ..t }),
            pending_ops: a.pending_ops.push(
                queued_op(
                    a,
                    PendingOpKind::Update,
                    Some(card_id),
                    None,
                    Some(a.input_description),
                    due,
                    ts,
                ),
            ),
            error_message: failure("Planka update failed: "@, reply, a.error_message),
            ..rest
        },
        _ => AppModel { todos: a.todos.update(i, t), ..rest },
    }
}

/// The request that deletes the card of the selected task, where the task
/// is linked.
pub open spec fn delete_wanted(a: AppModel) -> Option<CallModel> {
    match selected_task(a) {
        Some(i) => match a.todos[i].planka_card_id {
            Some(card_id) => Some(CallModel::DeleteCard { card_id }),
            None => None,
        },
        None => None,
    }
}

/// What the user is told where no session could be opened: why not. Else
/// what was told before stands.
pub open spec fn told(online: Result<(), Seq<char>>, otherwise: Option<Seq<char>>) -> Option<
    Seq<char>,
> {
    match online {
        Err(e) => Some(e),
        Ok(_) => otherwise,
    }
}

/// The application after the selected task was deleted. The task is gone
/// and the cursor moves up. Where the task has a card and the remote board
/// did not confirm that the card is deleted, because it refused or because
/// it could not be asked, a Delete is queued. What the board said in
/// refusing is told to the user.
pub open spec fn deleted(a: AppModel, i: int, ts: i64, reply: Option<ReplyModel>) -> AppModel {
    let rest = AppModel {
        todos: a.todos.remove(i),
        selected: if a.selected > 0 {
            (a.selected - 1) as usize
        } else {
            a.selected
        },
        ..a
    };
    match a.todos[i].planka_card_id {
        Some(card_id) if !confirmed_done(reply) => AppModel {
            pending_ops: a.pending_ops.push(
                queued_op(a, PendingOpKind::Delete, Some(card_id), None, None, None, ts),
            ),
            error_message: failure("Planka delete failed: "@, reply, a.error_message),
            ..rest
        },
        _ => rest,
    }
}

/// The list that the selected task's card goes to when its completion is
/// toggled: Done where the task becomes completed, To Do where it is no
/// longer.
pub open spec fn done_target(t: TodoModel, lists: ListsModel) -> Seq<char> {
    if !t.done {
        lists.done_list_id
    } else {
        lists.todo_list_id
    }
}

/// The request that moves the card of the selected task when its completion
/// is toggled: it is made where a session is open, the lists of the current
/// project are remembered and the task is linked.
pub open spec fn done_wanted(a: AppModel, online: bool) -> Option<CallModel> {
    match (selected_task(a), cached_lists(a.planka_lists_by_board, a.current_project)) {
        (Some(i), Some(lists)) => match a.todos[i].planka_card_id {
            Some(card_id) if online => Some(
                CallModel::MoveCard { card_id, list_id: done_target(a.todos[i], lists) },
            ),
            _ => None,
        },
        _ => None,
    }
}

/// The application after the completion of the selected task was toggled.
///
/// - With a session open and the lists of the project unknown, nothing
///   happens: the lists could not be resolved, and the user was told.
/// - A task without a card is toggled locally.
/// - A linked task whose card the remote board moved is toggled and records
///   the new list.
/// - A linked task whose card was not moved, because the board refused or
///   could not be asked, is toggled and dirty, and a Move is queued. The user
///   is told what the board said, or why no session could be opened.
/// - Without a session and with the lists unknown, the list to move the card
///   to is not known either, so no Move can be queued: the task is toggled
///   and dirty, and the user is told why no session could be opened.
pub open spec fn done_toggled(
    a: AppModel,
    i: int,
    online: Result<(), Seq<char>>,
    ts: i64,
    reply: Option<ReplyModel>,
) -> AppModel {
    let t = a.todos[i];
    let toggled = TodoModel { done: !t.done, ..t };
    match (online, cached_lists(a.planka_lists_by_board, a.current_project), t.planka_card_id) {
        (Ok(_), None, _) => a,
        (_, Some(lists), Some(card_id)) => if confirmed_done(reply) {
            AppModel {
                todos: a.todos.update(
                    i,
                    TodoModel { planka_list_id: Some(done_target(t, lists)), ..toggled },
                ),
                ..a
            }
        } else {
            AppModel {
                todos: a.todos.update(i, TodoModel { sync_dirty: true, ..toggled }),
                pending_ops: a.pending_ops.push(
                    queued_op(
                        a,
                        PendingOpKind::Move,
                        Some(card_id),
                        Some(done_target(t, lists)),
                        None,
                        None,
                        ts,
                    ),
                ),
                error_message: failure(
                    "Planka move to Done failed: "@,
                    reply,
                    told(online, a.error_message),
                ),
                ..a
            }
        },
        (Err(e), None, Some(_)) => AppModel {
            todos: a.todos.update(i, TodoModel { sync_dirty: true, ..toggled }),
            error_message: Some(e),
            ..a
        },
        _ => AppModel { todos: a.todos.update(i, toggled), ..a },
    }
}

/// The list that the selected task goes to when Doing is toggled: Doing
/// where it is not there, To Do where it is.
pub open spec fn doing_target(t: TodoModel, lists: ListsModel) -> Seq<char> {
    if t.planka_list_id != Some(lists.doing_list_id) {
        lists.doing_list_id
    } else {
        lists.todo_list_id
    }
}

/// The request that moves the card of the selected task when Doing is
/// toggled: it is made where the lists of the current project are remembered
/// and the task is linked.
pub open spec fn doing_wanted(a: AppModel) -> Option<CallModel> {
    match (selected_task(a), cached_lists(a.planka_lists_by_board, a.current_project)) {
        (Some(i), Some(lists)) => match a.todos[i].planka_card_id {
            Some(card_id) => Some(
                CallModel::MoveCard { card_id, list_id: doing_target(a.todos[i], lists) },
            ),
            None => None,
        },
        _ => None,
    }
}

/// The application after Doing was toggled for the selected task.
///
/// - With the lists of the project unknown nothing can be done, for Doing is
///   a list of the board: without a session the user is told why none could
///   be opened.
/// - Else the task is no longer completed. A linked task whose card the
///   remote board moved records the new list.
/// - A linked task whose card was not moved, because the board refused or
///   could not be asked, is dirty, and a Move is queued. The user is told
///   what the board said, or why no session could be opened.
/// - A task without a card records the list and is dirty.
pub open spec fn doing_toggled(
    a: AppModel,
    i: int,
    online: Result<(), Seq<char>>,
    ts: i64,
    reply: Option<ReplyModel>,
) -> AppModel {
    let t = a.todos[i];
    match cached_lists(a.planka_lists_by_board, a.current_project) {
        None => AppModel { error_message: told(online, a.error_message), ..a },
        Some(lists) => {
            let target = doing_target(t, lists);
            match t.planka_card_id {
                Some(card_id) => if confirmed_done(reply) {
                    AppModel {
                        todos: a.todos.update(
                            i,
                            TodoModel { planka_list_id: Some(target), done: false, ..t },
                        ),
                        ..a
                    }
                } else {
                    AppModel {
                        todos: a.todos.update(
                            i,
                            TodoModel { sync_dirty: true, done: false, ..t },
                        ),
                        pending_ops: a.pending_ops.push(
                            queued_op(
                                a,
                                PendingOpKind::Move,
                                Some(card_id),
                                Some(target),
                                None,
                                None,
                                ts,
                            ),
                        ),
                        error_message: failure(
                            "Planka move to Doing failed: "@,
                            reply,
                            told(online, a.error_message),
                        ),
                        ..a
                    }
                },
                None => AppModel {
                    todos: a.todos.update(
                        i,
                        TodoModel {
                            planka_list_id: Some(target),
                            sync_dirty: true,
                            done: false,
                            ..t
                        },
                    ),
                    ..a
                },
            }
        },
    }
}

/// What the user is told where no session could be opened.
fn tell(online: Result<(), String>, otherwise: Option<String>) -> (m: Option<String>)
    ensures
        m.deep_view() == told(outcome(online), otherwise.deep_view()),
{
    match online {
        Err(e) => Some(e),
        Ok(_) => otherwise,
    }
}

/// The message of a failed request.
fn failure_message(what: &str, reply: &Option<RemoteReply>, otherwise: Option<String>) -> (m:
    Option<String>)
    ensures
        m.deep_view() == failure(what@, reply.deep_view(), otherwise.deep_view()),
{
    match reply {
        Some(RemoteReply::Done(Err(e))) => Some(joined(what, e.as_str())),
        Some(RemoteReply::Card(Err(e))) => Some(joined(what, e.as_str())),
        Some(RemoteReply::Lists(Err(e))) => Some(joined(what, e.as_str())),
        _ => otherwise,
    }
}

/// Whether the remote board confirmed a move, an update or a delete.
fn is_confirmed(reply: &Option<RemoteReply>) -> (r: bool)
    ensures
        r == confirmed_done(reply.deep_view()),
{
    match reply {
        Some(RemoteReply::Done(Ok(_))) => true,
        _ => false,
    }
}

impl App {
    /// A change of the current project for the queue.
    fn queue_op(
        &self,
        kind: PendingOpKind,
        card_id: Option<String>,
        list_id: Option<String>,
        name: Option<String>,
        due: Option<String>,
        ts: i64,
    ) -> (op: PendingOp)
        ensures
            op@ == queued_op(
                self@,
                kind,
                card_id.deep_view(),
                list_id.deep_view(),
                name.deep_view(),
                due.deep_view(),
                ts,
            ),
    {
        PendingOp { kind, project: self.current_project.clone(), card_id, list_id, name, due, ts }
    }

    /// The due date that the user typed as it is kept, read now.
    pub fn due_entered(&self) -> (r: Result<Option<String>, String>)
        ensures
            exists|clock: Clock, parts: Option<(i32, u32, u32)>, instant: Option<i64>|
                due_outcome(r) == #[trigger] due_typed(self@, clock, parts, instant),
    {
        let ghost c: Clock = arbitrary();
        if is_blank(self.input_description.as_str()) {
            assert(Err::<Option<Seq<char>>, Seq<char>>(no_description()) == due_typed(
                self@,
                c,
                None,
                None,
            ));
            return Err("Description cannot be empty.".to_owned());
        }
        if is_blank(self.input_due_date.as_str()) {
            assert(Ok::<Option<Seq<char>>, Seq<char>>(None) == due_typed(self@, c, None, None));
            return Ok(None);
        }
        let parsed = parse_due_date(self.input_due_date.as_str());
        let ghost (clock, parts, instant) = choose|
            clock: Clock,
            parts: Option<(i32, u32, u32)>,
            instant: Option<i64>,
        |
            text_outcome(parsed) == #[trigger] due_date(
                self@.input_due_date,
                clock,
                parts,
                instant,
            );
        let r = match parsed {
            Ok(text) => Ok(Some(text)),
            Err(e) => Err(e),
        };
        assert(due_outcome(r) == due_typed(self@, clock, parts, instant));
        r
    }

    /// The request that resolves the lists of a board, where they are not
    /// remembered yet.
    pub fn lists_request_for(&self, board: &String) -> (call: Option<RemoteCall>)
        ensures
            call.deep_view() == lists_wanted(self@, board@),
    {
        match self.lists_for(board) {
            Some(_) => None,
            None => Some(RemoteCall::ResolveLists { board_name: board.clone() }),
        }
    }

    /// Takes the remote board's answer to the request for the lists of a
    /// board.
    pub fn lists_reply_for(&mut self, board: &String, reply: RemoteReply, tell: bool)
        ensures
            final(self)@ == lists_answered(old(self)@, board@, reply@, tell),
    {
        match reply {
            RemoteReply::Lists(Ok(lists)) => {
                self.remember_lists(board, lists);
            },
            RemoteReply::Lists(Err(e)) => {
                if tell {
                    self.error_message = Some(e);
                }
            },
            _ => {},
        }
    }

    /// The request that resolves the lists of the current project, where
    /// they are not remembered yet.
    pub fn lists_request(&self) -> (call: Option<RemoteCall>)
        ensures
            call.deep_view() == lists_wanted(self@, self@.current_project),
    {
        self.lists_request_for(&self.current_project)
    }

    /// Takes the remote board's answer to the request for the lists of the
    /// current project.
    pub fn lists_reply(&mut self, reply: RemoteReply, tell: bool)
        ensures
            final(self)@ == lists_answered(old(self)@, old(self)@.current_project, reply@, tell),
    {
        let board = self.current_project.clone();
        self.lists_reply_for(&board, reply, tell)
    }

    /// The request that creates the card of the task that is being added.
    pub fn add_todo_request(&self, due: &Option<String>) -> (call: Option<RemoteCall>)
        ensures
            call.deep_view() == add_wanted(self@, due.deep_view()),
    {
        if is_blank(self.input_description.as_str()) {
            return None;
        }
        match self.lists_for(&self.current_project) {
            Some(lists) => Some(
                RemoteCall::CreateCard {
                    list_id: lists.todo_list_id,
                    name: self.input_description.clone(),
                    due: clone_opt(due),
                },
            ),
            None => None,
        }
    }

    /// Adds the task that the user typed, with its due date as it was
    /// understood, on the given day and at the given time. `reply` is the
    /// remote board's answer to the request of [`App::add_todo_request`],
    /// `None` where none was made. A task without a description is refused.
    pub fn add_todo_at(
        &mut self,
        due: Option<String>,
        today: String,
        ts: i64,
        reply: Option<RemoteReply>,
    ) -> (r: Result<(), String>)
        ensures
            outcome(r) == if blank(old(self)@.input_description) {
                Err(no_description())
            } else {
                Ok(())
            },
            final(self)@ == if blank(old(self)@.input_description) {
                old(self)@
            } else {
                added(old(self)@, due.deep_view(), today@, ts, reply.deep_view())
            },
    {
        if is_blank(self.input_description.as_str()) {
            return Err("Description cannot be empty.".to_owned());
        }
        let ghost a = self@;
        let mut todo = Todo {
            description: self.input_description.clone(),
            due_date: clone_opt(&due),
            created_date: today,
            done: false,
            project: self.current_project.clone(),
            planka_card_id: None,
            planka_list_id: None,
            planka_board_id: None,
            sync_dirty: false,
        };
        match (reply, self.lists_for(&self.current_project)) {
            (Some(RemoteReply::Card(Ok(card_id))), Some(lists)) => {
                todo.planka_card_id = Some(card_id);
                todo.planka_list_id = Some(lists.todo_list_id);
                todo.planka_board_id = Some(lists.board_id);
            },
            _ => {
                todo.sync_dirty = true;
                let op = self.queue_op(
                    PendingOpKind::Create,
                    None,
                    None,
                    Some(self.input_description.clone()),
                    due,
                    ts,
                );
                self.pending_ops.push(op);
                assert(self.pending_ops.deep_view() =~= a.pending_ops.push(op@));
            },
        }
        self.todos.push(todo);
        assert(self.todos.deep_view() =~= a.todos.push(todo@));
        if !crate::app::has_name(&self.projects, &self.current_project) {
            self.projects.push(self.current_project.clone());
            assert(self.projects.deep_view() =~= a.projects.push(a.current_project));
        }
        self.input_description = String::new();
        self.input_due_date = String::new();
        self.error_message = None;
        Ok(())
    }

    /// Adds the task that the user typed, now.
    pub fn add_todo(&mut self, due: Option<String>, reply: Option<RemoteReply>) -> (r: Result<
        (),
        String,
    >)
        ensures
            outcome(r) == if blank(old(self)@.input_description) {
                Err(no_description())
            } else {
                Ok(())
            },
            blank(old(self)@.input_description) ==> final(self)@ == old(self)@,
            !blank(old(self)@.input_description) ==> exists|clock: Clock, ts: i64|
                final(self)@ == #[trigger] added(
                    old(self)@,
                    due.deep_view(),
                    today_shown(clock),
                    ts,
                    reply.deep_view(),
                ),
    {
        let today = local_today();
        let ghost clock = choose|clock: Clock| today@ == today_shown(clock);
        let ts = local_timestamp();
        let r = self.add_todo_at(due, today, ts, reply);
        assert(!blank(old(self)@.input_description) ==> self@ == added(
            old(self)@,
            due.deep_view(),
            today_shown(clock),
            ts,
            reply.deep_view(),
        ));
        r
    }

    /// The request that updates the card of the task that is being edited.
    pub fn save_edit_request(&self, due: &Option<String>) -> (call: Option<RemoteCall>)
        ensures
            call.deep_view() == edit_wanted(self@, due.deep_view()),
    {
        match self.editing_index {
            Some(i) => {
                if i < self.todos.len() && !is_blank(self.input_description.as_str()) {
                    assert(self@.todos[i as int] == self.todos[i as int]@);
                    match &self.todos[i].planka_card_id {
                        Some(card_id) => Some(
                            RemoteCall::UpdateCard {
                                card_id: card_id.clone(),
                                name: Some(self.input_description.clone()),
                                due: clone_opt(due),
                            },
                        ),
                        None => None,
                    }
                } else {
                    None
                }
            },
            None => None,
        }
    }

    /// Saves the edit of a task at the given time. `reply` is the remote
    /// board's answer to the request of [`App::save_edit_request`], `None`
    /// where none was made. Without a task being edited nothing happens; an
    /// empty description is refused.
    pub fn save_edit_at(&mut self, due: Option<String>, ts: i64, reply: Option<RemoteReply>) -> (r:
        Result<(), String>)
        ensures
            outcome(r) == match old(self)@.editing_index {
                Some(i) => if i < old(self)@.todos.len() && blank(old(self)@.input_description) {
                    Err(no_description())
                } else {
                    Ok(())
                },
                None => Ok(()),
            },
            final(self)@ == match editing(old(self)@) {
                Some(i) => edited(old(self)@, i, due.deep_view(), ts, reply.deep_view()),
                None => old(self)@,
            },
    {
        let i = match self.editing_index {
            Some(i) => i,
            None => {
                return Ok(());
            },
        };
        if i >= self.todos.len() {
            return Ok(());
        }
        if is_blank(self.input_description.as_str()) {
            return Err("Description cannot be empty.".to_owned());
        }
        let ghost a = self@;
        assert(a.todos[i as int] == self.todos[i as int]@);
        let card_id = clone_opt(&self.todos[i].planka_card_id);
        let confirmed = is_confirmed(&reply);
        let t = &mut self.todos[i];
        t.description = self.input_description.clone();
        t.due_date = clone_opt(&due);
        match card_id {
            Some(card_id) => {
                if !confirmed {
                    let t = &mut self.todos[i];
                    t.sync_dirty = true;
                    let op = self.queue_op(
                        PendingOpKind::Update,
                        Some(card_id),
                        None,
                        Some(self.input_description.clone()),
                        due,
                        ts,
                    );
                    self.pending_ops.push(op);
                    assert(self.pending_ops.deep_view() =~= a.pending_ops.push(op@));
                    let kept = clone_opt(&self.error_message);
                    self.error_message = failure_message("Planka update failed: ", &reply, kept);
                }
            },
            None => {},
        }
        self.input_description = String::new();
        self.input_due_date = String::new();
        self.editing_index = None;
        assert(self.todos.deep_view() =~= edited(
            a,
            i as int,
            due.deep_view(),
            ts,
            reply.deep_view(),
        ).todos);
        Ok(())
    }

    /// Saves the edit of a task, now.
    pub fn save_edit(&mut self, due: Option<String>, reply: Option<RemoteReply>) -> (r: Result<
        (),
        String,
    >)
        ensures
            outcome(r) == match old(self)@.editing_index {
                Some(i) => if i < old(self)@.todos.len() && blank(old(self)@.input_description) {
                    Err(no_description())
                } else {
                    Ok(())
                },
                None => Ok(()),
            },
            editing(old(self)@) is None ==> final(self)@ == old(self)@,
            editing(old(self)@) matches Some(i) ==> exists|ts: i64|
                final(self)@ == #[trigger] edited(
                    old(self)@,
                    i,
                    due.deep_view(),
                    ts,
                    reply.deep_view(),
                ),
    {
        let ts = local_timestamp();
        self.save_edit_at(due, ts, reply)
    }

    /// The request that deletes the card of the selected task.
    pub fn delete_todo_request(&self) -> (call: Option<RemoteCall>)
        ensures
            call.deep_view() == delete_wanted(self@),
    {
        match self.selected_index_in_all() {
            Some(i) => {
                assert(self@.todos[i as int] == self.todos[i as int]@);
                match &self.todos[i].planka_card_id {
                    Some(card_id) => Some(RemoteCall::DeleteCard { card_id: card_id.clone() }),
                    None => None,
                }
            },
            None => None,
        }
    }

    /// Deletes the selected task at the given time. `reply` is the remote
    /// board's answer to the request of [`App::delete_todo_request`], `None`
    /// where none was made.
    pub fn delete_todo_at(&mut self, ts: i64, reply: Option<RemoteReply>)
        ensures
            final(self)@ == match selected_task(old(self)@) {
                Some(i) => deleted(old(self)@, i, ts, reply.deep_view()),
                None => old(self)@,
            },
    {
        let i = match self.selected_index_in_all() {
            Some(i) => i,
            None => {
                return ;
            },
        };
        let ghost a = self@;
        assert(a.todos[i as int] == self.todos[i as int]@);
        match clone_opt(&self.todos[i].planka_card_id) {
            Some(card_id) => {
                if !is_confirmed(&reply) {
                    let op = self.queue_op(
                        PendingOpKind::Delete,
                        Some(card_id),
                        None,
                        None,
                        None,
                        ts,
                    );
                    self.pending_ops.push(op);
                    assert(self.pending_ops.deep_view() =~= a.pending_ops.push(op@));
                    let kept = clone_opt(&self.error_message);
                    self.error_message = failure_message("Planka delete failed: ", &reply, kept);
                }
            },
            None => {},
        }
        let _ = self.todos.remove(i);
        assert(self.todos.deep_view() =~= a.todos.remove(i as int));
        if self.selected > 0 {
            self.selected = self.selected - 1;
        }
    }

    /// Deletes the selected task, now.
    pub fn delete_todo(&mut self, reply: Option<RemoteReply>)
        ensures
            selected_task(old(self)@) is None ==> final(self)@ == old(self)@,
            selected_task(old(self)@) matches Some(i) ==> exists|ts: i64|
                final(self)@ == #[trigger] deleted(old(self)@, i, ts, reply.deep_view()),
    {
        let ts = local_timestamp();
        self.delete_todo_at(ts, reply)
    }

    /// The request that moves the card of the selected task when its
    /// completion is toggled.
    pub fn mark_done_request(&self, online: bool) -> (call: Option<RemoteCall>)
        ensures
            call.deep_view() == done_wanted(self@, online),
    {
        match (self.selected_index_in_all(), self.lists_for(&self.current_project)) {
            (Some(i), Some(lists)) => {
                assert(self@.todos[i as int] == self.todos[i as int]@);
                match &self.todos[i].planka_card_id {
                    Some(card_id) => {
                        if online {
                            let list_id = if !self.todos[i].done {
                                lists.done_list_id
                            } else {
                                lists.todo_list_id
                            };
                            Some(RemoteCall::MoveCard { card_id: card_id.clone(), list_id })
                        } else {
                            None
                        }
                    },
                    None => None,
                }
            },
            _ => None,
        }
    }

    /// Toggles the completion of the selected task at the given time.
    /// `online` says whether a session with the remote board is open, or why
    /// not, and `reply` is the board's answer to the request of
    /// [`App::mark_done_request`], `None` where none was made.
    pub fn mark_done_at(&mut self, online: Result<(), String>, ts: i64, reply: Option<RemoteReply>)
        ensures
            final(self)@ == match selected_task(old(self)@) {
                Some(i) => done_toggled(old(self)@, i, outcome(online), ts, reply.deep_view()),
                None => old(self)@,
            },
    {
        let i = match self.selected_index_in_all() {
            Some(i) => i,
            None => {
                return ;
            },
        };
        let ghost a = self@;
        assert(a.todos[i as int] == self.todos[i as int]@);
        let lists = self.lists_for(&self.current_project);
        let card_id = clone_opt(&self.todos[i].planka_card_id);
        let was_done = self.todos[i].done;
        match (lists, card_id) {
            (None, card_id) => {
                match online {
                    Ok(_) => {
                        return ;
                    },
                    Err(e) => {
                        if card_id.is_some() {
                            self.error_message = Some(e);
                            let t = &mut self.todos[i];
                            t.sync_dirty = true;
                        }
                    },
                }
            },
            (Some(lists), Some(card_id)) => {
                let target = if !was_done {
                    lists.done_list_id
                } else {
                    lists.todo_list_id
                };
                if is_confirmed(&reply) {
                    let t = &mut self.todos[i];
                    t.planka_list_id = Some(target);
                } else {
                    let op = self.queue_op(
                        PendingOpKind::Move,
                        Some(card_id),
                        Some(target),
                        None,
                        None,
                        ts,
                    );
                    self.pending_ops.push(op);
                    assert(self.pending_ops.deep_view() =~= a.pending_ops.push(op@));
                    let kept = tell(online, clone_opt(&self.error_message));
                    self.error_message = failure_message(
                        "Planka move to Done failed: ",
                        &reply,
                        kept,
                    );
                    let t = &mut self.todos[i];
                    t.sync_dirty = true;
                }
            },
            _ => {},
        }
        let t = &mut self.todos[i];
        t.done = !was_done;
        assert(self.todos.deep_view() =~= done_toggled(
            a,
            i as int,
            outcome(online),
            ts,
            reply.deep_view(),
        ).todos);
    }

    /// Toggles the completion of the selected task, now.
    pub fn mark_done(&mut self, online: Result<(), String>, reply: Option<RemoteReply>)
        ensures
            selected_task(old(self)@) is None ==> final(self)@ == old(self)@,
            selected_task(old(self)@) matches Some(i) ==> exists|ts: i64|
                final(self)@ == #[trigger] done_toggled(
                    old(self)@,
                    i,
                    outcome(online),
                    ts,
                    reply.deep_view(),
                ),
    {
        let ts = local_timestamp();
        self.mark_done_at(online, ts, reply)
    }

    /// The request that moves the card of the selected task when Doing is
    /// toggled.
    pub fn mark_doing_request(&self) -> (call: Option<RemoteCall>)
        ensures
            call.deep_view() == doing_wanted(self@),
    {
        match (self.selected_index_in_all(), self.lists_for(&self.current_project)) {
            (Some(i), Some(lists)) => {
                assert(self@.todos[i as int] == self.todos[i as int]@);
                match &self.todos[i].planka_card_id {
                    Some(card_id) => {
                        let list_id = if !opt_is(
                            &self.todos[i].planka_list_id,
                            &lists.doing_list_id,
                        ) {
                            lists.doing_list_id
                        } else {
                            lists.todo_list_id
                        };
                        Some(RemoteCall::MoveCard { card_id: card_id.clone(), list_id })
                    },
                    None => None,
                }
            },
            _ => None,
        }
    }

    /// Toggles Doing for the selected task at the given time. `online` says
    /// whether a session with the remote board is open, or why not, and
    /// `reply` is the board's answer to the request of
    /// [`App::mark_doing_request`], `None` where none was made.
    pub fn mark_doing_at(&mut self, online: Result<(), String>, ts: i64, reply: Option<RemoteReply>)
        ensures
            final(self)@ == match selected_task(old(self)@) {
                Some(i) => doing_toggled(old(self)@, i, outcome(online), ts, reply.deep_view()),
                None => old(self)@,
            },
    {
        let i = match self.selected_index_in_all() {
            Some(i) => i,
            None => {
                return ;
            },
        };
        let ghost a = self@;
        assert(a.todos[i as int] == self.todos[i as int]@);
        let lists = match self.lists_for(&self.current_project) {
            Some(lists) => lists,
            None => {
                self.error_message = tell(online, clone_opt(&self.error_message));
                return ;
            },
        };
        let target = if !opt_is(&self.todos[i].planka_list_id, &lists.doing_list_id) {
            lists.doing_list_id
        } else {
            lists.todo_list_id
        };
        match clone_opt(&self.todos[i].planka_card_id) {
            Some(card_id) => {
                if is_confirmed(&reply) {
                    let t = &mut self.todos[i];
                    t.planka_list_id = Some(target);
                } else {
                    let op = self.queue_op(
                        PendingOpKind::Move,
                        Some(card_id),
                        Some(target),
                        None,
                        None,
                        ts,
                    );
                    self.pending_ops.push(op);
                    assert(self.pending_ops.deep_view() =~= a.pending_ops.push(op@));
                    let kept = tell(online, clone_opt(&self.error_message));
                    self.error_message = failure_message(
                        "Planka move to Doing failed: ",
                        &reply,
                        kept,
                    );
                    let t = &mut self.todos[i];
                    t.sync_dirty = true;
                }
            },
            None => {
                let t = &mut self.todos[i];
                t.planka_list_id = Some(target);
                t.sync_dirty = true;
            },
        }
        let t = &mut self.todos[i];
        t.done = false;
        assert(self.todos.deep_view() =~= doing_toggled(
            a,
            i as int,
            outcome(online),
            ts,
            reply.deep_view(),
        ).todos);
    }

    /// Toggles Doing for the selected task, now.
    pub fn mark_doing(&mut self, online: Result<(), String>, reply: Option<RemoteReply>)
        ensures
            selected_task(old(self)@) is None ==> final(self)@ == old(self)@,
            selected_task(old(self)@) matches Some(i) ==> exists|ts: i64|
                final(self)@ == #[trigger] doing_toggled(
                    old(self)@,
                    i,
                    outcome(online),
                    ts,
                    reply.deep_view(),
                ),
    {
        let ts = local_timestamp();
        self.mark_doing_at(online, ts, reply)
    }
}

} // verus!
