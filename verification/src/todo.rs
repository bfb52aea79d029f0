//! A task, its mathematical model and the column it is shown in.

use vstd::prelude::*;
use crate::text::clone_opt;
use crate::planka::ListsModel;
use crate::planka::PlankaLists;
use crate::text::joined;
use crate::text::opt_is;
use crate::clock::local_today;
use crate::clock::today_shown;
use crate::clock::Clock;

verus! {

/// One task of the local list.
#[derive(Debug)]
pub struct Todo {
    pub description: String,
    pub due_date: Option<String>,
    pub created_date: String,
    pub done: bool,
    pub project: String,
    pub planka_card_id: Option<String>,
    pub planka_list_id: Option<String>,
    pub planka_board_id: Option<String>,
    pub sync_dirty: bool,
}

/// What a task is, with every string as its sequence of characters.
pub struct TodoModel {
    pub description: Seq<char>,
    pub due_date: Option<Seq<char>>,
    pub created_date: Seq<char>,
    pub done: bool,
    pub project: Seq<char>,
    pub planka_card_id: Option<Seq<char>>,
    pub planka_list_id: Option<Seq<char>>,
    pub planka_board_id: Option<Seq<char>>,
    pub sync_dirty: bool,
}

impl View for Todo {
    type V = TodoModel;

    open spec fn view(&self) -> TodoModel {
        TodoModel {
            description: self.description@,
            due_date: self.due_date.deep_view(),
            created_date: self.created_date@,
            done: self.done,
            project: self.project@,
            planka_card_id: self.planka_card_id.deep_view(),
            planka_list_id: self.planka_list_id.deep_view(),
            planka_board_id: self.planka_board_id.deep_view(),
            sync_dirty: self.sync_dirty,
        }
    }
}

impl DeepView for Todo {
    type V = TodoModel;

    open spec fn deep_view(&self) -> TodoModel {
        self@
    }
}

impl Clone for Todo {
    fn clone(&self) -> (r: Self)
        ensures
            r@ == self@,
    {
        Todo {
            description: self.description.clone(),
            due_date: clone_opt(&self.due_date),
            created_date: self.created_date.clone(),
            done: self.done,
            project: self.project.clone(),
            planka_card_id: clone_opt(&self.planka_card_id),
            planka_list_id: clone_opt(&self.planka_list_id),
            planka_board_id: clone_opt(&self.planka_board_id),
            sync_dirty: self.sync_dirty,
        }
    }
}

/// The three columns a task can be shown in.
#[derive(Clone, Copy, Debug, PartialEq, Eq, Structural)]
pub enum Status {
    Todo,
    Doing,
    Done,
}

/// The project a task belongs to when none is chosen.
pub open spec fn default_project_name() -> Seq<char> {
    "Inbox"@
}

/// The column of a task, given the lists of its board when they are known.
///
/// A task that is not completed and sits in the board's Doing list is Doing.
/// Otherwise a task that is completed, or sits in the Done list, is Done.
/// Every other task is To Do.
pub open spec fn status_of(t: TodoModel, lists: Option<ListsModel>) -> Status {
    let in_doing = lists matches Some(l) && t.planka_list_id == Some(l.doing_list_id);
    let in_done = lists matches Some(l) && t.planka_list_id == Some(l.done_list_id);
    if !t.done && in_doing {
        Status::Doing
    } else if t.done || in_done {
        Status::Done
    } else {
        Status::Todo
    }
}

impl Todo {
    /// A fresh, unlinked task in the default project, created today.
    pub fn new(description: String, due_date: Option<String>) -> (t: Todo)
        ensures
            t@.description == description@,
            t@.due_date == due_date.deep_view(),
            !t@.done,
            t@.project == default_project_name(),
            t@.planka_card_id is None,
            t@.planka_list_id is None,
            t@.planka_board_id is None,
            !t@.sync_dirty,
            exists|clock: Clock| t@.created_date == #[trigger] today_shown(clock),
    {
        Todo {
            description,
            due_date,
            created_date: local_today(),
            done: false,
            project: "Inbox".to_owned(),
            planka_card_id: None,
            planka_list_id: None,
            planka_board_id: None,
            sync_dirty: false,
        }
    }

    /// The column that the task is shown in.
    pub fn status(&self, lists: &Option<PlankaLists>) -> (s: Status)
        ensures
            s == status_of(self@, lists.deep_view()),
    {
        let (in_doing, in_done) = match lists {
            Some(l) => (
                opt_is(&self.planka_list_id, &l.doing_list_id),
                opt_is(&self.planka_list_id, &l.done_list_id),
            ),
            None => (false, false),
        };
        if !self.done && in_doing {
            Status::Doing
        } else if self.done || in_done {
            Status::Done
        } else {
            Status::Todo
        }
    }
}

/// A task that is not completed and sits in the Doing list is Doing. Put into
/// the Done list, with its completion flag untouched, it is Done, as long as
/// the board's Done list is not also its Doing list.
pub proof fn lemma_derived_status(t: TodoModel, lists: ListsModel)
    requires
        !t.done,
        t.planka_list_id == Some(lists.doing_list_id),
    ensures
        status_of(t, Some(lists)) == Status::Doing,
        lists.done_list_id != lists.doing_list_id ==> status_of(
            TodoModel { planka_list_id: Some(lists.done_list_id), ..t },
            Some(lists),
        ) == Status::Done,
{
}

/// Whether a task is due on the given day and not completed.
pub open spec fn due_on(t: TodoModel, day: Seq<char>) -> bool {
    !t.done && t.due_date == Some(day)
}

/// What the user is told of a task that is due today.
pub open spec fn due_notice(t: TodoModel) -> Seq<char> {
    "\""@ + t.description + "\" is due today! Don't forget!"@
}

/// The notices for the tasks that are due on the given day, in the order of
/// the tasks.
pub open spec fn due_notices(todos: Seq<TodoModel>, day: Seq<char>) -> Seq<Seq<char>> {
    todos.filter(|t: TodoModel| due_on(t, day)).map_values(|t: TodoModel| due_notice(t))
}

/// The notices for the tasks that are due on the given day.
pub fn due_today(todos: &Vec<Todo>, day: &String) -> (notices: Vec<String>)
    ensures
        notices.deep_view() == due_notices(todos.deep_view(), day@),
{
    let ghost p = |t: TodoModel| due_on(t, day@);
    let ghost f = |t: TodoModel| due_notice(t);
    let mut notices: Vec<String> = Vec::new();
    let mut i: usize = 0;
    assert(todos.deep_view().take(0) =~= Seq::empty());
    assert(notices.deep_view() =~= todos.deep_view().take(0).filter(p).map_values(f));
    while i < todos.len()
        invariant
            i <= todos.len(),
            p == |t: TodoModel| due_on(t, day@),
            f == |t: TodoModel| due_notice(t),
            notices.deep_view() == todos.deep_view().take(i as int).filter(p).map_values(f),
        decreases todos.len() - i,
    {
        let t = &todos[i];
        let ghost seen = todos.deep_view().take(i as int);
        proof {
            assert(todos.deep_view().take(i + 1) =~= seen.push(t@));
            seen.lemma_filter_push(t@, p);
        }
        if !t.done && opt_is(&t.due_date, day) {
            let notice = joined(
                joined("\"", t.description.as_str()).as_str(),
                "\" is due today! Don't forget!",
            );
            let ghost before = notices.deep_view();
            notices.push(notice);
            assert(notices.deep_view() =~= before.push(due_notice(t@)));
            assert(seen.filter(p).push(t@).map_values(f) =~= seen.filter(p).map_values(f).push(
                f(t@),
            ));
        }
        i = i + 1;
    }
    assert(todos.deep_view().take(i as int) =~= todos.deep_view());
    notices
}

} // verus!
