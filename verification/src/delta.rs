//! Inbound changes: one remote card's state, applied to the local tasks.
//!
//! A change is matched to a task by project and remote card id. A task with
//! unsynced local edits is never overwritten: the change is dropped.

use vstd::prelude::*;
use crate::clock::today_shown;
use crate::clock::Clock;
use crate::dates::created_agrees;
use crate::dates::instant_of;
use crate::dates::looks_like_date;
use crate::dates::due_agrees;
use crate::dates::format_planka_created;
use crate::dates::format_planka_due;
use crate::find::first_where;
use crate::find::is_first;
use crate::find::lemma_first_absent;
use crate::find::lemma_first_found;
use crate::find::lemma_first_where;
use crate::text::opt_is;
use crate::find::position;
use crate::todo::Todo;
use crate::todo::TodoModel;

verus! {

/// A notification of one remote card's current state, as the remote board
/// gave it.
#[derive(Debug)]
pub enum Delta {
    Upsert {
        project: String,
        id: String,
        name: String,
        due: Option<String>,
        created: Option<String>,
        done: bool,
        list_id: String,
    },
}

/// The model of [`Delta`].
pub struct DeltaModel {
    pub project: Seq<char>,
    pub id: Seq<char>,
    pub name: Seq<char>,
    pub due: Option<Seq<char>>,
    pub created: Option<Seq<char>>,
    pub done: bool,
    pub list_id: Seq<char>,
}

impl View for Delta {
    type V = DeltaModel;

    open spec fn view(&self) -> DeltaModel {
        match self {
            Delta::Upsert { project, id, name, due, created, done, list_id } => DeltaModel {
                project: project@,
                id: id@,
                name: name@,
                due: due.deep_view(),
                created: created.deep_view(),
                done: *done,
                list_id: list_id@,
            },
        }
    }
}

impl DeepView for Delta {
    type V = DeltaModel;

    open spec fn deep_view(&self) -> DeltaModel {
        self@
    }
}

/// One remote card's state with its dates as they are shown locally.
#[derive(Debug)]
pub struct Incoming {
    pub project: String,
    pub id: String,
    pub name: String,
    pub due: Option<String>,
    pub created: Option<String>,
    pub done: bool,
    pub list_id: String,
}

/// The model of [`Incoming`].
pub struct IncomingModel {
    pub project: Seq<char>,
    pub id: Seq<char>,
    pub name: Seq<char>,
    pub due: Option<Seq<char>>,
    pub created: Option<Seq<char>>,
    pub done: bool,
    pub list_id: Seq<char>,
}

impl View for Incoming {
    type V = IncomingModel;

    open spec fn view(&self) -> IncomingModel {
        IncomingModel {
            project: self.project@,
            id: self.id@,
            name: self.name@,
            due: self.due.deep_view(),
            created: self.created.deep_view(),
            done: self.done,
            list_id: self.list_id@,
        }
    }
}

impl DeepView for Incoming {
    type V = IncomingModel;

    open spec fn deep_view(&self) -> IncomingModel {
        self@
    }
}

/// Whether `c` is `d` with its dates rendered for display: every other field
/// is kept, and the dates are as far as they are known whatever the clock and
/// the time zone.
pub open spec fn renders(d: DeltaModel, c: IncomingModel) -> bool {
    &&& c.project == d.project
    &&& c.id == d.id
    &&& c.name == d.name
    &&& c.done == d.done
    &&& c.list_id == d.list_id
    &&& match d.due {
        Some(raw) => due_agrees(raw, c.due),
        None => c.due is None,
    }
    &&& match d.created {
        Some(raw) => c.created matches Some(shown) && created_agrees(raw, shown),
        None => c.created is None,
    }
}

/// Renders the dates of a change for display.
pub fn render(d: &Delta) -> (c: Incoming)
    ensures
        renders(d@, c@),
{
    match d {
        Delta::Upsert { project, id, name, due, created, done, list_id } => {
            let due = match due {
                Some(raw) => format_planka_due(raw.as_str()),
                None => None,
            };
            let created = match created {
                Some(raw) => Some(format_planka_created(raw.as_str())),
                None => None,
            };
            Incoming {
                project: project.clone(),
                id: id.clone(),
                name: name.clone(),
                due,
                created,
                done: *done,
                list_id: list_id.clone(),
            }
        },
    }
}

/// Whether a task is the local counterpart of the given remote card.
pub open spec fn is_card(t: TodoModel, project: Seq<char>, id: Seq<char>) -> bool {
    t.project == project && t.planka_card_id == Some(id)
}

/// A task with its fields overwritten from a remote card. The creation date
/// is kept where the card brings none.
pub open spec fn overwritten(t: TodoModel, c: IncomingModel) -> TodoModel {
    TodoModel {
        description: c.name,
        done: c.done,
        due_date: c.due,
        created_date: match c.created {
            Some(d) => d,
            None => t.created_date,
        },
        planka_list_id: Some(c.list_id),
        ..t
    }
}

/// The task made for a remote card that has no local counterpart. It is
/// created today where the card brings no creation date.
pub open spec fn adopted(c: IncomingModel, today: Seq<char>) -> TodoModel {
    TodoModel {
        description: c.name,
        due_date: c.due,
        created_date: match c.created {
            Some(d) => d,
            None => today,
        },
        done: c.done,
        project: c.project,
        planka_card_id: Some(c.id),
        planka_list_id: Some(c.list_id),
        planka_board_id: None,
        sync_dirty: false,
    }
}

/// The tasks after a change is applied. The first task that is the card's
/// counterpart decides: with unsynced edits the change is dropped, without
/// them the task is overwritten. Without a counterpart a task is appended.
pub open spec fn applied(todos: Seq<TodoModel>, c: IncomingModel, today: Seq<char>) -> Seq<
    TodoModel,
> {
    match first_where(todos, |t: TodoModel| is_card(t, c.project, c.id)) {
        Some(i) => if todos[i].sync_dirty {
            todos
        } else {
            todos.update(i, overwritten(todos[i], c))
        },
        None => todos.push(adopted(c, today)),
    }
}

/// The position of the first task that is the counterpart of a remote card.
pub fn find_card(todos: &Vec<Todo>, project: &String, id: &String) -> (r: Option<usize>)
    ensures
        position(r) == first_where(todos.deep_view(), |t: TodoModel| is_card(t, project@, id@)),
{
    let ghost p = |t: TodoModel| is_card(t, project@, id@);
    let mut i: usize = 0;
    while i < todos.len()
        invariant
            i <= todos.len(),
            p == |t: TodoModel| is_card(t, project@, id@),
            forall|j: int| 0 <= j < i ==> !p(#[trigger] todos.deep_view()[j]),
        decreases todos.len() - i,
    {
        if todos[i].project == *project && opt_is(&todos[i].planka_card_id, id) {
            proof {
                assert(p(todos.deep_view()[i as int]));
                lemma_first_found(todos.deep_view(), p, i as int);
            }
            return Some(i);
        }
        i = i + 1;
    }
    proof {
        lemma_first_absent(todos.deep_view(), p);
    }
    None
}

/// Applies one change to the tasks.
pub fn apply_incoming(todos: &mut Vec<Todo>, c: Incoming, today: String)
    ensures
        final(todos).deep_view() == applied(old(todos).deep_view(), c@, today@),
{
    match find_card(todos, &c.project, &c.id) {
        Some(i) => {
            if !todos[i].sync_dirty {
                let ghost before = todos.deep_view();
                let t = &mut todos[i];
                t.description = c.name;
                t.done = c.done;
                t.due_date = c.due;
                match c.created {
                    Some(d) => {
                        t.created_date = d;
                    },
                    None => {},
                }
                t.planka_list_id = Some(c.list_id);
                assert(todos.deep_view() =~= before.update(
                    i as int,
                    overwritten(before[i as int], c@),
                ));
            }
        },
        None => {
            let ghost before = todos.deep_view();
            let created_date = match c.created {
                Some(d) => d,
                None => today,
            };
            todos.push(
                Todo {
                    description: c.name,
                    due_date: c.due,
                    created_date,
                    done: c.done,
                    project: c.project,
                    planka_card_id: Some(c.id),
                    planka_list_id: Some(c.list_id),
                    planka_board_id: None,
                    sync_dirty: false,
                },
            );
            assert(todos.deep_view() =~= before.push(adopted(c@, today@)));
        },
    }
}

/// A task with unsynced local edits is left as it is by any change for its
/// card: its description, due date, completion and every other field stay.
pub proof fn lemma_dirty_suppression(
    todos: Seq<TodoModel>,
    c: IncomingModel,
    today: Seq<char>,
    i: int,
)
    requires
        0 <= i < todos.len(),
        todos[i].sync_dirty,
        is_card(todos[i], c.project, c.id),
    ensures
        applied(todos, c, today).len() == todos.len(),
        applied(todos, c, today)[i] == todos[i],
{
    let p = |t: TodoModel| is_card(t, c.project, c.id);
    lemma_first_where(todos, p);
    assert(p(todos[i]));
}

/// Applying the same change twice leaves the tasks as applying it once does,
/// even if the day has changed in between.
pub proof fn lemma_apply_idempotent(
    todos: Seq<TodoModel>,
    c: IncomingModel,
    today: Seq<char>,
    later: Seq<char>,
)
    ensures
        applied(applied(todos, c, today), c, later) == applied(todos, c, today),
{
    let p = |t: TodoModel| is_card(t, c.project, c.id);
    let once = applied(todos, c, today);
    lemma_first_where(todos, p);
    match first_where(todos, p) {
        Some(i) => {
            if !todos[i].sync_dirty {
                assert(p(once[i]));
                assert forall|j: int| 0 <= j < i implies !p(#[trigger] once[j]) by {
                    assert(once[j] == todos[j]);
                }
                assert(is_first(once, p, i));
                lemma_first_found(once, p, i);
                assert(applied(once, c, later) =~= once);
            }
        },
        None => {
            let n = todos.len() as int;
            assert(p(once[n]));
            assert forall|j: int| 0 <= j < n implies !p(#[trigger] once[j]) by {
                assert(once[j] == todos[j]);
            }
            assert(is_first(once, p, n));
            lemma_first_found(once, p, n);
            assert(applied(once, c, later) =~= once);
        },
    }
}

/// Whether the dates of a change are shown the same whatever the clock and
/// the time zone: neither is a full timestamp, and the creation date, where
/// the change brings one, has the shape of a date.
pub open spec fn plainly_dated(d: DeltaModel) -> bool {
    &&& d.due matches Some(raw) ==> instant_of(raw) is None
    &&& d.created matches Some(raw) ==> instant_of(raw) is None && looks_like_date(raw)
}

/// A change whose dates are plain is rendered in one way only.
pub proof fn lemma_plain_rendering(d: DeltaModel, c: IncomingModel, again: IncomingModel)
    requires
        plainly_dated(d),
        renders(d, c),
        renders(d, again),
    ensures
        c == again,
{
}

/// Applying a change twice, its dates rendered anew each time, leaves the
/// tasks as applying it once does, where the dates of the change are plain.
/// A full timestamp is left out because its rendering follows the time zone,
/// and a creation date without the shape of a date because today stands in
/// for it.
pub proof fn lemma_delta_idempotent(
    todos: Seq<TodoModel>,
    d: DeltaModel,
    c: IncomingModel,
    today: Seq<char>,
    again: IncomingModel,
    later: Seq<char>,
)
    requires
        plainly_dated(d),
        renders(d, c),
        renders(d, again),
    ensures
        applied(applied(todos, c, today), again, later) == applied(todos, c, today),
{
    lemma_plain_rendering(d, c, again);
    lemma_apply_idempotent(todos, c, today, later);
}

/// Whether `after` is what the tasks `before` become when the changes are
/// applied one after the other, each with its dates rendered for display.
pub open spec fn drained(
    before: Seq<TodoModel>,
    deltas: Seq<DeltaModel>,
    after: Seq<TodoModel>,
) -> bool
    decreases deltas.len(),
{
    if deltas.len() == 0 {
        after == before
    } else {
        exists|mid: Seq<TodoModel>, c: IncomingModel, clock: Clock|
            drained(before, deltas.drop_last(), mid) && renders(deltas.last(), c)
                && #[trigger] applied(mid, c, today_shown(clock)) == after
    }
}

} // verus!
