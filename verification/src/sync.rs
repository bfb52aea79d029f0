//! Full two-way reconciliation of one project with its remote board.
//!
//! The cards of the board's three lists make a snapshot, keyed by card id.
//! Pulling overwrites or adopts a local task for every card of the snapshot,
//! dirty or not: a full reconciliation is the user's explicit override.
//! Pushing then plans one request for each local difference; the caller
//! carries the requests to the board and hands back each answer.

use vstd::prelude::*;
use crate::clock::local_today;
use crate::clock::today_shown;
use crate::clock::Clock;
use crate::delta::adopted;
use crate::delta::is_card;
use crate::delta::overwritten;
use crate::delta::render;
use crate::delta::renders;
use crate::delta::Delta;
use crate::delta::DeltaModel;
use crate::delta::Incoming;
use crate::delta::IncomingModel;
use crate::planka::CallModel;
use crate::planka::CardModel;
use crate::planka::RemoteCall;
use crate::planka::RemoteReply;
use crate::planka::ReplyModel;
use crate::text::joined;
use crate::text::opt_same;
use crate::planka::ListsModel;
use crate::planka::PlankaCard;
use crate::planka::PlankaLists;
use crate::text::clone_opt;
use crate::find::first_where;
use crate::find::is_last;
use crate::find::last_where;
use crate::find::lemma_first_absent;
use crate::find::lemma_first_found;
use crate::find::lemma_first_where;
use crate::find::lemma_last_absent;
use crate::find::lemma_last_found;
use crate::text::opt_is;
use crate::find::position;
use crate::find::put;
use crate::todo::Todo;
use crate::todo::TodoModel;

verus! {

/// One card of the remote snapshot: the card as the board gave it, the list
/// it was found in, and whether that list makes it completed.
#[derive(Debug)]
pub struct RemoteEntry {
    pub card: PlankaCard,
    pub done: bool,
    pub list_id: String,
}

/// The model of [`RemoteEntry`].
pub struct EntryModel {
    pub card: CardModel,
    pub done: bool,
    pub list_id: Seq<char>,
}

impl View for RemoteEntry {
    type V = EntryModel;

    open spec fn view(&self) -> EntryModel {
        EntryModel { card: self.card@, done: self.done, list_id: self.list_id@ }
    }
}

impl DeepView for RemoteEntry {
    type V = EntryModel;

    open spec fn deep_view(&self) -> EntryModel {
        self@
    }
}

/// The cards of one list, each with the list and what it says of completion.
pub open spec fn tagged(cards: Seq<CardModel>, done: bool, list_id: Seq<char>) -> Seq<EntryModel> {
    cards.map_values(|card: CardModel| EntryModel { card, done, list_id })
}

/// A snapshot with one entry more: it takes the place of the entry with the
/// same card id where there is one, and comes last where there is none.
pub open spec fn with_entry(snapshot: Seq<EntryModel>, e: EntryModel) -> Seq<EntryModel> {
    put(snapshot, |x: EntryModel| x.card.id == e.card.id, e)
}

/// A snapshot with the given entries put in one after the other.
pub open spec fn with_entries(snapshot: Seq<EntryModel>, entries: Seq<EntryModel>) -> Seq<
    EntryModel,
>
    decreases entries.len(),
{
    if entries.len() == 0 {
        snapshot
    } else {
        with_entry(with_entries(snapshot, entries.drop_last()), entries.last())
    }
}

/// The cards of a list that was fetched, none where the fetch failed.
pub open spec fn fetched(cards: Option<Seq<CardModel>>) -> Seq<CardModel> {
    match cards {
        Some(c) => c,
        None => Seq::empty(),
    }
}

/// The snapshot of a board: the cards of its To Do, Doing and Done lists, in
/// that order. A card found in several lists is counted for the last of them.
/// Only the cards of the Done list are completed.
pub open spec fn snapshot_of(
    lists: ListsModel,
    todo: Option<Seq<CardModel>>,
    doing: Option<Seq<CardModel>>,
    done: Option<Seq<CardModel>>,
) -> Seq<EntryModel> {
    with_entries(
        with_entries(
            with_entries(Seq::empty(), tagged(fetched(todo), false, lists.todo_list_id)),
            tagged(fetched(doing), false, lists.doing_list_id),
        ),
        tagged(fetched(done), true, lists.done_list_id),
    )
}

/// No two entries are for the same card.
pub open spec fn distinct_cards(snapshot: Seq<EntryModel>) -> bool {
    forall|i: int, j: int|
        0 <= i < j < snapshot.len() ==> (#[trigger] snapshot[i]).card.id != (
        #[trigger] snapshot[j]).card.id
}

/// Putting an entry into a snapshot keeps its cards distinct.
pub proof fn lemma_with_entry_distinct(snapshot: Seq<EntryModel>, e: EntryModel)
    requires
        distinct_cards(snapshot),
    ensures
        distinct_cards(with_entry(snapshot, e)),
{
    let same = |x: EntryModel| x.card.id == e.card.id;
    lemma_first_where(snapshot, same);
    let after = with_entry(snapshot, e);
    match first_where(snapshot, same) {
        Some(k) => {
            assert(same(snapshot[k]));
            assert forall|i: int, j: int| 0 <= i < j < after.len() implies (
            #[trigger] after[i]).card.id != (#[trigger] after[j]).card.id by {
                if i == k {
                    assert(snapshot[k].card.id != snapshot[j].card.id);
                } else if j == k {
                    assert(snapshot[i].card.id != snapshot[k].card.id);
                } else {
                    assert(snapshot[i].card.id != snapshot[j].card.id);
                }
            }
        },
        None => {
            assert forall|i: int, j: int| 0 <= i < j < after.len() implies (
            #[trigger] after[i]).card.id != (#[trigger] after[j]).card.id by {
                if j == snapshot.len() {
                    assert(!same(snapshot[i]));
                } else {
                    assert(snapshot[i].card.id != snapshot[j].card.id);
                }
            }
        },
    }
}

/// Putting entries into a snapshot keeps its cards distinct.
pub proof fn lemma_with_entries_distinct(snapshot: Seq<EntryModel>, entries: Seq<EntryModel>)
    requires
        distinct_cards(snapshot),
    ensures
        distinct_cards(with_entries(snapshot, entries)),
    decreases entries.len(),
{
    if entries.len() > 0 {
        lemma_with_entries_distinct(snapshot, entries.drop_last());
        lemma_with_entry_distinct(with_entries(snapshot, entries.drop_last()), entries.last());
    }
}

/// The position of the entry for a card in a snapshot.
pub fn find_entry(snapshot: &Vec<RemoteEntry>, card_id: &String) -> (r: Option<usize>)
    ensures
        position(r) == first_where(
            snapshot.deep_view(),
            |x: EntryModel| x.card.id == card_id@,
        ),
{
    let ghost p = |x: EntryModel| x.card.id == card_id@;
    let mut i: usize = 0;
    while i < snapshot.len()
        invariant
            i <= snapshot.len(),
            p == |x: EntryModel| x.card.id == card_id@,
            forall|j: int| 0 <= j < i ==> !p(#[trigger] snapshot.deep_view()[j]),
        decreases snapshot.len() - i,
    {
        if snapshot[i].card.id == *card_id {
            proof {
                assert(p(snapshot.deep_view()[i as int]));
                lemma_first_found(snapshot.deep_view(), p, i as int);
            }
            return Some(i);
        }
        i = i + 1;
    }
    proof {
        lemma_first_absent(snapshot.deep_view(), p);
    }
    None
}

/// Puts the cards of one list into a snapshot.
pub fn snapshot_add(
    snapshot: &mut Vec<RemoteEntry>,
    cards: &Vec<PlankaCard>,
    done: bool,
    list_id: &String,
)
    ensures
        final(snapshot).deep_view() == with_entries(
            old(snapshot).deep_view(),
            tagged(cards.deep_view(), done, list_id@),
        ),
{
    let ghost all = tagged(cards.deep_view(), done, list_id@);
    let mut i: usize = 0;
    assert(all.take(0) =~= Seq::empty());
    while i < cards.len()
        invariant
            i <= cards.len(),
            all == tagged(cards.deep_view(), done, list_id@),
            snapshot.deep_view() == with_entries(old(snapshot).deep_view(), all.take(i as int)),
        decreases cards.len() - i,
    {
        let e = RemoteEntry { card: cards[i].clone(), done, list_id: list_id.clone() };
        let ghost before = snapshot.deep_view();
        proof {
            assert(all.take(i + 1).drop_last() =~= all.take(i as int));
            assert(all.take(i + 1).last() == e@);
        }
        match find_entry(snapshot, &e.card.id) {
            Some(k) => {
                snapshot.set(k, e);
                assert(snapshot.deep_view() =~= before.update(k as int, e@));
            },
            None => {
                snapshot.push(e);
                assert(snapshot.deep_view() =~= before.push(e@));
            },
        }
        i = i + 1;
    }
    assert(all.take(i as int) =~= all);
}

/// The snapshot of a board from the cards of its three lists, each `None`
/// where the list could not be fetched.
pub fn remote_snapshot(
    lists: &PlankaLists,
    todo: &Option<Vec<PlankaCard>>,
    doing: &Option<Vec<PlankaCard>>,
    done: &Option<Vec<PlankaCard>>,
) -> (snapshot: Vec<RemoteEntry>)
    ensures
        snapshot.deep_view() == snapshot_of(
            lists@,
            todo.deep_view(),
            doing.deep_view(),
            done.deep_view(),
        ),
        distinct_cards(snapshot.deep_view()),
{
    let mut snapshot: Vec<RemoteEntry> = Vec::new();
    let ghost s0 = snapshot.deep_view();
    assert(s0 =~= Seq::empty());
    match todo {
        Some(cards) => snapshot_add(&mut snapshot, cards, false, &lists.todo_list_id),
        None => {
            assert(tagged(fetched(todo.deep_view()), false, lists@.todo_list_id) =~= Seq::empty());
        },
    }
    let ghost s1 = snapshot.deep_view();
    match doing {
        Some(cards) => snapshot_add(&mut snapshot, cards, false, &lists.doing_list_id),
        None => {
            assert(tagged(fetched(doing.deep_view()), false, lists@.doing_list_id)
                =~= Seq::empty());
        },
    }
    let ghost s2 = snapshot.deep_view();
    match done {
        Some(cards) => snapshot_add(&mut snapshot, cards, true, &lists.done_list_id),
        None => {
            assert(tagged(fetched(done.deep_view()), true, lists@.done_list_id) =~= Seq::empty());
        },
    }
    proof {
        lemma_with_entries_distinct(
            Seq::empty(),
            tagged(fetched(todo.deep_view()), false, lists@.todo_list_id),
        );
        lemma_with_entries_distinct(
            s1,
            tagged(fetched(doing.deep_view()), false, lists@.doing_list_id),
        );
        lemma_with_entries_distinct(
            s2,
            tagged(fetched(done.deep_view()), true, lists@.done_list_id),
        );
    }
    snapshot
}

/// An entry of a project's snapshot as a change for that project.
pub open spec fn entry_delta(project: Seq<char>, e: EntryModel) -> DeltaModel {
    DeltaModel {
        project,
        id: e.card.id,
        name: e.card.name,
        due: e.card.due,
        created: e.card.created,
        done: e.done,
        list_id: e.list_id,
    }
}

/// An entry of a project's snapshot as a change for that project.
pub fn entry_to_delta(project: &String, e: &RemoteEntry) -> (d: Delta)
    ensures
        d@ == entry_delta(project@, e@),
{
    Delta::Upsert {
        project: project.clone(),
        id: e.card.id.clone(),
        name: e.card.name.clone(),
        due: clone_opt(&e.card.due),
        created: clone_opt(&e.card.created),
        done: e.done,
        list_id: e.list_id.clone(),
    }
}

/// Whether `cs` are the entries of a project's snapshot, one for one, with
/// their dates rendered for display.
pub open spec fn renders_all(
    project: Seq<char>,
    snapshot: Seq<EntryModel>,
    cs: Seq<IncomingModel>,
) -> bool {
    &&& cs.len() == snapshot.len()
    &&& forall|i: int|
        0 <= i < snapshot.len() ==> renders(entry_delta(project, snapshot[i]), #[trigger] cs[i])
}

/// Renders the dates of every entry of a snapshot for display.
pub fn render_entries(project: &String, snapshot: &Vec<RemoteEntry>) -> (cs: Vec<Incoming>)
    ensures
        renders_all(project@, snapshot.deep_view(), cs.deep_view()),
{
    let mut cs: Vec<Incoming> = Vec::new();
    let mut i: usize = 0;
    while i < snapshot.len()
        invariant
            i <= snapshot.len(),
            cs.len() == i,
            forall|j: int|
                0 <= j < i ==> renders(
                    entry_delta(project@, snapshot.deep_view()[j]),
                    #[trigger] cs.deep_view()[j],
                ),
        decreases snapshot.len() - i,
    {
        let d = entry_to_delta(project, &snapshot[i]);
        let c = render(&d);
        let ghost before = cs.deep_view();
        cs.push(c);
        assert(cs.deep_view() =~= before.push(c@));
        i = i + 1;
    }
    cs
}

/// A task overwritten from the remote snapshot and tied to the board.
pub open spec fn pulled_over(t: TodoModel, c: IncomingModel, board_id: Seq<char>) -> TodoModel {
    TodoModel { planka_board_id: Some(board_id), ..overwritten(t, c) }
}

/// The task made for a card of the snapshot that has no local counterpart.
pub open spec fn pulled_new(c: IncomingModel, board_id: Seq<char>, today: Seq<char>) -> TodoModel {
    TodoModel { planka_board_id: Some(board_id), ..adopted(c, today) }
}

/// The tasks after one card of the snapshot is pulled. Its counterpart is
/// looked for among the first `known` tasks, those that were there before the
/// pull, and the last one found is overwritten, dirty or not. Without a
/// counterpart a task is appended.
pub open spec fn pulled_one(
    todos: Seq<TodoModel>,
    known: int,
    c: IncomingModel,
    board_id: Seq<char>,
    today: Seq<char>,
) -> Seq<TodoModel> {
    match last_where(todos.take(known), |t: TodoModel| is_card(t, c.project, c.id)) {
        Some(i) => todos.update(i, pulled_over(todos[i], c, board_id)),
        None => todos.push(pulled_new(c, board_id, today)),
    }
}

/// The tasks after the cards of a snapshot are pulled one after the other.
pub open spec fn pulled(
    todos: Seq<TodoModel>,
    known: int,
    cs: Seq<IncomingModel>,
    board_id: Seq<char>,
    today: Seq<char>,
) -> Seq<TodoModel>
    decreases cs.len(),
{
    if cs.len() == 0 {
        todos
    } else {
        pulled_one(
            pulled(todos, known, cs.drop_last(), board_id, today),
            known,
            cs.last(),
            board_id,
            today,
        )
    }
}

/// Pulling never removes a task.
pub proof fn lemma_pulled_len(
    todos: Seq<TodoModel>,
    known: int,
    cs: Seq<IncomingModel>,
    board_id: Seq<char>,
    today: Seq<char>,
)
    requires
        0 <= known <= todos.len(),
    ensures
        pulled(todos, known, cs, board_id, today).len() >= todos.len(),
        pulled(todos, known, cs, board_id, today).len() <= todos.len() + cs.len(),
    decreases cs.len(),
{
    if cs.len() > 0 {
        lemma_pulled_len(todos, known, cs.drop_last(), board_id, today);
    }
}

/// The position of the last of the first `known` tasks that is the
/// counterpart of a remote card.
fn find_known(todos: &Vec<Todo>, known: usize, project: &String, id: &String) -> (r: Option<usize>)
    requires
        known <= todos.len(),
    ensures
        position(r) == last_where(
            todos.deep_view().take(known as int),
            |t: TodoModel| is_card(t, project@, id@),
        ),
        r matches Some(i) ==> i < known,
{
    let ghost p = |t: TodoModel| is_card(t, project@, id@);
    let ghost s = todos.deep_view().take(known as int);
    let mut i: usize = known;
    while i > 0
        invariant
            i <= known <= todos.len(),
            s == todos.deep_view().take(known as int),
            p == |t: TodoModel| is_card(t, project@, id@),
            forall|j: int| i <= j < known ==> !p(#[trigger] s[j]),
        decreases i,
    {
        i = i - 1;
        assert(s[i as int] == todos[i as int]@);
        if todos[i].project == *project && opt_is(&todos[i].planka_card_id, id) {
            proof {
                assert(p(s[i as int]));
                assert(is_last(s, p, i as int));
                lemma_last_found(s, p, i as int);
            }
            return Some(i);
        }
    }
    proof {
        lemma_last_absent(s, p);
    }
    None
}

/// Pulls the cards of a snapshot, already rendered, into the tasks.
pub fn merge_remote(todos: &mut Vec<Todo>, cs: &Vec<Incoming>, board_id: &String, today: &String)
    ensures
        final(todos).deep_view() == pulled(
            old(todos).deep_view(),
            old(todos).len() as int,
            cs.deep_view(),
            board_id@,
            today@,
        ),
{
    let known = todos.len();
    let mut i: usize = 0;
    assert(cs.deep_view().take(0) =~= Seq::empty());
    while i < cs.len()
        invariant
            i <= cs.len(),
            known == old(todos).len(),
            known <= todos.len(),
            todos.deep_view() == pulled(
                old(todos).deep_view(),
                known as int,
                cs.deep_view().take(i as int),
                board_id@,
                today@,
            ),
        decreases cs.len() - i,
    {
        let c = &cs[i];
        let ghost before = todos.deep_view();
        proof {
            assert(cs.deep_view().take(i + 1).drop_last() =~= cs.deep_view().take(i as int));
            assert(cs.deep_view().take(i + 1).last() == c@);
        }
        match find_known(todos, known, &c.project, &c.id) {
            Some(k) => {
                let t = &mut todos[k];
                t.description = c.name.clone();
                t.done = c.done;
                t.due_date = clone_opt(&c.due);
                match &c.created {
                    Some(d) => {
                        t.created_date = d.clone();
                    },
                    None => {},
                }
                t.planka_list_id = Some(c.list_id.clone());
                t.planka_board_id = Some(board_id.clone());
                assert(todos.deep_view() =~= before.update(
                    k as int,
                    pulled_over(before[k as int], c@, board_id@),
                ));
            },
            None => {
                let created_date = match &c.created {
                    Some(d) => d.clone(),
                    None => today.clone(),
                };
                todos.push(
                    Todo {
                        description: c.name.clone(),
                        due_date: clone_opt(&c.due),
                        created_date,
                        done: c.done,
                        project: c.project.clone(),
                        planka_card_id: Some(c.id.clone()),
                        planka_list_id: Some(c.list_id.clone()),
                        planka_board_id: Some(board_id.clone()),
                        sync_dirty: false,
                    },
                );
                assert(todos.deep_view() =~= before.push(pulled_new(c@, board_id@, today@)));
            },
        }
        i = i + 1;
    }
    assert(cs.deep_view().take(i as int) =~= cs.deep_view());
}

/// Whether `after` is what the tasks `before` become when a project's snapshot
/// is pulled, with its dates rendered for display.
pub open spec fn pulls(
    before: Seq<TodoModel>,
    project: Seq<char>,
    lists: ListsModel,
    snapshot: Seq<EntryModel>,
    after: Seq<TodoModel>,
) -> bool {
    exists|cs: Seq<IncomingModel>, clock: Clock|
        renders_all(project, snapshot, cs) && #[trigger] pulled(
            before,
            before.len() as int,
            cs,
            lists.board_id,
            today_shown(clock),
        ) == after
}

/// Pulls a project's snapshot into the tasks.
pub fn pull(
    todos: &mut Vec<Todo>,
    project: &String,
    lists: &PlankaLists,
    snapshot: &Vec<RemoteEntry>,
)
    ensures
        pulls(
            old(todos).deep_view(),
            project@,
            lists@,
            snapshot.deep_view(),
            final(todos).deep_view(),
        ),
        final(todos).len() >= old(todos).len(),
{
    let cs = render_entries(project, snapshot);
    let today = local_today();
    let ghost clock = choose|clock: Clock| today@ == today_shown(clock);
    merge_remote(todos, &cs, &lists.board_id, &today);
    proof {
        assert(pulled(
            old(todos).deep_view(),
            old(todos).len() as int,
            cs.deep_view(),
            lists@.board_id,
            today_shown(clock),
        ) == todos.deep_view());
        lemma_pulled_len(
            old(todos).deep_view(),
            old(todos).len() as int,
            cs.deep_view(),
            lists@.board_id,
            today@,
        );
    }
}

/// The list that a task belongs in by its local state: Done where it is
/// completed, Doing where its list says so, else To Do.
pub open spec fn desired_list(t: TodoModel, lists: ListsModel) -> Seq<char> {
    if t.done {
        lists.done_list_id
    } else if t.planka_list_id == Some(lists.doing_list_id) {
        lists.doing_list_id
    } else {
        lists.todo_list_id
    }
}

/// The list that a task belongs in by its local state.
pub fn desired_list_of(t: &Todo, lists: &PlankaLists) -> (l: String)
    ensures
        l@ == desired_list(t@, lists@),
{
    if t.done {
        lists.done_list_id.clone()
    } else if opt_is(&t.planka_list_id, &lists.doing_list_id) {
        lists.doing_list_id.clone()
    } else {
        lists.todo_list_id.clone()
    }
}

/// One request of a push, and the position of the task that it is made for.
#[derive(Debug)]
pub struct PushStep {
    pub task: usize,
    pub call: RemoteCall,
}

/// The model of [`PushStep`].
pub struct StepModel {
    pub task: int,
    pub call: CallModel,
}

impl View for PushStep {
    type V = StepModel;

    open spec fn view(&self) -> StepModel {
        StepModel { task: self.task as int, call: self.call@ }
    }
}

impl DeepView for PushStep {
    type V = StepModel;

    open spec fn deep_view(&self) -> StepModel {
        self@
    }
}

/// The entry of a snapshot for a card.
pub open spec fn entry_of(snapshot: Seq<EntryModel>, card_id: Seq<char>) -> Option<EntryModel> {
    match first_where(snapshot, |x: EntryModel| x.card.id == card_id) {
        Some(i) => Some(snapshot[i]),
        None => None,
    }
}

/// The request that moves a linked task's card, where the snapshot does not
/// show the card in the list the task belongs in.
pub open spec fn move_step(
    i: int,
    t: TodoModel,
    card_id: Seq<char>,
    lists: ListsModel,
    snapshot: Seq<EntryModel>,
) -> Seq<StepModel> {
    let desired = desired_list(t, lists);
    let shown = match entry_of(snapshot, card_id) {
        Some(e) => Some(e.list_id),
        None => None,
    };
    if shown != Some(desired) {
        seq![StepModel { task: i, call: CallModel::MoveCard { card_id, list_id: desired } }]
    } else {
        Seq::empty()
    }
}

/// The request that updates a linked task's card, where the snapshot shows
/// the card with another name or due date. Only what differs is sent.
pub open spec fn update_step(
    i: int,
    t: TodoModel,
    card_id: Seq<char>,
    snapshot: Seq<EntryModel>,
) -> Seq<StepModel> {
    match entry_of(snapshot, card_id) {
        Some(e) => {
            let name_changed = e.card.name != t.description;
            let due_changed = e.card.due != t.due_date;
            if name_changed || due_changed {
                seq![
                    StepModel {
                        task: i,
                        call: CallModel::UpdateCard {
                            card_id,
                            name: if name_changed {
                                Some(t.description)
                            } else {
                                None
                            },
                            due: if due_changed {
                                t.due_date
                            } else {
                                None
                            },
                        },
                    },
                ]
            } else {
                Seq::empty()
            }
        },
        None => Seq::empty(),
    }
}

/// The requests that push one task of the project: a task without a card is
/// created in the list it belongs in; a linked task is moved and updated as
/// far as the snapshot differs from it.
pub open spec fn task_steps(
    i: int,
    t: TodoModel,
    lists: ListsModel,
    snapshot: Seq<EntryModel>,
) -> Seq<StepModel> {
    match t.planka_card_id {
        None => seq![
            StepModel {
                task: i,
                call: CallModel::CreateCard {
                    list_id: desired_list(t, lists),
                    name: t.description,
                    due: t.due_date,
                },
            },
        ],
        Some(card_id) => move_step(i, t, card_id, lists, snapshot) + update_step(
            i,
            t,
            card_id,
            snapshot,
        ),
    }
}

/// The requests that push the first `n` tasks, those of the project only, in
/// the order of the tasks.
pub open spec fn plan_upto(
    todos: Seq<TodoModel>,
    n: int,
    project: Seq<char>,
    lists: ListsModel,
    snapshot: Seq<EntryModel>,
) -> Seq<StepModel>
    decreases n,
{
    if n <= 0 {
        Seq::empty()
    } else {
        plan_upto(todos, n - 1, project, lists, snapshot) + if todos[n - 1].project == project {
            task_steps(n - 1, todos[n - 1], lists, snapshot)
        } else {
            Seq::empty()
        }
    }
}

/// The requests that push a project's local state to its board.
pub open spec fn push_plan(
    todos: Seq<TodoModel>,
    project: Seq<char>,
    lists: ListsModel,
    snapshot: Seq<EntryModel>,
) -> Seq<StepModel> {
    plan_upto(todos, todos.len() as int, project, lists, snapshot)
}

/// Plans the requests that push a project's local state to its board.
pub fn plan_push(
    todos: &Vec<Todo>,
    project: &String,
    lists: &PlankaLists,
    snapshot: &Vec<RemoteEntry>,
) -> (plan: Vec<PushStep>)
    ensures
        plan.deep_view() == push_plan(
            todos.deep_view(),
            project@,
            lists@,
            snapshot.deep_view(),
        ),
{
    let mut plan: Vec<PushStep> = Vec::new();
    let mut i: usize = 0;
    assert(plan.deep_view() =~= Seq::empty());
    while i < todos.len()
        invariant
            i <= todos.len(),
            plan.deep_view() == plan_upto(
                todos.deep_view(),
                i as int,
                project@,
                lists@,
                snapshot.deep_view(),
            ),
        decreases todos.len() - i,
    {
        let t = &todos[i];
        let ghost before = plan.deep_view();
        assert(todos.deep_view()[i as int] == t@);
        if t.project == *project {
            match &t.planka_card_id {
                None => {
                    let call = RemoteCall::CreateCard {
                        list_id: desired_list_of(t, lists),
                        name: t.description.clone(),
                        due: clone_opt(&t.due_date),
                    };
                    let step = PushStep { task: i, call };
                    plan.push(step);
                    assert(plan.deep_view() =~= before + seq![step@]);
                },
                Some(card_id) => {
                    let desired = desired_list_of(t, lists);
                    let found = find_entry(snapshot, card_id);
                    let in_place = match found {
                        Some(k) => snapshot[k].list_id == desired,
                        None => false,
                    };
                    if !in_place {
                        let step = PushStep {
                            task: i,
                            call: RemoteCall::MoveCard {
                                card_id: card_id.clone(),
                                list_id: desired,
                            },
                        };
                        let ghost b = plan.deep_view();
                        plan.push(step);
                        assert(plan.deep_view() =~= b + seq![step@]);
                    }
                    let ghost mid = plan.deep_view();
                    assert(mid =~= before + move_step(
                        i as int,
                        t@,
                        card_id@,
                        lists@,
                        snapshot.deep_view(),
                    ));
                    match found {
                        Some(k) => {
                            let e = &snapshot[k];
                            let name_changed = !(e.card.name == t.description);
                            let due_changed = !opt_same(&e.card.due, &t.due_date);
                            if name_changed || due_changed {
                                let step = PushStep {
                                    task: i,
                                    call: RemoteCall::UpdateCard {
                                        card_id: card_id.clone(),
                                        name: if name_changed {
                                            Some(t.description.clone())
                                        } else {
                                            None
                                        },
                                        due: if due_changed {
                                            clone_opt(&t.due_date)
                                        } else {
                                            None
                                        },
                                    },
                                };
                                plan.push(step);
                                assert(plan.deep_view() =~= mid + seq![step@]);
                            }
                        },
                        None => {},
                    }
                    assert(plan.deep_view() =~= before + task_steps(
                        i as int,
                        t@,
                        lists@,
                        snapshot.deep_view(),
                    ));
                },
            }
        } else {
            assert(plan.deep_view() =~= before + Seq::<StepModel>::empty());
        }
        i = i + 1;
    }
    plan
}

/// The tasks after the remote board answered one request of a push. A card
/// that was created is recorded on its task with its list and board; a card
/// that was moved, with its new list. Any other answer changes nothing.
pub open spec fn push_settled(
    todos: Seq<TodoModel>,
    step: StepModel,
    board_id: Seq<char>,
    reply: ReplyModel,
) -> Seq<TodoModel> {
    if 0 <= step.task < todos.len() {
        let t = todos[step.task];
        match (step.call, reply) {
            (CallModel::CreateCard { list_id, .. }, ReplyModel::Card(Ok(card_id))) => todos.update(
                step.task,
                TodoModel {
                    planka_card_id: Some(card_id),
                    planka_list_id: Some(list_id),
                    planka_board_id: Some(board_id),
                    ..t
                },
            ),
            (CallModel::MoveCard { list_id, .. }, ReplyModel::Done(Ok(_))) => todos.update(
                step.task,
                TodoModel { planka_list_id: Some(list_id), ..t },
            ),
            _ => todos,
        }
    } else {
        todos
    }
}

/// What the user is told when a request of a push fails: a create, a move
/// or an update that the board refused.
pub open spec fn push_failure(step: StepModel, reply: ReplyModel) -> Option<Seq<char>> {
    match (step.call, reply) {
        (CallModel::CreateCard { .. }, ReplyModel::Card(Err(e))) => Some(
            "Planka create card failed: "@ + e,
        ),
        (CallModel::MoveCard { .. }, ReplyModel::Done(Err(e))) => Some("Planka move failed: "@ + e),
        (CallModel::UpdateCard { .. }, ReplyModel::Done(Err(e))) => Some(
            "Planka update failed: "@ + e,
        ),
        _ => None,
    }
}

/// Whether the remote board did what a request of a push asked for.
pub open spec fn push_done(step: StepModel, reply: ReplyModel) -> bool {
    match (step.call, reply) {
        (CallModel::CreateCard { .. }, ReplyModel::Card(Ok(_))) => true,
        (CallModel::MoveCard { .. }, ReplyModel::Done(Ok(_))) => true,
        (CallModel::UpdateCard { .. }, ReplyModel::Done(Ok(_))) => true,
        _ => false,
    }
}

/// Whether the remote board did what a request of a push asked for.
pub fn is_push_done(step: &PushStep, reply: &RemoteReply) -> (r: bool)
    ensures
        r == push_done(step@, reply@),
{
    match (&step.call, reply) {
        (RemoteCall::CreateCard { .. }, RemoteReply::Card(Ok(_))) => true,
        (RemoteCall::MoveCard { .. }, RemoteReply::Done(Ok(_))) => true,
        (RemoteCall::UpdateCard { .. }, RemoteReply::Done(Ok(_))) => true,
        _ => false,
    }
}

/// Records the remote board's answer to one request of a push, and gives the
/// message for the user where the request failed.
pub fn settle_push(
    todos: &mut Vec<Todo>,
    step: &PushStep,
    board_id: &String,
    reply: RemoteReply,
) -> (message: Option<String>)
    ensures
        final(todos).deep_view() == push_settled(
            old(todos).deep_view(),
            step@,
            board_id@,
            reply@,
        ),
        message.deep_view() == push_failure(step@, reply@),
{
    let ghost before = todos.deep_view();
    match (&step.call, reply) {
        (RemoteCall::CreateCard { list_id, .. }, RemoteReply::Card(Ok(card_id))) => {
            if step.task < todos.len() {
                let t = &mut todos[step.task];
                t.planka_card_id = Some(card_id);
                t.planka_list_id = Some(list_id.clone());
                t.planka_board_id = Some(board_id.clone());
                assert(todos.deep_view() =~= push_settled(before, step@, board_id@, reply@));
            }
            None
        },
        (RemoteCall::CreateCard { .. }, RemoteReply::Card(Err(e))) => Some(
            joined("Planka create card failed: ", e.as_str()),
        ),
        (RemoteCall::MoveCard { list_id, .. }, RemoteReply::Done(Ok(_))) => {
            if step.task < todos.len() {
                let t = &mut todos[step.task];
                t.planka_list_id = Some(list_id.clone());
                assert(todos.deep_view() =~= push_settled(before, step@, board_id@, reply@));
            }
            None
        },
        (RemoteCall::MoveCard { .. }, RemoteReply::Done(Err(e))) => Some(
            joined("Planka move failed: ", e.as_str()),
        ),
        (RemoteCall::UpdateCard { .. }, RemoteReply::Done(Err(e))) => Some(
            joined("Planka update failed: ", e.as_str()),
        ),
        _ => None,
    }
}

/// The changes that one round of polling reports for a board: one for every
/// card of its To Do, Doing and Done lists, in that order. Only the cards of
/// the Done list are completed.
pub open spec fn polled(
    board_name: Seq<char>,
    lists: ListsModel,
    todo: Option<Seq<CardModel>>,
    doing: Option<Seq<CardModel>>,
    done: Option<Seq<CardModel>>,
) -> Seq<DeltaModel> {
    (tagged(fetched(todo), false, lists.todo_list_id) + tagged(
        fetched(doing),
        false,
        lists.doing_list_id,
    ) + tagged(fetched(done), true, lists.done_list_id)).map_values(
        |e: EntryModel| entry_delta(board_name, e),
    )
}

/// Appends the changes for the cards of one list.
fn list_deltas(
    out: &mut Vec<Delta>,
    board_name: &String,
    cards: &Option<Vec<PlankaCard>>,
    done: bool,
    list_id: &String,
)
    ensures
        final(out).deep_view() == old(out).deep_view() + tagged(
            fetched(cards.deep_view()),
            done,
            list_id@,
        ).map_values(|e: EntryModel| entry_delta(board_name@, e)),
{
    let ghost all = tagged(fetched(cards.deep_view()), done, list_id@).map_values(
        |e: EntryModel| entry_delta(board_name@, e),
    );
    match cards {
        Some(cards) => {
            let mut i: usize = 0;
            assert(out.deep_view() =~= old(out).deep_view() + all.take(0));
            while i < cards.len()
                invariant
                    i <= cards.len(),
                    all.len() == cards.len(),
                    all == tagged(cards.deep_view(), done, list_id@).map_values(
                        |e: EntryModel| entry_delta(board_name@, e),
                    ),
                    out.deep_view() == old(out).deep_view() + all.take(i as int),
                decreases cards.len() - i,
            {
                let c = &cards[i];
                let d = Delta::Upsert {
                    project: board_name.clone(),
                    id: c.id.clone(),
                    name: c.name.clone(),
                    due: clone_opt(&c.due),
                    created: clone_opt(&c.created),
                    done,
                    list_id: list_id.clone(),
                };
                let ghost before = out.deep_view();
                out.push(d);
                assert(all[i as int] == d@);
                assert(out.deep_view() =~= before.push(d@));
                assert(all.take(i + 1) =~= all.take(i as int).push(d@));
                assert(out.deep_view() =~= old(out).deep_view() + all.take(i + 1));
                i = i + 1;
            }
            assert(all.take(i as int) =~= all);
        },
        None => {
            assert(out.deep_view() =~= old(out).deep_view() + all);
        },
    }
}

/// The changes that one round of polling reports for a board, from the cards
/// of its three lists, each `None` where the list could not be fetched.
pub fn board_deltas(
    board_name: &String,
    lists: &PlankaLists,
    todo: &Option<Vec<PlankaCard>>,
    doing: &Option<Vec<PlankaCard>>,
    done: &Option<Vec<PlankaCard>>,
) -> (deltas: Vec<Delta>)
    ensures
        deltas.deep_view() == polled(
            board_name@,
            lists@,
            todo.deep_view(),
            doing.deep_view(),
            done.deep_view(),
        ),
{
    let mut deltas: Vec<Delta> = Vec::new();
    assert(deltas.deep_view() =~= Seq::empty());
    list_deltas(&mut deltas, board_name, todo, false, &lists.todo_list_id);
    list_deltas(&mut deltas, board_name, doing, false, &lists.doing_list_id);
    list_deltas(&mut deltas, board_name, done, true, &lists.done_list_id);
    assert(deltas.deep_view() =~= polled(
        board_name@,
        lists@,
        todo.deep_view(),
        doing.deep_view(),
        done.deep_view(),
    ));
    deltas
}

/// The cards of a board's three lists as they come, To Do first, then Doing,
/// then Done. A card is completed where its list is the board's Done list. A
/// card that is found in several lists is listed once for each.
pub open spec fn listed(
    lists: ListsModel,
    todo: Option<Seq<CardModel>>,
    doing: Option<Seq<CardModel>>,
    done: Option<Seq<CardModel>>,
) -> Seq<EntryModel> {
    tagged(fetched(todo), lists.todo_list_id == lists.done_list_id, lists.todo_list_id) + tagged(
        fetched(doing),
        lists.doing_list_id == lists.done_list_id,
        lists.doing_list_id,
    ) + tagged(fetched(done), true, lists.done_list_id)
}

/// Appends the cards of one list.
fn list_entries(
    out: &mut Vec<RemoteEntry>,
    cards: &Option<Vec<PlankaCard>>,
    done: bool,
    list_id: &String,
)
    ensures
        final(out).deep_view() == old(out).deep_view() + tagged(
            fetched(cards.deep_view()),
            done,
            list_id@,
        ),
{
    let ghost all = tagged(fetched(cards.deep_view()), done, list_id@);
    match cards {
        Some(cards) => {
            let mut i: usize = 0;
            assert(out.deep_view() =~= old(out).deep_view() + all.take(0));
            while i < cards.len()
                invariant
                    i <= cards.len(),
                    all.len() == cards.len(),
                    all == tagged(cards.deep_view(), done, list_id@),
                    out.deep_view() == old(out).deep_view() + all.take(i as int),
                decreases cards.len() - i,
            {
                let e = RemoteEntry { card: cards[i].clone(), done, list_id: list_id.clone() };
                let ghost before = out.deep_view();
                out.push(e);
                assert(all[i as int] == e@);
                assert(out.deep_view() =~= before.push(e@));
                assert(all.take(i + 1) =~= all.take(i as int).push(e@));
                assert(out.deep_view() =~= old(out).deep_view() + all.take(i + 1));
                i = i + 1;
            }
            assert(all.take(i as int) =~= all);
        },
        None => {
            assert(out.deep_view() =~= old(out).deep_view() + all);
        },
    }
}

/// What a request for the cards of a list came to: the cards, or why they
/// did not come.
pub open spec fn cards_outcome(r: Result<Vec<PlankaCard>, String>) -> Result<
    Seq<CardModel>,
    Seq<char>,
> {
    match r {
        Ok(cards) => Ok(cards.deep_view()),
        Err(e) => Err(e@),
    }
}

/// The cards that came, if they did.
pub open spec fn came(r: Result<Seq<CardModel>, Seq<char>>) -> Option<Seq<CardModel>> {
    match r {
        Ok(cards) => Some(cards),
        Err(_) => None,
    }
}

/// Why the cards did not come, if they did not.
pub open spec fn why_not(r: Result<Seq<CardModel>, Seq<char>>) -> Option<Seq<char>> {
    match r {
        Ok(_) => None,
        Err(e) => Some(e),
    }
}

/// Takes what a request for cards came to apart: the cards that came, and
/// why they did not.
pub fn taken(r: Result<Vec<PlankaCard>, String>) -> (out: (Option<Vec<PlankaCard>>, Option<String>))
    ensures
        out.0.deep_view() == came(cards_outcome(r)),
        out.1.deep_view() == why_not(cards_outcome(r)),
{
    match r {
        Ok(cards) => (Some(cards), None),
        Err(e) => (None, Some(e)),
    }
}

/// The cards of a board's three lists as they come, each `None` where the
/// list could not be fetched.
pub fn list_all(
    lists: &PlankaLists,
    todo: &Option<Vec<PlankaCard>>,
    doing: &Option<Vec<PlankaCard>>,
    done: &Option<Vec<PlankaCard>>,
) -> (entries: Vec<RemoteEntry>)
    ensures
        entries.deep_view() == listed(
            lists@,
            todo.deep_view(),
            doing.deep_view(),
            done.deep_view(),
        ),
{
    let mut entries: Vec<RemoteEntry> = Vec::new();
    assert(entries.deep_view() =~= Seq::empty());
    let todo_is_done = lists.todo_list_id == lists.done_list_id;
    let doing_is_done = lists.doing_list_id == lists.done_list_id;
    list_entries(&mut entries, todo, todo_is_done, &lists.todo_list_id);
    list_entries(&mut entries, doing, doing_is_done, &lists.doing_list_id);
    list_entries(&mut entries, done, true, &lists.done_list_id);
    assert(entries.deep_view() =~= listed(
        lists@,
        todo.deep_view(),
        doing.deep_view(),
        done.deep_view(),
    ));
    entries
}

} // verus!
