//! The application state and what the user and the remote board do to it.

use vstd::prelude::*;
use crate::delta::applied;
use crate::delta::drained;
use crate::delta::apply_incoming;
use crate::delta::render;
use crate::delta::renders;
use crate::delta::Delta;
use crate::delta::IncomingModel;
use crate::clock::local_today;
use crate::clock::today_shown;
use crate::clock::Clock;
use crate::planka::BoardModel;
use crate::planka::ConfigModel;
use crate::planka::ListsModel;
use crate::planka::PlankaBoard;
use crate::planka::PlankaCardDetails;
use crate::planka::PlankaComment;
use crate::planka::PlankaConfig;
use crate::planka::PlankaLists;
use crate::planka::RemoteCall;
use crate::planka::RemoteReply;
use crate::planka::checked_config;
use crate::planka::config_outcome;
use crate::sync::plan_push;
use crate::sync::pull;
use crate::sync::pulls;
use crate::sync::push_failure;
use crate::sync::push_plan;
use crate::sync::push_settled;
use crate::sync::settle_push;
use crate::sync::PushStep;
use crate::sync::RemoteEntry;
use crate::find::first_where;
use crate::find::lemma_first_absent;
use crate::find::lemma_first_found;
use crate::find::lemma_first_where;
use crate::find::position;
use crate::find::put;
use crate::queue::advance;
use crate::queue::begin;
use crate::queue::flush_model;
use crate::queue::flush_step;
use crate::flush_laws::fresh;
use crate::queue::FlushSession;
use crate::queue::PendingOp;
use crate::queue::PendingOpModel;
use crate::todo::Todo;
use crate::todo::TodoModel;

verus! {

/// The field that the login dialogue is asking for.
#[derive(Clone, Copy, Debug, PartialEq, Eq, Structural)]
pub enum PlankaSetupStep {
    Url,
    Username,
    Password,
}

/// What the keyboard is bound to.
#[derive(Clone, Copy, Debug, PartialEq, Eq, Structural)]
pub enum InputMode {
    Normal,
    EditingDescription,
    EditingDueDate,
    Searching,
    EditingProject,
    EditingPlanka,
    CreatingBoard,
    CreatingProject,
    ViewingCard,
    CreatingComment,
    ControlCenter,
}

impl Default for InputMode {
    fn default() -> (r: Self)
        ensures
            r == InputMode::Normal,
    {
        InputMode::Normal
    }
}

/// The whole state of the application: the tasks, the queue of changes that
/// wait for the remote board, what is known of the board, and the dialogues.
pub struct App {
    pub todos: Vec<Todo>,
    pub projects: Vec<String>,
    pub current_project: String,
    pub input_project: String,
    pub input_board: String,
    /// The projects a new board can go to, each as its id and its name.
    pub create_board_projects: Vec<(String, String)>,
    pub create_board_project_index: usize,
    pub input_mode: InputMode,
    pub input_description: String,
    pub input_due_date: String,
    pub selected: usize,
    pub error_message: Option<String>,
    pub search_query: String,
    pub planka_config: Option<PlankaConfig>,
    pub planka_lists: Option<PlankaLists>,
    /// The lists of each board that was resolved, under the board's name. The
    /// first entry for a name is the one that counts.
    pub planka_lists_by_board: Vec<(String, PlankaLists)>,
    pub planka_boards: Vec<PlankaBoard>,
    pub input_planka: String,
    pub planka_setup: Option<PlankaSetupStep>,
    pub pending_ops: Vec<PendingOp>,
    pub control_center_index: usize,
    pub editing_index: Option<usize>,
    pub view_card: Option<PlankaCardDetails>,
    pub view_comments: Vec<PlankaComment>,
    pub input_comment: String,
    pub view_scroll: u16,
}

/// The model of [`App`].
pub struct AppModel {
    pub todos: Seq<TodoModel>,
    pub projects: Seq<Seq<char>>,
    pub current_project: Seq<char>,
    pub input_project: Seq<char>,
    pub input_board: Seq<char>,
    pub create_board_projects: Seq<(Seq<char>, Seq<char>)>,
    pub create_board_project_index: usize,
    pub input_mode: InputMode,
    pub input_description: Seq<char>,
    pub input_due_date: Seq<char>,
    pub selected: usize,
    pub error_message: Option<Seq<char>>,
    pub search_query: Seq<char>,
    pub planka_config: Option<ConfigModel>,
    pub planka_lists: Option<ListsModel>,
    pub planka_lists_by_board: Seq<(Seq<char>, ListsModel)>,
    pub planka_boards: Seq<BoardModel>,
    pub input_planka: Seq<char>,
    pub planka_setup: Option<PlankaSetupStep>,
    pub pending_ops: Seq<PendingOpModel>,
    pub control_center_index: usize,
    pub editing_index: Option<usize>,
    pub view_card: Option<PlankaCardDetails>,
    pub view_comments: Seq<PlankaComment>,
    pub input_comment: Seq<char>,
    pub view_scroll: u16,
}

impl View for App {
    type V = AppModel;

    open spec fn view(&self) -> AppModel {
        AppModel {
            todos: self.todos.deep_view(),
            projects: self.projects.deep_view(),
            current_project: self.current_project@,
            input_project: self.input_project@,
            input_board: self.input_board@,
            create_board_projects: self.create_board_projects.deep_view(),
            create_board_project_index: self.create_board_project_index,
            input_mode: self.input_mode,
            input_description: self.input_description@,
            input_due_date: self.input_due_date@,
            selected: self.selected,
            error_message: self.error_message.deep_view(),
            search_query: self.search_query@,
            planka_config: self.planka_config.deep_view(),
            planka_lists: self.planka_lists.deep_view(),
            planka_lists_by_board: self.planka_lists_by_board.deep_view(),
            planka_boards: self.planka_boards.deep_view(),
            input_planka: self.input_planka@,
            planka_setup: self.planka_setup,
            pending_ops: self.pending_ops.deep_view(),
            control_center_index: self.control_center_index,
            editing_index: self.editing_index,
            view_card: self.view_card,
            view_comments: self.view_comments@,
            input_comment: self.input_comment@,
            view_scroll: self.view_scroll,
        }
    }
}

/// The project that a new application starts in.
pub open spec fn default_current_project() -> Seq<char> {
    "Inbox"@
}

/// The projects that a new application knows.
pub open spec fn default_projects() -> Seq<Seq<char>> {
    seq!["Inbox"@]
}

/// The state of an application that has just started.
pub open spec fn started(config: Option<ConfigModel>, pending: Seq<PendingOpModel>) -> AppModel {
    AppModel {
        todos: Seq::empty(),
        projects: default_projects(),
        current_project: default_current_project(),
        input_project: Seq::empty(),
        input_board: Seq::empty(),
        create_board_projects: Seq::empty(),
        create_board_project_index: 0,
        input_mode: InputMode::Normal,
        input_description: Seq::empty(),
        input_due_date: Seq::empty(),
        selected: 0,
        error_message: None,
        search_query: Seq::empty(),
        planka_config: config,
        planka_lists: None,
        planka_lists_by_board: Seq::empty(),
        planka_boards: Seq::empty(),
        input_planka: Seq::empty(),
        planka_setup: None,
        pending_ops: pending,
        control_center_index: 0,
        editing_index: None,
        view_card: None,
        view_comments: Seq::empty(),
        input_comment: Seq::empty(),
        view_scroll: 0,
    }
}

impl Default for App {
    /// An application that has just started and found nothing on disk.
    fn default() -> (app: App)
        ensures
            app@ == started(None, Seq::empty()),
    {
        let app = App::new(None, Vec::new());
        assert(app@.pending_ops =~= Seq::empty());
        app
    }
}

impl App {
    /// An application that has just started, with the remote configuration
    /// and the queue that were found on disk.
    pub fn new(planka_config: Option<PlankaConfig>, pending_ops: Vec<PendingOp>) -> (app: App)
        ensures
            app@ == started(planka_config.deep_view(), pending_ops.deep_view()),
    {
        let mut projects: Vec<String> = Vec::new();
        projects.push("Inbox".to_owned());
        let app = App {
            todos: Vec::new(),
            projects,
            current_project: "Inbox".to_owned(),
            input_project: String::new(),
            input_board: String::new(),
            create_board_projects: Vec::new(),
            create_board_project_index: 0,
            input_mode: InputMode::Normal,
            input_description: String::new(),
            input_due_date: String::new(),
            selected: 0,
            error_message: None,
            search_query: String::new(),
            planka_config,
            planka_lists: None,
            planka_lists_by_board: Vec::new(),
            planka_boards: Vec::new(),
            input_planka: String::new(),
            planka_setup: None,
            pending_ops,
            control_center_index: 0,
            editing_index: None,
            view_card: None,
            view_comments: Vec::new(),
            input_comment: String::new(),
            view_scroll: 0,
        };
        assert(app@.todos =~= Seq::empty());
        assert(app@.projects =~= default_projects());
        assert(app@.create_board_projects =~= Seq::empty());
        assert(app@.planka_lists_by_board =~= Seq::empty());
        assert(app@.planka_boards =~= Seq::empty());
        assert(app@.view_comments =~= Seq::empty());
        app
    }

    /// Appends a change to the queue. The caller then writes the queue to
    /// disk.
    pub fn enqueue_op(&mut self, op: PendingOp)
        ensures
            final(self)@ == (AppModel {
                pending_ops: old(self)@.pending_ops.push(op@),
                ..old(self)@
            }),
    {
        let ghost before = self.pending_ops.deep_view();
        self.pending_ops.push(op);
        assert(self.pending_ops.deep_view() =~= before.push(op@));
    }

    /// The number of changes that wait for the remote board.
    pub fn pending_ops_len(&self) -> (n: usize)
        ensures
            n == self@.pending_ops.len(),
    {
        self.pending_ops.len()
    }

    /// Begins a flush of the queue as it stands. `online` says whether a
    /// session with the remote board is open. With an empty queue or without
    /// a session there is nothing to flush, and the queue stays as it is.
    pub fn begin_flush(&self, online: bool) -> (session: Option<FlushSession>)
        ensures
            session is None <==> self@.pending_ops.len() == 0 || !online,
            session matches Some(s) ==> flush_model(self@.todos, self@.pending_ops, s) == fresh(
                self@.todos,
                self@.pending_ops,
            ),
    {
        if self.pending_ops.len() == 0 || !online {
            None
        } else {
            Some(begin(&self.pending_ops))
        }
    }

    /// One step of a flush of the queue. Call it first with no answer, then
    /// with the remote board's answer to each request it gave, until it gives
    /// none. What a step does is [`flush_step`].
    pub fn process_pending_ops_tick(
        &mut self,
        session: &mut FlushSession,
        reply: Option<RemoteReply>,
    ) -> (call: Option<RemoteCall>)
        ensures
            (
                flush_model(final(self)@.todos, final(self)@.pending_ops, *final(session)),
                call.deep_view(),
            ) == flush_step(
                flush_model(old(self)@.todos, old(self)@.pending_ops, *old(session)),
                reply.deep_view(),
            ),
            final(self)@ == (AppModel {
                todos: final(self)@.todos,
                pending_ops: final(self)@.pending_ops,
                ..old(self)@
            }),
    {
        advance(&mut self.todos, &mut self.pending_ops, session, reply)
    }

    /// Applies one change that the remote board reported. The dates of the
    /// change are rendered for display first; the rest is [`applied`].
    pub fn apply_delta(&mut self, d: Delta)
        ensures
            exists|c: IncomingModel, clock: Clock|
                renders(d@, c) && #[trigger] applied(old(self)@.todos, c, today_shown(clock))
                    == final(self)@.todos,
            final(self)@ == (AppModel { todos: final(self)@.todos, ..old(self)@ }),
    {
        let c = render(&d);
        let today = local_today();
        let ghost cm = c@;
        let ghost clock = choose|clock: Clock| today@ == today_shown(clock);
        apply_incoming(&mut self.todos, c, today);
        assert(applied(old(self)@.todos, cm, today_shown(clock)) == self@.todos);
    }

    /// Applies the changes that the remote board reported, in the order in
    /// which they came.
    pub fn drain_inbound(&mut self, deltas: Vec<Delta>)
        ensures
            drained(old(self)@.todos, deltas.deep_view(), final(self)@.todos),
            final(self)@ == (AppModel { todos: final(self)@.todos, ..old(self)@ }),
    {
        let mut i: usize = 0;
        assert(deltas.deep_view().take(0) =~= Seq::empty());
        while i < deltas.len()
            invariant
                i <= deltas.len(),
                drained(old(self)@.todos, deltas.deep_view().take(i as int), self@.todos),
                self@ == (AppModel { todos: self@.todos, ..old(self)@ }),
            decreases deltas.len() - i,
        {
            let ghost mid = self@.todos;
            let c = render(&deltas[i]);
            let today = local_today();
            let ghost cm = c@;
            let ghost clock = choose|clock: Clock| today@ == today_shown(clock);
            apply_incoming(&mut self.todos, c, today);
            proof {
                let prefix = deltas.deep_view().take(i + 1);
                assert(prefix.drop_last() =~= deltas.deep_view().take(i as int));
                assert(prefix.last() == deltas[i as int]@);
                assert(applied(mid, cm, today_shown(clock)) == self@.todos);
            }
            i = i + 1;
        }
        assert(deltas.deep_view().take(i as int) =~= deltas.deep_view());
    }
}

/// Whether remembered lists are those of the given board.
pub open spec fn is_for(e: (Seq<char>, ListsModel), board: Seq<char>) -> bool {
    e.0 == board
}

/// Queue durability: a change that was queued is in the queue of an
/// application that starts again with the queue as it was written out, and
/// nothing else of the queue has changed.
pub proof fn lemma_queue_durability(
    a: AppModel,
    op: PendingOpModel,
    config: Option<ConfigModel>,
)
    ensures
        started(config, a.pending_ops.push(op)).pending_ops == a.pending_ops.push(op),
        started(config, a.pending_ops.push(op)).pending_ops.contains(op),
{
    assert(a.pending_ops.push(op)[a.pending_ops.len() as int] == op);
}

/// The lists that are remembered for a board.
pub open spec fn cached_lists(cache: Seq<(Seq<char>, ListsModel)>, board: Seq<char>) -> Option<
    ListsModel,
> {
    match first_where(cache, |e: (Seq<char>, ListsModel)| is_for(e, board)) {
        Some(i) => Some(cache[i].1),
        None => None,
    }
}

/// The remembered lists with those of one board put in.
pub open spec fn with_lists(
    cache: Seq<(Seq<char>, ListsModel)>,
    board: Seq<char>,
    lists: ListsModel,
) -> Seq<(Seq<char>, ListsModel)> {
    put(cache, |e: (Seq<char>, ListsModel)| is_for(e, board), (board, lists))
}

/// What is remembered for a board is what was put in last; the other boards
/// keep theirs.
pub proof fn lemma_remembered(
    cache: Seq<(Seq<char>, ListsModel)>,
    board: Seq<char>,
    lists: ListsModel,
    other: Seq<char>,
)
    ensures
        cached_lists(with_lists(cache, board, lists), other) == if other == board {
            Some(lists)
        } else {
            cached_lists(cache, other)
        },
{
    let same = |e: (Seq<char>, ListsModel)| is_for(e, board);
    let wanted = |e: (Seq<char>, ListsModel)| is_for(e, other);
    let after = with_lists(cache, board, lists);
    lemma_first_where(cache, same);
    lemma_first_where(cache, wanted);
    match first_where(cache, same) {
        Some(i) => {
            assert(same(cache[i]));
            assert(same == |e: (Seq<char>, ListsModel)| is_for(e, board));

            assert(put(cache, same, (board, lists)) == cache.update(i, (board, lists)));
            assert(after == cache.update(i, (board, lists)));
            assert(after.len() == cache.len());
            if other == board {
                assert forall|j: int| 0 <= j < i implies !wanted(#[trigger] after[j]) by {
                    assert(!same(cache[j]));
                }
                assert(wanted(after[i]));
                lemma_first_found(after, wanted, i);
            } else {
                match first_where(cache, wanted) {
                    Some(k) => {
                        assert(wanted(cache[k]));
                        assert(k != i);
                        assert forall|j: int| 0 <= j < k implies !wanted(#[trigger] after[j]) by {
                            if j != i {
                                assert(!wanted(cache[j]));
                            }
                        }
                        assert(wanted(after[k]));
                        lemma_first_found(after, wanted, k);
                    },
                    None => {
                        assert forall|j: int| 0 <= j < after.len() implies !wanted(
                            #[trigger] after[j],
                        ) by {
                            if j != i {
                                assert(!wanted(cache[j]));
                            }
                        }
                        lemma_first_absent(after, wanted);
                    },
                }
            }
        },
        None => {
            let n = cache.len() as int;
            assert(after == cache.push((board, lists)));
            if other == board {
                assert forall|j: int| 0 <= j < n implies !wanted(#[trigger] after[j]) by {
                    assert(!same(cache[j]));
                }
                assert(wanted(after[n]));
                lemma_first_found(after, wanted, n);
            } else {
                match first_where(cache, wanted) {
                    Some(k) => {
                        assert(wanted(cache[k]));
                        assert forall|j: int| 0 <= j < k implies !wanted(#[trigger] after[j]) by {
                            assert(!wanted(cache[j]));
                        }
                        assert(wanted(after[k]));
                        lemma_first_found(after, wanted, k);
                    },
                    None => {
                        assert forall|j: int| 0 <= j < after.len() implies !wanted(
                            #[trigger] after[j],
                        ) by {
                            if j < n {
                                assert(!wanted(cache[j]));
                            }
                        }
                        lemma_first_absent(after, wanted);
                    },
                }
            }
        },
    }
}

/// The position of the lists that are remembered for a board.
fn find_lists(cache: &Vec<(String, PlankaLists)>, board: &String) -> (r: Option<usize>)
    ensures
        position(r) == first_where(
            cache.deep_view(),
            |e: (Seq<char>, ListsModel)| is_for(e, board@),
        ),
{
    let ghost p = |e: (Seq<char>, ListsModel)| is_for(e, board@);
    let mut i: usize = 0;
    while i < cache.len()
        invariant
            i <= cache.len(),
            p == |e: (Seq<char>, ListsModel)| is_for(e, board@),
            forall|j: int| 0 <= j < i ==> !p(#[trigger] cache.deep_view()[j]),
        decreases cache.len() - i,
    {
        assert(cache.deep_view()[i as int] == (cache[i as int].0@, cache[i as int].1@));
        if cache[i].0 == *board {
            proof {
                assert(p(cache.deep_view()[i as int]));
                lemma_first_found(cache.deep_view(), p, i as int);
            }
            return Some(i);
        }
        i = i + 1;
    }
    proof {
        lemma_first_absent(cache.deep_view(), p);
    }
    None
}

/// What a session is opened with, or why none can be: without a
/// configuration the user is sent to the login, and a configuration without a
/// server address is refused.
pub open spec fn session_config(config: Option<ConfigModel>) -> Result<ConfigModel, Seq<char>> {
    match config {
        None => Err("Planka config not set. Press 'L' to login/setup."@),
        Some(c) => checked_config(c),
    }
}

/// The application at the end of a reconciliation of all projects: the
/// user is told of the success, unless a request failed and the user was
/// told of that.
pub open spec fn sync_finished(a: AppModel, failed: bool) -> AppModel {
    if failed {
        a
    } else {
        AppModel { error_message: Some("Synced all projects from Planka"@), ..a }
    }
}

/// The names of the boards, in their order.
pub open spec fn board_names(boards: Seq<BoardModel>) -> Seq<Seq<char>> {
    boards.map_values(|b: BoardModel| b.name)
}

/// The application after the boards of the remote service were fetched. An
/// empty answer changes nothing. Else the boards become the projects, and
/// where the current project is not among them the first one becomes
/// current.
pub open spec fn boards_adopted(a: AppModel, boards: Seq<BoardModel>) -> AppModel {
    if boards.len() == 0 {
        a
    } else if board_names(boards).contains(a.current_project) {
        AppModel { planka_boards: boards, projects: board_names(boards), ..a }
    } else {
        AppModel {
            planka_boards: boards,
            projects: board_names(boards),
            current_project: boards[0].name,
            selected: 0,
            ..a
        }
    }
}

/// The names of the boards, in their order.
pub fn names_of(boards: &Vec<PlankaBoard>) -> (names: Vec<String>)
    ensures
        names.deep_view() == board_names(boards.deep_view()),
{
    let mut names: Vec<String> = Vec::new();
    let mut i: usize = 0;
    while i < boards.len()
        invariant
            i <= boards.len(),
            names.len() == i,
            forall|j: int| 0 <= j < i ==> names[j]@ == boards[j]@.name,
        decreases boards.len() - i,
    {
        names.push(boards[i].name.clone());
        i = i + 1;
    }
    assert(names.deep_view() =~= board_names(boards.deep_view()));
    names
}

/// Whether a name is among the given ones.
pub fn has_name(names: &Vec<String>, name: &String) -> (r: bool)
    ensures
        r == names.deep_view().contains(name@),
{
    let mut i: usize = 0;
    while i < names.len()
        invariant
            i <= names.len(),
            forall|j: int| 0 <= j < i ==> names.deep_view()[j] != name@,
        decreases names.len() - i,
    {
        if names[i] == *name {
            assert(names.deep_view()[i as int] == name@);
            return true;
        }
        i = i + 1;
    }
    false
}

impl App {
    /// The lists that are remembered for a board.
    pub fn lists_for(&self, board: &String) -> (r: Option<PlankaLists>)
        ensures
            r.deep_view() == cached_lists(self@.planka_lists_by_board, board@),
    {
        match find_lists(&self.planka_lists_by_board, board) {
            Some(i) => {
                assert(self@.planka_lists_by_board[i as int] == (
                    self.planka_lists_by_board[i as int].0@,
                    self.planka_lists_by_board[i as int].1@,
                ));
                Some(self.planka_lists_by_board[i].1.clone())
            },
            None => None,
        }
    }

    /// Remembers the lists of a board. They also become the lists at hand
    /// where the board is the current project.
    pub fn remember_lists(&mut self, board: &String, lists: PlankaLists)
        ensures
            final(self)@ == (AppModel {
                planka_lists_by_board: with_lists(
                    old(self)@.planka_lists_by_board,
                    board@,
                    lists@,
                ),
                planka_lists: if board@ == old(self)@.current_project {
                    Some(lists@)
                } else {
                    old(self)@.planka_lists
                },
                ..old(self)@
            }),
    {
        let ghost before = self.planka_lists_by_board.deep_view();
        if *board == self.current_project {
            self.planka_lists = Some(lists.clone());
        }
        match find_lists(&self.planka_lists_by_board, board) {
            Some(i) => {
                self.planka_lists_by_board.set(i, (board.clone(), lists));
                assert(self.planka_lists_by_board.deep_view() =~= before.update(
                    i as int,
                    (board@, lists@),
                ));
            },
            None => {
                self.planka_lists_by_board.push((board.clone(), lists));
                assert(self.planka_lists_by_board.deep_view() =~= before.push((board@, lists@)));
            },
        }
    }

    /// The configuration to open a session with, or the message for the user
    /// where none can be opened.
    pub fn ensure_planka_client(&self) -> (r: Result<PlankaConfig, String>)
        ensures
            config_outcome(r) == session_config(self@.planka_config),
    {
        match &self.planka_config {
            None => Err("Planka config not set. Press 'L' to login/setup.".to_owned()),
            Some(c) => c.clone().checked(),
        }
    }

    /// Keeps the configuration of the session that was opened, which holds
    /// the token where a login was made.
    pub fn session_opened(&mut self, config: PlankaConfig)
        ensures
            final(self)@ == (AppModel { planka_config: Some(config@), ..old(self)@ }),
    {
        self.planka_config = Some(config);
    }

    /// Tells the user something.
    pub fn report(&mut self, message: String)
        ensures
            final(self)@ == (AppModel { error_message: Some(message@), ..old(self)@ }),
    {
        self.error_message = Some(message);
    }

    /// Takes over the boards that the remote service holds.
    pub fn adopt_boards(&mut self, boards: Vec<PlankaBoard>)
        ensures
            final(self)@ == boards_adopted(old(self)@, boards.deep_view()),
    {
        if boards.len() > 0 {
            let names = names_of(&boards);
            if !has_name(&names, &self.current_project) {
                assert(boards.deep_view()[0] == boards[0]@);
                self.current_project = boards[0].name.clone();
                self.selected = 0;
            }
            self.planka_boards = boards;
            self.projects = names;
        }
    }

    /// Pulls a project's remote snapshot into the tasks.
    pub fn sync_pull(&mut self, project: &String, lists: &PlankaLists, snapshot: &Vec<RemoteEntry>)
        ensures
            pulls(old(self)@.todos, project@, lists@, snapshot.deep_view(), final(self)@.todos),
            final(self)@ == (AppModel { todos: final(self)@.todos, ..old(self)@ }),
    {
        pull(&mut self.todos, project, lists, snapshot);
    }

    /// Plans the requests that push a project's local state to its board.
    pub fn push_plan(
        &self,
        project: &String,
        lists: &PlankaLists,
        snapshot: &Vec<RemoteEntry>,
    ) -> (plan: Vec<PushStep>)
        ensures
            plan.deep_view() == push_plan(self@.todos, project@, lists@, snapshot.deep_view()),
    {
        plan_push(&self.todos, project, lists, snapshot)
    }

    /// Records the remote board's answer to one request of a push. A request
    /// that failed is told to the user and is not queued.
    pub fn push_settle(&mut self, step: &PushStep, lists: &PlankaLists, reply: RemoteReply)
        ensures
            final(self)@ == (AppModel {
                todos: push_settled(old(self)@.todos, step@, lists@.board_id, reply@),
                error_message: match push_failure(step@, reply@) {
                    Some(m) => Some(m),
                    None => old(self)@.error_message,
                },
                ..old(self)@
            }),
    {
        match settle_push(&mut self.todos, step, &lists.board_id, reply) {
            Some(m) => {
                self.error_message = Some(m);
            },
            None => {},
        }
    }

    /// Ends a reconciliation of all projects. `failed` says whether any of
    /// its requests failed; then what the user was told of it stands.
    pub fn finish_sync_all(&mut self, failed: bool)
        ensures
            final(self)@ == sync_finished(old(self)@, failed),
    {
        if !failed {
            self.error_message = Some("Synced all projects from Planka".to_owned());
        }
    }
}

} // verus!
