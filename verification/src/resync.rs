//! The full two-way reconciliation of all projects as a conversation.
//!
//! The library decides what is asked of the remote board and in which order:
//! the boards, then for each board its lists, unless they are remembered, the
//! cards of its three lists, and one request for each local difference. The
//! caller carries each request to the board and comes back with what
//! happened. A list that cannot be fetched counts as empty. A board whose
//! lists cannot be resolved is passed over. Whatever fails is told to the
//! user, and only a reconciliation in which nothing failed ends with the
//! message of success.

use vstd::prelude::*;
use crate::actions::lists_answered;
use crate::app::board_names;
use crate::app::boards_adopted;
use crate::app::cached_lists;
use crate::app::names_of;
use crate::app::sync_finished;
use crate::clock::today_shown;
use crate::clock::Clock;
use crate::app::App;
use crate::app::AppModel;
use crate::delta::IncomingModel;
use crate::planka::BoardModel;
use crate::planka::CallModel;
use crate::planka::CardModel;
use crate::planka::ListsModel;
use crate::planka::PlankaBoard;
use crate::planka::PlankaCard;
use crate::planka::PlankaLists;
use crate::planka::RemoteCall;
use crate::planka::RemoteReply;
use crate::planka::ReplyModel;
use crate::sync::is_push_done;
use crate::sync::plan_push;
use crate::sync::pulled;
use crate::sync::pulls;
use crate::sync::push_done;
use crate::sync::push_failure;
use crate::sync::push_plan;
use crate::sync::push_settled;
use crate::sync::remote_snapshot;
use crate::sync::renders_all;
use crate::sync::snapshot_of;
use crate::sync::PushStep;
use crate::sync::StepModel;

verus! {

/// What a reconciliation asks of the remote board.
#[derive(Debug)]
pub enum SyncCall {
    /// The boards of the service.
    FetchBoards,
    /// The cards of a list.
    FetchCards { list_id: String },
    /// The lists of a board, or a change to a card.
    Remote(RemoteCall),
}

/// The model of [`SyncCall`].
pub enum SyncCallModel {
    FetchBoards,
    FetchCards { list_id: Seq<char> },
    Remote(CallModel),
}

impl View for SyncCall {
    type V = SyncCallModel;

    open spec fn view(&self) -> SyncCallModel {
        match self {
            SyncCall::FetchBoards => SyncCallModel::FetchBoards,
            SyncCall::FetchCards { list_id } => SyncCallModel::FetchCards { list_id: list_id@ },
            SyncCall::Remote(call) => SyncCallModel::Remote(call@),
        }
    }
}

impl DeepView for SyncCall {
    type V = SyncCallModel;

    open spec fn deep_view(&self) -> SyncCallModel {
        self@
    }
}

/// What happened to the request of a reconciliation that was out.
#[derive(Debug)]
pub enum SyncEvent {
    /// The reconciliation begins; a session with the remote board is open,
    /// or it is not, and why.
    Begin { online: Result<(), String> },
    /// The boards came, or did not, and why.
    Boards(Result<Vec<PlankaBoard>, String>),
    /// The cards of the list came, or did not, and why.
    Cards(Result<Vec<PlankaCard>, String>),
    /// The remote board answered a request for lists or for a change.
    Reply(RemoteReply),
}

/// The model of [`SyncEvent`].
pub enum SyncEventModel {
    Begin { online: Result<(), Seq<char>> },
    Boards(Result<Seq<BoardModel>, Seq<char>>),
    Cards(Result<Seq<CardModel>, Seq<char>>),
    Reply(ReplyModel),
}

impl View for SyncEvent {
    type V = SyncEventModel;

    open spec fn view(&self) -> SyncEventModel {
        match self {
            SyncEvent::Begin { online: Ok(_) } => SyncEventModel::Begin { online: Ok(()) },
            SyncEvent::Begin { online: Err(e) } => SyncEventModel::Begin { online: Err(e@) },
            SyncEvent::Boards(Ok(b)) => SyncEventModel::Boards(Ok(b.deep_view())),
            SyncEvent::Boards(Err(e)) => SyncEventModel::Boards(Err(e@)),
            SyncEvent::Cards(Ok(c)) => SyncEventModel::Cards(Ok(c.deep_view())),
            SyncEvent::Cards(Err(e)) => SyncEventModel::Cards(Err(e@)),
            SyncEvent::Reply(r) => SyncEventModel::Reply(r@),
        }
    }
}

impl DeepView for SyncEvent {
    type V = SyncEventModel;

    open spec fn deep_view(&self) -> SyncEventModel {
        self@
    }
}

/// Where a reconciliation stands with the board it is working on.
#[derive(Debug)]
pub enum SyncStage {
    /// It has not begun, or is over.
    Idle,
    /// The request for the boards is out.
    Boards,
    /// The request for the lists of the board is out.
    Lists,
    /// The request for the cards of the To Do list is out.
    Todo { lists: PlankaLists },
    /// The request for the cards of the Doing list is out.
    Doing { lists: PlankaLists, todo: Option<Vec<PlankaCard>> },
    /// The request for the cards of the Done list is out.
    Done { lists: PlankaLists, todo: Option<Vec<PlankaCard>>, doing: Option<Vec<PlankaCard>> },
    /// The board is pulled, and the request at position `at` of the push is
    /// out.
    Push { lists: PlankaLists, plan: Vec<PushStep>, at: usize },
}

/// The model of [`SyncStage`].
pub enum SyncStageModel {
    Idle,
    Boards,
    Lists,
    Todo { lists: ListsModel },
    Doing { lists: ListsModel, todo: Option<Seq<CardModel>> },
    Done { lists: ListsModel, todo: Option<Seq<CardModel>>, doing: Option<Seq<CardModel>> },
    Push { lists: ListsModel, plan: Seq<StepModel>, at: int },
}

impl View for SyncStage {
    type V = SyncStageModel;

    open spec fn view(&self) -> SyncStageModel {
        match self {
            SyncStage::Idle => SyncStageModel::Idle,
            SyncStage::Boards => SyncStageModel::Boards,
            SyncStage::Lists => SyncStageModel::Lists,
            SyncStage::Todo { lists } => SyncStageModel::Todo { lists: lists@ },
            SyncStage::Doing { lists, todo } => SyncStageModel::Doing {
                lists: lists@,
                todo: todo.deep_view(),
            },
            SyncStage::Done { lists, todo, doing } => SyncStageModel::Done {
                lists: lists@,
                todo: todo.deep_view(),
                doing: doing.deep_view(),
            },
            SyncStage::Push { lists, plan, at } => SyncStageModel::Push {
                lists: lists@,
                plan: plan.deep_view(),
                at: *at as int,
            },
        }
    }
}

/// One reconciliation of all projects: the boards it goes through, the one
/// it is working on, where it stands with it, and whether a request failed.
#[derive(Debug)]
pub struct SyncSession {
    pub boards: Vec<String>,
    pub next: usize,
    pub stage: SyncStage,
    pub failed: bool,
}

/// The application and the reconciliation that works on it.
pub struct SyncModel {
    pub app: AppModel,
    pub boards: Seq<Seq<char>>,
    pub next: int,
    pub stage: SyncStageModel,
    pub failed: bool,
}

/// The model of a reconciliation together with the application.
pub open spec fn sync_model(app: AppModel, session: SyncSession) -> SyncModel {
    SyncModel {
        app,
        boards: session.boards.deep_view(),
        next: session.next as int,
        stage: session.stage@,
        failed: session.failed,
    }
}

/// The reconciliation at its end.
pub open spec fn over(m: SyncModel) -> (SyncModel, Option<SyncCallModel>) {
    (
        SyncModel {
            app: sync_finished(m.app, m.failed),
            next: m.boards.len() as int,
            stage: SyncStageModel::Idle,
            ..m
        },
        None,
    )
}

/// The reconciliation turned to the board at position `k`: its lists are
/// asked for, or, where they are remembered, the cards of its To Do list.
/// Behind the last board the reconciliation is over.
pub open spec fn turned_to(m: SyncModel, k: int) -> (SyncModel, Option<SyncCallModel>) {
    if k < 0 || k >= m.boards.len() {
        over(m)
    } else {
        match cached_lists(m.app.planka_lists_by_board, m.boards[k]) {
            Some(lists) => (
                SyncModel { next: k, stage: SyncStageModel::Todo { lists }, ..m },
                Some(SyncCallModel::FetchCards { list_id: lists.todo_list_id }),
            ),
            None => (
                SyncModel { next: k, stage: SyncStageModel::Lists, ..m },
                Some(SyncCallModel::Remote(CallModel::ResolveLists { board_name: m.boards[k] })),
            ),
        }
    }
}

/// The reconciliation with the request at position `at` of the push sent
/// out. Behind the last request it turns to the next board.
pub open spec fn pushing(m: SyncModel, lists: ListsModel, plan: Seq<StepModel>, at: int) -> (
    SyncModel,
    Option<SyncCallModel>,
) {
    if 0 <= at < plan.len() {
        (
            SyncModel { stage: SyncStageModel::Push { lists, plan, at }, ..m },
            Some(SyncCallModel::Remote(plan[at].call)),
        )
    } else {
        turned_to(m, m.next + 1)
    }
}

/// The cards that came with an event, none where it brought none.
pub open spec fn cards_in(event: SyncEventModel) -> Option<Seq<CardModel>> {
    match event {
        SyncEventModel::Cards(Ok(c)) => Some(c),
        _ => None,
    }
}

/// The reconciliation after what was asked for did not come: it counts as
/// failed, and the user is told why where the reason is known.
pub open spec fn missed(m: SyncModel, why: Option<Seq<char>>) -> SyncModel {
    SyncModel {
        app: AppModel {
            error_message: match why {
                Some(e) => Some(e),
                None => m.app.error_message,
            },
            ..m.app
        },
        failed: true,
        ..m
    }
}

/// The reconciliation after the answer to a request for cards.
pub open spec fn received(m: SyncModel, event: SyncEventModel) -> SyncModel {
    match event {
        SyncEventModel::Cards(Ok(_)) => m,
        SyncEventModel::Cards(Err(e)) => missed(m, Some(e)),
        _ => missed(m, None),
    }
}

/// The application after the remote board answered one request of a push.
/// A failure is told to the user and is not queued.
pub open spec fn pushed(a: AppModel, step: StepModel, board_id: Seq<char>, reply: ReplyModel) -> AppModel {
    AppModel {
        todos: push_settled(a.todos, step, board_id, reply),
        error_message: match push_failure(step, reply) {
            Some(m) => Some(m),
            None => a.error_message,
        },
        ..a
    }
}

/// Whether `cs` are the cards that a step pulls, with their dates rendered
/// for display: those of the board's snapshot where the step is the one that
/// pulls, and none else.
pub open spec fn rendering(m: SyncModel, event: SyncEventModel, cs: Seq<IncomingModel>) -> bool {
    match m.stage {
        SyncStageModel::Done { lists, todo, doing } if 0 <= m.next < m.boards.len() => renders_all(
            m.boards[m.next],
            snapshot_of(lists, todo, doing, cards_in(event)),
            cs,
        ),
        _ => cs.len() == 0,
    }
}

/// One step of a reconciliation: what the event means, and which request
/// comes next. `None` as the next request ends the reconciliation. `cs` are
/// the cards that the step pulls, rendered, and `today` is today's date.
///
/// - It begins with a session: without one the user is told why, and it is
///   over at once.
/// - The boards that came become the projects; where none came, the user is
///   told why, the reconciliation counts as failed, and the boards at hand
///   are gone through.
/// - For each board the lists are asked for unless they are remembered. Where
///   they cannot be resolved, the user is told, the reconciliation counts as
///   failed, and the board is passed over.
/// - The cards of the three lists are asked for in turn; a list that did not
///   come counts as empty, the user is told why, and the reconciliation
///   counts as failed. Then the board is pulled and the push is planned.
/// - Each request of the push is sent and its answer recorded. An answer that
///   is not the success that the request calls for makes the reconciliation
///   count as failed.
pub open spec fn sync_stepped(
    m: SyncModel,
    event: SyncEventModel,
    cs: Seq<IncomingModel>,
    today: Seq<char>,
) -> (SyncModel, Option<SyncCallModel>) {
    match m.stage {
        SyncStageModel::Idle => match event {
            SyncEventModel::Begin { online: Ok(_) } => (
                SyncModel { stage: SyncStageModel::Boards, failed: false, ..m },
                Some(SyncCallModel::FetchBoards),
            ),
            SyncEventModel::Begin { online: Err(e) } => (
                SyncModel {
                    app: AppModel { error_message: Some(e), ..m.app },
                    failed: true,
                    ..m
                },
                None,
            ),
            _ => (m, None),
        },
        SyncStageModel::Boards => {
            let n = match event {
                SyncEventModel::Boards(Ok(boards)) => SyncModel {
                    app: boards_adopted(m.app, boards),
                    ..m
                },
                SyncEventModel::Boards(Err(e)) => missed(m, Some(e)),
                _ => missed(m, None),
            };
            turned_to(SyncModel { boards: board_names(n.app.planka_boards), ..n }, 0)
        },
        _ => if m.next < 0 || m.next >= m.boards.len() {
            over(m)
        } else {
            let board = m.boards[m.next];
            match m.stage {
                SyncStageModel::Lists => match event {
                    SyncEventModel::Reply(ReplyModel::Lists(Ok(lists))) => (
                        SyncModel {
                            app: lists_answered(m.app, board, ReplyModel::Lists(Ok(lists)), true),
                            stage: SyncStageModel::Todo { lists },
                            ..m
                        },
                        Some(SyncCallModel::FetchCards { list_id: lists.todo_list_id }),
                    ),
                    SyncEventModel::Reply(reply) => turned_to(
                        SyncModel {
                            app: lists_answered(m.app, board, reply, true),
                            failed: true,
                            ..m
                        },
                        m.next + 1,
                    ),
                    _ => turned_to(SyncModel { failed: true, ..m }, m.next + 1),
                },
                SyncStageModel::Todo { lists } => (
                    SyncModel {
                        stage: SyncStageModel::Doing { lists, todo: cards_in(event) },
                        ..received(m, event)
                    },
                    Some(SyncCallModel::FetchCards { list_id: lists.doing_list_id }),
                ),
                SyncStageModel::Doing { lists, todo } => (
                    SyncModel {
                        stage: SyncStageModel::Done { lists, todo, doing: cards_in(event) },
                        ..received(m, event)
                    },
                    Some(SyncCallModel::FetchCards { list_id: lists.done_list_id }),
                ),
                SyncStageModel::Done { lists, todo, doing } => {
                    let n = received(m, event);
                    let snapshot = snapshot_of(lists, todo, doing, cards_in(event));
                    let todos = pulled(
                        n.app.todos,
                        n.app.todos.len() as int,
                        cs,
                        lists.board_id,
                        today,
                    );
                    pushing(
                        SyncModel { app: AppModel { todos, ..n.app }, ..n },
                        lists,
                        push_plan(todos, board, lists, snapshot),
                        0,
                    )
                },
                SyncStageModel::Push { lists, plan, at } => if 0 <= at < plan.len() {
                    match event {
                        SyncEventModel::Reply(reply) => pushing(
                            SyncModel {
                                app: pushed(m.app, plan[at], lists.board_id, reply),
                                failed: m.failed || !push_done(plan[at], reply),
                                ..m
                            },
                            lists,
                            plan,
                            at + 1,
                        ),
                        _ => pushing(SyncModel { failed: true, ..m }, lists, plan, at + 1),
                    }
                } else {
                    turned_to(m, m.next + 1)
                },
                _ => over(m),
            }
        },
    }
}

impl SyncSession {
    /// A reconciliation that has not begun.
    pub fn new() -> (session: SyncSession)
        ensures
            session.boards.deep_view() == Seq::<Seq<char>>::empty(),
            session.next == 0,
            session.stage@ == SyncStageModel::Idle,
            !session.failed,
    {
        let session = SyncSession {
            boards: Vec::new(),
            next: 0,
            stage: SyncStage::Idle,
            failed: false,
        };
        assert(session.boards.deep_view() =~= Seq::empty());
        session
    }
}

impl App {
    /// Ends a reconciliation.
    fn sync_over(&mut self, session: &mut SyncSession) -> (call: Option<SyncCall>)
        ensures
            (sync_model(final(self)@, *final(session)), call.deep_view()) == over(
                sync_model(old(self)@, *old(session)),
            ),
    {
        self.finish_sync_all(session.failed);
        session.next = session.boards.len();
        session.stage = SyncStage::Idle;
        None
    }

    /// Turns a reconciliation to the board at position `k`.
    fn sync_turn_to(&mut self, session: &mut SyncSession, k: usize) -> (call: Option<SyncCall>)
        ensures
            (sync_model(final(self)@, *final(session)), call.deep_view()) == turned_to(
                sync_model(old(self)@, *old(session)),
                k as int,
            ),
    {
        if k >= session.boards.len() {
            return self.sync_over(session);
        }
        assert(session.boards.deep_view()[k as int] == session.boards[k as int]@);
        session.next = k;
        match self.lists_for(&session.boards[k]) {
            Some(lists) => {
                let call = SyncCall::FetchCards { list_id: lists.todo_list_id.clone() };
                session.stage = SyncStage::Todo { lists };
                Some(call)
            },
            None => {
                session.stage = SyncStage::Lists;
                Some(
                    SyncCall::Remote(
                        RemoteCall::ResolveLists { board_name: session.boards[k].clone() },
                    ),
                )
            },
        }
    }

    /// Sends out the request at position `at` of a push.
    fn sync_push(
        &mut self,
        session: &mut SyncSession,
        lists: PlankaLists,
        plan: Vec<PushStep>,
        at: usize,
    ) -> (call: Option<SyncCall>)
        requires
            old(session).next < usize::MAX,
        ensures
            (sync_model(final(self)@, *final(session)), call.deep_view()) == pushing(
                sync_model(old(self)@, *old(session)),
                lists@,
                plan.deep_view(),
                at as int,
            ),
    {
        if at < plan.len() {
            assert(plan.deep_view()[at as int] == plan[at as int]@);
            let call = SyncCall::Remote(plan[at].call.clone());
            session.stage = SyncStage::Push { lists, plan, at };
            Some(call)
        } else {
            let k = session.next + 1;
            self.sync_turn_to(session, k)
        }
    }

    /// Takes the answer to a request for cards.
    fn sync_cards(&mut self, session: &mut SyncSession, event: SyncEvent) -> (cards: Option<
        Vec<PlankaCard>,
    >)
        ensures
            cards.deep_view() == cards_in(event@),
            sync_model(final(self)@, *final(session)) == received(
                sync_model(old(self)@, *old(session)),
                event@,
            ),
    {
        match event {
            SyncEvent::Cards(Ok(cards)) => Some(cards),
            SyncEvent::Cards(Err(e)) => {
                self.error_message = Some(e);
                session.failed = true;
                None
            },
            _ => {
                session.failed = true;
                None
            },
        }
    }

    /// One step of a reconciliation of all projects. Call it first with
    /// [`SyncEvent::Begin`], then with what happened to each request it gave,
    /// until it gives none. What a step does is [`sync_stepped`]; the dates of
    /// the cards that it pulls are rendered for display by the local clock.
    pub fn sync_step(&mut self, session: &mut SyncSession, event: SyncEvent) -> (call: Option<
        SyncCall,
    >)
        ensures
            exists|cs: Seq<IncomingModel>, clock: Clock|
                rendering(sync_model(old(self)@, *old(session)), event@, cs) && (
                    sync_model(final(self)@, *final(session)),
                    call.deep_view(),
                ) == #[trigger] sync_stepped(
                    sync_model(old(self)@, *old(session)),
                    event@,
                    cs,
                    today_shown(clock),
                ),
    {
        let ghost m = sync_model(self@, *session);
        let ghost none: Seq<IncomingModel> = Seq::empty();
        let ghost any: Clock = arbitrary();
        let ghost day: Seq<char> = today_shown(any);
        let mut stage = SyncStage::Idle;
        std::mem::swap(&mut stage, &mut session.stage);
        let ghost idle = sync_model(self@, *session);
        match stage {
            SyncStage::Idle => {
                let call = match event {
                    SyncEvent::Begin { online: Ok(_) } => {
                        session.stage = SyncStage::Boards;
                        session.failed = false;
                        Some(SyncCall::FetchBoards)
                    },
                    SyncEvent::Begin { online: Err(e) } => {
                        self.error_message = Some(e);
                        session.failed = true;
                        None
                    },
                    _ => None,
                };
                assert((sync_model(self@, *session), call.deep_view()) == sync_stepped(
                    m,
                    event@,
                    none,
                    day,
                ));
                call
            },
            SyncStage::Boards => {
                match event {
                    SyncEvent::Boards(Ok(boards)) => {
                        self.adopt_boards(boards);
                    },
                    SyncEvent::Boards(Err(e)) => {
                        self.error_message = Some(e);
                        session.failed = true;
                    },
                    _ => {
                        session.failed = true;
                    },
                }
                session.boards = names_of(&self.planka_boards);
                let call = self.sync_turn_to(session, 0);
                assert((sync_model(self@, *session), call.deep_view()) == sync_stepped(
                    m,
                    event@,
                    none,
                    day,
                ));
                call
            },
            stage => {
                if session.next >= session.boards.len() {
                    let call = self.sync_over(session);
                    assert((sync_model(self@, *session), call.deep_view()) == sync_stepped(
                        m,
                        event@,
                        none,
                        day,
                    ));
                    return call;
                }
                let k = session.next;
                assert(session.boards.deep_view()[k as int] == session.boards[k as int]@);
                let board = session.boards[k].clone();
                match stage {
                    SyncStage::Lists => {
                        let call = match event {
                            SyncEvent::Reply(RemoteReply::Lists(Ok(lists))) => {
                                let call = SyncCall::FetchCards {
                                    list_id: lists.todo_list_id.clone(),
                                };
                                session.stage = SyncStage::Todo { lists: lists.clone() };
                                self.lists_reply_for(&board, RemoteReply::Lists(Ok(lists)), true);
                                Some(call)
                            },
                            SyncEvent::Reply(reply) => {
                                self.lists_reply_for(&board, reply, true);
                                session.failed = true;
                                self.sync_turn_to(session, k + 1)
                            },
                            _ => {
                                session.failed = true;
                                self.sync_turn_to(session, k + 1)
                            },
                        };
                        assert((sync_model(self@, *session), call.deep_view()) == sync_stepped(
                            m,
                            event@,
                            none,
                            day,
                        ));
                        call
                    },
                    SyncStage::Todo { lists } => {
                        let call = SyncCall::FetchCards { list_id: lists.doing_list_id.clone() };
                        let todo = self.sync_cards(session, event);
                        session.stage = SyncStage::Doing { lists, todo };
                        assert((sync_model(self@, *session), Some(call@)) == sync_stepped(
                            m,
                            event@,
                            none,
                            day,
                        ));
                        Some(call)
                    },
                    SyncStage::Doing { lists, todo } => {
                        let call = SyncCall::FetchCards { list_id: lists.done_list_id.clone() };
                        let doing = self.sync_cards(session, event);
                        session.stage = SyncStage::Done { lists, todo, doing };
                        assert((sync_model(self@, *session), Some(call@)) == sync_stepped(
                            m,
                            event@,
                            none,
                            day,
                        ));
                        Some(call)
                    },
                    SyncStage::Done { lists, todo, doing } => {
                        let done = self.sync_cards(session, event);
                        let ghost n = sync_model(self@, *session);
                        let snapshot = remote_snapshot(&lists, &todo, &doing, &done);
                        self.sync_pull(&board, &lists, &snapshot);
                        let plan = plan_push(&self.todos, &board, &lists, &snapshot);
                        let ghost (cs, clock) = choose|cs: Seq<IncomingModel>, clock: Clock|
                            renders_all(board@, snapshot.deep_view(), cs) && #[trigger] pulled(
                                n.app.todos,
                                n.app.todos.len() as int,
                                cs,
                                lists@.board_id,
                                today_shown(clock),
                            ) == self@.todos;
                        let call = self.sync_push(session, lists, plan, 0);
                        assert((sync_model(self@, *session), call.deep_view()) == sync_stepped(
                            m,
                            event@,
                            cs,
                            today_shown(clock),
                        ));
                        call
                    },
                    SyncStage::Push { lists, plan, at } => {
                        if at >= plan.len() {
                            let call = self.sync_turn_to(session, k + 1);
                            assert((sync_model(self@, *session), call.deep_view()) == sync_stepped(
                                m,
                                event@,
                                none,
                                day,
                            ));
                            return call;
                        }
                        assert(plan.deep_view()[at as int] == plan[at as int]@);
                        match event {
                            SyncEvent::Reply(reply) => {
                                if !is_push_done(&plan[at], &reply) {
                                    session.failed = true;
                                }
                                self.push_settle(&plan[at], &lists, reply);
                            },
                            _ => {
                                session.failed = true;
                            },
                        }
                        let call = self.sync_push(session, lists, plan, at + 1);
                        assert((sync_model(self@, *session), call.deep_view()) == sync_stepped(
                            m,
                            event@,
                            none,
                            day,
                        ));
                        call
                    },
                    _ => {
                        let call = self.sync_over(session);
                        assert((sync_model(self@, *session), call.deep_view()) == sync_stepped(
                            m,
                            event@,
                            none,
                            day,
                        ));
                        call
                    },
                }
            },
        }
    }
}

} // verus!
