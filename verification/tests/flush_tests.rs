use planky::app::App;
use planky::planka::{PlankaLists, RemoteCall, RemoteReply};
use planky::queue::{dequeue, first_request, FlushStage, PendingOp, PendingOpKind};
use planky::todo::Todo;

fn lists() -> PlankaLists {
    PlankaLists {
        board_id: "b1".to_string(),
        todo_list_id: "todo-list".to_string(),
        doing_list_id: "doing-list".to_string(),
        done_list_id: "done-list".to_string(),
    }
}

fn op(kind: PendingOpKind, ts: i64) -> PendingOp {
    PendingOp {
        kind,
        project: "Inbox".to_string(),
        card_id: Some(format!("card-{}", ts)),
        list_id: Some("doing-list".to_string()),
        name: Some(format!("name-{}", ts)),
        due: None,
        ts,
    }
}

fn local(description: &str, card: Option<&str>) -> Todo {
    Todo {
        description: description.to_string(),
        due_date: None,
        created_date: "2030-01-01".to_string(),
        done: false,
        project: "Inbox".to_string(),
        planka_card_id: card.map(|c| c.to_string()),
        planka_list_id: None,
        planka_board_id: None,
        sync_dirty: true,
    }
}

fn succeed(call: &RemoteCall) -> RemoteReply {
    match call {
        RemoteCall::ResolveLists { .. } => RemoteReply::Lists(Ok(lists())),
        RemoteCall::CreateCard { .. } => RemoteReply::Card(Ok("c1".to_string())),
        _ => RemoteReply::Done(Ok(())),
    }
}

fn fail(call: &RemoteCall) -> RemoteReply {
    match call {
        RemoteCall::ResolveLists { .. } => RemoteReply::Lists(Err("down".to_string())),
        RemoteCall::CreateCard { .. } => RemoteReply::Card(Err("down".to_string())),
        _ => RemoteReply::Done(Err("down".to_string())),
    }
}

fn show(call: &RemoteCall) -> String {
    format!("{:?}", call)
}

/// Runs one flush and gives the requests that were made and whether any
/// change was removed.
fn flush(app: &mut App, answer: &mut dyn FnMut(&RemoteCall) -> RemoteReply) -> (Vec<String>, bool) {
    let Some(mut session) = app.begin_flush(true) else {
        assert_eq!(app.pending_ops_len(), 0);
        return (Vec::new(), false);
    };
    let mut calls = Vec::new();
    let mut call = app.process_pending_ops_tick(&mut session, None);
    let mut rounds = 0;
    while let Some(c) = call {
        calls.push(show(&c));
        let reply = answer(&c);
        call = app.process_pending_ops_tick(&mut session, Some(reply));
        rounds += 1;
        assert!(rounds < 1000);
    }
    assert!(matches!(session.stage, FlushStage::Idle));
    assert_eq!(session.next, session.ops.len());
    (calls, session.removed)
}

#[test]
fn create_is_flushed_and_links_the_task() {
    let mut app = App::new(None, Vec::new());
    app.todos.push(local("Buy milk", None));
    app.enqueue_op(PendingOp {
        kind: PendingOpKind::Create,
        project: "Inbox".to_string(),
        card_id: None,
        list_id: None,
        name: Some("Buy milk".to_string()),
        due: None,
        ts: 7,
    });
    assert_eq!(app.pending_ops_len(), 1);
    let (calls, removed) = flush(&mut app, &mut |c| succeed(c));
    assert_eq!(
        calls,
        vec![
            "ResolveLists { board_name: \"Inbox\" }".to_string(),
            "CreateCard { list_id: \"todo-list\", name: \"Buy milk\", due: None }".to_string(),
        ]
    );
    assert!(removed);
    assert_eq!(app.pending_ops_len(), 0);
    assert_eq!(app.todos.len(), 1);
    assert_eq!(app.todos[0].description, "Buy milk");
    assert_eq!(app.todos[0].planka_card_id.as_deref(), Some("c1"));
    assert_eq!(app.todos[0].planka_list_id.as_deref(), Some("todo-list"));
    assert_eq!(app.todos[0].planka_board_id.as_deref(), Some("b1"));
    assert!(!app.todos[0].sync_dirty);
}

#[test]
fn create_follows_the_task_to_doing() {
    let mut app = App::new(None, Vec::new());
    let mut t = local("Buy milk", None);
    t.planka_list_id = Some("doing-list".to_string());
    t.done = true;
    app.todos.push(t);
    let mut create = op(PendingOpKind::Create, 7);
    create.name = Some("Buy milk".to_string());
    create.due = Some("2031-01-01".to_string());
    app.enqueue_op(create);
    let (calls, _) = flush(&mut app, &mut |c| succeed(c));
    assert_eq!(calls.len(), 3);
    assert_eq!(calls[1], "CreateCard { list_id: \"todo-list\", name: \"Buy milk\", due: Some(\"2031-01-01\") }");
    assert_eq!(calls[2], "MoveCard { card_id: \"c1\", list_id: \"doing-list\" }");
    assert_eq!(app.todos[0].planka_list_id.as_deref(), Some("doing-list"));
    assert_eq!(app.pending_ops_len(), 0);
}

#[test]
fn create_follows_the_task_to_done() {
    let mut app = App::new(None, Vec::new());
    let mut t = local("Buy milk", None);
    t.done = true;
    app.todos.push(t);
    let mut create = op(PendingOpKind::Create, 7);
    create.name = Some("Buy milk".to_string());
    app.enqueue_op(create);
    let (calls, _) = flush(&mut app, &mut |c| match c {
        RemoteCall::MoveCard { .. } => RemoteReply::Done(Err("no".to_string())),
        other => succeed(other),
    });
    assert_eq!(calls[2], "MoveCard { card_id: \"c1\", list_id: \"done-list\" }");
    assert_eq!(app.todos[0].planka_list_id.as_deref(), Some("done-list"));
    assert_eq!(app.todos[0].planka_card_id.as_deref(), Some("c1"));
    assert_eq!(app.pending_ops_len(), 0);
}

#[test]
fn create_links_the_first_waiting_task_only() {
    let mut app = App::new(None, Vec::new());
    app.todos.push(local("Buy milk", Some("old")));
    app.todos.push(local("Buy milk", None));
    app.todos.push(local("Buy milk", None));
    let mut create = op(PendingOpKind::Create, 7);
    create.name = Some("Buy milk".to_string());
    app.enqueue_op(create);
    flush(&mut app, &mut |c| succeed(c));
    assert_eq!(app.todos[0].planka_card_id.as_deref(), Some("old"));
    assert_eq!(app.todos[1].planka_card_id.as_deref(), Some("c1"));
    assert_eq!(app.todos[2].planka_card_id, None);
    assert!(app.todos[2].sync_dirty);
}

#[test]
fn create_without_a_task_is_still_removed() {
    let mut app = App::new(None, Vec::new());
    let mut create = op(PendingOpKind::Create, 7);
    create.name = Some("Buy milk".to_string());
    app.enqueue_op(create);
    let (calls, removed) = flush(&mut app, &mut |c| succeed(c));
    assert_eq!(calls.len(), 2);
    assert!(removed);
    assert_eq!(app.pending_ops_len(), 0);
    assert_eq!(app.todos.len(), 0);
}

#[test]
fn create_without_lists_stays() {
    let mut app = App::new(None, Vec::new());
    app.todos.push(local("Buy milk", None));
    let mut create = op(PendingOpKind::Create, 7);
    create.name = Some("Buy milk".to_string());
    app.enqueue_op(create);
    let (calls, removed) = flush(&mut app, &mut |c| fail(c));
    assert_eq!(calls.len(), 1);
    assert!(!removed);
    assert_eq!(app.pending_ops_len(), 1);
    assert_eq!(app.todos[0].planka_card_id, None);
    assert!(app.todos[0].sync_dirty);
}

#[test]
fn create_that_the_board_refuses_stays() {
    let mut app = App::new(None, Vec::new());
    app.todos.push(local("Buy milk", None));
    let mut create = op(PendingOpKind::Create, 7);
    create.name = Some("Buy milk".to_string());
    app.enqueue_op(create);
    let (calls, removed) = flush(&mut app, &mut |c| match c {
        RemoteCall::CreateCard { .. } => fail(c),
        other => succeed(other),
    });
    assert_eq!(calls.len(), 2);
    assert!(!removed);
    assert_eq!(app.pending_ops_len(), 1);
    assert_eq!(app.pending_ops[0].ts, 7);
    assert_eq!(app.pending_ops[0].name.as_deref(), Some("Buy milk"));
}

#[test]
fn create_without_a_name_asks_for_lists_and_stays() {
    let mut app = App::new(None, Vec::new());
    let mut create = op(PendingOpKind::Create, 7);
    create.name = None;
    app.enqueue_op(create);
    let (calls, removed) = flush(&mut app, &mut |c| succeed(c));
    assert_eq!(calls, vec!["ResolveLists { board_name: \"Inbox\" }".to_string()]);
    assert!(!removed);
    assert_eq!(app.pending_ops_len(), 1);
}

#[test]
fn move_is_flushed_and_cleans_the_task() {
    let mut app = App::new(None, Vec::new());
    app.todos.push(local("a", Some("card-3")));
    app.todos.push(local("b", Some("card-3")));
    app.enqueue_op(op(PendingOpKind::Move, 3));
    let (calls, removed) = flush(&mut app, &mut |c| succeed(c));
    assert_eq!(calls, vec!["MoveCard { card_id: \"card-3\", list_id: \"doing-list\" }".to_string()]);
    assert!(removed);
    assert_eq!(app.pending_ops_len(), 0);
    assert_eq!(app.todos[0].planka_list_id.as_deref(), Some("doing-list"));
    assert!(!app.todos[0].sync_dirty);
    assert_eq!(app.todos[1].planka_list_id, None);
    assert!(app.todos[1].sync_dirty);
}

#[test]
fn update_and_delete_are_flushed() {
    let mut app = App::new(None, Vec::new());
    app.todos.push(local("a", Some("card-1")));
    app.enqueue_op(op(PendingOpKind::Update, 1));
    app.enqueue_op(op(PendingOpKind::Delete, 2));
    let (calls, removed) = flush(&mut app, &mut |c| succeed(c));
    assert_eq!(
        calls,
        vec![
            "UpdateCard { card_id: \"card-1\", name: Some(\"name-1\"), due: None }".to_string(),
            "DeleteCard { card_id: \"card-2\" }".to_string(),
        ]
    );
    assert!(removed);
    assert_eq!(app.pending_ops_len(), 0);
    assert!(app.todos[0].sync_dirty);
    assert_eq!(app.todos[0].planka_list_id, None);
}

#[test]
fn flush_with_a_board_that_always_succeeds_empties_the_queue() {
    let mut app = App::new(None, Vec::new());
    app.todos.push(local("name-1", None));
    for (i, kind) in [PendingOpKind::Create, PendingOpKind::Move, PendingOpKind::Update, PendingOpKind::Delete, PendingOpKind::Move]
        .into_iter()
        .enumerate()
    {
        app.enqueue_op(op(kind, 1 + (i as i64) % 2));
    }
    assert_eq!(app.pending_ops_len(), 5);
    let (_, removed) = flush(&mut app, &mut |c| succeed(c));
    assert!(removed);
    assert_eq!(app.pending_ops_len(), 0);
    assert_eq!(app.todos.len(), 1);
}

#[test]
fn refused_change_stays_unchanged() {
    let mut app = App::new(None, Vec::new());
    app.enqueue_op(op(PendingOpKind::Update, 1));
    app.enqueue_op(op(PendingOpKind::Move, 2));
    app.enqueue_op(op(PendingOpKind::Delete, 3));
    let (calls, removed) = flush(&mut app, &mut |c| match c {
        RemoteCall::MoveCard { .. } => fail(c),
        other => succeed(other),
    });
    assert_eq!(calls.len(), 3);
    assert!(removed);
    assert_eq!(app.pending_ops_len(), 1);
    let left = &app.pending_ops[0];
    assert!(matches!(left.kind, PendingOpKind::Move));
    assert_eq!(left.ts, 2);
    assert_eq!(left.project, "Inbox");
    assert_eq!(left.card_id.as_deref(), Some("card-2"));
    assert_eq!(left.list_id.as_deref(), Some("doing-list"));
    assert_eq!(left.name.as_deref(), Some("name-2"));
    assert_eq!(left.due, None);
}

#[test]
fn refused_update_stays() {
    let mut app = App::new(None, Vec::new());
    app.enqueue_op(op(PendingOpKind::Update, 1));
    let (_, removed) = flush(&mut app, &mut |c| fail(c));
    assert!(!removed);
    assert_eq!(app.pending_ops_len(), 1);
}

#[test]
fn nothing_changes_when_every_request_fails() {
    let mut app = App::new(None, Vec::new());
    app.todos.push(local("name-1", None));
    app.todos.push(local("x", Some("card-2")));
    app.enqueue_op(op(PendingOpKind::Create, 1));
    app.enqueue_op(op(PendingOpKind::Move, 2));
    app.enqueue_op(op(PendingOpKind::Delete, 3));
    let before = format!("{:?}", app.todos);
    let (calls, removed) = flush(&mut app, &mut |c| fail(c));
    assert_eq!(calls.len(), 3);
    assert!(!removed);
    assert_eq!(app.pending_ops_len(), 3);
    assert_eq!(format!("{:?}", app.todos), before);
}

#[test]
fn changes_with_one_timestamp_are_removed_from_the_front() {
    let mut app = App::new(None, Vec::new());
    let mut first = op(PendingOpKind::Delete, 5);
    first.card_id = Some("first".to_string());
    let mut second = op(PendingOpKind::Delete, 5);
    second.card_id = Some("second".to_string());
    app.enqueue_op(first);
    app.enqueue_op(second);
    flush(&mut app, &mut |c| match c {
        RemoteCall::DeleteCard { card_id } if card_id == "first" => fail(c),
        other => succeed(other),
    });
    assert_eq!(app.pending_ops_len(), 1);
    assert_eq!(app.pending_ops[0].card_id.as_deref(), Some("second"));
}

#[test]
fn changes_that_lack_their_card_are_passed_over() {
    let mut app = App::new(None, Vec::new());
    for kind in [PendingOpKind::Move, PendingOpKind::Update, PendingOpKind::Delete] {
        let mut o = op(kind, 1);
        o.card_id = None;
        assert!(first_request(&o).is_none());
        app.enqueue_op(o);
    }
    let mut o = op(PendingOpKind::Move, 2);
    o.list_id = None;
    app.enqueue_op(o);
    let (calls, removed) = flush(&mut app, &mut |c| succeed(c));
    assert!(calls.is_empty());
    assert!(!removed);
    assert_eq!(app.pending_ops_len(), 4);
}

#[test]
fn empty_queue_asks_nothing() {
    let mut app = App::new(None, Vec::new());
    assert!(app.begin_flush(true).is_none());
    let (calls, removed) = flush(&mut app, &mut |c| succeed(c));
    assert!(calls.is_empty());
    assert!(!removed);
}

#[test]
fn flush_without_a_session_leaves_the_queue() {
    let mut app = App::new(None, Vec::new());
    app.enqueue_op(op(PendingOpKind::Delete, 1));
    assert!(app.begin_flush(false).is_none());
    assert_eq!(app.pending_ops_len(), 1);
    assert!(app.begin_flush(true).is_some());
}

#[test]
fn answer_of_the_wrong_kind_counts_as_failure() {
    let mut app = App::new(None, Vec::new());
    app.enqueue_op(op(PendingOpKind::Delete, 1));
    let (_, removed) = flush(&mut app, &mut |_| RemoteReply::Card(Ok("c1".to_string())));
    assert!(!removed);
    assert_eq!(app.pending_ops_len(), 1);
    let mut session = app.begin_flush(true).expect("a flush of one change");
    assert!(app.process_pending_ops_tick(&mut session, None).is_some());
    assert!(app.process_pending_ops_tick(&mut session, None).is_none());
    assert_eq!(app.pending_ops_len(), 1);
}

#[test]
fn changes_queued_during_a_flush_wait_for_the_next() {
    let mut app = App::new(None, Vec::new());
    app.enqueue_op(op(PendingOpKind::Delete, 1));
    let mut session = app.begin_flush(true).expect("a flush of one change");
    let call = app.process_pending_ops_tick(&mut session, None).expect("a request");
    app.enqueue_op(op(PendingOpKind::Delete, 2));
    let next = app.process_pending_ops_tick(&mut session, Some(succeed(&call)));
    assert!(next.is_none());
    assert_eq!(app.pending_ops_len(), 1);
    assert_eq!(app.pending_ops[0].ts, 2);
}

#[test]
fn dequeue_removes_the_first_with_the_timestamp() {
    let mut queue = vec![op(PendingOpKind::Move, 1), op(PendingOpKind::Delete, 2), op(PendingOpKind::Update, 2)];
    assert!(dequeue(&mut queue, 2));
    assert_eq!(queue.len(), 2);
    assert!(matches!(queue[1].kind, PendingOpKind::Update));
    assert!(!dequeue(&mut queue, 9));
    assert_eq!(queue.len(), 2);
}

#[test]
fn queue_survives_a_restart() {
    let mut app = App::new(None, Vec::new());
    app.enqueue_op(op(PendingOpKind::Move, 4));
    let stored: Vec<PendingOp> = app.pending_ops.iter().map(|o| o.clone()).collect();
    let restarted = App::new(None, stored);
    assert_eq!(restarted.pending_ops_len(), 1);
    assert_eq!(format!("{:?}", restarted.pending_ops[0]), format!("{:?}", op(PendingOpKind::Move, 4)));
}
