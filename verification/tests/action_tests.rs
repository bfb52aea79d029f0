use planky::app::{App, InputMode, PlankaSetupStep};
use planky::planka::{PlankaBoard, PlankaCardDetails, PlankaComment, PlankaConfig, PlankaLists, RemoteCall, RemoteReply};
use planky::queue::PendingOpKind;
use planky::todo::Todo;

fn lists() -> PlankaLists {
    PlankaLists {
        board_id: "b1".to_string(),
        todo_list_id: "todo-list".to_string(),
        doing_list_id: "doing-list".to_string(),
        done_list_id: "done-list".to_string(),
    }
}

fn local(description: &str, project: &str, card: Option<&str>) -> Todo {
    Todo {
        description: description.to_string(),
        due_date: None,
        created_date: "2030-01-01".to_string(),
        done: false,
        project: project.to_string(),
        planka_card_id: card.map(|c| c.to_string()),
        planka_list_id: None,
        planka_board_id: None,
        sync_dirty: false,
    }
}

fn app_with_lists() -> App {
    let mut app = App::new(None, Vec::new());
    app.remember_lists(&"Inbox".to_string(), lists());
    app
}

fn show(call: &Option<RemoteCall>) -> String {
    format!("{:?}", call)
}

fn details(id: &str) -> PlankaCardDetails {
    PlankaCardDetails {
        id: id.to_string(),
        name: "card".to_string(),
        description: None,
        due: None,
        is_due_completed: None,
        created: None,
        updated: None,
        list_name: None,
        labels: vec![],
        attachments: vec![],
        tasks: vec![],
        board_id: None,
        attachments_full: vec![],
        tasks_full: vec![],
        task_lists: vec![],
        custom_field_groups: vec![],
    }
}

fn comment(user: Option<&str>, text: &str) -> PlankaComment {
    PlankaComment { id: "1".to_string(), user_id: None, user_name: user.map(|u| u.to_string()), text: text.to_string(), created: None }
}

#[test]
fn new_application_starts_in_the_inbox() {
    let cfg = PlankaConfig { server_url: "http://x".to_string(), email_or_username: "u".to_string(), password: "p".to_string(), token: None };
    let app = App::new(Some(cfg), Vec::new());
    assert!(app.todos.is_empty());
    assert_eq!(app.projects, vec!["Inbox".to_string()]);
    assert_eq!(app.current_project, "Inbox");
    assert!(app.input_mode == InputMode::Normal);
    assert_eq!(app.selected, 0);
    assert_eq!(app.pending_ops_len(), 0);
    assert_eq!(app.planka_config.as_ref().map(|c| c.server_url.as_str()), Some("http://x"));
    assert!(app.planka_lists.is_none() && app.error_message.is_none() && app.view_card.is_none());
    assert!(InputMode::default() == InputMode::Normal);
    let fresh = App::default();
    assert!(fresh.planka_config.is_none());
    assert_eq!(fresh.pending_ops_len(), 0);
    assert_eq!(fresh.current_project, "Inbox");
}

#[test]
fn tasks_are_shown_doing_first_then_todo_then_done() {
    let mut app = app_with_lists();
    let mut done = local("done", "Inbox", None);
    done.done = true;
    let mut doing = local("doing", "Inbox", None);
    doing.planka_list_id = Some("doing-list".to_string());
    let mut in_done_list = local("in done list", "Inbox", None);
    in_done_list.planka_list_id = Some("done-list".to_string());
    let mut doing_but_done = local("doing but done", "Inbox", None);
    doing_but_done.planka_list_id = Some("doing-list".to_string());
    doing_but_done.done = true;
    app.todos = vec![done, local("elsewhere", "Work", None), local("todo", "Inbox", None), doing, in_done_list, doing_but_done, local("todo 2", "Inbox", None)];
    assert_eq!(app.filtered_todos(), vec![3, 2, 6, 0, 4, 5]);
    app.selected = 0;
    assert_eq!(app.selected_index_in_all(), Some(3));
    app.selected = 5;
    assert_eq!(app.selected_index_in_all(), Some(5));
    app.selected = 6;
    assert_eq!(app.selected_index_in_all(), None);
}

#[test]
fn search_looks_at_description_and_due_date() {
    let mut app = App::new(None, Vec::new());
    let mut with_due = local("Call Bob", "Inbox", None);
    with_due.due_date = Some("2031-04-05 MILK".to_string());
    app.todos = vec![local("Buy Milk", "Inbox", None), with_due, local("Write", "Inbox", None)];
    app.search_query = "milk".to_string();
    assert_eq!(app.filtered_todos(), vec![0, 1]);
    app.search_query = "BOB".to_string();
    assert_eq!(app.filtered_todos(), vec![1]);
    app.search_query = "zzz".to_string();
    assert!(app.filtered_todos().is_empty());
    app.search_query = String::new();
    assert_eq!(app.filtered_todos(), vec![0, 1, 2]);
}

#[test]
fn add_asks_to_create_the_card_in_the_todo_list() {
    let mut app = app_with_lists();
    app.input_description = "Buy milk".to_string();
    let due = Some("2031-01-01".to_string());
    assert_eq!(show(&app.add_todo_request(&due)), "Some(CreateCard { list_id: \"todo-list\", name: \"Buy milk\", due: Some(\"2031-01-01\") })");
    app.input_description = "  \t".to_string();
    assert_eq!(show(&app.add_todo_request(&due)), "None");
    let mut offline = App::new(None, Vec::new());
    offline.input_description = "Buy milk".to_string();
    assert_eq!(show(&offline.add_todo_request(&due)), "None");
}

#[test]
fn added_task_is_linked_when_the_board_made_its_card() {
    let mut app = app_with_lists();
    app.input_description = "Buy milk".to_string();
    app.input_due_date = "tomorrow".to_string();
    app.error_message = Some("old".to_string());
    app.current_project = "Inbox".to_string();
    let r = app.add_todo_at(Some("2031-01-01".to_string()), "2030-06-06".to_string(), 11, Some(RemoteReply::Card(Ok("c1".to_string()))));
    assert_eq!(r, Ok(()));
    assert_eq!(app.todos.len(), 1);
    let t = &app.todos[0];
    assert_eq!(t.description, "Buy milk");
    assert_eq!(t.due_date.as_deref(), Some("2031-01-01"));
    assert_eq!(t.created_date, "2030-06-06");
    assert_eq!(t.project, "Inbox");
    assert_eq!(t.planka_card_id.as_deref(), Some("c1"));
    assert_eq!(t.planka_list_id.as_deref(), Some("todo-list"));
    assert_eq!(t.planka_board_id.as_deref(), Some("b1"));
    assert!(!t.sync_dirty && !t.done);
    assert_eq!(app.pending_ops_len(), 0);
    assert_eq!(app.input_description, "");
    assert_eq!(app.input_due_date, "");
    assert_eq!(app.error_message, None);
}

#[test]
fn added_task_is_queued_when_the_board_fails() {
    for reply in [None, Some(RemoteReply::Card(Err("HTTP 500".to_string()))), Some(RemoteReply::Done(Ok(())))] {
        let mut app = app_with_lists();
        app.current_project = "Work".to_string();
        app.input_description = "Buy milk".to_string();
        let r = app.add_todo_at(None, "2030-06-06".to_string(), 11, reply);
        assert_eq!(r, Ok(()));
        assert_eq!(app.todos.len(), 1);
        assert!(app.todos[0].sync_dirty);
        assert_eq!(app.todos[0].planka_card_id, None);
        assert_eq!(app.todos[0].project, "Work");
        assert_eq!(app.pending_ops_len(), 1);
        let op = &app.pending_ops[0];
        assert!(op.kind == PendingOpKind::Create);
        assert_eq!(op.project, "Work");
        assert_eq!(op.name.as_deref(), Some("Buy milk"));
        assert_eq!(op.card_id, None);
        assert_eq!(op.list_id, None);
        assert_eq!(op.due, None);
        assert_eq!(op.ts, 11);
        assert_eq!(app.projects, vec!["Inbox".to_string(), "Work".to_string()]);
        assert_eq!(app.error_message, None);
    }
}

#[test]
fn task_without_a_description_is_refused() {
    let mut app = app_with_lists();
    app.input_description = "   ".to_string();
    app.input_due_date = "tomorrow".to_string();
    let r = app.add_todo(None, Some(RemoteReply::Card(Ok("c1".to_string()))));
    assert_eq!(r, Err("Description cannot be empty.".to_string()));
    assert!(app.todos.is_empty());
    assert_eq!(app.input_due_date, "tomorrow");
    assert_eq!(app.pending_ops_len(), 0);
}

#[test]
fn add_now_uses_the_clock() {
    let mut app = App::new(None, Vec::new());
    app.input_description = "x".to_string();
    assert_eq!(app.add_todo(None, None), Ok(()));
    assert_eq!(app.todos[0].created_date.len(), 10);
    assert!(app.pending_ops[0].ts > 1_600_000_000);
}

#[test]
fn due_is_read_after_the_description() {
    let mut app = App::new(None, Vec::new());
    app.input_due_date = "9999-01-01".to_string();
    assert_eq!(app.due_entered(), Err("Description cannot be empty.".to_string()));
    app.input_description = "x".to_string();
    assert_eq!(app.due_entered(), Ok(Some("9999-01-01".to_string())));
    app.input_due_date = " \n".to_string();
    assert_eq!(app.due_entered(), Ok(None));
    app.input_due_date = " yesterday ".to_string();
    assert_eq!(app.due_entered(), Err("Due date cannot be in the past".to_string()));
}

#[test]
fn edit_is_saved_and_queued_when_the_update_fails() {
    let mut app = app_with_lists();
    app.todos = vec![local("a", "Inbox", None), local("b", "Inbox", Some("c2"))];
    app.selected = 1;
    app.begin_edit_selected();
    assert_eq!(app.editing_index, Some(1));
    assert_eq!(app.input_description, "b");
    assert_eq!(app.input_due_date, "");
    assert!(app.input_mode == InputMode::EditingDescription);
    app.input_description = "b2".to_string();
    let due = Some("2031-02-02".to_string());
    assert_eq!(show(&app.save_edit_request(&due)), "Some(UpdateCard { card_id: \"c2\", name: Some(\"b2\"), due: Some(\"2031-02-02\") })");
    let r = app.save_edit_at(due, 5, Some(RemoteReply::Done(Err("HTTP 500".to_string()))));
    assert_eq!(r, Ok(()));
    assert_eq!(app.todos[1].description, "b2");
    assert_eq!(app.todos[1].due_date.as_deref(), Some("2031-02-02"));
    assert!(app.todos[1].sync_dirty);
    assert_eq!(app.error_message.as_deref(), Some("Planka update failed: HTTP 500"));
    assert_eq!(app.pending_ops_len(), 1);
    let op = &app.pending_ops[0];
    assert!(op.kind == PendingOpKind::Update);
    assert_eq!(op.card_id.as_deref(), Some("c2"));
    assert_eq!(op.name.as_deref(), Some("b2"));
    assert_eq!(op.due.as_deref(), Some("2031-02-02"));
    assert_eq!(op.ts, 5);
    assert_eq!(app.editing_index, None);
    assert_eq!(app.input_description, "");
}

#[test]
fn edit_is_saved_cleanly_when_the_update_succeeds_or_no_card_exists() {
    let mut app = app_with_lists();
    app.todos = vec![local("a", "Inbox", None), local("b", "Inbox", Some("c2"))];
    app.editing_index = Some(1);
    app.input_description = "b2".to_string();
    assert_eq!(app.save_edit_at(None, 5, Some(RemoteReply::Done(Ok(())))), Ok(()));
    assert_eq!(app.todos[1].description, "b2");
    assert!(!app.todos[1].sync_dirty);
    assert_eq!(app.pending_ops_len(), 0);
    app.editing_index = Some(0);
    app.input_description = "a2".to_string();
    assert_eq!(show(&app.save_edit_request(&None)), "None");
    assert_eq!(app.save_edit(None, None), Ok(()));
    assert_eq!(app.todos[0].description, "a2");
    assert!(!app.todos[0].sync_dirty);
    assert_eq!(app.pending_ops_len(), 0);
}

#[test]
fn edit_offline_is_queued_without_a_message() {
    let mut app = app_with_lists();
    app.todos = vec![local("b", "Inbox", Some("c2"))];
    app.editing_index = Some(0);
    app.input_description = "b2".to_string();
    assert_eq!(app.save_edit_at(None, 5, None), Ok(()));
    assert!(app.todos[0].sync_dirty);
    assert_eq!(app.pending_ops_len(), 1);
    assert_eq!(app.error_message, None);
}

#[test]
fn edit_without_a_description_or_a_task_changes_nothing() {
    let mut app = app_with_lists();
    app.todos = vec![local("b", "Inbox", Some("c2"))];
    app.input_description = "x".to_string();
    assert_eq!(app.save_edit_at(None, 5, None), Ok(()));
    assert_eq!(app.input_description, "x");
    app.editing_index = Some(0);
    app.input_description = " ".to_string();
    assert_eq!(app.save_edit_at(None, 5, None), Err("Description cannot be empty.".to_string()));
    assert_eq!(app.todos[0].description, "b");
    assert_eq!(app.editing_index, Some(0));
    app.editing_index = Some(9);
    app.input_description = "x".to_string();
    assert_eq!(app.save_edit_at(None, 5, None), Ok(()));
    assert_eq!(app.todos[0].description, "b");
}

#[test]
fn delete_removes_the_task_and_queues_a_refused_delete() {
    let mut app = app_with_lists();
    app.todos = vec![local("a", "Inbox", Some("c1")), local("b", "Inbox", Some("c2")), local("c", "Inbox", None)];
    app.selected = 1;
    assert_eq!(show(&app.delete_todo_request()), "Some(DeleteCard { card_id: \"c2\" })");
    app.delete_todo_at(9, Some(RemoteReply::Done(Err("HTTP 500".to_string()))));
    assert_eq!(app.todos.len(), 2);
    assert_eq!(app.todos[1].description, "c");
    assert_eq!(app.selected, 0);
    assert_eq!(app.error_message.as_deref(), Some("Planka delete failed: HTTP 500"));
    assert_eq!(app.pending_ops_len(), 1);
    assert!(app.pending_ops[0].kind == PendingOpKind::Delete);
    assert_eq!(app.pending_ops[0].card_id.as_deref(), Some("c2"));
    assert_eq!(app.pending_ops[0].ts, 9);
    app.delete_todo_at(9, Some(RemoteReply::Done(Ok(()))));
    assert_eq!(app.todos.len(), 1);
    assert_eq!(app.selected, 0);
    assert_eq!(app.pending_ops_len(), 1);
    app.delete_todo(None);
    assert!(app.todos.is_empty());
    app.delete_todo(None);
    assert!(app.todos.is_empty());
    assert_eq!(app.pending_ops_len(), 1);
}

#[test]
fn delete_without_a_session_is_queued() {
    let mut app = app_with_lists();
    app.todos = vec![local("a", "Inbox", Some("c1")), local("b", "Inbox", None)];
    app.delete_todo_at(12, None);
    assert_eq!(app.todos.len(), 1);
    assert_eq!(app.todos[0].description, "b");
    assert_eq!(app.pending_ops_len(), 1);
    assert!(app.pending_ops[0].kind == PendingOpKind::Delete);
    assert_eq!(app.pending_ops[0].card_id.as_deref(), Some("c1"));
    assert_eq!(app.pending_ops[0].project, "Inbox");
    assert_eq!(app.pending_ops[0].ts, 12);
    assert_eq!(app.error_message, None);
    app.delete_todo_at(13, None);
    assert!(app.todos.is_empty());
    assert_eq!(app.pending_ops_len(), 1);
    let mut app = app_with_lists();
    app.todos = vec![local("a", "Inbox", Some("c1"))];
    app.delete_todo_at(14, Some(RemoteReply::Card(Ok("x".to_string()))));
    assert_eq!(app.pending_ops_len(), 1);
}

#[test]
fn done_is_toggled_and_the_card_moved() {
    let mut app = app_with_lists();
    app.todos = vec![local("a", "Inbox", Some("c1"))];
    assert_eq!(show(&app.mark_done_request(true)), "Some(MoveCard { card_id: \"c1\", list_id: \"done-list\" })");
    assert_eq!(show(&app.mark_done_request(false)), "None");
    app.mark_done_at(Ok(()), 3, Some(RemoteReply::Done(Ok(()))));
    assert!(app.todos[0].done);
    assert_eq!(app.todos[0].planka_list_id.as_deref(), Some("done-list"));
    assert!(!app.todos[0].sync_dirty);
    assert_eq!(show(&app.mark_done_request(true)), "Some(MoveCard { card_id: \"c1\", list_id: \"todo-list\" })");
    app.mark_done_at(Ok(()), 4, Some(RemoteReply::Done(Err("HTTP 500".to_string()))));
    assert!(!app.todos[0].done);
    assert!(app.todos[0].sync_dirty);
    assert_eq!(app.todos[0].planka_list_id.as_deref(), Some("done-list"));
    assert_eq!(app.error_message.as_deref(), Some("Planka move to Done failed: HTTP 500"));
    assert_eq!(app.pending_ops_len(), 1);
    assert!(app.pending_ops[0].kind == PendingOpKind::Move);
    assert_eq!(app.pending_ops[0].list_id.as_deref(), Some("todo-list"));
    assert_eq!(app.pending_ops[0].card_id.as_deref(), Some("c1"));
    assert_eq!(app.pending_ops[0].ts, 4);
}

#[test]
fn done_without_a_session_is_queued_where_the_lists_are_known() {
    let offline = || Err("Planka config not set. Press 'L' to login/setup.".to_string());
    let mut app = app_with_lists();
    app.todos = vec![local("a", "Inbox", Some("c1"))];
    assert_eq!(show(&app.mark_done_request(false)), "None");
    app.mark_done_at(offline(), 8, None);
    assert!(app.todos[0].done);
    assert!(app.todos[0].sync_dirty);
    assert_eq!(app.todos[0].planka_list_id, None);
    assert_eq!(app.pending_ops_len(), 1);
    assert!(app.pending_ops[0].kind == PendingOpKind::Move);
    assert_eq!(app.pending_ops[0].card_id.as_deref(), Some("c1"));
    assert_eq!(app.pending_ops[0].list_id.as_deref(), Some("done-list"));
    assert_eq!(app.pending_ops[0].ts, 8);
    assert_eq!(app.error_message.as_deref(), Some("Planka config not set. Press 'L' to login/setup."));
}

#[test]
fn done_without_a_session_and_without_lists_is_kept_dirty() {
    let offline = || Err("Planka server URL is empty".to_string());
    let mut app = App::new(None, Vec::new());
    app.todos = vec![local("a", "Inbox", Some("c1")), local("b", "Inbox", None)];
    app.mark_done(offline(), None);
    assert!(app.todos[0].done);
    assert!(app.todos[0].sync_dirty);
    assert_eq!(app.pending_ops_len(), 0);
    assert_eq!(app.error_message.as_deref(), Some("Planka server URL is empty"));
    app.error_message = None;
    app.selected = 0;
    app.mark_done(offline(), None);
    assert!(app.todos[1].done);
    assert!(!app.todos[1].sync_dirty);
    assert_eq!(app.error_message, None);
    app.selected = 4;
    app.mark_done(offline(), None);
    assert!(app.todos[0].done && app.todos[1].done);
}

#[test]
fn done_with_a_session_waits_for_the_lists() {
    let mut app = App::new(None, Vec::new());
    app.todos = vec![local("a", "Inbox", Some("c1"))];
    app.mark_done(Ok(()), None);
    assert!(!app.todos[0].done);
    assert!(!app.todos[0].sync_dirty);
    let mut app = app_with_lists();
    app.todos = vec![local("a", "Inbox", None)];
    app.mark_done(Ok(()), None);
    assert!(app.todos[0].done);
    assert!(!app.todos[0].sync_dirty);
    assert_eq!(app.pending_ops_len(), 0);
}

#[test]
fn doing_is_toggled() {
    let mut app = app_with_lists();
    app.todos = vec![local("a", "Inbox", Some("c1")), local("b", "Inbox", None)];
    app.todos[0].done = true;
    assert_eq!(app.filtered_todos(), vec![1, 0]);
    app.selected = 1;
    assert_eq!(show(&app.mark_doing_request()), "Some(MoveCard { card_id: \"c1\", list_id: \"doing-list\" })");
    app.mark_doing_at(Ok(()), 3, Some(RemoteReply::Done(Ok(()))));
    assert!(!app.todos[0].done);
    assert_eq!(app.todos[0].planka_list_id.as_deref(), Some("doing-list"));
    assert_eq!(app.filtered_todos(), vec![0, 1]);
    app.selected = 0;
    assert_eq!(show(&app.mark_doing_request()), "Some(MoveCard { card_id: \"c1\", list_id: \"todo-list\" })");
    app.mark_doing_at(Ok(()), 4, Some(RemoteReply::Done(Err("no".to_string()))));
    assert_eq!(app.todos[0].planka_list_id.as_deref(), Some("doing-list"));
    assert!(app.todos[0].sync_dirty);
    assert_eq!(app.error_message.as_deref(), Some("Planka move to Doing failed: no"));
    assert_eq!(app.pending_ops_len(), 1);
    assert_eq!(app.pending_ops[0].list_id.as_deref(), Some("todo-list"));
    app.selected = 1;
    assert_eq!(show(&app.mark_doing_request()), "None");
    app.mark_doing(Ok(()), None);
    assert_eq!(app.todos[1].planka_list_id.as_deref(), Some("doing-list"));
    assert!(app.todos[1].sync_dirty);
    assert_eq!(app.pending_ops_len(), 1);
}

#[test]
fn doing_without_a_session_is_queued_where_the_lists_are_known() {
    let mut app = app_with_lists();
    app.todos = vec![local("a", "Inbox", Some("c1")), local("b", "Inbox", None)];
    app.todos[0].done = true;
    app.selected = 1;
    app.mark_doing_at(Err("Planka config not set. Press 'L' to login/setup.".to_string()), 6, None);
    assert_eq!(app.error_message.as_deref(), Some("Planka config not set. Press 'L' to login/setup."));
    assert_eq!(app.todos[0].planka_list_id, None);
    assert!(!app.todos[0].done);
    assert!(app.todos[0].sync_dirty);
    assert_eq!(app.pending_ops_len(), 1);
    assert!(app.pending_ops[0].kind == PendingOpKind::Move);
    assert_eq!(app.pending_ops[0].card_id.as_deref(), Some("c1"));
    assert_eq!(app.pending_ops[0].list_id.as_deref(), Some("doing-list"));
    assert_eq!(app.pending_ops[0].ts, 6);
    app.error_message = None;
    app.selected = 1;
    app.mark_doing(Err("offline".to_string()), None);
    assert_eq!(app.todos[1].planka_list_id.as_deref(), Some("doing-list"));
    assert!(app.todos[1].sync_dirty);
    assert_eq!(app.pending_ops_len(), 1);
    assert_eq!(app.error_message, None);
}

#[test]
fn doing_needs_the_lists() {
    let mut app = App::new(None, Vec::new());
    app.todos = vec![local("a", "Inbox", Some("c1"))];
    app.todos[0].done = true;
    app.mark_doing(Ok(()), None);
    assert!(app.todos[0].done);
    assert_eq!(app.error_message, None);
    app.mark_doing(Err("Planka server URL is empty".to_string()), None);
    assert!(app.todos[0].done);
    assert!(!app.todos[0].sync_dirty);
    assert_eq!(app.pending_ops_len(), 0);
    assert_eq!(app.error_message.as_deref(), Some("Planka server URL is empty"));
}

#[test]
fn lists_are_asked_for_once() {
    let mut app = App::new(None, Vec::new());
    assert_eq!(show(&app.lists_request()), "Some(ResolveLists { board_name: \"Inbox\" })");
    app.lists_reply(RemoteReply::Lists(Err("down".to_string())), false);
    assert_eq!(app.error_message, None);
    app.lists_reply(RemoteReply::Lists(Err("down".to_string())), true);
    assert_eq!(app.error_message.as_deref(), Some("down"));
    app.lists_reply(RemoteReply::Lists(Ok(lists())), true);
    assert_eq!(show(&app.lists_request()), "None");
    assert!(app.planka_lists.is_some());
}

#[test]
fn session_needs_a_configuration_with_a_server() {
    let mut app = App::new(None, Vec::new());
    assert_eq!(app.ensure_planka_client().unwrap_err(), "Planka config not set. Press 'L' to login/setup.");
    let cfg = |url: &str| PlankaConfig { server_url: url.to_string(), email_or_username: "u".to_string(), password: "p".to_string(), token: None };
    app.planka_config = Some(cfg("  "));
    assert_eq!(app.ensure_planka_client().unwrap_err(), "Planka server URL is empty");
    app.planka_config = Some(cfg("http://x"));
    let c = app.ensure_planka_client().unwrap();
    assert_eq!(c.server_url, "http://x");
    assert!(c.needs_login());
    let mut with_token = cfg("http://x");
    with_token.token = Some("t".to_string());
    assert!(!with_token.needs_login());
    app.session_opened(with_token);
    assert_eq!(app.planka_config.as_ref().and_then(|c| c.token.as_deref()), Some("t"));
    app.report("hello".to_string());
    assert_eq!(app.error_message.as_deref(), Some("hello"));
}

#[test]
fn login_dialogue_walks_through_its_fields() {
    let mut app = App::new(None, Vec::new());
    app.error_message = Some("x".to_string());
    assert!(app.submit_planka_setup().is_none());
    app.start_planka_setup();
    assert!(app.planka_setup == Some(PlankaSetupStep::Url));
    assert!(app.input_mode == InputMode::EditingPlanka);
    assert_eq!(app.input_planka, "");
    assert_eq!(app.error_message, None);
    app.input_planka = "  http://planka.example \n".to_string();
    assert!(app.submit_planka_setup().is_none());
    assert!(app.planka_setup == Some(PlankaSetupStep::Username));
    assert_eq!(app.planka_config.as_ref().unwrap().server_url, "http://planka.example");
    assert_eq!(app.input_planka, "");
    app.input_planka = " me ".to_string();
    assert!(app.submit_planka_setup().is_none());
    assert!(app.planka_setup == Some(PlankaSetupStep::Password));
    assert_eq!(app.planka_config.as_ref().unwrap().email_or_username, "me");
    app.input_planka = " secret ".to_string();
    let login = app.submit_planka_setup().expect("the configuration to log in with");
    assert_eq!(login.server_url, "http://planka.example");
    assert_eq!(login.email_or_username, "me");
    assert_eq!(login.password, " secret ");
    assert!(login.token.is_none());
    assert!(app.planka_setup.is_none());
    assert!(app.input_mode == InputMode::Normal);
    assert_eq!(app.input_planka, "");
    assert_eq!(app.planka_config.as_ref().unwrap().password, "");
    app.planka_login_result(Err("HTTP 401".to_string()));
    assert_eq!(app.error_message.as_deref(), Some("Planka login failed: HTTP 401"));
    let mut saved = login;
    saved.token = Some("t".to_string());
    app.planka_login_result(Ok(saved));
    assert_eq!(app.error_message.as_deref(), Some("Planka login successful"));
    assert_eq!(app.planka_config.as_ref().unwrap().token.as_deref(), Some("t"));
    app.start_planka_setup();
    assert_eq!(app.input_planka, "http://planka.example");
    app.submit_planka_setup();
    assert_eq!(app.input_planka, "me");
    app.submit_planka_setup();
    assert_eq!(app.input_planka, " secret ");
}

#[test]
fn projects_are_stepped_through_in_a_circle() {
    let mut app = App::new(None, Vec::new());
    app.projects = vec!["A".to_string(), "B".to_string(), "C".to_string()];
    app.next_project();
    assert_eq!(app.current_project, "A");
    app.next_project();
    assert_eq!(app.current_project, "B");
    app.next_project();
    app.next_project();
    assert_eq!(app.current_project, "A");
    app.prev_project();
    assert_eq!(app.current_project, "C");
    app.prev_project();
    assert_eq!(app.current_project, "B");
    app.current_project = "Z".to_string();
    app.prev_project();
    assert_eq!(app.current_project, "A");
    app.projects.clear();
    app.next_project();
    assert_eq!(app.projects, vec!["Inbox".to_string()]);
    assert_eq!(app.current_project, "Inbox");
    app.next_project();
    assert_eq!(app.current_project, "Inbox");
}

#[test]
fn project_is_set_by_name() {
    let mut app = App::new(None, Vec::new());
    app.set_current_project("  Work ");
    assert_eq!(app.current_project, "Work");
    assert_eq!(app.projects, vec!["Inbox".to_string(), "Work".to_string()]);
    app.set_current_project(" \t ");
    assert_eq!(app.current_project, "Work");
    app.set_current_project("Inbox");
    assert_eq!(app.current_project, "Inbox");
    assert_eq!(app.projects.len(), 2);
}

#[test]
fn projects_are_refreshed_from_the_tasks() {
    let mut app = App::new(None, Vec::new());
    app.refresh_projects_from_todos();
    assert_eq!(app.projects, vec!["Inbox".to_string()]);
    app.todos = vec![local("a", "b", None), local("b", "", None), local("c", "a", None), local("d", "b", None), local("e", "B", None), local("f", "ab", None), local("g", "é", None)];
    app.current_project = "b".to_string();
    app.refresh_projects_from_todos();
    assert_eq!(app.projects, vec!["B".to_string(), "a".to_string(), "ab".to_string(), "b".to_string(), "é".to_string()]);
    assert_eq!(app.current_project, "b");
    app.current_project = "zzz".to_string();
    app.refresh_projects_from_todos();
    assert_eq!(app.current_project, "B");
    app.todos = vec![local("b", "", None)];
    app.refresh_projects_from_todos();
    assert_eq!(app.projects, vec!["Inbox".to_string()]);
    assert_eq!(app.current_project, "Inbox");
}

#[test]
fn board_dialogue_offers_the_projects_by_name() {
    let board = |name: &str, pid: Option<&str>, pname: Option<&str>| PlankaBoard {
        id: format!("id-{}", name),
        name: name.to_string(),
        project_id: pid.map(|p| p.to_string()),
        project_name: pname.map(|p| p.to_string()),
    };
    let mut app = App::new(None, Vec::new());
    assert!(app.needs_boards());
    app.input_board = "x".to_string();
    app.error_message = Some("x".to_string());
    app.begin_create_board(Some(vec![
        board("one", Some("proj-2"), Some("beta")),
        board("two", None, None),
        board("Inbox", Some("proj-1"), Some("Zeta")),
        board("four", Some("proj-2"), Some("other name")),
        board("five", Some("proj-3"), None),
        board("six", Some("proj-4"), Some("Alpha")),
        board("seven", Some("proj-5"), Some("BETA")),
    ]));
    assert!(!app.needs_boards());
    let shown: Vec<(&str, &str)> = app.create_board_projects.iter().map(|(a, b)| (a.as_str(), b.as_str())).collect();
    assert_eq!(shown, vec![("proj-4", "Alpha"), ("proj-2", "beta"), ("proj-5", "BETA"), ("proj-3", "Project"), ("proj-1", "Zeta")]);
    assert_eq!(app.create_board_project_index, 4);
    assert!(app.input_mode == InputMode::CreatingBoard);
    assert_eq!(app.input_board, "");
    assert_eq!(app.error_message, None);
    app.current_project = "two".to_string();
    app.begin_create_board(Some(vec![]));
    assert_eq!(app.create_board_projects.len(), 5);
    assert_eq!(app.create_board_project_index, 0);
}

#[test]
fn board_is_made_in_the_chosen_project() {
    let mut app = App::new(None, Vec::new());
    app.create_board_projects = vec![("proj-1".to_string(), "A".to_string()), ("proj-2".to_string(), "B".to_string())];
    app.create_board_project_index = 1;
    assert_eq!(app.submit_create_board_request(Ok(())), Err("Board name cannot be empty.".to_string()));
    app.input_board = "  Plans ".to_string();
    assert_eq!(app.submit_create_board_request(Err("offline".to_string())), Err("offline".to_string()));
    assert_eq!(app.submit_create_board_request(Ok(())), Ok(("proj-2".to_string(), "Plans".to_string())));
    app.create_board_project_index = 2;
    assert_eq!(
        app.submit_create_board_request(Ok(())),
        Err("No project selected and current board not found on Planka; sync first.".to_string())
    );
    app.planka_boards = vec![PlankaBoard { id: "b".to_string(), name: "Inbox".to_string(), project_id: Some("proj-9".to_string()), project_name: None }];
    assert_eq!(app.submit_create_board_request(Ok(())), Ok(("proj-9".to_string(), "Plans".to_string())));
    assert_eq!(app.submit_create_board(Err("HTTP 500".to_string()), None), Err("HTTP 500".to_string()));
    assert_eq!(app.input_board, "  Plans ");
    let fetched = vec![PlankaBoard { id: "n".to_string(), name: "Plans".to_string(), project_id: None, project_name: None }];
    assert_eq!(app.submit_create_board(Ok("n".to_string()), Some(fetched)), Ok(()));
    assert_eq!(app.current_project, "Plans");
    assert_eq!(app.projects, vec!["Plans".to_string()]);
    assert_eq!(app.planka_boards.len(), 1);
    assert_eq!(app.error_message.as_deref(), Some("Board created"));
    assert!(app.create_board_projects.is_empty());
    assert_eq!(app.create_board_project_index, 0);
    assert_eq!(app.input_board, "");
    assert!(app.input_mode == InputMode::Normal);
}

#[test]
fn project_is_made_with_a_first_board() {
    let mut app = App::new(None, Vec::new());
    app.begin_create_project();
    assert!(app.input_mode == InputMode::CreatingProject);
    assert_eq!(app.submit_create_project_request(Ok(())), Err("Project name cannot be empty.".to_string()));
    app.input_project = " Home ".to_string();
    assert_eq!(app.submit_create_project_request(Err("offline".to_string())), Err("offline".to_string()));
    assert_eq!(app.submit_create_project_request(Ok(())), Ok("Home".to_string()));
    assert_eq!(App::first_board_name(), "Main");
    assert_eq!(app.submit_create_project(Err("no".to_string()), None), Err("no".to_string()));
    assert_eq!(app.current_project, "Inbox");
    app.selected = 2;
    assert_eq!(app.submit_create_project(Ok("b".to_string()), None), Ok(()));
    assert_eq!(app.current_project, "Main");
    assert_eq!(app.projects, vec!["Inbox".to_string()]);
    assert_eq!(app.selected, 0);
    assert_eq!(app.input_project, "");
    assert_eq!(app.error_message.as_deref(), Some("Project created"));
}

#[test]
fn card_is_opened_and_closed() {
    let mut app = App::new(None, Vec::new());
    assert_eq!(app.open_selected_card(), None);
    assert_eq!(app.error_message, None);
    app.todos = vec![local("a", "Inbox", None), local("b", "Inbox", Some("c2"))];
    assert_eq!(app.open_selected_card(), None);
    let told = ["This", "task is not linked to a Planka card yet"].join(" ");
    assert_eq!(app.error_message, Some(told));
    app.selected = 1;
    assert_eq!(app.open_selected_card(), Some("c2".to_string()));
    app.card_opened(Err("HTTP 404".to_string()), None);
    assert_eq!(app.error_message.as_deref(), Some("HTTP 404"));
    assert!(app.view_card.is_none());
    app.view_scroll = 7;
    app.card_opened(Ok(details("c2")), Some(vec![comment(None, "hi")]));
    assert_eq!(app.view_card.as_ref().map(|c| c.id.as_str()), Some("c2"));
    assert_eq!(app.view_comments.len(), 1);
    assert_eq!(app.view_scroll, 0);
    assert!(app.input_mode == InputMode::ViewingCard);
    assert_eq!(app.error_message, None);
    app.card_opened(Ok(details("c2")), None);
    assert!(app.view_comments.is_empty());
    app.view_scroll = 3;
    app.close_view();
    assert!(app.view_card.is_none());
    assert_eq!(app.view_scroll, 0);
    assert!(app.input_mode == InputMode::Normal);
}

#[test]
fn comment_is_begun_and_submitted() {
    let mut app = App::new(None, Vec::new());
    app.input_comment = "old".to_string();
    app.begin_new_comment();
    assert_eq!(app.input_comment, "");
    assert!(app.input_mode == InputMode::CreatingComment);
    app.begin_reply_to_last_comment();
    assert_eq!(app.input_comment, "");
    app.view_comments = vec![comment(Some("ann"), "first"), comment(Some("bob"), "second")];
    app.begin_reply_to_last_comment();
    assert_eq!(app.input_comment, "@bob ");
    app.view_comments = vec![comment(None, "line one\r\nline two")];
    app.begin_reply_to_last_comment();
    assert_eq!(app.input_comment, "> line one\n");
    app.view_comments = vec![comment(None, "\nline two")];
    app.begin_reply_to_last_comment();
    assert_eq!(app.input_comment, "");
    app.view_comments = vec![comment(None, "no end\r")];
    app.begin_reply_to_last_comment();
    assert_eq!(app.input_comment, "> no end\r\n");
    app.input_comment = "  ".to_string();
    assert_eq!(app.submit_comment_request(Ok(())), Err("Comment cannot be empty.".to_string()));
    app.input_comment = " nice ".to_string();
    assert_eq!(app.submit_comment_request(Ok(())), Err("No card open".to_string()));
    app.view_card = Some(details("c7"));
    assert_eq!(app.submit_comment_request(Err("offline".to_string())), Err("offline".to_string()));
    assert_eq!(app.submit_comment_request(Ok(())), Ok(("c7".to_string(), "nice".to_string())));
    assert_eq!(app.submit_comment(Err("HTTP 500".to_string()), None), Err("HTTP 500".to_string()));
    assert_eq!(app.input_comment, " nice ");
    assert_eq!(app.submit_comment(Ok("id".to_string()), None), Ok(()));
    assert_eq!(app.view_comments.len(), 1);
    assert_eq!(app.submit_comment(Ok("id".to_string()), Some(vec![])), Ok(()));
    assert!(app.view_comments.is_empty());
    assert_eq!(app.input_comment, "");
    assert!(app.input_mode == InputMode::ViewingCard);
    assert_eq!(app.error_message.as_deref(), Some("Comment added"));
}
