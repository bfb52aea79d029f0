use chrono::{Datelike, Timelike};
use planky::app::App;
use planky::dates::{format_planka_created, format_planka_due, local_of, plain_date};
use planky::delta::{apply_incoming, find_card, render, Delta, Incoming};
use planky::todo::{Status, Todo};
use planky::planka::PlankaLists;

fn task(description: &str, project: &str, card: Option<&str>, dirty: bool) -> Todo {
    Todo {
        description: description.to_string(),
        due_date: Some("2031-01-02".to_string()),
        created_date: "2030-12-01".to_string(),
        done: false,
        project: project.to_string(),
        planka_card_id: card.map(|c| c.to_string()),
        planka_list_id: Some("todo-list".to_string()),
        planka_board_id: Some("b1".to_string()),
        sync_dirty: dirty,
    }
}

fn incoming(project: &str, id: &str, name: &str) -> Incoming {
    Incoming {
        project: project.to_string(),
        id: id.to_string(),
        name: name.to_string(),
        due: Some("2032-05-06 07:08".to_string()),
        created: None,
        done: true,
        list_id: "done-list".to_string(),
    }
}

fn upsert(project: &str, id: &str, name: &str, due: Option<&str>, created: Option<&str>) -> Delta {
    Delta::Upsert {
        project: project.to_string(),
        id: id.to_string(),
        name: name.to_string(),
        due: due.map(|d| d.to_string()),
        created: created.map(|d| d.to_string()),
        done: false,
        list_id: "todo-list".to_string(),
    }
}

fn lists() -> PlankaLists {
    PlankaLists {
        board_id: "b1".to_string(),
        todo_list_id: "todo-list".to_string(),
        doing_list_id: "doing-list".to_string(),
        done_list_id: "done-list".to_string(),
    }
}

#[test]
fn dirty_task_keeps_its_description() {
    let mut app = App::new(None, Vec::new());
    let mut t = task("Write report", "Inbox", Some("c9"), true);
    t.due_date = None;
    app.todos.push(t);
    app.apply_delta(upsert("Inbox", "c9", "Write report v2", Some("2031-03-04"), None));
    assert_eq!(app.todos.len(), 1);
    assert_eq!(app.todos[0].description, "Write report");
    assert_eq!(app.todos[0].due_date, None);
    assert!(!app.todos[0].done);
    assert!(app.todos[0].sync_dirty);
}

#[test]
fn dirty_suppression_leaves_every_field() {
    let mut todos = vec![task("a", "P", Some("c1"), true)];
    apply_incoming(&mut todos, incoming("P", "c1", "changed"), "2033-01-01".to_string());
    assert_eq!(todos.len(), 1);
    assert_eq!(todos[0].description, "a");
    assert_eq!(todos[0].due_date.as_deref(), Some("2031-01-02"));
    assert_eq!(todos[0].planka_list_id.as_deref(), Some("todo-list"));
    assert!(!todos[0].done);
}

#[test]
fn clean_task_is_overwritten() {
    let mut todos = vec![task("a", "P", Some("c1"), false)];
    apply_incoming(&mut todos, incoming("P", "c1", "changed"), "2033-01-01".to_string());
    assert_eq!(todos.len(), 1);
    assert_eq!(todos[0].description, "changed");
    assert_eq!(todos[0].due_date.as_deref(), Some("2032-05-06 07:08"));
    assert_eq!(todos[0].created_date, "2030-12-01");
    assert_eq!(todos[0].planka_list_id.as_deref(), Some("done-list"));
    assert_eq!(todos[0].planka_board_id.as_deref(), Some("b1"));
    assert!(todos[0].done);
    assert!(!todos[0].sync_dirty);
}

#[test]
fn overwrite_takes_the_creation_date_that_comes() {
    let mut todos = vec![task("a", "P", Some("c1"), false)];
    let mut c = incoming("P", "c1", "changed");
    c.created = Some("2029-09-09".to_string());
    apply_incoming(&mut todos, c, "2033-01-01".to_string());
    assert_eq!(todos[0].created_date, "2029-09-09");
}

#[test]
fn unknown_card_is_adopted() {
    let mut todos = vec![task("a", "P", Some("c1"), false)];
    apply_incoming(&mut todos, incoming("P", "c2", "new"), "2033-01-01".to_string());
    assert_eq!(todos.len(), 2);
    assert_eq!(todos[1].description, "new");
    assert_eq!(todos[1].project, "P");
    assert_eq!(todos[1].planka_card_id.as_deref(), Some("c2"));
    assert_eq!(todos[1].planka_list_id.as_deref(), Some("done-list"));
    assert_eq!(todos[1].planka_board_id, None);
    assert_eq!(todos[1].created_date, "2033-01-01");
    assert!(todos[1].done);
    assert!(!todos[1].sync_dirty);
}

#[test]
fn same_card_in_another_project_is_another_task() {
    let mut todos = vec![task("a", "P", Some("c1"), false)];
    apply_incoming(&mut todos, incoming("Q", "c1", "new"), "2033-01-01".to_string());
    assert_eq!(todos.len(), 2);
    assert_eq!(todos[0].description, "a");
    assert_eq!(todos[1].project, "Q");
}

#[test]
fn first_counterpart_decides() {
    let mut todos = vec![task("first", "P", Some("c1"), true), task("second", "P", Some("c1"), false)];
    apply_incoming(&mut todos, incoming("P", "c1", "changed"), "2033-01-01".to_string());
    assert_eq!(todos[0].description, "first");
    assert_eq!(todos[1].description, "second");
    let mut todos = vec![task("first", "P", Some("c1"), false), task("second", "P", Some("c1"), true)];
    apply_incoming(&mut todos, incoming("P", "c1", "changed"), "2033-01-01".to_string());
    assert_eq!(todos[0].description, "changed");
    assert_eq!(todos[1].description, "second");
}

#[test]
fn applying_twice_is_applying_once() {
    for start in [Vec::new(), vec![task("a", "P", Some("c1"), false)], vec![task("a", "P", Some("c1"), true)]] {
        let mut once = start;
        apply_incoming(&mut once, incoming("P", "c1", "changed"), "2033-01-01".to_string());
        let mut twice: Vec<Todo> = once.iter().map(|t| t.clone()).collect();
        apply_incoming(&mut twice, incoming("P", "c1", "changed"), "2034-02-02".to_string());
        assert_eq!(once.len(), twice.len());
        for (a, b) in once.iter().zip(twice.iter()) {
            assert_eq!(format!("{:?}", a), format!("{:?}", b));
        }
    }
}

#[test]
fn find_card_gives_the_first_position() {
    let todos = vec![task("x", "Q", Some("c1"), false), task("a", "P", Some("c1"), false), task("b", "P", Some("c1"), false)];
    assert_eq!(find_card(&todos, &"P".to_string(), &"c1".to_string()), Some(1));
    assert_eq!(find_card(&todos, &"P".to_string(), &"c2".to_string()), None);
}

#[test]
fn plain_date_keeps_ten_characters() {
    assert_eq!(plain_date("2031-03-04"), Some("2031-03-04".to_string()));
    assert_eq!(plain_date("2031-03-04 and more"), Some("2031-03-04".to_string()));
    assert_eq!(plain_date("2031-03-0"), None);
    assert_eq!(plain_date("20310-03-04"), None);
    assert_eq!(plain_date(""), None);
    assert_eq!(plain_date("abcd-éééééé"), Some("abcd-ééééé".to_string()));
}

#[test]
fn due_of_a_plain_date_is_the_date() {
    assert_eq!(format_planka_due("2031-03-04"), Some("2031-03-04".to_string()));
    assert_eq!(format_planka_due("soon"), None);
}

#[test]
fn due_of_a_timestamp_is_a_local_minute() {
    let shown = format_planka_due("2031-03-04T10:20:30Z").expect("a timestamp is accepted");
    assert_eq!(shown.len(), 16);
    assert_eq!(&shown[4..5], "-");
    assert_eq!(&shown[10..11], " ");
    assert_eq!(&shown[13..14], ":");
    assert_ne!(shown, "2031-03-04T10:20");
}

#[test]
fn created_of_a_plain_date_is_the_date() {
    assert_eq!(format_planka_created("2031-03-04"), "2031-03-04");
    let shown = format_planka_created("2031-03-04T10:20:30+00:00");
    assert_eq!(shown.len(), 10);
    let fallback = format_planka_created("nonsense");
    assert_eq!(fallback.len(), 10);
    assert_eq!(&fallback[4..5], "-");
}

#[test]
fn render_keeps_what_is_not_a_date() {
    let c = render(&upsert("P", "c1", "n", Some("2031-03-04"), Some("2030-01-01")));
    assert_eq!(c.project, "P");
    assert_eq!(c.id, "c1");
    assert_eq!(c.name, "n");
    assert_eq!(c.due.as_deref(), Some("2031-03-04"));
    assert_eq!(c.created.as_deref(), Some("2030-01-01"));
    assert!(!c.done);
    assert_eq!(c.list_id, "todo-list");
    let c = render(&upsert("P", "c1", "n", None, None));
    assert_eq!(c.due, None);
    assert_eq!(c.created, None);
}

#[test]
fn drain_applies_in_order() {
    let mut app = App::new(None, Vec::new());
    app.drain_inbound(vec![
        upsert("P", "c1", "one", None, Some("2030-01-01")),
        upsert("P", "c2", "two", None, None),
        upsert("P", "c1", "one again", Some("2031-03-04"), None),
    ]);
    assert_eq!(app.todos.len(), 2);
    assert_eq!(app.todos[0].description, "one again");
    assert_eq!(app.todos[0].created_date, "2030-01-01");
    assert_eq!(app.todos[0].due_date.as_deref(), Some("2031-03-04"));
    assert_eq!(app.todos[1].description, "two");
    assert_eq!(app.todos[1].created_date.len(), 10);
}

#[test]
fn status_is_derived() {
    let l = Some(lists());
    let mut t = task("a", "P", Some("c1"), false);
    assert_eq!(t.status(&l), Status::Todo);
    t.planka_list_id = Some("doing-list".to_string());
    assert_eq!(t.status(&l), Status::Doing);
    t.planka_list_id = Some("done-list".to_string());
    assert_eq!(t.status(&l), Status::Done);
    t.planka_list_id = Some("doing-list".to_string());
    t.done = true;
    assert_eq!(t.status(&l), Status::Done);
    t.planka_list_id = None;
    assert_eq!(t.status(&l), Status::Done);
    t.done = false;
    assert_eq!(t.status(&l), Status::Todo);
    t.planka_list_id = Some("doing-list".to_string());
    assert_eq!(t.status(&None), Status::Todo);
}

#[test]
fn new_task_is_unlinked() {
    let t = Todo::new("a".to_string(), Some("2031-03-04".to_string()));
    assert_eq!(t.description, "a");
    assert_eq!(t.due_date.as_deref(), Some("2031-03-04"));
    assert_eq!(t.project, "Inbox");
    assert_eq!(t.created_date.len(), 10);
    assert!(!t.done && !t.sync_dirty);
    assert!(t.planka_card_id.is_none() && t.planka_list_id.is_none() && t.planka_board_id.is_none());
}

#[test]
fn due_of_a_timestamp_is_what_the_time_zone_shows() {
    for raw in [
        "2031-03-04T10:20:30Z",
        "2031-03-04T10:20:30.250Z",
        "1999-12-31T23:59:59+05:30",
        "2024-02-29T00:00:00-11:00",
        "2016-12-31T23:59:60Z",
        "1969-07-20T20:17:40Z",
    ] {
        let instant = chrono::DateTime::parse_from_rfc3339(raw).expect("a timestamp");
        let local = instant.with_timezone(&chrono::Local);
        assert_eq!(format_planka_due(raw), Some(local.format("%Y-%m-%d %H:%M").to_string()));
        assert_eq!(format_planka_created(raw), local.format("%Y-%m-%d").to_string());
    }
}

#[test]
fn a_timestamp_outside_the_calendar_is_shown_by_its_text() {
    assert_eq!(
        format_planka_due("9999-12-31T23:59:59-01:00"),
        Some("9999-12-31".to_string())
    );
    assert_eq!(format_planka_created("0000-01-01T00:00:00+01:00"), "0000-01-01");
}

#[test]
fn created_of_what_is_no_date_is_today() {
    let before = chrono::Local::now().format("%Y-%m-%d").to_string();
    let shown = format_planka_created("nonsense");
    let after = chrono::Local::now().format("%Y-%m-%d").to_string();
    assert!(shown == before || shown == after);
}

#[test]
fn only_a_timestamp_has_a_local_time() {
    let raw = "2031-03-04T10:20:30+02:00";
    let local = chrono::DateTime::parse_from_rfc3339(raw)
        .expect("a timestamp")
        .with_timezone(&chrono::Local);
    assert_eq!(
        local_of(raw),
        Some((local.num_days_from_ce(), local.hour(), local.minute()))
    );
    assert_eq!(local_of("2031-03-04"), None);
    assert_eq!(local_of("2031-03-04 10:20"), None);
    assert_eq!(local_of(""), None);
    assert_eq!(local_of("9999-12-31T23:59:59-01:00"), None);
}
