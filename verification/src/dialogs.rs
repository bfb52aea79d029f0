//! The dialogues: logging in, switching projects, making boards and
//! projects, and reading and writing the comments of a card.

use vstd::prelude::*;
use crate::actions::outcome;
use crate::actions::selected_task;
use crate::app::board_names;
use crate::app::has_name;
use crate::app::names_of;
use crate::app::App;
use crate::app::AppModel;
use crate::app::InputMode;
use crate::app::PlankaSetupStep;
use crate::planka::config_outcome;
use crate::planka::BoardModel;
use crate::planka::ConfigModel;
use crate::planka::PlankaBoard;
use crate::planka::PlankaCardDetails;
use crate::planka::PlankaComment;
use crate::planka::PlankaConfig;
use crate::order::ascending;
use crate::order::in_order;
use crate::order::insert_ascending;
use crate::planka::PlankaCard;
use crate::planka::PlankaLists;
use crate::planka::CardModel;
use crate::sync::came;
use crate::sync::cards_outcome;
use crate::sync::list_all;
use crate::sync::taken;
use crate::sync::why_not;
use crate::sync::listed;
use crate::sync::pulls;
use crate::todo::TodoModel;
use crate::text::chars_of;
use crate::text::clone_opt;
use crate::text::joined;
use crate::find::first_where;
use crate::find::lemma_first_absent;
use crate::find::lemma_first_found;
use crate::find::position;
use crate::text::string_of;
use crate::text::text_outcome;
use crate::text::trim;
use crate::text::trimmed;

verus! {

/// The configuration that the login dialogue works on: the one at hand, or
/// an empty one.
pub open spec fn setup_config(a: AppModel) -> ConfigModel {
    match a.planka_config {
        Some(c) => c,
        None => ConfigModel {
            server_url: Seq::empty(),
            email_or_username: Seq::empty(),
            password: Seq::empty(),
            token: None,
        },
    }
}

/// The application with the login dialogue opened: it asks for the server
/// address and offers the one at hand.
pub open spec fn setup_started(a: AppModel) -> AppModel {
    AppModel {
        planka_setup: Some(PlankaSetupStep::Url),
        input_planka: setup_config(a).server_url,
        input_mode: InputMode::EditingPlanka,
        error_message: None,
        ..a
    }
}

/// The application after one field of the login dialogue was entered. The
/// server address and the user name are trimmed and kept, and the dialogue
/// asks for the next field, offering what is at hand. The password ends the
/// dialogue.
pub open spec fn setup_submitted(a: AppModel) -> AppModel {
    let c = setup_config(a);
    match a.planka_setup {
        None => a,
        Some(PlankaSetupStep::Url) => AppModel {
            planka_config: Some(ConfigModel { server_url: trimmed(a.input_planka), ..c }),
            planka_setup: Some(PlankaSetupStep::Username),
            input_planka: c.email_or_username,
            ..a
        },
        Some(PlankaSetupStep::Username) => AppModel {
            planka_config: Some(ConfigModel { email_or_username: trimmed(a.input_planka), ..c }),
            planka_setup: Some(PlankaSetupStep::Password),
            input_planka: c.password,
            ..a
        },
        Some(PlankaSetupStep::Password) => AppModel {
            planka_setup: None,
            input_planka: Seq::empty(),
            input_mode: InputMode::Normal,
            ..a
        },
    }
}

/// The configuration to log in with once the password is entered.
pub open spec fn setup_login(a: AppModel) -> Option<ConfigModel> {
    match a.planka_setup {
        Some(PlankaSetupStep::Password) => Some(
            ConfigModel { password: a.input_planka, ..setup_config(a) },
        ),
        _ => None,
    }
}

/// The application after the login was tried.
pub open spec fn logged_in(a: AppModel, result: Result<ConfigModel, Seq<char>>) -> AppModel {
    match result {
        Ok(c) => AppModel {
            planka_config: Some(c),
            error_message: Some("Planka login successful"@),
            ..a
        },
        Err(e) => AppModel { error_message: Some("Planka login failed: "@ + e), ..a },
    }
}

/// The position of the current project among the projects.
pub open spec fn current_position(a: AppModel) -> Option<int> {
    first_where(a.projects, |p: Seq<char>| is_name(p, a.current_project))
}

/// Whether a project has the given name.
pub open spec fn is_name(p: Seq<char>, name: Seq<char>) -> bool {
    p == name
}

/// The projects to step through: those at hand, or the default project
/// where there is none.
pub open spec fn steppable(a: AppModel) -> Seq<Seq<char>> {
    if a.projects.len() == 0 {
        crate::app::default_projects()
    } else {
        a.projects
    }
}

/// The application with the next project made current, or the one before
/// where `forward` is not set, going round at the ends. Where the current project is not among the projects,
/// the first one becomes current.
pub open spec fn stepped(a: AppModel, forward: bool) -> AppModel {
    let projects = steppable(a);
    let b = AppModel { projects, ..a };
    let n = projects.len() as int;
    match current_position(b) {
        Some(i) => AppModel {
            current_project: projects[if forward {
                (i + 1) % n
            } else {
                (i + n - 1) % n
            }],
            ..b
        },
        None => AppModel { current_project: projects[0], ..b },
    }
}

/// The application with the given project made current. The name is
/// trimmed; an empty name changes nothing. A new name joins the projects.
pub open spec fn project_set(a: AppModel, name: Seq<char>) -> AppModel {
    let n = trimmed(name);
    if n.len() == 0 {
        a
    } else {
        AppModel {
            projects: if a.projects.contains(n) {
                a.projects
            } else {
                a.projects.push(n)
            },
            current_project: n,
            ..a
        }
    }
}

/// The application with the selected task opened for editing.
pub open spec fn edit_begun(a: AppModel) -> AppModel {
    match selected_task(a) {
        Some(i) => AppModel {
            input_description: a.todos[i].description,
            input_due_date: match a.todos[i].due_date {
                Some(d) => d,
                None => Seq::empty(),
            },
            editing_index: Some(i as usize),
            input_mode: InputMode::EditingDescription,
            error_message: None,
            ..a
        },
        None => a,
    }
}

/// The first line of a text: what stands before its first line feed, without
/// the carriage return that may end it. A text without a line feed is its
/// own first line.
pub open spec fn first_line(s: Seq<char>) -> Seq<char> {
    match first_where(s, |c: char| is_line_feed(c)) {
        Some(i) => if i > 0 && s[i - 1] == '\r' {
            s.take(i - 1)
        } else {
            s.take(i)
        },
        None => s,
    }
}

/// Whether a character is a line feed.
pub open spec fn is_line_feed(c: char) -> bool {
    c == '\n'
}

/// What a reply to a comment begins with: the name of its author after an
/// `@`, or else its first line as a quotation, or nothing where that line is
/// empty.
pub open spec fn reply_opening(c: PlankaComment) -> Seq<char> {
    match c.user_name {
        Some(name) => "@"@ + name@ + " "@,
        None => if first_line(c.text@).len() > 0 {
            "> "@ + first_line(c.text@) + "\n"@
        } else {
            Seq::empty()
        },
    }
}

/// The application with a reply to the last comment begun.
pub open spec fn reply_begun(a: AppModel) -> AppModel {
    AppModel {
        input_comment: if a.view_comments.len() > 0 {
            reply_opening(a.view_comments.last())
        } else {
            Seq::empty()
        },
        input_mode: InputMode::CreatingComment,
        error_message: None,
        ..a
    }
}

/// The first line of a text.
pub fn first_line_of(s: &str) -> (r: String)
    ensures
        r@ == first_line(s@),
{
    let chars = chars_of(s);
    let ghost p = |c: char| is_line_feed(c);
    let mut i: usize = 0;
    while i < chars.len()
        invariant
            i <= chars.len(),
            chars@ == s@,
            p == |c: char| is_line_feed(c),
            forall|j: int| 0 <= j < i ==> !p(#[trigger] chars@[j]),
        decreases chars.len() - i,
    {
        if chars[i] == '\n' {
            proof {
                assert(p(chars@[i as int]));
                lemma_first_found(chars@, p, i as int);
            }
            let end = if i > 0 && chars[i - 1] == '\r' {
                i - 1
            } else {
                i
            };
            let r = string_of(&chars, 0, end);
            assert(chars@.subrange(0, end as int) =~= chars@.take(end as int));
            return r;
        }
        i = i + 1;
    }
    proof {
        lemma_first_absent(chars@, p);
        assert(chars@.subrange(0, chars.len() as int) =~= chars@);
    }
    string_of(&chars, 0, chars.len())
}

impl App {
    /// Opens the login dialogue.
    pub fn start_planka_setup(&mut self)
        ensures
            final(self)@ == setup_started(old(self)@),
    {
        self.planka_setup = Some(PlankaSetupStep::Url);
        self.input_planka = match &self.planka_config {
            Some(c) => c.server_url.clone(),
            None => String::new(),
        };
        self.input_mode = InputMode::EditingPlanka;
        self.error_message = None;
    }

    /// Takes one field of the login dialogue. Once the password is entered
    /// it gives the configuration to log in with; the caller tries the login
    /// and hands the result to [`App::planka_login_result`].
    pub fn submit_planka_setup(&mut self) -> (login: Option<PlankaConfig>)
        ensures
            final(self)@ == setup_submitted(old(self)@),
            login.deep_view() == setup_login(old(self)@),
    {
        let step = match self.planka_setup {
            Some(s) => s,
            None => {
                return None;
            },
        };
        let mut cfg = match &self.planka_config {
            Some(c) => c.clone(),
            None => PlankaConfig::default(),
        };
        match step {
            PlankaSetupStep::Url => {
                cfg.server_url = trim(self.input_planka.as_str());
                self.input_planka = cfg.email_or_username.clone();
                self.planka_config = Some(cfg);
                self.planka_setup = Some(PlankaSetupStep::Username);
                None
            },
            PlankaSetupStep::Username => {
                cfg.email_or_username = trim(self.input_planka.as_str());
                self.input_planka = cfg.password.clone();
                self.planka_config = Some(cfg);
                self.planka_setup = Some(PlankaSetupStep::Password);
                None
            },
            PlankaSetupStep::Password => {
                cfg.password = self.input_planka.clone();
                self.input_planka = String::new();
                self.planka_setup = None;
                self.input_mode = InputMode::Normal;
                Some(cfg)
            },
        }
    }

    /// Takes the result of the login that ended the login dialogue: the
    /// configuration with its token, or why the login failed.
    pub fn planka_login_result(&mut self, result: Result<PlankaConfig, String>)
        ensures
            final(self)@ == logged_in(old(self)@, config_outcome(result)),
    {
        match result {
            Ok(c) => {
                self.planka_config = Some(c);
                self.error_message = Some("Planka login successful".to_owned());
            },
            Err(e) => {
                self.error_message = Some(joined("Planka login failed: ", e.as_str()));
            },
        }
    }

    /// Opens the dialogue that makes a project.
    pub fn begin_create_project(&mut self)
        ensures
            final(self)@ == (AppModel {
                input_project: Seq::empty(),
                input_mode: InputMode::CreatingProject,
                error_message: None,
                ..old(self)@
            }),
    {
        self.input_project = String::new();
        self.input_mode = InputMode::CreatingProject;
        self.error_message = None;
    }

    /// Opens the selected task for editing.
    pub fn begin_edit_selected(&mut self)
        ensures
            final(self)@ == edit_begun(old(self)@),
    {
        match self.selected_index_in_all() {
            Some(i) => {
                assert(self@.todos[i as int] == self.todos[i as int]@);
                self.input_description = self.todos[i].description.clone();
                self.input_due_date = match &self.todos[i].due_date {
                    Some(d) => d.clone(),
                    None => String::new(),
                };
                self.editing_index = Some(i);
                self.input_mode = InputMode::EditingDescription;
                self.error_message = None;
            },
            None => {},
        }
    }

    /// The position of the current project among the projects.
    fn current_index(&self) -> (r: Option<usize>)
        ensures
            position(r) == current_position(self@),
            r matches Some(i) ==> i < self.projects.len(),
    {
        let ghost p = |p: Seq<char>| is_name(p, self@.current_project);
        let mut i: usize = 0;
        while i < self.projects.len()
            invariant
                i <= self.projects.len(),
                p == |p: Seq<char>| is_name(p, self@.current_project),
                forall|j: int| 0 <= j < i ==> !p(#[trigger] self@.projects[j]),
            decreases self.projects.len() - i,
        {
            if self.projects[i] == self.current_project {
                proof {
                    assert(p(self@.projects[i as int]));
                    lemma_first_found(self@.projects, p, i as int);
                }
                return Some(i);
            }
            i = i + 1;
        }
        proof {
            lemma_first_absent(self@.projects, p);
        }
        None
    }

    /// Makes the next project current, or the one before.
    fn step_project(&mut self, forward: bool)
        ensures
            final(self)@ == stepped(old(self)@, forward),
    {
        if self.projects.len() == 0 {
            self.projects.push("Inbox".to_owned());
            assert(self@.projects =~= crate::app::default_projects());
        }
        let n = self.projects.len();
        match self.current_index() {
            Some(i) => {
                let k = if forward {
                    if i + 1 == n {
                        0
                    } else {
                        i + 1
                    }
                } else {
                    if i == 0 {
                        n - 1
                    } else {
                        i - 1
                    }
                };
                assert(k == if forward {
                    (i + 1) % (n as int)
                } else {
                    (i + n - 1) % (n as int)
                }) by (nonlinear_arith)
                    requires
                        0 <= i < n,
                        k == if forward {
                            if i + 1 == n {
                                0
                            } else {
                                i + 1
                            }
                        } else {
                            if i == 0 {
                                n - 1
                            } else {
                                i - 1
                            }
                        },
                ;
                assert(self@.projects[k as int] == self.projects[k as int]@);
                self.current_project = self.projects[k].clone();
            },
            None => {
                assert(self@.projects[0] == self.projects[0]@);
                self.current_project = self.projects[0].clone();
            },
        }
    }

    /// Makes the next project current, going round at the end. The caller
    /// then asks for the lists of the project, see [`App::lists_request`].
    pub fn next_project(&mut self)
        ensures
            final(self)@ == stepped(old(self)@, true),
    {
        self.step_project(true)
    }

    /// Makes the project before the current one current, going round at the
    /// beginning. The caller then asks for the lists of the project, see
    /// [`App::lists_request`].
    pub fn prev_project(&mut self)
        ensures
            final(self)@ == stepped(old(self)@, false),
    {
        self.step_project(false)
    }

    /// Makes the project with the given name current. The caller then asks
    /// for the lists of the project, see [`App::lists_request`].
    pub fn set_current_project(&mut self, name: &str)
        ensures
            final(self)@ == project_set(old(self)@, name@),
    {
        let name = trim(name);
        if name.as_str().is_empty() {
            return ;
        }
        if !has_name(&self.projects, &name) {
            let ghost before = self@.projects;
            self.projects.push(name.clone());
            assert(self@.projects =~= before.push(name@));
        }
        self.current_project = name;
    }

    /// Closes the view of a card.
    pub fn close_view(&mut self)
        ensures
            final(self)@ == (AppModel {
                view_card: None,
                view_scroll: 0,
                input_mode: InputMode::Normal,
                ..old(self)@
            }),
    {
        self.view_card = None;
        self.view_scroll = 0;
        self.input_mode = InputMode::Normal;
    }

    /// Opens the dialogue that writes a comment.
    pub fn begin_new_comment(&mut self)
        ensures
            final(self)@ == (AppModel {
                input_comment: Seq::empty(),
                input_mode: InputMode::CreatingComment,
                error_message: None,
                ..old(self)@
            }),
    {
        self.input_comment = String::new();
        self.input_mode = InputMode::CreatingComment;
        self.error_message = None;
    }

    /// Opens the dialogue that writes a comment, with a reply to the last
    /// comment begun.
    pub fn begin_reply_to_last_comment(&mut self)
        ensures
            final(self)@ == reply_begun(old(self)@),
    {
        self.input_comment = String::new();
        let n = self.view_comments.len();
        if n > 0 {
            let last = &self.view_comments[n - 1];
            match &last.user_name {
                Some(name) => {
                    self.input_comment = joined(joined("@", name.as_str()).as_str(), " ");
                },
                None => {
                    let preview = first_line_of(last.text.as_str());
                    if !preview.as_str().is_empty() {
                        self.input_comment = joined(
                            joined("> ", preview.as_str()).as_str(),
                            "\n",
                        );
                    }
                },
            }
        }
        self.input_mode = InputMode::CreatingComment;
        self.error_message = None;
    }
}

/// Whether a name is the project of one of the tasks. The empty name is no
/// project.
pub open spec fn is_project(todos: Seq<TodoModel>, name: Seq<char>) -> bool {
    name.len() > 0 && exists|i: int| 0 <= i < todos.len() && (#[trigger] todos[i]).project == name
}

/// Whether `projects` are the projects of the tasks: each of them once, in
/// ascending order. Where no task has a project, the default project stands
/// alone.
pub open spec fn projects_of(todos: Seq<TodoModel>, projects: Seq<Seq<char>>) -> bool {
    if exists|n: Seq<char>| is_project(todos, n) {
        ascending(projects) && forall|n: Seq<char>| projects.contains(n) <==> is_project(todos, n)
    } else {
        projects == crate::app::default_projects()
    }
}

/// The application with the given projects. The current project stays where
/// it is among them; else the first of them becomes current.
pub open spec fn refreshed(a: AppModel, projects: Seq<Seq<char>>) -> AppModel {
    AppModel {
        projects,
        current_project: if projects.contains(a.current_project) {
            a.current_project
        } else {
            projects[0]
        },
        ..a
    }
}

/// The name that a project is offered under where the remote board gives
/// none.
pub open spec fn nameless_project() -> Seq<char> {
    "Project"@
}

/// Whether a choice is the project with the given id.
pub open spec fn has_id(c: (Seq<char>, Seq<char>), id: Seq<char>) -> bool {
    c.0 == id
}

/// The projects that the boards belong to, each once, as its id and its
/// name, in the order in which the boards first show them.
pub open spec fn candidates(boards: Seq<BoardModel>) -> Seq<(Seq<char>, Seq<char>)>
    decreases boards.len(),
{
    if boards.len() == 0 {
        Seq::empty()
    } else {
        let rest = candidates(boards.drop_last());
        match boards.last().project_id {
            Some(id) => if first_where(rest, |c: (Seq<char>, Seq<char>)| has_id(c, id)) is None {
                rest.push(
                    (
                        id,
                        match boards.last().project_name {
                            Some(n) => n,
                            None => nameless_project(),
                        },
                    ),
                )
            } else {
                rest
            },
            None => rest,
        }
    }
}

/// The project of the first board that has the given name.
pub open spec fn project_of_board(boards: Seq<BoardModel>, name: Seq<char>) -> Option<Seq<char>> {
    match first_where(boards, |b: BoardModel| is_board(b, name)) {
        Some(i) => boards[i].project_id,
        None => None,
    }
}

/// Whether a board has the given name.
pub open spec fn is_board(b: BoardModel, name: Seq<char>) -> bool {
    b.name == name
}

/// The boards that are known once the dialogue that makes a board opens:
/// those at hand, or those that were fetched where none was at hand.
pub open spec fn boards_at_hand(a: AppModel, fetched: Option<Seq<BoardModel>>) -> Seq<BoardModel> {
    match fetched {
        Some(b) if a.planka_boards.len() == 0 => b,
        _ => a.planka_boards,
    }
}

/// The application with the dialogue that makes a board opened. The projects
/// of the boards are offered in the order of their names, and the project of
/// the current board is chosen, or the first one.
pub open spec fn board_begun(a: AppModel, fetched: Option<Seq<BoardModel>>) -> AppModel {
    let boards = boards_at_hand(a, fetched);
    let choices = in_order(candidates(boards));
    AppModel {
        input_board: Seq::empty(),
        error_message: None,
        planka_boards: boards,
        create_board_projects: choices,
        create_board_project_index: match project_of_board(boards, a.current_project) {
            Some(id) => match first_where(choices, |c: (Seq<char>, Seq<char>)| has_id(c, id)) {
                Some(k) => k as usize,
                None => 0,
            },
            None => 0,
        },
        input_mode: InputMode::CreatingBoard,
        ..a
    }
}

/// The model of a request that carries two texts, or the message that
/// refuses it.
pub open spec fn pair_outcome(r: Result<(String, String), String>) -> Result<
    (Seq<char>, Seq<char>),
    Seq<char>,
> {
    match r {
        Ok(p) => Ok((p.0@, p.1@)),
        Err(e) => Err(e@),
    }
}

/// What the user is told where a board has no project to go to.
pub open spec fn no_project() -> Seq<char> {
    "No project selected and current board not found on Planka; sync first."@
}

/// What making a board asks of the remote service: the id of the project and
/// the name of the board. The name is trimmed and must not be empty; a
/// session must be open; the project is the one chosen in the dialogue, or
/// else that of the current board.
pub open spec fn board_wanted(a: AppModel, online: Result<(), Seq<char>>) -> Result<
    (Seq<char>, Seq<char>),
    Seq<char>,
> {
    let name = trimmed(a.input_board);
    if name.len() == 0 {
        Err("Board name cannot be empty."@)
    } else {
        match online {
            Err(e) => Err(e),
            Ok(_) => if a.create_board_project_index < a.create_board_projects.len() {
                Ok((a.create_board_projects[a.create_board_project_index as int].0, name))
            } else {
                match project_of_board(a.planka_boards, a.current_project) {
                    Some(id) => Ok((id, name)),
                    None => Err(no_project()),
                }
            },
        }
    }
}

/// The application with the boards that were fetched after a change, where
/// the fetch succeeded.
pub open spec fn boards_replaced(a: AppModel, boards: Option<Seq<BoardModel>>) -> AppModel {
    match boards {
        Some(b) => AppModel { planka_boards: b, projects: board_names(b), ..a },
        None => a,
    }
}

/// The application after the remote service made the board.
pub open spec fn board_made(a: AppModel, boards: Option<Seq<BoardModel>>) -> AppModel {
    AppModel {
        current_project: trimmed(a.input_board),
        selected: 0,
        input_board: Seq::empty(),
        input_mode: InputMode::Normal,
        error_message: Some("Board created"@),
        create_board_projects: Seq::empty(),
        create_board_project_index: 0,
        ..boards_replaced(a, boards)
    }
}

/// The name of the board that a new project begins with.
pub open spec fn first_board() -> Seq<char> {
    "Main"@
}

/// What making a project asks of the remote service: its name, trimmed,
/// which must not be empty; a session must be open.
pub open spec fn project_wanted(a: AppModel, online: Result<(), Seq<char>>) -> Result<
    Seq<char>,
    Seq<char>,
> {
    let name = trimmed(a.input_project);
    if name.len() == 0 {
        Err("Project name cannot be empty."@)
    } else {
        match online {
            Err(e) => Err(e),
            Ok(_) => Ok(name),
        }
    }
}

/// The application after the remote service made the project and its first
/// board.
pub open spec fn project_made(a: AppModel, boards: Option<Seq<BoardModel>>) -> AppModel {
    AppModel {
        current_project: first_board(),
        selected: 0,
        input_project: Seq::empty(),
        input_mode: InputMode::Normal,
        error_message: Some("Project created"@),
        ..boards_replaced(a, boards)
    }
}

/// What the user is told of a task that has no card to show.
pub open spec fn not_linked() -> Seq<char> {
    "This"@ + " task is not linked to a Planka card yet"@
}

/// What the user is told after the current project was brought in line with
/// its board: the success, or why the last of the lists that did not come
/// did not.
pub open spec fn project_synced(
    todo: Result<Seq<CardModel>, Seq<char>>,
    doing: Result<Seq<CardModel>, Seq<char>>,
    done: Result<Seq<CardModel>, Seq<char>>,
) -> Seq<char> {
    match (why_not(done), why_not(doing), why_not(todo)) {
        (Some(e), _, _) => e,
        (None, Some(e), _) => e,
        (None, None, Some(e)) => e,
        (None, None, None) => "Synced from Planka"@,
    }
}

/// The card to show for the selected task.
pub open spec fn card_wanted(a: AppModel) -> Option<Seq<char>> {
    match selected_task(a) {
        Some(i) => a.todos[i].planka_card_id,
        None => None,
    }
}

/// The application after the card of the selected task was asked for: a
/// task without a card is told to the user.
pub open spec fn card_asked(a: AppModel) -> AppModel {
    match selected_task(a) {
        Some(i) if a.todos[i].planka_card_id is None => AppModel {
            error_message: Some(not_linked()),
            ..a
        },
        _ => a,
    }
}

/// What writing a comment asks of the remote service: the id of the card and
/// the text. The text is trimmed and must not be empty; a card must be open,
/// and a session.
pub open spec fn comment_wanted(a: AppModel, online: Result<(), Seq<char>>) -> Result<
    (Seq<char>, Seq<char>),
    Seq<char>,
> {
    let text = trimmed(a.input_comment);
    if text.len() == 0 {
        Err("Comment cannot be empty."@)
    } else {
        match a.view_card {
            None => Err("No card open"@),
            Some(card) => match online {
                Err(e) => Err(e),
                Ok(_) => Ok((card.id@, text)),
            },
        }
    }
}

/// The position of the project with the given id among the choices.
fn find_id(choices: &Vec<(String, String)>, id: &String) -> (r: Option<usize>)
    ensures
        position(r) == first_where(
            choices.deep_view(),
            |c: (Seq<char>, Seq<char>)| has_id(c, id@),
        ),
{
    let ghost p = |c: (Seq<char>, Seq<char>)| has_id(c, id@);
    let mut i: usize = 0;
    while i < choices.len()
        invariant
            i <= choices.len(),
            p == |c: (Seq<char>, Seq<char>)| has_id(c, id@),
            forall|j: int| 0 <= j < i ==> !p(#[trigger] choices.deep_view()[j]),
        decreases choices.len() - i,
    {
        assert(choices.deep_view()[i as int] == (choices[i as int].0@, choices[i as int].1@));
        if choices[i].0 == *id {
            proof {
                assert(p(choices.deep_view()[i as int]));
                lemma_first_found(choices.deep_view(), p, i as int);
            }
            return Some(i);
        }
        i = i + 1;
    }
    proof {
        lemma_first_absent(choices.deep_view(), p);
    }
    None
}

/// The projects that the boards belong to, each once.
pub fn project_choices(boards: &Vec<PlankaBoard>) -> (r: Vec<(String, String)>)
    ensures
        r.deep_view() == candidates(boards.deep_view()),
{
    let mut r: Vec<(String, String)> = Vec::new();
    let mut i: usize = 0;
    assert(boards.deep_view().take(0) =~= Seq::empty());
    assert(r.deep_view() =~= Seq::empty());
    while i < boards.len()
        invariant
            i <= boards.len(),
            r.deep_view() == candidates(boards.deep_view().take(i as int)),
        decreases boards.len() - i,
    {
        let b = &boards[i];
        proof {
            assert(boards.deep_view().take(i + 1).drop_last() =~= boards.deep_view().take(
                i as int,
            ));
            assert(boards.deep_view().take(i + 1).last() == b@);
        }
        match &b.project_id {
            Some(id) => {
                if find_id(&r, id).is_none() {
                    let name = match &b.project_name {
                        Some(n) => n.clone(),
                        None => "Project".to_owned(),
                    };
                    let ghost before = r.deep_view();
                    r.push((id.clone(), name));
                    assert(r.deep_view() =~= before.push((id@, name@)));
                }
            },
            None => {},
        }
        i = i + 1;
    }
    assert(boards.deep_view().take(i as int) =~= boards.deep_view());
    r
}

/// The project of the first board that has the given name.
pub fn board_project(boards: &Vec<PlankaBoard>, name: &String) -> (r: Option<String>)
    ensures
        r.deep_view() == project_of_board(boards.deep_view(), name@),
{
    let ghost p = |b: BoardModel| is_board(b, name@);
    let mut i: usize = 0;
    while i < boards.len()
        invariant
            i <= boards.len(),
            p == |b: BoardModel| is_board(b, name@),
            forall|j: int| 0 <= j < i ==> !p(#[trigger] boards.deep_view()[j]),
        decreases boards.len() - i,
    {
        if boards[i].name == *name {
            proof {
                assert(p(boards.deep_view()[i as int]));
                lemma_first_found(boards.deep_view(), p, i as int);
            }
            return clone_opt(&boards[i].project_id);
        }
        i = i + 1;
    }
    proof {
        lemma_first_absent(boards.deep_view(), p);
    }
    None
}

impl App {
    /// Brings the projects in line with the tasks.
    pub fn refresh_projects_from_todos(&mut self)
        ensures
            projects_of(old(self)@.todos, final(self)@.projects),
            final(self)@ == refreshed(old(self)@, final(self)@.projects),
    {
        let ghost todos = self@.todos;
        let mut uniq: Vec<String> = Vec::new();
        let mut i: usize = 0;
        assert(todos.take(0) =~= Seq::empty());
        while i < self.todos.len()
            invariant
                i <= self.todos.len(),
                todos == self@.todos,
                *self == *old(self),
                ascending(uniq.deep_view()),
                forall|n: Seq<char>|
                    uniq.deep_view().contains(n) <==> is_project(todos.take(i as int), n),
            decreases self.todos.len() - i,
        {
            let ghost seen = todos.take(i as int);
            let ghost more = todos.take(i + 1);
            let ghost before = uniq.deep_view();
            let name = self.todos[i].project.clone();
            assert(todos[i as int].project == name@);
            let empty = name.as_str().is_empty();
            if !empty {
                insert_ascending(&mut uniq, name);
            }
            proof {
                assert forall|n: Seq<char>| uniq.deep_view().contains(n) <==> is_project(
                    more,
                    n,
                ) by {
                    if is_project(seen, n) {
                        let k = choose|k: int| 0 <= k < seen.len() && (#[trigger] seen[k]).project
                            == n;
                        assert(more[k].project == n);
                    }
                    if is_project(more, n) {
                        let k = choose|k: int| 0 <= k < more.len() && (#[trigger] more[k]).project
                            == n;
                        if k < i {
                            assert(seen[k].project == n);
                        }
                    }
                    if !empty && n == name@ {
                        assert(more[i as int].project == n);
                    }
                }
            }
            i = i + 1;
        }
        assert(todos.take(i as int) =~= todos);
        if uniq.len() == 0 {
            proof {
                assert forall|n: Seq<char>| !is_project(todos, n) by {
                    if is_project(todos, n) {
                        assert(uniq.deep_view().contains(n));
                    }
                }
            }
            uniq.push("Inbox".to_owned());
            assert(uniq.deep_view() =~= crate::app::default_projects());
        } else {
            proof {
                let n = uniq.deep_view()[0];
                assert(uniq.deep_view().contains(n));
                assert(is_project(todos, n));
            }
        }
        if !has_name(&uniq, &self.current_project) {
            assert(uniq.deep_view()[0] == uniq[0]@);
            self.current_project = uniq[0].clone();
        }
        self.projects = uniq;
    }

    /// Whether the boards have to be fetched before the dialogue that makes
    /// a board opens.
    pub fn needs_boards(&self) -> (r: bool)
        ensures
            r == (self@.planka_boards.len() == 0),
    {
        self.planka_boards.len() == 0
    }

    /// Opens the dialogue that makes a board. `fetched` holds the boards of
    /// the remote service where they were asked for and came.
    pub fn begin_create_board(&mut self, fetched: Option<Vec<PlankaBoard>>)
        ensures
            final(self)@ == board_begun(old(self)@, fetched.deep_view()),
    {
        self.input_board = String::new();
        self.error_message = None;
        match fetched {
            Some(boards) => {
                if self.planka_boards.len() == 0 {
                    self.planka_boards = boards;
                }
            },
            None => {},
        }
        let choices = crate::order::sort_by_name(project_choices(&self.planka_boards));
        let mut chosen: usize = 0;
        match board_project(&self.planka_boards, &self.current_project) {
            Some(id) => match find_id(&choices, &id) {
                Some(k) => {
                    chosen = k;
                },
                None => {},
            },
            None => {},
        }
        self.create_board_projects = choices;
        self.create_board_project_index = chosen;
        self.input_mode = InputMode::CreatingBoard;
    }

    /// What making the board of the dialogue asks of the remote service: the
    /// id of the project and the name of the board. `online` says whether a
    /// session is open, or why not.
    pub fn submit_create_board_request(&self, online: Result<(), String>) -> (r: Result<
        (String, String),
        String,
    >)
        ensures
            pair_outcome(r) == board_wanted(self@, outcome(online)),
    {
        let name = trim(self.input_board.as_str());
        if name.as_str().is_empty() {
            return Err("Board name cannot be empty.".to_owned());
        }
        match online {
            Err(e) => {
                return Err(e);
            },
            Ok(_) => {},
        }
        if self.create_board_project_index < self.create_board_projects.len() {
            let k = self.create_board_project_index;
            assert(self@.create_board_projects[k as int] == (
                self.create_board_projects[k as int].0@,
                self.create_board_projects[k as int].1@,
            ));
            Ok((self.create_board_projects[k].0.clone(), name))
        } else {
            match board_project(&self.planka_boards, &self.current_project) {
                Some(id) => Ok((id, name)),
                None => Err(
                    "No project selected and current board not found on Planka; sync first."
                        .to_owned(),
                ),
            }
        }
    }

    /// Takes the boards that were fetched after a change, where they came.
    fn replace_boards(&mut self, boards: Option<Vec<PlankaBoard>>)
        ensures
            final(self)@ == boards_replaced(old(self)@, boards.deep_view()),
    {
        match boards {
            Some(b) => {
                self.projects = names_of(&b);
                self.planka_boards = b;
            },
            None => {},
        }
    }

    /// Ends the dialogue that makes a board. `created` is what the remote
    /// service answered, and `boards` are its boards as fetched afterwards.
    /// A failure is handed back and leaves the dialogue open.
    pub fn submit_create_board(
        &mut self,
        created: Result<String, String>,
        boards: Option<Vec<PlankaBoard>>,
    ) -> (r: Result<(), String>)
        ensures
            outcome(r) == match text_outcome(created) {
                Ok(_) => Ok(()),
                Err(e) => Err(e),
            },
            final(self)@ == match text_outcome(created) {
                Ok(_) => board_made(old(self)@, boards.deep_view()),
                Err(_) => old(self)@,
            },
    {
        match created {
            Err(e) => Err(e),
            Ok(_) => {
                self.replace_boards(boards);
                self.current_project = trim(self.input_board.as_str());
                self.selected = 0;
                self.input_board = String::new();
                self.input_mode = InputMode::Normal;
                self.error_message = Some("Board created".to_owned());
                self.create_board_projects = Vec::new();
                self.create_board_project_index = 0;
                assert(self@.create_board_projects =~= Seq::empty());
                Ok(())
            },
        }
    }

    /// What making the project of the dialogue asks of the remote service:
    /// its name. The caller then has the project made, and in it a first
    /// board with the name that [`App::first_board_name`] gives.
    pub fn submit_create_project_request(&self, online: Result<(), String>) -> (r: Result<
        String,
        String,
    >)
        ensures
            text_outcome(r) == project_wanted(self@, outcome(online)),
    {
        let name = trim(self.input_project.as_str());
        if name.as_str().is_empty() {
            return Err("Project name cannot be empty.".to_owned());
        }
        match online {
            Err(e) => Err(e),
            Ok(_) => Ok(name),
        }
    }

    /// The name of the board that a new project begins with.
    pub fn first_board_name() -> (r: String)
        ensures
            r@ == first_board(),
    {
        "Main".to_owned()
    }

    /// Ends the dialogue that makes a project. `created` is what the remote
    /// service answered to making the project and its first board, and
    /// `boards` are its boards as fetched afterwards. A failure is handed
    /// back and leaves the dialogue open.
    pub fn submit_create_project(
        &mut self,
        created: Result<String, String>,
        boards: Option<Vec<PlankaBoard>>,
    ) -> (r: Result<(), String>)
        ensures
            outcome(r) == match text_outcome(created) {
                Ok(_) => Ok(()),
                Err(e) => Err(e),
            },
            final(self)@ == match text_outcome(created) {
                Ok(_) => project_made(old(self)@, boards.deep_view()),
                Err(_) => old(self)@,
            },
    {
        match created {
            Err(e) => Err(e),
            Ok(_) => {
                self.replace_boards(boards);
                self.current_project = "Main".to_owned();
                self.selected = 0;
                self.input_project = String::new();
                self.input_mode = InputMode::Normal;
                self.error_message = Some("Project created".to_owned());
                Ok(())
            },
        }
    }

    /// Asks for the card of the selected task: gives the id of the card to
    /// fetch, and tells the user where the task has none.
    pub fn open_selected_card(&mut self) -> (card_id: Option<String>)
        ensures
            final(self)@ == card_asked(old(self)@),
            card_id.deep_view() == card_wanted(old(self)@),
    {
        match self.selected_index_in_all() {
            Some(i) => {
                assert(self@.todos[i as int] == self.todos[i as int]@);
                match &self.todos[i].planka_card_id {
                    Some(id) => Some(id.clone()),
                    None => {
                        self.error_message = Some(
                            joined("This", " task is not linked to a Planka card yet"),
                        );
                        None
                    },
                }
            },
            None => None,
        }
    }

    /// Shows the card that was fetched, with its comments where they came.
    /// Where the card did not come, the user is told why.
    pub fn card_opened(
        &mut self,
        details: Result<PlankaCardDetails, String>,
        comments: Option<Vec<PlankaComment>>,
    )
        ensures
            final(self)@ == match details {
                Ok(card) => AppModel {
                    view_card: Some(card),
                    view_comments: match comments {
                        Some(c) => c@,
                        None => Seq::empty(),
                    },
                    view_scroll: 0,
                    input_mode: InputMode::ViewingCard,
                    error_message: None,
                    ..old(self)@
                },
                Err(e) => AppModel { error_message: Some(e@), ..old(self)@ },
            },
    {
        match details {
            Ok(card) => {
                self.view_card = Some(card);
                self.view_comments = match comments {
                    Some(c) => c,
                    None => Vec::new(),
                };
                self.view_scroll = 0;
                self.input_mode = InputMode::ViewingCard;
                self.error_message = None;
            },
            Err(e) => {
                self.error_message = Some(e);
            },
        }
    }

    /// What writing the comment of the dialogue asks of the remote service:
    /// the id of the card and the text.
    pub fn submit_comment_request(&self, online: Result<(), String>) -> (r: Result<
        (String, String),
        String,
    >)
        ensures
            pair_outcome(r) == comment_wanted(self@, outcome(online)),
    {
        let text = trim(self.input_comment.as_str());
        if text.as_str().is_empty() {
            return Err("Comment cannot be empty.".to_owned());
        }
        let card_id = match &self.view_card {
            Some(card) => card.id.clone(),
            None => {
                return Err("No card open".to_owned());
            },
        };
        match online {
            Err(e) => Err(e),
            Ok(_) => Ok((card_id, text)),
        }
    }

    /// Ends the dialogue that writes a comment. `created` is what the remote
    /// service answered, and `comments` are the comments of the card as
    /// fetched afterwards. A failure is handed back and leaves the dialogue
    /// open.
    pub fn submit_comment(
        &mut self,
        created: Result<String, String>,
        comments: Option<Vec<PlankaComment>>,
    ) -> (r: Result<(), String>)
        ensures
            outcome(r) == match text_outcome(created) {
                Ok(_) => Ok(()),
                Err(e) => Err(e),
            },
            final(self)@ == match text_outcome(created) {
                Ok(_) => AppModel {
                    view_comments: match comments {
                        Some(c) => c@,
                        None => old(self)@.view_comments,
                    },
                    input_comment: Seq::empty(),
                    input_mode: InputMode::ViewingCard,
                    error_message: Some("Comment added"@),
                    ..old(self)@
                },
                Err(_) => old(self)@,
            },
    {
        match created {
            Err(e) => Err(e),
            Ok(_) => {
                match comments {
                    Some(c) => {
                        self.view_comments = c;
                    },
                    None => {},
                }
                self.input_comment = String::new();
                self.input_mode = InputMode::ViewingCard;
                self.error_message = Some("Comment added".to_owned());
                Ok(())
            },
        }
    }

    /// Brings the current project in line with its board, remote to local.
    /// `lists` is what resolving the lists of the board gave, and the cards
    /// are what fetching its three lists gave. Every card overwrites its
    /// task, dirty or not, or is adopted; a list that did not come counts as
    /// empty. The user is told of the success, or of what failed.
    pub fn sync_current_project_from_planka(
        &mut self,
        lists: Result<PlankaLists, String>,
        todo: Result<Vec<PlankaCard>, String>,
        doing: Result<Vec<PlankaCard>, String>,
        done: Result<Vec<PlankaCard>, String>,
    )
        ensures
            match crate::planka::lists_outcome(lists) {
                Ok(l) => {
                    &&& pulls(
                        old(self)@.todos,
                        old(self)@.current_project,
                        l,
                        listed(
                            l,
                            came(cards_outcome(todo)),
                            came(cards_outcome(doing)),
                            came(cards_outcome(done)),
                        ),
                        final(self)@.todos,
                    )
                    &&& final(self)@ == (AppModel {
                        todos: final(self)@.todos,
                        planka_lists: Some(l),
                        planka_lists_by_board: crate::app::with_lists(
                            old(self)@.planka_lists_by_board,
                            old(self)@.current_project,
                            l,
                        ),
                        error_message: Some(
                            project_synced(
                                cards_outcome(todo),
                                cards_outcome(doing),
                                cards_outcome(done),
                            ),
                        ),
                        ..old(self)@
                    })
                },
                Err(e) => final(self)@ == (AppModel { error_message: Some(e), ..old(self)@ }),
            },
    {
        match lists {
            Ok(l) => {
                let project = self.current_project.clone();
                let (todo, no_todo) = taken(todo);
                let (doing, no_doing) = taken(doing);
                let (done, no_done) = taken(done);
                let entries = list_all(&l, &todo, &doing, &done);
                self.sync_pull(&project, &l, &entries);
                self.remember_lists(&project, l);
                let told = match no_done {
                    Some(e) => e,
                    None => match no_doing {
                        Some(e) => e,
                        None => match no_todo {
                            Some(e) => e,
                            None => "Synced from Planka".to_owned(),
                        },
                    },
                };
                self.error_message = Some(told);
            },
            Err(e) => {
                self.error_message = Some(e);
            },
        }
    }
}

/// Whether the dialogue that makes a board holds a name: what is refused
/// before a session is asked for.
pub open spec fn board_named_so_far(a: AppModel) -> Result<(), Seq<char>> {
    if trimmed(a.input_board).len() == 0 {
        Err("Board name cannot be empty."@)
    } else {
        Ok(())
    }
}

/// Whether the dialogue that makes a project holds a name: what is refused
/// before a session is asked for.
pub open spec fn project_named_so_far(a: AppModel) -> Result<(), Seq<char>> {
    if trimmed(a.input_project).len() == 0 {
        Err("Project name cannot be empty."@)
    } else {
        Ok(())
    }
}

/// Whether the dialogue that writes a comment holds a text and a card is
/// open: what is refused before a session is asked for.
pub open spec fn comment_written_so_far(a: AppModel) -> Result<(), Seq<char>> {
    if trimmed(a.input_comment).len() == 0 {
        Err("Comment cannot be empty."@)
    } else if a.view_card is None {
        Err("No card open"@)
    } else {
        Ok(())
    }
}

impl App {
    /// Refuses the board of the dialogue where it has no name. The caller
    /// asks for a session only behind this.
    pub fn board_name_entered(&self) -> (r: Result<(), String>)
        ensures
            outcome(r) == board_named_so_far(self@),
    {
        if trim(self.input_board.as_str()).as_str().is_empty() {
            Err("Board name cannot be empty.".to_owned())
        } else {
            Ok(())
        }
    }

    /// Refuses the project of the dialogue where it has no name. The caller
    /// asks for a session only behind this.
    pub fn project_name_entered(&self) -> (r: Result<(), String>)
        ensures
            outcome(r) == project_named_so_far(self@),
    {
        if trim(self.input_project.as_str()).as_str().is_empty() {
            Err("Project name cannot be empty.".to_owned())
        } else {
            Ok(())
        }
    }

    /// Refuses the comment of the dialogue where it has no text or no card
    /// is open. The caller asks for a session only behind this.
    pub fn comment_entered(&self) -> (r: Result<(), String>)
        ensures
            outcome(r) == comment_written_so_far(self@),
    {
        if trim(self.input_comment.as_str()).as_str().is_empty() {
            Err("Comment cannot be empty.".to_owned())
        } else if self.view_card.is_none() {
            Err("No card open".to_owned())
        } else {
            Ok(())
        }
    }
}

} // verus!
