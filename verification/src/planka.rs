//! What the remote board hands over: boards, lists, cards.

use vstd::prelude::*;
use crate::text::blank;
use crate::text::chars_of;
use crate::text::is_blank;
use crate::text::clone_opt;
use crate::text::joined;
use crate::text::contains_chars;
use crate::text::contains_text;
use crate::text::eq_ignore_ascii_case;
use crate::find::first_where;
use crate::find::lemma_first_absent;
use crate::find::lemma_first_found;
use crate::text::lowercase;
use crate::text::lowercase_of;
use crate::text::same_ignoring_ascii_case;
use crate::text::strip_spaces;
use crate::text::without_spaces;

verus! {

/// The three canonical lists of one board.
#[derive(Debug)]
pub struct PlankaLists {
    pub board_id: String,
    pub todo_list_id: String,
    pub doing_list_id: String,
    pub done_list_id: String,
}

/// The model of [`PlankaLists`].
pub struct ListsModel {
    pub board_id: Seq<char>,
    pub todo_list_id: Seq<char>,
    pub doing_list_id: Seq<char>,
    pub done_list_id: Seq<char>,
}

impl View for PlankaLists {
    type V = ListsModel;

    open spec fn view(&self) -> ListsModel {
        ListsModel {
            board_id: self.board_id@,
            todo_list_id: self.todo_list_id@,
            doing_list_id: self.doing_list_id@,
            done_list_id: self.done_list_id@,
        }
    }
}

impl DeepView for PlankaLists {
    type V = ListsModel;

    open spec fn deep_view(&self) -> ListsModel {
        self@
    }
}

impl Clone for PlankaLists {
    fn clone(&self) -> (r: Self)
        ensures
            r@ == self@,
    {
        PlankaLists {
            board_id: self.board_id.clone(),
            todo_list_id: self.todo_list_id.clone(),
            doing_list_id: self.doing_list_id.clone(),
            done_list_id: self.done_list_id.clone(),
        }
    }
}

/// One board of the remote service, with the project it belongs to.
#[derive(Debug)]
pub struct PlankaBoard {
    pub id: String,
    pub name: String,
    pub project_id: Option<String>,
    pub project_name: Option<String>,
}

/// The model of [`PlankaBoard`].
pub struct BoardModel {
    pub id: Seq<char>,
    pub name: Seq<char>,
    pub project_id: Option<Seq<char>>,
    pub project_name: Option<Seq<char>>,
}

impl View for PlankaBoard {
    type V = BoardModel;

    open spec fn view(&self) -> BoardModel {
        BoardModel {
            id: self.id@,
            name: self.name@,
            project_id: self.project_id.deep_view(),
            project_name: self.project_name.deep_view(),
        }
    }
}

impl DeepView for PlankaBoard {
    type V = BoardModel;

    open spec fn deep_view(&self) -> BoardModel {
        self@
    }
}

impl Clone for PlankaBoard {
    fn clone(&self) -> (r: Self)
        ensures
            r@ == self@,
    {
        PlankaBoard {
            id: self.id.clone(),
            name: self.name.clone(),
            project_id: clone_opt(&self.project_id),
            project_name: clone_opt(&self.project_name),
        }
    }
}

/// One card of a remote list, with its dates as the remote service gave them.
#[derive(Debug)]
pub struct PlankaCard {
    pub id: String,
    pub name: String,
    pub due: Option<String>,
    pub created: Option<String>,
}

/// The model of [`PlankaCard`].
pub struct CardModel {
    pub id: Seq<char>,
    pub name: Seq<char>,
    pub due: Option<Seq<char>>,
    pub created: Option<Seq<char>>,
}

impl View for PlankaCard {
    type V = CardModel;

    open spec fn view(&self) -> CardModel {
        CardModel {
            id: self.id@,
            name: self.name@,
            due: self.due.deep_view(),
            created: self.created.deep_view(),
        }
    }
}

impl DeepView for PlankaCard {
    type V = CardModel;

    open spec fn deep_view(&self) -> CardModel {
        self@
    }
}

impl Clone for PlankaCard {
    fn clone(&self) -> (r: Self)
        ensures
            r@ == self@,
    {
        PlankaCard {
            id: self.id.clone(),
            name: self.name.clone(),
            due: clone_opt(&self.due),
            created: clone_opt(&self.created),
        }
    }
}

/// How to reach the remote service, and the session token once logged in.
#[derive(Debug)]
pub struct PlankaConfig {
    pub server_url: String,
    pub email_or_username: String,
    pub password: String,
    pub token: Option<String>,
}

/// The model of [`PlankaConfig`].
pub struct ConfigModel {
    pub server_url: Seq<char>,
    pub email_or_username: Seq<char>,
    pub password: Seq<char>,
    pub token: Option<Seq<char>>,
}

impl View for PlankaConfig {
    type V = ConfigModel;

    open spec fn view(&self) -> ConfigModel {
        ConfigModel {
            server_url: self.server_url@,
            email_or_username: self.email_or_username@,
            password: self.password@,
            token: self.token.deep_view(),
        }
    }
}

impl DeepView for PlankaConfig {
    type V = ConfigModel;

    open spec fn deep_view(&self) -> ConfigModel {
        self@
    }
}

impl Clone for PlankaConfig {
    fn clone(&self) -> (r: Self)
        ensures
            r@ == self@,
    {
        PlankaConfig {
            server_url: self.server_url.clone(),
            email_or_username: self.email_or_username.clone(),
            password: self.password.clone(),
            token: clone_opt(&self.token),
        }
    }
}

impl Default for PlankaConfig {
    fn default() -> (r: Self)
        ensures
            r@ == (ConfigModel {
                server_url: Seq::empty(),
                email_or_username: Seq::empty(),
                password: Seq::empty(),
                token: None,
            }),
    {
        PlankaConfig {
            server_url: String::new(),
            email_or_username: String::new(),
            password: String::new(),
            token: None,
        }
    }
}

/// What opening a session with a configuration comes to before anything is
/// sent: a configuration without a server address is refused.
pub open spec fn checked_config(c: ConfigModel) -> Result<ConfigModel, Seq<char>> {
    if blank(c.server_url) {
        Err("Planka server URL is empty"@)
    } else {
        Ok(c)
    }
}

/// The model of a configuration or the message that refuses it.
pub open spec fn config_outcome(r: Result<PlankaConfig, String>) -> Result<ConfigModel, Seq<char>> {
    match r {
        Ok(c) => Ok(c@),
        Err(e) => Err(e@),
    }
}

impl PlankaConfig {
    /// The configuration if a session can be opened with it.
    pub fn checked(self) -> (r: Result<PlankaConfig, String>)
        ensures
            config_outcome(r) == checked_config(self@),
    {
        if is_blank(self.server_url.as_str()) {
            Err("Planka server URL is empty".to_owned())
        } else {
            Ok(self)
        }
    }

    /// Whether a session with this configuration begins with a login: it
    /// does where no token is held yet.
    pub fn needs_login(&self) -> (r: bool)
        ensures
            r == (self@.token is None),
    {
        self.token.is_none()
    }
}

/// A request to the remote board that changes or resolves something.
#[derive(Debug)]
#[allow(inconsistent_fields)]
pub enum RemoteCall {
    /// Find the three canonical lists of the board with this name.
    ResolveLists { board_name: String },
    /// Create a card in a list.
    CreateCard { list_id: String, name: String, due: Option<String> },
    /// Move a card to a list.
    MoveCard { card_id: String, list_id: String },
    /// Change the name or the due date of a card, whichever is given.
    UpdateCard { card_id: String, name: Option<String>, due: Option<String> },
    /// Delete a card.
    DeleteCard { card_id: String },
}

/// The model of [`RemoteCall`].
#[allow(inconsistent_fields)]
pub enum CallModel {
    ResolveLists { board_name: Seq<char> },
    CreateCard { list_id: Seq<char>, name: Seq<char>, due: Option<Seq<char>> },
    MoveCard { card_id: Seq<char>, list_id: Seq<char> },
    UpdateCard { card_id: Seq<char>, name: Option<Seq<char>>, due: Option<Seq<char>> },
    DeleteCard { card_id: Seq<char> },
}

impl View for RemoteCall {
    type V = CallModel;

    open spec fn view(&self) -> CallModel {
        match self {
            RemoteCall::ResolveLists { board_name } => CallModel::ResolveLists {
                board_name: board_name@,
            },
            RemoteCall::CreateCard { list_id, name, due } => CallModel::CreateCard {
                list_id: list_id@,
                name: name@,
                due: due.deep_view(),
            },
            RemoteCall::MoveCard { card_id, list_id } => CallModel::MoveCard {
                card_id: card_id@,
                list_id: list_id@,
            },
            RemoteCall::UpdateCard { card_id, name, due } => CallModel::UpdateCard {
                card_id: card_id@,
                name: name.deep_view(),
                due: due.deep_view(),
            },
            RemoteCall::DeleteCard { card_id } => CallModel::DeleteCard { card_id: card_id@ },
        }
    }
}

impl DeepView for RemoteCall {
    type V = CallModel;

    open spec fn deep_view(&self) -> CallModel {
        self@
    }
}

impl Clone for RemoteCall {
    fn clone(&self) -> (r: Self)
        ensures
            r@ == self@,
    {
        match self {
            RemoteCall::ResolveLists { board_name } => RemoteCall::ResolveLists {
                board_name: board_name.clone(),
            },
            RemoteCall::CreateCard { list_id, name, due } => RemoteCall::CreateCard {
                list_id: list_id.clone(),
                name: name.clone(),
                due: clone_opt(due),
            },
            RemoteCall::MoveCard { card_id, list_id } => RemoteCall::MoveCard {
                card_id: card_id.clone(),
                list_id: list_id.clone(),
            },
            RemoteCall::UpdateCard { card_id, name, due } => RemoteCall::UpdateCard {
                card_id: card_id.clone(),
                name: clone_opt(name),
                due: clone_opt(due),
            },
            RemoteCall::DeleteCard { card_id } => RemoteCall::DeleteCard {
                card_id: card_id.clone(),
            },
        }
    }
}

/// What the remote board answered. An `Err` carries its message.
#[derive(Debug)]
pub enum RemoteReply {
    /// The answer to `ResolveLists`.
    Lists(Result<PlankaLists, String>),
    /// The answer to `CreateCard`: the new card's id.
    Card(Result<String, String>),
    /// The answer to `MoveCard`, `UpdateCard` and `DeleteCard`.
    Done(Result<(), String>),
}

/// The model of [`RemoteReply`].
pub enum ReplyModel {
    Lists(Result<ListsModel, Seq<char>>),
    Card(Result<Seq<char>, Seq<char>>),
    Done(Result<(), Seq<char>>),
}

impl View for RemoteReply {
    type V = ReplyModel;

    open spec fn view(&self) -> ReplyModel {
        match self {
            RemoteReply::Lists(Ok(l)) => ReplyModel::Lists(Ok(l@)),
            RemoteReply::Lists(Err(e)) => ReplyModel::Lists(Err(e@)),
            RemoteReply::Card(Ok(id)) => ReplyModel::Card(Ok(id@)),
            RemoteReply::Card(Err(e)) => ReplyModel::Card(Err(e@)),
            RemoteReply::Done(Ok(())) => ReplyModel::Done(Ok(())),
            RemoteReply::Done(Err(e)) => ReplyModel::Done(Err(e@)),
        }
    }
}

impl DeepView for RemoteReply {
    type V = ReplyModel;

    open spec fn deep_view(&self) -> ReplyModel {
        self@
    }
}

/// One comment on a card.
#[derive(Debug)]
pub struct PlankaComment {
    pub id: String,
    pub user_id: Option<String>,
    pub user_name: Option<String>,
    pub text: String,
    pub created: Option<String>,
}

/// One attachment of a card.
#[derive(Debug)]
pub struct PlankaAttachment {
    pub id: String,
    pub name: String,
    pub url: Option<String>,
}

/// One item of a card's task lists.
#[derive(Debug)]
pub struct PlankaTask {
    pub id: String,
    pub name: String,
    pub is_completed: bool,
    pub task_list_id: Option<String>,
}

/// One custom field of a card.
#[derive(Debug)]
pub struct PlankaCustomField {
    pub id: String,
    pub name: String,
    pub show_on_front_of_card: Option<bool>,
}

/// A group of custom fields with the values a card has for them, each value
/// beside the id of its field.
#[derive(Debug)]
pub struct PlankaCustomFieldGroupDetails {
    pub id: String,
    pub name: Option<String>,
    pub fields: Vec<PlankaCustomField>,
    pub values_by_field: Vec<(String, String)>,
}

/// Everything the remote board knows of one card, for display.
#[derive(Debug)]
pub struct PlankaCardDetails {
    pub id: String,
    pub name: String,
    pub description: Option<String>,
    pub due: Option<String>,
    pub is_due_completed: Option<bool>,
    pub created: Option<String>,
    pub updated: Option<String>,
    pub list_name: Option<String>,
    pub labels: Vec<String>,
    pub attachments: Vec<String>,
    pub tasks: Vec<(String, bool)>,
    pub board_id: Option<String>,
    pub attachments_full: Vec<PlankaAttachment>,
    pub tasks_full: Vec<PlankaTask>,
    pub task_lists: Vec<(String, String)>,
    pub custom_field_groups: Vec<PlankaCustomFieldGroupDetails>,
}

/// One project of the remote service.
#[derive(Debug)]
pub struct PlankaProject {
    pub id: String,
    pub name: String,
    pub description: Option<String>,
    pub is_hidden: Option<bool>,
}

/// A project with its boards.
#[derive(Debug)]
pub struct PlankaProjectDetails {
    pub id: String,
    pub name: String,
    pub description: Option<String>,
    pub is_hidden: Option<bool>,
    pub boards: Vec<PlankaBoard>,
}

/// A task list of a card with its items.
#[derive(Debug)]
pub struct PlankaTaskListDetails {
    pub id: String,
    pub name: String,
    pub tasks: Vec<PlankaTask>,
}

/// A board with its lists, each as id and name, and its labels, each as id,
/// name and colour.
#[derive(Debug)]
pub struct PlankaBoardDetails {
    pub id: String,
    pub name: String,
    pub project_id: Option<String>,
    pub lists: Vec<(String, String)>,
    pub labels: Vec<(String, String, String)>,
}

/// A list with its cards.
#[derive(Debug)]
pub struct PlankaListDetails {
    pub id: String,
    pub name: String,
    pub cards: Vec<PlankaCard>,
}

/// How the remote service lets its users sign in through another service.
#[derive(Debug)]
pub struct PlankaOidcConfig {
    pub authorization_url: String,
    pub end_session_url: Option<String>,
    pub is_enforced: bool,
}

/// What the remote service tells of itself.
#[derive(Debug)]
pub struct PlankaServerConfig {
    pub version: String,
    pub active_users_limit: Option<i64>,
    pub oidc: Option<PlankaOidcConfig>,
}

/// One notification for a user.
#[derive(Debug)]
pub struct PlankaNotification {
    pub id: String,
    pub user_id: String,
    pub card_id: Option<String>,
    pub type_: String,
    pub text: Option<String>,
    pub is_read: bool,
    pub created: Option<String>,
}

/// A place that notifications are sent on to, for a user or for a board.
#[derive(Debug)]
pub struct PlankaNotificationService {
    pub id: String,
    pub user_id: Option<String>,
    pub board_id: Option<String>,
    pub url: String,
    pub format: String,
}

/// One user of the remote service.
#[derive(Debug)]
pub struct PlankaUser {
    pub id: String,
    pub role: String,
    pub name: String,
    pub username: Option<String>,
    pub email: Option<String>,
    pub is_deactivated: bool,
}

/// One webhook of the remote service.
#[derive(Debug)]
pub struct PlankaWebhook {
    pub id: String,
    pub name: String,
    pub url: String,
    pub access_token: Option<String>,
    pub events: Option<String>,
    pub excluded_events: Option<String>,
}

/// The terms of the remote service in one language.
#[derive(Debug)]
pub struct PlankaTerms {
    pub type_: String,
    pub language: String,
    pub content: String,
    pub signature: String,
}

/// The part that a list plays on its board.
#[derive(Clone, Copy, Debug, PartialEq, Eq, Structural)]
pub enum ListRole {
    Todo,
    Doing,
    Done,
}

/// The part that a list plays by its name. The name is put in lower case and
/// its spaces are dropped; then the first of these decides: a name that holds
/// `todo`, `to-do`, `to_do` or `to.do` is To Do; one that holds `doing`,
/// `inprogress`, `in-progress` or `in_progress` is Doing; one that holds
/// `done`, `completed` or `complete` is Done.
pub open spec fn role_of(name: Seq<char>) -> Option<ListRole> {
    let n = without_spaces(lowercase_of(name));
    if contains_text(n, "todo"@) || contains_text(n, "to-do"@) || contains_text(n, "to_do"@)
        || contains_text(n, "to.do"@) {
        Some(ListRole::Todo)
    } else if contains_text(n, "doing"@) || contains_text(n, "inprogress"@) || contains_text(
        n,
        "in-progress"@,
    ) || contains_text(n, "in_progress"@) {
        Some(ListRole::Doing)
    } else if contains_text(n, "done"@) || contains_text(n, "completed"@) || contains_text(
        n,
        "complete"@,
    ) {
        Some(ListRole::Done)
    } else {
        None
    }
}

/// The part that a list plays by its name.
pub fn role(name: &str) -> (r: Option<ListRole>)
    ensures
        r == role_of(name@),
{
    let lower = lowercase(name);
    let n = strip_spaces(&chars_of(lower.as_str()));
    if contains_chars(&n, &chars_of("todo")) || contains_chars(&n, &chars_of("to-do"))
        || contains_chars(&n, &chars_of("to_do")) || contains_chars(&n, &chars_of("to.do")) {
        Some(ListRole::Todo)
    } else if contains_chars(&n, &chars_of("doing")) || contains_chars(&n, &chars_of("inprogress"))
        || contains_chars(&n, &chars_of("in-progress")) || contains_chars(
        &n,
        &chars_of("in_progress"),
    ) {
        Some(ListRole::Doing)
    } else if contains_chars(&n, &chars_of("done")) || contains_chars(&n, &chars_of("completed"))
        || contains_chars(&n, &chars_of("complete")) {
        Some(ListRole::Done)
    } else {
        None
    }
}

/// The id of the first list, each given as its id and its name, that plays
/// the given part.
pub open spec fn list_with_role(lists: Seq<(Seq<char>, Seq<char>)>, role: ListRole) -> Option<
    Seq<char>,
> {
    match first_where(lists, |l: (Seq<char>, Seq<char>)| role_of(l.1) == Some(role)) {
        Some(i) => Some(lists[i].0),
        None => None,
    }
}

/// The three canonical lists among the lists of a board. A board without a
/// Doing list uses its To Do list in that place. It is an error if the board
/// has no lists, no To Do list or no Done list.
pub open spec fn matched(board_id: Seq<char>, lists: Seq<(Seq<char>, Seq<char>)>) -> Result<
    ListsModel,
    Seq<char>,
> {
    if lists.len() == 0 {
        Err("No lists found for board"@)
    } else {
        match list_with_role(lists, ListRole::Todo) {
            None => Err("Couldn't find a 'Todo' list on board"@),
            Some(todo) => match list_with_role(lists, ListRole::Done) {
                None => Err("Couldn't find a 'Done' list on board"@),
                Some(done) => Ok(
                    ListsModel {
                        board_id,
                        todo_list_id: todo,
                        doing_list_id: match list_with_role(lists, ListRole::Doing) {
                            Some(doing) => doing,
                            None => todo,
                        },
                        done_list_id: done,
                    },
                ),
            },
        }
    }
}

/// The model of what resolving the lists of a board gives.
pub open spec fn lists_outcome(r: Result<PlankaLists, String>) -> Result<ListsModel, Seq<char>> {
    match r {
        Ok(l) => Ok(l@),
        Err(e) => Err(e@),
    }
}

/// The id of the first list that plays the given part.
fn find_role(lists: &Vec<(String, String)>, wanted: ListRole) -> (r: Option<String>)
    ensures
        r.deep_view() == list_with_role(lists.deep_view(), wanted),
{
    let ghost p = |l: (Seq<char>, Seq<char>)| role_of(l.1) == Some(wanted);
    let mut i: usize = 0;
    while i < lists.len()
        invariant
            i <= lists.len(),
            p == |l: (Seq<char>, Seq<char>)| role_of(l.1) == Some(wanted),
            forall|j: int| 0 <= j < i ==> !p(#[trigger] lists.deep_view()[j]),
        decreases lists.len() - i,
    {
        assert(lists.deep_view()[i as int] == (lists[i as int].0@, lists[i as int].1@));
        let found = match role(lists[i].1.as_str()) {
            Some(r) => r == wanted,
            None => false,
        };
        if found {
            proof {
                assert(p(lists.deep_view()[i as int]));
                lemma_first_found(lists.deep_view(), p, i as int);
            }
            return Some(lists[i].0.clone());
        }
        i = i + 1;
    }
    proof {
        lemma_first_absent(lists.deep_view(), p);
    }
    None
}

/// Picks the three canonical lists among the lists of a board, each given as
/// its id and its name.
pub fn match_lists(board_id: &String, lists: &Vec<(String, String)>) -> (r: Result<
    PlankaLists,
    String,
>)
    ensures
        lists_outcome(r) == matched(board_id@, lists.deep_view()),
{
    if lists.len() == 0 {
        return Err("No lists found for board".to_owned());
    }
    let todo = match find_role(lists, ListRole::Todo) {
        Some(id) => id,
        None => {
            return Err("Couldn't find a 'Todo' list on board".to_owned());
        },
    };
    let doing = match find_role(lists, ListRole::Doing) {
        Some(id) => id,
        None => todo.clone(),
    };
    let done = match find_role(lists, ListRole::Done) {
        Some(id) => id,
        None => {
            return Err("Couldn't find a 'Done' list on board".to_owned());
        },
    };
    Ok(
        PlankaLists {
            board_id: board_id.clone(),
            todo_list_id: todo,
            doing_list_id: doing,
            done_list_id: done,
        },
    )
}

/// The first board whose name is the given one but for the case of its ASCII
/// letters.
pub open spec fn board_named(boards: Seq<BoardModel>, name: Seq<char>) -> Option<BoardModel> {
    match first_where(boards, |b: BoardModel| same_ignoring_ascii_case(b.name, name)) {
        Some(i) => Some(boards[i]),
        None => None,
    }
}

/// What the user is told when a board is not among those of the service.
pub open spec fn board_missing(name: Seq<char>) -> Seq<char> {
    "Board '"@ + name + "' not found on Planka"@
}

/// The model of what looking a board up gives.
pub open spec fn board_outcome(r: Result<PlankaBoard, String>) -> Result<BoardModel, Seq<char>> {
    match r {
        Ok(b) => Ok(b@),
        Err(e) => Err(e@),
    }
}

/// Looks a board up by its name, whatever the case of its ASCII letters.
pub fn find_board(boards: &Vec<PlankaBoard>, name: &str) -> (r: Result<PlankaBoard, String>)
    ensures
        board_outcome(r) == match board_named(boards.deep_view(), name@) {
            Some(b) => Ok(b),
            None => Err(board_missing(name@)),
        },
{
    let ghost p = |b: BoardModel| same_ignoring_ascii_case(b.name, name@);
    let mut i: usize = 0;
    while i < boards.len()
        invariant
            i <= boards.len(),
            p == |b: BoardModel| same_ignoring_ascii_case(b.name, name@),
            forall|j: int| 0 <= j < i ==> !p(#[trigger] boards.deep_view()[j]),
        decreases boards.len() - i,
    {
        if eq_ignore_ascii_case(boards[i].name.as_str(), name) {
            proof {
                assert(p(boards.deep_view()[i as int]));
                lemma_first_found(boards.deep_view(), p, i as int);
            }
            return Ok(boards[i].clone());
        }
        i = i + 1;
    }
    proof {
        lemma_first_absent(boards.deep_view(), p);
    }
    Err(joined(joined("Board '", name).as_str(), "' not found on Planka"))
}

impl Clone for PlankaComment {
    fn clone(&self) -> Self {
        PlankaComment {
            id: self.id.clone(),
            user_id: clone_opt(&self.user_id),
            user_name: clone_opt(&self.user_name),
            text: self.text.clone(),
            created: clone_opt(&self.created),
        }
    }
}

impl Clone for PlankaAttachment {
    fn clone(&self) -> Self {
        PlankaAttachment { id: self.id.clone(), name: self.name.clone(), url: clone_opt(&self.url) }
    }
}

impl Clone for PlankaTask {
    fn clone(&self) -> Self {
        PlankaTask {
            id: self.id.clone(),
            name: self.name.clone(),
            is_completed: self.is_completed,
            task_list_id: clone_opt(&self.task_list_id),
        }
    }
}

impl Clone for PlankaCustomField {
    fn clone(&self) -> Self {
        PlankaCustomField {
            id: self.id.clone(),
            name: self.name.clone(),
            show_on_front_of_card: self.show_on_front_of_card,
        }
    }
}

impl Clone for PlankaCustomFieldGroupDetails {
    fn clone(&self) -> Self {
        PlankaCustomFieldGroupDetails {
            id: self.id.clone(),
            name: clone_opt(&self.name),
            fields: self.fields.clone(),
            values_by_field: self.values_by_field.clone(),
        }
    }
}

impl Clone for PlankaCardDetails {
    fn clone(&self) -> Self {
        PlankaCardDetails {
            id: self.id.clone(),
            name: self.name.clone(),
            description: clone_opt(&self.description),
            due: clone_opt(&self.due),
            is_due_completed: self.is_due_completed,
            created: clone_opt(&self.created),
            updated: clone_opt(&self.updated),
            list_name: clone_opt(&self.list_name),
            labels: self.labels.clone(),
            attachments: self.attachments.clone(),
            tasks: self.tasks.clone(),
            board_id: clone_opt(&self.board_id),
            attachments_full: self.attachments_full.clone(),
            tasks_full: self.tasks_full.clone(),
            task_lists: self.task_lists.clone(),
            custom_field_groups: self.custom_field_groups.clone(),
        }
    }
}

impl Clone for PlankaProject {
    fn clone(&self) -> Self {
        PlankaProject {
            id: self.id.clone(),
            name: self.name.clone(),
            description: clone_opt(&self.description),
            is_hidden: self.is_hidden,
        }
    }
}

impl Clone for PlankaProjectDetails {
    fn clone(&self) -> Self {
        PlankaProjectDetails {
            id: self.id.clone(),
            name: self.name.clone(),
            description: clone_opt(&self.description),
            is_hidden: self.is_hidden,
            boards: self.boards.clone(),
        }
    }
}

impl Clone for PlankaTaskListDetails {
    fn clone(&self) -> Self {
        PlankaTaskListDetails {
            id: self.id.clone(),
            name: self.name.clone(),
            tasks: self.tasks.clone(),
        }
    }
}

impl Clone for PlankaBoardDetails {
    fn clone(&self) -> Self {
        PlankaBoardDetails {
            id: self.id.clone(),
            name: self.name.clone(),
            project_id: clone_opt(&self.project_id),
            lists: self.lists.clone(),
            labels: self.labels.clone(),
        }
    }
}

impl Clone for PlankaListDetails {
    fn clone(&self) -> Self {
        PlankaListDetails {
            id: self.id.clone(),
            name: self.name.clone(),
            cards: self.cards.clone(),
        }
    }
}

impl Clone for PlankaOidcConfig {
    fn clone(&self) -> Self {
        PlankaOidcConfig {
            authorization_url: self.authorization_url.clone(),
            end_session_url: clone_opt(&self.end_session_url),
            is_enforced: self.is_enforced,
        }
    }
}

impl Clone for PlankaServerConfig {
    fn clone(&self) -> Self {
        PlankaServerConfig {
            version: self.version.clone(),
            active_users_limit: self.active_users_limit,
            oidc: match &self.oidc {
                Some(o) => Some(o.clone()),
                None => None,
            },
        }
    }
}

impl Clone for PlankaNotification {
    fn clone(&self) -> Self {
        PlankaNotification {
            id: self.id.clone(),
            user_id: self.user_id.clone(),
            card_id: clone_opt(&self.card_id),
            type_: self.type_.clone(),
            text: clone_opt(&self.text),
            is_read: self.is_read,
            created: clone_opt(&self.created),
        }
    }
}

impl Clone for PlankaNotificationService {
    fn clone(&self) -> Self {
        PlankaNotificationService {
            id: self.id.clone(),
            user_id: clone_opt(&self.user_id),
            board_id: clone_opt(&self.board_id),
            url: self.url.clone(),
            format: self.format.clone(),
        }
    }
}

impl Clone for PlankaUser {
    fn clone(&self) -> Self {
        PlankaUser {
            id: self.id.clone(),
            role: self.role.clone(),
            name: self.name.clone(),
            username: clone_opt(&self.username),
            email: clone_opt(&self.email),
            is_deactivated: self.is_deactivated,
        }
    }
}

impl Clone for PlankaWebhook {
    fn clone(&self) -> Self {
        PlankaWebhook {
            id: self.id.clone(),
            name: self.name.clone(),
            url: self.url.clone(),
            access_token: clone_opt(&self.access_token),
            events: clone_opt(&self.events),
            excluded_events: clone_opt(&self.excluded_events),
        }
    }
}

impl Clone for PlankaTerms {
    fn clone(&self) -> Self {
        PlankaTerms {
            type_: self.type_.clone(),
            language: self.language.clone(),
            content: self.content.clone(),
            signature: self.signature.clone(),
        }
    }
}

} // verus!
