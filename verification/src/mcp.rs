//! Managing MCP servers: the list of servers, the actions of one, and signing in.

use vstd::prelude::*;

use crate::strings;
use crate::styled::{self, LineView, SpanView, TextLine, TextSpan, TextStyle};

verus! {

/// How a server authenticates.
#[derive(Clone, Copy, Debug, PartialEq, Eq, Structural)]
pub enum McpAuthStatus {
    Unsupported,
    NotLoggedIn,
    BearerToken,
    OAuth,
}

/// What a server says of itself.
#[derive(Debug)]
pub struct McpServerInfo {
    pub name: String,
    pub title: Option<String>,
    pub version: String,
}

/// What a server says of itself.
pub struct InfoView {
    pub name: Seq<char>,
    pub title: Option<Seq<char>>,
    pub version: Seq<char>,
}

impl View for McpServerInfo {
    type V = InfoView;

    open spec fn view(&self) -> InfoView {
        InfoView {
            name: self.name@,
            title: strings::opt_text(self.title),
            version: self.version@,
        }
    }
}

/// A configured server, with the names of what it offers.
#[derive(Debug)]
pub struct McpServerStatus {
    /// The number under which everything that the server told is kept: the inventory is printed from
    /// that.
    pub record: u64,
    pub name: String,
    pub server_info: Option<McpServerInfo>,
    pub auth_status: McpAuthStatus,
    pub tools: Vec<String>,
    pub resources: Vec<String>,
    pub resource_templates: Vec<String>,
}

/// A configured server, with the names of what it offers.
pub struct StatusView {
    pub record: u64,
    pub name: Seq<char>,
    pub server_info: Option<InfoView>,
    pub auth_status: McpAuthStatus,
    pub tools: Seq<Seq<char>>,
    pub resources: Seq<Seq<char>>,
    pub resource_templates: Seq<Seq<char>>,
}

/// What an optional server says of itself.
pub open spec fn opt_info(info: Option<McpServerInfo>) -> Option<InfoView> {
    match info {
        Some(info) => Some(info@),
        None => None,
    }
}

impl View for McpServerStatus {
    type V = StatusView;

    open spec fn view(&self) -> StatusView {
        StatusView {
            record: self.record,
            name: self.name@,
            server_info: opt_info(self.server_info),
            auth_status: self.auth_status,
            tools: strings::texts(self.tools@),
            resources: strings::texts(self.resources@),
            resource_templates: strings::texts(self.resource_templates@),
        }
    }
}

/// The servers.
pub open spec fn status_views(statuses: Seq<McpServerStatus>) -> Seq<StatusView> {
    statuses.map_values(|s: McpServerStatus| s@)
}

/// A copy of some strings.
fn copy_strings(from: &Vec<String>) -> (copy: Vec<String>)
    ensures
        strings::texts(copy@) == strings::texts(from@),
{
    let mut copy: Vec<String> = Vec::new();
    let mut i: usize = 0;
    while i < from.len()
        invariant
            i <= from.len(),
            copy.len() == i,
            forall|j: int| 0 <= j < i ==> (#[trigger] copy@[j])@ == from@[j]@,
        decreases from.len() - i,
    {
        copy.push(from[i].clone());
        i += 1;
    }
    assert(strings::texts(copy@) =~= strings::texts(from@));
    copy
}

impl Clone for McpServerStatus {
    fn clone(&self) -> (status: Self)
        ensures
            status@ == self@,
    {
        let server_info = match &self.server_info {
            Some(info) => Some(
                McpServerInfo {
                    name: info.name.clone(),
                    title: strings::copy_optional(&info.title),
                    version: info.version.clone(),
                },
            ),
            None => None,
        };
        McpServerStatus {
            record: self.record,
            name: self.name.clone(),
            server_info,
            auth_status: self.auth_status,
            tools: copy_strings(&self.tools),
            resources: copy_strings(&self.resources),
            resource_templates: copy_strings(&self.resource_templates),
        }
    }
}

/// What choosing an item does.
#[derive(Debug)]
pub enum McpAction {
    /// The actions of a server are to be listed.
    OpenServerActions(McpServerStatus),
    /// All that a server offers is to be printed into the conversation.
    PrintInventory(McpServerStatus),
    /// Signing in to the server of a name is to begin, for a thread.
    StartOauthLogin(String, Option<String>),
}

/// What choosing an item does.
pub enum McpActionView {
    OpenServerActions(StatusView),
    PrintInventory(StatusView),
    StartOauthLogin(Seq<char>, Option<Seq<char>>),
}

impl View for McpAction {
    type V = McpActionView;

    open spec fn view(&self) -> McpActionView {
        match *self {
            McpAction::OpenServerActions(status) => McpActionView::OpenServerActions(status@),
            McpAction::PrintInventory(status) => McpActionView::PrintInventory(status@),
            McpAction::StartOauthLogin(name, thread_id) => McpActionView::StartOauthLogin(
                name@,
                strings::opt_text(thread_id),
            ),
        }
    }
}

/// An item of a list to choose from.
#[derive(Debug)]
pub struct SelectionItem {
    pub name: String,
    pub description: Option<String>,
    pub selected_description: Option<String>,
    pub search_value: Option<String>,
    pub action: Option<McpAction>,
    pub is_disabled: bool,
    pub dismiss_on_select: bool,
    pub dismiss_parent_on_child_accept: bool,
}

/// An item of a list to choose from.
pub struct ItemView {
    pub name: Seq<char>,
    pub description: Option<Seq<char>>,
    pub selected_description: Option<Seq<char>>,
    pub search_value: Option<Seq<char>>,
    pub action: Option<McpActionView>,
    pub is_disabled: bool,
    pub dismiss_on_select: bool,
    pub dismiss_parent_on_child_accept: bool,
}

impl View for SelectionItem {
    type V = ItemView;

    open spec fn view(&self) -> ItemView {
        ItemView {
            name: self.name@,
            description: strings::opt_text(self.description),
            selected_description: strings::opt_text(self.selected_description),
            search_value: strings::opt_text(self.search_value),
            action: match self.action {
                Some(action) => Some(action@),
                None => None,
            },
            is_disabled: self.is_disabled,
            dismiss_on_select: self.dismiss_on_select,
            dismiss_parent_on_child_accept: self.dismiss_parent_on_child_accept,
        }
    }
}

/// The items.
pub open spec fn item_views(items: Seq<SelectionItem>) -> Seq<ItemView> {
    items.map_values(|i: SelectionItem| i@)
}

/// How the columns of a list are sized.
#[derive(Clone, Copy, Debug, PartialEq, Eq, Structural)]
pub enum ColumnWidthMode {
    Standard,
    /// By all rows, also those out of sight.
    AutoAllRows,
}

/// The name of the list of servers.
pub open spec fn manager_view_id() -> Seq<char> {
    "mcp-manager"@
}

/// The name of the list of a server's actions.
pub open spec fn actions_view_id() -> Seq<char> {
    "mcp-server-actions"@
}

/// A list to choose from.
#[derive(Debug)]
pub struct SelectionViewParams {
    pub view_id: String,
    pub header: Vec<TextLine>,
    pub footer_hint: Option<TextLine>,
    pub items: Vec<SelectionItem>,
    pub is_searchable: bool,
    pub search_placeholder: Option<String>,
    pub col_width_mode: ColumnWidthMode,
}

/// A list to choose from.
pub struct ParamsView {
    pub view_id: Seq<char>,
    pub header: Seq<LineView>,
    pub footer_hint: Option<LineView>,
    pub items: Seq<ItemView>,
    pub is_searchable: bool,
    pub search_placeholder: Option<Seq<char>>,
    pub col_width_mode: ColumnWidthMode,
}

impl View for SelectionViewParams {
    type V = ParamsView;

    open spec fn view(&self) -> ParamsView {
        ParamsView {
            view_id: self.view_id@,
            header: styled::line_views(self.header@),
            footer_hint: match self.footer_hint {
                Some(line) => Some(line@),
                None => None,
            },
            items: item_views(self.items@),
            is_searchable: self.is_searchable,
            search_placeholder: strings::opt_text(self.search_placeholder),
            col_width_mode: self.col_width_mode,
        }
    }
}

/// A line of one text with one modifier.
pub open spec fn modified_line(content: Seq<char>, modifier: u16) -> LineView {
    styled::plain_line(seq![SpanView { content, style: TextStyle::plain().adding(modifier) }])
}

/// A line of one text with one modifier.
fn modified(content: &str, modifier: u16) -> (line: TextLine)
    ensures
        line@ == modified_line(content@, modifier),
{
    TextLine::from_span(TextSpan::styled(content, TextStyle::none().add(modifier)))
}

/// An item that cannot be chosen.
pub open spec fn notice(name: Seq<char>, description: Seq<char>) -> ItemView {
    ItemView {
        name,
        description: Some(description),
        selected_description: None,
        search_value: None,
        action: None,
        is_disabled: true,
        dismiss_on_select: false,
        dismiss_parent_on_child_accept: false,
    }
}

/// An item that cannot be chosen.
fn notice_item(name: &str, description: &str) -> (item: SelectionItem)
    ensures
        item@ == notice(name@, description@),
{
    SelectionItem {
        name: name.to_owned(),
        description: Some(description.to_owned()),
        selected_description: None,
        search_value: None,
        action: None,
        is_disabled: true,
        dismiss_on_select: false,
        dismiss_parent_on_child_accept: false,
    }
}

/// The list of servers with one line of explanation and one item that cannot be chosen.
pub open spec fn manager_notice(explanation: Seq<char>, item: ItemView) -> ParamsView {
    ParamsView {
        view_id: manager_view_id(),
        header: seq![
            modified_line("MCP servers"@, styled::BOLD),
            modified_line(explanation, styled::DIM),
        ],
        footer_hint: None,
        items: seq![item],
        is_searchable: false,
        search_placeholder: None,
        col_width_mode: ColumnWidthMode::Standard,
    }
}

/// The list of servers with one line of explanation and one item that cannot be chosen.
fn manager_notice_params(explanation: &str, item: SelectionItem) -> (params: SelectionViewParams)
    ensures
        params@ == manager_notice(explanation@, item@),
{
    let mut header: Vec<TextLine> = Vec::new();
    header.push(modified("MCP servers", styled::BOLD));
    header.push(modified(explanation, styled::DIM));
    let mut items: Vec<SelectionItem> = Vec::new();
    items.push(item);
    let params = SelectionViewParams {
        view_id: "mcp-manager".to_owned(),
        header,
        footer_hint: None,
        items,
        is_searchable: false,
        search_placeholder: None,
        col_width_mode: ColumnWidthMode::Standard,
    };
    assert(params@.header =~= manager_notice(explanation@, item@).header);
    assert(params@.items =~= seq![item@]);
    params
}

/// The list of servers while they are being fetched.
pub open spec fn loading_view() -> ParamsView {
    manager_notice(
        "Loading configured servers and authentication..."@,
        notice("Loading MCP servers..."@, "This updates when the server list is ready."@),
    )
}

/// The list of servers while they are being fetched.
pub fn mcp_loading_params() -> (params: SelectionViewParams)
    ensures
        params@ == loading_view(),
{
    manager_notice_params(
        "Loading configured servers and authentication...",
        notice_item("Loading MCP servers...", "This updates when the server list is ready."),
    )
}

/// The list of servers when they could not be fetched.
pub open spec fn error_view(error: Seq<char>) -> ParamsView {
    manager_notice(
        "Could not load MCP configuration."@,
        notice("Failed to load MCP servers"@, error),
    )
}

/// The list of servers when they could not be fetched.
pub fn mcp_error_params(error: &str) -> (params: SelectionViewParams)
    ensures
        params@ == error_view(error@),
{
    manager_notice_params(
        "Could not load MCP configuration.",
        notice_item("Failed to load MCP servers", error),
    )
}

/// How a server authenticates, in words.
pub open spec fn auth_label(status: McpAuthStatus) -> Seq<char> {
    match status {
        McpAuthStatus::Unsupported => "No authentication"@,
        McpAuthStatus::NotLoggedIn => "Sign-in required"@,
        McpAuthStatus::BearerToken => "Bearer token"@,
        McpAuthStatus::OAuth => "OAuth connected"@,
    }
}

/// How a server authenticates, in words.
pub fn auth_status_label(status: McpAuthStatus) -> (label: &'static str)
    ensures
        label@ == auth_label(status),
{
    match status {
        McpAuthStatus::Unsupported => "No authentication",
        McpAuthStatus::NotLoggedIn => "Sign-in required",
        McpAuthStatus::BearerToken => "Bearer token",
        McpAuthStatus::OAuth => "OAuth connected",
    }
}

/// Servers in the order of their names, with one more in its place, behind those of the same name.
pub open spec fn inserted_by_name(sorted: Seq<StatusView>, status: StatusView) -> Seq<StatusView>
    decreases sorted.len(),
{
    if sorted.len() > 0 && strings::precedes(status.name, sorted.last().name) {
        inserted_by_name(sorted.drop_last(), status).push(sorted.last())
    } else {
        sorted.push(status)
    }
}

/// The servers in the order of their names; those of one name stay in the order in which they came.
pub open spec fn sorted_by_name(statuses: Seq<StatusView>) -> Seq<StatusView>
    decreases statuses.len(),
{
    if statuses.len() == 0 {
        Seq::empty()
    } else {
        inserted_by_name(sorted_by_name(statuses.drop_last()), statuses.last())
    }
}

/// Where a server is inserted.
proof fn lemma_inserted_at(sorted: Seq<StatusView>, status: StatusView, at: nat)
    requires
        at <= sorted.len(),
        at > 0 ==> !strings::precedes(status.name, sorted[at - 1].name),
        forall|i: int|
            at <= i < sorted.len() ==> strings::precedes(
                status.name,
                (#[trigger] sorted[i]).name,
            ),
    ensures
        inserted_by_name(sorted, status) == sorted.insert(at as int, status),
    decreases sorted.len(),
{
    if sorted.len() > at {
        assert(strings::precedes(status.name, sorted[sorted.len() - 1].name));
        lemma_inserted_at(sorted.drop_last(), status, at);
        assert(sorted.drop_last().insert(at as int, status).push(sorted.last()) =~= sorted.insert(
            at as int,
            status,
        ));
    } else {
        assert(sorted.push(status) =~= sorted.insert(at as int, status));
    }
}

/// Puts the servers in the order of their names.
fn sort_by_name(statuses: Vec<McpServerStatus>) -> (sorted: Vec<McpServerStatus>)
    ensures
        status_views(sorted@) == sorted_by_name(status_views(statuses@)),
        sorted.len() == statuses.len(),
{
    let ghost all = status_views(statuses@);
    let mut rest = statuses;
    let mut sorted: Vec<McpServerStatus> = Vec::new();
    let ghost mut taken: int = 0;
    assert(status_views(sorted@) =~= sorted_by_name(all.take(0)));
    assert(status_views(rest@) =~= all.skip(0));
    while rest.len() > 0
        invariant
            0 <= taken <= all.len(),
            sorted.len() == taken,
            sorted.len() + rest.len() == all.len(),
            status_views(rest@) == all.skip(taken),
            status_views(sorted@) == sorted_by_name(all.take(taken)),
        decreases rest.len(),
    {
        let ghost before = status_views(sorted@);
        let ghost rest_before = rest@;
        let status = rest.remove(0);
        assert(status@ == all[taken]) by {
            assert(status_views(rest_before)[0] == all.skip(taken)[0]);
        }
        let mut at: usize = sorted.len();
        while at > 0 && strings::comes_before(
            status.name.as_str(),
            sorted[at - 1].name.as_str(),
        )
            invariant
                before == status_views(sorted@),
                before.len() == sorted.len(),
                at <= sorted.len(),
                forall|i: int|
                    at <= i < before.len() ==> strings::precedes(
                        status@.name,
                        (#[trigger] before[i]).name,
                    ),
            decreases at,
        {
            at -= 1;
        }
        proof {
            if at > 0 {
                assert(before[at - 1] == sorted@[at - 1]@);
            }
            lemma_inserted_at(before, status@, at as nat);
        }
        sorted.insert(at, status);
        proof {
            assert(status_views(sorted@) =~= before.insert(at as int, status@));
            assert(all.take(taken + 1).drop_last() =~= all.take(taken));
            assert(all.take(taken + 1).last() == all[taken]);
            assert(status_views(rest@) =~= all.skip(taken + 1)) by {
                assert forall|i: int| 0 <= i < rest@.len() implies status_views(rest@)[i]
                    == all.skip(taken + 1)[i] by {
                    assert(status_views(rest_before)[i + 1] == all.skip(taken)[i + 1]);
                }
            }
            taken = taken + 1;
        }
    }
    assert(all.take(taken) =~= all);
    sorted
}

/// What stands behind a server's name in the list.
pub open spec fn server_description(status: StatusView) -> Seq<char> {
    auth_label(status.auth_status) + " · "@ + strings::decimal(status.tools.len()) + " tool"@
        + if status.tools.len() == 1 {
        Seq::empty()
    } else {
        "s"@
    }
}

/// What a search looks for: a server's name, and its title if it has one.
pub open spec fn server_search_value(status: StatusView) -> Seq<char> {
    match status.server_info {
        Some(info) => match info.title {
            Some(title) => status.name + " "@ + title,
            None => status.name,
        },
        None => status.name,
    }
}

/// The item of a server in the list.
pub open spec fn server_item(status: StatusView) -> ItemView {
    ItemView {
        name: status.name,
        description: Some(server_description(status)),
        selected_description: Some(
            server_description(status)
                + ". Press Enter for tools, details, and authentication options."@,
        ),
        search_value: Some(server_search_value(status)),
        action: Some(McpActionView::OpenServerActions(status)),
        is_disabled: false,
        dismiss_on_select: false,
        dismiss_parent_on_child_accept: false,
    }
}

/// The item of a server in the list.
fn server_selection_item(status: McpServerStatus) -> (item: SelectionItem)
    ensures
        item@ == server_item(status@),
{
    let mut description = auth_status_label(status.auth_status).to_owned();
    description.push_str(" · ");
    assert(strings::texts(status.tools@).len() == status.tools.len());
    strings::push_decimal(&mut description, status.tools.len());
    description.push_str(" tool");
    if status.tools.len() != 1 {
        description.push_str("s");
    }
    assert(description@ =~= server_description(status@));
    let mut search_value = status.name.clone();
    if let Some(info) = &status.server_info {
        if let Some(title) = &info.title {
            search_value.push_str(" ");
            search_value.push_str(title.as_str());
        }
    }
    let mut selected_description = description.clone();
    selected_description.push_str(
        ". Press Enter for tools, details, and authentication options.",
    );
    SelectionItem {
        name: status.name.clone(),
        description: Some(description),
        selected_description: Some(selected_description),
        search_value: Some(search_value),
        action: Some(McpAction::OpenServerActions(status)),
        is_disabled: false,
        dismiss_on_select: false,
        dismiss_parent_on_child_accept: false,
    }
}

/// The list of servers: an item for each in the order of their names, or a notice where there is none.
pub open spec fn manager_view(statuses: Seq<StatusView>, footer_hint: LineView) -> ParamsView {
    ParamsView {
        view_id: manager_view_id(),
        header: seq![
            modified_line("MCP servers"@, styled::BOLD),
            modified_line(
                "Select a server to inspect tools or manage authentication."@,
                styled::DIM,
            ),
        ],
        footer_hint: Some(footer_hint),
        items: if statuses.len() == 0 {
            seq![
                notice(
                    "No MCP servers configured"@,
                    "Add a server to config.toml, then reopen /mcp."@,
                ),
            ]
        } else {
            sorted_by_name(statuses).map_values(|s: StatusView| server_item(s))
        },
        is_searchable: true,
        search_placeholder: Some("Type to search MCP servers"@),
        col_width_mode: ColumnWidthMode::AutoAllRows,
    }
}

/// The list of servers once they were to be fetched.
pub open spec fn loaded_view(
    result: Result<Vec<McpServerStatus>, String>,
    footer_hint: LineView,
) -> ParamsView {
    match result {
        Ok(statuses) => manager_view(status_views(statuses@), footer_hint),
        Err(error) => error_view(error@),
    }
}

/// What is to be done with the rest of the interface.
#[derive(Debug)]
pub enum McpCommand {
    /// The open list of a name is to be replaced, if there is one.
    ReplaceViewIfActive(String, SelectionViewParams),
    ShowView(SelectionViewParams),
    /// All servers are to be fetched in full for the list, for a thread.
    FetchInventory(Option<String>),
    Redraw,
}

/// What is to be done with the rest of the interface.
pub enum McpCommandView {
    ReplaceViewIfActive(Seq<char>, ParamsView),
    ShowView(ParamsView),
    FetchInventory(Option<Seq<char>>),
    Redraw,
}

impl View for McpCommand {
    type V = McpCommandView;

    open spec fn view(&self) -> McpCommandView {
        match *self {
            McpCommand::ReplaceViewIfActive(id, params) => McpCommandView::ReplaceViewIfActive(
                id@,
                params@,
            ),
            McpCommand::ShowView(params) => McpCommandView::ShowView(params@),
            McpCommand::FetchInventory(thread_id) => McpCommandView::FetchInventory(
                strings::opt_text(thread_id),
            ),
            McpCommand::Redraw => McpCommandView::Redraw,
        }
    }
}

/// The commands.
pub open spec fn command_views(commands: Seq<McpCommand>) -> Seq<McpCommandView> {
    commands.map_values(|c: McpCommand| c@)
}

/// That signing in to a server is over.
#[derive(Debug)]
pub struct OauthLoginCompleted {
    pub name: String,
    pub thread_id: Option<String>,
    pub success: bool,
    pub error: Option<String>,
}

/// What the user is told.
#[derive(Debug)]
pub enum McpMessage {
    /// Something worth knowing, and what can be done next.
    Info(String, Option<String>),
    Error(String),
}

/// What the user is told.
pub enum McpMessageView {
    Info(Seq<char>, Option<Seq<char>>),
    Error(Seq<char>),
}

impl View for McpMessage {
    type V = McpMessageView;

    open spec fn view(&self) -> McpMessageView {
        match *self {
            McpMessage::Info(text, hint) => McpMessageView::Info(text@, strings::opt_text(hint)),
            McpMessage::Error(text) => McpMessageView::Error(text@),
        }
    }
}

/// The chat, as far as managing servers depends on it.
#[derive(Debug)]
pub struct ChatWidget {
    /// The thread that is shown.
    pub thread_id: Option<String>,
    /// The hint at the foot of lists.
    pub footer_hint: TextLine,
}

/// The item that begins signing in to a server.
pub open spec fn oauth_item(
    name: Seq<char>,
    label: Seq<char>,
    thread_id: Option<Seq<char>>,
) -> ItemView {
    ItemView {
        name: label,
        description: Some("Open browser-based sign-in for this MCP server."@),
        selected_description: Some(
            "Codex will open your browser and report when authentication finishes."@,
        ),
        search_value: None,
        action: Some(McpActionView::StartOauthLogin(name, thread_id)),
        is_disabled: false,
        dismiss_on_select: true,
        dismiss_parent_on_child_accept: true,
    }
}

/// The item about a server's authentication.
pub open spec fn authentication_item(
    status: StatusView,
    thread_id: Option<Seq<char>>,
) -> ItemView {
    match status.auth_status {
        McpAuthStatus::NotLoggedIn => oauth_item(
            status.name,
            "Authenticate with OAuth"@,
            thread_id,
        ),
        McpAuthStatus::OAuth => oauth_item(status.name, "Reauthenticate with OAuth"@, thread_id),
        McpAuthStatus::BearerToken => notice(
            "Bearer token authentication"@,
            "Configured through the server's bearer_token_env_var environment variable."@,
        ),
        McpAuthStatus::Unsupported => notice(
            "OAuth unavailable"@,
            "This server does not advertise OAuth authentication."@,
        ),
    }
}

/// The item that prints what a server offers.
pub open spec fn inventory_item(status: StatusView) -> ItemView {
    ItemView {
        name: "View tools and resources"@,
        description: Some(
            strings::decimal(status.tools.len()) + " tools · "@ + strings::decimal(
                status.resources.len(),
            ) + " resources · "@ + strings::decimal(status.resource_templates.len())
                + " templates"@,
        ),
        selected_description: Some("Print the detailed inventory in conversation history."@),
        search_value: None,
        action: Some(McpActionView::PrintInventory(status)),
        is_disabled: false,
        dismiss_on_select: true,
        dismiss_parent_on_child_accept: true,
    }
}

/// The lines above a server's actions: its name, its title and version if it tells them, and how it
/// authenticates.
pub open spec fn actions_header(status: StatusView) -> Seq<LineView> {
    seq![modified_line("MCP server"@, styled::BOLD), modified_line(status.name, styled::BOLD)]
        + match status.server_info {
        Some(info) => seq![
            modified_line(
                match info.title {
                    Some(title) => title,
                    None => info.name,
                } + " · v"@ + info.version,
                styled::DIM,
            ),
        ],
        None => Seq::empty(),
    } + seq![modified_line("Authentication: "@ + auth_label(status.auth_status), styled::DIM)]
}

/// The list of a server's actions.
pub open spec fn actions_view(
    status: StatusView,
    thread_id: Option<Seq<char>>,
    footer_hint: LineView,
) -> ParamsView {
    ParamsView {
        view_id: actions_view_id(),
        header: actions_header(status),
        footer_hint: Some(footer_hint),
        items: seq![authentication_item(status, thread_id), inventory_item(status)],
        is_searchable: false,
        search_placeholder: None,
        col_width_mode: ColumnWidthMode::AutoAllRows,
    }
}

impl ChatWidget {
    /// Opens the list of servers: an open one is to be replaced by one that is being filled. What
    /// follows depends on whether there was one.
    pub fn open_mcp_manager(&self) -> (command: McpCommand)
        ensures
            command@ == McpCommandView::ReplaceViewIfActive(manager_view_id(), loading_view()),
    {
        McpCommand::ReplaceViewIfActive("mcp-manager".to_owned(), mcp_loading_params())
    }

    /// Goes on once it is known whether an open list of servers has been replaced: else one is shown;
    /// and the servers are fetched.
    pub fn on_mcp_manager_replaced(&self, replaced: bool) -> (commands: Vec<McpCommand>)
        ensures
            command_views(commands@) == if replaced {
                Seq::empty()
            } else {
                seq![McpCommandView::ShowView(loading_view())]
            } + seq![
                McpCommandView::FetchInventory(strings::opt_text(self.thread_id)),
                McpCommandView::Redraw,
            ],
    {
        let mut commands: Vec<McpCommand> = Vec::new();
        if !replaced {
            commands.push(McpCommand::ShowView(mcp_loading_params()));
        }
        commands.push(McpCommand::FetchInventory(strings::copy_optional(&self.thread_id)));
        commands.push(McpCommand::Redraw);
        assert(command_views(commands@) =~= if replaced {
            Seq::empty()
        } else {
            seq![McpCommandView::ShowView(loading_view())]
        } + seq![
            McpCommandView::FetchInventory(strings::opt_text(self.thread_id)),
            McpCommandView::Redraw,
        ]);
        commands
    }

    /// Fills the open list of servers, if there is one, with those that were fetched.
    pub fn on_mcp_manager_loaded(&self, result: Result<Vec<McpServerStatus>, String>) -> (commands:
        Vec<McpCommand>)
        ensures
            command_views(commands@) == seq![
                McpCommandView::ReplaceViewIfActive(
                    manager_view_id(),
                    loaded_view(result, self.footer_hint@),
                ),
                McpCommandView::Redraw,
            ],
    {
        let ghost view = loaded_view(result, self.footer_hint@);
        let params = match result {
            Ok(statuses) => self.mcp_manager_params(statuses),
            Err(error) => mcp_error_params(error.as_str()),
        };
        let mut commands: Vec<McpCommand> = Vec::new();
        commands.push(McpCommand::ReplaceViewIfActive("mcp-manager".to_owned(), params));
        commands.push(McpCommand::Redraw);
        assert(command_views(commands@) =~= seq![
            McpCommandView::ReplaceViewIfActive(manager_view_id(), view),
            McpCommandView::Redraw,
        ]);
        commands
    }

    /// The list of servers.
    pub fn mcp_manager_params(&self, statuses: Vec<McpServerStatus>) -> (params:
        SelectionViewParams)
        ensures
            params@ == manager_view(status_views(statuses@), self.footer_hint@),
    {
        let ghost views = status_views(statuses@);
        let ghost expected = manager_view(views, self.footer_hint@);
        assert(views.len() == statuses.len());
        let mut header: Vec<TextLine> = Vec::new();
        header.push(modified("MCP servers", styled::BOLD));
        header.push(
            modified(
                "Select a server to inspect tools or manage authentication.",
                styled::DIM,
            ),
        );
        assert(styled::line_views(header@) =~= expected.header);
        let mut items: Vec<SelectionItem> = Vec::new();
        if statuses.len() == 0 {
            items.push(
                notice_item(
                    "No MCP servers configured",
                    "Add a server to config.toml, then reopen /mcp.",
                ),
            );
        } else {
            let sorted = sort_by_name(statuses);
            let ghost order = sorted_by_name(views);
            assert(status_views(sorted@).len() == sorted.len());
            let mut i: usize = 0;
            while i < sorted.len()
                invariant
                    i <= sorted.len(),
                    items.len() == i,
                    order == status_views(sorted@),
                    order.len() == sorted.len(),
                    forall|j: int|
                        0 <= j < i ==> (#[trigger] items@[j])@ == server_item(order[j]),
                decreases sorted.len() - i,
            {
                items.push(server_selection_item(sorted[i].clone()));
                i += 1;
            }
        }
        assert(item_views(items@) =~= expected.items);
        SelectionViewParams {
            view_id: "mcp-manager".to_owned(),
            header,
            footer_hint: Some(self.footer_hint.clone()),
            items,
            is_searchable: true,
            search_placeholder: Some("Type to search MCP servers".to_owned()),
            col_width_mode: ColumnWidthMode::AutoAllRows,
        }
    }

    /// Lists the actions of a server.
    pub fn open_mcp_server_actions(&self, status: McpServerStatus) -> (commands: Vec<McpCommand>)
        ensures
            command_views(commands@) == seq![
                McpCommandView::ShowView(
                    actions_view(
                        status@,
                        strings::opt_text(self.thread_id),
                        self.footer_hint@,
                    ),
                ),
                McpCommandView::Redraw,
            ],
    {
        let ghost expected = actions_view(
            status@,
            strings::opt_text(self.thread_id),
            self.footer_hint@,
        );
        let mut header: Vec<TextLine> = Vec::new();
        header.push(modified("MCP server", styled::BOLD));
        header.push(modified(status.name.as_str(), styled::BOLD));
        if let Some(info) = &status.server_info {
            let mut title = match &info.title {
                Some(title) => title.clone(),
                None => info.name.clone(),
            };
            title.push_str(" · v");
            title.push_str(info.version.as_str());
            header.push(modified(title.as_str(), styled::DIM));
        }
        let mut authentication = "Authentication: ".to_owned();
        authentication.push_str(auth_status_label(status.auth_status));
        header.push(modified(authentication.as_str(), styled::DIM));
        assert(styled::line_views(header@) =~= expected.header);
        let mut items: Vec<SelectionItem> = Vec::new();
        let first = match status.auth_status {
            McpAuthStatus::NotLoggedIn => self.mcp_oauth_action(
                status.name.as_str(),
                "Authenticate with OAuth",
            ),
            McpAuthStatus::OAuth => self.mcp_oauth_action(
                status.name.as_str(),
                "Reauthenticate with OAuth",
            ),
            McpAuthStatus::BearerToken => notice_item(
                "Bearer token authentication",
                "Configured through the server's bearer_token_env_var environment variable.",
            ),
            McpAuthStatus::Unsupported => notice_item(
                "OAuth unavailable",
                "This server does not advertise OAuth authentication.",
            ),
        };
        items.push(first);
        assert(strings::texts(status.tools@).len() == status.tools.len());
        assert(strings::texts(status.resources@).len() == status.resources.len());
        assert(strings::texts(status.resource_templates@).len()
            == status.resource_templates.len());
        let mut description = strings::decimal_string(status.tools.len());
        description.push_str(" tools · ");
        strings::push_decimal(&mut description, status.resources.len());
        description.push_str(" resources · ");
        strings::push_decimal(&mut description, status.resource_templates.len());
        description.push_str(" templates");
        items.push(
            SelectionItem {
                name: "View tools and resources".to_owned(),
                description: Some(description),
                selected_description: Some(
                    "Print the detailed inventory in conversation history.".to_owned(),
                ),
                search_value: None,
                action: Some(McpAction::PrintInventory(status)),
                is_disabled: false,
                dismiss_on_select: true,
                dismiss_parent_on_child_accept: true,
            },
        );
        assert(item_views(items@) =~= expected.items);
        let mut commands: Vec<McpCommand> = Vec::new();
        commands.push(
            McpCommand::ShowView(
                SelectionViewParams {
                    view_id: "mcp-server-actions".to_owned(),
                    header,
                    footer_hint: Some(self.footer_hint.clone()),
                    items,
                    is_searchable: false,
                    search_placeholder: None,
                    col_width_mode: ColumnWidthMode::AutoAllRows,
                },
            ),
        );
        commands.push(McpCommand::Redraw);
        assert(command_views(commands@) =~= seq![
            McpCommandView::ShowView(expected),
            McpCommandView::Redraw,
        ]);
        commands
    }

    /// The item that begins signing in to a server.
    pub fn mcp_oauth_action(&self, name: &str, label: &str) -> (item: SelectionItem)
        ensures
            item@ == oauth_item(name@, label@, strings::opt_text(self.thread_id)),
    {
        SelectionItem {
            name: label.to_owned(),
            description: Some("Open browser-based sign-in for this MCP server.".to_owned()),
            selected_description: Some(
                "Codex will open your browser and report when authentication finishes.".to_owned(),
            ),
            search_value: None,
            action: Some(
                McpAction::StartOauthLogin(name.to_owned(), strings::copy_optional(&self.thread_id)),
            ),
            is_disabled: false,
            dismiss_on_select: true,
            dismiss_parent_on_child_accept: true,
        }
    }

    /// The end of signing in concerns another thread than the one that is shown.
    pub open spec fn is_elsewhere(self, completed: OauthLoginCompleted) -> bool {
        match (self.thread_id, completed.thread_id) {
            (Some(current), Some(other)) => current@ != other@,
            _ => false,
        }
    }

    /// What the user is told when signing in is over: nothing where it was for another thread.
    pub open spec fn login_message(self, completed: OauthLoginCompleted) -> Option<
        McpMessageView,
    > {
        if self.is_elsewhere(completed) {
            None
        } else if completed.success {
            Some(
                McpMessageView::Info(
                    "Authenticated MCP server '"@ + completed.name@ + "'."@,
                    Some("Run /mcp to review its updated status and tools."@),
                ),
            )
        } else {
            Some(
                McpMessageView::Error(
                    "Failed to authenticate MCP server '"@ + completed.name@ + "': "@
                        + match completed.error {
                        Some(error) => error@,
                        None => "authentication did not complete"@,
                    },
                ),
            )
        }
    }

    /// Says what the user is told when signing in is over.
    pub fn on_mcp_oauth_login_completed(&self, completed: OauthLoginCompleted) -> (message: Option<
        McpMessage,
    >)
        ensures
            match message {
                Some(message) => self.login_message(completed) == Some(message@),
                None => self.login_message(completed) is None,
            },
    {
        if let Some(other) = &completed.thread_id {
            if let Some(current) = &self.thread_id {
                if !strings::same_text(current.as_str(), other.as_str()) {
                    return None;
                }
            }
        }
        if completed.success {
            let mut text = "Authenticated MCP server '".to_owned();
            text.push_str(completed.name.as_str());
            text.push_str("'.");
            Some(
                McpMessage::Info(
                    text,
                    Some("Run /mcp to review its updated status and tools.".to_owned()),
                ),
            )
        } else {
            let mut text = "Failed to authenticate MCP server '".to_owned();
            text.push_str(completed.name.as_str());
            text.push_str("': ");
            match &completed.error {
                Some(error) => text.push_str(error.as_str()),
                None => text.push_str("authentication did not complete"),
            }
            Some(McpMessage::Error(text))
        }
    }
}


/// The servers of a name, in the order in which they come.
pub open spec fn of_name(statuses: Seq<StatusView>, name: Seq<char>) -> Seq<StatusView>
    decreases statuses.len(),
{
    if statuses.len() == 0 {
        Seq::empty()
    } else if statuses.last().name == name {
        of_name(statuses.drop_last(), name).push(statuses.last())
    } else {
        of_name(statuses.drop_last(), name)
    }
}

/// The servers come in the order of their names.
pub open spec fn is_sorted(statuses: Seq<StatusView>) -> bool {
    forall|i: int, j: int|
        0 <= i < j < statuses.len() ==> !strings::precedes(
            (#[trigger] statuses[j]).name,
            (#[trigger] statuses[i]).name,
        )
}

/// What insertion keeps.
proof fn lemma_inserted(sorted: Seq<StatusView>, status: StatusView)
    requires
        is_sorted(sorted),
    ensures
        is_sorted(inserted_by_name(sorted, status)),
        inserted_by_name(sorted, status).len() == sorted.len() + 1,
        inserted_by_name(sorted, status).to_multiset() == sorted.to_multiset().insert(status),
        forall|i: int|
            0 <= i <= sorted.len() ==> (#[trigger] inserted_by_name(sorted, status)[i] == status
                || exists|k: int| 0 <= k < sorted.len() && inserted_by_name(sorted, status)[i] == #[trigger] sorted[k]),
        forall|name: Seq<char>| #[trigger]
            of_name(inserted_by_name(sorted, status), name) == if name == status.name {
                of_name(sorted, name).push(status)
            } else {
                of_name(sorted, name)
            },
    decreases sorted.len(),
{
    broadcast use vstd::seq_lib::group_to_multiset_ensures;

    let result = inserted_by_name(sorted, status);
    if sorted.len() > 0 && strings::precedes(status.name, sorted.last().name) {
        let front = sorted.drop_last();
        let last = sorted.last();
        assert(is_sorted(front)) by {
            assert forall|i: int, j: int| 0 <= i < j < front.len() implies !strings::precedes(
                (#[trigger] front[j]).name,
                (#[trigger] front[i]).name,
            ) by {
                assert(front[i] == sorted[i]);
                assert(front[j] == sorted[j]);
            }
        }
        lemma_inserted(front, status);
        let placed = inserted_by_name(front, status);
        assert(result == placed.push(last));
        assert(front.push(last) =~= sorted);
        assert(result.to_multiset() =~= sorted.to_multiset().insert(status));
        assert forall|i: int, j: int| 0 <= i < j < result.len() implies !strings::precedes(
            (#[trigger] result[j]).name,
            (#[trigger] result[i]).name,
        ) by {
            if j == result.len() - 1 {
                strings::law_precedes_total(status.name, last.name);
                assert(placed[i] == result[i]);
                if placed[i] != status {
                    let k = choose|k: int| 0 <= k < front.len() && placed[i] == #[trigger] front[k];
                    assert(sorted[k] == front[k]);
                    assert(!strings::precedes(sorted[sorted.len() - 1].name, sorted[k].name));
                }
            } else {
                assert(placed[i] == result[i]);
                assert(placed[j] == result[j]);
            }
        }
        assert forall|i: int| 0 <= i <= sorted.len() implies (#[trigger] result[i] == status
            || exists|k: int| 0 <= k < sorted.len() && result[i] == #[trigger] sorted[k]) by {
            if i == sorted.len() {
                assert(result[i] == sorted[sorted.len() - 1]);
            } else {
                assert(placed[i] == result[i]);
                if placed[i] != status {
                    let k = choose|k: int| 0 <= k < front.len() && placed[i] == #[trigger] front[k];
                    assert(result[i] == sorted[k]);
                }
            }
        }
        assert forall|name: Seq<char>| #[trigger] of_name(result, name) == if name == status.name {
            of_name(sorted, name).push(status)
        } else {
            of_name(sorted, name)
        } by {
            assert(result.drop_last() =~= placed);
            assert(of_name(placed, name) == if name == status.name {
                of_name(front, name).push(status)
            } else {
                of_name(front, name)
            });
            if last.name == status.name {
                strings::law_precedes_total(status.name, last.name);
            }
        }
    } else {
        assert(result == sorted.push(status));
        assert(result.drop_last() =~= sorted);
        assert forall|i: int, j: int| 0 <= i < j < result.len() implies !strings::precedes(
            (#[trigger] result[j]).name,
            (#[trigger] result[i]).name,
        ) by {
            if j == result.len() - 1 {
                if i < sorted.len() - 1 {
                    let last = sorted[sorted.len() - 1];
                    assert(!strings::precedes(last.name, sorted[i].name));
                    if strings::precedes(status.name, sorted[i].name) {
                        strings::law_precedes_total(sorted[i].name, last.name);
                        if sorted[i].name != last.name {
                            strings::law_precedes_transitive(
                                status.name,
                                sorted[i].name,
                                last.name,
                            );
                        }
                    }
                }
            } else {
                assert(result[i] == sorted[i]);
                assert(result[j] == sorted[j]);
            }
        }
        assert forall|i: int| 0 <= i <= sorted.len() implies (#[trigger] result[i] == status
            || exists|k: int| 0 <= k < sorted.len() && result[i] == #[trigger] sorted[k]) by {
            if i < sorted.len() {
                assert(result[i] == sorted[i]);
            }
        }
        assert forall|name: Seq<char>| #[trigger] of_name(result, name) == if name == status.name {
            of_name(sorted, name).push(status)
        } else {
            of_name(sorted, name)
        } by {
            assert(result.last() == status);
        }
    }
}

/// The list holds every server once, in the order of their names; servers of one name stay in the
/// order in which they came.
pub proof fn law_servers_are_sorted(statuses: Seq<StatusView>)
    ensures
        is_sorted(sorted_by_name(statuses)),
        sorted_by_name(statuses).len() == statuses.len(),
        sorted_by_name(statuses).to_multiset() == statuses.to_multiset(),
        forall|name: Seq<char>| #[trigger]
            of_name(sorted_by_name(statuses), name) == of_name(statuses, name),
    decreases statuses.len(),
{
    broadcast use vstd::seq_lib::group_to_multiset_ensures;

    if statuses.len() > 0 {
        law_servers_are_sorted(statuses.drop_last());
        lemma_inserted(sorted_by_name(statuses.drop_last()), statuses.last());
        assert(statuses.drop_last().push(statuses.last()) =~= statuses);
        assert forall|name: Seq<char>| #[trigger] of_name(sorted_by_name(statuses), name)
            == of_name(statuses, name) by {
            assert(of_name(sorted_by_name(statuses.drop_last()), name) == of_name(
                statuses.drop_last(),
                name,
            ));
        }
    } else {
        assert(statuses =~= Seq::empty());
    }
}

/// An item can be chosen if and only if choosing it does something.
pub open spec fn choosable_iff_active(items: Seq<ItemView>) -> bool {
    forall|i: int|
        0 <= i < items.len() ==> ((#[trigger] items[i]).is_disabled <==> items[i].action is None)
}

/// In every list, the items that cannot be chosen are those that do nothing.
pub proof fn law_disabled_items_do_nothing(
    error: Seq<char>,
    statuses: Seq<StatusView>,
    status: StatusView,
    thread_id: Option<Seq<char>>,
    footer_hint: LineView,
)
    ensures
        choosable_iff_active(loading_view().items),
        choosable_iff_active(error_view(error).items),
        choosable_iff_active(manager_view(statuses, footer_hint).items),
        choosable_iff_active(actions_view(status, thread_id, footer_hint).items),
{
}

/// Signing in can be begun from a server's actions exactly where the server supports it, and then for
/// that server and the thread that is shown.
pub proof fn law_oauth_offered_where_supported(
    status: StatusView,
    thread_id: Option<Seq<char>>,
    footer_hint: LineView,
)
    ensures
        actions_view(status, thread_id, footer_hint).items[0].action == if status.auth_status
            == McpAuthStatus::NotLoggedIn || status.auth_status == McpAuthStatus::OAuth {
            Some(McpActionView::StartOauthLogin(status.name, thread_id))
        } else {
            None
        },
{
}

} // verus!
