//! What the lists of servers offer, and for which server.

use vstd::prelude::*;

use crate::mcp::{
    self, ChatWidget, ItemView, McpActionView, McpAuthStatus, McpMessageView, McpServerInfo,
    McpServerStatus, OauthLoginCompleted, StatusView,
};
use crate::strings;
use crate::styled::{self, LineView};

verus! {

/// The server that choosing an item opens.
pub open spec fn opened_by(item: ItemView) -> StatusView {
    match item.action {
        Some(McpActionView::OpenServerActions(status)) => status,
        _ => arbitrary(),
    }
}

/// The list of servers has an item for every server, in the order of their names; each item is named
/// after its server and opens the actions of that very server.
pub proof fn law_every_server_is_listed(statuses: Seq<StatusView>, footer_hint: LineView)
    requires
        statuses.len() > 0,
    ensures
        ({
            let items = mcp::manager_view(statuses, footer_hint).items;
            &&& items.len() == statuses.len()
            &&& items.map_values(|item: ItemView| opened_by(item)).to_multiset()
                == statuses.to_multiset()
            &&& forall|i: int|
                0 <= i < items.len() ==> {
                    let item = #[trigger] items[i];
                    &&& item.action matches Some(McpActionView::OpenServerActions(status))
                    &&& item.name == status.name
                    &&& item.description == Some(
                        mcp::auth_label(status.auth_status) + " · "@ + strings::decimal(
                            status.tools.len(),
                        ) + if status.tools.len() == 1 {
                            " tool"@
                        } else {
                            " tools"@
                        },
                    )
                    &&& item.selected_description == Some(
                        item.description->0
                            + ". Press Enter for tools, details, and authentication options."@,
                    )
                    &&& !item.is_disabled
                    &&& !item.dismiss_on_select
                    &&& !item.dismiss_parent_on_child_accept
                    &&& item.search_value matches Some(text)
                    &&& status.name.is_prefix_of(text)
                    &&& status.server_info is None ==> text == status.name
                    &&& status.server_info matches Some(info) ==> match info.title {
                        Some(title) => text == status.name + seq![' '] + title,
                        None => text == status.name,
                    }
                }
            &&& forall|i: int, j: int|
                0 <= i < j < items.len() ==> !strings::precedes(
                    (#[trigger] items[j]).name,
                    (#[trigger] items[i]).name,
                )
            &&& forall|name: Seq<char>|
                mcp::of_name(items.map_values(|item: ItemView| opened_by(item)), name)
                    == #[trigger] mcp::of_name(statuses, name)
        }),
{
    let sorted = mcp::sorted_by_name(statuses);
    let items = mcp::manager_view(statuses, footer_hint).items;
    mcp::law_servers_are_sorted(statuses);
    assert(items.map_values(|item: ItemView| opened_by(item)) =~= sorted);
    reveal_strlit(" ");
    reveal_strlit(" tool");
    reveal_strlit(" tools");
    reveal_strlit("s");
    assert(" "@ =~= seq![' ']);
    assert(" tool"@ + "s"@ =~= " tools"@);
    assert forall|i: int| 0 <= i < items.len() implies {
        let item = #[trigger] items[i];
        let status = sorted[i];
        &&& item.action == Some(McpActionView::OpenServerActions(status))
        &&& item.description == Some(
            mcp::auth_label(status.auth_status) + " · "@ + strings::decimal(status.tools.len())
                + if status.tools.len() == 1 {
                " tool"@
            } else {
                " tools"@
            },
        )
        &&& item.search_value matches Some(text)
        &&& status.name.is_prefix_of(text)
    } by {
        let status = sorted[i];
        let start = mcp::auth_label(status.auth_status) + " · "@ + strings::decimal(
            status.tools.len(),
        );
        assert(start + " tool"@ + Seq::<char>::empty() =~= start + " tool"@);
        assert(start + " tool"@ + "s"@ =~= start + " tools"@);
    }
}

/// Servers of a name are all of that name, in their order.
pub proof fn law_servers_of_a_name(statuses: Seq<StatusView>, name: Seq<char>)
    ensures
        mcp::of_name(statuses, name) == statuses.filter(|s: StatusView| s.name == name),
    decreases statuses.len(),
{
    reveal(Seq::filter);
    if statuses.len() > 0 {
        law_servers_of_a_name(statuses.drop_last(), name);
    }
}

/// Without servers the list has one item, which cannot be chosen; so it has while they are fetched, and
/// where they could not be, and then it says why.
pub proof fn law_notices(error: Seq<char>, footer_hint: LineView)
    ensures
        ({
            let none = mcp::manager_view(Seq::empty(), footer_hint);
            let loading = mcp::loading_view();
            let failed = mcp::error_view(error);
            &&& none.items.len() == 1 && none.items[0].is_disabled && none.items[0].action is None
            &&& loading.items.len() == 1 && loading.items[0].is_disabled
            &&& failed.items.len() == 1 && failed.items[0].is_disabled
            &&& failed.items[0].description == Some(error)
            &&& none.view_id == loading.view_id && loading.view_id == failed.view_id
            &&& none.footer_hint == Some(footer_hint)
        }),
{
}

/// The actions of a server: signing in, where it can be done, and printing the inventory of that very
/// server, with how much there is of it; above them its name, what it says of itself, and how it
/// authenticates.
pub proof fn law_actions_are_about_the_server(
    status: StatusView,
    thread_id: Option<Seq<char>>,
    footer_hint: LineView,
)
    ensures
        ({
            let view = mcp::actions_view(status, thread_id, footer_hint);
            let print = view.items[1];
            let authenticate = view.items[0];
            let texts = view.header.map_values(|line: LineView| styled::line_text(line));
            &&& view.items.len() == 2
            &&& print.action == Some(McpActionView::PrintInventory(status))
            &&& print.description == Some(
                strings::decimal(status.tools.len()) + " tools · "@ + strings::decimal(
                    status.resources.len(),
                ) + " resources · "@ + strings::decimal(status.resource_templates.len())
                    + " templates"@,
            )
            &&& !print.is_disabled && print.dismiss_on_select
                && print.dismiss_parent_on_child_accept
            &&& authenticate.is_disabled <==> status.auth_status == McpAuthStatus::BearerToken
                || status.auth_status == McpAuthStatus::Unsupported
            &&& !authenticate.is_disabled ==> authenticate.action == Some(
                McpActionView::StartOauthLogin(status.name, thread_id),
            ) && authenticate.dismiss_on_select && authenticate.dismiss_parent_on_child_accept
            &&& authenticate.is_disabled ==> authenticate.action is None
            &&& texts.len() == if status.server_info is Some {
                4int
            } else {
                3
            }
            &&& texts[1] == status.name
            &&& texts.last() == "Authentication: "@ + mcp::auth_label(status.auth_status)
            &&& status.server_info matches Some(info) ==> texts[2] == match info.title {
                Some(title) => title,
                None => info.name,
            } + " · v"@ + info.version
            &&& view.footer_hint == Some(footer_hint)
        }),
{
    let view = mcp::actions_view(status, thread_id, footer_hint);
    assert forall|content: Seq<char>, modifier: u16|
        styled::line_text(#[trigger] mcp::modified_line(content, modifier)) == content by {
        let line = mcp::modified_line(content, modifier);
        let parts = line.spans.map_values(|s: styled::SpanView| s.content);
        assert(parts =~= seq![content]);
        crate::string_laws::law_concat(parts);
        parts.lemma_flatten_one_element();
    }
}

/// Every way of authenticating has words of its own.
pub proof fn law_labels_tell_apart(a: McpAuthStatus, b: McpAuthStatus)
    ensures
        mcp::auth_label(a) == mcp::auth_label(b) <==> a == b,
        mcp::auth_label(McpAuthStatus::NotLoggedIn) == "Sign-in required"@,
        mcp::auth_label(McpAuthStatus::OAuth) == "OAuth connected"@,
        mcp::auth_label(McpAuthStatus::BearerToken) == "Bearer token"@,
        mcp::auth_label(McpAuthStatus::Unsupported) == "No authentication"@,
{
    reveal_strlit("No authentication");
    reveal_strlit("Sign-in required");
    reveal_strlit("Bearer token");
    reveal_strlit("OAuth connected");
    assert("No authentication"@[0] == 'N');
    assert("Sign-in required"@[0] == 'S');
    assert("Bearer token"@[0] == 'B');
    assert("OAuth connected"@[0] == 'O');
}

/// The end of signing in is told to the thread it was begun in, or where no thread is known; it names
/// the server, and says why where it failed.
pub proof fn law_login_is_reported(widget: ChatWidget, completed: OauthLoginCompleted)
    ensures
        ({
            let message = widget.login_message(completed);
            let elsewhere = widget.thread_id is Some && completed.thread_id is Some
                && widget.thread_id->0@ != completed.thread_id->0@;
            &&& message is None <==> elsewhere
            &&& !elsewhere && completed.success ==> message == Some(
                McpMessageView::Info(
                    "Authenticated MCP server '"@ + completed.name@ + "'."@,
                    Some("Run /mcp to review its updated status and tools."@),
                ),
            )
            &&& !elsewhere && !completed.success ==> message == Some(
                McpMessageView::Error(
                    "Failed to authenticate MCP server '"@ + completed.name@ + "': "@
                        + if completed.error is Some {
                        completed.error->0@
                    } else {
                        "authentication did not complete"@
                    },
                ),
            )
        }),
{
}

/// What is said of a server is what is kept of it.
pub proof fn law_servers_as_kept(status: McpServerStatus, info: McpServerInfo, i: int)
    ensures
        status@.record == status.record,
        status@.name == status.name@,
        status@.auth_status == status.auth_status,
        status@.server_info is Some <==> status.server_info is Some,
        status.server_info == Some(info) ==> status@.server_info == Some(info@),
        info@.name == info.name@ && info@.version == info.version@,
        info@.title is Some <==> info.title is Some,
        info.title is Some ==> info@.title == Some(info.title->0@),
        status@.tools.len() == status.tools.len(),
        0 <= i < status.tools.len() ==> status@.tools[i] == status.tools@[i]@,
        status@.resources.len() == status.resources.len(),
        0 <= i < status.resources.len() ==> status@.resources[i] == status.resources@[i]@,
        status@.resource_templates.len() == status.resource_templates.len(),
        0 <= i < status.resource_templates.len() ==> status@.resource_templates[i]
            == status.resource_templates@[i]@,
{
}

/// The list of servers is that of what was fetched, or of what went wrong.
pub proof fn law_loaded(
    result: Result<Vec<McpServerStatus>, String>,
    footer_hint: LineView,
)
    ensures
        match result {
            Ok(statuses) => mcp::loaded_view(result, footer_hint) == mcp::manager_view(
                statuses@.map_values(|s: McpServerStatus| s@),
                footer_hint,
            ),
            Err(error) => mcp::loaded_view(result, footer_hint).items[0].description == Some(
                error@,
            ),
        },
{
    if let Ok(statuses) = result {
        assert(mcp::status_views(statuses@) =~= statuses@.map_values(|s: McpServerStatus| s@));
    }
}


/// What is said of lists, items, actions, commands and messages is what they hold.
pub proof fn law_lists_as_held(
    params: mcp::SelectionViewParams,
    item: mcp::SelectionItem,
    status: McpServerStatus,
    text: String,
    other: Option<String>,
    i: int,
)
    ensures
        item@.name == item.name@,
        item@.description == strings::opt_text(item.description),
        item@.selected_description == strings::opt_text(item.selected_description),
        item@.search_value == strings::opt_text(item.search_value),
        item@.action is Some <==> item.action is Some,
        item.action is Some ==> item@.action == Some(item.action->0@),
        item@.is_disabled == item.is_disabled,
        item@.dismiss_on_select == item.dismiss_on_select,
        item@.dismiss_parent_on_child_accept == item.dismiss_parent_on_child_accept,
        params@.view_id == params.view_id@,
        params@.header.len() == params.header.len(),
        0 <= i < params.header.len() ==> params@.header[i] == params.header@[i]@,
        params@.items.len() == params.items.len(),
        0 <= i < params.items.len() ==> params@.items[i] == params.items@[i]@,
        params@.footer_hint is Some <==> params.footer_hint is Some,
        params.footer_hint is Some ==> params@.footer_hint == Some(params.footer_hint->0@),
        params@.is_searchable == params.is_searchable,
        params@.search_placeholder == strings::opt_text(params.search_placeholder),
        params@.col_width_mode == params.col_width_mode,
        mcp::McpAction::OpenServerActions(status)@ == McpActionView::OpenServerActions(status@),
        mcp::McpAction::PrintInventory(status)@ == McpActionView::PrintInventory(status@),
        mcp::McpAction::StartOauthLogin(text, other)@ == McpActionView::StartOauthLogin(
            text@,
            strings::opt_text(other),
        ),
        mcp::McpCommand::ReplaceViewIfActive(text, params)@
            == mcp::McpCommandView::ReplaceViewIfActive(text@, params@),
        mcp::McpCommand::ShowView(params)@ == mcp::McpCommandView::ShowView(params@),
        mcp::McpCommand::FetchInventory(other)@ == mcp::McpCommandView::FetchInventory(
            strings::opt_text(other),
        ),
        mcp::McpCommand::Redraw@ == mcp::McpCommandView::Redraw,
        mcp::McpMessage::Info(text, other)@ == McpMessageView::Info(
            text@,
            strings::opt_text(other),
        ),
        mcp::McpMessage::Error(text)@ == McpMessageView::Error(text@),
{
}

/// A list can be searched if and only if it is that of the servers, and has a line of its own above it
/// that says what it is.
pub proof fn law_lists_are_headed(
    statuses: Seq<StatusView>,
    status: StatusView,
    error: Seq<char>,
    thread_id: Option<Seq<char>>,
    footer_hint: LineView,
)
    ensures
        ({
            let servers = mcp::manager_view(statuses, footer_hint);
            let actions = mcp::actions_view(status, thread_id, footer_hint);
            let loading = mcp::loading_view();
            let failed = mcp::error_view(error);
            &&& servers.is_searchable && servers.search_placeholder is Some
            &&& !actions.is_searchable && !loading.is_searchable && !failed.is_searchable
            &&& servers.header.len() == 2 && loading.header.len() == 2 && failed.header.len() == 2
            &&& servers.header[0] == loading.header[0] && servers.header[0] == failed.header[0]
            &&& servers.view_id == "mcp-manager"@ && loading.view_id == "mcp-manager"@
            &&& failed.view_id == "mcp-manager"@ && actions.view_id == "mcp-server-actions"@
            &&& servers.footer_hint == Some(footer_hint)
            &&& servers.col_width_mode == mcp::ColumnWidthMode::AutoAllRows
            &&& actions.col_width_mode == mcp::ColumnWidthMode::AutoAllRows
        }),
{
}


/// A line of one text has one span, with the modifier and nothing else.
pub proof fn law_modified_line(content: Seq<char>, modifier: u16)
    ensures
        ({
            let line = mcp::modified_line(content, modifier);
            &&& line.spans.len() == 1
            &&& line.spans[0].content == content
            &&& line.spans[0].style.add_modifier == modifier
            &&& line.spans[0].style.sub_modifier == 0
            &&& line.spans[0].style.fg is None && line.spans[0].style.bg is None
            &&& line.style == styled::TextStyle::plain()
            &&& line.alignment is None
        }),
{
    assert(0u16 | modifier == modifier) by (bit_vector);
    assert(0u16 & !modifier == 0u16) by (bit_vector);
}

/// What stands above the lists: a bold title, and what is to be known in dim.
pub proof fn law_headers_are_bold_then_dim(
    statuses: Seq<StatusView>,
    status: StatusView,
    error: Seq<char>,
    thread_id: Option<Seq<char>>,
    footer_hint: LineView,
)
    ensures
        ({
            let actions = mcp::actions_view(status, thread_id, footer_hint).header;
            let bold = |text: Seq<char>| mcp::modified_line(text, 1);
            let dim = |text: Seq<char>| mcp::modified_line(text, 2);
            &&& mcp::manager_view(statuses, footer_hint).header == seq![
                bold("MCP servers"@),
                dim("Select a server to inspect tools or manage authentication."@),
            ]
            &&& mcp::loading_view().header == seq![
                bold("MCP servers"@),
                dim("Loading configured servers and authentication..."@),
            ]
            &&& mcp::error_view(error).header == seq![
                bold("MCP servers"@),
                dim("Could not load MCP configuration."@),
            ]
            &&& actions[0] == bold("MCP server"@)
            &&& actions[1] == bold(status.name)
            &&& actions.last() == dim("Authentication: "@ + mcp::auth_label(status.auth_status))
        }),
{
}

/// Signing in is offered under a name that says whether it has been done before, and else it is said why
/// it is not.
pub proof fn law_authentication_item(status: StatusView, thread_id: Option<Seq<char>>)
    ensures
        ({
            let item = mcp::authentication_item(status, thread_id);
            &&& status.auth_status == McpAuthStatus::NotLoggedIn ==> item.name
                == "Authenticate with OAuth"@
            &&& status.auth_status == McpAuthStatus::OAuth ==> item.name
                == "Reauthenticate with OAuth"@
            &&& status.auth_status == McpAuthStatus::BearerToken ==> item.name
                == "Bearer token authentication"@ && item.description == Some(
                "Configured through the server's bearer_token_env_var environment variable."@,
            )
            &&& status.auth_status == McpAuthStatus::Unsupported ==> item.name
                == "OAuth unavailable"@ && item.description == Some(
                "This server does not advertise OAuth authentication."@,
            )
            &&& item.search_value is None
            &&& !item.is_disabled ==> item.description == Some(
                "Open browser-based sign-in for this MCP server."@,
            ) && item.selected_description == Some(
                "Codex will open your browser and report when authentication finishes."@,
            )
        }),
{
}

} // verus!
