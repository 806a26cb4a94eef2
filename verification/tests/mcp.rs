//! The lists of servers and of their actions.

use codex_surface::mcp::{
    auth_status_label, mcp_error_params, mcp_loading_params, ChatWidget, ColumnWidthMode,
    McpAction, McpAuthStatus, McpCommand, McpMessage, McpServerInfo, McpServerStatus,
    OauthLoginCompleted, SelectionViewParams,
};
use codex_surface::styled::{TextLine, TextSpan, BOLD, DIM};

fn status(name: &str, auth_status: McpAuthStatus, tools: usize) -> McpServerStatus {
    McpServerStatus {
        record: 7,
        name: name.to_string(),
        server_info: None,
        auth_status,
        tools: (0..tools).map(|i| format!("tool{i}")).collect(),
        resources: vec!["r".to_string()],
        resource_templates: Vec::new(),
    }
}

fn widget(thread_id: Option<&str>) -> ChatWidget {
    ChatWidget {
        thread_id: thread_id.map(|id| id.to_string()),
        footer_hint: TextLine::from_span(TextSpan::raw("press enter")),
    }
}

fn header(params: &SelectionViewParams) -> Vec<(String, u16)> {
    params
        .header
        .iter()
        .map(|line| (line.spans[0].content.clone(), line.spans[0].style.add_modifier))
        .collect()
}

#[test]
fn placeholders_while_loading_and_on_failure() {
    let loading = mcp_loading_params();
    assert_eq!(loading.view_id, "mcp-manager");
    assert_eq!(
        header(&loading),
        vec![
            ("MCP servers".to_string(), BOLD),
            ("Loading configured servers and authentication...".to_string(), DIM),
        ]
    );
    assert_eq!(loading.items.len(), 1);
    assert_eq!(loading.items[0].name, "Loading MCP servers...");
    assert!(loading.items[0].is_disabled);
    assert!(!loading.is_searchable);

    let failed = mcp_error_params("boom");
    assert_eq!(failed.items[0].name, "Failed to load MCP servers");
    assert_eq!(failed.items[0].description.as_deref(), Some("boom"));
    assert_eq!(failed.header[1].spans[0].content, "Could not load MCP configuration.");
    assert!(failed.footer_hint.is_none());
}

#[test]
fn opening_the_manager() {
    let widget = widget(Some("t1"));
    match widget.open_mcp_manager() {
        McpCommand::ReplaceViewIfActive(id, params) => {
            assert_eq!(id, "mcp-manager");
            assert_eq!(params.items[0].name, "Loading MCP servers...");
        },
        _ => panic!("expected a replacement"),
    }
    let replaced = widget.on_mcp_manager_replaced(true);
    assert_eq!(replaced.len(), 2);
    assert!(matches!(&replaced[0], McpCommand::FetchInventory(Some(id)) if id == "t1"));
    assert!(matches!(replaced[1], McpCommand::Redraw));
    let shown = widget.on_mcp_manager_replaced(false);
    assert_eq!(shown.len(), 3);
    assert!(matches!(shown[0], McpCommand::ShowView(_)));
}

fn loaded(widget: &ChatWidget, result: Result<Vec<McpServerStatus>, String>) -> SelectionViewParams {
    let mut commands = widget.on_mcp_manager_loaded(result);
    assert_eq!(commands.len(), 2);
    assert!(matches!(commands.pop(), Some(McpCommand::Redraw)));
    match commands.pop() {
        Some(McpCommand::ReplaceViewIfActive(id, params)) => {
            assert_eq!(id, "mcp-manager");
            params
        },
        _ => panic!("expected a replacement"),
    }
}

#[test]
fn servers_are_listed_by_name() {
    let mut titled = status("beta", McpAuthStatus::OAuth, 1);
    titled.server_info = Some(McpServerInfo {
        name: "beta-server".to_string(),
        title: Some("Beta".to_string()),
        version: "1.2".to_string(),
    });
    let params = loaded(
        &widget(None),
        Ok(vec![
            status("zeta", McpAuthStatus::Unsupported, 0),
            titled,
            status("alpha", McpAuthStatus::NotLoggedIn, 2),
            status("beta", McpAuthStatus::BearerToken, 3),
            status("Zed", McpAuthStatus::Unsupported, 1),
        ]),
    );
    let names: Vec<&str> = params.items.iter().map(|item| item.name.as_str()).collect();
    assert_eq!(names, vec!["Zed", "alpha", "beta", "beta", "zeta"]);
    let descriptions: Vec<&str> = params
        .items
        .iter()
        .map(|item| item.description.as_deref().unwrap_or(""))
        .collect();
    assert_eq!(
        descriptions,
        vec![
            "No authentication · 1 tool",
            "Sign-in required · 2 tools",
            "OAuth connected · 1 tool",
            "Bearer token · 3 tools",
            "No authentication · 0 tools",
        ]
    );
    assert_eq!(params.items[2].search_value.as_deref(), Some("beta Beta"));
    assert_eq!(params.items[3].search_value.as_deref(), Some("beta"));
    assert_eq!(
        params.items[1].selected_description.as_deref(),
        Some("Sign-in required · 2 tools. Press Enter for tools, details, and authentication options.")
    );
    match &params.items[2].action {
        Some(McpAction::OpenServerActions(status)) => assert_eq!(status.tools, vec!["tool0"]),
        _ => panic!("expected an action"),
    }
    assert!(params.is_searchable);
    assert_eq!(params.search_placeholder.as_deref(), Some("Type to search MCP servers"));
    assert_eq!(params.col_width_mode, ColumnWidthMode::AutoAllRows);
    assert_eq!(
        params.footer_hint.map(|line| line.spans[0].content.clone()),
        Some("press enter".to_string())
    );
}

#[test]
fn no_servers_and_no_list() {
    let empty = loaded(&widget(None), Ok(Vec::new()));
    assert_eq!(empty.items.len(), 1);
    assert_eq!(empty.items[0].name, "No MCP servers configured");
    assert_eq!(
        empty.items[0].description.as_deref(),
        Some("Add a server to config.toml, then reopen /mcp.")
    );
    assert!(empty.items[0].is_disabled);
    let failed = loaded(&widget(None), Err("no config".to_string()));
    assert_eq!(failed.items[0].description.as_deref(), Some("no config"));
}

fn actions(widget: &ChatWidget, status: McpServerStatus) -> SelectionViewParams {
    let mut commands = widget.open_mcp_server_actions(status);
    assert!(matches!(commands.pop(), Some(McpCommand::Redraw)));
    match commands.pop() {
        Some(McpCommand::ShowView(params)) => params,
        _ => panic!("expected a list"),
    }
}

#[test]
fn actions_of_a_server() {
    let widget = widget(Some("t9"));
    let mut server = status("docs", McpAuthStatus::NotLoggedIn, 4);
    server.server_info = Some(McpServerInfo {
        name: "docs-server".to_string(),
        title: None,
        version: "0.3".to_string(),
    });
    let params = actions(&widget, server);
    assert_eq!(params.view_id, "mcp-server-actions");
    assert_eq!(
        header(&params),
        vec![
            ("MCP server".to_string(), BOLD),
            ("docs".to_string(), BOLD),
            ("docs-server · v0.3".to_string(), DIM),
            ("Authentication: Sign-in required".to_string(), DIM),
        ]
    );
    assert_eq!(params.items.len(), 2);
    assert_eq!(params.items[0].name, "Authenticate with OAuth");
    assert!(matches!(
        &params.items[0].action,
        Some(McpAction::StartOauthLogin(name, Some(thread))) if name == "docs" && thread == "t9"
    ));
    assert!(params.items[0].dismiss_on_select);
    assert_eq!(
        params.items[1].description.as_deref(),
        Some("4 tools · 1 resources · 0 templates")
    );
    assert!(matches!(
        &params.items[1].action,
        Some(McpAction::PrintInventory(status)) if status.name == "docs" && status.record == 7
    ));

    let again = actions(&widget, status("docs", McpAuthStatus::OAuth, 0));
    assert_eq!(again.items[0].name, "Reauthenticate with OAuth");
    assert_eq!(again.header.len(), 3);
    let token = actions(&widget, status("docs", McpAuthStatus::BearerToken, 0));
    assert_eq!(token.items[0].name, "Bearer token authentication");
    assert!(token.items[0].is_disabled);
    let none = actions(&widget, status("docs", McpAuthStatus::Unsupported, 0));
    assert_eq!(none.items[0].name, "OAuth unavailable");
    assert!(none.items[0].action.is_none());
}

#[test]
fn labels_of_authentication() {
    assert_eq!(auth_status_label(McpAuthStatus::Unsupported), "No authentication");
    assert_eq!(auth_status_label(McpAuthStatus::NotLoggedIn), "Sign-in required");
    assert_eq!(auth_status_label(McpAuthStatus::BearerToken), "Bearer token");
    assert_eq!(auth_status_label(McpAuthStatus::OAuth), "OAuth connected");
}

fn completed(thread_id: Option<&str>, success: bool, error: Option<&str>) -> OauthLoginCompleted {
    OauthLoginCompleted {
        name: "docs".to_string(),
        thread_id: thread_id.map(|id| id.to_string()),
        success,
        error: error.map(|e| e.to_string()),
    }
}

#[test]
fn end_of_signing_in_is_reported_to_its_thread() {
    let here = widget(Some("t1"));
    match here.on_mcp_oauth_login_completed(completed(Some("t1"), true, None)) {
        Some(McpMessage::Info(text, hint)) => {
            assert_eq!(text, "Authenticated MCP server 'docs'.");
            assert_eq!(
                hint.as_deref(),
                Some("Run /mcp to review its updated status and tools.")
            );
        },
        _ => panic!("expected a message"),
    }
    assert!(here.on_mcp_oauth_login_completed(completed(Some("t2"), true, None)).is_none());
    assert!(here.on_mcp_oauth_login_completed(completed(None, true, None)).is_some());
    assert!(widget(None)
        .on_mcp_oauth_login_completed(completed(Some("t2"), true, None))
        .is_some());
    match here.on_mcp_oauth_login_completed(completed(None, false, Some("denied"))) {
        Some(McpMessage::Error(text)) => {
            assert_eq!(text, "Failed to authenticate MCP server 'docs': denied");
        },
        _ => panic!("expected an error"),
    }
    match here.on_mcp_oauth_login_completed(completed(None, false, None)) {
        Some(McpMessage::Error(text)) => assert_eq!(
            text,
            "Failed to authenticate MCP server 'docs': authentication did not complete"
        ),
        _ => panic!("expected an error"),
    }
}
