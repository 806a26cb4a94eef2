//! The file tools, from the payload of a call to its answer.

use codex_surface::file_tools::{
    answer_read, update_contents, FunctionToolOutput, Inspection, PathError, ReadFileArgs,
    ReadFileHandler, ToolAction, ToolCall, ToolEvent, ToolPayload, UpdateFileArgs,
    UpdateFileHandler, WriteFileArgs, WriteFileHandler, MAX_READ_LINES,
};
use codex_surface::patch_text::{
    create_add_patch, create_update_patch, normalized_lines, patch_header, validate_patch_path,
    FunctionCallError,
};
use codex_surface::tool_spec::{
    environment_property, JsonSchema, Properties, SchemaKind, ToolSpec,
};

#[test]
fn add_patch_preserves_content_lines() {
    let patch = create_add_patch("new.txt", "one\ntwo\n", None);
    assert_eq!(
        patch,
        "*** Begin Patch\n*** Add File: new.txt\n+one\n+two\n*** End Patch"
    );
}

#[test]
fn update_patch_includes_environment_and_full_replacement() {
    let patch = create_update_patch("a.txt", "old\n", "new\n", Some("remote"));
    assert_eq!(
        patch,
        "*** Begin Patch\n*** Environment ID: remote\n*** Update File: a.txt\n@@\n-old\n+new\n*** End of File\n*** End Patch"
    );
}

#[test]
fn empty_file_is_added_as_one_empty_line() {
    assert_eq!(
        create_add_patch("e", "", None),
        "*** Begin Patch\n*** Add File: e\n+\n*** End Patch"
    );
    assert_eq!(
        create_add_patch("e", "\n", Some("x")),
        "*** Begin Patch\n*** Environment ID: x\n*** Add File: e\n+\n*** End Patch"
    );
}

#[test]
fn kinds_of_line_ends_make_no_difference() {
    for content in ["a\r\nb\r\n", "a\r\r\n\r\nb\r", "\r\n", "a", "", "x\ry\r\nz"] {
        let patch = create_add_patch("w", content, Some("e"));
        assert_eq!(patch, create_add_patch("w", &content.replace("\r\n", "\n"), Some("e")));
        assert!(!patch.contains("\r\n"));
        if !content.ends_with('\n') {
            assert_eq!(patch, create_add_patch("w", &format!("{content}\n"), Some("e")));
        }
    }
}

#[test]
fn carriage_returns_at_line_ends_are_dropped() {
    assert_eq!(
        create_add_patch("w", "a\r\r\nb\rc\r\n", None),
        "*** Begin Patch\n*** Add File: w\n+a\n+b\rc\n*** End Patch"
    );
    assert_eq!(
        create_update_patch("w", "a\r\n", "b", None),
        "*** Begin Patch\n*** Update File: w\n@@\n-a\n+b\n*** End of File\n*** End Patch"
    );
    assert_eq!(
        create_update_patch("w", "a", "", None),
        "*** Begin Patch\n*** Update File: w\n@@\n-a\n*** End of File\n*** End Patch"
    );
}

#[test]
fn patch_lines_read_back() {
    let patch = create_update_patch("p", "x\ny\n", "x\nz\n", Some("env"));
    let lines: Vec<&str> = patch.split('\n').collect();
    assert_eq!(
        lines,
        vec![
            "*** Begin Patch",
            "*** Environment ID: env",
            "*** Update File: p",
            "@@",
            "-x",
            "-y",
            "+x",
            "+z",
            "*** End of File",
            "*** End Patch",
        ]
    );
}

#[test]
fn headers_and_lines() {
    assert_eq!(patch_header(None), "*** Begin Patch\n");
    assert_eq!(
        patch_header(Some("e1")),
        "*** Begin Patch\n*** Environment ID: e1\n"
    );
    assert_eq!(normalized_lines("a\nb\n"), vec!["a", "b"]);
    assert_eq!(normalized_lines("a\n\n"), vec!["a", ""]);
    assert_eq!(normalized_lines("a\r\nb"), vec!["a\r", "b"]);
    assert!(normalized_lines("").is_empty());
    assert_eq!(normalized_lines("\n"), vec![""]);
}

fn message(error: FunctionCallError) -> String {
    match error {
        FunctionCallError::RespondToModel(message) => message,
    }
}

#[test]
fn paths_in_patches() {
    assert!(validate_patch_path("dir/file name.txt").is_ok());
    for path in ["", "a\nb", "a\rb"] {
        let error = validate_patch_path(path).expect_err("path should be refused");
        assert_eq!(message(error), "path must be non-empty and contain no newlines");
    }
}

fn names(spec: &ToolSpec) -> Vec<&str> {
    spec.parameters.properties.entries.iter().map(|p| p.name.as_str()).collect()
}

#[test]
fn tools_are_described() {
    let read = ReadFileHandler::new(true);
    assert!(read.supports_parallel_tool_calls());
    let spec = read.tool_spec();
    assert_eq!(spec.name, "read_file");
    assert_eq!(read.tool_name(), "read_file");
    assert!(spec.description.contains("capped at 2,000 lines"));
    assert_eq!(names(&spec), vec!["end_line", "environment_id", "path", "start_line"]);
    assert_eq!(spec.parameters.required, Some(vec!["path".to_string()]));
    assert_eq!(spec.parameters.additional_properties, Some(false));
    assert!(!spec.strict);
    assert_eq!(spec.parameters.properties.entries[0].schema.kind, SchemaKind::Integer);
    assert_eq!(
        spec.parameters.properties.entries[1].schema.description.as_deref(),
        Some("Environment id from <environment_context>; omit for the primary environment.")
    );

    let write = WriteFileHandler::new(false);
    let spec = write.tool_spec();
    assert_eq!(write.tool_name(), "write_file");
    assert_eq!(spec.name, "write_file");
    assert_eq!(names(&spec), vec!["content", "path"]);
    assert_eq!(
        spec.parameters.required,
        Some(vec!["path".to_string(), "content".to_string()])
    );

    let update = UpdateFileHandler::new(false);
    let spec = update.tool_spec();
    assert_eq!(update.tool_name(), "update_file");
    assert_eq!(names(&spec), vec!["new_text", "old_text", "path", "replace_all"]);
    assert_eq!(spec.parameters.properties.entries[3].schema.kind, SchemaKind::Boolean);
    assert_eq!(
        spec.parameters.required,
        Some(vec!["path".to_string(), "old_text".to_string(), "new_text".to_string()])
    );
    assert!(spec.defer_loading.is_none());
    assert!(spec.output_schema.is_none());
}

#[test]
fn properties_keep_names_in_order_and_once() {
    let mut properties = Properties::new();
    for name in ["b", "a", "ba", "é", "B", "a"] {
        properties.insert(name.to_string(), JsonSchema::string(Some(name.to_string())));
    }
    properties.insert("b".to_string(), JsonSchema::integer(None));
    environment_property(&mut properties, false);
    let found: Vec<&str> = properties.entries.iter().map(|p| p.name.as_str()).collect();
    assert_eq!(found, vec!["B", "a", "b", "ba", "é"]);
    assert_eq!(properties.entries[2].schema.kind, SchemaKind::Integer);
    assert_eq!(properties.entries[2].schema.description, None);
}

fn read_args(start_line: Option<usize>, end_line: Option<usize>) -> ReadFileArgs {
    ReadFileArgs {
        path: "notes.txt".to_string(),
        start_line,
        end_line,
        environment_id: Some("env".to_string()),
    }
}

fn refused<A>(step: (ToolCall<A>, ToolAction)) -> String {
    match step {
        (ToolCall::Done, ToolAction::Answer(Err(error))) => message(error),
        _ => panic!("expected a refusal"),
    }
}

fn answered(action: ToolAction) -> FunctionToolOutput {
    match action {
        ToolAction::Answer(Ok(output)) => output,
        _ => panic!("expected an answer"),
    }
}

#[test]
fn a_read_from_payload_to_answer() {
    let handler = ReadFileHandler::new(true);
    let (call, action) = handler.handle(
        ToolCall::Start,
        ToolEvent::Invoked(ToolPayload::Function("{}".to_string())),
    );
    assert!(matches!(action, ToolAction::ParseArguments(json) if json == "{}"));
    let (call, action) = handler.handle(call, ToolEvent::Parsed(Ok(read_args(Some(2), None))));
    assert!(matches!(action, ToolAction::ChooseEnvironment(Some(id)) if id == "env"));
    // An event that does not belong here changes nothing.
    let (call, action) = handler.handle(call, ToolEvent::FileRead(Ok("x".to_string())));
    assert!(matches!(action, ToolAction::Nothing));
    let (call, action) = handler.handle(call, ToolEvent::Chosen(Ok(true)));
    assert!(matches!(
        action,
        ToolAction::ResolvePath(Some(id), path) if id == "env" && path == "notes.txt"
    ));
    let (call, action) = handler.handle(call, ToolEvent::Located(Ok("/w/notes.txt".to_string())));
    assert!(matches!(
        action,
        ToolAction::ReadFile(Some(id), path) if id == "env" && path == "/w/notes.txt"
    ));
    let (call, action) =
        handler.handle(call, ToolEvent::FileRead(Ok("one\ntwo\r\nthree".to_string())));
    let output = answered(action);
    assert_eq!(
        output.text,
        "/w/notes.txt — lines 2-3 of 3\n     2\ttwo\n     3\tthree\n"
    );
    assert_eq!(output.success, Some(true));
    let (_, action) = handler.handle(call, ToolEvent::FileRead(Ok(String::new())));
    assert!(matches!(action, ToolAction::Nothing));
}

#[test]
fn reads_that_are_refused() {
    let handler = ReadFileHandler::new(false);
    let parsed = |start, end| {
        handler.handle(ToolCall::Parsing, ToolEvent::Parsed(Ok(read_args(start, end))))
    };
    assert_eq!(
        refused(handler.handle(
            ToolCall::Start,
            ToolEvent::Invoked(ToolPayload::Custom("x".to_string()))
        )),
        "read_file handler received unsupported payload"
    );
    assert_eq!(
        refused(handler.handle(
            ToolCall::Parsing,
            ToolEvent::Parsed(Err(FunctionCallError::RespondToModel("bad json".to_string())))
        )),
        "bad json"
    );
    assert_eq!(refused(parsed(Some(0), None)), "start_line must be at least 1");
    assert_eq!(
        refused(parsed(Some(3), Some(2))),
        "end_line must be greater than or equal to start_line"
    );
    assert_eq!(
        refused(parsed(None, Some(0))),
        "end_line must be greater than or equal to start_line"
    );
    assert!(matches!(parsed(Some(3), Some(3)).1, ToolAction::ChooseEnvironment(_)));
    assert_eq!(
        refused(handler.handle(
            ToolCall::Choosing(read_args(None, None)),
            ToolEvent::Chosen(Ok(false))
        )),
        "read_file is unavailable in this session"
    );
    assert_eq!(
        refused(handler.handle(
            ToolCall::Choosing(read_args(None, None)),
            ToolEvent::Chosen(Err(FunctionCallError::RespondToModel("no such env".to_string())))
        )),
        "no such env"
    );
    assert_eq!(
        refused(handler.handle(
            ToolCall::Locating(read_args(None, None)),
            ToolEvent::Located(Err(PathError {
                cwd: "/w".to_string(),
                message: "escapes".to_string(),
            }))
        )),
        "unable to resolve `notes.txt` against `/w`: escapes"
    );
    assert_eq!(
        refused(handler.handle(
            ToolCall::Reaching(read_args(None, None), "/w/n".to_string()),
            ToolEvent::FileRead(Err("denied".to_string()))
        )),
        "unable to read `/w/n`: denied"
    );
}

fn read(start: usize, end: Option<usize>, contents: &str) -> Result<String, String> {
    match answer_read(start, end, "f", contents) {
        Ok(output) => Ok(output.text),
        Err(error) => Err(message(error)),
    }
}

#[test]
fn reads_at_the_edges_of_a_file() {
    assert_eq!(read(1, None, ""), Ok("f — empty file".to_string()));
    assert_eq!(read(2, None, ""), Err("start_line is past EOF (empty file)".to_string()));
    assert_eq!(
        read(4, None, "a\nb\nc\n"),
        Err("start_line 4 is past EOF (3 lines)".to_string())
    );
    assert_eq!(
        read(2, Some(2), "a\nb\nc\n"),
        Ok("f — lines 2-2 of 3\n     2\tb\n".to_string())
    );
    assert_eq!(
        read(3, Some(99), "a\nb\nc"),
        Ok("f — lines 3-3 of 3\n     3\tc\n".to_string())
    );
    assert_eq!(read(1, None, "\n"), Ok("f — lines 1-1 of 1\n     1\t\n".to_string()));
}

#[test]
fn long_reads_are_capped_and_can_be_continued() {
    assert_eq!(MAX_READ_LINES, 2000);
    let contents: String = (1..=2500).map(|i| format!("row {i}\n")).collect();
    let first = read(1, None, &contents).expect("read");
    assert!(first.starts_with("f — lines 1-2000 of 2500\n     1\trow 1\n"));
    assert!(first.ends_with(
        "  2000\trow 2000\n[truncated at 2000 lines; continue from line 2001]"
    ));
    let second = read(2001, None, &contents).expect("read");
    assert!(second.starts_with("f — lines 2001-2500 of 2500\n  2001\trow 2001\n"));
    assert!(second.ends_with("  2500\trow 2500\n"));
    assert_eq!(first.lines().count() - 2 + second.lines().count() - 1, 2500);
    let exact = read(1, Some(2000), &contents).expect("read");
    assert!(!exact.contains("truncated"));
    let huge = read(2500, Some(usize::MAX), &contents).expect("read");
    assert_eq!(huge, "f — lines 2500-2500 of 2500\n  2500\trow 2500\n");
}

#[test]
fn whole_files_are_read_by_following_the_notices() {
    for rows in [1usize, 1999, 2000, 2001, 4000, 4001] {
        let contents: String = (1..=rows).map(|i| format!("row {i}\n")).collect();
        let mut listed: Vec<String> = Vec::new();
        let mut start = Some(1usize);
        let mut reads = 0;
        while let Some(from) = start {
            let answer = read(from, None, &contents).expect("read");
            reads += 1;
            let mut lines: Vec<&str> = answer.lines().skip(1).collect();
            start = lines
                .last()
                .and_then(|line| {
                    line.strip_prefix("[truncated at 2000 lines; continue from line ")
                })
                .and_then(|rest| rest.strip_suffix("]"))
                .map(|number| number.parse().expect("number"));
            if start.is_some() {
                lines.pop();
            }
            assert!(lines.len() <= MAX_READ_LINES);
            listed.extend(lines.iter().map(|line| line.to_string()));
        }
        assert_eq!(reads, rows.div_ceil(MAX_READ_LINES));
        let expected: Vec<String> = (1..=rows).map(|i| format!("{i:>6}\trow {i}")).collect();
        assert_eq!(listed, expected);
    }
}

fn write_args(path: &str) -> WriteFileArgs {
    WriteFileArgs {
        path: path.to_string(),
        content: "one\n".to_string(),
        environment_id: None,
    }
}

#[test]
fn a_write_creates_only_new_files() {
    let handler = WriteFileHandler::new(true);
    assert_eq!(
        refused(handler.handle(ToolCall::Start, ToolEvent::Invoked(ToolPayload::Other))),
        "write_file handler received unsupported payload"
    );
    assert_eq!(
        refused(handler.handle(ToolCall::Parsing, ToolEvent::Parsed(Ok(write_args("a\nb"))))),
        "path must be non-empty and contain no newlines"
    );
    assert_eq!(
        refused(handler.handle(
            ToolCall::Choosing(write_args("a")),
            ToolEvent::Chosen(Ok(false))
        )),
        "write_file is unavailable in this session"
    );
    assert_eq!(
        refused(handler.handle(
            ToolCall::Locating(write_args("a")),
            ToolEvent::Located(Err(PathError {
                cwd: "/w".to_string(),
                message: "bad".to_string(),
            }))
        )),
        "unable to resolve `a`: bad"
    );
    let reaching = || ToolCall::Reaching(write_args("a"), "/w/a".to_string());
    let (_, action) = handler.handle(
        ToolCall::Locating(write_args("a")),
        ToolEvent::Located(Ok("/w/a".to_string())),
    );
    assert!(matches!(action, ToolAction::Inspect(None, path) if path == "/w/a"));
    assert_eq!(
        refused(handler.handle(reaching(), ToolEvent::Inspected(Inspection::Exists))),
        "`/w/a` already exists; use update_file or apply_patch"
    );
    assert_eq!(
        refused(handler.handle(
            reaching(),
            ToolEvent::Inspected(Inspection::Failed("io".to_string()))
        )),
        "unable to inspect `/w/a`: io"
    );
    match handler.handle(reaching(), ToolEvent::Inspected(Inspection::NotFound)) {
        (ToolCall::Done, ToolAction::ApplyPatch(patch, include_environment_id)) => {
            assert_eq!(
                patch,
                "*** Begin Patch\n*** Add File: a\n+one\n*** End Patch"
            );
            assert!(include_environment_id);
        },
        _ => panic!("expected a patch"),
    }
}

fn update_args(old_text: &str, new_text: &str, replace_all: bool) -> UpdateFileArgs {
    UpdateFileArgs {
        path: "a".to_string(),
        old_text: old_text.to_string(),
        new_text: new_text.to_string(),
        replace_all,
        environment_id: Some("e".to_string()),
    }
}

#[test]
fn an_update_replaces_what_it_was_asked_to() {
    let update = |old: &str, new: &str, all: bool, contents: &str| {
        update_contents(&update_args(old, new, all), contents).map_err(message)
    };
    assert_eq!(update("b", "x", false, "abc"), Ok("axc".to_string()));
    assert_eq!(update("b", "x", true, "abc"), Ok("axc".to_string()));
    assert_eq!(update("aa", "b", true, "aaaaa"), Ok("bba".to_string()));
    assert_eq!(
        update("z", "x", true, "abc"),
        Err("old_text was not found in the file".to_string())
    );
    assert_eq!(
        update("a", "x", false, "abcabca"),
        Err("old_text matched 3 times; provide more context or set replace_all".to_string())
    );
    assert_eq!(update("é\n", "", false, "x\né\ny"), Ok("x\ny".to_string()));
}

#[test]
fn an_update_hands_on_a_patch_of_the_whole_file() {
    let handler = UpdateFileHandler::new(false);
    assert_eq!(
        refused(handler.handle(ToolCall::Start, ToolEvent::Invoked(ToolPayload::Other))),
        "update_file handler received unsupported payload"
    );
    assert_eq!(
        refused(handler.handle(
            ToolCall::Parsing,
            ToolEvent::Parsed(Ok(update_args("", "x", false)))
        )),
        "old_text must not be empty"
    );
    let mut bad_path = update_args("", "x", false);
    bad_path.path = String::new();
    assert_eq!(
        refused(handler.handle(ToolCall::Parsing, ToolEvent::Parsed(Ok(bad_path)))),
        "path must be non-empty and contain no newlines"
    );
    assert_eq!(
        refused(handler.handle(
            ToolCall::Choosing(update_args("a", "b", false)),
            ToolEvent::Chosen(Ok(false))
        )),
        "update_file is unavailable in this session"
    );
    assert_eq!(
        refused(handler.handle(
            ToolCall::Locating(update_args("a", "b", false)),
            ToolEvent::Located(Err(PathError {
                cwd: "/w".to_string(),
                message: "bad".to_string(),
            }))
        )),
        "unable to resolve `a`: bad"
    );
    let reaching = |old: &str| {
        ToolCall::Reaching(update_args(old, "b", false), "/w/a".to_string())
    };
    assert_eq!(
        refused(handler.handle(reaching("q"), ToolEvent::FileRead(Ok("a\n".to_string())))),
        "old_text was not found in the file"
    );
    assert_eq!(
        refused(handler.handle(reaching("q"), ToolEvent::FileRead(Err("gone".to_string())))),
        "unable to read `/w/a`: gone"
    );
    match handler.handle(reaching("a"), ToolEvent::FileRead(Ok("a\nc\n".to_string()))) {
        (ToolCall::Done, ToolAction::ApplyPatch(patch, include_environment_id)) => {
            assert_eq!(
                patch,
                "*** Begin Patch\n*** Environment ID: e\n*** Update File: a\n@@\n-a\n-c\n+b\n+c\n*** End of File\n*** End Patch"
            );
            assert!(!include_environment_id);
        },
        _ => panic!("expected a patch"),
    }
}
