//! Cells about patches and images.

use codex_surface::hyperlinks::HyperlinkLine;
use codex_surface::patches::{
    annotate_changed_file_paths, annotate_lines, failure_output, file_location, file_url,
    generated_image_cell, is_large_patch, new_image_generation_call,
    new_patch_apply_failure, new_patch_event, new_view_image_tool_call, resolved_image_path,
    viewed_image_cell, ChangedFile, FileChange, HistoryCellInteraction, ImagePath, LinkTarget,
    OutputLinesParams,
};
use codex_surface::styled::{TextColor, TextLine, TextSpan, BOLD, DIM, UNDERLINED};

fn added(path: &str, lines: usize) -> ChangedFile {
    ChangedFile {
        path: path.to_string(),
        change: FileChange::Add((0..lines).map(|i| format!("line {i}\n")).collect()),
    }
}

fn text_line(text: &str) -> TextLine {
    TextLine::from_span(TextSpan::raw(text))
}

fn text(line: &TextLine) -> String {
    line.spans.iter().map(|span| span.content.as_str()).collect()
}

#[test]
fn patches_are_large_by_files_or_lines() {
    assert!(!is_large_patch(&Vec::new()));
    assert!(!is_large_patch(&vec![added("a", 19)]));
    assert!(is_large_patch(&vec![added("a", 20)]));
    assert!(is_large_patch(&vec![added("a", 0), added("b", 0)]));
    let deleted = |lines: usize| ChangedFile {
        path: "d".to_string(),
        change: FileChange::Delete("x\n".repeat(lines)),
    };
    assert!(!is_large_patch(&vec![deleted(19)]));
    assert!(is_large_patch(&vec![deleted(20)]));
    let updated = |lines: usize| {
        let mut diff = "--- a/f\n+++ b/f\n@@ -1 +1 @@\n context\n".to_string();
        for _ in 0..lines {
            diff.push_str("+x\n");
        }
        diff.push_str("-y\n");
        ChangedFile { path: "u".to_string(), change: FileChange::Update(diff, None) }
    };
    assert!(!is_large_patch(&vec![updated(18)]));
    assert!(is_large_patch(&vec![updated(19)]));
}

#[test]
fn large_patches_can_be_inspected() {
    let small = new_patch_event(vec![added("a", 2)], "/repo");
    assert_eq!(small.cwd, "/repo");
    assert_eq!(small.display_lines(vec![text_line("• Added a")]).len(), 1);
    assert!(small.has_transcript_interaction());

    let large = new_patch_event(vec![added("a", 25)], "/repo");
    let lines = large.display_lines(vec![text_line("• Added a")]);
    assert_eq!(lines.len(), 2);
    assert_eq!(text(&lines[1]), "  └ Click to inspect full diff");
    assert_eq!(lines[1].spans[0].style.add_modifier, DIM);
    assert_eq!(lines[1].spans[1].style.fg, Some(TextColor::LightBlue));
    assert_eq!(lines[1].spans[1].style.add_modifier, UNDERLINED);
    assert!(large.transcript_interaction(None).is_none());
    match large.transcript_interaction(Some("/repo".to_string())) {
        Some(HistoryCellInteraction::OpenPatchDiff(changes, cwd)) => {
            assert_eq!(cwd, "/repo");
            assert_eq!(changes.len(), 1);
            assert_eq!(changes[0].path, "a");
        },
        None => panic!("expected an interaction"),
    }
}

#[test]
fn failed_patches_show_their_output() {
    let lines = |stderr: &str| -> Vec<String> {
        new_patch_apply_failure(stderr, vec![text_line("└ oops")])
            .lines
            .iter()
            .map(text)
            .collect()
    };
    assert_eq!(lines("error: oops"), vec!["✘ Failed to apply patch", "└ oops"]);
    assert_eq!(lines(""), vec!["✘ Failed to apply patch"]);
    assert_eq!(lines(" \n\t\u{a0}\u{3000}"), vec!["✘ Failed to apply patch"]);
    let title = &new_patch_apply_failure("", Vec::new()).lines[0];
    assert_eq!(title.spans[0].style.fg, Some(TextColor::Magenta));
    assert_eq!(title.spans[0].style.add_modifier, BOLD);
}

fn target(display: &str, destination: Option<&str>) -> LinkTarget {
    LinkTarget {
        display: display.to_string(),
        destination: destination.map(|d| d.to_string()),
    }
}

fn links(line: &HyperlinkLine) -> Vec<(usize, usize, &str)> {
    line.hyperlinks
        .iter()
        .map(|link| (link.start, link.end, link.destination.as_str()))
        .collect()
}

#[test]
fn shown_paths_become_links() {
    let line = TextLine::from_spans(vec![
        TextSpan::raw("世 b.rs"),
        TextSpan::raw(" → a.rs, b.rs"),
    ]);
    let targets = vec![
        target("a.rs", Some("file:///a.rs")),
        target("missing", Some("file:///missing")),
        target("b.rs", Some("file:///b.rs")),
        target("世", None),
        target("b", Some("file:///b")),
    ];
    let linked = annotate_lines(vec![line, text_line("nothing here")], &targets);
    assert_eq!(
        links(&linked[0]),
        vec![(3, 7, "file:///b.rs"), (3, 4, "file:///b"), (10, 14, "file:///a.rs")]
    );
    assert!(linked[1].hyperlinks.is_empty());
    assert_eq!(linked[0].line.spans.len(), 2);
}

#[test]
fn changed_files_link_to_where_they_lie() {
    let changes = vec![added("src/a b.rs", 1), added("/etc/rel.rs", 1)];
    let displays = vec!["src/a b.rs".to_string(), "rel.rs".to_string()];
    let line = || vec![text_line("• Edited src/a b.rs and rel.rs")];
    let linked = annotate_changed_file_paths(line(), &changes, "/repo", &displays);
    assert_eq!(
        links(&linked[0]),
        vec![(9, 19, "file:///repo/src/a%20b.rs"), (24, 30, "file:///etc/rel.rs")]
    );
    let unrooted = annotate_changed_file_paths(line(), &changes, "repo", &displays);
    assert_eq!(links(&unrooted[0]), vec![(24, 30, "file:///etc/rel.rs")]);

    let cell = new_patch_event(vec![added("src/a b.rs", 25)], "/repo");
    let displays = vec!["src/a b.rs".to_string()];
    let lines = cell.transcript_hyperlink_lines(vec![text_line("src/a b.rs")], &displays);
    assert_eq!(lines.len(), 2);
    assert_eq!(links(&lines[0]), vec![(0, 10, "file:///repo/src/a%20b.rs")]);
    assert_eq!(cell.display_hyperlink_lines(Vec::new(), &displays).len(), 1);
}

#[test]
fn locations_of_files() {
    assert_eq!(file_location("src/a.rs", "/repo"), "/repo/src/a.rs");
    assert_eq!(file_location("src/a.rs", "/repo/"), "/repo/src/a.rs");
    assert_eq!(file_location("/src/a.rs", "/repo"), "/src/a.rs");
    assert_eq!(file_location("", "/repo"), "/repo/");
    assert_eq!(file_location("a.rs", ""), "a.rs");
    assert_eq!(file_location("a.rs", "/"), "/a.rs");
}

#[test]
fn output_of_a_failed_patch() {
    assert!(failure_output(" \n", 5).is_none());
    let (command, params) = failure_output("error: oops", 5).unwrap();
    assert_eq!(command.exit_code, 1);
    assert_eq!(command.formatted_output, "");
    assert_eq!(command.aggregated_output, "error: oops");
    assert_eq!(
        params,
        OutputLinesParams {
            line_limit: 5,
            only_err: true,
            include_angle_pipe: true,
            include_prefix: true,
        }
    );
}

#[test]
fn urls_of_files() {
    assert_eq!(file_url("/tmp/foo.txt").as_deref(), Some("file:///tmp/foo.txt"));
    assert_eq!(file_url("/tmp/ü#?.txt").as_deref(), Some("file:///tmp/%C3%BC%23%3F.txt"));
    assert_eq!(file_url("/").as_deref(), Some("file:///"));
    assert_eq!(file_url("../foo.txt"), None);
    assert_eq!(file_url(""), None);
}

fn image(rendered: &str, absolute: Option<&str>, is_absolute_somewhere: bool) -> ImagePath {
    ImagePath {
        rendered: rendered.to_string(),
        absolute: absolute.map(|p| p.to_string()),
        is_absolute_somewhere,
    }
}

#[test]
fn viewed_images_link_to_local_files_only() {
    let absolute = image("/p/a.png", Some("/p/a.png"), true);
    let relative = image("pics/a.png", None, false);
    let foreign = image("C:\\pics\\a.png", None, true);
    assert_eq!(resolved_image_path(&absolute, "/repo").as_deref(), Some("/p/a.png"));
    assert_eq!(resolved_image_path(&relative, "/repo").as_deref(), Some("/repo/pics/a.png"));
    assert_eq!(resolved_image_path(&foreign, "/repo"), None);

    let local = new_view_image_tool_call(&relative, "/repo", "pics/a.png");
    assert_eq!(text(&local.lines[0].line), "• Viewed Image");
    assert_eq!(text(&local.lines[1].line), "  └ pics/a.png");
    assert_eq!(links(&local.lines[1]), vec![(4, 14, "file:///repo/pics/a.png")]);

    let foreign = new_view_image_tool_call(&foreign, "/repo", "unused");
    assert_eq!(text(&foreign.lines[1].line), "  └ C:\\pics\\a.png");
    assert!(foreign.lines[1].hyperlinks.is_empty());

    let plain = viewed_image_cell("x.png", None);
    assert!(plain.lines[1].hyperlinks.is_empty());
    assert_eq!(plain.lines[1].line.spans[1].style.add_modifier, UNDERLINED);
}

#[test]
fn generated_images() {
    let saved = new_image_generation_call(
        "call".to_string(),
        "completed",
        Some("a cat".to_string()),
        Some("/tmp/cat.png".to_string()),
    );
    let lines: Vec<String> = saved.lines.iter().map(|line| text(&line.line)).collect();
    assert_eq!(
        lines,
        vec!["• Generated Image:", "  └ a cat", "  └ Saved to: /tmp/cat.png"]
    );
    assert_eq!(links(&saved.lines[2]), vec![(14, 26, "file:///tmp/cat.png")]);

    let failed = new_image_generation_call("call".to_string(), "failed", None, None);
    let lines: Vec<String> = failed.lines.iter().map(|line| text(&line.line)).collect();
    assert_eq!(lines, vec!["✗ Image generation failed", "  └ call"]);
    assert_eq!(failed.lines[0].line.spans[0].style.fg, Some(TextColor::Red));

    let unlinked = generated_image_cell(
        "call".to_string(),
        "completed",
        None,
        Some(("rel.png", None)),
    );
    assert_eq!(text(&unlinked.lines[2].line), "  └ Saved to: rel.png");
    assert!(unlinked.lines[2].hyperlinks.is_empty());
}

#[test]
fn size_of_a_patch_does_not_depend_on_the_order_of_its_files() {
    let one = || added("a", 3);
    let other = || added("b", 30);
    assert_eq!(
        is_large_patch(&vec![one(), other()]),
        is_large_patch(&vec![other(), one()])
    );
}
