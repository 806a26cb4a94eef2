//! Cells about patches and images.

use vstd::prelude::*;

use crate::geometry;
use crate::hyperlinks::{self, HyperlinkLine, HyperlinkLineView, HyperlinkView, TerminalHyperlink};
use crate::strings;
use crate::styled::{self, LineView, SpanView, TextColor, TextLine, TextSpan, TextStyle};

verus! {

/// What a patch does to a file.
#[derive(Debug)]
pub enum FileChange {
    Add(String),
    Delete(String),
    /// The unified diff, and where the file moves, if it does.
    Update(String, Option<String>),
}

/// A file that a patch changes.
#[derive(Debug)]
pub struct ChangedFile {
    pub path: String,
    pub change: FileChange,
}

/// A line of a unified diff adds or removes a line of the file.
pub open spec fn is_changed_line(line: Seq<char>) -> bool {
    ||| "+"@.is_prefix_of(line) && !"+++"@.is_prefix_of(line)
    ||| "-"@.is_prefix_of(line) && !"---"@.is_prefix_of(line)
}

/// How many of some lines of a unified diff add or remove one.
pub open spec fn count_changed(lines: Seq<Seq<char>>) -> nat
    decreases lines.len(),
{
    if lines.len() == 0 {
        0
    } else {
        count_changed(lines.drop_last()) + if is_changed_line(lines.last()) {
            1nat
        } else {
            0nat
        }
    }
}

/// How many lines a change adds or removes.
pub open spec fn changed_lines(change: FileChange) -> nat {
    match change {
        FileChange::Add(content) => strings::text_lines(content@).len(),
        FileChange::Delete(content) => strings::text_lines(content@).len(),
        FileChange::Update(diff, _) => count_changed(strings::text_lines(diff@)),
    }
}

/// How many lines some changes add or remove.
pub open spec fn total_changed_lines(changes: Seq<ChangedFile>) -> nat
    decreases changes.len(),
{
    if changes.len() == 0 {
        0
    } else {
        total_changed_lines(changes.drop_last()) + changed_lines(changes.last().change)
    }
}

/// The changed lines from which on a patch is large.
pub const COLLAPSED_DIFF_LINE_THRESHOLD: usize = 20;

/// A patch is large: it changes more than one file, or many lines.
pub open spec fn large(changes: Seq<ChangedFile>) -> bool {
    changes.len() > 1 || total_changed_lines(changes) >= COLLAPSED_DIFF_LINE_THRESHOLD
}

/// How many lines a change adds or removes.
fn changed_line_count(change: &FileChange) -> (count: usize)
    ensures
        count == changed_lines(*change),
{
    match change {
        FileChange::Add(content) => {
            let lines = strings::lines_of(content.as_str());
            assert(strings::texts(lines@).len() == lines.len());
            lines.len()
        },
        FileChange::Delete(content) => {
            let lines = strings::lines_of(content.as_str());
            assert(strings::texts(lines@).len() == lines.len());
            lines.len()
        },
        FileChange::Update(diff, _) => {
            let lines = strings::lines_of(diff.as_str());
            let ghost texts = strings::texts(lines@);
            assert(texts.len() == lines.len());
            let mut count: usize = 0;
            let mut i: usize = 0;
            while i < lines.len()
                invariant
                    texts == strings::texts(lines@),
                    texts.len() == lines.len(),
                    count <= i <= lines.len(),
                    count == count_changed(texts.take(i as int)),
                decreases lines.len() - i,
            {
                let line = lines[i].as_str();
                assert(texts.take(i + 1).drop_last() =~= texts.take(i as int));
                assert(texts.take(i + 1).last() == line@);
                if (strings::begins_with(line, "+") && !strings::begins_with(line, "+++")) || (
                strings::begins_with(line, "-") && !strings::begins_with(line, "---")) {
                    count += 1;
                }
                i += 1;
            }
            assert(texts.take(i as int) =~= texts);
            count
        },
    }
}

/// Whether a patch is large.
pub fn is_large_patch(changes: &Vec<ChangedFile>) -> (r: bool)
    ensures
        r == large(changes@),
{
    if changes.len() > 1 {
        return true;
    }
    if changes.len() == 0 {
        return false;
    }
    let count = changed_line_count(&changes[0].change);
    proof {
        assert(changes@.drop_last() =~= Seq::empty());
        assert(total_changed_lines(changes@.drop_last()) == 0);
    }
    count >= COLLAPSED_DIFF_LINE_THRESHOLD
}

/// The style of something that can be clicked.
pub open spec fn link_style() -> TextStyle {
    TextStyle::plain().colored(TextColor::LightBlue).adding(styled::UNDERLINED)
}

/// The style of something that can be clicked.
fn clickable() -> (style: TextStyle)
    ensures
        style == link_style(),
{
    TextStyle::none().color(TextColor::LightBlue).add(styled::UNDERLINED)
}

/// A dim span.
pub open spec fn dim_span(content: Seq<char>) -> SpanView {
    SpanView { content, style: TextStyle::plain().adding(styled::DIM) }
}

/// A dim span.
fn dim(content: &str) -> (span: TextSpan)
    ensures
        span@ == dim_span(content@),
{
    TextSpan::styled(content, TextStyle::none().add(styled::DIM))
}

/// A bold span.
pub open spec fn bold_span(content: Seq<char>) -> SpanView {
    SpanView { content, style: TextStyle::plain().adding(styled::BOLD) }
}

/// A bold span.
fn bold(content: &str) -> (span: TextSpan)
    ensures
        span@ == bold_span(content@),
{
    TextSpan::styled(content, TextStyle::none().add(styled::BOLD))
}

/// A line of two spans.
pub open spec fn two_spans(a: SpanView, b: SpanView) -> LineView {
    styled::plain_line(seq![a, b])
}

/// A line of two spans.
fn line_of_two(a: TextSpan, b: TextSpan) -> (line: TextLine)
    ensures
        line@ == two_spans(a@, b@),
{
    let mut spans: Vec<TextSpan> = Vec::new();
    spans.push(a);
    spans.push(b);
    assert(styled::span_views(spans@) =~= seq![a@, b@]);
    TextLine::from_spans(spans)
}

/// The line that says that a patch can be looked at in full.
pub open spec fn inspect_line() -> LineView {
    two_spans(
        dim_span("  └ "@),
        SpanView { content: "Click to inspect full diff"@, style: link_style() },
    )
}

/// A patch in the conversation.
#[derive(Debug)]
pub struct PatchHistoryCell {
    /// The changed files, each once.
    pub changes: Vec<ChangedFile>,
    pub cwd: String,
}

/// What can be done with a cell.
#[derive(Debug)]
pub enum HistoryCellInteraction {
    /// The changes can be looked at in full, under a directory.
    OpenPatchDiff(Vec<ChangedFile>, String),
}

/// What a change does.
pub enum ChangeView {
    Add(Seq<char>),
    Delete(Seq<char>),
    Update(Seq<char>, Option<Seq<char>>),
}

/// The files and what happens to them.
pub open spec fn change_views(changes: Seq<ChangedFile>) -> Seq<(Seq<char>, ChangeView)> {
    changes.map_values(
        |f: ChangedFile|
            (
                f.path@,
                match f.change {
                    FileChange::Add(content) => ChangeView::Add(content@),
                    FileChange::Delete(content) => ChangeView::Delete(content@),
                    FileChange::Update(diff, move_path) => ChangeView::Update(
                        diff@,
                        strings::opt_text(move_path),
                    ),
                },
            ),
    )
}

/// A copy of some changes.
fn copy_changes(changes: &Vec<ChangedFile>) -> (copy: Vec<ChangedFile>)
    ensures
        change_views(copy@) == change_views(changes@),
{
    let mut copy: Vec<ChangedFile> = Vec::new();
    let mut i: usize = 0;
    while i < changes.len()
        invariant
            i <= changes.len(),
            copy.len() == i,
            forall|j: int|
                0 <= j < i ==> #[trigger] change_views(copy@)[j] == change_views(changes@)[j],
        decreases changes.len() - i,
    {
        let ghost before = copy@;
        let change = match &changes[i].change {
            FileChange::Add(content) => FileChange::Add(content.clone()),
            FileChange::Delete(content) => FileChange::Delete(content.clone()),
            FileChange::Update(diff, move_path) => FileChange::Update(
                diff.clone(),
                match move_path {
                    Some(path) => Some(path.clone()),
                    None => None,
                },
            ),
        };
        copy.push(ChangedFile { path: changes[i].path.clone(), change });
        assert forall|j: int| 0 <= j < i + 1 implies #[trigger] change_views(copy@)[j]
            == change_views(changes@)[j] by {
            if j < i {
                assert(change_views(copy@)[j] == change_views(before)[j]);
            }
        }
        i += 1;
    }
    assert(change_views(copy@) =~= change_views(changes@));
    copy
}

/// The lines of a patch: its summary, and below that of a large patch the line that says that it can
/// be looked at in full.
pub open spec fn patch_lines(changes: Seq<ChangedFile>, summary: Seq<LineView>) -> Seq<LineView> {
    if large(changes) {
        summary.push(inspect_line())
    } else {
        summary
    }
}

/// No file is changed twice.
pub open spec fn each_once(changes: Seq<ChangedFile>) -> bool {
    forall|i: int, j: int|
        0 <= i < j < changes.len() ==> (#[trigger] changes[i]).path@ != (
        #[trigger] changes[j]).path@
}

/// Shows a patch in the conversation.
pub fn new_patch_event(changes: Vec<ChangedFile>, cwd: &str) -> (cell: PatchHistoryCell)
    requires
        each_once(changes@),
    ensures
        cell.well_formed(),
        cell.changes == changes,
        cell.cwd@ == cwd@,
{
    PatchHistoryCell { changes, cwd: cwd.to_owned() }
}

impl PatchHistoryCell {
    /// No file is changed twice.
    pub open spec fn well_formed(self) -> bool {
        each_once(self.changes@)
    }

    /// The lines of the patch, from the lines of its summary.
    pub fn display_lines(&self, summary: Vec<TextLine>) -> (lines: Vec<TextLine>)
        ensures
            styled::line_views(lines@) == patch_lines(
                self.changes@,
                styled::line_views(summary@),
            ),
    {
        let mut lines = summary;
        if is_large_patch(&self.changes) {
            lines.push(
                line_of_two(
                    dim("  └ "),
                    TextSpan::styled("Click to inspect full diff", clickable()),
                ),
            );
        }
        assert(styled::line_views(lines@) =~= patch_lines(
            self.changes@,
            styled::line_views(summary@),
        ));
        lines
    }

    /// What can be done with the cell, where its directory is absolute: the patch can be looked at in
    /// full.
    pub fn transcript_interaction(&self, absolute_cwd: Option<String>) -> (interaction: Option<
        HistoryCellInteraction,
    >)
        requires
            self.well_formed(),
        ensures
            match interaction {
                Some(HistoryCellInteraction::OpenPatchDiff(changes, cwd)) => {
                    &&& absolute_cwd == Some(cwd)
                    &&& change_views(changes@) == change_views(self.changes@)
                    &&& each_once(changes@)
                },
                None => absolute_cwd is None,
            },
    {
        match absolute_cwd {
            Some(cwd) => {
                let changes = copy_changes(&self.changes);
                proof {
                    let copied = change_views(changes@);
                    let views = change_views(self.changes@);
                    assert(copied.len() == changes.len());
                    assert(views.len() == self.changes.len());
                    assert forall|i: int, j: int| 0 <= i < j < changes.len() implies (
                    #[trigger] changes@[i]).path@ != (#[trigger] changes@[j]).path@ by {
                        assert(copied[i].0 == views[i].0);
                        assert(copied[j].0 == views[j].0);
                        assert(self.changes@[i].path@ != self.changes@[j].path@);
                    }
                }
                Some(HistoryCellInteraction::OpenPatchDiff(changes, cwd))
            },
            None => None,
        }
    }

    /// Whether something can be done with the cell.
    pub fn has_transcript_interaction(&self) -> (r: bool)
        ensures
            r,
    {
        true
    }
}


/// A message about a failed patch, or other lines without hyperlinks.
#[derive(Debug)]
pub struct PlainHistoryCell {
    pub lines: Vec<TextLine>,
}

/// Lines with hyperlinks.
#[derive(Debug)]
pub struct HyperlinkHistoryCell {
    pub lines: Vec<HyperlinkLine>,
}

/// The line above the output of a patch that could not be applied.
pub open spec fn failure_title() -> LineView {
    styled::plain_line(
        seq![
            SpanView {
                content: "✘ Failed to apply patch"@,
                style: TextStyle::plain().colored(TextColor::Magenta).adding(styled::BOLD),
            },
        ],
    )
}

/// The output of a command, as the lines about it are made from it.
#[derive(Debug)]
pub struct CommandOutput {
    pub exit_code: i32,
    pub formatted_output: String,
    pub aggregated_output: String,
}

/// How lines are made from the output of a command.
#[derive(Clone, Copy, Debug, PartialEq, Eq, Structural)]
pub struct OutputLinesParams {
    pub line_limit: usize,
    pub only_err: bool,
    pub include_angle_pipe: bool,
    pub include_prefix: bool,
}

/// What the lines below the title of a failed patch are made from: what the command wrote, as that of a
/// failed command, with prefix and pipe; nothing where it wrote only white space.
pub fn failure_output(stderr: &str, line_limit: usize) -> (output: Option<
    (CommandOutput, OutputLinesParams),
>)
    ensures
        output is None <==> strings::blank(stderr@),
        output matches Some((command, params)) ==> {
            &&& command.exit_code == 1
            &&& command.formatted_output@ == Seq::<char>::empty()
            &&& command.aggregated_output@ == stderr@
            &&& params == (OutputLinesParams {
                line_limit,
                only_err: true,
                include_angle_pipe: true,
                include_prefix: true,
            })
        },
{
    if strings::is_blank(stderr) {
        return None;
    }
    let command = CommandOutput {
        exit_code: 1,
        formatted_output: String::new(),
        aggregated_output: stderr.to_owned(),
    };
    let params = OutputLinesParams {
        line_limit,
        only_err: true,
        include_angle_pipe: true,
        include_prefix: true,
    };
    Some((command, params))
}

/// A patch that could not be applied: a title, and below it the lines of the output, where the command
/// wrote anything but white space.
pub fn new_patch_apply_failure(stderr: &str, output: Vec<TextLine>) -> (cell: PlainHistoryCell)
    ensures
        styled::line_views(cell.lines@) == if strings::blank(stderr@) {
            seq![failure_title()]
        } else {
            seq![failure_title()] + styled::line_views(output@)
        },
{
    let title = TextLine::from_span(
        TextSpan::styled(
            "✘ Failed to apply patch",
            TextStyle::none().color(TextColor::Magenta).add(styled::BOLD),
        ),
    );
    let mut lines: Vec<TextLine> = Vec::new();
    lines.push(title);
    let ghost shown = styled::line_views(output@);
    if !strings::is_blank(stderr) {
        let mut i: usize = 0;
        assert(styled::line_views(lines@) =~= seq![failure_title()] + shown.take(0));
        while i < output.len()
            invariant
                shown == styled::line_views(output@),
                shown.len() == output.len(),
                i <= output.len(),
                styled::line_views(lines@) == seq![failure_title()] + shown.take(i as int),
            decreases output.len() - i,
        {
            let ghost before = lines@;
            lines.push(output[i].clone());
            i += 1;
            assert(styled::line_views(lines@) =~= styled::line_views(before).push(shown[i - 1]));
            assert(styled::line_views(lines@) =~= seq![failure_title()] + shown.take(i as int));
        }
        assert(shown.take(i as int) =~= shown);
    } else {
        assert(styled::line_views(lines@) =~= seq![failure_title()]);
    }
    PlainHistoryCell { lines }
}

/// The URL of a file at a path, on a machine whose paths are separated by a character; none where the
/// path has no URL there.
pub uninterp spec fn file_url_text(separator: char, path: Seq<char>) -> Option<Seq<char>>;

/// A path is relative on every kind of machine: it begins with no separator and with no drive.
pub open spec fn is_relative(path: Seq<char>) -> bool {
    &&& path.len() > 0 ==> path[0] != '/' && path[0] != '\\'
    &&& path.len() > 1 ==> path[1] != ':'
}

/// A URL is the one of a file at a path, by the rules of one or the other kind of machine.
pub open spec fn is_file_url(path: Seq<char>, url: Option<Seq<char>>) -> bool {
    &&& url == file_url_text('/', path) || url == file_url_text('\\', path)
    &&& is_relative(path) ==> url is None
    &&& url matches Some(url) ==> "file://"@.is_prefix_of(url)
}

/// `url::Url::from_file_path`, and `ToString` of its result: the URL of a file, which begins with
/// `file://`; none where the path is not absolute, or has no URL for another reason. What the URL is
/// depends on the path and on whether the machine's paths are those of Windows, and is given by its
/// name only. There `url` counts the name of a host, if the path has one, in `u32`.
#[verifier::external_body]
pub fn file_url(path: &str) -> (url: Option<String>)
    ensures
        strings::opt_text(url) == file_url_text('/', path@) || strings::opt_text(url)
            == file_url_text('\\', path@),
        is_relative(path@) ==> url is None,
        url matches Some(url) ==> "file://"@.is_prefix_of(url@),
{
    url::Url::from_file_path(path).ok().map(|url| url.to_string())
}

/// A path is absolute where `/` separates paths: it begins with one.
pub open spec fn is_rooted(path: Seq<char>) -> bool {
    path.len() > 0 && path[0] == '/'
}

/// A path under a directory where `/` separates paths: one that is absolute replaces the directory, and
/// any other is appended to it, behind a separator unless the directory is empty or ends in one.
pub open spec fn rooted_join(directory: Seq<char>, path: Seq<char>) -> Seq<char> {
    if is_rooted(path) {
        path
    } else if directory.len() == 0 || directory.last() == '/' {
        directory + path
    } else {
        directory.push('/') + path
    }
}

/// Whether a path is absolute on Windows.
pub uninterp spec fn is_absolute_on_windows(path: Seq<char>) -> bool;

/// A path under a directory on Windows.
pub uninterp spec fn joined_on_windows(directory: Seq<char>, path: Seq<char>) -> Seq<char>;

/// `std::path::Path::is_absolute`: where `/` separates paths, whether the path begins with it. On
/// Windows it is given by its name only, but that a path that begins with no separator and no drive is
/// not absolute.
#[verifier::external_body]
fn is_absolute(path: &str) -> (r: bool)
    ensures
        r == is_rooted(path@) || r == is_absolute_on_windows(path@),
        is_relative(path@) ==> !r,
{
    std::path::Path::new(path).is_absolute()
}

/// `std::path::Path::join`: where `/` separates paths, the path itself if it is absolute, and else the
/// directory, a separator unless there is one or the directory is empty, and the path. On Windows it is
/// given by its name only, but that a path that is absolute replaces the directory.
#[verifier::external_body]
fn join_path(directory: &str, path: &str) -> (joined: String)
    ensures
        joined@ == rooted_join(directory@, path@) || joined@ == joined_on_windows(
            directory@,
            path@,
        ),
        is_rooted(path@) && is_absolute_on_windows(path@) ==> joined@ == path@,
{
    std::path::Path::new(directory).join(path).to_string_lossy().into_owned()
}

/// A path is the one of another path under a directory, by the rules of one or the other kind of
/// machine.
pub open spec fn is_joined(directory: Seq<char>, path: Seq<char>, joined: Seq<char>) -> bool {
    joined == rooted_join(directory, path) || joined == joined_on_windows(directory, path)
}

/// Where a changed file lies: at its path where that is absolute, and else at its path under the
/// directory.
pub open spec fn lies_at(cwd: Seq<char>, path: Seq<char>, location: Seq<char>) -> bool {
    ||| {
        &&& is_rooted(path) || is_absolute_on_windows(path)
        &&& !is_relative(path)
        &&& location == path
    }
    ||| {
        &&& !is_rooted(path) || !is_absolute_on_windows(path)
        &&& is_joined(cwd, path, location)
    }
}

/// Where a changed file lies.
pub fn file_location(path: &str, cwd: &str) -> (location: String)
    ensures
        lies_at(cwd@, path@, location@),
{
    if is_absolute(path) {
        path.to_owned()
    } else {
        join_path(cwd, path)
    }
}

/// A changed file as it is shown and where its hyperlink leads, if it has one.
#[derive(Debug)]
pub struct LinkTarget {
    pub display: String,
    pub destination: Option<String>,
}

/// A changed file as it is shown and where its hyperlink leads, if it has one.
pub struct TargetView {
    pub display: Seq<char>,
    pub destination: Option<Seq<char>>,
}

/// The changed files and their hyperlinks.
pub open spec fn target_views(targets: Seq<LinkTarget>) -> Seq<TargetView> {
    targets.map_values(
        |t: LinkTarget|
            TargetView { display: t.display@, destination: strings::opt_text(t.destination) },
    )
}

/// The hyperlink to a file in a text: over the columns of the first place at which the file is shown.
pub open spec fn link_in(text: Seq<char>, target: TargetView) -> Option<HyperlinkView> {
    match (strings::find_from(text, target.display, 0), target.destination) {
        (Some(at), Some(destination)) => {
            let start = hyperlinks::display_width(text.take(at as int)) as int;
            Some(
                HyperlinkView {
                    start: start as usize,
                    end: geometry::lesser(
                        start + hyperlinks::display_width(target.display),
                        usize::MAX as int,
                    ) as usize,
                    destination,
                },
            )
        },
        _ => None,
    }
}

/// Hyperlinks in the order of their columns, with one more in its place, behind those that start at
/// the same column.
pub open spec fn inserted_by_start(links: Seq<HyperlinkView>, link: HyperlinkView) -> Seq<
    HyperlinkView,
>
    decreases links.len(),
{
    if links.len() > 0 && link.start < links.last().start {
        inserted_by_start(links.drop_last(), link).push(links.last())
    } else {
        links.push(link)
    }
}

/// The hyperlinks to some files in a text, in the order of the columns at which they start; those that
/// start at one column stay in the order of the files.
pub open spec fn links_in(text: Seq<char>, targets: Seq<TargetView>) -> Seq<HyperlinkView>
    decreases targets.len(),
{
    if targets.len() == 0 {
        Seq::empty()
    } else {
        let before = links_in(text, targets.drop_last());
        match link_in(text, targets.last()) {
            Some(link) => inserted_by_start(before, link),
            None => before,
        }
    }
}

/// The lines, each with the hyperlinks to the files that it shows.
pub open spec fn annotated(lines: Seq<LineView>, targets: Seq<TargetView>) -> Seq<
    HyperlinkLineView,
> {
    lines.map_values(
        |line: LineView|
            HyperlinkLineView { line, hyperlinks: links_in(styled::line_text(line), targets) },
    )
}

/// The text of a line.
fn text_of(line: &TextLine) -> (text: String)
    ensures
        text@ == styled::line_text(line@),
{
    let ghost contents = line@.spans.map_values(|s: SpanView| s.content);
    let mut text = String::new();
    let mut i: usize = 0;
    assert(strings::concat(contents.take(0)) =~= Seq::empty());
    while i < line.spans.len()
        invariant
            contents == line@.spans.map_values(|s: SpanView| s.content),
            contents.len() == line.spans.len(),
            i <= line.spans.len(),
            text@ == strings::concat(contents.take(i as int)),
        decreases line.spans.len() - i,
    {
        text.push_str(line.spans[i].content.as_str());
        i += 1;
        assert(contents.take(i as int).drop_last() =~= contents.take(i - 1));
        assert(contents.take(i as int).last() == line.spans@[i - 1].content@);
    }
    assert(contents.take(i as int) =~= contents);
    text
}

/// Where a hyperlink is inserted.
proof fn lemma_link_inserted_at(links: Seq<HyperlinkView>, link: HyperlinkView, at: nat)
    requires
        at <= links.len(),
        at > 0 ==> links[at - 1].start <= link.start,
        forall|i: int| at <= i < links.len() ==> link.start < (#[trigger] links[i]).start,
    ensures
        inserted_by_start(links, link) == links.insert(at as int, link),
    decreases links.len(),
{
    if links.len() > at {
        assert(link.start < links[links.len() - 1].start);
        lemma_link_inserted_at(links.drop_last(), link, at);
        assert(links.drop_last().insert(at as int, link).push(links.last()) =~= links.insert(
            at as int,
            link,
        ));
    } else {
        assert(links.push(link) =~= links.insert(at as int, link));
    }
}

/// Puts a hyperlink in its place among others.
fn insert_link(links: &mut Vec<TerminalHyperlink>, link: TerminalHyperlink)
    ensures
        hyperlinks::link_views(final(links)@) == inserted_by_start(
            hyperlinks::link_views(old(links)@),
            link@,
        ),
{
    let ghost before = hyperlinks::link_views(links@);
    let mut at: usize = links.len();
    while at > 0 && link.start < links[at - 1].start
        invariant
            *links == *old(links),
            before == hyperlinks::link_views(links@),
            before.len() == links.len(),
            at <= links.len(),
            forall|i: int| at <= i < before.len() ==> link@.start < (#[trigger] before[i]).start,
        decreases at,
    {
        assert(before[at - 1] == links@[at - 1]@);
        at -= 1;
    }
    proof {
        if at > 0 {
            assert(before[at - 1] == links@[at - 1]@);
        }
        lemma_link_inserted_at(before, link@, at as nat);
    }
    links.insert(at, link);
    assert(hyperlinks::link_views(links@) =~= before.insert(at as int, link@));
}

/// Adds to one line the hyperlinks to the files that it shows.
fn annotate_line(line: TextLine, targets: &Vec<LinkTarget>) -> (linked: HyperlinkLine)
    ensures
        linked@ == (HyperlinkLineView {
            line: line@,
            hyperlinks: links_in(styled::line_text(line@), target_views(targets@)),
        }),
{
    let text = text_of(&line);
    let ghost views = target_views(targets@);
    let mut links: Vec<TerminalHyperlink> = Vec::new();
    let mut i: usize = 0;
    assert(hyperlinks::link_views(links@) =~= links_in(text@, views.take(0)));
    while i < targets.len()
        invariant
            views == target_views(targets@),
            views.len() == targets.len(),
            i <= targets.len(),
            hyperlinks::link_views(links@) == links_in(text@, views.take(i as int)),
        decreases targets.len() - i,
    {
        let display = targets[i].display.as_str();
        assert(views.take(i + 1).drop_last() =~= views.take(i as int));
        assert(views.take(i + 1).last() == views[i as int]);
        proof {
            strings::lemma_find_from(text@, display@, 0);
        }
        if let Some(at) = strings::find(text.as_str(), display) {
            if let Some(destination) = &targets[i].destination {
                let before = strings::prefix(text.as_str(), at);
                let start = hyperlinks::width_of(before.as_str());
                let end = start.saturating_add(hyperlinks::width_of(display));
                insert_link(
                    &mut links,
                    TerminalHyperlink { start, end, destination: destination.clone() },
                );
            }
        }
        i += 1;
    }
    assert(views.take(i as int) =~= views);
    HyperlinkLine { line, hyperlinks: links }
}

/// Adds to each line the hyperlinks to the files that it shows.
pub fn annotate_lines(lines: Vec<TextLine>, targets: &Vec<LinkTarget>) -> (linked: Vec<
    HyperlinkLine,
>)
    ensures
        hyperlinks::hyperlink_views(linked@) == annotated(
            styled::line_views(lines@),
            target_views(targets@),
        ),
{
    let ghost expected = annotated(styled::line_views(lines@), target_views(targets@));
    let mut linked: Vec<HyperlinkLine> = Vec::new();
    let mut i: usize = 0;
    while i < lines.len()
        invariant
            expected == annotated(styled::line_views(lines@), target_views(targets@)),
            i <= lines.len(),
            linked.len() == i,
            forall|j: int| 0 <= j < i ==> (#[trigger] linked@[j])@ == expected[j],
        decreases lines.len() - i,
    {
        linked.push(annotate_line(lines[i].clone(), targets));
        i += 1;
    }
    assert(hyperlinks::hyperlink_views(linked@) =~= expected);
    linked
}

/// A hyperlink leads where a changed file lies.
pub open spec fn leads_to(cwd: Seq<char>, path: Seq<char>, destination: Option<Seq<char>>) -> bool {
    exists|location: Seq<char>| lies_at(cwd, path, location) && #[trigger] is_file_url(
        location,
        destination,
    )
}

/// Each changed file as it is shown, with a hyperlink that leads where the file lies.
pub open spec fn lead_to(
    targets: Seq<TargetView>,
    changes: Seq<ChangedFile>,
    cwd: Seq<char>,
    displays: Seq<Seq<char>>,
) -> bool {
    &&& targets.len() == changes.len()
    &&& forall|i: int|
        0 <= i < changes.len() ==> (#[trigger] targets[i]).display == displays[i] && leads_to(
            cwd,
            changes[i].path@,
            targets[i].destination,
        )
}

/// Adds to each line the hyperlinks to the changed files that it shows. How each file is shown is
/// given; the files come in the order in which the changes are walked.
pub fn annotate_changed_file_paths(
    lines: Vec<TextLine>,
    changes: &Vec<ChangedFile>,
    cwd: &str,
    displays: &Vec<String>,
) -> (linked: Vec<HyperlinkLine>)
    requires
        displays.len() == changes.len(),
    ensures
        exists|targets: Seq<TargetView>|
            lead_to(targets, changes@, cwd@, strings::texts(displays@))
                && hyperlinks::hyperlink_views(linked@) == #[trigger] annotated(
                styled::line_views(lines@),
                targets,
            ),
{
    let ghost shown = strings::texts(displays@);
    let mut targets: Vec<LinkTarget> = Vec::new();
    let mut i: usize = 0;
    while i < changes.len()
        invariant
            shown == strings::texts(displays@),
            displays.len() == changes.len(),
            i <= changes.len(),
            targets.len() == i,
            forall|j: int|
                0 <= j < i ==> (#[trigger] targets@[j]).display@ == shown[j] && leads_to(
                    cwd@,
                    changes@[j].path@,
                    strings::opt_text(targets@[j].destination),
                ),
        decreases changes.len() - i,
    {
        let location = file_location(changes[i].path.as_str(), cwd);
        let destination = file_url(location.as_str());
        assert(is_file_url(location@, strings::opt_text(destination)));
        assert(leads_to(cwd@, changes@[i as int].path@, strings::opt_text(destination)));
        targets.push(LinkTarget { display: displays[i].clone(), destination });
        i += 1;
    }
    let ghost views = target_views(targets@);
    assert(lead_to(views, changes@, cwd@, shown)) by {
        assert forall|j: int| 0 <= j < changes.len() implies (#[trigger] views[j]).display
            == shown[j] && leads_to(cwd@, changes@[j].path@, views[j].destination) by {
            assert(targets@[j].display@ == shown[j]);
        }
    }
    annotate_lines(lines, &targets)
}

impl PatchHistoryCell {
    /// The lines of the patch with hyperlinks to the changed files, from the lines of its summary and
    /// from how each file is shown.
    pub fn display_hyperlink_lines(&self, summary: Vec<TextLine>, displays: &Vec<String>) -> (lines:
        Vec<HyperlinkLine>)
        requires
            displays.len() == self.changes.len(),
        ensures
            exists|targets: Seq<TargetView>|
                lead_to(targets, self.changes@, self.cwd@, strings::texts(displays@))
                    && hyperlinks::hyperlink_views(lines@) == #[trigger] annotated(
                    patch_lines(self.changes@, styled::line_views(summary@)),
                    targets,
                ),
    {
        annotate_changed_file_paths(
            self.display_lines(summary),
            &self.changes,
            self.cwd.as_str(),
            displays,
        )
    }

    /// The lines of the patch in the transcript: the same.
    pub fn transcript_hyperlink_lines(&self, summary: Vec<TextLine>, displays: &Vec<String>) -> (lines:
        Vec<HyperlinkLine>)
        requires
            displays.len() == self.changes.len(),
        ensures
            exists|targets: Seq<TargetView>|
                lead_to(targets, self.changes@, self.cwd@, strings::texts(displays@))
                    && hyperlinks::hyperlink_views(lines@) == #[trigger] annotated(
                    patch_lines(self.changes@, styled::line_views(summary@)),
                    targets,
                ),
    {
        self.display_hyperlink_lines(summary, displays)
    }
}

/// A line without spans or hyperlinks.
pub open spec fn empty_line() -> HyperlinkLineView {
    HyperlinkLineView { line: styled::plain_line(Seq::empty()), hyperlinks: Seq::empty() }
}

/// A line without spans or hyperlinks.
fn new_empty_line() -> (line: HyperlinkLine)
    ensures
        line@ == empty_line(),
{
    let spans: Vec<TextSpan> = Vec::new();
    assert(styled::span_views(spans@) =~= Seq::empty());
    HyperlinkLine::new(TextLine::from_spans(spans))
}

/// An image's path, as far as it is understood here.
#[derive(Debug)]
pub struct ImagePath {
    /// The path as it is written.
    pub rendered: String,
    /// The path, where it is absolute on this machine.
    pub absolute: Option<String>,
    /// The path is absolute on some kind of machine.
    pub is_absolute_somewhere: bool,
}

/// Where an image lies: at its path where that is absolute here, nowhere if it is absolute on other
/// machines only, and else at its path under the directory.
pub open spec fn image_lies_at(
    path: ImagePath,
    cwd: Seq<char>,
    location: Option<Seq<char>>,
) -> bool {
    match path.absolute {
        Some(absolute) => location == Some(absolute@),
        None => if path.is_absolute_somewhere {
            location is None
        } else {
            location matches Some(location) && is_joined(cwd, path.rendered@, location)
        },
    }
}

/// Where an image lies: a path that is absolute on other machines only would make a misleading URL.
pub fn resolved_image_path(path: &ImagePath, cwd: &str) -> (location: Option<String>)
    ensures
        image_lies_at(*path, cwd@, strings::opt_text(location)),
{
    match &path.absolute {
        Some(absolute) => Some(absolute.clone()),
        None => if path.is_absolute_somewhere {
            None
        } else {
            Some(join_path(cwd, path.rendered.as_str()))
        },
    }
}

/// The lines about a viewed image: a heading, and its path with a hyperlink to it.
pub open spec fn viewed_image(shown: Seq<char>, destination: Option<Seq<char>>) -> Seq<
    HyperlinkLineView,
> {
    seq![
        HyperlinkLineView {
            line: two_spans(dim_span("• "@), bold_span("Viewed Image"@)),
            hyperlinks: Seq::empty(),
        },
        hyperlinks::with_span(
            hyperlinks::with_span(empty_line(), dim_span("  └ "@), None),
            SpanView { content: shown, style: link_style() },
            destination,
        ),
    ]
}

/// The cell about a viewed image, from its path as it is shown and where its hyperlink leads.
pub fn viewed_image_cell(shown: &str, destination: Option<&str>) -> (cell: HyperlinkHistoryCell)
    ensures
        hyperlinks::hyperlink_views(cell.lines@) == viewed_image(
            shown@,
            strings::opt_str(destination),
        ),
{
    let mut path_line = new_empty_line();
    path_line.push_span(dim("  └ "), None);
    path_line.push_span(TextSpan::styled(shown, clickable()), destination);
    let mut lines: Vec<HyperlinkLine> = Vec::new();
    lines.push(HyperlinkLine::new(line_of_two(dim("• "), bold("Viewed Image"))));
    lines.push(path_line);
    assert(hyperlinks::hyperlink_views(lines@) =~= viewed_image(
        shown@,
        strings::opt_str(destination),
    ));
    HyperlinkHistoryCell { lines }
}

/// The lines about a viewed image that lies somewhere, or nowhere: in the first case it is shown as
/// given, with a hyperlink to it; else its path is shown as it is written, and leads nowhere.
pub open spec fn shows_image(
    lines: Seq<HyperlinkLineView>,
    path: ImagePath,
    shown: Seq<char>,
    location: Option<Seq<char>>,
    destination: Option<Seq<char>>,
) -> bool {
    match location {
        Some(location) => is_file_url(location, destination) && lines == viewed_image(
            shown,
            destination,
        ),
        None => lines == viewed_image(path.rendered@, None),
    }
}

/// The cell about a viewed image. Where the image lies is shown as given; else its path is shown as it
/// is written, and leads nowhere.
pub fn new_view_image_tool_call(path: &ImagePath, cwd: &str, shown_location: &str) -> (cell:
    HyperlinkHistoryCell)
    ensures
        exists|location: Option<Seq<char>>, destination: Option<Seq<char>>|
            image_lies_at(*path, cwd@, location) && #[trigger] shows_image(
                hyperlinks::hyperlink_views(cell.lines@),
                *path,
                shown_location@,
                location,
                destination,
            ),
{
    let location = resolved_image_path(path, cwd);
    let destination = match &location {
        Some(location) => file_url(location.as_str()),
        None => None,
    };
    let cell = match &location {
        Some(_) => match &destination {
            Some(url) => viewed_image_cell(shown_location, Some(url.as_str())),
            None => viewed_image_cell(shown_location, None),
        },
        None => viewed_image_cell(path.rendered.as_str(), None),
    };
    assert(shows_image(
        hyperlinks::hyperlink_views(cell.lines@),
        *path,
        shown_location@,
        strings::opt_text(location),
        strings::opt_text(destination),
    ));
    cell
}

/// The line above what is said of a generated image.
pub open spec fn generation_heading(status: Seq<char>) -> LineView {
    if status == "failed"@ {
        two_spans(
            SpanView {
                content: "✗ "@,
                style: TextStyle::plain().colored(TextColor::Red).adding(styled::BOLD),
            },
            bold_span("Image generation failed"@),
        )
    } else {
        two_spans(dim_span("• "@), bold_span("Generated Image:"@))
    }
}

/// The lines about a generated image: a heading by its status, the prompt or else the call, and where
/// it was saved, with a hyperlink, if it was.
pub open spec fn generated_image(
    call_id: Seq<char>,
    status: Seq<char>,
    revised_prompt: Option<Seq<char>>,
    saved: Option<(Seq<char>, Option<Seq<char>>)>,
) -> Seq<HyperlinkLineView> {
    let detail = match revised_prompt {
        Some(prompt) => prompt,
        None => call_id,
    };
    seq![
        HyperlinkLineView { line: generation_heading(status), hyperlinks: Seq::empty() },
        HyperlinkLineView {
            line: two_spans(dim_span("  └ "@), dim_span(detail)),
            hyperlinks: Seq::empty(),
        },
    ] + match saved {
        Some((path, destination)) => seq![
            hyperlinks::with_span(
                hyperlinks::with_span(
                    hyperlinks::with_span(empty_line(), dim_span("  └ "@), None),
                    dim_span("Saved to: "@),
                    None,
                ),
                SpanView { content: path, style: link_style() },
                destination,
            ),
        ],
        None => Seq::empty(),
    }
}

/// The cell about a generated image, from where it was saved and where the hyperlink to it leads.
pub fn generated_image_cell(
    call_id: String,
    status: &str,
    revised_prompt: Option<String>,
    saved: Option<(&str, Option<&str>)>,
) -> (cell: HyperlinkHistoryCell)
    ensures
        hyperlinks::hyperlink_views(cell.lines@) == generated_image(
            call_id@,
            status@,
            strings::opt_text(revised_prompt),
            match saved {
                Some((path, destination)) => Some((path@, strings::opt_str(destination))),
                None => None,
            },
        ),
{
    let ghost expected = generated_image(
        call_id@,
        status@,
        strings::opt_text(revised_prompt),
        match saved {
            Some((path, destination)) => Some((path@, strings::opt_str(destination))),
            None => None,
        },
    );
    let heading = if strings::same_text(status, "failed") {
        line_of_two(
            TextSpan::styled("✗ ", TextStyle::none().color(TextColor::Red).add(styled::BOLD)),
            bold("Image generation failed"),
        )
    } else {
        line_of_two(dim("• "), bold("Generated Image:"))
    };
    let detail = match revised_prompt {
        Some(prompt) => prompt,
        None => call_id,
    };
    let mut lines: Vec<HyperlinkLine> = Vec::new();
    lines.push(HyperlinkLine::new(heading));
    lines.push(HyperlinkLine::new(line_of_two(dim("  └ "), dim(detail.as_str()))));
    if let Some((path, destination)) = saved {
        let mut saved_line = new_empty_line();
        saved_line.push_span(dim("  └ "), None);
        saved_line.push_span(dim("Saved to: "), None);
        saved_line.push_span(TextSpan::styled(path, clickable()), destination);
        lines.push(saved_line);
    }
    assert(hyperlinks::hyperlink_views(lines@) =~= expected);
    HyperlinkHistoryCell { lines }
}

/// The cell about a generated image.
pub fn new_image_generation_call(
    call_id: String,
    status: &str,
    revised_prompt: Option<String>,
    saved_path: Option<String>,
) -> (cell: HyperlinkHistoryCell)
    ensures
        match saved_path {
            Some(path) => exists|url: Option<Seq<char>>|
                is_file_url(path@, url) && hyperlinks::hyperlink_views(cell.lines@)
                    == #[trigger] generated_image(
                    call_id@,
                    status@,
                    strings::opt_text(revised_prompt),
                    Some((path@, url)),
                ),
            None => hyperlinks::hyperlink_views(cell.lines@) == generated_image(
                call_id@,
                status@,
                strings::opt_text(revised_prompt),
                None,
            ),
        },
{
    match saved_path {
        Some(path) => {
            let url = file_url(path.as_str());
            match url {
                Some(url) => generated_image_cell(
                    call_id,
                    status,
                    revised_prompt,
                    Some((path.as_str(), Some(url.as_str()))),
                ),
                None => generated_image_cell(
                    call_id,
                    status,
                    revised_prompt,
                    Some((path.as_str(), None)),
                ),
            }
        },
        None => generated_image_cell(call_id, status, revised_prompt, None),
    }
}


/// Hyperlinks come in the order of the columns at which they start.
pub open spec fn in_order(links: Seq<HyperlinkView>) -> bool {
    forall|i: int, j: int|
        0 <= i < j < links.len() ==> (#[trigger] links[i]).start <= (#[trigger] links[j]).start
}

/// The hyperlinks to some files in a text, in the order of the files.
pub open spec fn found_links(text: Seq<char>, targets: Seq<TargetView>) -> Seq<HyperlinkView>
    decreases targets.len(),
{
    if targets.len() == 0 {
        Seq::empty()
    } else {
        let before = found_links(text, targets.drop_last());
        match link_in(text, targets.last()) {
            Some(link) => before.push(link),
            None => before,
        }
    }
}

/// The hyperlinks that start at a column, in the order in which they come.
pub open spec fn starting_at(links: Seq<HyperlinkView>, start: usize) -> Seq<HyperlinkView>
    decreases links.len(),
{
    if links.len() == 0 {
        Seq::empty()
    } else if links.last().start == start {
        starting_at(links.drop_last(), start).push(links.last())
    } else {
        starting_at(links.drop_last(), start)
    }
}

/// What insertion keeps.
proof fn lemma_link_inserted(links: Seq<HyperlinkView>, link: HyperlinkView)
    requires
        in_order(links),
    ensures
        in_order(inserted_by_start(links, link)),
        inserted_by_start(links, link).len() == links.len() + 1,
        inserted_by_start(links, link).to_multiset() == links.to_multiset().insert(link),
        inserted_by_start(links, link).last().start >= link.start,
        links.len() > 0 ==> inserted_by_start(links, link).last().start >= links.last().start,
        inserted_by_start(links, link).last() == link || (links.len() > 0 && inserted_by_start(
            links,
            link,
        ).last() == links.last()),
        forall|start: usize| #[trigger]
            starting_at(inserted_by_start(links, link), start) == if start == link.start {
                starting_at(links, start).push(link)
            } else {
                starting_at(links, start)
            },
    decreases links.len(),
{
    broadcast use vstd::seq_lib::group_to_multiset_ensures;

    let result = inserted_by_start(links, link);
    if links.len() > 0 && link.start < links.last().start {
        let front = links.drop_last();
        let last = links.last();
        assert(in_order(front)) by {
            assert forall|i: int, j: int| 0 <= i < j < front.len() implies (
            #[trigger] front[i]).start <= (#[trigger] front[j]).start by {
                assert(front[i] == links[i]);
                assert(front[j] == links[j]);
            }
        }
        lemma_link_inserted(front, link);
        let placed = inserted_by_start(front, link);
        assert(front.push(last) =~= links);
        assert(result == placed.push(last));
        assert(result.drop_last() =~= placed);
        assert(result.to_multiset() =~= links.to_multiset().insert(link));
        assert(placed.last().start <= last.start) by {
            if front.len() > 0 {
                assert(links[front.len() - 1].start <= links[links.len() - 1].start);
            }
        }
        assert forall|i: int, j: int| 0 <= i < j < result.len() implies (
        #[trigger] result[i]).start <= (#[trigger] result[j]).start by {
            assert(result[i] == placed[i]);
            if j == result.len() - 1 {
                if i < placed.len() - 1 {
                    assert(placed[i].start <= placed[placed.len() - 1].start);
                }
            } else {
                assert(result[j] == placed[j]);
            }
        }
        assert forall|start: usize| #[trigger] starting_at(result, start) == if start
            == link.start {
            starting_at(links, start).push(link)
        } else {
            starting_at(links, start)
        } by {
            assert(starting_at(placed, start) == if start == link.start {
                starting_at(front, start).push(link)
            } else {
                starting_at(front, start)
            });
        }
    } else {
        assert(result == links.push(link));
        assert(result.drop_last() =~= links);
        assert forall|i: int, j: int| 0 <= i < j < result.len() implies (
        #[trigger] result[i]).start <= (#[trigger] result[j]).start by {
            assert(result[i] == links[i]);
            if j < links.len() {
                assert(result[j] == links[j]);
            } else if i < links.len() - 1 {
                assert(links[i].start <= links[links.len() - 1].start);
            }
        }
    }
}

/// A line has one hyperlink for each file that it shows and that has a destination, in the order of
/// the columns at which they start; those that start at one column stay in the order of the files.
pub proof fn law_links_in_order(text: Seq<char>, targets: Seq<TargetView>)
    ensures
        in_order(links_in(text, targets)),
        links_in(text, targets).to_multiset() == found_links(text, targets).to_multiset(),
        forall|start: usize| #[trigger]
            starting_at(links_in(text, targets), start) == starting_at(
                found_links(text, targets),
                start,
            ),
    decreases targets.len(),
{
    broadcast use vstd::seq_lib::group_to_multiset_ensures;

    if targets.len() > 0 {
        law_links_in_order(text, targets.drop_last());
        if let Some(link) = link_in(text, targets.last()) {
            let before = links_in(text, targets.drop_last());
            let found = found_links(text, targets.drop_last());
            lemma_link_inserted(before, link);
            assert(found_links(text, targets).drop_last() =~= found);
            assert forall|start: usize| #[trigger] starting_at(links_in(text, targets), start)
                == starting_at(found_links(text, targets), start) by {
                assert(starting_at(before, start) == starting_at(found, start));
            }
        }
    }
}

/// Whether a patch is large does not depend on the order in which its changes are walked.
pub proof fn law_large_ignores_order(a: Seq<ChangedFile>, b: Seq<ChangedFile>)
    requires
        a.to_multiset() == b.to_multiset(),
    ensures
        large(a) == large(b),
{
    broadcast use vstd::seq_lib::group_to_multiset_ensures;

    assert(a.len() == a.to_multiset().len());
    assert(b.len() == b.to_multiset().len());
    if a.len() == 1 {
        assert(a.contains(a[0]));
        assert(a.to_multiset().count(a[0]) > 0);
        assert(b.contains(a[0]));
        let i = choose|i: int| 0 <= i < b.len() && b[i] == a[0];
        assert(i == 0);
        assert(a =~= b);
    } else if a.len() == 0 {
        assert(a =~= b);
    }
}

} // verus!
