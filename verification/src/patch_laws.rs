//! What cells about patches and images show and where their hyperlinks lead, and how paragraphs and
//! measured heights come about.

use vstd::prelude::*;

use crate::canvas::{self, Grid};
use crate::geometry::Rect;
use crate::hyperlinks::{
    self, HyperlinkLine, HyperlinkLineView, HyperlinkView, TerminalHyperlink,
};
use crate::patches::{
    self, ChangeView, ChangedFile, FileChange, ImagePath, LinkTarget, TargetView,
};
use crate::renderable;
use crate::strings;
use crate::styled::{self, LineView, SpanView, TextColor, TextLine, TextSpan, TextStyle};

verus! {

/// A line of a unified diff that is not one of its headings begins with a plus or a minus sign.
pub open spec fn adds_or_removes(line: Seq<char>) -> bool {
    &&& line.len() > 0
    &&& line[0] == '+' || line[0] == '-'
    &&& !(line.len() >= 3 && line[1] == line[0] && line[2] == line[0])
}

/// A line adds or removes one if and only if it begins with a sign, but not with three of them.
pub proof fn law_changed_line(line: Seq<char>)
    ensures
        patches::is_changed_line(line) <==> adds_or_removes(line),
{
    reveal_strlit("+");
    reveal_strlit("+++");
    reveal_strlit("-");
    reveal_strlit("---");
    let one = "+"@;
    let other = "-"@;
    if line.len() > 0 {
        assert(one.is_prefix_of(line) <==> line[0] == '+') by {
            assert(one =~= seq!['+']);
            assert(line.subrange(0, 1) =~= seq![line[0]]);
            if line[0] == '+' {
                assert(one =~= line.subrange(0, 1));
            } else {
                assert(one[0] != line.subrange(0, 1)[0]);
            }
        }
        assert(other.is_prefix_of(line) <==> line[0] == '-') by {
            assert(other =~= seq!['-']);
            assert(line.subrange(0, 1) =~= seq![line[0]]);
            if line[0] == '-' {
                assert(other =~= line.subrange(0, 1));
            } else {
                assert(other[0] != line.subrange(0, 1)[0]);
            }
        }
    }
    if line.len() >= 3 {
        let head = line.subrange(0, 3);
        assert(head =~= seq![line[0], line[1], line[2]]);
        assert("+++"@.is_prefix_of(line) <==> line[0] == '+' && line[1] == '+' && line[2] == '+')
            by {
            if line[0] == '+' && line[1] == '+' && line[2] == '+' {
                assert("+++"@ =~= head);
            } else {
                assert("+++"@[0] != head[0] || "+++"@[1] != head[1] || "+++"@[2] != head[2]);
            }
        }
        assert("---"@.is_prefix_of(line) <==> line[0] == '-' && line[1] == '-' && line[2] == '-')
            by {
            if line[0] == '-' && line[1] == '-' && line[2] == '-' {
                assert("---"@ =~= head);
            } else {
                assert("---"@[0] != head[0] || "---"@[1] != head[1] || "---"@[2] != head[2]);
            }
        }
    }
}

/// As many lines are changed as there are such lines in the diff.
pub proof fn law_changed_lines_are_counted(lines: Seq<Seq<char>>)
    ensures
        patches::count_changed(lines) == lines.filter(
            |line: Seq<char>| adds_or_removes(line),
        ).len(),
    decreases lines.len(),
{
    reveal(Seq::filter);
    if lines.len() > 0 {
        law_changed_lines_are_counted(lines.drop_last());
        law_changed_line(lines.last());
    }
}

/// A patch of one file is large from twenty changed lines on: all lines of a file that is added or
/// deleted, and those that an update adds or removes. A patch of several files is large in any case, and
/// one of none is not. Below a large patch, and only there, stands how to look at it in full.
pub proof fn law_large_patches(
    file: ChangedFile,
    changes: Seq<ChangedFile>,
    summary: Seq<LineView>,
)
    ensures
        patches::large(seq![file]) <==> 20 <= match file.change {
            FileChange::Add(content) => strings::text_lines(content@).len(),
            FileChange::Delete(content) => strings::text_lines(content@).len(),
            FileChange::Update(diff, _) => strings::text_lines(diff@).filter(
                |line: Seq<char>| adds_or_removes(line),
            ).len(),
        },
        changes.len() > 1 ==> patches::large(changes),
        changes.len() == 0 ==> !patches::large(changes),
        ({
            let lines = patches::patch_lines(changes, summary);
            &&& !patches::large(changes) ==> lines == summary
            &&& patches::large(changes) ==> lines.len() == summary.len() + 1
                && lines.drop_last() == summary && styled::line_text(lines.last())
                == "  └ "@ + "Click to inspect full diff"@
        }),
{
    assert(seq![file].drop_last() =~= Seq::empty());
    assert(patches::total_changed_lines(seq![file].drop_last()) == 0);
    if let FileChange::Update(diff, _) = file.change {
        law_changed_lines_are_counted(strings::text_lines(diff@));
    }
    lemma_two_spans(
        patches::dim_span("  └ "@),
        SpanView { content: "Click to inspect full diff"@, style: patches::link_style() },
    );
    if patches::large(changes) {
        assert(patches::patch_lines(changes, summary).drop_last() =~= summary);
    }
}

proof fn lemma_two_spans(a: SpanView, b: SpanView)
    ensures
        styled::line_text(patches::two_spans(a, b)) == a.content + b.content,
        patches::two_spans(a, b).spans == seq![a, b],
{
    let line = patches::two_spans(a, b);
    let contents = line.spans.map_values(|s: SpanView| s.content);
    assert(contents =~= seq![a.content].push(b.content));
    crate::string_laws::law_concat(contents);
    crate::string_laws::lemma_flatten_push(seq![a.content], b.content);
    seq![a.content].lemma_flatten_one_element();
}

/// The text of a line is the texts of its spans, one after the other.
pub proof fn law_line_text(line: LineView)
    ensures
        styled::line_text(line) == line.spans.map_values(|s: SpanView| s.content).flatten(),
{
    crate::string_laws::law_concat(line.spans.map_values(|s: SpanView| s.content));
}

/// The hyperlink to a file covers the first place at which the line shows the file, and no other; there
/// is none where the line does not show it, or where the file has no destination.
pub proof fn law_link_covers_the_shown_file(text: Seq<char>, target: TargetView)
    ensures
        match patches::link_in(text, target) {
            Some(link) => {
                &&& target.destination == Some(link.destination)
                &&& exists|at: int|
                    {
                        &&& 0 <= at <= text.len() - target.display.len()
                        &&& #[trigger] text.subrange(at, at + target.display.len())
                            == target.display
                        &&& forall|k: int|
                            0 <= k < at ==> #[trigger] text.subrange(
                                k,
                                k + target.display.len(),
                            ) != target.display
                        &&& hyperlinks::display_width(text.take(at)) + hyperlinks::display_width(
                            target.display,
                        ) <= usize::MAX ==> {
                            &&& link.start == hyperlinks::display_width(text.take(at))
                            &&& link.end == link.start + hyperlinks::display_width(target.display)
                        }
                    }
            },
            None => target.destination is None || forall|k: int|
                0 <= k <= text.len() - target.display.len() ==> #[trigger] text.subrange(
                    k,
                    k + target.display.len(),
                ) != target.display,
        },
{
    crate::string_laws::law_find_is_first(text, target.display);
    strings::lemma_find_from(text, target.display, 0);
    if let Some(at) = strings::find_from(text, target.display, 0) {
        assert(text.subrange(at as int, at as int + target.display.len()) == target.display);
    }
}

/// The hyperlinks of a line are those of the files that have one in it.
pub proof fn law_found_links(text: Seq<char>, targets: Seq<TargetView>)
    ensures
        patches::found_links(text, targets) == targets.filter(
            |target: TargetView| patches::link_in(text, target) is Some,
        ).map_values(|target: TargetView| patches::link_in(text, target)->0),
    decreases targets.len(),
{
    reveal(Seq::filter);
    let has = |target: TargetView| patches::link_in(text, target) is Some;
    let link = |target: TargetView| patches::link_in(text, target)->0;
    if targets.len() > 0 {
        law_found_links(text, targets.drop_last());
        let before = targets.drop_last().filter(has);
        if has(targets.last()) {
            assert(before.push(targets.last()).map_values(link) =~= before.map_values(link).push(
                link(targets.last()),
            ));
        }
    } else {
        assert(targets.filter(has).map_values(link) =~= Seq::empty());
    }
}

/// Hyperlinks that start at a column are all of those, in their order.
pub proof fn law_links_starting_at(links: Seq<HyperlinkView>, start: usize)
    ensures
        patches::starting_at(links, start) == links.filter(|l: HyperlinkView| l.start == start),
    decreases links.len(),
{
    reveal(Seq::filter);
    if links.len() > 0 {
        law_links_starting_at(links.drop_last(), start);
    }
}

/// Every line is kept as it is, with its own hyperlinks.
pub proof fn law_lines_keep_their_text(
    lines: Seq<LineView>,
    targets: Seq<TargetView>,
    i: int,
)
    requires
        0 <= i < lines.len(),
    ensures
        patches::annotated(lines, targets).len() == lines.len(),
        patches::annotated(lines, targets)[i].line == lines[i],
        patches::annotated(lines, targets)[i].hyperlinks.to_multiset() == patches::found_links(
            styled::line_text(lines[i]),
            targets,
        ).to_multiset(),
        patches::in_order(patches::annotated(lines, targets)[i].hyperlinks),
{
    patches::law_links_in_order(styled::line_text(lines[i]), targets);
}

/// Where `/` separates paths, a path under a directory begins with the directory and ends in the path,
/// with one separator more between them only where the directory is not empty and does not end in one;
/// a path that begins with the separator stays as it is.
pub proof fn law_path_under_a_directory(directory: Seq<char>, path: Seq<char>)
    ensures
        ({
            let joined = patches::rooted_join(directory, path);
            let rooted = path.len() > 0 && path[0] == '/';
            &&& patches::is_rooted(path) <==> rooted
            &&& rooted ==> joined == path
            &&& !rooted ==> directory.is_prefix_of(joined)
            &&& joined.len() >= path.len() && joined.skip(joined.len() - path.len()) == path
            &&& !rooted && directory.len() > 0 && directory.last() != '/' ==> joined.len()
                == directory.len() + 1 + path.len() && joined[directory.len() as int] == '/'
            &&& !rooted && (directory.len() == 0 || directory.last() == '/') ==> joined.len()
                == directory.len() + path.len()
        }),
{
    let joined = patches::rooted_join(directory, path);
    assert(joined.skip(joined.len() - path.len()) =~= path);
    if !patches::is_rooted(path) {
        assert(directory =~= joined.subrange(0, directory.len() as int));
    }
}

/// A changed file lies under the directory, unless its path is absolute, which one that begins with no
/// separator and no drive is not.
pub proof fn law_changed_files_lie_in_place(cwd: Seq<char>, path: Seq<char>, location: Seq<char>)
    requires
        patches::lies_at(cwd, path, location),
    ensures
        path.len() > 0 && path[0] != '/' && path[0] != '\\' && (path.len() == 1 || path[1] != ':')
            ==> location == patches::rooted_join(cwd, path) || location
            == patches::joined_on_windows(cwd, path),
        path.len() > 0 && path[0] == '/' ==> location == path || location
            == patches::joined_on_windows(cwd, path),
{
}

/// A span that is added to a line stands behind the others; where it has a destination, the hyperlink
/// covers its columns, behind those of the spans before it.
pub proof fn law_added_span(
    line: HyperlinkLineView,
    span: SpanView,
    destination: Option<Seq<char>>,
)
    ensures
        ({
            let after = hyperlinks::with_span(line, span, destination);
            let before = hyperlinks::spans_width(line.line.spans);
            &&& after.line.spans == line.line.spans.push(span)
            &&& after.line.style == line.line.style
            &&& destination is None ==> after.hyperlinks == line.hyperlinks
            &&& destination matches Some(destination) ==> {
                &&& after.hyperlinks.len() == line.hyperlinks.len() + 1
                &&& after.hyperlinks.drop_last() == line.hyperlinks
                &&& after.hyperlinks.last().destination == destination
                &&& before + hyperlinks::display_width(span.content) <= usize::MAX ==> {
                    &&& after.hyperlinks.last().start == before
                    &&& after.hyperlinks.last().end == before + hyperlinks::display_width(
                        span.content,
                    )
                }
            }
        }),
{
    lemma_spans_width(line.line.spans);
    let spans = line.line.spans;
    assert(spans.push(span).drop_last() =~= spans);
    if destination is Some {
        assert(hyperlinks::with_span(line, span, destination).hyperlinks.drop_last()
            =~= line.hyperlinks);
    }
}

proof fn lemma_spans_width(spans: Seq<SpanView>)
    ensures
        0 <= hyperlinks::spans_width(spans) <= usize::MAX,
    decreases spans.len(),
{
    if spans.len() > 0 {
        lemma_spans_width(spans.drop_last());
    }
}

/// The columns of some spans add up.
pub proof fn law_columns_add_up(spans: Seq<SpanView>)
    ensures
        ({
            let sum = spans.map_values(
                |s: SpanView| hyperlinks::display_width(s.content) as int,
            ).fold_left(0int, |sum: int, width: int| sum + width);
            &&& sum <= usize::MAX ==> hyperlinks::spans_width(spans) == sum
            &&& sum > usize::MAX ==> hyperlinks::spans_width(spans) == usize::MAX
            &&& sum >= 0
        }),
    decreases spans.len(),
{
    let widths = spans.map_values(|s: SpanView| hyperlinks::display_width(s.content) as int);
    let add = |sum: int, width: int| sum + width;
    if spans.len() > 0 {
        law_columns_add_up(spans.drop_last());
        assert(widths.drop_last() =~= spans.drop_last().map_values(
            |s: SpanView| hyperlinks::display_width(s.content) as int,
        ));
    }
}

/// A viewed image is named in the second of two lines, with a hyperlink over its name if it leads
/// anywhere.
pub proof fn law_viewed_image(shown: Seq<char>, destination: Option<Seq<char>>)
    ensures
        ({
            let lines = patches::viewed_image(shown, destination);
            let mark = SpanView {
                content: "  └ "@,
                style: TextStyle::plain().adding(styled::DIM),
            };
            &&& lines.len() == 2
            &&& styled::line_text(lines[0].line) == "• "@ + "Viewed Image"@
            &&& lines[0].hyperlinks.len() == 0
            &&& lines[1].line.spans.len() == 2
            &&& lines[1].line.spans[0] == mark
            &&& lines[1].line.spans[1].content == shown
            &&& lines[1].line.spans[1].style.fg == Some(TextColor::LightBlue)
            &&& lines[1].hyperlinks.len() == if destination is Some {
                1int
            } else {
                0
            }
            &&& destination matches Some(url) ==> {
                let start = hyperlinks::spans_width(seq![mark]);
                &&& lines[1].hyperlinks[0].destination == url
                &&& start + hyperlinks::display_width(shown) <= usize::MAX ==> {
                    &&& lines[1].hyperlinks[0].start == start
                    &&& lines[1].hyperlinks[0].end == start + hyperlinks::display_width(shown)
                }
            }
        }),
{
    let mark = patches::dim_span("  └ "@);
    let marked = hyperlinks::with_span(patches::empty_line(), mark, None);
    let span = SpanView { content: shown, style: patches::link_style() };
    law_added_span(patches::empty_line(), mark, None);
    law_added_span(marked, span, destination);
    assert(marked.line.spans =~= seq![mark]);
    lemma_two_spans(patches::dim_span("• "@), patches::bold_span("Viewed Image"@));
}

/// A generated image is told of by its prompt, or else by its call; whether it failed stands in the
/// heading; and where it was saved in a line of its own, with a hyperlink if it leads anywhere.
pub proof fn law_generated_image(
    call_id: Seq<char>,
    status: Seq<char>,
    revised_prompt: Option<Seq<char>>,
    saved: Option<(Seq<char>, Option<Seq<char>>)>,
)
    ensures
        ({
            let lines = patches::generated_image(call_id, status, revised_prompt, saved);
            let detail = if revised_prompt is Some {
                revised_prompt->0
            } else {
                call_id
            };
            &&& lines.len() == if saved is Some {
                3int
            } else {
                2
            }
            &&& status == "failed"@ ==> styled::line_text(lines[0].line) == "✗ "@
                + "Image generation failed"@
            &&& status != "failed"@ ==> styled::line_text(lines[0].line) == "• "@
                + "Generated Image:"@
            &&& styled::line_text(lines[1].line) == "  └ "@ + detail
            &&& lines[0].hyperlinks.len() == 0 && lines[1].hyperlinks.len() == 0
            &&& saved matches Some((path, destination)) ==> {
                &&& lines[2].line.spans.len() == 3
                &&& lines[2].line.spans[0].content == "  └ "@
                &&& lines[2].line.spans[1].content == "Saved to: "@
                &&& lines[2].line.spans[2].content == path
                &&& lines[2].hyperlinks.len() == if destination is Some {
                    1int
                } else {
                    0
                }
                &&& destination matches Some(url) ==> lines[2].hyperlinks[0].destination == url
            }
        }),
{
    lemma_two_spans(
        SpanView {
            content: "✗ "@,
            style: TextStyle::plain().colored(TextColor::Red).adding(styled::BOLD),
        },
        patches::bold_span("Image generation failed"@),
    );
    lemma_two_spans(patches::dim_span("• "@), patches::bold_span("Generated Image:"@));
    let detail = if revised_prompt is Some {
        revised_prompt->0
    } else {
        call_id
    };
    lemma_two_spans(patches::dim_span("  └ "@), patches::dim_span(detail));
}

/// An image lies where its path says where that is absolute here; nowhere where it is absolute on other
/// machines only; and else under the directory.
pub proof fn law_image_location(
    path: ImagePath,
    cwd: Seq<char>,
    location: Option<Seq<char>>,
)
    requires
        patches::image_lies_at(path, cwd, location),
    ensures
        path.absolute is Some ==> location == Some(path.absolute->0@),
        path.absolute is None && path.is_absolute_somewhere ==> location is None,
        path.absolute is None && !path.is_absolute_somewhere ==> location == Some(
            patches::rooted_join(cwd, path.rendered@),
        ) || location == Some(patches::joined_on_windows(cwd, path.rendered@)),
{
}

/// An image that lies somewhere is shown as given, with its own URL; one that lies nowhere is shown as
/// its path is written, and leads nowhere.
pub proof fn law_shown_image(
    lines: Seq<HyperlinkLineView>,
    path: ImagePath,
    shown: Seq<char>,
    location: Option<Seq<char>>,
    destination: Option<Seq<char>>,
)
    requires
        patches::shows_image(lines, path, shown, location, destination),
    ensures
        location is Some ==> lines[1].line.spans[1].content == shown && (
        lines[1].hyperlinks.len() > 0 ==> destination == Some(lines[1].hyperlinks[0].destination)),
        location matches Some(at) ==> patches::is_file_url(at, destination),
        location is Some && destination is Some ==> lines[1].hyperlinks.len() == 1,
        location is None ==> lines[1].line.spans[1].content == path.rendered@
            && lines[1].hyperlinks.len() == 0,
{
    law_viewed_image(shown, destination);
    law_viewed_image(path.rendered@, None);
}

/// What is said of a change is what it does.
pub proof fn law_changes_as_made(changes: Seq<ChangedFile>, i: int)
    requires
        0 <= i < changes.len(),
    ensures
        patches::change_views(changes).len() == changes.len(),
        patches::change_views(changes)[i].0 == changes[i].path@,
        match changes[i].change {
            FileChange::Add(content) => patches::change_views(changes)[i].1 == ChangeView::Add(
                content@,
            ),
            FileChange::Delete(content) => patches::change_views(changes)[i].1
                == ChangeView::Delete(content@),
            FileChange::Update(diff, moved) => patches::change_views(changes)[i].1
                == ChangeView::Update(
                diff@,
                if moved is Some {
                    Some(moved->0@)
                } else {
                    None
                },
            ),
        },
{
}

/// What is said of texts, spans, lines and hyperlinks is what they hold.
pub proof fn law_lines_as_held(
    span: TextSpan,
    line: TextLine,
    link: TerminalHyperlink,
    linked: HyperlinkLine,
    targets: Seq<LinkTarget>,
    i: int,
)
    ensures
        span@.content == span.content@ && span@.style == span.style,
        line@.style == line.style && line@.alignment == line.alignment,
        line@.spans.len() == line.spans.len(),
        0 <= i < line.spans.len() ==> line@.spans[i] == line.spans@[i]@,
        link@.start == link.start && link@.end == link.end,
        link@.destination == link.destination@,
        linked@.line == linked.line@,
        linked@.hyperlinks.len() == linked.hyperlinks.len(),
        0 <= i < linked.hyperlinks.len() ==> linked@.hyperlinks[i] == linked.hyperlinks@[i]@,
        patches::target_views(targets).len() == targets.len(),
        0 <= i < targets.len() ==> patches::target_views(targets)[i].display
            == targets[i].display@,
        0 <= i < targets.len() && targets[i].destination is Some ==> patches::target_views(
            targets,
        )[i].destination == Some(targets[i].destination->0@),
        0 <= i < targets.len() && targets[i].destination is None ==> patches::target_views(
            targets,
        )[i].destination is None,
{
}

/// A paragraph is drawn over what the cells hold, moved to the origin and back: a cell of the strip
/// that the paragraph may reach gets what was drawn there, and every other cell stays as it is.
pub proof fn law_paragraph(
    lines: Seq<LineView>,
    style: TextStyle,
    area: Rect,
    before: Grid,
    x: int,
    y: int,
)
    requires
        before.dom().contains((x, y)),
    ensures
        ({
            let after = canvas::paragraph_painted(lines, style, area, before);
            let ground = canvas::paragraph_ground(area, before);
            let drawn = canvas::lines_wrapped(lines, style, area.width, area.height, ground);
            let inside = area.x <= x < area.x + 3 * area.width && area.y <= y < area.y
                + area.height;
            &&& after.dom() == before.dom()
            &&& inside ==> after[(x, y)] == drawn[(x - area.x, y - area.y)]
            &&& inside ==> ground[(x - area.x, y - area.y)] == before[(x, y)]
            &&& !inside ==> after[(x, y)] == before[(x, y)]
        }),
{
    assert(canvas::paragraph_painted(lines, style, area, before).dom() =~= before.dom());
}

/// The columns and rows of the strip that a paragraph may reach.
pub proof fn law_paragraph_ground(area: Rect, before: Grid, x: int, y: int)
    ensures
        canvas::paragraph_ground(area, before).dom().contains((x, y)) <==> 0 <= x < 3 * area.width
            && 0 <= y < area.height,
        0 <= x < 3 * area.width && 0 <= y < area.height && !before.dom().contains(
            (area.x + x, area.y + y),
        ) ==> canvas::paragraph_ground(area, before)[(x, y)].symbol == seq![' '],
{
}

/// The texts by which rows are counted are those of the spans of each line.
pub proof fn law_span_texts(lines: Seq<LineView>, i: int, k: int)
    ensures
        canvas::span_texts(lines).len() == lines.len(),
        0 <= i < lines.len() ==> canvas::span_texts(lines)[i].len() == lines[i].spans.len(),
        0 <= i < lines.len() && 0 <= k < lines[i].spans.len() ==> canvas::span_texts(lines)[i][k]
            == lines[i].spans[k].content,
{
}

/// A change of width is a width that differs from the one before it.
pub proof fn law_width_changes(last: Option<u16>, widths: Seq<u16>, next: u16)
    ensures
        renderable::width_changes(last, Seq::empty()) == 0,
        widths.len() == 0 ==> renderable::width_changes(last, widths.push(next)) == if last == Some(
            next,
        ) {
            0int
        } else {
            1
        },
        widths.len() > 0 ==> renderable::width_changes(last, widths.push(next))
            == renderable::width_changes(last, widths) + if widths.last() == next {
            0int
        } else {
            1
        },
{
    assert(widths.push(next).drop_last() =~= widths);
    if widths.len() == 0 {
        assert(widths =~= Seq::empty());
    }
}


/// The URL of a file is the one that belongs to its path, on one or the other kind of machine; there is
/// none for a relative path.
pub proof fn law_urls_belong_to_paths(path: Seq<char>, url: Option<Seq<char>>)
    requires
        patches::is_file_url(path, url),
    ensures
        url == patches::file_url_text('/', path) || url == patches::file_url_text('\\', path),
        path.len() > 0 && path[0] != '/' && path[0] != '\\' && (path.len() == 1 || path[1] != ':')
            ==> url is None,
        path.len() == 0 ==> url is None,
        url matches Some(url) ==> "file://"@.is_prefix_of(url),
{
}

/// Every changed file is shown as given, and its hyperlink is the URL of where it lies.
pub proof fn law_links_lead_to_the_files(
    targets: Seq<TargetView>,
    changes: Seq<ChangedFile>,
    cwd: Seq<char>,
    displays: Seq<Seq<char>>,
    i: int,
)
    requires
        patches::lead_to(targets, changes, cwd, displays),
        0 <= i < changes.len(),
    ensures
        targets.len() == changes.len(),
        targets[i].display == displays[i],
        exists|location: Seq<char>|
            patches::lies_at(cwd, changes[i].path@, location) && (targets[i].destination
                == #[trigger] patches::file_url_text('/', location) || targets[i].destination
                == patches::file_url_text('\\', location)),
{
    assert(targets[i].display == displays[i]);
    let location = choose|location: Seq<char>|
        patches::lies_at(cwd, changes[i].path@, location) && #[trigger] patches::is_file_url(
            location,
            targets[i].destination,
        );
    assert(targets[i].destination == patches::file_url_text('/', location)
        || targets[i].destination == patches::file_url_text('\\', location));
}

/// No file is changed twice.
pub proof fn law_each_file_once(changes: Seq<ChangedFile>, i: int, j: int)
    requires
        patches::each_once(changes),
        0 <= i < changes.len(),
        0 <= j < changes.len(),
        changes[i].path@ == changes[j].path@,
    ensures
        i == j,
{
    if i < j {
        assert(changes[i].path@ != changes[j].path@);
    } else if j < i {
        assert(changes[j].path@ != changes[i].path@);
    }
}

/// A style that is handed to `ratatui` has the parts given.
pub proof fn law_style_parts(
    fg: Option<ratatui::style::Color>,
    bg: Option<ratatui::style::Color>,
    add: u16,
    sub: u16,
)
    ensures
        ({
            let style = canvas::style_of(fg, bg, add, sub);
            &&& style.add_modifier == add && style.sub_modifier == sub
            &&& fg is Some ==> style.fg == Some(canvas::color_of(fg->0))
            &&& fg is None ==> style.fg is None
            &&& bg is Some ==> style.bg == Some(canvas::color_of(bg->0))
            &&& bg is None ==> style.bg is None
        }),
{
}

/// A page of text takes the rows of its wrapped lines, and is drawn as a paragraph in no particular
/// style; a remembered height is that of what is shown, and what is shown is drawn as it is.
pub proof fn law_pages<R: renderable::Renderable>(
    lines: Seq<LineView>,
    model: R::Model,
    width: u16,
    area: Rect,
    before: Grid,
)
    ensures
        ({
            let rows = canvas::wrapped_rows(canvas::span_texts(lines), width);
            <crate::cells::ParagraphRenderable as renderable::Renderable>::height_of(lines, width)
                == if rows <= 65535 {
                rows as int
            } else {
                0
            }
        }),
        <crate::cells::ParagraphRenderable as renderable::Renderable>::painted(lines, area, before)
            == canvas::paragraph_painted(lines, TextStyle::plain(), area, before),
        <renderable::CachedRenderable<R> as renderable::Renderable>::height_of(model, width)
            == R::height_of(model, width),
        <renderable::CachedRenderable<R> as renderable::Renderable>::painted(model, area, before)
            == R::painted(model, area, before),
{
}

/// Words that are set off: dim, bold, or to be clicked.
pub proof fn law_set_off(content: Seq<char>)
    ensures
        patches::dim_span(content).content == content,
        patches::dim_span(content).style.add_modifier == 2,
        patches::bold_span(content).content == content,
        patches::bold_span(content).style.add_modifier == 1,
        patches::link_style().fg == Some(TextColor::LightBlue),
        patches::link_style().add_modifier == 8,
        crate::pager_render::dim(content).content == content,
        crate::pager_render::dim(content).style.add_modifier == 2,
        crate::pager_render::dim(content).style.fg is None,
        keys_raw(content),
        styled::line_text(patches::failure_title()) == "✘ Failed to apply patch"@,
        patches::failure_title().spans.len() == 1,
        patches::failure_title().spans[0].style.fg == Some(TextColor::Magenta),
        patches::failure_title().spans[0].style.add_modifier == 1,
{
    assert(0u16 | 2u16 == 2u16) by (bit_vector);
    assert(0u16 | 1u16 == 1u16) by (bit_vector);
    assert(0u16 | 8u16 == 8u16) by (bit_vector);
    let contents = patches::failure_title().spans.map_values(|s: SpanView| s.content);
    assert(contents =~= seq!["✘ Failed to apply patch"@]);
    crate::string_laws::law_concat(contents);
    contents.lemma_flatten_one_element();
}

/// A raw span is the text in no particular style.
pub open spec fn keys_raw(content: Seq<char>) -> bool {
    let span = crate::keys::raw(content);
    span.content == content && span.style.add_modifier == 0 && span.style.fg is None
}

} // verus!
