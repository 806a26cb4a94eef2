//! What the file tools do for the model: which lines a read shows, what an update makes of a file, and
//! which content a patch carries.

use vstd::prelude::*;

use crate::file_tools::{
    self, ActionView, Inspection, OutputView, ReadFileArgs, ReadFileHandler, ToolArguments,
    ToolCall, ToolEvent, ToolPayload, UpdateFileArgs, UpdateFileHandler, WriteFileArgs,
    WriteFileHandler,
};
use crate::patch_text;
use crate::string_laws;
use crate::strings;
use crate::tool_spec::SchemaView;

verus! {

/// A number in six columns, a tab, and a line.
pub open spec fn shown_line(number: int, line: Seq<char>) -> Seq<char> {
    let digits = strings::decimal(number as nat);
    Seq::new(
        if digits.len() < 6 {
            (6 - digits.len()) as nat
        } else {
            0
        },
        |i: int| ' ',
    ) + digits + seq!['\t'] + line
}

/// The text of a read of the lines from one to another: a heading that names the file, both lines and
/// how many there are, and below it every one of those lines behind its number.
pub open spec fn shown_range(
    path: Seq<char>,
    lines: Seq<Seq<char>>,
    start: int,
    end: int,
) -> Seq<char> {
    Seq::new(
        (end - start + 2) as nat,
        |i: int|
            if i == 0 {
                (path + " — lines "@ + strings::decimal(start as nat) + "-"@ + strings::decimal(
                    end as nat,
                ) + " of "@ + strings::decimal(lines.len())).push('\n')
            } else {
                shown_line(start + i - 1, lines[start + i - 2]).push('\n')
            },
    ).flatten()
}

/// What the text of a read is.
proof fn lemma_shown_range(path: Seq<char>, lines: Seq<Seq<char>>, start: int, end: int)
    requires
        1 <= start <= end <= lines.len(),
    ensures
        strings::terminated(
            seq![file_tools::read_heading(path, start, end, lines.len() as int)]
                + file_tools::numbered_lines(lines, start, end),
        ) == shown_range(path, lines, start, end),
{
    let listed = seq![file_tools::read_heading(path, start, end, lines.len() as int)]
        + file_tools::numbered_lines(lines, start, end);
    string_laws::law_terminated(listed);
    reveal_strlit("\t");
    let ended = listed.map_values(|line: Seq<char>| line.push('\n'));
    let expected = Seq::new(
        (end - start + 2) as nat,
        |i: int|
            if i == 0 {
                (path + " — lines "@ + strings::decimal(start as nat) + "-"@ + strings::decimal(
                    end as nat,
                ) + " of "@ + strings::decimal(lines.len())).push('\n')
            } else {
                shown_line(start + i - 1, lines[start + i - 2]).push('\n')
            },
    );
    assert forall|i: int| 0 <= i < ended.len() implies ended[i] == expected[i] by {
        if i > 0 {
            let number = start + i - 1;
            string_laws::law_right_aligned(strings::decimal(number as nat), 6);
            assert(listed[i] == file_tools::numbered_line(number, lines[number - 1]));
            assert("\t"@ =~= seq!['\t']);
            assert(listed[i] =~= shown_line(number, lines[number - 1]));
        }
    }
    assert(ended =~= expected);
}

/// A read of a range that the file has and that is not longer than the cap shows exactly the lines of
/// the range, the first and the last included, and nothing behind them.
pub proof fn law_range_is_read(path: Seq<char>, contents: Seq<char>, start: int, end: usize)
    requires
        1 <= start <= end <= strings::text_lines(contents).len(),
        end - start < 2000,
    ensures
        file_tools::read_answer(start, Some(end), path, contents) == Ok::<OutputView, Seq<char>>(
            OutputView {
                text: shown_range(path, strings::text_lines(contents), start, end as int),
                success: Some(true),
            },
        ),
{
    let lines = strings::text_lines(contents);
    lemma_shown_range(path, lines, start, end as int);
    assert(shown_range(path, lines, start, end as int) + Seq::<char>::empty() =~= shown_range(
        path,
        lines,
        start,
        end as int,
    ));
}

/// A read without a last line, or with one behind the end of the file, shows the lines up to the end of
/// the file, where they are not more than the cap.
pub proof fn law_rest_is_read(
    path: Seq<char>,
    contents: Seq<char>,
    start: int,
    end_line: Option<usize>,
)
    requires
        1 <= start <= strings::text_lines(contents).len(),
        end_line matches Some(end) ==> end >= strings::text_lines(contents).len(),
        strings::text_lines(contents).len() - start < 2000,
    ensures
        file_tools::read_answer(start, end_line, path, contents) == Ok::<OutputView, Seq<char>>(
            OutputView {
                text: shown_range(
                    path,
                    strings::text_lines(contents),
                    start,
                    strings::text_lines(contents).len() as int,
                ),
                success: Some(true),
            },
        ),
{
    let lines = strings::text_lines(contents);
    let count = lines.len() as int;
    lemma_shown_range(path, lines, start, count);
    assert(shown_range(path, lines, start, count) + Seq::<char>::empty() =~= shown_range(
        path,
        lines,
        start,
        count,
    ));
}

/// A read of more lines than the cap shows two thousand of them, and below them the line from which to
/// go on.
pub proof fn law_long_read_is_cut(
    path: Seq<char>,
    contents: Seq<char>,
    start: int,
    end_line: Option<usize>,
)
    requires
        1 <= start,
        start + 2000 <= strings::text_lines(contents).len(),
        end_line matches Some(end) ==> end >= start + 2000,
    ensures
        file_tools::read_answer(start, end_line, path, contents) == Ok::<OutputView, Seq<char>>(
            OutputView {
                text: shown_range(path, strings::text_lines(contents), start, start + 1999)
                    + "[truncated at "@ + strings::decimal(2000)
                    + " lines; continue from line "@ + strings::decimal((start + 2000) as nat)
                    + "]"@,
                success: Some(true),
            },
        ),
{
    let lines = strings::text_lines(contents);
    lemma_shown_range(path, lines, start, start + 1999);
    let notice = "[truncated at "@ + strings::decimal(2000) + " lines; continue from line "@
        + strings::decimal((start + 2000) as nat) + "]"@;
    assert(file_tools::read_notice(
        start + 1999,
        file_tools::requested_end(end_line, lines.len() as int),
    ) =~= notice);
    assert(shown_range(path, lines, start, start + 1999) + notice =~= shown_range(
        path,
        lines,
        start,
        start + 1999,
    ) + "[truncated at "@ + strings::decimal(2000) + " lines; continue from line "@
        + strings::decimal((start + 2000) as nat) + "]"@);
}

/// A read fails if and only if it starts behind the last line, and then names the line and how many
/// there are; the first line of an empty file can be read, and is none.
pub proof fn law_read_fails_past_the_end(
    path: Seq<char>,
    contents: Seq<char>,
    start: int,
    end_line: Option<usize>,
)
    requires
        1 <= start,
        end_line matches Some(end) ==> end >= start,
    ensures
        ({
            let count = strings::text_lines(contents).len();
            let answer = file_tools::read_answer(start, end_line, path, contents);
            &&& answer is Err <==> start > count && start > 1
            &&& count > 0 && start > count ==> answer == Err::<OutputView, Seq<char>>(
                "start_line "@ + strings::decimal(start as nat) + " is past EOF ("@
                    + strings::decimal(count) + " lines)"@,
            )
            &&& count == 0 && start > 1 ==> answer == Err::<OutputView, Seq<char>>(
                "start_line is past EOF (empty file)"@,
            )
            &&& count == 0 && start == 1 ==> answer == Ok::<OutputView, Seq<char>>(
                OutputView { text: path + " — empty file"@, success: Some(true) },
            )
        }),
{
}

/// An update cuts the file at the matches of the old text, and puts the new text between the pieces:
/// where there is one match, or leave to replace them all. Without a match it fails, and without leave
/// for several it fails and says how many there are.
pub proof fn law_update_replaces_every_match(args: UpdateFileArgs, pieces: Seq<Seq<char>>)
    requires
        args.old_text@.len() > 0,
        string_laws::pieces_around(pieces, args.old_text@),
    ensures
        ({
            let contents = string_laws::with_between(pieces, args.old_text@);
            let updated = file_tools::updated_contents(args, contents);
            &&& pieces.len() == 1 ==> updated == Err::<Seq<char>, Seq<char>>(
                "old_text was not found in the file"@,
            )
            &&& pieces.len() == 2 || (pieces.len() > 2 && args.replace_all) ==> updated == Ok::<
                Seq<char>,
                Seq<char>,
            >(string_laws::with_between(pieces, args.new_text@))
            &&& pieces.len() > 2 && !args.replace_all ==> updated == Err::<Seq<char>, Seq<char>>(
                "old_text matched "@ + strings::decimal((pieces.len() - 1) as nat)
                    + " times; provide more context or set replace_all"@,
            )
        }),
{
    let contents = string_laws::with_between(pieces, args.old_text@);
    string_laws::law_replacement_of_all(contents, args.old_text@, args.new_text@);
    let found = choose|found: Seq<Seq<char>>|
        {
            &&& #[trigger] string_laws::pieces_around(found, args.old_text@)
            &&& found.len() == strings::count_from(contents, args.old_text@, 0) + 1
            &&& string_laws::with_between(found, args.old_text@) == contents
            &&& string_laws::with_between(found, args.new_text@) == strings::replace_all(
                contents,
                args.old_text@,
                args.new_text@,
            )
        };
    string_laws::law_pieces_are_unique(pieces, found, args.old_text@);
    if pieces.len() == 2 {
        strings::law_single_match_replacement(contents, args.old_text@, args.new_text@);
    }
}

/// What is not replaced is kept: an update that replaces the old text by itself leaves the file as it
/// is, and any update keeps every piece between the matches.
pub proof fn law_update_keeps_the_rest(args: UpdateFileArgs, contents: Seq<char>)
    requires
        args.old_text@.len() > 0,
        args.new_text@ == args.old_text@,
        file_tools::updated_contents(args, contents) is Ok,
    ensures
        file_tools::updated_contents(args, contents) == Ok::<Seq<char>, Seq<char>>(contents),
{
    strings::law_identity_replacement(contents, args.old_text@);
}

/// Arguments are refused exactly where they make no sense: a read from line zero or from behind its
/// last line, a path that is empty or holds a line break, an empty text to be replaced.
pub proof fn law_refusals(read: ReadFileArgs, write: WriteFileArgs, update: UpdateFileArgs)
    ensures
        read.refusal() is None <==> read.start_line != Some(0usize) && (match (
            read.start_line,
            read.end_line,
        ) {
            (Some(start), Some(end)) => start <= end,
            (None, Some(end)) => 1 <= end,
            _ => true,
        }),
        read.start_line == Some(0usize) ==> read.refusal() == Some(
            "start_line must be at least 1"@,
        ),
        read.start_line != Some(0usize) && read.refusal() is Some ==> read.refusal() == Some(
            "end_line must be greater than or equal to start_line"@,
        ),
        write.refusal() is None <==> write.path@.len() > 0 && forall|i: int|
            0 <= i < write.path@.len() ==> (#[trigger] write.path@[i]) != '\n' && write.path@[i]
                != '\r',
        write.refusal() is Some ==> write.refusal() == Some(
            "path must be non-empty and contain no newlines"@,
        ),
        update.refusal() is None <==> update.path@.len() > 0 && update.old_text@.len() > 0
            && forall|i: int|
            0 <= i < update.path@.len() ==> (#[trigger] update.path@[i]) != '\n' && update.path@[i]
                != '\r',
        update.path@.len() == 0 ==> update.refusal() == Some(
            "path must be non-empty and contain no newlines"@,
        ),
        update.refusal() is Some && update.old_text@.len() > 0 ==> update.refusal() == Some(
            "path must be non-empty and contain no newlines"@,
        ),
        patch_text::path_fits_patch(update.path@) && update.old_text@.len() == 0
            ==> update.refusal() == Some("old_text must not be empty"@),
{
    lemma_path_fits(write.path@);
    lemma_path_fits(update.path@);
}

proof fn lemma_path_fits(path: Seq<char>)
    ensures
        patch_text::path_fits_patch(path) <==> path.len() > 0 && forall|i: int|
            0 <= i < path.len() ==> (#[trigger] path[i]) != '\n' && path[i] != '\r',
{
    if patch_text::path_fits_patch(path) {
        assert forall|i: int| 0 <= i < path.len() implies (#[trigger] path[i]) != '\n' && path[i]
            != '\r' by {
            assert(path.contains(path[i]));
        }
    }
}

/// A call ends with its answer or with its patch, and with nothing else; a step at which nothing is to
/// be done leaves the call where it is.
pub proof fn law_calls_end_with_answers(
    write: WriteFileHandler,
    update: UpdateFileHandler,
    read_call: ToolCall<ReadFileArgs>,
    read_event: ToolEvent<ReadFileArgs>,
    write_call: ToolCall<WriteFileArgs>,
    write_event: ToolEvent<WriteFileArgs>,
    update_call: ToolCall<UpdateFileArgs>,
    update_event: ToolEvent<UpdateFileArgs>,
)
    ensures
        ({
            let (next, action) = ReadFileHandler::handled(read_call, read_event);
            &&& action is Answer <==> next is Done && !(read_call is Done)
            &&& action is Nothing <==> next == read_call
            &&& !(action is ApplyPatch) && !(action is Inspect)
        }),
        ({
            let (next, action) = write.handled(write_call, write_event);
            &&& action is Answer || action is ApplyPatch <==> next is Done && !(write_call is Done)
            &&& action is Nothing <==> next == write_call
            &&& !(action is ReadFile)
            &&& action is Answer ==> action->Answer_0 is Err
        }),
        ({
            let (next, action) = update.handled(update_call, update_event);
            &&& action is Answer || action is ApplyPatch <==> next is Done && !(
            update_call is Done)
            &&& action is Nothing <==> next == update_call
            &&& !(action is Inspect)
            &&& action is Answer ==> action->Answer_0 is Err
        }),
{
}

/// What goes wrong on the way to the file is what the model is told.
pub proof fn law_failures_are_told<A: ToolArguments>(
    args: A,
    error: patch_text::FunctionCallError,
    payload: ToolPayload,
    arguments: String,
)
    ensures
        file_tools::prepared(ToolCall::<A>::Parsing, ToolEvent::Parsed(Err(error))) == (
            ToolCall::<A>::Done,
            ActionView::Answer(Err(error.message())),
        ),
        file_tools::prepared(ToolCall::Choosing(args), ToolEvent::Chosen(Err(error))) == (
            ToolCall::<A>::Done,
            ActionView::Answer(Err(error.message())),
        ),
        file_tools::prepared(ToolCall::Choosing(args), ToolEvent::Chosen(Ok(false))) == (
            ToolCall::<A>::Done,
            ActionView::Answer(Err(A::tool() + " is unavailable in this session"@)),
        ),
        !(payload is Function) ==> file_tools::prepared(
            ToolCall::<A>::Start,
            ToolEvent::Invoked(payload),
        ) == (
            ToolCall::<A>::Done,
            ActionView::Answer(Err(A::tool() + " handler received unsupported payload"@)),
        ),
        file_tools::prepared(
            ToolCall::<A>::Start,
            ToolEvent::Invoked(ToolPayload::Function(arguments)),
        ) == (ToolCall::<A>::Parsing, ActionView::ParseArguments(arguments@)),
        error.message() == error->RespondToModel_0@,
{
}

/// A file that cannot be resolved, read or inspected is named, with what went wrong.
#[verifier::rlimit(60)]
pub proof fn law_file_failures_are_told(
    read: ReadFileArgs,
    write: WriteFileArgs,
    update: UpdateFileArgs,
    write_handler: WriteFileHandler,
    update_handler: UpdateFileHandler,
    path: String,
    message: String,
    error: file_tools::PathError,
)
    ensures
        ReadFileHandler::handled(
            ToolCall::Reaching(read, path),
            ToolEvent::FileRead(Err(message)),
        ).1 == ActionView::Answer(Err("unable to read `"@ + path@ + "`: "@ + message@)),
        update_handler.handled(
            ToolCall::Reaching(update, path),
            ToolEvent::FileRead(Err(message)),
        ).1 == ActionView::Answer(Err("unable to read `"@ + path@ + "`: "@ + message@)),
        write_handler.handled(
            ToolCall::Reaching(write, path),
            ToolEvent::Inspected(Inspection::Exists),
        ).1 == ActionView::Answer(
            Err("`"@ + path@ + "` already exists; use update_file or apply_patch"@),
        ),
        ReadFileHandler::handled(ToolCall::Locating(read), ToolEvent::Located(Err(error))).1
            == ActionView::Answer(
            Err(
                "unable to resolve `"@ + read.path@ + "` against `"@ + error.cwd@ + "`: "@
                    + error.message@,
            ),
        ),
        write_handler.handled(ToolCall::Locating(write), ToolEvent::Located(Err(error))).1
            == ActionView::Answer(
            Err("unable to resolve `"@ + write.path@ + "`: "@ + error.message@),
        ),
        update_handler.handled(ToolCall::Locating(update), ToolEvent::Located(Err(error))).1
            == ActionView::Answer(
            Err("unable to resolve `"@ + update.path@ + "`: "@ + error.message@),
        ),
{
    reveal_strlit("`");
    reveal_strlit("unable to read ");
    reveal_strlit("unable to read `");
    reveal_strlit(": ");
    reveal_strlit("`: ");
    reveal_strlit("unable to resolve ");
    reveal_strlit("unable to resolve `");
    reveal_strlit(" against ");
    reveal_strlit("` against `");
    reveal_strlit(" already exists; use update_file or apply_patch");
    reveal_strlit("` already exists; use update_file or apply_patch");
    assert(file_tools::quoted("unable to read "@, path@, ": "@ + message@) =~= "unable to read `"@
        + path@ + "`: "@ + message@);
    assert(file_tools::quoted(
        Seq::empty(),
        path@,
        " already exists; use update_file or apply_patch"@,
    ) =~= "`"@ + path@ + "` already exists; use update_file or apply_patch"@);
    assert(read.unresolved(error.cwd@, error.message@) =~= "unable to resolve `"@ + read.path@
        + "` against `"@ + error.cwd@ + "`: "@ + error.message@);
    assert(write.unresolved(error.cwd@, error.message@) =~= "unable to resolve `"@ + write.path@
        + "`: "@ + error.message@);
    assert(update.unresolved(error.cwd@, error.message@) =~= "unable to resolve `"@ + update.path@
        + "`: "@ + error.message@);
}

/// A read starts at the line that is asked for, and at the first one where none is.
pub proof fn law_reads_start_where_asked(args: ReadFileArgs, path: String, contents: String)
    ensures
        ReadFileHandler::handled(
            ToolCall::Reaching(args, path),
            ToolEvent::FileRead(Ok(contents)),
        ).1 == ActionView::Answer(
            file_tools::read_answer(
                match args.start_line {
                    Some(start) => start as int,
                    None => 1,
                },
                args.end_line,
                path@,
                contents@,
            ),
        ),
{
}

/// Marked lines carry a content: behind the mark each holds a line of it, without the carriage returns
/// that end the line, and with those and a line feed after each the lines are the content, its last line
/// ended.
pub open spec fn carries(
    lines: Seq<Seq<char>>,
    mark: char,
    content: Seq<char>,
    runs: Seq<nat>,
) -> bool {
    &&& runs.len() == lines.len()
    &&& forall|i: int|
        0 <= i < lines.len() ==> {
            &&& (#[trigger] lines[i]).len() > 0
            &&& lines[i][0] == mark
            &&& lines[i].last() != '\r'
            &&& !lines[i].contains('\n')
        }
    &&& Seq::new(
        lines.len(),
        |i: int| lines[i].drop_first() + Seq::new(runs[i], |k: int| '\r') + seq!['\n'],
    ).flatten() == if content.len() == 0 || content.last() == '\n' {
        content
    } else {
        content.push('\n')
    }
}

/// The marked lines of a content carry it.
pub proof fn lemma_marked_lines_carry(mark: char, content: Seq<char>)
    requires
        mark != '\r',
        mark != '\n',
    ensures
        exists|runs: Seq<nat>|
            #[trigger] carries(
                patch_text::marked_lines(seq![mark], content),
                mark,
                content,
                runs,
            ),
{
    let parts = strings::split(content, '\n');
    let lines = patch_text::content_lines(content);
    let marked = patch_text::marked_lines(seq![mark], content);
    strings::law_split_join(content, '\n');
    string_laws::law_join(parts, '\n');
    let runs = Seq::new(
        lines.len(),
        |i: int| (lines[i].len() - strings::trim_end(lines[i], '\r').len()) as nat,
    );
    let whole = Seq::new(
        marked.len(),
        |i: int| marked[i].drop_first() + Seq::new(runs[i], |k: int| '\r') + seq!['\n'],
    );
    let ended = lines.map_values(|line: Seq<char>| line.push('\n'));
    assert forall|i: int| 0 <= i < lines.len() implies {
        &&& (#[trigger] marked[i]).len() > 0
        &&& marked[i][0] == mark
        &&& marked[i].last() != '\r'
        &&& !marked[i].contains('\n')
        &&& whole[i] == ended[i]
    } by {
        string_laws::law_trim_end(lines[i], '\r');
        let trimmed = strings::trim_end(lines[i], '\r');
        assert(marked[i] == seq![mark] + trimmed);
        assert(marked[i].drop_first() =~= trimmed);
        assert(lines[i] =~= trimmed + Seq::new(runs[i], |k: int| '\r'));
        assert(whole[i] =~= ended[i]);
        assert(!parts[i].contains('\n'));
        if marked[i].contains('\n') {
            let k = choose|k: int| 0 <= k < marked[i].len() && marked[i][k] == '\n';
            assert(trimmed[k - 1] == '\n');
            assert(lines[i][k - 1] == trimmed[k - 1]);
            assert(parts[i][k - 1] == '\n');
        }
    }
    assert(whole =~= ended);
    let before = parts.drop_last().map_values(|part: Seq<char>| part.push('\n'));
    assert(parts.last() == parts[parts.len() - 1]);
    if parts.last().len() == 0 {
        assert(lines =~= parts.drop_last());
        assert(ended =~= before);
        assert(content =~= before.flatten());
        if content.len() > 0 {
            if parts.len() == 1 {
                assert(before =~= Seq::empty());
            }
            let last = before.last();
            string_laws::lemma_flatten_push(before.drop_last(), last);
            assert(before.drop_last().push(last) =~= before);
            assert(last.last() == '\n');
            assert(content.last() == '\n');
        }
    } else {
        assert(lines == parts);
        assert(ended =~= before.push(parts.last().push('\n')));
        string_laws::lemma_flatten_push(before, parts.last().push('\n'));
        assert(ended.flatten() =~= content.push('\n'));
        assert(content.last() == parts.last().last());
        assert(parts.last().contains(parts.last().last()));
    }
    assert(carries(marked, mark, content, runs));
}

/// The lines that open a patch: the mark of its beginning, and then the environment, if there is one.
pub proof fn law_patch_opens(environment_id: Option<Seq<char>>)
    ensures
        patch_text::header_lines(environment_id) == match environment_id {
            Some(id) => seq!["*** Begin Patch"@].push("*** Environment ID: "@ + id),
            None => seq!["*** Begin Patch"@],
        },
{
    assert(patch_text::header_lines(environment_id) =~= match environment_id {
        Some(id) => seq!["*** Begin Patch"@].push("*** Environment ID: "@ + id),
        None => seq!["*** Begin Patch"@],
    });
}

/// How many lines open a patch.
pub open spec fn opening_lines(environment_id: Option<Seq<char>>) -> int {
    if environment_id is Some {
        2
    } else {
        1
    }
}

/// The patch of a write carries the whole content, every line of it behind a plus sign, between the line
/// that names the file and the end of the patch; an empty file is one empty line.
pub proof fn law_add_patch_carries_the_content(
    path: Seq<char>,
    content: Seq<char>,
    environment_id: Option<Seq<char>>,
)
    requires
        patch_text::path_fits_patch(path),
        environment_id matches Some(id) ==> !id.contains('\n'),
    ensures
        ({
            let patch = strings::join(
                patch_text::add_patch_lines(path, content, environment_id),
                '\n',
            );
            let lines = strings::split(patch, '\n');
            let opening = opening_lines(environment_id);
            let body = lines.subrange(opening + 1, lines.len() - 1);
            &&& lines.len() >= opening + 3
            &&& lines[0] == "*** Begin Patch"@
            &&& environment_id matches Some(id) ==> lines[1] == "*** Environment ID: "@ + id
            &&& lines[opening] == "*** Add File: "@ + path
            &&& lines.last() == "*** End Patch"@
            &&& content.len() == 0 ==> body == seq![seq!['+']]
            &&& content.len() > 0 ==> exists|runs: Seq<nat>|
                #[trigger] carries(body, '+', content, runs)
        }),
{
    let all = patch_text::add_patch_lines(path, content, environment_id);
    patch_text::law_add_patch_reads_back(path, content, environment_id);
    let opening = opening_lines(environment_id);
    reveal_strlit("+");
    assert("+"@ =~= seq!['+']);
    strings::law_split_join(content, '\n');
    let marked = patch_text::marked_lines("+"@, content);
    if patch_text::content_lines(content).len() == 0 {
        if content.len() > 0 {
            lemma_marked_lines_carry('+', content);
            let runs = choose|runs: Seq<nat>| #[trigger] carries(marked, '+', content, runs);
            assert(Seq::new(
                marked.len(),
                |i: int| marked[i].drop_first() + Seq::new(runs[i], |k: int| '\r') + seq!['\n'],
            ) =~= Seq::empty());
        }
        assert(all.subrange(opening + 1, all.len() - 1) =~= seq![seq!['+']]);
    } else {
        assert(all.subrange(opening + 1, all.len() - 1) =~= marked);
        if content.len() == 0 {
            assert(content =~= Seq::empty());
        }
        lemma_marked_lines_carry('+', content);
        let body = all.subrange(opening + 1, all.len() - 1);
        let runs = choose|runs: Seq<nat>| #[trigger] carries(marked, '+', content, runs);
        assert(carries(body, '+', content, runs));
    }
}

/// The patch of an update carries the whole old content, every line of it behind a minus sign, and then
/// the whole new content, every line of it behind a plus sign.
pub proof fn law_update_patch_carries_both_contents(
    path: Seq<char>,
    old_content: Seq<char>,
    new_content: Seq<char>,
    environment_id: Option<Seq<char>>,
)
    requires
        patch_text::path_fits_patch(path),
        environment_id matches Some(id) ==> !id.contains('\n'),
    ensures
        ({
            let patch = strings::join(
                patch_text::update_patch_lines(path, old_content, new_content, environment_id),
                '\n',
            );
            let lines = strings::split(patch, '\n');
            let opening = opening_lines(environment_id);
            &&& lines[0] == "*** Begin Patch"@
            &&& environment_id matches Some(id) ==> lines[1] == "*** Environment ID: "@ + id
            &&& lines[opening] == "*** Update File: "@ + path
            &&& lines[opening + 1] == "@@"@
            &&& lines[lines.len() - 2] == "*** End of File"@
            &&& lines.last() == "*** End Patch"@
            &&& exists|middle: int, removed: Seq<nat>, added: Seq<nat>|
                {
                    &&& opening + 2 <= middle <= lines.len() - 2
                    &&& #[trigger] carries(
                        lines.subrange(opening + 2, middle),
                        '-',
                        old_content,
                        removed,
                    )
                    &&& #[trigger] carries(
                        lines.subrange(middle, lines.len() - 2),
                        '+',
                        new_content,
                        added,
                    )
                }
        }),
{
    let all = patch_text::update_patch_lines(path, old_content, new_content, environment_id);
    patch_text::law_update_patch_reads_back(path, old_content, new_content, environment_id);
    let opening = opening_lines(environment_id);
    reveal_strlit("+");
    reveal_strlit("-");
    assert("+"@ =~= seq!['+']);
    assert("-"@ =~= seq!['-']);
    let removed = patch_text::marked_lines("-"@, old_content);
    let added = patch_text::marked_lines("+"@, new_content);
    let middle = opening + 2 + removed.len();
    assert(all.subrange(opening + 2, middle) =~= removed);
    assert(all.subrange(middle, all.len() - 2) =~= added);
    lemma_marked_lines_carry('-', old_content);
    lemma_marked_lines_carry('+', new_content);
    let minus = choose|runs: Seq<nat>| #[trigger] carries(removed, '-', old_content, runs);
    let plus = choose|runs: Seq<nat>| #[trigger] carries(added, '+', new_content, runs);
    assert(carries(all.subrange(opening + 2, middle), '-', old_content, minus));
    assert(carries(all.subrange(middle, all.len() - 2), '+', new_content, plus));
}

/// The environment can be named where it is wanted, and nothing else depends on that; the parameters are
/// those of the tool and no others.
#[verifier::rlimit(60)]
pub proof fn law_tools_take_their_parameters(include_environment_id: bool)
    ensures
        ({
            let read = (ReadFileHandler { include_environment_id }).properties();
            let write = (WriteFileHandler { include_environment_id }).properties();
            let update = (UpdateFileHandler { include_environment_id }).properties();
            let id = if include_environment_id {
                set!["environment_id"@]
            } else {
                Set::empty()
            };
            &&& read.dom() == id + set!["path"@, "start_line"@, "end_line"@]
            &&& write.dom() == id + set!["path"@, "content"@]
            &&& update.dom() == id + set!["path"@, "old_text"@, "new_text"@, "replace_all"@]
            &&& (ReadFileHandler { include_environment_id: false }).properties()
                == read.remove("environment_id"@)
            &&& (WriteFileHandler { include_environment_id: false }).properties()
                == write.remove("environment_id"@)
            &&& (UpdateFileHandler { include_environment_id: false }).properties()
                == update.remove("environment_id"@)
        }),
{
    let read = (ReadFileHandler { include_environment_id }).properties();
    let write = (WriteFileHandler { include_environment_id }).properties();
    let update = (UpdateFileHandler { include_environment_id }).properties();
    let id: Set<Seq<char>> = if include_environment_id {
        set!["environment_id"@]
    } else {
        Set::empty()
    };
    reveal_strlit("environment_id");
    reveal_strlit("path");
    reveal_strlit("start_line");
    reveal_strlit("end_line");
    reveal_strlit("content");
    reveal_strlit("old_text");
    reveal_strlit("new_text");
    reveal_strlit("replace_all");
    assert("environment_id"@.len() == 14);
    assert("path"@.len() == 4);
    assert("start_line"@.len() == 10);
    assert("end_line"@.len() == 8);
    assert("content"@.len() == 7);
    assert("old_text"@.len() == 8);
    assert("new_text"@.len() == 8);
    assert("replace_all"@.len() == 11);
    assert(read.dom() =~= id + set!["path"@, "start_line"@, "end_line"@]);
    assert(write.dom() =~= id + set!["path"@, "content"@]);
    assert(update.dom() =~= id + set!["path"@, "old_text"@, "new_text"@, "replace_all"@]);
    let bare: Map<Seq<char>, SchemaView> = (ReadFileHandler {
        include_environment_id: false,
    }).properties();
    assert(bare =~= read.remove("environment_id"@));
    let bare: Map<Seq<char>, SchemaView> = (WriteFileHandler {
        include_environment_id: false,
    }).properties();
    assert(bare =~= write.remove("environment_id"@));
    let bare: Map<Seq<char>, SchemaView> = (UpdateFileHandler {
        include_environment_id: false,
    }).properties();
    assert(bare =~= update.remove("environment_id"@));
}


/// A path that cannot be inspected is named, with what went wrong.
pub proof fn law_inspection_failures_are_told(
    handler: WriteFileHandler,
    args: WriteFileArgs,
    path: String,
    message: String,
)
    ensures
        handler.handled(
            ToolCall::Reaching(args, path),
            ToolEvent::Inspected(Inspection::Failed(message)),
        ).1 == ActionView::Answer(Err("unable to inspect `"@ + path@ + "`: "@ + message@)),
{
    reveal_strlit("`");
    reveal_strlit("unable to inspect ");
    reveal_strlit("unable to inspect `");
    reveal_strlit(": ");
    reveal_strlit("`: ");
    assert(file_tools::quoted("unable to inspect "@, path@, ": "@ + message@)
        =~= "unable to inspect `"@ + path@ + "`: "@ + message@);
}

/// A file that is not there is created by its patch, and a file that is updated by its patch: with the
/// path and the environment that were asked for, and where that can be named, it is.
pub proof fn law_patches_are_for_the_file_asked_for(
    write_handler: WriteFileHandler,
    write: WriteFileArgs,
    update_handler: UpdateFileHandler,
    update: UpdateFileArgs,
    path: String,
    contents: String,
    updated: Seq<char>,
)
    requires
        file_tools::updated_contents(update, contents@) == Ok::<Seq<char>, Seq<char>>(updated),
    ensures
        write_handler.handled(
            ToolCall::Reaching(write, path),
            ToolEvent::Inspected(Inspection::NotFound),
        ) == (
            ToolCall::<WriteFileArgs>::Done,
            ActionView::ApplyPatch(
                strings::join(
                    patch_text::add_patch_lines(
                        write.path@,
                        write.content@,
                        match write.environment_id {
                            Some(id) => Some(id@),
                            None => None,
                        },
                    ),
                    '\n',
                ),
                write_handler.include_environment_id,
            ),
        ),
        update_handler.handled(
            ToolCall::Reaching(update, path),
            ToolEvent::FileRead(Ok(contents)),
        ) == (
            ToolCall::<UpdateFileArgs>::Done,
            ActionView::ApplyPatch(
                strings::join(
                    patch_text::update_patch_lines(
                        update.path@,
                        contents@,
                        updated,
                        match update.environment_id {
                            Some(id) => Some(id@),
                            None => None,
                        },
                    ),
                    '\n',
                ),
                update_handler.include_environment_id,
            ),
        ),
{
}

/// An update that fails says why.
pub proof fn law_failed_update_says_why(
    handler: UpdateFileHandler,
    args: UpdateFileArgs,
    path: String,
    contents: String,
    message: Seq<char>,
)
    requires
        file_tools::updated_contents(args, contents@) == Err::<Seq<char>, Seq<char>>(message),
    ensures
        handler.handled(
            ToolCall::Reaching(args, path),
            ToolEvent::FileRead(Ok(contents)),
        ) == (ToolCall::<UpdateFileArgs>::Done, ActionView::Answer(Err(message))),
{
}

/// On the way to its file a call resolves the path that was given, in the environment that was given, and
/// then reads or inspects what the path was resolved to.
pub proof fn law_calls_go_to_the_file_asked_for(
    read: ReadFileArgs,
    write: WriteFileArgs,
    update: UpdateFileArgs,
    path: String,
)
    ensures
        ReadFileHandler::handled(ToolCall::Choosing(read), ToolEvent::Chosen(Ok(true))) == (
            ToolCall::Locating(read),
            ActionView::ResolvePath(read.environment(), read.path@),
        ),
        ReadFileHandler::handled(ToolCall::Locating(read), ToolEvent::Located(Ok(path))) == (
            ToolCall::Reaching(read, path),
            ActionView::ReadFile(read.environment(), path@),
        ),
        file_tools::prepared(ToolCall::Choosing(write), ToolEvent::Chosen(Ok(true))) == (
            ToolCall::Locating(write),
            ActionView::ResolvePath(write.environment(), write.path@),
        ),
        file_tools::prepared(ToolCall::Locating(write), ToolEvent::Located(Ok(path))) == (
            ToolCall::Reaching(write, path),
            ActionView::Inspect(write.environment(), path@),
        ),
        file_tools::prepared(ToolCall::Choosing(update), ToolEvent::Chosen(Ok(true))) == (
            ToolCall::Locating(update),
            ActionView::ResolvePath(update.environment(), update.path@),
        ),
        file_tools::prepared(ToolCall::Locating(update), ToolEvent::Located(Ok(path))) == (
            ToolCall::Reaching(update, path),
            ActionView::ReadFile(update.environment(), path@),
        ),
        read.environment_id is Some ==> read.environment() == Some(read.environment_id->0@),
        read.environment_id is None ==> read.environment() is None,
        write.environment_id is Some ==> write.environment() == Some(write.environment_id->0@),
        write.environment_id is None ==> write.environment() is None,
        update.environment_id is Some ==> update.environment() == Some(update.environment_id->0@),
        update.environment_id is None ==> update.environment() is None,
{
}

/// What is said of an answer or an action is what it is.
pub proof fn law_actions_as_made(
    output: file_tools::FunctionToolOutput,
    error: patch_text::FunctionCallError,
    id: Option<String>,
    text: String,
    flag: bool,
)
    ensures
        output@.text == output.text@ && output@.success == output.success,
        file_tools::ToolAction::Answer(Ok(output))@ == ActionView::Answer(Ok(output@)),
        file_tools::ToolAction::Answer(Err(error))@ == ActionView::Answer(
            Err(error->RespondToModel_0@),
        ),
        file_tools::ToolAction::ApplyPatch(text, flag)@ == ActionView::ApplyPatch(text@, flag),
        file_tools::ToolAction::ParseArguments(text)@ == ActionView::ParseArguments(text@),
        file_tools::ToolAction::ChooseEnvironment(id)@ == ActionView::ChooseEnvironment(
            strings::opt_text(id),
        ),
        file_tools::ToolAction::ResolvePath(id, text)@ == ActionView::ResolvePath(
            strings::opt_text(id),
            text@,
        ),
        file_tools::ToolAction::ReadFile(id, text)@ == ActionView::ReadFile(
            strings::opt_text(id),
            text@,
        ),
        file_tools::ToolAction::Inspect(id, text)@ == ActionView::Inspect(
            strings::opt_text(id),
            text@,
        ),
        file_tools::ToolAction::Nothing@ == ActionView::Nothing,
        file_tools::answer_of(Ok(output)) == Ok::<OutputView, Seq<char>>(output@),
        file_tools::answer_of(Err(error)) == Err::<OutputView, Seq<char>>(error.message()),
{
}

/// The parameters of a tool are found by their names, each with its own schema; they stand in the order
/// of their names.
pub proof fn law_parameters_by_name(properties: crate::tool_spec::Properties, i: int, j: int)
    requires
        properties.well_formed(),
        0 <= i < properties.entries.len(),
        0 <= j < properties.entries.len(),
    ensures
        properties@.dom().contains(properties.entries@[i].name@),
        properties@[properties.entries@[i].name@].kind == properties.entries@[i].schema.kind,
        properties.entries@[i].schema.description is Some ==> properties@[properties.entries@[i].name@].description
            == Some(properties.entries@[i].schema.description->0@),
        i < j ==> strings::precedes(properties.entries@[i].name@, properties.entries@[j].name@),
        properties.entries@[i].name@ == properties.entries@[j].name@ ==> i == j,
{
    let entries = properties.entries@;
    let name = entries[i].name@;
    strings::law_precedes_total(name, name);
    assert(crate::tool_spec::has_name(entries, name));
    let chosen = choose|k: int| 0 <= k < entries.len() && (#[trigger] entries[k]).name@ == name;
    if chosen < i {
        assert(strings::precedes(entries[chosen].name@, entries[i].name@));
    } else if i < chosen {
        assert(strings::precedes(entries[i].name@, entries[chosen].name@));
    }
    if i < j {
        assert(strings::precedes(entries[i].name@, entries[j].name@));
    } else if j < i {
        assert(strings::precedes(entries[j].name@, entries[i].name@));
    }
}

/// A tool is described by its own name, description and parameters, takes no others, and says which it
/// cannot do without.
pub proof fn law_tool_description(
    tool: crate::tool_spec::ToolSpec,
    name: Seq<char>,
    description: Seq<char>,
    properties: Map<Seq<char>, SchemaView>,
    required: Seq<Seq<char>>,
)
    requires
        tool.describes(name, description, properties, required),
    ensures
        tool.name@ == name,
        tool.description@ == description,
        tool.parameters.properties@ == properties,
        tool.parameters.properties.well_formed(),
        tool.parameters.required is Some,
        tool.parameters.required->0.len() == required.len(),
        forall|i: int|
            0 <= i < required.len() ==> (#[trigger] tool.parameters.required->0@[i])@
                == required[i],
        tool.parameters.additional_properties == Some(false),
        !tool.strict,
        tool.defer_loading is None,
        tool.output_schema is None,
{
    let names = tool.parameters.required->0;
    assert(strings::texts(names@).len() == names.len());
    assert forall|i: int| 0 <= i < required.len() implies (
    #[trigger] tool.parameters.required->0@[i])@ == required[i] by {
        assert(strings::texts(names@)[i] == names@[i]@);
    }
}


/// The lines of the patch of a write, whatever the path and the environment are.
pub proof fn law_add_patch_lines(
    path: Seq<char>,
    content: Seq<char>,
    environment_id: Option<Seq<char>>,
)
    ensures
        ({
            let lines = patch_text::add_patch_lines(path, content, environment_id);
            let opening = opening_lines(environment_id);
            let body = lines.subrange(opening + 1, lines.len() - 1);
            &&& lines.len() >= opening + 3
            &&& lines[0] == "*** Begin Patch"@
            &&& environment_id matches Some(id) ==> lines[1] == "*** Environment ID: "@ + id
            &&& lines[opening] == "*** Add File: "@ + path
            &&& lines.last() == "*** End Patch"@
            &&& content.len() == 0 ==> body == seq![seq!['+']]
            &&& content.len() > 0 ==> exists|runs: Seq<nat>|
                #[trigger] carries(body, '+', content, runs)
        }),
{
    let all = patch_text::add_patch_lines(path, content, environment_id);
    let opening = opening_lines(environment_id);
    reveal_strlit("+");
    assert("+"@ =~= seq!['+']);
    strings::law_split_join(content, '\n');
    let marked = patch_text::marked_lines("+"@, content);
    lemma_marked_lines_carry('+', content);
    let runs = choose|runs: Seq<nat>| #[trigger] carries(marked, '+', content, runs);
    if patch_text::content_lines(content).len() == 0 {
        assert(Seq::new(
            marked.len(),
            |i: int| marked[i].drop_first() + Seq::new(runs[i], |k: int| '\r') + seq!['\n'],
        ) =~= Seq::empty());
        assert(all.subrange(opening + 1, all.len() - 1) =~= seq![seq!['+']]);
    } else {
        let body = all.subrange(opening + 1, all.len() - 1);
        assert(body =~= marked);
        if content.len() == 0 {
            assert(content =~= Seq::empty());
        }
        assert(carries(body, '+', content, runs));
    }
}

/// The lines of the patch of an update, whatever the path and the environment are.
pub proof fn law_update_patch_lines(
    path: Seq<char>,
    old_content: Seq<char>,
    new_content: Seq<char>,
    environment_id: Option<Seq<char>>,
)
    ensures
        ({
            let lines = patch_text::update_patch_lines(
                path,
                old_content,
                new_content,
                environment_id,
            );
            let opening = opening_lines(environment_id);
            &&& lines[0] == "*** Begin Patch"@
            &&& environment_id matches Some(id) ==> lines[1] == "*** Environment ID: "@ + id
            &&& lines[opening] == "*** Update File: "@ + path
            &&& lines[opening + 1] == "@@"@
            &&& lines[lines.len() - 2] == "*** End of File"@
            &&& lines.last() == "*** End Patch"@
            &&& exists|middle: int, removed: Seq<nat>, added: Seq<nat>|
                {
                    &&& opening + 2 <= middle <= lines.len() - 2
                    &&& #[trigger] carries(
                        lines.subrange(opening + 2, middle),
                        '-',
                        old_content,
                        removed,
                    )
                    &&& #[trigger] carries(
                        lines.subrange(middle, lines.len() - 2),
                        '+',
                        new_content,
                        added,
                    )
                }
        }),
{
    let all = patch_text::update_patch_lines(path, old_content, new_content, environment_id);
    let opening = opening_lines(environment_id);
    reveal_strlit("+");
    reveal_strlit("-");
    assert("+"@ =~= seq!['+']);
    assert("-"@ =~= seq!['-']);
    let removed = patch_text::marked_lines("-"@, old_content);
    let added = patch_text::marked_lines("+"@, new_content);
    let middle = opening + 2 + removed.len();
    assert(all.subrange(opening + 2, middle) =~= removed);
    assert(all.subrange(middle, all.len() - 2) =~= added);
    lemma_marked_lines_carry('-', old_content);
    lemma_marked_lines_carry('+', new_content);
    let minus = choose|runs: Seq<nat>| #[trigger] carries(removed, '-', old_content, runs);
    let plus = choose|runs: Seq<nat>| #[trigger] carries(added, '+', new_content, runs);
    assert(carries(all.subrange(opening + 2, middle), '-', old_content, minus));
    assert(carries(all.subrange(middle, all.len() - 2), '+', new_content, plus));
}

/// Lines are numbers, leave is a truth value, and everything else is text.
pub proof fn law_parameters_have_their_kinds(include_environment_id: bool, name: Seq<char>)
    ensures
        ({
            let read = (ReadFileHandler { include_environment_id }).properties();
            let write = (WriteFileHandler { include_environment_id }).properties();
            let update = (UpdateFileHandler { include_environment_id }).properties();
            &&& read.dom().contains(name) ==> read[name].description is Some && (
            read[name].kind == crate::tool_spec::SchemaKind::Integer <==> name == "start_line"@
                || name == "end_line"@) && read[name].kind
                != crate::tool_spec::SchemaKind::Boolean
            &&& write.dom().contains(name) ==> write[name].description is Some && write[name].kind
                == crate::tool_spec::SchemaKind::Text
            &&& update.dom().contains(name) ==> update[name].description is Some && (
            update[name].kind == crate::tool_spec::SchemaKind::Boolean <==> name
                == "replace_all"@) && update[name].kind != crate::tool_spec::SchemaKind::Integer
        }),
{
    reveal_strlit("environment_id");
    reveal_strlit("path");
    reveal_strlit("start_line");
    reveal_strlit("end_line");
    reveal_strlit("old_text");
    reveal_strlit("new_text");
    reveal_strlit("replace_all");
    assert("environment_id"@.len() == 14);
    assert("path"@.len() == 4);
    assert("start_line"@.len() == 10);
    assert("end_line"@.len() == 8);
    assert("old_text"@.len() == 8);
    assert("new_text"@.len() == 8);
    assert("replace_all"@.len() == 11);
}

/// The parameters say what they are for.
#[verifier::rlimit(60)]
pub proof fn law_parameters_are_described(include_environment_id: bool)
    ensures
        ({
            let read = (ReadFileHandler { include_environment_id }).properties();
            let write = (WriteFileHandler { include_environment_id }).properties();
            let update = (UpdateFileHandler { include_environment_id }).properties();
            let says = |properties: Map<Seq<char>, SchemaView>, name: Seq<char>, text: Seq<char>|
                properties[name].description == Some(text);
            &&& says(
                read,
                "path"@,
                "Filesystem path, resolved relative to the environment working directory."@,
            )
            &&& says(
                read,
                "start_line"@,
                "First line to return, using one-based inclusive numbering; defaults to 1."@,
            )
            &&& says(
                read,
                "end_line"@,
                "Last line to return, using one-based inclusive numbering; omit for EOF."@,
            )
            &&& says(write, "path"@, "Path for the new text file."@)
            &&& says(write, "content"@, "Complete UTF-8 file content."@)
            &&& says(update, "path"@, "Path to an existing UTF-8 text file."@)
            &&& says(
                update,
                "old_text"@,
                "Exact existing text to replace; must match once unless replace_all is true."@,
            )
            &&& says(update, "new_text"@, "Replacement text."@)
            &&& says(update, "replace_all"@, "Replace every exact match; defaults to false."@)
            &&& include_environment_id ==> says(
                read,
                "environment_id"@,
                "Environment id from <environment_context>; omit for the primary environment."@,
            ) && says(
                write,
                "environment_id"@,
                "Environment id from <environment_context>; omit for the primary environment."@,
            ) && says(
                update,
                "environment_id"@,
                "Environment id from <environment_context>; omit for the primary environment."@,
            )
        }),
{
    reveal_strlit("environment_id");
    reveal_strlit("path");
    reveal_strlit("start_line");
    reveal_strlit("end_line");
    reveal_strlit("content");
    reveal_strlit("old_text");
    reveal_strlit("new_text");
    reveal_strlit("replace_all");
    assert("environment_id"@.len() == 14);
    assert("path"@.len() == 4);
    assert("start_line"@.len() == 10);
    assert("end_line"@.len() == 8);
    assert("content"@.len() == 7);
    assert("old_text"@.len() == 8);
    assert("new_text"@.len() == 8);
    assert("replace_all"@.len() == 11);
    assert("old_text"@[0] == 'o');
    assert("new_text"@[0] == 'n');
}

} // verus!
