//! The patch text that creates or rewrites one file.

use vstd::prelude::*;

use crate::strings;

verus! {

/// Why a tool call cannot be carried out, as the model is told.
#[derive(Debug)]
pub enum FunctionCallError {
    RespondToModel(String),
}

impl FunctionCallError {
    /// What the model is told.
    pub open spec fn message(self) -> Seq<char> {
        match self {
            FunctionCallError::RespondToModel(message) => message@,
        }
    }
}

/// A path can stand in a line of a patch.
pub open spec fn path_fits_patch(path: Seq<char>) -> bool {
    path.len() > 0 && !path.contains('\n') && !path.contains('\r')
}

/// Accepts a path that can stand in a line of a patch.
pub fn validate_patch_path(path: &str) -> (r: Result<(), FunctionCallError>)
    ensures
        r is Ok <==> path_fits_patch(path@),
        r matches Err(error) ==> error.message()
            == "path must be non-empty and contain no newlines"@,
{
    if strings::same_text(path, "") || strings::has_char(path, '\n') || strings::has_char(path, '\r') {
        proof {
            reveal_strlit("");
        }
        return Err(
            FunctionCallError::RespondToModel(
                "path must be non-empty and contain no newlines".to_owned(),
            ),
        );
    }
    proof {
        reveal_strlit("");
        if path@.len() == 0 {
            assert(path@ =~= ""@);
        }
    }
    Ok(())
}

/// The lines that open a patch for an environment, or for the primary one.
pub open spec fn header_lines(environment_id: Option<Seq<char>>) -> Seq<Seq<char>> {
    match environment_id {
        Some(id) => seq!["*** Begin Patch"@, "*** Environment ID: "@ + id],
        None => seq!["*** Begin Patch"@],
    }
}

/// The lines that open a patch.
pub fn patch_header(environment_id: Option<&str>) -> (header: String)
    ensures
        header@ == strings::terminated(header_lines(strings::opt_str(environment_id))),
{
    let mut patch = String::new();
    let ghost mut lines: Seq<Seq<char>> = Seq::empty();
    push_line(&mut patch, "*** Begin Patch", "", Ghost(lines));
    proof {
        reveal_strlit("");
        assert("*** Begin Patch"@ + ""@ =~= "*** Begin Patch"@);
        lines = lines.push("*** Begin Patch"@);
        assert(lines =~= header_lines(None));
    }
    if let Some(environment_id) = environment_id {
        push_line(&mut patch, "*** Environment ID: ", environment_id, Ghost(lines));
        assert(lines.push("*** Environment ID: "@ + environment_id@) =~= header_lines(
            Some(environment_id@),
        ));
    }
    patch
}

/// Adds a line made of a mark and a text.
fn push_line(patch: &mut String, mark: &str, line: &str, Ghost(lines): Ghost<Seq<Seq<char>>>)
    requires
        old(patch)@ == strings::terminated(lines),
    ensures
        final(patch)@ == strings::terminated(lines.push(mark@ + line@)),
{
    patch.push_str(mark);
    patch.push_str(line);
    patch.push('\n');
    proof {
        assert(lines.push(mark@ + line@).drop_last() =~= lines);
        assert(patch@ =~= strings::terminated(lines) + (mark@ + line@).push('\n'));
    }
}

/// The lines of a file: the pieces between its line feeds, without an empty one at the end.
pub open spec fn content_lines(content: Seq<char>) -> Seq<Seq<char>> {
    strings::without_trailing_empty(strings::split(content, '\n'))
}

/// The lines of a file.
pub fn normalized_lines(content: &str) -> (lines: Vec<String>)
    ensures
        strings::texts(lines@) == content_lines(content@),
{
    let mut lines = strings::split_at_char(content, '\n');
    let last: usize = lines.len() - 1;
    assert(strings::texts(lines@).last() == lines@[last as int]@);
    if strings::same_text(lines[last].as_str(), "") {
        proof {
            reveal_strlit("");
        }
        lines.pop();
        assert(strings::texts(lines@) =~= strings::split(content@, '\n').drop_last());
    } else {
        proof {
            reveal_strlit("");
            if lines@[last as int]@.len() == 0 {
                assert(lines@[last as int]@ =~= ""@);
            }
        }
    }
    lines
}

/// The lines of a file, each behind a mark and without carriage returns at its end.
pub open spec fn marked_lines(mark: Seq<char>, content: Seq<char>) -> Seq<Seq<char>> {
    content_lines(content).map_values(|line: Seq<char>| mark + strings::trim_end(line, '\r'))
}

/// Adds the lines of a file, each behind a mark.
fn push_marked_lines(
    patch: &mut String,
    mark: &str,
    lines: &Vec<String>,
    Ghost(before): Ghost<Seq<Seq<char>>>,
    Ghost(content): Ghost<Seq<char>>,
)
    requires
        old(patch)@ == strings::terminated(before),
        strings::texts(lines@) == content_lines(content),
    ensures
        final(patch)@ == strings::terminated(before + marked_lines(mark@, content)),
{
    let ghost marked = marked_lines(mark@, content);
    assert(strings::texts(lines@).len() == lines.len());
    let mut i: usize = 0;
    assert(before + marked.take(0) =~= before);
    while i < lines.len()
        invariant
            i <= lines.len(),
            strings::texts(lines@) == content_lines(content),
            strings::texts(lines@).len() == lines.len(),
            marked == marked_lines(mark@, content),
            patch@ == strings::terminated(before + marked.take(i as int)),
        decreases lines.len() - i,
    {
        let line = strings::trimmed_end(lines[i].as_str(), '\r');
        assert(strings::texts(lines@)[i as int] == lines@[i as int]@);
        push_line(patch, mark, line.as_str(), Ghost(before + marked.take(i as int)));
        i += 1;
        assert((before + marked.take(i - 1)).push(marked[i - 1]) =~= before + marked.take(
            i as int,
        ));
    }
    assert(marked.take(i as int) =~= marked);
}

/// The lines of a patch that creates a file: an empty file gets one empty line.
pub open spec fn add_patch_lines(
    path: Seq<char>,
    content: Seq<char>,
    environment_id: Option<Seq<char>>,
) -> Seq<Seq<char>> {
    header_lines(environment_id) + seq!["*** Add File: "@ + path] + if content_lines(content).len()
        == 0 {
        seq!["+"@]
    } else {
        marked_lines("+"@, content)
    } + seq!["*** End Patch"@]
}

/// The patch that creates a file with the given content.
pub fn create_add_patch(path: &str, content: &str, environment_id: Option<&str>) -> (patch: String)
    ensures
        patch@ == strings::join(
            add_patch_lines(path@, content@, strings::opt_str(environment_id)),
            '\n',
        ),
{
    let ghost header = header_lines(strings::opt_str(environment_id));
    let mut patch = patch_header(environment_id);
    push_line(&mut patch, "*** Add File: ", path, Ghost(header));
    let ghost opened = header.push("*** Add File: "@ + path@);
    let ghost mut whole = opened;
    let lines = normalized_lines(content);
    assert(strings::texts(lines@).len() == lines.len());
    if lines.len() == 0 {
        push_line(&mut patch, "+", "", Ghost(opened));
        proof {
            reveal_strlit("");
            assert("+"@ + ""@ =~= "+"@);
            whole = opened.push("+"@);
        }
    } else {
        push_marked_lines(&mut patch, "+", &lines, Ghost(opened), Ghost(content@));
        proof {
            whole = opened + marked_lines("+"@, content@);
        }
    }
    patch.push_str("*** End Patch");
    proof {
        strings::lemma_join_terminated(whole, "*** End Patch"@);
        assert(whole.push("*** End Patch"@) =~= add_patch_lines(
            path@,
            content@,
            strings::opt_str(environment_id),
        ));
    }
    patch
}

/// The lines of a patch that replaces the whole content of a file.
pub open spec fn update_patch_lines(
    path: Seq<char>,
    old_content: Seq<char>,
    new_content: Seq<char>,
    environment_id: Option<Seq<char>>,
) -> Seq<Seq<char>> {
    header_lines(environment_id) + seq!["*** Update File: "@ + path, "@@"@] + marked_lines(
        "-"@,
        old_content,
    ) + marked_lines("+"@, new_content) + seq!["*** End of File"@, "*** End Patch"@]
}

/// The patch that replaces the whole content of a file.
pub fn create_update_patch(
    path: &str,
    old_content: &str,
    new_content: &str,
    environment_id: Option<&str>,
) -> (patch: String)
    ensures
        patch@ == strings::join(
            update_patch_lines(path@, old_content@, new_content@, strings::opt_str(environment_id)),
            '\n',
        ),
{
    let ghost header = header_lines(strings::opt_str(environment_id));
    let mut patch = patch_header(environment_id);
    push_line(&mut patch, "*** Update File: ", path, Ghost(header));
    let ghost opened = header.push("*** Update File: "@ + path@);
    push_line(&mut patch, "@@", "", Ghost(opened));
    proof {
        reveal_strlit("");
        assert("@@"@ + ""@ =~= "@@"@);
    }
    let ghost begun = opened.push("@@"@);
    let old_lines = normalized_lines(old_content);
    push_marked_lines(&mut patch, "-", &old_lines, Ghost(begun), Ghost(old_content@));
    let ghost removed = begun + marked_lines("-"@, old_content@);
    let new_lines = normalized_lines(new_content);
    push_marked_lines(&mut patch, "+", &new_lines, Ghost(removed), Ghost(new_content@));
    let ghost added = removed + marked_lines("+"@, new_content@);
    push_line(&mut patch, "*** End of File", "", Ghost(added));
    proof {
        assert("*** End of File"@ + ""@ =~= "*** End of File"@);
    }
    patch.push_str("*** End Patch");
    proof {
        let whole = added.push("*** End of File"@);
        strings::lemma_join_terminated(whole, "*** End Patch"@);
        assert(whole.push("*** End Patch"@) =~= update_patch_lines(
            path@,
            old_content@,
            new_content@,
            strings::opt_str(environment_id),
        ));
    }
    patch
}

/// Trimming removes characters only.
proof fn lemma_trim_end_lacks(s: Seq<char>, c: char, wanted: char)
    requires
        !s.contains(wanted),
    ensures
        !strings::trim_end(s, c).contains(wanted),
    decreases s.len(),
{
    if s.len() > 0 && s.last() == c {
        assert(!s.drop_last().contains(wanted)) by {
            if s.drop_last().contains(wanted) {
                let i = choose|i: int| 0 <= i < s.drop_last().len() && s.drop_last()[i] == wanted;
                assert(s[i] == wanted);
            }
        }
        lemma_trim_end_lacks(s.drop_last(), c, wanted);
    }
}

/// Neither of two texts holds a character, and so the two together do not.
proof fn lemma_append_lacks(a: Seq<char>, b: Seq<char>, wanted: char)
    requires
        !a.contains(wanted),
        !b.contains(wanted),
    ensures
        !(a + b).contains(wanted),
{
    if (a + b).contains(wanted) {
        let i = choose|i: int| 0 <= i < (a + b).len() && (a + b)[i] == wanted;
        if i < a.len() {
            assert(a[i] == wanted);
        } else {
            assert(b[i - a.len()] == wanted);
        }
    }
}

/// No marked line holds a line feed.
proof fn lemma_marked_lines(mark: Seq<char>, content: Seq<char>)
    requires
        !mark.contains('\n'),
    ensures
        forall|i: int|
            0 <= i < marked_lines(mark, content).len() ==> !(#[trigger] marked_lines(
                mark,
                content,
            )[i]).contains('\n'),
{
    strings::law_split_join(content, '\n');
    assert forall|i: int| 0 <= i < marked_lines(mark, content).len() implies !(
    #[trigger] marked_lines(mark, content)[i]).contains('\n') by {
        let line = strings::split(content, '\n')[i];
        assert(content_lines(content)[i] == line);
        lemma_trim_end_lacks(line, '\r', '\n');
        lemma_append_lacks(mark, strings::trim_end(line, '\r'), '\n');
    }
}

/// The lines that open a patch hold no line feed where the environment's id holds none.
proof fn lemma_header_lines(environment_id: Option<Seq<char>>)
    requires
        environment_id matches Some(id) ==> !id.contains('\n'),
    ensures
        forall|i: int|
            0 <= i < header_lines(environment_id).len() ==> !(#[trigger] header_lines(
                environment_id,
            )[i]).contains('\n'),
{
    reveal_strlit("*** Begin Patch");
    reveal_strlit("*** Environment ID: ");
    if let Some(id) = environment_id {
        lemma_append_lacks("*** Environment ID: "@, id, '\n');
    }
}

/// A patch that creates a file reads back line by line as it was meant: its header, the file's path,
/// and every line of the content behind a plus sign.
pub proof fn law_add_patch_reads_back(
    path: Seq<char>,
    content: Seq<char>,
    environment_id: Option<Seq<char>>,
)
    requires
        path_fits_patch(path),
        environment_id matches Some(id) ==> !id.contains('\n'),
    ensures
        strings::split(strings::join(add_patch_lines(path, content, environment_id), '\n'), '\n')
            == add_patch_lines(path, content, environment_id),
{
    let lines = add_patch_lines(path, content, environment_id);
    let header = header_lines(environment_id);
    lemma_header_lines(environment_id);
    reveal_strlit("*** Add File: ");
    reveal_strlit("*** End Patch");
    reveal_strlit("+");
    lemma_append_lacks("*** Add File: "@, path, '\n');
    lemma_marked_lines("+"@, content);
    assert forall|i: int| 0 <= i < lines.len() implies !(#[trigger] lines[i]).contains('\n') by {
        if i < header.len() {
            assert(lines[i] == header[i]);
        } else if header.len() < i < lines.len() - 1 && content_lines(content).len() > 0 {
            assert(lines[i] == marked_lines("+"@, content)[i - header.len() - 1]);
        }
    }
    strings::law_join_split(lines, '\n');
}

/// A patch that replaces a file's content reads back line by line as it was meant: its header, the
/// file's path, every old line behind a minus sign and every new line behind a plus sign.
pub proof fn law_update_patch_reads_back(
    path: Seq<char>,
    old_content: Seq<char>,
    new_content: Seq<char>,
    environment_id: Option<Seq<char>>,
)
    requires
        path_fits_patch(path),
        environment_id matches Some(id) ==> !id.contains('\n'),
    ensures
        strings::split(
            strings::join(update_patch_lines(path, old_content, new_content, environment_id), '\n'),
            '\n',
        ) == update_patch_lines(path, old_content, new_content, environment_id),
{
    let lines = update_patch_lines(path, old_content, new_content, environment_id);
    let header = header_lines(environment_id);
    lemma_header_lines(environment_id);
    reveal_strlit("*** Update File: ");
    reveal_strlit("@@");
    reveal_strlit("*** End of File");
    reveal_strlit("*** End Patch");
    reveal_strlit("+");
    reveal_strlit("-");
    lemma_append_lacks("*** Update File: "@, path, '\n');
    lemma_marked_lines("-"@, old_content);
    lemma_marked_lines("+"@, new_content);
    let removed = marked_lines("-"@, old_content);
    let added = marked_lines("+"@, new_content);
    assert forall|i: int| 0 <= i < lines.len() implies !(#[trigger] lines[i]).contains('\n') by {
        let at = i - header.len() - 2;
        if i < header.len() {
            assert(lines[i] == header[i]);
        } else if 0 <= at < removed.len() {
            assert(lines[i] == removed[at]);
        } else if removed.len() <= at < removed.len() + added.len() {
            assert(lines[i] == added[at - removed.len()]);
        }
    }
    strings::law_join_split(lines, '\n');
}

/// A patch preserves the lines of a content without carriage returns: each stands behind the mark as
/// it is, and with a line feed after each the lines are the content again, with its last line ended.
pub proof fn law_patch_preserves_content(mark: Seq<char>, content: Seq<char>)
    requires
        content.len() > 0,
        !content.contains('\r'),
    ensures
        marked_lines(mark, content).len() == content_lines(content).len(),
        forall|i: int|
            0 <= i < content_lines(content).len() ==> #[trigger] marked_lines(mark, content)[i]
                == mark + content_lines(content)[i],
        strings::terminated(content_lines(content)) == if content.last() == '\n' {
            content
        } else {
            content.push('\n')
        },
{
    strings::law_split_join(content, '\n');
    let parts = strings::split(content, '\n');
    lemma_pieces_lack(content, '\n', '\r');
    assert forall|i: int| 0 <= i < content_lines(content).len() implies #[trigger] marked_lines(
        mark,
        content,
    )[i] == mark + content_lines(content)[i] by {
        let line = parts[i];
        assert(content_lines(content)[i] == line);
        assert(line.len() > 0 ==> line.contains(line.last()));
    }
    strings::lemma_join_terminated(parts.drop_last(), parts.last());
    assert(parts.drop_last().push(parts.last()) =~= parts);
    if content.last() == '\n' {
        assert(parts.last() == Seq::<char>::empty());
        assert(strings::terminated(parts.drop_last()) + parts.last() =~= strings::terminated(
            parts.drop_last(),
        ));
    } else {
        assert(strings::terminated(parts) =~= content.push('\n'));
    }
}

/// The pieces of a text hold no character that the text does not hold.
proof fn lemma_pieces_lack(s: Seq<char>, sep: char, wanted: char)
    requires
        !s.contains(wanted),
    ensures
        forall|i: int|
            0 <= i < strings::split(s, sep).len() ==> !(#[trigger] strings::split(
                s,
                sep,
            )[i]).contains(wanted),
    decreases s.len(),
{
    if s.len() > 0 {
        let before = strings::split(s.drop_last(), sep);
        assert(!s.drop_last().contains(wanted)) by {
            if s.drop_last().contains(wanted) {
                let i = choose|i: int| 0 <= i < s.drop_last().len() && s.drop_last()[i] == wanted;
                assert(s[i] == wanted);
            }
        }
        assert(s.contains(s.last()));
        lemma_pieces_lack(s.drop_last(), sep, wanted);
        strings::law_split_join(s.drop_last(), sep);
        assert forall|i: int| 0 <= i < strings::split(s, sep).len() implies !(
        #[trigger] strings::split(s, sep)[i]).contains(wanted) by {
            if s.last() != sep && i == before.len() - 1 {
                let piece = before.last().push(s.last());
                assert(!before[i].contains(wanted));
                if piece.contains(wanted) {
                    let k = choose|k: int| 0 <= k < piece.len() && piece[k] == wanted;
                    if k < before.last().len() {
                        assert(before.last()[k] == wanted);
                    }
                }
            } else if i < before.len() {
                assert(strings::split(s, sep)[i] == before[i]);
            }
        }
    }
}


/// Trimming ends at a character that is not trimmed.
proof fn lemma_trim_end_ends(s: Seq<char>, c: char)
    ensures
        strings::trim_end(s, c).len() > 0 ==> strings::trim_end(s, c).last() != c,
    decreases s.len(),
{
    if s.len() > 0 && s.last() == c {
        lemma_trim_end_ends(s.drop_last(), c);
    }
}

/// Replacing line ends of two characters by line feeds first makes no difference to the marked lines.
pub proof fn law_line_ends_make_no_difference(mark: Seq<char>, content: Seq<char>)
    ensures
        ({
            let replaced = strings::replace_all(content, strings::crlf(), seq!['\n']);
            &&& marked_lines(mark, replaced) == marked_lines(mark, content)
            &&& content_lines(replaced).len() == content_lines(content).len()
        }),
{
    let replaced = strings::replace_all(content, strings::crlf(), seq!['\n']);
    let parts = strings::split(content, '\n');
    strings::law_split_join(content, '\n');
    strings::law_line_ends_replaced(content);
    assert(content_lines(replaced).len() == content_lines(content).len());
    assert forall|i: int| 0 <= i < content_lines(content).len() implies strings::trim_end(
        #[trigger] content_lines(content)[i],
        '\r',
    ) == strings::trim_end(content_lines(replaced)[i], '\r') by {
        assert(content_lines(content)[i] == parts[i]);
        if i < parts.len() - 1 {
            assert(content_lines(replaced)[i] == strings::without_cr(parts[i]));
        }
    }
    assert(marked_lines(mark, replaced) =~= marked_lines(mark, content));
}

/// A file is created the same whether its lines end in line feeds alone or in carriage returns and line
/// feeds, and whether or not its last line is ended; and no line of it is handed on with a carriage
/// return at its end.
pub proof fn law_add_patch_normalizes(
    path: Seq<char>,
    content: Seq<char>,
    environment_id: Option<Seq<char>>,
)
    ensures
        add_patch_lines(
            path,
            strings::replace_all(content, strings::crlf(), seq!['\n']),
            environment_id,
        ) == add_patch_lines(path, content, environment_id),
        content.len() == 0 || content.last() != '\n' ==> add_patch_lines(
            path,
            content.push('\n'),
            environment_id,
        ) == add_patch_lines(path, content, environment_id),
        forall|i: int|
            0 <= i < marked_lines("+"@, content).len() ==> (#[trigger] marked_lines(
                "+"@,
                content,
            )[i]).last() != '\r',
{
    law_line_ends_make_no_difference("+"@, content);
    let plus = "+"@;
    reveal_strlit("+");
    strings::law_split_join(content, '\n');
    let parts = strings::split(content, '\n');
    if content.len() == 0 || content.last() != '\n' {
        let ended = content.push('\n');
        assert(ended.drop_last() =~= content);
        assert(strings::split(ended, '\n') == parts.push(Seq::empty()));
        assert(content_lines(ended) =~= parts);
        if content.len() == 0 {
            assert(content_lines(content) =~= Seq::empty());
            assert(parts =~= seq![Seq::<char>::empty()]);
            assert(strings::trim_end(Seq::<char>::empty(), '\r') =~= Seq::empty());
            assert(plus + Seq::<char>::empty() =~= plus);
            assert(marked_lines(plus, ended) =~= seq![plus]);
        } else {
            assert(parts.last().len() > 0);
            assert(content_lines(content) == parts);
        }
    }
    assert forall|i: int| 0 <= i < marked_lines(plus, content).len() implies (
    #[trigger] marked_lines(plus, content)[i]).last() != '\r' by {
        lemma_trim_end_ends(content_lines(content)[i], '\r');
    }
}

} // verus!
