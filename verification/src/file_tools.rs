//! The tools that read, create and update files.
//!
//! A call of a tool alternates between decisions and work that is done elsewhere: parsing the
//! arguments, choosing the environment, resolving the path, reaching the file, applying a patch. Each
//! handler's `handle` takes a call on by one event and says what is to be done next.

use vstd::prelude::*;

use crate::patch_text::{self, FunctionCallError};
use crate::strings;
use crate::tool_spec::{self, JsonSchema, Properties, SchemaKind, SchemaView, ToolSpec};

verus! {

/// The most lines that one read returns.
pub const MAX_READ_LINES: usize = 2_000;

/// Reads text files.
#[derive(Clone, Copy, Debug)]
pub struct ReadFileHandler {
    pub include_environment_id: bool,
}

/// Creates text files.
#[derive(Clone, Copy, Debug)]
pub struct WriteFileHandler {
    pub include_environment_id: bool,
}

/// Updates text files.
#[derive(Clone, Copy, Debug)]
pub struct UpdateFileHandler {
    pub include_environment_id: bool,
}

/// What a tool is called with.
#[derive(Debug)]
pub enum ToolPayload {
    /// The arguments of a function call, as JSON.
    Function(String),
    /// Free-form input.
    Custom(String),
    Other,
}

/// The arguments of a read.
#[derive(Debug)]
pub struct ReadFileArgs {
    pub path: String,
    pub start_line: Option<usize>,
    pub end_line: Option<usize>,
    pub environment_id: Option<String>,
}

/// The arguments of a write.
#[derive(Debug)]
pub struct WriteFileArgs {
    pub path: String,
    pub content: String,
    pub environment_id: Option<String>,
}

/// The arguments of an update.
#[derive(Debug)]
pub struct UpdateFileArgs {
    pub path: String,
    pub old_text: String,
    pub new_text: String,
    pub replace_all: bool,
    pub environment_id: Option<String>,
}

/// Why a path could not be resolved, and against which directory.
#[derive(Debug)]
pub struct PathError {
    pub cwd: String,
    pub message: String,
}

/// What there is at a path.
#[derive(Debug)]
pub enum Inspection {
    Exists,
    NotFound,
    Failed(String),
}

/// What a tool answers.
#[derive(Debug)]
pub struct FunctionToolOutput {
    pub text: String,
    pub success: Option<bool>,
}

/// What a tool answers.
pub struct OutputView {
    pub text: Seq<char>,
    pub success: Option<bool>,
}

impl View for FunctionToolOutput {
    type V = OutputView;

    open spec fn view(&self) -> OutputView {
        OutputView { text: self.text@, success: self.success }
    }
}

/// How far a call has come.
#[derive(Debug)]
pub enum ToolCall<A> {
    /// Nothing has happened yet.
    Start,
    /// The arguments are being parsed.
    Parsing,
    /// The environment is being chosen.
    Choosing(A),
    /// The path is being resolved.
    Locating(A),
    /// The file at the resolved path is being reached.
    Reaching(A, String),
    /// The call has been answered, or handed on for good.
    Done,
}

/// What has come of the work done elsewhere.
#[derive(Debug)]
pub enum ToolEvent<A> {
    Invoked(ToolPayload),
    Parsed(Result<A, FunctionCallError>),
    /// Whether there is an environment to work in.
    Chosen(Result<bool, FunctionCallError>),
    /// The path in the environment's own notation.
    Located(Result<String, PathError>),
    FileRead(Result<String, String>),
    Inspected(Inspection),
}

/// What is to be done next.
#[derive(Debug)]
pub enum ToolAction {
    /// Nothing: the event does not belong here.
    Nothing,
    ParseArguments(String),
    ChooseEnvironment(Option<String>),
    /// A path is to be resolved in the environment of an id, or in the primary one.
    ResolvePath(Option<String>, String),
    /// The file at a path in an environment is to be read.
    ReadFile(Option<String>, String),
    /// It is to be found out whether anything stands at a path in an environment.
    Inspect(Option<String>, String),
    /// The patch is to be applied, and what comes of it is the answer.
    ApplyPatch(String, bool),
    Answer(Result<FunctionToolOutput, FunctionCallError>),
}

/// What is to be done next.
pub enum ActionView {
    Nothing,
    ParseArguments(Seq<char>),
    ChooseEnvironment(Option<Seq<char>>),
    ResolvePath(Option<Seq<char>>, Seq<char>),
    ReadFile(Option<Seq<char>>, Seq<char>),
    Inspect(Option<Seq<char>>, Seq<char>),
    ApplyPatch(Seq<char>, bool),
    Answer(Result<OutputView, Seq<char>>),
}

impl View for ToolAction {
    type V = ActionView;

    open spec fn view(&self) -> ActionView {
        match *self {
            ToolAction::Nothing => ActionView::Nothing,
            ToolAction::ParseArguments(arguments) => ActionView::ParseArguments(arguments@),
            ToolAction::ChooseEnvironment(id) => ActionView::ChooseEnvironment(
                strings::opt_text(id),
            ),
            ToolAction::ResolvePath(id, path) => ActionView::ResolvePath(
                strings::opt_text(id),
                path@,
            ),
            ToolAction::ReadFile(id, path) => ActionView::ReadFile(strings::opt_text(id), path@),
            ToolAction::Inspect(id, path) => ActionView::Inspect(strings::opt_text(id), path@),
            ToolAction::ApplyPatch(input, include_environment_id) => ActionView::ApplyPatch(
                input@,
                include_environment_id,
            ),
            ToolAction::Answer(Ok(output)) => ActionView::Answer(Ok(output@)),
            ToolAction::Answer(Err(error)) => ActionView::Answer(Err(error.message())),
        }
    }
}

/// The arguments of one of the tools.
pub trait ToolArguments: Sized {
    /// The name of the tool.
    spec fn tool() -> Seq<char>;

    /// The tool reads the file first; any other asks what there is at the path.
    spec fn reads_first() -> bool;

    /// The path of the file.
    spec fn target(&self) -> Seq<char>;

    /// The id of the environment, if one is asked for.
    spec fn environment(&self) -> Option<Seq<char>>;

    /// Why the arguments are refused, if they are.
    spec fn refusal(&self) -> Option<Seq<char>>;

    /// What the model is told when the path cannot be resolved.
    spec fn unresolved(&self, cwd: Seq<char>, message: Seq<char>) -> Seq<char>;

    fn tool_name() -> (name: String)
        ensures
            name@ == Self::tool(),
    ;

    fn is_reader() -> (r: bool)
        ensures
            r == Self::reads_first(),
    ;

    fn path(&self) -> (path: String)
        ensures
            path@ == self.target(),
    ;

    fn environment_id(&self) -> (id: Option<String>)
        ensures
            strings::opt_text(id) == self.environment(),
    ;

    fn check(&self) -> (r: Result<(), FunctionCallError>)
        ensures
            match r {
                Ok(_) => self.refusal() is None,
                Err(error) => self.refusal() == Some(error.message()),
            },
    ;

    fn unresolved_message(&self, error: &PathError) -> (text: String)
        ensures
            text@ == self.unresolved(error.cwd@, error.message@),
    ;
}

impl<A: ToolArguments> ToolCall<A> {
    /// Arguments that are refused go no further.
    pub open spec fn well_formed(self) -> bool {
        match self {
            ToolCall::Choosing(args) => args.refusal() is None,
            ToolCall::Locating(args) => args.refusal() is None,
            ToolCall::Reaching(args, _) => args.refusal() is None,
            _ => true,
        }
    }
}

/// The call ends with an error.
pub open spec fn failed<A>(message: Seq<char>) -> (ToolCall<A>, ActionView) {
    (ToolCall::Done, ActionView::Answer(Err(message)))
}

/// How a call comes from its payload to a file: the arguments are parsed and checked, the environment
/// is chosen, the path resolved.
pub open spec fn prepared<A: ToolArguments>(call: ToolCall<A>, event: ToolEvent<A>) -> (
    ToolCall<A>,
    ActionView,
) {
    match (call, event) {
        (ToolCall::Start, ToolEvent::Invoked(ToolPayload::Function(arguments))) => (
            ToolCall::Parsing,
            ActionView::ParseArguments(arguments@),
        ),
        (ToolCall::Start, ToolEvent::Invoked(_)) => failed(
            A::tool() + " handler received unsupported payload"@,
        ),
        (ToolCall::Parsing, ToolEvent::Parsed(Ok(args))) => match args.refusal() {
            Some(message) => failed(message),
            None => (ToolCall::Choosing(args), ActionView::ChooseEnvironment(args.environment())),
        },
        (ToolCall::Parsing, ToolEvent::Parsed(Err(error))) => failed(error.message()),
        (ToolCall::Choosing(args), ToolEvent::Chosen(Ok(true))) => (
            ToolCall::Locating(args),
            ActionView::ResolvePath(args.environment(), args.target()),
        ),
        (ToolCall::Choosing(args), ToolEvent::Chosen(Ok(false))) => failed(
            A::tool() + " is unavailable in this session"@,
        ),
        (ToolCall::Choosing(args), ToolEvent::Chosen(Err(error))) => failed(error.message()),
        (ToolCall::Locating(args), ToolEvent::Located(Ok(path))) => (
            ToolCall::Reaching(args, path),
            if A::reads_first() {
                ActionView::ReadFile(args.environment(), path@)
            } else {
                ActionView::Inspect(args.environment(), path@)
            },
        ),
        (ToolCall::Locating(args), ToolEvent::Located(Err(error))) => failed(
            args.unresolved(error.cwd@, error.message@),
        ),
        _ => (call, ActionView::Nothing),
    }
}

/// The answer that a call ends with an error.
fn failure(message: String) -> (action: ToolAction)
    ensures
        action@ == ActionView::Answer(Err(message@)),
{
    ToolAction::Answer(Err(FunctionCallError::RespondToModel(message)))
}

/// One text after another.
fn appended(a: String, b: &str) -> (r: String)
    ensures
        r@ == a@ + b@,
{
    let mut r = a;
    r.push_str(b);
    r
}

/// Takes a call on from its payload to a file.
fn prepare<A: ToolArguments>(call: ToolCall<A>, event: ToolEvent<A>) -> (r: (
    ToolCall<A>,
    ToolAction,
))
    requires
        call.well_formed(),
    ensures
        r.0.well_formed(),
        (r.0, r.1@) == prepared(call, event),
{
    match call {
        ToolCall::Start => match event {
            ToolEvent::Invoked(ToolPayload::Function(arguments)) => (
                ToolCall::Parsing,
                ToolAction::ParseArguments(arguments),
            ),
            ToolEvent::Invoked(_) => (
                ToolCall::Done,
                failure(appended(A::tool_name(), " handler received unsupported payload")),
            ),
            _ => (ToolCall::Start, ToolAction::Nothing),
        },
        ToolCall::Parsing => match event {
            ToolEvent::Parsed(Ok(args)) => match args.check() {
                Ok(_) => {
                    let id = args.environment_id();
                    (ToolCall::Choosing(args), ToolAction::ChooseEnvironment(id))
                },
                Err(error) => (ToolCall::Done, ToolAction::Answer(Err(error))),
            },
            ToolEvent::Parsed(Err(error)) => (ToolCall::Done, ToolAction::Answer(Err(error))),
            _ => (ToolCall::Parsing, ToolAction::Nothing),
        },
        ToolCall::Choosing(args) => match event {
            ToolEvent::Chosen(Ok(true)) => {
                let id = args.environment_id();
                let path = args.path();
                (ToolCall::Locating(args), ToolAction::ResolvePath(id, path))
            },
            ToolEvent::Chosen(Ok(false)) => (
                ToolCall::Done,
                failure(appended(A::tool_name(), " is unavailable in this session")),
            ),
            ToolEvent::Chosen(Err(error)) => (ToolCall::Done, ToolAction::Answer(Err(error))),
            _ => (ToolCall::Choosing(args), ToolAction::Nothing),
        },
        ToolCall::Locating(args) => match event {
            ToolEvent::Located(Ok(path)) => {
                let id = args.environment_id();
                let action = if A::is_reader() {
                    ToolAction::ReadFile(id, path.clone())
                } else {
                    ToolAction::Inspect(id, path.clone())
                };
                (ToolCall::Reaching(args, path), action)
            },
            ToolEvent::Located(Err(error)) => {
                let message = args.unresolved_message(&error);
                (ToolCall::Done, failure(message))
            },
            _ => (ToolCall::Locating(args), ToolAction::Nothing),
        },
        ToolCall::Reaching(args, path) => (ToolCall::Reaching(args, path), ToolAction::Nothing),
        ToolCall::Done => (ToolCall::Done, ToolAction::Nothing),
    }
}

/// A path between backquotes, after some words and before others.
pub open spec fn quoted(before: Seq<char>, path: Seq<char>, after: Seq<char>) -> Seq<char> {
    before + "`"@ + path + "`"@ + after
}

/// A path between backquotes, after some words and before others.
fn quote(before: &str, path: &str, after: &str) -> (text: String)
    ensures
        text@ == quoted(before@, path@, after@),
{
    let mut text = before.to_owned();
    text.push_str("`");
    text.push_str(path);
    text.push_str("`");
    text.push_str(after);
    text
}

/// The first line that a read asks for.
pub open spec fn first_line(args: ReadFileArgs) -> usize {
    match args.start_line {
        Some(start) => start,
        None => 1,
    }
}

impl ToolArguments for ReadFileArgs {
    open spec fn tool() -> Seq<char> {
        "read_file"@
    }

    open spec fn reads_first() -> bool {
        true
    }

    open spec fn target(&self) -> Seq<char> {
        self.path@
    }

    open spec fn environment(&self) -> Option<Seq<char>> {
        strings::opt_text(self.environment_id)
    }

    open spec fn refusal(&self) -> Option<Seq<char>> {
        if first_line(*self) == 0 {
            Some("start_line must be at least 1"@)
        } else if self.end_line matches Some(end) && end < first_line(*self) {
            Some("end_line must be greater than or equal to start_line"@)
        } else {
            None
        }
    }

    open spec fn unresolved(&self, cwd: Seq<char>, message: Seq<char>) -> Seq<char> {
        quoted("unable to resolve "@, self.path@, " against "@) + quoted(
            Seq::empty(),
            cwd,
            ": "@ + message,
        )
    }

    fn tool_name() -> (name: String) {
        "read_file".to_owned()
    }

    fn is_reader() -> (r: bool) {
        true
    }

    fn path(&self) -> (path: String) {
        self.path.clone()
    }

    fn environment_id(&self) -> (id: Option<String>) {
        strings::copy_optional(&self.environment_id)
    }

    fn check(&self) -> (r: Result<(), FunctionCallError>) {
        let start: usize = match self.start_line {
            Some(start) => start,
            None => 1,
        };
        if start == 0 {
            return Err(
                FunctionCallError::RespondToModel("start_line must be at least 1".to_owned()),
            );
        }
        if let Some(end) = self.end_line {
            if end < start {
                return Err(
                    FunctionCallError::RespondToModel(
                        "end_line must be greater than or equal to start_line".to_owned(),
                    ),
                );
            }
        }
        Ok(())
    }

    fn unresolved_message(&self, error: &PathError) -> (text: String) {
        let text = quote("unable to resolve ", self.path.as_str(), " against ");
        let reason = appended(": ".to_owned(), error.message.as_str());
        let rest = quote("", error.cwd.as_str(), reason.as_str());
        proof {
            reveal_strlit("");
            assert(""@ =~= Seq::<char>::empty());
        }
        appended(text, rest.as_str())
    }
}

impl ToolArguments for WriteFileArgs {
    open spec fn tool() -> Seq<char> {
        "write_file"@
    }

    open spec fn reads_first() -> bool {
        false
    }

    open spec fn target(&self) -> Seq<char> {
        self.path@
    }

    open spec fn environment(&self) -> Option<Seq<char>> {
        strings::opt_text(self.environment_id)
    }

    open spec fn refusal(&self) -> Option<Seq<char>> {
        if patch_text::path_fits_patch(self.path@) {
            None
        } else {
            Some("path must be non-empty and contain no newlines"@)
        }
    }

    open spec fn unresolved(&self, cwd: Seq<char>, message: Seq<char>) -> Seq<char> {
        quoted("unable to resolve "@, self.path@, ": "@ + message)
    }

    fn tool_name() -> (name: String) {
        "write_file".to_owned()
    }

    fn is_reader() -> (r: bool) {
        false
    }

    fn path(&self) -> (path: String) {
        self.path.clone()
    }

    fn environment_id(&self) -> (id: Option<String>) {
        strings::copy_optional(&self.environment_id)
    }

    fn check(&self) -> (r: Result<(), FunctionCallError>) {
        patch_text::validate_patch_path(self.path.as_str())
    }

    fn unresolved_message(&self, error: &PathError) -> (text: String) {
        let reason = appended(": ".to_owned(), error.message.as_str());
        quote("unable to resolve ", self.path.as_str(), reason.as_str())
    }
}

impl ToolArguments for UpdateFileArgs {
    open spec fn tool() -> Seq<char> {
        "update_file"@
    }

    open spec fn reads_first() -> bool {
        true
    }

    open spec fn target(&self) -> Seq<char> {
        self.path@
    }

    open spec fn environment(&self) -> Option<Seq<char>> {
        strings::opt_text(self.environment_id)
    }

    open spec fn refusal(&self) -> Option<Seq<char>> {
        if !patch_text::path_fits_patch(self.path@) {
            Some("path must be non-empty and contain no newlines"@)
        } else if self.old_text@.len() == 0 {
            Some("old_text must not be empty"@)
        } else {
            None
        }
    }

    open spec fn unresolved(&self, cwd: Seq<char>, message: Seq<char>) -> Seq<char> {
        quoted("unable to resolve "@, self.path@, ": "@ + message)
    }

    fn tool_name() -> (name: String) {
        "update_file".to_owned()
    }

    fn is_reader() -> (r: bool) {
        true
    }

    fn path(&self) -> (path: String) {
        self.path.clone()
    }

    fn environment_id(&self) -> (id: Option<String>) {
        strings::copy_optional(&self.environment_id)
    }

    fn check(&self) -> (r: Result<(), FunctionCallError>) {
        match patch_text::validate_patch_path(self.path.as_str()) {
            Ok(_) => {},
            Err(error) => {
                return Err(error);
            },
        }
        proof {
            reveal_strlit("");
            assert(self.old_text@.len() == 0 ==> self.old_text@ =~= ""@);
        }
        if strings::same_text(self.old_text.as_str(), "") {
            return Err(
                FunctionCallError::RespondToModel("old_text must not be empty".to_owned()),
            );
        }
        Ok(())
    }

    fn unresolved_message(&self, error: &PathError) -> (text: String) {
        let reason = appended(": ".to_owned(), error.message.as_str());
        quote("unable to resolve ", self.path.as_str(), reason.as_str())
    }
}


/// The last line that a read asks for, as far as the file goes.
pub open spec fn requested_end(end_line: Option<usize>, count: int) -> int {
    match end_line {
        Some(end) => crate::geometry::lesser(end as int, count),
        None => count,
    }
}

/// The last line that a read returns.
pub open spec fn capped_end(start: int, end_line: Option<usize>, count: int) -> int {
    crate::geometry::lesser(requested_end(end_line, count), start + MAX_READ_LINES - 1)
}

/// A line behind its number.
pub open spec fn numbered_line(number: int, line: Seq<char>) -> Seq<char> {
    strings::right_aligned(strings::decimal(number as nat), 6) + "\t"@ + line
}

/// The lines from one to another, each behind its number; both are counted from one.
pub open spec fn numbered_lines(lines: Seq<Seq<char>>, start: int, end: int) -> Seq<Seq<char>> {
    Seq::new(
        if end >= start {
            (end - start + 1) as nat
        } else {
            0
        },
        |i: int| numbered_line(start + i, lines[start + i - 1]),
    )
}

/// The line above those of a file.
pub open spec fn read_heading(path: Seq<char>, start: int, end: int, count: int) -> Seq<char> {
    path + " — lines "@ + strings::decimal(start as nat) + "-"@ + strings::decimal(end as nat)
        + " of "@ + strings::decimal(count as nat)
}

/// What stands below the lines of a file when there are more that were asked for.
pub open spec fn read_notice(end: int, requested: int) -> Seq<char> {
    if end < requested {
        "[truncated at "@ + strings::decimal(MAX_READ_LINES as nat) + " lines; continue from line "@
            + strings::decimal((end + 1) as nat) + "]"@
    } else {
        Seq::empty()
    }
}

/// What a read answers: the lines asked for behind their numbers, under a heading and up to the cap;
/// or an error where the first line lies behind the end of the file.
pub open spec fn read_answer(
    start: int,
    end_line: Option<usize>,
    path: Seq<char>,
    contents: Seq<char>,
) -> Result<OutputView, Seq<char>> {
    let lines = strings::text_lines(contents);
    let count = lines.len() as int;
    let end = capped_end(start, end_line, count);
    if count == 0 && start != 1 {
        Err("start_line is past EOF (empty file)"@)
    } else if count == 0 {
        Ok(OutputView { text: path + " — empty file"@, success: Some(true) })
    } else if start > count {
        Err(
            "start_line "@ + strings::decimal(start as nat) + " is past EOF ("@ + strings::decimal(
                count as nat,
            ) + " lines)"@,
        )
    } else {
        Ok(
            OutputView {
                text: strings::terminated(
                    seq![read_heading(path, start, end, count)] + numbered_lines(lines, start, end),
                ) + read_notice(end, requested_end(end_line, count)),
                success: Some(true),
            },
        )
    }
}

/// What the answer to a read says.
pub open spec fn answer_of(r: Result<FunctionToolOutput, FunctionCallError>) -> Result<
    OutputView,
    Seq<char>,
> {
    match r {
        Ok(output) => Ok(output@),
        Err(error) => Err(error.message()),
    }
}

/// Answers a read from the contents of the file.
pub fn answer_read(
    start: usize,
    end_line: Option<usize>,
    path: &str,
    contents: &str,
) -> (r: Result<FunctionToolOutput, FunctionCallError>)
    requires
        start > 0,
        end_line matches Some(end) ==> end >= start,
    ensures
        answer_of(r) == read_answer(start as int, end_line, path@, contents@),
{
    let lines = strings::lines_of(contents);
    let ghost texts = strings::texts(lines@);
    assert(texts.len() == lines.len());
    let count: usize = lines.len();
    if count == 0 {
        if start != 1 {
            return Err(
                FunctionCallError::RespondToModel("start_line is past EOF (empty file)".to_owned()),
            );
        }
        let text = appended(path.to_owned(), " — empty file");
        return Ok(FunctionToolOutput { text, success: Some(true) });
    }
    if start > count {
        let mut message = "start_line ".to_owned();
        strings::push_decimal(&mut message, start);
        message.push_str(" is past EOF (");
        strings::push_decimal(&mut message, count);
        message.push_str(" lines)");
        return Err(FunctionCallError::RespondToModel(message));
    }
    let mut requested: usize = count;
    if let Some(end) = end_line {
        if end < requested {
            requested = end;
        }
    }
    let mut end: usize = start.saturating_add(MAX_READ_LINES - 1);
    if requested < end {
        end = requested;
    }
    assert(end == capped_end(start as int, end_line, count as int));
    let mut output = path.to_owned();
    output.push_str(" — lines ");
    strings::push_decimal(&mut output, start);
    output.push_str("-");
    strings::push_decimal(&mut output, end);
    output.push_str(" of ");
    strings::push_decimal(&mut output, count);
    let ghost heading = read_heading(path@, start as int, end as int, count as int);
    assert(output@ =~= heading);
    output.push('\n');
    let ghost shown = seq![heading] + numbered_lines(texts, start as int, end as int);
    proof {
        let first = shown.take(1);
        assert(first =~= seq![heading]);
        assert(first.drop_last() =~= Seq::<Seq<char>>::empty());
        assert(strings::terminated(first.drop_last()) =~= Seq::<char>::empty());
        assert(output@ =~= strings::terminated(first));
    }
    let mut index: usize = start - 1;
    while index < end
        invariant
            texts == strings::texts(lines@),
            texts.len() == lines.len(),
            0 < start,
            start - 1 <= index <= end <= lines.len(),
            shown == seq![heading] + numbered_lines(texts, start as int, end as int),
            output@ == strings::terminated(shown.take(index - start + 2)),
        decreases end - index,
    {
        let ghost before = output@;
        strings::push_right_aligned(&mut output, index + 1, 6);
        output.push_str("\t");
        output.push_str(lines[index].as_str());
        output.push('\n');
        proof {
            let upto = shown.take(index - start + 3);
            let line = numbered_line(index + 1, texts[index as int]);
            assert(texts[index as int] == lines@[index as int]@);
            assert(upto.last() == line);
            assert(upto.drop_last() =~= shown.take(index - start + 2));
            assert(output@ =~= before + line.push('\n'));
        }
        index += 1;
    }
    assert(shown.take(index - start + 2) =~= shown);
    let ghost listed = output@;
    if end < requested {
        output.push_str("[truncated at ");
        strings::push_decimal(&mut output, MAX_READ_LINES);
        output.push_str(" lines; continue from line ");
        strings::push_decimal(&mut output, end + 1);
        output.push_str("]");
    }
    assert(output@ =~= listed + read_notice(end as int, requested as int));
    Ok(FunctionToolOutput { text: output, success: Some(true) })
}

impl ReadFileHandler {
    /// The handler; whether an environment can be named is given.
    pub fn new(include_environment_id: bool) -> (handler: ReadFileHandler)
        ensures
            handler.include_environment_id == include_environment_id,
    {
        ReadFileHandler { include_environment_id }
    }

    /// The name of the tool.
    pub fn tool_name(&self) -> (name: String)
        ensures
            name@ == "read_file"@,
    {
        "read_file".to_owned()
    }

    /// The parameters of the tool.
    pub open spec fn properties(self) -> Map<Seq<char>, SchemaView> {
        tool_spec::with_environment(
            Map::<Seq<char>, SchemaView>::empty().insert(
                "path"@,
                tool_spec::described(
                    SchemaKind::Text,
                    "Filesystem path, resolved relative to the environment working directory."@,
                ),
            ).insert(
                "start_line"@,
                tool_spec::described(
                    SchemaKind::Integer,
                    "First line to return, using one-based inclusive numbering; defaults to 1."@,
                ),
            ).insert(
                "end_line"@,
                tool_spec::described(
                    SchemaKind::Integer,
                    "Last line to return, using one-based inclusive numbering; omit for EOF."@,
                ),
            ),
            self.include_environment_id,
        )
    }

    /// How the tool is described.
    pub fn tool_spec(&self) -> (tool: ToolSpec)
        ensures
            tool.describes(
                "read_file"@,
                "Read a UTF-8 text file with stable one-based line numbers. Use start_line and end_line for precise ranged reads; responses are capped at 2,000 lines."@,
                self.properties(),
                seq!["path"@],
            ),
    {
        let mut properties = Properties::new();
        properties.insert(
            "path".to_owned(),
            JsonSchema::string(
                Some(
                    "Filesystem path, resolved relative to the environment working directory.".to_owned(),
                ),
            ),
        );
        properties.insert(
            "start_line".to_owned(),
            JsonSchema::integer(
                Some(
                    "First line to return, using one-based inclusive numbering; defaults to 1.".to_owned(),
                ),
            ),
        );
        properties.insert(
            "end_line".to_owned(),
            JsonSchema::integer(
                Some(
                    "Last line to return, using one-based inclusive numbering; omit for EOF.".to_owned(),
                ),
            ),
        );
        tool_spec::environment_property(&mut properties, self.include_environment_id);
        let mut required: Vec<String> = Vec::new();
        required.push("path".to_owned());
        assert(strings::texts(required@) =~= seq!["path"@]);
        tool_spec::function_spec(
            "read_file",
            "Read a UTF-8 text file with stable one-based line numbers. Use start_line and end_line for precise ranged reads; responses are capped at 2,000 lines.",
            properties,
            required,
        )
    }

    /// Reads may run side by side.
    pub fn supports_parallel_tool_calls(&self) -> (r: bool)
        ensures
            r,
    {
        true
    }

    /// How a call goes on at an event: once the path is resolved, the file is read, and its lines are
    /// the answer.
    pub open spec fn handled(call: ToolCall<ReadFileArgs>, event: ToolEvent<ReadFileArgs>) -> (
        ToolCall<ReadFileArgs>,
        ActionView,
    ) {
        match (call, event) {
            (ToolCall::Reaching(args, path), ToolEvent::FileRead(Ok(contents))) => (
                ToolCall::Done,
                ActionView::Answer(
                    read_answer(first_line(args) as int, args.end_line, path@, contents@),
                ),
            ),
            (ToolCall::Reaching(args, path), ToolEvent::FileRead(Err(message))) => failed(
                quoted("unable to read "@, path@, ": "@ + message@),
            ),
            _ => prepared(call, event),
        }
    }

    /// Takes a call on by one event, and says what is to be done next.
    pub fn handle(&self, call: ToolCall<ReadFileArgs>, event: ToolEvent<ReadFileArgs>) -> (r: (
        ToolCall<ReadFileArgs>,
        ToolAction,
    ))
        requires
            call.well_formed(),
        ensures
            r.0.well_formed(),
            (r.0, r.1@) == Self::handled(call, event),
    {
        match call {
            ToolCall::Reaching(args, path) => match event {
                ToolEvent::FileRead(Ok(contents)) => {
                    let start: usize = match args.start_line {
                        Some(start) => start,
                        None => 1,
                    };
                    let answer = answer_read(
                        start,
                        args.end_line,
                        path.as_str(),
                        contents.as_str(),
                    );
                    (ToolCall::Done, ToolAction::Answer(answer))
                },
                ToolEvent::FileRead(Err(message)) => {
                    let reason = appended(": ".to_owned(), message.as_str());
                    let text = quote("unable to read ", path.as_str(), reason.as_str());
                    (ToolCall::Done, failure(text))
                },
                _ => (ToolCall::Reaching(args, path), ToolAction::Nothing),
            },
            _ => prepare(call, event),
        }
    }
}

impl WriteFileHandler {
    /// The handler; whether an environment can be named is given.
    pub fn new(include_environment_id: bool) -> (handler: WriteFileHandler)
        ensures
            handler.include_environment_id == include_environment_id,
    {
        WriteFileHandler { include_environment_id }
    }

    /// The name of the tool.
    pub fn tool_name(&self) -> (name: String)
        ensures
            name@ == "write_file"@,
    {
        "write_file".to_owned()
    }

    /// The parameters of the tool.
    pub open spec fn properties(self) -> Map<Seq<char>, SchemaView> {
        tool_spec::with_environment(
            Map::<Seq<char>, SchemaView>::empty().insert(
                "path"@,
                tool_spec::described(SchemaKind::Text, "Path for the new text file."@),
            ).insert(
                "content"@,
                tool_spec::described(SchemaKind::Text, "Complete UTF-8 file content."@),
            ),
            self.include_environment_id,
        )
    }

    /// How the tool is described.
    pub fn tool_spec(&self) -> (tool: ToolSpec)
        ensures
            tool.describes(
                "write_file"@,
                "Create a new UTF-8 text file through Codex's patch and approval pipeline. Fails if the file already exists; use update_file or apply_patch for existing files."@,
                self.properties(),
                seq!["path"@, "content"@],
            ),
    {
        let mut properties = Properties::new();
        properties.insert(
            "path".to_owned(),
            JsonSchema::string(Some("Path for the new text file.".to_owned())),
        );
        properties.insert(
            "content".to_owned(),
            JsonSchema::string(Some("Complete UTF-8 file content.".to_owned())),
        );
        tool_spec::environment_property(&mut properties, self.include_environment_id);
        let mut required: Vec<String> = Vec::new();
        required.push("path".to_owned());
        required.push("content".to_owned());
        assert(strings::texts(required@) =~= seq!["path"@, "content"@]);
        tool_spec::function_spec(
            "write_file",
            "Create a new UTF-8 text file through Codex's patch and approval pipeline. Fails if the file already exists; use update_file or apply_patch for existing files.",
            properties,
            required,
        )
    }

    /// How a call goes on at an event: where there is nothing at the resolved path, the patch that
    /// creates the file is to be applied.
    pub open spec fn handled(
        self,
        call: ToolCall<WriteFileArgs>,
        event: ToolEvent<WriteFileArgs>,
    ) -> (ToolCall<WriteFileArgs>, ActionView) {
        match (call, event) {
            (ToolCall::Reaching(args, path), ToolEvent::Inspected(Inspection::NotFound)) => (
                ToolCall::Done,
                ActionView::ApplyPatch(
                    strings::join(
                        patch_text::add_patch_lines(
                            args.path@,
                            args.content@,
                            strings::opt_text(args.environment_id),
                        ),
                        '\n',
                    ),
                    self.include_environment_id,
                ),
            ),
            (ToolCall::Reaching(args, path), ToolEvent::Inspected(Inspection::Exists)) => failed(
                quoted(
                    Seq::empty(),
                    path@,
                    " already exists; use update_file or apply_patch"@,
                ),
            ),
            (
                ToolCall::Reaching(args, path),
                ToolEvent::Inspected(Inspection::Failed(message)),
            ) => failed(quoted("unable to inspect "@, path@, ": "@ + message@)),
            _ => prepared(call, event),
        }
    }

    /// Takes a call on by one event, and says what is to be done next.
    pub fn handle(&self, call: ToolCall<WriteFileArgs>, event: ToolEvent<WriteFileArgs>) -> (r: (
        ToolCall<WriteFileArgs>,
        ToolAction,
    ))
        requires
            call.well_formed(),
        ensures
            r.0.well_formed(),
            (r.0, r.1@) == self.handled(call, event),
    {
        match call {
            ToolCall::Reaching(args, path) => match event {
                ToolEvent::Inspected(Inspection::Exists) => {
                    let text = quote(
                        "",
                        path.as_str(),
                        " already exists; use update_file or apply_patch",
                    );
                    proof {
                        reveal_strlit("");
                        assert(""@ =~= Seq::<char>::empty());
                    }
                    (ToolCall::Done, failure(text))
                },
                ToolEvent::Inspected(Inspection::NotFound) => {
                    let patch = patch_text::create_add_patch(
                        args.path.as_str(),
                        args.content.as_str(),
                        as_slice(&args.environment_id),
                    );
                    (ToolCall::Done, ToolAction::ApplyPatch(patch, self.include_environment_id))
                },
                ToolEvent::Inspected(Inspection::Failed(message)) => {
                    let reason = appended(": ".to_owned(), message.as_str());
                    let text = quote("unable to inspect ", path.as_str(), reason.as_str());
                    (ToolCall::Done, failure(text))
                },
                _ => (ToolCall::Reaching(args, path), ToolAction::Nothing),
            },
            _ => prepare(call, event),
        }
    }
}

/// An optional string as an optional slice.
fn as_slice(s: &Option<String>) -> (r: Option<&str>)
    ensures
        strings::opt_str(r) == strings::opt_text(*s),
{
    match s {
        Some(s) => Some(s.as_str()),
        None => None,
    }
}

/// What an update makes of a file: every match replaced where all are to be, and else the only one;
/// an error where there is none, or more than one without leave to replace them all.
pub open spec fn updated_contents(args: UpdateFileArgs, contents: Seq<char>) -> Result<
    Seq<char>,
    Seq<char>,
> {
    let matches = strings::count_from(contents, args.old_text@, 0);
    if matches == 0 {
        Err("old_text was not found in the file"@)
    } else if matches > 1 && !args.replace_all {
        Err(
            "old_text matched "@ + strings::decimal(matches)
                + " times; provide more context or set replace_all"@,
        )
    } else if args.replace_all {
        Ok(strings::replace_all(contents, args.old_text@, args.new_text@))
    } else {
        Ok(strings::replace_first(contents, args.old_text@, args.new_text@))
    }
}

/// Makes the new contents of a file from the old ones.
pub fn update_contents(args: &UpdateFileArgs, contents: &str) -> (r: Result<
    String,
    FunctionCallError,
>)
    requires
        args.old_text@.len() > 0,
    ensures
        match r {
            Ok(text) => updated_contents(*args, contents@) == Ok::<Seq<char>, Seq<char>>(text@),
            Err(error) => updated_contents(*args, contents@) == Err::<Seq<char>, Seq<char>>(
                error.message(),
            ),
        },
{
    let matches: usize = strings::count_matches(contents, args.old_text.as_str());
    if matches == 0 {
        return Err(
            FunctionCallError::RespondToModel("old_text was not found in the file".to_owned()),
        );
    }
    if matches > 1 && !args.replace_all {
        let mut message = "old_text matched ".to_owned();
        strings::push_decimal(&mut message, matches);
        message.push_str(" times; provide more context or set replace_all");
        return Err(FunctionCallError::RespondToModel(message));
    }
    if args.replace_all {
        Ok(strings::replaced_all(contents, args.old_text.as_str(), args.new_text.as_str()))
    } else {
        Ok(strings::replaced_first(contents, args.old_text.as_str(), args.new_text.as_str()))
    }
}

impl UpdateFileHandler {
    /// The handler; whether an environment can be named is given.
    pub fn new(include_environment_id: bool) -> (handler: UpdateFileHandler)
        ensures
            handler.include_environment_id == include_environment_id,
    {
        UpdateFileHandler { include_environment_id }
    }

    /// The name of the tool.
    pub fn tool_name(&self) -> (name: String)
        ensures
            name@ == "update_file"@,
    {
        "update_file".to_owned()
    }

    /// The parameters of the tool.
    pub open spec fn properties(self) -> Map<Seq<char>, SchemaView> {
        tool_spec::with_environment(
            Map::<Seq<char>, SchemaView>::empty().insert(
                "path"@,
                tool_spec::described(SchemaKind::Text, "Path to an existing UTF-8 text file."@),
            ).insert(
                "old_text"@,
                tool_spec::described(
                    SchemaKind::Text,
                    "Exact existing text to replace; must match once unless replace_all is true."@,
                ),
            ).insert(
                "new_text"@,
                tool_spec::described(SchemaKind::Text, "Replacement text."@),
            ).insert(
                "replace_all"@,
                tool_spec::described(
                    SchemaKind::Boolean,
                    "Replace every exact match; defaults to false."@,
                ),
            ),
            self.include_environment_id,
        )
    }

    /// How the tool is described.
    pub fn tool_spec(&self) -> (tool: ToolSpec)
        ensures
            tool.describes(
                "update_file"@,
                "Update an existing UTF-8 file by exact text replacement through Codex's patch and approval pipeline. Use apply_patch for multi-file or structural edits."@,
                self.properties(),
                seq!["path"@, "old_text"@, "new_text"@],
            ),
    {
        let mut properties = Properties::new();
        properties.insert(
            "path".to_owned(),
            JsonSchema::string(Some("Path to an existing UTF-8 text file.".to_owned())),
        );
        properties.insert(
            "old_text".to_owned(),
            JsonSchema::string(
                Some(
                    "Exact existing text to replace; must match once unless replace_all is true.".to_owned(),
                ),
            ),
        );
        properties.insert(
            "new_text".to_owned(),
            JsonSchema::string(Some("Replacement text.".to_owned())),
        );
        properties.insert(
            "replace_all".to_owned(),
            JsonSchema::boolean(Some("Replace every exact match; defaults to false.".to_owned())),
        );
        tool_spec::environment_property(&mut properties, self.include_environment_id);
        let mut required: Vec<String> = Vec::new();
        required.push("path".to_owned());
        required.push("old_text".to_owned());
        required.push("new_text".to_owned());
        assert(strings::texts(required@) =~= seq!["path"@, "old_text"@, "new_text"@]);
        tool_spec::function_spec(
            "update_file",
            "Update an existing UTF-8 file by exact text replacement through Codex's patch and approval pipeline. Use apply_patch for multi-file or structural edits.",
            properties,
            required,
        )
    }

    /// How a call goes on at an event: once the file is read, the patch that replaces its contents by
    /// the updated ones is to be applied.
    pub open spec fn handled(
        self,
        call: ToolCall<UpdateFileArgs>,
        event: ToolEvent<UpdateFileArgs>,
    ) -> (ToolCall<UpdateFileArgs>, ActionView) {
        match (call, event) {
            (
                ToolCall::Reaching(args, path),
                ToolEvent::FileRead(Ok(contents)),
            ) => match updated_contents(args, contents@) {
                Ok(updated) => (
                    ToolCall::Done,
                    ActionView::ApplyPatch(
                        strings::join(
                            patch_text::update_patch_lines(
                                args.path@,
                                contents@,
                                updated,
                                strings::opt_text(args.environment_id),
                            ),
                            '\n',
                        ),
                        self.include_environment_id,
                    ),
                ),
                Err(message) => failed(message),
            },
            (ToolCall::Reaching(args, path), ToolEvent::FileRead(Err(message))) => failed(
                quoted("unable to read "@, path@, ": "@ + message@),
            ),
            _ => prepared(call, event),
        }
    }

    /// Takes a call on by one event, and says what is to be done next.
    pub fn handle(&self, call: ToolCall<UpdateFileArgs>, event: ToolEvent<UpdateFileArgs>) -> (r: (
        ToolCall<UpdateFileArgs>,
        ToolAction,
    ))
        requires
            call.well_formed(),
        ensures
            r.0.well_formed(),
            (r.0, r.1@) == self.handled(call, event),
    {
        match call {
            ToolCall::Reaching(args, path) => match event {
                ToolEvent::FileRead(Ok(contents)) => {
                    match update_contents(&args, contents.as_str()) {
                        Ok(updated) => {
                            let patch = patch_text::create_update_patch(
                                args.path.as_str(),
                                contents.as_str(),
                                updated.as_str(),
                                as_slice(&args.environment_id),
                            );
                            (
                                ToolCall::Done,
                                ToolAction::ApplyPatch(patch, self.include_environment_id),
                            )
                        },
                        Err(error) => (ToolCall::Done, ToolAction::Answer(Err(error))),
                    }
                },
                ToolEvent::FileRead(Err(message)) => {
                    let reason = appended(": ".to_owned(), message.as_str());
                    let text = quote("unable to read ", path.as_str(), reason.as_str());
                    (ToolCall::Done, failure(text))
                },
                _ => (ToolCall::Reaching(args, path), ToolAction::Nothing),
            },
            _ => prepare(call, event),
        }
    }
}

/// A read returns at most as many lines as the cap, and none that the file does not have.
pub proof fn law_read_is_capped(start: int, end_line: Option<usize>, lines: Seq<Seq<char>>)
    requires
        1 <= start <= lines.len(),
        end_line matches Some(end) ==> end >= start,
    ensures
        1 <= numbered_lines(
            lines,
            start,
            capped_end(start, end_line, lines.len() as int),
        ).len() <= MAX_READ_LINES,
        start <= capped_end(start, end_line, lines.len() as int) <= lines.len(),
{
}

/// A read that is continued where its notice says goes on with the very next line: the two reads
/// together list the lines that one read without a cap would list as far as the second goes.
pub proof fn law_continued_read(start: int, end_line: Option<usize>, lines: Seq<Seq<char>>)
    requires
        1 <= start <= lines.len(),
        end_line matches Some(end) ==> end >= start,
        capped_end(start, end_line, lines.len() as int) < requested_end(
            end_line,
            lines.len() as int,
        ),
    ensures
        ({
            let first = capped_end(start, end_line, lines.len() as int);
            let second = capped_end(first + 1, end_line, lines.len() as int);
            &&& first < second
            &&& numbered_lines(lines, start, first) + numbered_lines(lines, first + 1, second)
                == numbered_lines(lines, start, second)
        }),
{
    let first = capped_end(start, end_line, lines.len() as int);
    let second = capped_end(first + 1, end_line, lines.len() as int);
    assert(numbered_lines(lines, start, first) + numbered_lines(lines, first + 1, second)
        =~= numbered_lines(lines, start, second));
}

/// A patch is applied for a write only where nothing stands at the path yet.
pub proof fn law_write_never_overwrites(
    handler: WriteFileHandler,
    call: ToolCall<WriteFileArgs>,
    event: ToolEvent<WriteFileArgs>,
)
    ensures
        handler.handled(call, event).1 is ApplyPatch ==> event == ToolEvent::<
            WriteFileArgs,
        >::Inspected(Inspection::NotFound),
{
}

/// A patch is applied for an update only where the text to be replaced stands in the file: once, or
/// with leave to replace it everywhere.
pub proof fn law_update_needs_match(
    handler: UpdateFileHandler,
    call: ToolCall<UpdateFileArgs>,
    event: ToolEvent<UpdateFileArgs>,
)
    ensures
        handler.handled(call, event).1 is ApplyPatch ==> {
            &&& call matches ToolCall::Reaching(args, _)
            &&& event matches ToolEvent::FileRead(Ok(contents))
            &&& strings::count_from(contents@, args.old_text@, 0) >= 1
            &&& args.replace_all || strings::count_from(contents@, args.old_text@, 0) == 1
        },
{
}

/// Where the text to be replaced stands in the file once, leave to replace it everywhere makes no
/// difference.
pub proof fn law_single_match_update(a: UpdateFileArgs, b: UpdateFileArgs, contents: Seq<char>)
    requires
        a.old_text@ == b.old_text@,
        a.new_text@ == b.new_text@,
        strings::count_from(contents, a.old_text@, 0) == 1,
    ensures
        updated_contents(a, contents) == updated_contents(b, contents),
{
    strings::law_single_match_replacement(contents, a.old_text@, a.new_text@);
}

/// A call that has been answered or handed on stays as it is, whatever happens.
pub proof fn law_done_is_final(
    write: WriteFileHandler,
    update: UpdateFileHandler,
    read_event: ToolEvent<ReadFileArgs>,
    write_event: ToolEvent<WriteFileArgs>,
    update_event: ToolEvent<UpdateFileArgs>,
)
    ensures
        ReadFileHandler::handled(ToolCall::Done, read_event) == (
            ToolCall::<ReadFileArgs>::Done,
            ActionView::Nothing,
        ),
        write.handled(ToolCall::Done, write_event) == (
            ToolCall::<WriteFileArgs>::Done,
            ActionView::Nothing,
        ),
        update.handled(ToolCall::Done, update_event) == (
            ToolCall::<UpdateFileArgs>::Done,
            ActionView::Nothing,
        ),
{
}


/// A read that is accepted and finds its file is answered with the file's lines.
pub proof fn law_read_answers_the_file(
    arguments: String,
    args: ReadFileArgs,
    path: String,
    contents: String,
)
    requires
        args.refusal() is None,
    ensures
        ({
            let (s1, a1) = ReadFileHandler::handled(
                ToolCall::Start,
                ToolEvent::Invoked(ToolPayload::Function(arguments)),
            );
            let (s2, a2) = ReadFileHandler::handled(s1, ToolEvent::Parsed(Ok(args)));
            let (s3, a3) = ReadFileHandler::handled(s2, ToolEvent::Chosen(Ok(true)));
            let (s4, a4) = ReadFileHandler::handled(s3, ToolEvent::Located(Ok(path)));
            let (s5, a5) = ReadFileHandler::handled(s4, ToolEvent::FileRead(Ok(contents)));
            &&& a1 == ActionView::ParseArguments(arguments@)
            &&& a2 == ActionView::ChooseEnvironment(strings::opt_text(args.environment_id))
            &&& a3 == ActionView::ResolvePath(
                strings::opt_text(args.environment_id),
                args.path@,
            )
            &&& a4 == ActionView::ReadFile(strings::opt_text(args.environment_id), path@)
            &&& a5 == ActionView::Answer(
                read_answer(first_line(args) as int, args.end_line, path@, contents@),
            )
            &&& s5 == ToolCall::<ReadFileArgs>::Done
        }),
{
}

/// A write that is accepted and finds nothing at its path hands on the patch that creates the file.
pub proof fn law_write_hands_on_its_patch(
    handler: WriteFileHandler,
    arguments: String,
    args: WriteFileArgs,
    path: String,
)
    requires
        args.refusal() is None,
    ensures
        ({
            let (s1, a1) = handler.handled(
                ToolCall::Start,
                ToolEvent::Invoked(ToolPayload::Function(arguments)),
            );
            let (s2, a2) = handler.handled(s1, ToolEvent::Parsed(Ok(args)));
            let (s3, a3) = handler.handled(s2, ToolEvent::Chosen(Ok(true)));
            let (s4, a4) = handler.handled(s3, ToolEvent::Located(Ok(path)));
            let (s5, a5) = handler.handled(s4, ToolEvent::Inspected(Inspection::NotFound));
            &&& a4 == ActionView::Inspect(strings::opt_text(args.environment_id), path@)
            &&& a5 == ActionView::ApplyPatch(
                strings::join(
                    patch_text::add_patch_lines(
                        args.path@,
                        args.content@,
                        strings::opt_text(args.environment_id),
                    ),
                    '\n',
                ),
                handler.include_environment_id,
            )
            &&& s5 == ToolCall::<WriteFileArgs>::Done
        }),
{
}

/// An update that is accepted and finds its text once hands on the patch that replaces the file's
/// contents by those with the text replaced.
pub proof fn law_update_hands_on_its_patch(
    handler: UpdateFileHandler,
    arguments: String,
    args: UpdateFileArgs,
    path: String,
    contents: String,
)
    requires
        args.refusal() is None,
        strings::count_from(contents@, args.old_text@, 0) == 1,
    ensures
        ({
            let (s1, a1) = handler.handled(
                ToolCall::Start,
                ToolEvent::Invoked(ToolPayload::Function(arguments)),
            );
            let (s2, a2) = handler.handled(s1, ToolEvent::Parsed(Ok(args)));
            let (s3, a3) = handler.handled(s2, ToolEvent::Chosen(Ok(true)));
            let (s4, a4) = handler.handled(s3, ToolEvent::Located(Ok(path)));
            let (s5, a5) = handler.handled(s4, ToolEvent::FileRead(Ok(contents)));
            &&& a4 == ActionView::ReadFile(strings::opt_text(args.environment_id), path@)
            &&& a5 == ActionView::ApplyPatch(
                strings::join(
                    patch_text::update_patch_lines(
                        args.path@,
                        contents@,
                        strings::replace_first(contents@, args.old_text@, args.new_text@),
                        strings::opt_text(args.environment_id),
                    ),
                    '\n',
                ),
                handler.include_environment_id,
            )
            &&& s5 == ToolCall::<UpdateFileArgs>::Done
        }),
{
    strings::law_single_match_replacement(contents@, args.old_text@, args.new_text@);
}

/// Refused arguments are answered with the reason at once, and no file is reached for them.
pub proof fn law_refused_arguments_reach_no_file<A: ToolArguments>(args: A)
    requires
        args.refusal() is Some,
    ensures
        prepared(ToolCall::Parsing, ToolEvent::Parsed(Ok(args))) == (
            ToolCall::<A>::Done,
            ActionView::Answer(Err(args.refusal()->0)),
        ),
{
}


/// The first and the last line of each read of a file, from a line on and to the end of the file: each
/// read but the first begins where the notice below the one before says.
pub open spec fn reads_from(start: int, count: int) -> Seq<(int, int)>
    decreases count - start,
{
    let end = capped_end(start, None, count);
    if start <= end < count {
        seq![(start, end)] + reads_from(end + 1, count)
    } else {
        seq![(start, end)]
    }
}

/// The lines that some reads return, one read after the other.
pub open spec fn listed(lines: Seq<Seq<char>>, reads: Seq<(int, int)>) -> Seq<Seq<char>>
    decreases reads.len(),
{
    if reads.len() == 0 {
        Seq::empty()
    } else {
        numbered_lines(lines, reads[0].0, reads[0].1) + listed(lines, reads.drop_first())
    }
}

/// Reads from a line on to the end of the file are as few as the cap allows, and list every line from
/// there on once and in order.
#[verifier::rlimit(40)]
proof fn lemma_reads_from(start: int, lines: Seq<Seq<char>>)
    requires
        1 <= start <= lines.len(),
    ensures
        ({
            let count = lines.len() as int;
            let reads = reads_from(start, count);
            &&& reads.len() == (count - start + MAX_READ_LINES) / (MAX_READ_LINES as int)
            &&& reads.len() > 0
            &&& reads[0].0 == start
            &&& listed(lines, reads) == numbered_lines(lines, start, count)
            &&& forall|k: int|
                0 <= k < reads.len() ==> {
                    let read = #[trigger] reads[k];
                    &&& start <= read.0 <= count
                    &&& read.1 == capped_end(read.0, None, count)
                    &&& k + 1 < reads.len() ==> read.1 < count && reads[k + 1].0 == read.1 + 1
                    &&& k + 1 == reads.len() ==> read.1 == count
                }
        }),
    decreases lines.len() - start,
{
    let count = lines.len() as int;
    let end = capped_end(start, None, count);
    let reads = reads_from(start, count);
    if end < count {
        let rest = reads_from(end + 1, count);
        lemma_reads_from(end + 1, lines);
        assert(reads.drop_first() =~= rest);
        assert(listed(lines, reads) =~= numbered_lines(lines, start, count));
        assert(rest.len() == (count - end - 1 + MAX_READ_LINES) / (MAX_READ_LINES as int));
        assert(reads.len() == (count - start + MAX_READ_LINES) / (MAX_READ_LINES as int));
        assert forall|k: int| 0 <= k < reads.len() implies {
            let read = #[trigger] reads[k];
            &&& start <= read.0 <= count
            &&& read.1 == capped_end(read.0, None, count)
            &&& k + 1 < reads.len() ==> read.1 < count && reads[k + 1].0 == read.1 + 1
            &&& k + 1 == reads.len() ==> read.1 == count
        } by {
            if k == 0 {
                assert(reads[1] == rest[0]);
            } else {
                assert(reads[k] == rest[k - 1]);
                if k + 1 < reads.len() {
                    assert(reads[k + 1] == rest[k]);
                }
            }
        }
    } else {
        assert(reads.drop_first() =~= Seq::empty());
        assert(listed(lines, reads.drop_first()) =~= Seq::empty());
        assert(listed(lines, reads) =~= numbered_lines(lines, start, count));
    }
}

/// A file is read whole by asking for it without a first or last line, and then from where each notice
/// says on: that takes as many reads as there are full caps in it, and one more for what is left; each
/// is answered, with the notice below all but the last; and together they list every line of the file
/// behind its number, once and in order.
pub proof fn law_whole_file_is_read(path: Seq<char>, contents: Seq<char>)
    requires
        strings::text_lines(contents).len() > 0,
    ensures
        ({
            let lines = strings::text_lines(contents);
            let count = lines.len() as int;
            let reads = reads_from(1, count);
            &&& reads.len() == (count + MAX_READ_LINES - 1) / (MAX_READ_LINES as int)
            &&& reads[0].0 == 1
            &&& listed(lines, reads) == numbered_lines(lines, 1, count)
            &&& forall|k: int|
                0 <= k < reads.len() ==> {
                    let (start, end) = #[trigger] reads[k];
                    &&& numbered_lines(lines, start, end).len() <= MAX_READ_LINES
                    &&& read_answer(start, None, path, contents) == Ok::<OutputView, Seq<char>>(
                        OutputView {
                            text: strings::terminated(
                                seq![read_heading(path, start, end, count)] + numbered_lines(
                                    lines,
                                    start,
                                    end,
                                ),
                            ) + read_notice(end, count),
                            success: Some(true),
                        },
                    )
                    &&& k + 1 < reads.len() ==> end < count && reads[k + 1].0 == end + 1
                    &&& k + 1 == reads.len() ==> end == count
                }
        }),
{
    lemma_reads_from(1, strings::text_lines(contents));
}

} // verus!
