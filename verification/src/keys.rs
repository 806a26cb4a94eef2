//! Key bindings of the pager, and the line of hints that names them.

use ratatui::buffer::Buffer;
use vstd::prelude::*;

use crate::canvas;
use crate::geometry::Rect;
use crate::styled::{LineView, SpanView, TextLine, TextSpan, TextStyle, DIM};

verus! {

/// A key that is bound, as the hints name it.
#[derive(Debug)]
pub struct KeyBinding {
    pub label: TextSpan,
}

impl Clone for KeyBinding {
    fn clone(&self) -> (binding: Self)
        ensures
            binding.label@ == self.label@,
    {
        KeyBinding { label: self.label.clone() }
    }
}

/// The names that hints give to a sequence of bindings.
pub open spec fn labels(bindings: Seq<KeyBinding>) -> Seq<SpanView> {
    bindings.map_values(|b: KeyBinding| b.label@)
}

/// The bindings of each pager command.
#[derive(Debug)]
pub struct PagerKeymap {
    pub scroll_up: Vec<KeyBinding>,
    pub scroll_down: Vec<KeyBinding>,
    pub page_up: Vec<KeyBinding>,
    pub page_down: Vec<KeyBinding>,
    pub half_page_up: Vec<KeyBinding>,
    pub half_page_down: Vec<KeyBinding>,
    pub jump_top: Vec<KeyBinding>,
    pub jump_bottom: Vec<KeyBinding>,
    pub close: Vec<KeyBinding>,
    pub close_transcript: Vec<KeyBinding>,
    /// The keys that edit earlier messages; they cannot be rebound.
    pub edit: EditKeys,
}

/// The names of the keys that edit earlier messages.
#[derive(Debug)]
pub struct EditKeys {
    pub esc: KeyBinding,
    pub left: KeyBinding,
    pub right: KeyBinding,
    pub enter: KeyBinding,
}

/// The columns of each name fit in `u16`.
pub open spec fn labels_fit(bindings: Seq<KeyBinding>) -> bool {
    forall|i: int|
        0 <= i < bindings.len() ==> (#[trigger] bindings[i]).label@.content.len()
            <= canvas::MAX_TEXT
}

impl PagerKeymap {
    /// The columns of each key's name fit in `u16`.
    pub open spec fn fits(self) -> bool {
        &&& labels_fit(self.scroll_up@)
        &&& labels_fit(self.scroll_down@)
        &&& labels_fit(self.page_up@)
        &&& labels_fit(self.page_down@)
        &&& labels_fit(self.jump_top@)
        &&& labels_fit(self.jump_bottom@)
        &&& labels_fit(self.close@)
        &&& self.edit.esc.label@.content.len() <= canvas::MAX_TEXT
        &&& self.edit.left.label@.content.len() <= canvas::MAX_TEXT
        &&& self.edit.right.label@.content.len() <= canvas::MAX_TEXT
        &&& self.edit.enter.label@.content.len() <= canvas::MAX_TEXT
    }
}

/// Which commands a key event presses.
#[derive(Clone, Copy, Debug, PartialEq, Eq, Structural)]
pub struct PressedKeys {
    pub scroll_up: bool,
    pub scroll_down: bool,
    pub page_up: bool,
    pub page_down: bool,
    pub half_page_up: bool,
    pub half_page_down: bool,
    pub jump_top: bool,
    pub jump_bottom: bool,
    pub close: bool,
    pub close_transcript: bool,
}

/// The first name, if there is one.
pub open spec fn first_label(bindings: Seq<KeyBinding>) -> Seq<SpanView> {
    if bindings.len() > 0 {
        seq![bindings[0].label@]
    } else {
        Seq::empty()
    }
}

/// The first of the bindings, or none.
pub fn first_or_empty(bindings: &Vec<KeyBinding>) -> (first: Vec<KeyBinding>)
    ensures
        labels(first@) == first_label(bindings@),
{
    let mut first: Vec<KeyBinding> = Vec::new();
    if bindings.len() > 0 {
        first.push(bindings[0].clone());
    }
    assert(labels(first@) =~= first_label(bindings@));
    first
}

/// The first binding of one command, then the first of another.
pub fn first_of_both(a: &Vec<KeyBinding>, b: &Vec<KeyBinding>) -> (both: Vec<KeyBinding>)
    ensures
        labels(both@) == first_label(a@) + first_label(b@),
{
    let mut both = first_or_empty(a);
    let mut second = first_or_empty(b);
    let ghost first = both@;
    let ghost then_second = second@;
    both.append(&mut second);
    assert(labels(both@) =~= labels(first) + labels(then_second));
    both
}

/// A hint: the keys, and what they are for.
pub struct KeyHint {
    pub keys: Vec<KeyBinding>,
    pub description: String,
}

/// What a hint says.
pub struct KeyHintView {
    pub keys: Seq<SpanView>,
    pub description: Seq<char>,
}

impl View for KeyHint {
    type V = KeyHintView;

    open spec fn view(&self) -> KeyHintView {
        KeyHintView { keys: labels(self.keys@), description: self.description@ }
    }
}

/// What a sequence of hints says.
pub open spec fn hint_views(hints: Seq<KeyHint>) -> Seq<KeyHintView> {
    hints.map_values(|h: KeyHint| h@)
}

/// A span in no particular style.
pub open spec fn raw(content: Seq<char>) -> SpanView {
    SpanView { content, style: TextStyle::plain() }
}

/// The keys of one hint, with a slash between each two.
pub open spec fn key_spans(keys: Seq<SpanView>) -> Seq<SpanView>
    decreases keys.len(),
{
    if keys.len() == 0 {
        Seq::empty()
    } else if keys.len() == 1 {
        seq![keys[0]]
    } else {
        key_spans(keys.drop_last()).push(raw("/"@)).push(keys.last())
    }
}

/// The spans of a line of hints: three blanks between each two hints, one blank before the line and
/// between the keys of a hint and what they are for.
pub open spec fn hint_spans(hints: Seq<KeyHintView>) -> Seq<SpanView>
    decreases hints.len(),
{
    if hints.len() == 0 {
        seq![raw(" "@)]
    } else {
        let before = hint_spans(hints.drop_last());
        let spaced = if hints.len() > 1 {
            before.push(raw("   "@))
        } else {
            before
        };
        (spaced + key_spans(hints.last().keys)).push(raw(" "@)).push(
            raw(hints.last().description),
        )
    }
}

/// The columns of each key's name, and of what the keys are for, fit in `u16`.
pub open spec fn hint_fits(hint: KeyHintView) -> bool {
    &&& hint.description.len() <= canvas::MAX_TEXT
    &&& forall|i: int|
        0 <= i < hint.keys.len() ==> (#[trigger] hint.keys[i]).content.len() <= canvas::MAX_TEXT
}

/// The columns of everything that the hints say fit in `u16`.
pub open spec fn hints_fit(hints: Seq<KeyHintView>) -> bool {
    forall|i: int| 0 <= i < hints.len() ==> hint_fits(#[trigger] hints[i])
}

/// Every span of the keys of a hint is a key's name or short.
proof fn lemma_key_spans_fit(keys: Seq<SpanView>)
    requires
        forall|i: int|
            0 <= i < keys.len() ==> (#[trigger] keys[i]).content.len() <= canvas::MAX_TEXT,
    ensures
        forall|i: int|
            0 <= i < key_spans(keys).len() ==> (#[trigger] key_spans(keys)[i]).content.len()
                <= canvas::MAX_TEXT,
    decreases keys.len(),
{
    reveal_strlit("/");
    if keys.len() > 1 {
        lemma_key_spans_fit(keys.drop_last());
    }
}

/// A line of hints that fit is one whose columns `ratatui` can count.
proof fn lemma_hint_line_countable(hints: Seq<KeyHintView>)
    requires
        hints_fit(hints),
    ensures
        canvas::countable(hint_line(hints)),
    decreases hints.len(),
{
    reveal_strlit(" ");
    reveal_strlit("   ");
    if hints.len() > 0 {
        let before = hint_line(hints.drop_last());
        lemma_hint_line_countable(hints.drop_last());
        lemma_key_spans_fit(hints.last().keys);
        assert forall|i: int| 0 <= i < hint_line(hints).spans.len() implies (#[trigger] hint_line(
            hints,
        ).spans[i]).content.len() <= canvas::MAX_TEXT by {
            if i < before.spans.len() {
                assert(hint_line(hints).spans[i] == before.spans[i]);
            }
        }
    }
}

/// The line of hints: all of it dim.
pub open spec fn hint_line(hints: Seq<KeyHintView>) -> LineView {
    LineView {
        spans: hint_spans(hints),
        style: TextStyle::plain().adding(DIM),
        alignment: None,
    }
}

/// Builds a line of hints.
pub fn key_hint_line(hints: &Vec<KeyHint>) -> (line: TextLine)
    ensures
        line@ == hint_line(hint_views(hints@)),
{
    let mut spans: Vec<TextSpan> = Vec::new();
    spans.push(TextSpan::raw(" "));
    let ghost all = hint_views(hints@);
    assert(crate::styled::span_views(spans@) =~= hint_spans(all.take(0)));
    let mut i: usize = 0;
    while i < hints.len()
        invariant
            all == hint_views(hints@),
            i <= hints.len(),
            crate::styled::span_views(spans@) == hint_spans(all.take(i as int)),
        decreases hints.len() - i,
    {
        let ghost before = hint_spans(all.take(i as int));
        let ghost next = all.take(i as int + 1);
        assert(next.drop_last() =~= all.take(i as int));
        let ghost spaced = if i > 0 {
            before.push(raw("   "@))
        } else {
            before
        };
        if i > 0 {
            spans.push(TextSpan::raw("   "));
        }
        assert(crate::styled::span_views(spans@) =~= spaced);
        let keys = &hints[i].keys;
        let ghost names = labels(keys@);
        let mut k: usize = 0;
        assert(spaced =~= spaced + key_spans(names.take(0)));
        while k < keys.len()
            invariant
                k <= keys.len(),
                names == labels(keys@),
                crate::styled::span_views(spans@) == spaced + key_spans(names.take(k as int)),
            decreases keys.len() - k,
        {
            let ghost now = crate::styled::span_views(spans@);
            assert(names.take(k as int + 1).drop_last() =~= names.take(k as int));
            if k > 0 {
                spans.push(TextSpan::raw("/"));
            }
            spans.push(keys[k].label.clone());
            assert(names.take(k as int + 1).last() == keys@[k as int].label@);
            if k > 0 {
                assert(crate::styled::span_views(spans@) =~= now.push(raw("/"@)).push(
                    keys@[k as int].label@,
                ));
            } else {
                assert(key_spans(names.take(0)) =~= Seq::empty());
                assert(crate::styled::span_views(spans@) =~= now.push(keys@[k as int].label@));
            }
            assert(crate::styled::span_views(spans@) =~= spaced + key_spans(names.take(k as int + 1)));
            k += 1;
        }
        assert(names.take(k as int) =~= names);
        spans.push(TextSpan::raw(" "));
        spans.push(TextSpan::raw(hints[i].description.as_str()));
        assert(crate::styled::span_views(spans@) =~= hint_spans(next));
        i += 1;
    }
    assert(all.take(i as int) =~= all);
    TextLine { spans, style: TextStyle::none().add(DIM), alignment: None }
}

/// Draws a line of hints into the first row of an area.
pub fn render_key_hints(area: Rect, buffer: &mut Buffer, hints: &Vec<KeyHint>)
    requires
        area.fits(),
        hints_fit(hint_views(hints@)),
        canvas::covers(canvas::buffer_cells(*old(buffer)), area),
        area.width <= canvas::MAX_COLUMNS,
    ensures
        canvas::buffer_cells(*final(buffer)) == canvas::lines_painted(
            seq![hint_line(hint_views(hints@))],
            area,
            canvas::buffer_cells(*old(buffer)),
        ),
        canvas::differ_only_in(
            canvas::buffer_cells(*old(buffer)),
            canvas::buffer_cells(*final(buffer)),
            area,
        ),
{
    let line = key_hint_line(hints);
    proof {
        lemma_hint_line_countable(hint_views(hints@));
    }
    canvas::draw_line(buffer, &line, area);
}

/// The hints for moving about in the pager.
pub open spec fn moving_hints(keymap: PagerKeymap) -> Seq<KeyHintView> {
    seq![
        KeyHintView {
            keys: first_label(keymap.scroll_up@) + first_label(keymap.scroll_down@),
            description: "to scroll"@,
        },
        KeyHintView {
            keys: first_label(keymap.page_up@) + first_label(keymap.page_down@),
            description: "to page"@,
        },
        KeyHintView {
            keys: first_label(keymap.jump_top@) + first_label(keymap.jump_bottom@),
            description: "to jump"@,
        },
    ]
}

/// The hint for closing the overlay.
pub open spec fn close_hint(keymap: PagerKeymap) -> KeyHintView {
    KeyHintView { keys: first_label(keymap.close@), description: "to quit"@ }
}

/// The hints for closing the transcript and for editing earlier messages: more of them while a
/// message is highlighted.
pub open spec fn transcript_hints(keymap: PagerKeymap, message_highlighted: bool) -> Seq<
    KeyHintView,
> {
    let edit = keymap.edit;
    if message_highlighted {
        seq![
            close_hint(keymap),
            KeyHintView {
                keys: seq![edit.esc.label@, edit.left.label@],
                description: "to edit prev"@,
            },
            KeyHintView { keys: seq![edit.right.label@], description: "to edit next"@ },
            KeyHintView { keys: seq![edit.enter.label@], description: "to edit message"@ },
        ]
    } else {
        seq![
            close_hint(keymap),
            KeyHintView { keys: seq![edit.esc.label@], description: "to edit prev"@ },
        ]
    }
}

/// A hint of the given keys.
fn hint(keys: Vec<KeyBinding>, description: &str) -> (hint: KeyHint)
    ensures
        hint@ == (KeyHintView { keys: labels(keys@), description: description@ }),
{
    KeyHint { keys, description: description.to_owned() }
}

/// One key on its own.
fn single(key: &KeyBinding) -> (keys: Vec<KeyBinding>)
    ensures
        labels(keys@) == seq![key.label@],
{
    let mut keys: Vec<KeyBinding> = Vec::new();
    keys.push(key.clone());
    assert(labels(keys@) =~= seq![key.label@]);
    keys
}

/// The hints for moving about in the pager.
pub fn hints_for_moving(keymap: &PagerKeymap) -> (hints: Vec<KeyHint>)
    ensures
        hint_views(hints@) == moving_hints(*keymap),
        keymap.fits() ==> hints_fit(hint_views(hints@)),
{
    let mut hints: Vec<KeyHint> = Vec::new();
    hints.push(hint(first_of_both(&keymap.scroll_up, &keymap.scroll_down), "to scroll"));
    hints.push(hint(first_of_both(&keymap.page_up, &keymap.page_down), "to page"));
    hints.push(hint(first_of_both(&keymap.jump_top, &keymap.jump_bottom), "to jump"));
    proof {
        reveal_strlit("to scroll");
        reveal_strlit("to page");
        reveal_strlit("to jump");
    }
    assert(hint_views(hints@) =~= moving_hints(*keymap));
    hints
}

/// The hint for closing the overlay.
pub fn hints_for_closing(keymap: &PagerKeymap) -> (hints: Vec<KeyHint>)
    ensures
        hint_views(hints@) == seq![close_hint(*keymap)],
        keymap.fits() ==> hints_fit(hint_views(hints@)),
{
    let mut hints: Vec<KeyHint> = Vec::new();
    hints.push(hint(first_or_empty(&keymap.close), "to quit"));
    proof {
        reveal_strlit("to quit");
    }
    assert(hint_views(hints@) =~= seq![close_hint(*keymap)]);
    hints
}

/// The hints for closing the transcript and for editing earlier messages.
pub fn hints_for_transcript(keymap: &PagerKeymap, message_highlighted: bool) -> (hints: Vec<
    KeyHint,
>)
    ensures
        hint_views(hints@) == transcript_hints(*keymap, message_highlighted),
        keymap.fits() ==> hints_fit(hint_views(hints@)),
{
    let mut hints: Vec<KeyHint> = Vec::new();
    hints.push(hint(first_or_empty(&keymap.close), "to quit"));
    if message_highlighted {
        let mut previous: Vec<KeyBinding> = Vec::new();
        previous.push(keymap.edit.esc.clone());
        previous.push(keymap.edit.left.clone());
        assert(labels(previous@) =~= seq![keymap.edit.esc.label@, keymap.edit.left.label@]);
        hints.push(hint(previous, "to edit prev"));
        hints.push(hint(single(&keymap.edit.right), "to edit next"));
        hints.push(hint(single(&keymap.edit.enter), "to edit message"));
    } else {
        hints.push(hint(single(&keymap.edit.esc), "to edit prev"));
    }
    proof {
        reveal_strlit("to quit");
        reveal_strlit("to edit prev");
        reveal_strlit("to edit next");
        reveal_strlit("to edit message");
    }
    assert(hint_views(hints@) =~= transcript_hints(*keymap, message_highlighted));
    hints
}

/// The first row of an area, or of what lies below it.
pub open spec fn hint_row(area: Rect, row: int) -> Rect {
    Rect::clamped(
        area.x,
        crate::geometry::lesser(area.y + row, u16::MAX as int) as u16,
        area.width,
        1,
    )
}

/// The grid after two rows of hints have been drawn at the top of an area.
pub open spec fn hints_painted(
    first: Seq<KeyHintView>,
    second: Seq<KeyHintView>,
    area: Rect,
    before: canvas::Grid,
) -> canvas::Grid {
    canvas::lines_painted(
        seq![hint_line(second)],
        hint_row(area, 1),
        canvas::lines_painted(seq![hint_line(first)], hint_row(area, 0), before),
    )
}

/// Draws two rows of hints at the top of an area.
pub fn render_hint_rows(
    area: Rect,
    buffer: &mut Buffer,
    first: &Vec<KeyHint>,
    second: &Vec<KeyHint>,
)
    requires
        canvas::covers(canvas::buffer_cells(*old(buffer)), hint_row(area, 0)),
        canvas::covers(canvas::buffer_cells(*old(buffer)), hint_row(area, 1)),
        area.width <= canvas::MAX_COLUMNS,
        hints_fit(hint_views(first@)),
        hints_fit(hint_views(second@)),
    ensures
        canvas::buffer_cells(*final(buffer)) == hints_painted(
            hint_views(first@),
            hint_views(second@),
            area,
            canvas::buffer_cells(*old(buffer)),
        ),
        canvas::buffer_cells(*final(buffer)).dom() == canvas::buffer_cells(*old(buffer)).dom(),
{
    let line1 = Rect::new(area.x, area.y, area.width, 1);
    let line2 = Rect::new(area.x, area.y.saturating_add(1), area.width, 1);
    render_key_hints(line1, buffer, first);
    render_key_hints(line2, buffer, second);
}

} // verus!
