//! The render engine: the terminal operations that paint a state of the
//! selection model into its fixed region, and the request that hands the
//! final selection on.

use vstd::prelude::*;
use vstd::string::StringExecFns;
use crate::model::{Picker, Selection};
use crate::text::texts;

verus! {

/// The colours the picker writes in.
#[derive(Clone, Copy, Debug, PartialEq, Eq, Structural)]
pub enum Tint {
    Blue,
    Green,
}

/// One operation on the terminal.
#[derive(Debug, PartialEq, Eq)]
pub enum DrawOp {
    ClearLine,
    ResetColor,
    SetColor(Tint),
    MoveToPreviousLine,
    MoveToNextLine,
    MoveUp(u16),
    SavePosition,
    RestorePosition,
    Print(String),
    Flush,
}

/// A terminal operation as a mathematical value: written text is a sequence
/// of characters.
pub enum Stroke {
    ClearLine,
    ResetColor,
    SetColor(Tint),
    MoveToPreviousLine,
    MoveToNextLine,
    MoveUp(u16),
    SavePosition,
    RestorePosition,
    Print(Seq<char>),
    Flush,
}

impl View for DrawOp {
    type V = Stroke;

    open spec fn view(&self) -> Stroke {
        match *self {
            DrawOp::ClearLine => Stroke::ClearLine,
            DrawOp::ResetColor => Stroke::ResetColor,
            DrawOp::SetColor(t) => Stroke::SetColor(t),
            DrawOp::MoveToPreviousLine => Stroke::MoveToPreviousLine,
            DrawOp::MoveToNextLine => Stroke::MoveToNextLine,
            DrawOp::MoveUp(n) => Stroke::MoveUp(n),
            DrawOp::SavePosition => Stroke::SavePosition,
            DrawOp::RestorePosition => Stroke::RestorePosition,
            DrawOp::Print(s) => Stroke::Print(s@),
            DrawOp::Flush => Stroke::Flush,
        }
    }
}

/// The views of a sequence of operations.
pub open spec fn strokes(ops: Seq<DrawOp>) -> Seq<Stroke> {
    ops.map_values(|op: DrawOp| op@)
}

/// `names` written one after the other with `sep` between each two.
pub open spec fn joined(names: Seq<Seq<char>>, sep: Seq<char>) -> Seq<char>
    decreases names.len(),
{
    if names.len() == 0 {
        Seq::empty()
    } else if names.len() == 1 {
        names[0]
    } else {
        joined(names.drop_last(), sep) + sep + names.last()
    }
}

/// Calls `itertools::Itertools::join` on the names. Trusted: the result is
/// the names in order, with the separator between each two.
#[verifier::external_body]
pub(crate) fn join_names(names: &Vec<String>, sep: &str) -> (r: String)
    ensures
        r@ == joined(texts(names@), sep@),
{
    itertools::Itertools::join(&mut names.iter(), sep)
}

/// The start of every frame: the line the cursor is on is cleared.
pub open spec fn head_strokes() -> Seq<Stroke> {
    seq![Stroke::ClearLine, Stroke::ResetColor]
}

/// The line of chosen names, one line above the search line; nothing while
/// no name is chosen.
pub open spec fn chosen_strokes(chosen: Seq<Seq<char>>) -> Seq<Stroke> {
    if chosen.len() == 0 {
        Seq::empty()
    } else {
        seq![
            Stroke::MoveToPreviousLine,
            Stroke::ClearLine,
            Stroke::Print("Selected templates: "@),
            Stroke::SetColor(Tint::Blue),
            Stroke::Print(joined(chosen, ", "@)),
            Stroke::ResetColor,
            Stroke::MoveToNextLine,
            Stroke::ClearLine,
        ]
    }
}

/// The search line. The cursor position at its end is saved: it is where
/// the frame ends.
pub open spec fn query_strokes(more: bool, query: Seq<char>) -> Seq<Stroke> {
    seq![
        Stroke::Print(
            if more {
                "\rSearch additional templates: "@
            } else {
                "\rSearch templates: "@
            },
        ),
        Stroke::SetColor(Tint::Green),
        Stroke::Print(query),
        Stroke::ResetColor,
        Stroke::SavePosition,
        Stroke::MoveToNextLine,
    ]
}

/// One result row: cleared, then the marker, if the cursor is on it, and
/// the name.
pub open spec fn row_strokes(name: Seq<char>, marked: bool) -> Seq<Stroke> {
    if marked {
        seq![
            Stroke::ClearLine,
            Stroke::Print("\r "@),
            Stroke::SetColor(Tint::Blue),
            Stroke::Print(">"@),
            Stroke::ResetColor,
            Stroke::Print(" "@),
            Stroke::Print(name),
            Stroke::Print("\n"@),
        ]
    } else {
        seq![
            Stroke::ClearLine,
            Stroke::Print("\r "@),
            Stroke::Print(" "@),
            Stroke::Print(" "@),
            Stroke::Print(name),
            Stroke::Print("\n"@),
        ]
    }
}

/// One unused row: cleared, so that nothing of an earlier frame stays.
pub open spec fn blank_row_strokes() -> Seq<Stroke> {
    seq![Stroke::ClearLine, Stroke::Print("\n"@)]
}

/// Row `i` of the results window: the visible result at that place, marked
/// if the cursor is on it, or an unused row below the last result.
pub open spec fn window_row_strokes(s: Selection, i: int) -> Seq<Stroke> {
    if 0 <= i < s.visible.len() {
        row_strokes(s.catalog[s.visible[i].index as int], s.cursor == i)
    } else {
        blank_row_strokes()
    }
}

/// The first `n` rows of the results window.
pub open spec fn window_strokes(s: Selection, n: int) -> Seq<Stroke>
    decreases n,
{
    if n <= 0 {
        Seq::empty()
    } else {
        window_strokes(s, n - 1) + window_row_strokes(s, n - 1)
    }
}

/// The end of every frame: back to the end of the search line, and one
/// flush for the whole frame.
pub open spec fn tail_strokes() -> Seq<Stroke> {
    seq![Stroke::RestorePosition, Stroke::SetColor(Tint::Green), Stroke::Flush]
}

/// The frame of a state: the chosen names if there are any, the search
/// line, and exactly as many rows as the window has.
pub open spec fn frame(s: Selection) -> Seq<Stroke> {
    head_strokes() + chosen_strokes(s.chosen) + query_strokes(s.chosen.len() > 0, s.query)
        + window_strokes(s, s.window) + tail_strokes()
}

fn emit(ops: &mut Vec<DrawOp>, op: DrawOp)
    ensures
        strokes(final(ops)@) == strokes(old(ops)@).push(op@),
{
    ops.push(op);
    assert(strokes(ops@) =~= strokes(old(ops)@).push(op@));
}

fn print(ops: &mut Vec<DrawOp>, text: &str)
    ensures
        strokes(final(ops)@) == strokes(old(ops)@).push(Stroke::Print(text@)),
{
    emit(ops, DrawOp::Print(text.to_owned()));
}

fn emit_row(ops: &mut Vec<DrawOp>, name: &String, marked: bool)
    ensures
        strokes(final(ops)@) == strokes(old(ops)@) + row_strokes(name@, marked),
{
    emit(ops, DrawOp::ClearLine);
    print(ops, "\r ");
    if marked {
        emit(ops, DrawOp::SetColor(Tint::Blue));
        print(ops, ">");
        emit(ops, DrawOp::ResetColor);
    } else {
        print(ops, " ");
    }
    print(ops, " ");
    print(ops, name.as_str());
    print(ops, "\n");
    assert(strokes(ops@) =~= strokes(old(ops)@) + row_strokes(name@, marked));
}

/// The operations that paint `p`: exactly its frame.
pub fn draw(p: &Picker) -> (ops: Vec<DrawOp>)
    requires
        p@.wf(),
    ensures
        strokes(ops@) == frame(p@),
{
    let ghost s = p@;
    let catalog = p.catalog();
    let visible = p.visible();
    let chosen = p.chosen();
    let cursor = p.cursor();
    let window = p.window();
    let mut ops: Vec<DrawOp> = Vec::new();
    assert(strokes(ops@) =~= Seq::<Stroke>::empty());
    emit(&mut ops, DrawOp::ClearLine);
    emit(&mut ops, DrawOp::ResetColor);
    assert(strokes(ops@) =~= head_strokes());
    let more = chosen.len() > 0;
    if more {
        emit(&mut ops, DrawOp::MoveToPreviousLine);
        emit(&mut ops, DrawOp::ClearLine);
        print(&mut ops, "Selected templates: ");
        emit(&mut ops, DrawOp::SetColor(Tint::Blue));
        emit(&mut ops, DrawOp::Print(join_names(chosen, ", ")));
        emit(&mut ops, DrawOp::ResetColor);
        emit(&mut ops, DrawOp::MoveToNextLine);
        emit(&mut ops, DrawOp::ClearLine);
    }
    assert(strokes(ops@) =~= head_strokes() + chosen_strokes(s.chosen));
    if more {
        print(&mut ops, "\rSearch additional templates: ");
    } else {
        print(&mut ops, "\rSearch templates: ");
    }
    emit(&mut ops, DrawOp::SetColor(Tint::Green));
    print(&mut ops, p.query());
    emit(&mut ops, DrawOp::ResetColor);
    emit(&mut ops, DrawOp::SavePosition);
    emit(&mut ops, DrawOp::MoveToNextLine);
    let ghost top = head_strokes() + chosen_strokes(s.chosen) + query_strokes(more, s.query);
    assert(strokes(ops@) =~= top);
    let shown: usize = visible.len();
    let mut i: usize = 0;
    while i < shown
        invariant
            s.wf(),
            visible@ == s.visible,
            texts(catalog@) == s.catalog,
            cursor == s.cursor,
            shown == s.visible.len(),
            0 <= i <= shown,
            strokes(ops@) == top + window_strokes(s, i as int),
        decreases shown - i,
    {
        let at: usize = visible[i].index;
        assert(at < catalog@.len()) by {
            assert(s.visible[i as int].index < s.catalog.len());
        }
        assert(catalog@[at as int]@ == s.catalog[at as int]) by {
            assert(texts(catalog@)[at as int] == catalog@[at as int]@);
        }
        emit_row(&mut ops, &catalog[at], i == cursor);
        i += 1;
        assert(strokes(ops@) =~= top + window_strokes(s, i as int));
    }
    let mut j: usize = shown;
    while j < window
        invariant
            shown == s.visible.len(),
            shown <= window,
            shown <= j <= window,
            strokes(ops@) == top + window_strokes(s, j as int),
        decreases window - j,
    {
        emit(&mut ops, DrawOp::ClearLine);
        print(&mut ops, "\n");
        j += 1;
        assert(strokes(ops@) =~= top + window_strokes(s, j as int));
    }
    emit(&mut ops, DrawOp::RestorePosition);
    emit(&mut ops, DrawOp::SetColor(Tint::Green));
    emit(&mut ops, DrawOp::Flush);
    assert(strokes(ops@) =~= frame(s));
    ops
}

/// The operations that make room for the region before the first frame:
/// one line for the search text and one for each row of the window are
/// scrolled in, and the cursor goes back up to the first of them.
pub open spec fn reserve_strokes(window: int) -> Seq<Stroke> {
    Seq::new((window + 1) as nat, |i: int| Stroke::Print("\n"@)) + seq![
        Stroke::MoveUp((window + 1) as u16),
        Stroke::Flush,
    ]
}

/// The operations that make room for a region with `window` result rows,
/// or `None` where the terminal cannot move up by that many lines at once.
pub fn reserve(window: usize) -> (r: Option<Vec<DrawOp>>)
    ensures
        match r {
            Some(ops) => window < u16::MAX && strokes(ops@) == reserve_strokes(window as int),
            None => window >= u16::MAX,
        },
{
    if window >= 65535 {
        return None;
    }
    let mut ops: Vec<DrawOp> = Vec::new();
    let mut i: usize = 0;
    assert(strokes(ops@) =~= Seq::new(0, |k: int| Stroke::Print("\n"@)));
    while i < window + 1
        invariant
            window < 65535,
            0 <= i <= window + 1,
            strokes(ops@) == Seq::new(i as nat, |k: int| Stroke::Print("\n"@)),
        decreases window + 1 - i,
    {
        print(&mut ops, "\n");
        i += 1;
        assert(strokes(ops@) =~= Seq::new(i as nat, |k: int| Stroke::Print("\n"@)));
    }
    emit(&mut ops, DrawOp::MoveUp((window + 1) as u16));
    emit(&mut ops, DrawOp::Flush);
    assert(strokes(ops@) =~= reserve_strokes(window as int));
    Some(ops)
}

/// The address under `base` that names the chosen items: the names joined
/// by commas, after a slash.
pub open spec fn request_text(base: Seq<char>, chosen: Seq<Seq<char>>) -> Seq<char> {
    base + "/"@ + joined(chosen, ","@)
}

/// The address from which the result for the chosen names is fetched.
pub fn request_url(base: &str, chosen: &Vec<String>) -> (r: String)
    ensures
        r@ == request_text(base@, texts(chosen@)),
{
    let mut url = base.to_owned();
    url.append("/");
    let names = join_names(chosen, ",");
    url.append(names.as_str());
    url
}

} // verus!
