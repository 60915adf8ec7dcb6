//! The editor over its windows: it carries out the commands of the focused
//! window and says what is to be drawn and which files are to be saved.
use ropey::Rope;
use vstd::prelude::*;
use crate::editor::position::Position;
use crate::editor::revi_command::ReViCommand;
use crate::editor::ui::{render_views, Render, RenderView};
use crate::editor::window::{
    adjust_ok, backspace_ok, backspaced, char_deleted, char_inserted, delete_line_ok, delete_ok,
    down_ok, down_scrolls, enter_inserted, enter_ok, file_pos_ok, file_row, insert_ok,
    line_deleted, moved_down, moved_left, moved_right, moved_up, name_text, screen_pos,
    screen_pos_ok, status_left, status_right, status_text, up_ok, up_scrolls, window_text,
    window_text_ok, Window, WindowView,
};
use crate::editor::keymapper::default_binding;
use crate::editor::window::{
    backspace_index, backspace_skips, char_index, inserted_at, lemma_window_definitions, removed_at,
    row_len, with_text,
};
use crate::engine::mode::Mode;
use crate::engine::text_formater::byte_len;
use crate::rope::line_count;
use crate::ui::key::Key;
use crate::rope::rope_text;
use crate::strings::{push_repeat, repeat_char, string_of};

verus! {

/// What becomes of the keys typed so far once commands have run: they are
/// cleared.
#[derive(Debug, Clone, Copy, PartialEq, Eq, Structural)]
pub enum InputState {
    Clear,
}

/// A request to write a window's text to the file it names.
#[derive(Debug)]
pub struct SaveRequest {
    pub path: String,
    pub text: Rope,
}

/// What a save request holds: the file's name and the text.
pub open spec fn save_view(s: SaveRequest) -> (Seq<char>, Seq<char>) {
    (s.path@, rope_text(s.text))
}

/// The editor: the terminal's size, whether it runs, its windows, the
/// focused one and the command bar's text.
#[derive(Debug, Clone)]
pub struct ReVi {
    pub size: Position,
    pub is_running: bool,
    pub windows: Vec<Window>,
    pub focused: usize,
    pub command: String,
}

/// What the editor holds, windows by their views.
pub struct ReViView {
    pub size: Position,
    pub is_running: bool,
    pub windows: Seq<WindowView>,
    pub focused: usize,
    pub command: Seq<char>,
}

impl View for ReVi {
    type V = ReViView;

    open spec fn view(&self) -> ReViView {
        ReViView {
            size: self.size,
            is_running: self.is_running,
            windows: self.windows@.map_values(|w: Window| w@),
            focused: self.focused,
            command: self.command@,
        }
    }
}

/// Where a window's status bar goes: under it, at its left edge, both
/// numbers cut to 16 bits.
pub open spec fn status_pos(w: WindowView) -> Position {
    Position {
        x: (w.window_offset.x as u16) as usize,
        y: (((w.window_offset.y + w.dimensions.y) as usize) as u16) as usize,
    }
}

/// The status bar can be placed and written without overflow.
pub open spec fn status_ok(w: WindowView) -> bool {
    &&& w.window_offset.x + w.dimensions.x <= usize::MAX
    &&& w.window_offset.y + w.dimensions.y <= usize::MAX
    &&& file_pos_ok(w)
    &&& screen_pos_ok(w)
    &&& byte_len(status_left(w)) + byte_len(status_right(w)) <= usize::MAX
}

/// The request to draw a window's text.
pub open spec fn render_window(w: WindowView) -> RenderView {
    RenderView::Window { pos: w.window_offset, text: window_text(w) }
}

/// The request to draw a window's status bar.
pub open spec fn render_status(w: WindowView) -> RenderView {
    RenderView::StatusBar { pos: status_pos(w), text: status_text(w) }
}

/// The request to put the cursor where a window's cursor is.
pub open spec fn render_cursor(w: WindowView) -> RenderView {
    RenderView::Cursor(screen_pos(w))
}

/// Redraw a window whole: its text, its status bar, the cursor.
pub open spec fn full_renders(w: WindowView) -> Seq<RenderView> {
    seq![render_window(w), render_status(w), render_cursor(w)]
}

/// A window can be redrawn whole.
pub open spec fn full_ok(w: WindowView) -> bool {
    window_text_ok(w) && status_ok(w)
}

/// The status bar and the cursor of a window, after its text when it
/// scrolled.
pub open spec fn move_renders(w: WindowView, scrolled: bool) -> Seq<RenderView> {
    (if scrolled { seq![render_window(w)] } else { Seq::empty() }) + seq![
        render_status(w),
        render_cursor(w),
    ]
}

/// The shape the cursor takes in a mode, if it changes.
pub open spec fn mode_renders(m: Mode) -> Seq<RenderView> {
    match m {
        Mode::Normal => seq![RenderView::CursorShapeBlock],
        Mode::Command => Seq::empty(),
        Mode::Insert => seq![RenderView::CursorShapeLine],
    }
}

/// The editor with `w` as its focused window.
pub open spec fn with_focused(v: ReViView, w: WindowView) -> ReViView {
    ReViView { windows: v.windows.update(v.focused as int, w), ..v }
}

/// The focused window of the editor.
pub open spec fn focused_view(v: ReViView) -> WindowView {
    v.windows[v.focused as int]
}

/// The focused window after a command.
pub open spec fn window_after(w: WindowView, count: usize, c: ReViCommand) -> WindowView {
    match c {
        ReViCommand::CursorUp => moved_up(w, count),
        ReViCommand::CursorDown => moved_down(w, count),
        ReViCommand::CursorLeft => moved_left(w, count),
        ReViCommand::CursorRight => moved_right(w, count),
        ReViCommand::Home => moved_left(w, w.cursor.x),
        ReViCommand::End => moved_right(w, usize::MAX),
        ReViCommand::DeleteChar => char_deleted(w),
        ReViCommand::DeleteLine => line_deleted(w),
        ReViCommand::NewLine => enter_inserted(w),
        ReViCommand::Backspace => backspaced(w),
        ReViCommand::InsertChar(ch) => char_inserted(w, ch),
        ReViCommand::Mode(m) => WindowView { mode: m, ..w },
        _ => w,
    }
}

/// What a command on the focused window `w` asks to draw: all of it at
/// start-up and after an edit, the text only when a move scrolled, the
/// status bar and the cursor after a move, the cursor's shape and the
/// status bar after a change of mode.
pub open spec fn window_renders(w: WindowView, count: usize, c: ReViCommand) -> Seq<RenderView> {
    let after = window_after(w, count, c);
    match c {
        ReViCommand::StartUp => full_renders(w),
        ReViCommand::CursorUp => move_renders(after, up_scrolls(w, count)),
        ReViCommand::CursorDown => move_renders(after, down_scrolls(w, count)),
        ReViCommand::CursorLeft => move_renders(after, false),
        ReViCommand::CursorRight => move_renders(after, false),
        ReViCommand::Mode(m) => mode_renders(m).push(render_status(after)),
        ReViCommand::Save => Seq::empty(),
        ReViCommand::Quit => Seq::empty(),
        _ => full_renders(after),
    }
}

/// When a command on the focused window `w` stays within its text and
/// what is drawn after it can be drawn.
pub open spec fn window_ok(w: WindowView, count: usize, c: ReViCommand) -> bool {
    let after = window_after(w, count, c);
    match c {
        ReViCommand::StartUp => full_ok(w),
        ReViCommand::CursorUp => up_ok(w, count) && status_ok(after) && (up_scrolls(w, count)
            ==> window_text_ok(after)),
        ReViCommand::CursorDown => down_ok(w, count) && status_ok(after) && (down_scrolls(
            w,
            count,
        ) ==> window_text_ok(after)),
        ReViCommand::CursorLeft => status_ok(after),
        ReViCommand::CursorRight => file_row(w) <= usize::MAX && adjust_ok(w) && status_ok(after),
        ReViCommand::Mode(_) => status_ok(after),
        ReViCommand::Save => true,
        ReViCommand::Quit => true,
        ReViCommand::End => file_row(w) <= usize::MAX && adjust_ok(w) && full_ok(after),
        ReViCommand::DeleteChar => delete_ok(w) && full_ok(after),
        ReViCommand::DeleteLine => delete_line_ok(w) && full_ok(after),
        ReViCommand::NewLine => enter_ok(w) && full_ok(after),
        ReViCommand::Backspace => backspace_ok(w) && full_ok(after),
        ReViCommand::InsertChar(ch) => insert_ok(w, ch) && full_ok(after),
        ReViCommand::Home => full_ok(after),
    }
}

/// The editor after one command on its focused window.
pub open spec fn step_state(v: ReViView, count: usize, c: ReViCommand) -> ReViView {
    match c {
        ReViCommand::StartUp => v,
        ReViCommand::Save => v,
        ReViCommand::Quit => ReViView { is_running: false, ..v },
        _ => with_focused(v, window_after(focused_view(v), count, c)),
    }
}

/// What one command asks to draw.
pub open spec fn step_renders(v: ReViView, count: usize, c: ReViCommand) -> Seq<RenderView> {
    window_renders(focused_view(v), count, c)
}

/// What one command asks to save: the focused window's text under its
/// name, for `Save`.
pub open spec fn step_saves(v: ReViView, c: ReViCommand) -> Seq<(Seq<char>, Seq<char>)> {
    let w = focused_view(v);
    match c {
        ReViCommand::Save => seq![(name_text(w), w.text)],
        _ => Seq::empty(),
    }
}

/// When one command can be carried out: the focused window exists, the
/// command stays within its text, and what is drawn after it can be
/// drawn.
pub open spec fn step_ok(v: ReViView, count: usize, c: ReViCommand) -> bool {
    v.focused < v.windows.len() && window_ok(focused_view(v), count, c)
}

/// The editor after a list of commands.
pub open spec fn run_state(v: ReViView, count: usize, cs: Seq<ReViCommand>) -> ReViView
    decreases cs.len(),
{
    if cs.len() == 0 {
        v
    } else {
        step_state(run_state(v, count, cs.drop_last()), count, cs.last())
    }
}

/// What a list of commands asks to draw, in order.
pub open spec fn run_renders(v: ReViView, count: usize, cs: Seq<ReViCommand>) -> Seq<RenderView>
    decreases cs.len(),
{
    if cs.len() == 0 {
        Seq::empty()
    } else {
        run_renders(v, count, cs.drop_last()) + step_renders(
            run_state(v, count, cs.drop_last()),
            count,
            cs.last(),
        )
    }
}

/// What a list of commands asks to save, in order.
pub open spec fn run_saves(v: ReViView, count: usize, cs: Seq<ReViCommand>) -> Seq<
    (Seq<char>, Seq<char>),
>
    decreases cs.len(),
{
    if cs.len() == 0 {
        Seq::empty()
    } else {
        run_saves(v, count, cs.drop_last()) + step_saves(
            run_state(v, count, cs.drop_last()),
            cs.last(),
        )
    }
}

/// When each command of a list can be carried out in turn.
pub open spec fn run_ok(v: ReViView, count: usize, cs: Seq<ReViCommand>) -> bool
    decreases cs.len(),
{
    cs.len() == 0 || (run_ok(v, count, cs.drop_last()) && step_ok(
        run_state(v, count, cs.drop_last()),
        count,
        cs.last(),
    ))
}

/// Appends the request to draw `w`'s text.
fn push_window(out: &mut Vec<Render>, w: &Window)
    requires
        window_text_ok(w@),
    ensures
        render_views(final(out)@) == render_views(old(out)@).push(render_window(w@)),
{
    let r = Render::Window { pos: w.window_offset, text: w.to_string() };
    out.push(r);
    proof {
        assert(render_views(out@) =~= render_views(old(out)@).push(render_window(w@)));
    }
}

/// Appends the requests to draw `w`'s status bar and its cursor.
fn push_status_cursor(out: &mut Vec<Render>, w: &Window)
    requires
        status_ok(w@),
    ensures
        render_views(final(out)@) == render_views(old(out)@) + seq![
            render_status(w@),
            render_cursor(w@),
        ],
{
    let s = Render::StatusBar { pos: w.status_bar_pos(), text: w.status_bar() };
    out.push(s);
    let c = Render::Cursor(w.cursor_screen());
    out.push(c);
    proof {
        assert(render_views(out@) =~= render_views(old(out)@) + seq![
            render_status(w@),
            render_cursor(w@),
        ]);
    }
}

/// What a list of save requests holds.
pub open spec fn save_views(v: Seq<SaveRequest>) -> Seq<(Seq<char>, Seq<char>)> {
    v.map_values(|s: SaveRequest| save_view(s))
}

/// Appends the request to draw `w`'s status bar.
fn push_status(out: &mut Vec<Render>, w: &Window)
    requires
        status_ok(w@),
    ensures
        render_views(final(out)@) == render_views(old(out)@).push(render_status(w@)),
{
    let s = Render::StatusBar { pos: w.status_bar_pos(), text: w.status_bar() };
    out.push(s);
    proof {
        assert(render_views(out@) =~= render_views(old(out)@).push(render_status(w@)));
    }
}

/// Carries out a move or a change of mode on `w`, appending what is to be
/// drawn.
fn window_move(w: &mut Window, count: usize, c: ReViCommand, renders: &mut Vec<Render>)
    requires
        c is CursorUp || c is CursorDown || c is CursorLeft || c is CursorRight || c is Mode,
        window_ok(old(w)@, count, c),
    ensures
        final(w)@ == window_after(old(w)@, count, c),
        render_views(final(renders)@) == render_views(old(renders)@) + window_renders(
            old(w)@,
            count,
            c,
        ),
{
    let ghost r0 = render_views(renders@);
    match c {
        ReViCommand::CursorUp => {
            let scrolled = w.move_cursor_up(count);
            if scrolled {
                push_window(renders, w);
            }
            push_status_cursor(renders, w);
        },
        ReViCommand::CursorDown => {
            let scrolled = w.move_cursor_down(count);
            if scrolled {
                push_window(renders, w);
            }
            push_status_cursor(renders, w);
        },
        ReViCommand::CursorLeft => {
            w.move_cursor_left(count);
            push_status_cursor(renders, w);
        },
        ReViCommand::CursorRight => {
            w.move_cursor_right(count);
            push_status_cursor(renders, w);
        },
        ReViCommand::Mode(m) => {
            match m {
                Mode::Normal => renders.push(Render::CursorShapeBlock),
                Mode::Command => {},
                Mode::Insert => renders.push(Render::CursorShapeLine),
            }
            w.mode = m;
            proof {
                assert(render_views(renders@) =~= r0 + mode_renders(m));
            }
            push_status(renders, w);
        },
        _ => {},
    }
    proof {
        assert(render_views(renders@) =~= r0 + window_renders(old(w)@, count, c));
    }
}

/// Carries out an edit on `w`, appending the requests to redraw it.
fn window_edit(w: &mut Window, count: usize, c: ReViCommand, renders: &mut Vec<Render>)
    requires
        c is Home || c is End || c is DeleteChar || c is DeleteLine || c is NewLine
            || c is Backspace || c is InsertChar,
        window_ok(old(w)@, count, c),
    ensures
        final(w)@ == window_after(old(w)@, count, c),
        render_views(final(renders)@) == render_views(old(renders)@) + window_renders(
            old(w)@,
            count,
            c,
        ),
{
    match c {
        ReViCommand::Home => w.home(),
        ReViCommand::End => w.end(),
        ReViCommand::DeleteChar => w.delete(),
        ReViCommand::DeleteLine => w.delete_line(),
        ReViCommand::NewLine => w.insert_enter(),
        ReViCommand::Backspace => w.backspace(),
        ReViCommand::InsertChar(ch) => w.insert_char(ch),
        _ => {},
    }
    push_window(renders, w);
    push_status_cursor(renders, w);
    proof {
        assert(render_views(renders@) =~= render_views(old(renders)@) + full_renders(w@));
    }
}

/// Carries out a command other than start-up, save or quit on `w`,
/// appending what is to be drawn.
fn window_step(w: &mut Window, count: usize, c: ReViCommand, renders: &mut Vec<Render>)
    requires
        !(c is StartUp || c is Save || c is Quit),
        window_ok(old(w)@, count, c),
    ensures
        final(w)@ == window_after(old(w)@, count, c),
        render_views(final(renders)@) == render_views(old(renders)@) + window_renders(
            old(w)@,
            count,
            c,
        ),
{
    match c {
        ReViCommand::CursorUp | ReViCommand::CursorDown | ReViCommand::CursorLeft
        | ReViCommand::CursorRight | ReViCommand::Mode(_) => window_move(w, count, c, renders),
        _ => window_edit(w, count, c, renders),
    }
}

/// Commands are carried out in turn: running `a` then `b` is running `a`
/// followed by `b`, drawing and saving what each asks in order, and the
/// whole can be carried out exactly when `a` can and then `b` can.
pub proof fn lemma_run_append(v: ReViView, count: usize, a: Seq<ReViCommand>, b: Seq<ReViCommand>)
    ensures
        run_state(v, count, a + b) == run_state(run_state(v, count, a), count, b),
        run_renders(v, count, a + b) == run_renders(v, count, a) + run_renders(
            run_state(v, count, a),
            count,
            b,
        ),
        run_saves(v, count, a + b) == run_saves(v, count, a) + run_saves(
            run_state(v, count, a),
            count,
            b,
        ),
        run_ok(v, count, a + b) == (run_ok(v, count, a) && run_ok(
            run_state(v, count, a),
            count,
            b,
        )),
    decreases b.len(),
{
    if b.len() == 0 {
        assert(a + b =~= a);
    } else {
        lemma_run_append(v, count, a, b.drop_last());
        assert((a + b).drop_last() =~= a + b.drop_last());
        assert((a + b).last() == b.last());
        let w = run_state(v, count, a);
        assert(run_renders(v, count, a + b) =~= run_renders(v, count, a) + run_renders(w, count, b));
        assert(run_saves(v, count, a + b) =~= run_saves(v, count, a) + run_saves(w, count, b));
    }
}

/// Every prefix of a list of commands that can be carried out can be too.
pub proof fn lemma_run_ok_prefix(v: ReViView, count: usize, cs: Seq<ReViCommand>, i: int)
    requires
        run_ok(v, count, cs),
        0 <= i <= cs.len(),
    ensures
        run_ok(v, count, cs.take(i)),
    decreases cs.len(),
{
    if i < cs.len() {
        assert(cs.take(i) =~= cs.drop_last().take(i));
        lemma_run_ok_prefix(v, count, cs.drop_last(), i);
    } else {
        assert(cs.take(i) =~= cs);
    }
}

impl ReVi {
    /// An editor for a terminal `w` columns wide and `h` rows high, with
    /// one window over `buffer` two rows shorter than the terminal, and a
    /// blank command bar.
    pub fn new(buffer: Rope, path: Option<String>, w: u16, h: u16) -> (r: ReVi)
        ensures
            r@.size == (Position { x: w as usize, y: h as usize }),
            r@.is_running,
            r@.focused == 0,
            r@.command == repeat_char(' ', w as nat),
            r@.windows.len() == 1,
            r@.windows[0] == (WindowView {
                mode: Mode::Normal,
                dimensions: Position {
                    x: w as usize,
                    y: (if h >= 2 { h - 2 } else { 0 }) as usize,
                },
                window_offset: Position { x: 0, y: 0 },
                scroll_offset: Position { x: 0, y: 0 },
                cursor: Position { x: 0, y: 0 },
                max_cursor: Position { x: 0, y: 0 },
                text: rope_text(buffer),
                name: match path {
                    Some(n) => Some(n@),
                    None => None,
                },
                debug: "No Info"@,
            }),
    {
        let window = Window::new(w, h.saturating_sub(2), buffer, path);
        let mut windows: Vec<Window> = Vec::new();
        windows.push(window);
        let mut blank: Vec<char> = Vec::new();
        push_repeat(&mut blank, ' ', w as usize);
        let r = ReVi {
            size: Position::new_u16(w, h),
            is_running: true,
            windows,
            focused: 0,
            command: string_of(blank.as_slice()),
        };
        proof {
            assert(r@.windows[0] == r.windows@[0]@);
        }
        r
    }

    /// Where each window stands on the terminal, cut to 16 bits.
    pub fn _windows_locations(&self) -> (r: Vec<(u16, u16)>)
        ensures
            r@.len() == self.windows@.len(),
            forall|i: int|
                0 <= i < r@.len() ==> r@[i] == (
                    self.windows@[i].window_offset.x as u16,
                    self.windows@[i].window_offset.y as u16,
                ),
    {
        let mut r: Vec<(u16, u16)> = Vec::new();
        let mut i: usize = 0;
        while i < self.windows.len()
            invariant
                i <= self.windows@.len(),
                r@.len() == i,
                forall|j: int|
                    0 <= j < i ==> r@[j] == (
                        self.windows@[j].window_offset.x as u16,
                        self.windows@[j].window_offset.y as u16,
                    ),
            decreases self.windows@.len() - i,
        {
            r.push(self.windows[i].window_offset.as_u16());
            i += 1;
        }
        r
    }

    /// The focused window's cursor on the terminal, cut to 16 bits.
    pub fn cursor_position_u16(&self) -> (r: (u16, u16))
        requires
            self.focused < self.windows@.len(),
            screen_pos_ok(self.windows@[self.focused as int]@),
        ensures
            r == (
                screen_pos(self.windows@[self.focused as int]@).x as u16,
                screen_pos(self.windows@[self.focused as int]@).y as u16,
            ),
    {
        self.windows[self.focused].cursor_screen().as_u16()
    }

    /// Puts the focused window's cursor at `(x, y)` in the window.
    pub fn set_cursor_position(&mut self, x: u16, y: u16)
        requires
            old(self).focused < old(self).windows@.len(),
        ensures
            final(self)@ == with_focused(
                old(self)@,
                WindowView {
                    cursor: Position { x: x as usize, y: y as usize },
                    ..focused_view(old(self)@)
                },
            ),
    {
        let f = self.focused;
        let mut w = self.windows.remove(f);
        w.cursor = Position::new_u16(x, y);
        self.windows.insert(f, w);
        proof {
            assert(self@.windows =~= old(self)@.windows.update(f as int, w@));
        }
    }

    /// The focused window's mode.
    pub fn mode(&self) -> (m: &Mode)
        requires
            self.focused < self.windows@.len(),
        ensures
            *m == self.windows@[self.focused as int].mode,
    {
        &self.focused_window().mode
    }

    /// The focused window's mode, to change in place.
    pub fn mode_mut(&mut self) -> (m: &mut Mode)
        requires
            old(self).focused < old(self).windows@.len(),
        ensures
            *m == old(self).windows@[old(self).focused as int].mode,
            final(self).windows@ == old(self).windows@.update(
                old(self).focused as int,
                Window { mode: *final(m), ..old(self).windows@[old(self).focused as int] },
            ),
            final(self).focused == old(self).focused,
            final(self).size == old(self).size,
            final(self).is_running == old(self).is_running,
            final(self).command == old(self).command,
    {
        let f = self.focused;
        &mut self.windows[f].mode
    }

    /// The focused window, to change in place.
    pub fn focused_window_mut(&mut self) -> (w: &mut Window)
        requires
            old(self).focused < old(self).windows@.len(),
        ensures
            *w == old(self).windows@[old(self).focused as int],
            final(self).windows@ == old(self).windows@.update(old(self).focused as int, *final(w)),
            final(self).focused == old(self).focused,
            final(self).size == old(self).size,
            final(self).is_running == old(self).is_running,
            final(self).command == old(self).command,
    {
        let f = self.focused;
        &mut self.windows[f]
    }

    /// The focused window.
    pub fn focused_window(&self) -> (w: &Window)
        requires
            self.focused < self.windows@.len(),
        ensures
            *w == self.windows@[self.focused as int],
    {
        &self.windows[self.focused]
    }

    /// Carries out one command on the focused window, appending what is
    /// to be drawn to `renders` and what is to be saved to `saves`.
        fn step(
        &mut self,
        count: usize,
        c: ReViCommand,
        renders: &mut Vec<Render>,
        saves: &mut Vec<SaveRequest>,
    )
        requires
            step_ok(old(self)@, count, c),
        ensures
            final(self)@ == step_state(old(self)@, count, c),
            render_views(final(renders)@) == render_views(old(renders)@) + step_renders(
                old(self)@,
                count,
                c,
            ),
            save_views(final(saves)@) == save_views(old(saves)@) + step_saves(old(self)@, c),
    {
        let f = self.focused;
        let ghost v = self@;
        match c {
            ReViCommand::StartUp => {
                let w = &self.windows[f];
                push_window(renders, w);
                push_status_cursor(renders, w);
                proof {
                    assert(render_views(renders@) =~= render_views(old(renders)@) + full_renders(
                        v.windows[f as int],
                    ));
                }
            },
            ReViCommand::Save => {
                let w = &self.windows[f];
                let req = SaveRequest { path: w.buffer_name(), text: w.buffer.clone() };
                saves.push(req);
                proof {
                    assert(save_views(saves@) =~= save_views(old(saves)@) + step_saves(v, c));
                    assert(render_views(renders@) =~= render_views(old(renders)@) + step_renders(
                        v,
                        count,
                        c,
                    ));
                }
            },
            ReViCommand::Quit => {
                self.is_running = false;
                proof {
                    assert(render_views(renders@) =~= render_views(old(renders)@) + step_renders(
                        v,
                        count,
                        c,
                    ));
                    assert(save_views(saves@) =~= save_views(old(saves)@) + step_saves(v, c));
                }
            },
            _ => {
                let mut w = self.windows.remove(f);
                proof {
                    assert(w@ == v.windows[f as int]);
                }
                window_step(&mut w, count, c, renders);
                self.windows.insert(f, w);
                proof {
                    assert(self@.windows =~= v.windows.update(f as int, w@));
                    assert(save_views(saves@) =~= save_views(old(saves)@) + step_saves(v, c));
                }
            },
        }
    }

    /// Carries out `commands` on the focused window in turn, `count` times
    /// each where a command moves; returns that the typed keys are cleared,
    /// what is to be drawn and which
    /// files are to be saved, in order.
    pub fn execute(&mut self, count: usize, commands: &[ReViCommand]) -> (r: (
        InputState,
        Vec<Render>,
        Vec<SaveRequest>,
    ))
        requires
            run_ok(old(self)@, count, commands@),
        ensures
            r.0 == InputState::Clear,
            final(self)@ == run_state(old(self)@, count, commands@),
            render_views(r.1@) == run_renders(old(self)@, count, commands@),
            save_views(r.2@) == run_saves(old(self)@, count, commands@),
    {
        let mut renders: Vec<Render> = Vec::new();
        let mut saves: Vec<SaveRequest> = Vec::new();
        let mut i: usize = 0;
        proof {
            assert(commands@.take(0) =~= Seq::<ReViCommand>::empty());
            assert(render_views(renders@) =~= Seq::<RenderView>::empty());
            assert(save_views(saves@) =~= Seq::<(Seq<char>, Seq<char>)>::empty());
        }
        while i < commands.len()
            invariant
                i <= commands@.len(),
                run_ok(old(self)@, count, commands@),
                self@ == run_state(old(self)@, count, commands@.take(i as int)),
                render_views(renders@) == run_renders(old(self)@, count, commands@.take(i as int)),
                save_views(saves@) == run_saves(old(self)@, count, commands@.take(i as int)),
            decreases commands@.len() - i,
        {
            let ghost cs = commands@.take(i + 1);
            proof {
                assert(cs.drop_last() =~= commands@.take(i as int));
                assert(cs.last() == commands@[i as int]);
                lemma_run_ok_prefix(old(self)@, count, commands@, i + 1);
            }
            self.step(count, commands[i], &mut renders, &mut saves);
            i += 1;
        }
        proof {
            assert(commands@.take(commands@.len() as int) =~= commands@);
        }
        (InputState::Clear, renders, saves)
    }

    /// Where the command bar goes: the first column of the last row.
    fn _command_bar_pos(&self) -> (p: Position)
        ensures
            p == (Position { x: 0, y: (self.size.y as u16) as usize }),
    {
        Position::new_u16(0, self.size.as_u16_y())
    }
}

/// A one-key sequence is none of the longer built-in ones.
proof fn lemma_not_long(k: Key)
    ensures
        seq![k] != seq![Key::UZ, Key::Shift, Key::UZ, Key::Shift],
        seq![k] != seq![Key::UZ, Key::Shift, Key::UQ, Key::Shift],
{
    assert(seq![Key::UZ, Key::Shift, Key::UZ, Key::Shift].len() == 4);
    assert(seq![Key::UZ, Key::Shift, Key::UQ, Key::Shift].len() == 4);
}

/// One-key sequences of different keys differ.
proof fn lemma_one_key_differ(a: Key, b: Key)
    requires
        a != b,
    ensures
        seq![a] != seq![b],
{
    assert(seq![a][0] != seq![b][0]);
}

proof fn lemma_h_binding()
    ensures
        default_binding(Mode::Normal, seq![Key::LH]) == Some(seq![ReViCommand::CursorLeft]),
{
    lemma_not_long(Key::LH);
    lemma_one_key_differ(Key::LH, Key::Esc);
    lemma_one_key_differ(Key::LH, Key::LJ);
    lemma_one_key_differ(Key::LH, Key::LK);
}

proof fn lemma_l_binding()
    ensures
        default_binding(Mode::Normal, seq![Key::LL]) == Some(seq![ReViCommand::CursorRight]),
{
    lemma_not_long(Key::LL);
    lemma_one_key_differ(Key::LL, Key::Esc);
    lemma_one_key_differ(Key::LL, Key::LJ);
    lemma_one_key_differ(Key::LL, Key::LK);
    lemma_one_key_differ(Key::LL, Key::LH);
}

proof fn lemma_k_binding()
    ensures
        default_binding(Mode::Normal, seq![Key::LK]) == Some(seq![ReViCommand::CursorUp]),
{
    lemma_not_long(Key::LK);
    lemma_one_key_differ(Key::LK, Key::Esc);
    lemma_one_key_differ(Key::LK, Key::LJ);
}

proof fn lemma_j_binding()
    ensures
        default_binding(Mode::Normal, seq![Key::LJ]) == Some(seq![ReViCommand::CursorDown]),
{
    lemma_not_long(Key::LJ);
    lemma_one_key_differ(Key::LJ, Key::Esc);
}

/// In Normal mode each of `h`, `l`, `k` and `j` is bound to one command:
/// `h`'s moves the cursor one column left, `l`'s one column right within its
/// line, `k`'s one line up, and `j`'s one line down within the window and
/// the text; the column moves keep the cursor's row.
pub proof fn lemma_hjkl_moves(w: WindowView)
    ensures
        (default_binding(Mode::Normal, seq![Key::LH]) matches Some(cs) && cs.len() == 1
            && window_after(w, 1, cs[0]).cursor.y == w.cursor.y
            && (w.cursor.x > 0 ==> window_after(w, 1, cs[0]).cursor.x == w.cursor.x - 1)),
        (default_binding(Mode::Normal, seq![Key::LL]) matches Some(cs) && cs.len() == 1
            && window_after(w, 1, cs[0]).cursor.y == w.cursor.y
            && ((w.cursor.x < usize::MAX && w.cursor.x + 1 <= row_len(w.text, file_row(w)))
            ==> window_after(w, 1, cs[0]).cursor.x == w.cursor.x + 1)),
        (default_binding(Mode::Normal, seq![Key::LK]) matches Some(cs) && cs.len() == 1
            && (w.cursor.y > 0 ==> file_row(window_after(w, 1, cs[0])) == file_row(w) - 1)),
        (default_binding(Mode::Normal, seq![Key::LJ]) matches Some(cs) && cs.len() == 1
            && ((w.scroll_offset.y == 0 && w.window_offset.y == 0 && w.cursor.y + 1
            < w.dimensions.y && w.cursor.y + 2 <= line_count(w.text)) ==> file_row(
            window_after(w, 1, cs[0]),
        ) == file_row(w) + 1)),
{
    lemma_window_definitions(w, 1, ' ');
    lemma_h_binding();
    lemma_l_binding();
    lemma_k_binding();
    lemma_j_binding();
    let l = seq![ReViCommand::CursorLeft];
    let r = seq![ReViCommand::CursorRight];
    let u = seq![ReViCommand::CursorUp];
    let d = seq![ReViCommand::CursorDown];
    assert(l[0] == ReViCommand::CursorLeft && r[0] == ReViCommand::CursorRight);
    assert(u[0] == ReViCommand::CursorUp && d[0] == ReViCommand::CursorDown);
}

proof fn lemma_i_binding()
    ensures
        default_binding(Mode::Normal, seq![Key::LI]) == Some(seq![ReViCommand::Mode(Mode::Insert)]),
{
    lemma_not_long(Key::LI);
    lemma_one_key_differ(Key::LI, Key::Esc);
    lemma_one_key_differ(Key::LI, Key::LJ);
    lemma_one_key_differ(Key::LI, Key::LK);
    lemma_one_key_differ(Key::LI, Key::LH);
    lemma_one_key_differ(Key::LI, Key::LL);
    lemma_one_key_differ(Key::LI, Key::Colon);
}

proof fn lemma_colon_binding()
    ensures
        default_binding(Mode::Normal, seq![Key::Colon]) == Some(seq![ReViCommand::Mode(Mode::Command)]),
{
    lemma_not_long(Key::Colon);
    lemma_one_key_differ(Key::Colon, Key::Esc);
    lemma_one_key_differ(Key::Colon, Key::LJ);
    lemma_one_key_differ(Key::Colon, Key::LK);
    lemma_one_key_differ(Key::Colon, Key::LH);
    lemma_one_key_differ(Key::Colon, Key::LL);
}

proof fn lemma_x_delete_binding()
    ensures
        default_binding(Mode::Normal, seq![Key::LX]) == Some(seq![ReViCommand::DeleteChar]),
        default_binding(Mode::Normal, seq![Key::Delete]) == Some(seq![ReViCommand::DeleteChar]),
{
    lemma_not_long(Key::LX);
    lemma_not_long(Key::Delete);
    lemma_one_key_differ(Key::LX, Key::Esc);
    lemma_one_key_differ(Key::LX, Key::LJ);
    lemma_one_key_differ(Key::LX, Key::LK);
    lemma_one_key_differ(Key::LX, Key::LH);
    lemma_one_key_differ(Key::LX, Key::LL);
    lemma_one_key_differ(Key::LX, Key::Colon);
    lemma_one_key_differ(Key::LX, Key::LI);
    lemma_one_key_differ(Key::Delete, Key::Esc);
    lemma_one_key_differ(Key::Delete, Key::LJ);
    lemma_one_key_differ(Key::Delete, Key::LK);
    lemma_one_key_differ(Key::Delete, Key::LH);
    lemma_one_key_differ(Key::Delete, Key::LL);
    lemma_one_key_differ(Key::Delete, Key::Colon);
    lemma_one_key_differ(Key::Delete, Key::LI);
    lemma_one_key_differ(Key::Delete, Key::LX);
}

proof fn lemma_quit_bindings()
    ensures
        default_binding(Mode::Normal, seq![Key::UZ, Key::Shift, Key::UZ, Key::Shift]) == Some(
            seq![ReViCommand::Quit, ReViCommand::Save],
        ),
        default_binding(Mode::Normal, seq![Key::UZ, Key::Shift, Key::UQ, Key::Shift]) == Some(
            seq![ReViCommand::Quit],
        ),
{
    assert(seq![Key::UZ, Key::Shift, Key::UZ, Key::Shift] != seq![Key::Esc]) by {
        assert(seq![Key::Esc].len() == 1);
    }
    assert(seq![Key::UZ, Key::Shift, Key::UQ, Key::Shift] != seq![Key::Esc]) by {
        assert(seq![Key::Esc].len() == 1);
    }
    assert(seq![Key::UZ, Key::Shift, Key::UQ, Key::Shift] != seq![Key::UZ, Key::Shift, Key::UZ, Key::Shift]) by {
        assert(seq![Key::UZ, Key::Shift, Key::UQ, Key::Shift][2] != seq![Key::UZ, Key::Shift, Key::UZ, Key::Shift][2]);
    }
}

proof fn lemma_esc_insert_bindings()
    ensures
        default_binding(Mode::Normal, seq![Key::Esc]) == Some(seq![ReViCommand::Mode(Mode::Normal)]),
        default_binding(Mode::Insert, seq![Key::Esc]) == Some(seq![ReViCommand::Mode(Mode::Normal)]),
        default_binding(Mode::Command, seq![Key::Esc]) == Some(seq![ReViCommand::Mode(Mode::Normal)]),
        default_binding(Mode::Insert, seq![Key::Backspace]) == Some(seq![ReViCommand::Backspace]),
        default_binding(Mode::Insert, seq![Key::Enter]) == Some(seq![ReViCommand::NewLine]),
{
    lemma_one_key_differ(Key::Backspace, Key::Esc);
    lemma_one_key_differ(Key::Enter, Key::Esc);
    lemma_one_key_differ(Key::Enter, Key::Backspace);
}

/// The other built-in keys, by what their commands do: `Esc` puts the
/// window in Normal mode in every mode; in Normal mode `i` puts it in
/// Insert mode and `:` in Command mode, `x` is bound as `Delete` is and
/// removes the character under the cursor, `ZZ` saves and quits and `ZQ`
/// quits without saving; in Insert mode `Backspace` removes the character
/// before the cursor and `Enter` puts a line break at the cursor.
pub proof fn lemma_other_keys(w: WindowView, mode: Mode)
    ensures
        (default_binding(mode, seq![Key::Esc]) matches Some(cs) && cs.len() == 1
            && window_after(w, 1, cs[0]).mode == Mode::Normal),
        (default_binding(Mode::Normal, seq![Key::LI]) matches Some(cs) && cs.len() == 1
            && window_after(w, 1, cs[0]).mode == Mode::Insert),
        (default_binding(Mode::Normal, seq![Key::Colon]) matches Some(cs) && cs.len() == 1
            && window_after(w, 1, cs[0]).mode == Mode::Command),
        default_binding(Mode::Normal, seq![Key::LX]) == default_binding(
            Mode::Normal,
            seq![Key::Delete],
        ),
        (default_binding(Mode::Normal, seq![Key::LX]) matches Some(cs) && cs.len() == 1
            && (char_index(w) < w.text.len() ==> window_after(w, 1, cs[0]).text == removed_at(
            w.text,
            char_index(w),
        ))),
        (default_binding(Mode::Normal, seq![Key::UZ, Key::Shift, Key::UZ, Key::Shift]) matches Some(
            cs,
        ) && cs.contains(ReViCommand::Save) && cs.contains(ReViCommand::Quit)),
        (default_binding(Mode::Normal, seq![Key::UZ, Key::Shift, Key::UQ, Key::Shift]) matches Some(
            cs,
        ) && !cs.contains(ReViCommand::Save) && cs.contains(ReViCommand::Quit)),
        (default_binding(Mode::Insert, seq![Key::Backspace]) matches Some(cs) && cs.len() == 1
            && (!backspace_skips(w) ==> window_after(w, 1, cs[0]).text == removed_at(
            w.text,
            backspace_index(w),
        ))),
        (default_binding(Mode::Insert, seq![Key::Enter]) matches Some(cs) && cs.len() == 1
            && window_after(w, 1, cs[0]).text == inserted_at(w.text, char_index(w), '\n')),
{
    lemma_window_definitions(w, 1, '\n');
    let ins = with_text(w, inserted_at(w.text, char_index(w), '\n'));
    lemma_window_definitions(ins, 1, '\n');
    lemma_window_definitions(char_inserted(w, '\n'), 1, '\n');
    let r = with_text(w, removed_at(w.text, backspace_index(w)));
    lemma_window_definitions(r, 1, '\n');
    lemma_esc_insert_bindings();
    lemma_i_binding();
    lemma_colon_binding();
    lemma_x_delete_binding();
    lemma_quit_bindings();
    let zz = seq![ReViCommand::Quit, ReViCommand::Save];
    let zq = seq![ReViCommand::Quit];
    assert(zz[1] == ReViCommand::Save && zz[0] == ReViCommand::Quit);
    assert(zq[0] == ReViCommand::Quit);
    assert(!zq.contains(ReViCommand::Save)) by {
        if zq.contains(ReViCommand::Save) {
            let k = choose|k: int| 0 <= k < zq.len() && zq[k] == ReViCommand::Save;
        }
    }
    assert(seq![ReViCommand::Mode(Mode::Normal)][0] == ReViCommand::Mode(Mode::Normal));
    assert(seq![ReViCommand::Mode(Mode::Insert)][0] == ReViCommand::Mode(Mode::Insert));
    assert(seq![ReViCommand::Mode(Mode::Command)][0] == ReViCommand::Mode(Mode::Command));
    assert(seq![ReViCommand::DeleteChar][0] == ReViCommand::DeleteChar);
    assert(seq![ReViCommand::Backspace][0] == ReViCommand::Backspace);
    assert(seq![ReViCommand::NewLine][0] == ReViCommand::NewLine);
}

/// Home puts the cursor on the first column of its row and End at the end
/// of its line; both keep the row and remember the new column.
pub proof fn lemma_home_end(w: WindowView)
    ensures
        window_after(w, 1, ReViCommand::Home).cursor == (Position { x: 0, y: w.cursor.y }),
        window_after(w, 1, ReViCommand::Home).max_cursor.x == 0,
        row_len(w.text, file_row(w)) < usize::MAX ==> window_after(w, 1, ReViCommand::End).cursor
            == (Position { x: row_len(w.text, file_row(w)) as usize, y: w.cursor.y }),
        window_after(w, 1, ReViCommand::End).max_cursor.x == window_after(
            w,
            1,
            ReViCommand::End,
        ).cursor.x,
{
    lemma_window_definitions(w, w.cursor.x, ' ');
    lemma_window_definitions(w, usize::MAX, ' ');
}

} // verus!
