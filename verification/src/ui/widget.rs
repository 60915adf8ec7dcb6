//! Widgets and containers: what can be drawn, where a container places its
//! children, and the draw commands that drawing yields, for the terminal to
//! print in order.
use vstd::prelude::*;
use crate::strings::string_from;
use crate::ui::layout::{Pos, Rect, Size, Stack};
use crate::ui::style::Style;
use crate::ui::text::{aligned, Text};

verus! {

/// Text to print at a place of the screen, in a style.
#[derive(Debug)]
pub struct DrawCommand {
    pub x: u16,
    pub y: u16,
    pub text: String,
    pub style: Style,
}

/// What a draw command prints, and where and how.
pub open spec fn draw_view(d: DrawCommand) -> (u16, u16, Seq<char>, Style) {
    (d.x, d.y, d.text@, d.style)
}

/// What a list of draw commands prints, in order.
pub open spec fn draw_views(ds: Seq<DrawCommand>) -> Seq<(u16, u16, Seq<char>, Style)> {
    ds.map_values(|d: DrawCommand| draw_view(d))
}

/// Something that can be drawn: it asks for a place and a size, and draws
/// itself within the bounds it is given.
pub trait Widget {
    /// Whether drawing within `bounds` keeps every place on the screen.
    spec fn fits(&self, bounds: Rect) -> bool;

    fn x(&self) -> u16;

    fn y(&self) -> u16;

    fn width(&self) -> u16;

    fn height(&self) -> u16;

    fn draw(&self, bounds: Rect) -> Vec<DrawCommand>
        requires
            self.fits(bounds),
    ;

    /// The widget's name, for debugging; `DEFAULT` unless it has its own.
    fn debug_name(&self) -> (r: String)
        default_ensures
            r@ == "DEFAULT"@,
    {
        string_from("DEFAULT")
    }

    /// This widget as a container holds it.
    spec fn boxed(self) -> BoxWidget where Self: Sized;

    /// This widget, as a container holds it.
    fn into_box(self) -> (b: BoxWidget) where Self: Sized
        ensures
            b == self.boxed(),
    ;
}

/// A widget as a container holds it.
#[derive(Debug)]
pub enum BoxWidget {
    Text(Text),
    Container(Container),
}

/// A widget that places its children one after another, down or across.
#[derive(Debug)]
pub struct Container {
    pub bounds: Rect,
    stack: Stack,
    children: Vec<BoxWidget>,
    comment: Option<String>,
}

/// The place and size a widget asks for: x, y, width, height.
pub closed spec fn dims(b: BoxWidget) -> (u16, u16, u16, u16) {
    match b {
        BoxWidget::Text(t) => (0, 0, t.width_view(), t.height_view()),
        BoxWidget::Container(c) => (c.bounds.x, c.bounds.y, c.bounds.width, c.bounds.height),
    }
}

/// The places and sizes the widgets ask for.
pub open spec fn dims_of(bs: Seq<BoxWidget>) -> Seq<(u16, u16, u16, u16)> {
    bs.map_values(|b: BoxWidget| dims(b))
}

/// The smaller of two numbers.
pub open spec fn min_int(a: int, b: int) -> int {
    if a <= b { a } else { b }
}

/// Where a child goes within `current` and `root`, after the rectangle
/// `last` of the child before it: stacked down, below it, or across, to
/// its right; its size what it asks for, cut to what is left.
pub open spec fn next_rect(
    root: Rect,
    current: Rect,
    last: Rect,
    d: (u16, u16, u16, u16),
    stack: Stack,
) -> (int, int, int, int) {
    let (cx, cy, cw, ch) = d;
    match stack {
        Stack::Vertically => (
            current.x + cx + root.x,
            current.y + cy + last.height + last.y + root.y,
            min_int(min_int(cw as int, current.width as int), root.width as int),
            min_int(min_int(ch as int, current.height - last.height), root.height as int),
        ),
        Stack::Horizontally => (
            current.x + cx + last.width + last.x + root.x,
            current.y + cy + root.y,
            min_int(min_int(cw as int, current.width - last.width), root.width as int),
            min_int(min_int(ch as int, current.height as int), root.height as int),
        ),
    }
}

/// A computed rectangle whose numbers all fit the screen's.
pub open spec fn in_range(r: (int, int, int, int)) -> bool {
    &&& 0 <= r.0 <= u16::MAX
    &&& 0 <= r.1 <= u16::MAX
    &&& 0 <= r.2 <= u16::MAX
    &&& 0 <= r.3 <= u16::MAX
}

/// A computed rectangle as a rectangle of the screen.
pub open spec fn to_rect(r: (int, int, int, int)) -> Rect {
    Rect { x: r.0 as u16, y: r.1 as u16, width: r.2 as u16, height: r.3 as u16 }
}

/// The empty rectangle at the origin: what comes before the first child.
pub open spec fn zero_rect() -> Rect {
    Rect { x: 0, y: 0, width: 0, height: 0 }
}

/// The rectangles of children asking for `ds`, one after the other.
pub open spec fn layout_of(
    root: Rect,
    current: Rect,
    ds: Seq<(u16, u16, u16, u16)>,
    stack: Stack,
) -> Seq<Rect>
    decreases ds.len(),
{
    if ds.len() == 0 {
        Seq::empty()
    } else {
        let prev = layout_of(root, current, ds.drop_last(), stack);
        let last = if prev.len() == 0 { zero_rect() } else { prev.last() };
        prev.push(to_rect(next_rect(root, current, last, ds.last(), stack)))
    }
}

/// Whether every rectangle of the layout fits the screen's numbers.
pub open spec fn layout_fits(
    root: Rect,
    current: Rect,
    ds: Seq<(u16, u16, u16, u16)>,
    stack: Stack,
) -> bool
    decreases ds.len(),
{
    if ds.len() == 0 {
        true
    } else {
        let prev = layout_of(root, current, ds.drop_last(), stack);
        let last = if prev.len() == 0 { zero_rect() } else { prev.last() };
        layout_fits(root, current, ds.drop_last(), stack) && in_range(
            next_rect(root, current, last, ds.last(), stack),
        )
    }
}

/// Whether a widget, and every widget inside it, can be drawn within
/// `bounds`.
pub closed spec fn box_fits(b: BoxWidget, bounds: Rect) -> bool
    decreases b,
{
    match b {
        BoxWidget::Text(_) => true,
        BoxWidget::Container(c) => {
            let rs = layout_of(bounds, c.bounds, dims_of(c.children@), c.stack);
            layout_fits(bounds, c.bounds, dims_of(c.children@), c.stack) && children_fit(
                c.children@,
                rs,
            )
        },
    }
}

/// Whether each of the widgets can be drawn within its rectangle.
pub closed spec fn children_fit(cs: Seq<BoxWidget>, rs: Seq<Rect>) -> bool
    decreases cs,
{
    if cs.len() == 0 {
        true
    } else {
        children_fit(cs.drop_last(), rs) && box_fits(cs.last(), rs[cs.len() - 1])
    }
}

/// What drawing a widget within `bounds` prints: a text prints its line at
/// the corner of its bounds; a container, its children in order, each in
/// its rectangle of the layout.
pub closed spec fn box_draws(b: BoxWidget, bounds: Rect) -> Seq<(u16, u16, Seq<char>, Style)>
    decreases b,
{
    match b {
        BoxWidget::Text(t) => seq![
            (
                bounds.x,
                bounds.y,
                aligned(t.content_view(), bounds.width as nat, t.align_view()),
                t.style_view(),
            ),
        ],
        BoxWidget::Container(c) => children_draws(
            c.children@,
            layout_of(bounds, c.bounds, dims_of(c.children@), c.stack),
        ),
    }
}

/// What drawing each of the widgets in its rectangle prints, in order.
pub closed spec fn children_draws(cs: Seq<BoxWidget>, rs: Seq<Rect>) -> Seq<
    (u16, u16, Seq<char>, Style),
>
    decreases cs,
{
    if cs.len() == 0 {
        Seq::empty()
    } else {
        children_draws(cs.drop_last(), rs) + box_draws(cs.last(), rs[cs.len() - 1])
    }
}

proof fn lemma_layout_len(root: Rect, current: Rect, ds: Seq<(u16, u16, u16, u16)>, stack: Stack)
    ensures
        layout_of(root, current, ds, stack).len() == ds.len(),
    decreases ds.len(),
{
    if ds.len() > 0 {
        lemma_layout_len(root, current, ds.drop_last(), stack);
    }
}

/// A layout of the first children is the start of the layout of all, and
/// fits when the whole does.
proof fn lemma_layout_prefix(
    root: Rect,
    current: Rect,
    ds: Seq<(u16, u16, u16, u16)>,
    stack: Stack,
    i: int,
)
    requires
        0 <= i <= ds.len(),
    ensures
        layout_of(root, current, ds.take(i), stack) == layout_of(root, current, ds, stack).take(
            i,
        ),
        layout_fits(root, current, ds, stack) ==> layout_fits(root, current, ds.take(i), stack),
    decreases ds.len() - i,
{
    lemma_layout_len(root, current, ds, stack);
    if i == ds.len() {
        assert(ds.take(i) =~= ds);
        assert(layout_of(root, current, ds, stack).take(i) =~= layout_of(root, current, ds, stack));
    } else {
        lemma_layout_prefix(root, current, ds, stack, i + 1);
        assert(ds.take(i + 1).drop_last() =~= ds.take(i));
        lemma_layout_len(root, current, ds.take(i), stack);
        assert(layout_of(root, current, ds, stack).take(i + 1).drop_last() =~= layout_of(
            root,
            current,
            ds,
            stack,
        ).take(i));
    }
}

proof fn lemma_children_prefix(cs: Seq<BoxWidget>, rs: Seq<Rect>, i: int)
    requires
        0 <= i <= cs.len(),
    ensures
        children_fit(cs, rs) ==> children_fit(cs.take(i), rs),
        children_fit(cs, rs) && i < cs.len() ==> box_fits(cs[i], rs[i]),
    decreases cs.len() - i,
{
    if i == cs.len() {
        assert(cs.take(i) =~= cs);
    } else {
        lemma_children_prefix(cs, rs, i + 1);
        assert(cs.take(i + 1).drop_last() =~= cs.take(i));
        assert(cs.take(i + 1).last() == cs[i]);
    }
}

/// The rectangles a container gives its children, stacked as `stack`
/// says within `current`, cut to `root`.
pub fn generate_layout(root: Rect, current: Rect, children: &[BoxWidget], stack: Stack) -> (r: Vec<Rect>)
    requires
        layout_fits(root, current, dims_of(children@), stack),
    ensures
        r@ == layout_of(root, current, dims_of(children@), stack),
{
    let ghost ds = dims_of(children@);
    let n = children.len();
    let mut acc: Vec<Rect> = Vec::new();
    let mut i: usize = 0;
    proof {
        assert(ds.take(0) =~= Seq::<(u16, u16, u16, u16)>::empty());
    }
    while i < n
        invariant
            n == children@.len(),
            ds == dims_of(children@),
            i <= n,
            layout_fits(root, current, ds, stack),
            acc@ == layout_of(root, current, ds.take(i as int), stack),
        decreases n - i,
    {
        proof {
            lemma_layout_prefix(root, current, ds, stack, i + 1);
            lemma_layout_len(root, current, ds.take(i as int), stack);
            assert(ds.take(i + 1).drop_last() =~= ds.take(i as int));
            assert(ds.take(i + 1).last() == ds[i as int]);
        }
        let last = if acc.len() == 0 {
            Rect { x: 0, y: 0, width: 0, height: 0 }
        } else {
            acc[acc.len() - 1]
        };
        let child = &children[i];
        let cx = child.x();
        let cy = child.y();
        let cw = child.width();
        let ch = child.height();
        let x = match stack {
            Stack::Vertically => current.x + cx + root.x,
            Stack::Horizontally => current.x + cx + last.width + last.x + root.x,
        };
        let y = match stack {
            Stack::Vertically => current.y + cy + last.height + last.y + root.y,
            Stack::Horizontally => current.y + cy + root.y,
        };
        let width = match stack {
            Stack::Vertically => {
                let a = if cw <= current.width {
                    cw
                } else {
                    current.width
                };
                if a <= root.width {
                    a
                } else {
                    root.width
                }
            },
            Stack::Horizontally => {
                let left = current.width - last.width;
                let a = if cw <= left {
                    cw
                } else {
                    left
                };
                if a <= root.width {
                    a
                } else {
                    root.width
                }
            },
        };
        let height = match stack {
            Stack::Vertically => {
                let left = current.height - last.height;
                let a = if ch <= left {
                    ch
                } else {
                    left
                };
                if a <= root.height {
                    a
                } else {
                    root.height
                }
            },
            Stack::Horizontally => {
                let a = if ch <= current.height {
                    ch
                } else {
                    current.height
                };
                if a <= root.height {
                    a
                } else {
                    root.height
                }
            },
        };
        let size = Size::new(width, height);
        let pos = Pos::new(x, y);
        let rect = Rect::with_position(pos, size);
        acc.push(rect);
        i += 1;
    }
    proof {
        assert(ds.take(n as int) =~= ds);
    }
    acc
}

impl BoxWidget {
    /// `widget`, as a container holds it.
    pub fn new<W: Widget>(widget: W) -> (b: BoxWidget)
        ensures
            b == widget.boxed(),
    {
        widget.into_box()
    }

    pub fn x(&self) -> (r: u16)
        ensures
            r == dims(*self).0,
    {
        match self {
            BoxWidget::Text(t) => t.x(),
            BoxWidget::Container(c) => c.bounds.x,
        }
    }

    pub fn y(&self) -> (r: u16)
        ensures
            r == dims(*self).1,
    {
        match self {
            BoxWidget::Text(t) => t.y(),
            BoxWidget::Container(c) => c.bounds.y,
        }
    }

    pub fn width(&self) -> (r: u16)
        ensures
            r == dims(*self).2,
    {
        match self {
            BoxWidget::Text(t) => t.width(),
            BoxWidget::Container(c) => c.bounds.width,
        }
    }

    pub fn height(&self) -> (r: u16)
        ensures
            r == dims(*self).3,
    {
        match self {
            BoxWidget::Text(t) => t.height(),
            BoxWidget::Container(c) => c.bounds.height,
        }
    }

    /// The draw commands of this widget within `bounds`.
    pub fn draw(&self, bounds: Rect) -> (r: Vec<DrawCommand>)
        requires
            box_fits(*self, bounds),
        ensures
            draw_views(r@) == box_draws(*self, bounds),
        decreases self,
    {
        match self {
            BoxWidget::Text(t) => {
                let r = t.draw(bounds);
                proof {
                    assert(draw_views(r@) =~= box_draws(*self, bounds));
                }
                r
            },
            BoxWidget::Container(c) => {
                proof {
                    assert(decreases_to!(*self => (*self)->Container_0));
                }
                c.draw_children(bounds)
            },
        }
    }

    /// The name of this widget, for debugging.
    pub fn _debug_name(&self) -> (r: String)
        ensures
            r@ == match self {
                BoxWidget::Text(t) => match t.comment_view() {
                    Some(c) => c,
                    None => Seq::<char>::empty(),
                },
                BoxWidget::Container(c) => match c.comment_view() {
                    Some(n) => n,
                    None => Seq::<char>::empty(),
                },
            },
    {
        match self {
            BoxWidget::Text(t) => t.debug_name(),
            BoxWidget::Container(c) => c.debug_name(),
        }
    }
}

impl Container {
    /// Where the container is and its size.
    pub closed spec fn bounds_view(&self) -> Rect {
        self.bounds
    }

    /// The direction the children are stacked in.
    pub closed spec fn stack_view(&self) -> Stack {
        self.stack
    }

    /// The children, in order.
    pub closed spec fn children_view(&self) -> Seq<BoxWidget> {
        self.children@
    }

    /// The comment naming the container, if any.
    pub closed spec fn comment_view(&self) -> Option<Seq<char>> {
        match self.comment {
            Some(c) => Some(c@),
            None => None,
        }
    }

    /// An empty container with these bounds, stacking as `stack` says.
    pub fn new(bounds: Rect, stack: Stack) -> (c: Container)
        ensures
            c.bounds_view() == bounds,
            c.stack_view() == stack,
            c.children_view() == Seq::<BoxWidget>::empty(),
            c.comment_view() is None,
    {
        Container { bounds, stack, children: Vec::new(), comment: None }
    }

    /// An empty container with these bounds, stacking across.
    pub fn _with_bounds(bounds: Rect) -> (c: Container)
        ensures
            c.bounds_view() == bounds,
            c.stack_view() == Stack::Horizontally,
            c.children_view() == Seq::<BoxWidget>::empty(),
            c.comment_view() is None,
    {
        Container { bounds, stack: Stack::default(), children: Vec::new(), comment: None }
    }

    /// This container named by `comment`.
    pub fn with_comment(self, comment: String) -> (c: Container)
        ensures
            c.bounds_view() == self.bounds_view(),
            c.stack_view() == self.stack_view(),
            c.children_view() == self.children_view(),
            c.comment_view() == Some(comment@),
    {
        Container { comment: Some(comment), ..self }
    }

    /// This container stacking as `stack` says.
    pub fn stack(self, stack: Stack) -> (c: Container)
        ensures
            c.bounds_view() == self.bounds_view(),
            c.stack_view() == stack,
            c.children_view() == self.children_view(),
            c.comment_view() == self.comment_view(),
    {
        Container { stack, ..self }
    }

    /// This container with `widget` added as its last child.
    pub fn push(self, widget: BoxWidget) -> (c: Container)
        ensures
            c.bounds_view() == self.bounds_view(),
            c.stack_view() == self.stack_view(),
            c.children_view() == self.children_view().push(widget),
            c.comment_view() == self.comment_view(),
    {
        let mut c = self;
        c.children.push(widget);
        c
    }

    /// This container with `widget` added as its last child.
    pub fn with_child<W: Widget>(self, widget: W) -> (c: Container)
        ensures
            c.bounds_view() == self.bounds_view(),
            c.stack_view() == self.stack_view(),
            c.children_view() == self.children_view().push(widget.boxed()),
            c.comment_view() == self.comment_view(),
    {
        let mut c = self;
        c.children.push(BoxWidget::new(widget));
        c
    }

    /// This container with `boxed_widget` added as its last child.
    pub fn with_child_box(self, boxed_widget: BoxWidget) -> (c: Container)
        ensures
            c.bounds_view() == self.bounds_view(),
            c.stack_view() == self.stack_view(),
            c.children_view() == self.children_view().push(boxed_widget),
            c.comment_view() == self.comment_view(),
    {
        let mut c = self;
        c.children.push(boxed_widget);
        c
    }

    /// Adds `boxed_widget` as the last child.
    pub fn push_box(&mut self, boxed_widget: BoxWidget)
        ensures
            final(self).bounds_view() == old(self).bounds_view(),
            final(self).stack_view() == old(self).stack_view(),
            final(self).children_view() == old(self).children_view().push(boxed_widget),
            final(self).comment_view() == old(self).comment_view(),
    {
        self.children.push(boxed_widget);
    }

    /// The draw commands of the children, each in its rectangle of the
    /// layout within `bounds`.
    fn draw_children(&self, bounds: Rect) -> (r: Vec<DrawCommand>)
        requires
            box_fits(BoxWidget::Container(*self), bounds),
        ensures
            draw_views(r@) == box_draws(BoxWidget::Container(*self), bounds),
        decreases self,
    {
        let ghost cs = self.children@;
        let ghost ds = dims_of(cs);
        let rects = generate_layout(bounds, self.bounds, self.children.as_slice(), self.stack);
        proof {
            lemma_layout_len(bounds, self.bounds, ds, self.stack);
        }
        let n = self.children.len();
        let mut out: Vec<DrawCommand> = Vec::new();
        let mut i: usize = 0;
        proof {
            assert(cs.take(0) =~= Seq::<BoxWidget>::empty());
            assert(draw_views(out@) =~= children_draws(cs.take(0), rects@));
        }
        while i < n
            invariant
                n == cs.len(),
                cs == self.children@,
                rects@.len() == n,
                rects@ == layout_of(bounds, self.bounds, dims_of(cs), self.stack),
                children_fit(cs, rects@),
                i <= n,
                draw_views(out@) == children_draws(cs.take(i as int), rects@),
            decreases n - i,
        {
            proof {
                lemma_children_prefix(cs, rects@, i as int);
                broadcast use vstd::std_specs::vec::axiom_vec_decreases_to_view;
                assert(decreases_to!(*self => self.children));
                assert(decreases_to!(*self => cs[i as int]));
            }
            let mut part = self.children[i].draw(rects[i]);
            let ghost before = out@;
            out.append(&mut part);
            proof {
                assert(cs.take(i + 1).drop_last() =~= cs.take(i as int));
                assert(cs.take(i + 1).last() == cs[i as int]);
                assert(draw_views(out@) =~= draw_views(before) + box_draws(cs[i as int], rects@[i as int]));
            }
            i += 1;
        }
        proof {
            assert(cs.take(n as int) =~= cs);
        }
        out
    }
}

impl Default for Container {
    fn default() -> (c: Container)
        ensures
            c.bounds_view() == zero_rect(),
            c.stack_view() == Stack::Horizontally,
            c.children_view() == Seq::<BoxWidget>::empty(),
            c.comment_view() is None,
    {
        Container {
            bounds: Rect { x: 0, y: 0, width: 0, height: 0 },
            stack: Stack::Horizontally,
            children: Vec::new(),
            comment: None,
        }
    }
}

impl Widget for Container {
    open spec fn fits(&self, bounds: Rect) -> bool {
        box_fits(BoxWidget::Container(*self), bounds)
    }

    fn x(&self) -> (r: u16)
        ensures
            r == self.bounds_view().x,
    {
        self.bounds.x
    }

    fn y(&self) -> (r: u16)
        ensures
            r == self.bounds_view().y,
    {
        self.bounds.y
    }

    fn width(&self) -> (r: u16)
        ensures
            r == self.bounds_view().width,
    {
        self.bounds.width
    }

    fn height(&self) -> (r: u16)
        ensures
            r == self.bounds_view().height,
    {
        self.bounds.height
    }

    fn draw(&self, bounds: Rect) -> (r: Vec<DrawCommand>)
        ensures
            draw_views(r@) == box_draws(BoxWidget::Container(*self), bounds),
    {
        self.draw_children(bounds)
    }

    fn debug_name(&self) -> (r: String)
        ensures
            r@ == match self.comment_view() {
                Some(c) => c,
                None => Seq::<char>::empty(),
            },
    {
        match &self.comment {
            Some(c) => c.clone(),
            None => {
                proof {
                    reveal_strlit("");
                }
                string_from("")
            },
        }
    }

    open spec fn boxed(self) -> BoxWidget {
        BoxWidget::Container(self)
    }

    fn into_box(self) -> (b: BoxWidget) {
        BoxWidget::Container(self)
    }
}

impl vstd::std_specs::convert::FromSpecImpl<Text> for BoxWidget {
    open spec fn obeys_from_spec() -> bool {
        true
    }

    open spec fn from_spec(t: Text) -> BoxWidget {
        BoxWidget::Text(t)
    }
}

impl From<Text> for BoxWidget {
    fn from(value: Text) -> BoxWidget {
        BoxWidget::Text(value)
    }
}

impl vstd::std_specs::convert::FromSpecImpl<Container> for BoxWidget {
    open spec fn obeys_from_spec() -> bool {
        true
    }

    open spec fn from_spec(c: Container) -> BoxWidget {
        BoxWidget::Container(c)
    }
}

impl From<Container> for BoxWidget {
    fn from(container: Container) -> BoxWidget {
        BoxWidget::Container(container)
    }
}

} // verus!
