//! The frame compositor: a bounded stack of styled shapes with a dirty
//! rectangle, resolved pixel by pixel from the top of the stack down.
//!
//! There is no framebuffer: a pixel's color is found by walking the stack
//! from the last-pushed shape to the first until one hits, and only pixels
//! inside the dirty rectangle are ever produced.

use vstd::prelude::*;

use crate::geom::{spec_hit, spec_ordered, spec_union, Point, Rect, Size};

verus! {

/// A shape kind; filled rectangles today, extensible to more.
#[derive(Debug, Copy, Clone, Eq, PartialEq, Structural)]
pub enum Shape {
    Rect(Rect),
}

/// The rectangle a shape covers.
pub open spec fn spec_shape_bbox(s: Shape) -> Rect {
    match s {
        Shape::Rect(r) => r,
    }
}

/// Whether the shape covers the point.
pub open spec fn spec_shape_hit(s: Shape, px: int, py: int) -> bool {
    match s {
        Shape::Rect(r) => spec_hit(r, px, py),
    }
}

impl Shape {
    pub fn bounding_box(&self) -> (r: Rect)
        ensures
            r == spec_shape_bbox(*self),
    {
        match self {
            Shape::Rect(r) => r.bounding_box(),
        }
    }

    pub fn hit_test(&self, point: Point) -> (b: bool)
        ensures
            b == spec_shape_hit(*self, point.x as int, point.y as int),
    {
        match self {
            Shape::Rect(r) => r.hit_test(point),
        }
    }

    /// Give the shape a fill color.
    pub fn style<C: Copy>(self, fill_color: C) -> (s: StyledShape<C>)
        ensures
            s.spec_shape() == self,
            s.spec_fill() == fill_color,
    {
        StyledShape { fill_color, shape: self }
    }
}

/// A shape together with its fill color.
pub struct StyledShape<C> {
    fill_color: C,
    shape: Shape,
}

impl<C: Copy> StyledShape<C> {
    pub closed spec fn spec_shape(self) -> Shape {
        self.shape
    }

    pub closed spec fn spec_fill(self) -> C {
        self.fill_color
    }

    /// The fill color if the point is inside the shape, `None` outside.
    pub fn pixel_color(&self, pixel: Point) -> (c: Option<C>)
        ensures
            c is Some <==> spec_shape_hit(self.spec_shape(), pixel.x as int, pixel.y as int),
            c matches Some(v) ==> v == self.spec_fill(),
    {
        match self.shape {
            Shape::Rect(r) => {
                if r.hit_test(pixel) {
                    Some(self.fill_color)
                } else {
                    None
                }
            },
        }
    }

    pub fn bounding_box(&self) -> (r: Rect)
        ensures
            r == spec_shape_bbox(self.spec_shape()),
    {
        match self.shape {
            Shape::Rect(r) => r,
        }
    }
}

impl Rect {
    /// Give the rectangle a fill color.
    pub fn style<C: Copy>(self, fill_color: C) -> (s: StyledShape<C>)
        ensures
            s.spec_shape() == Shape::Rect(self),
            s.spec_fill() == fill_color,
    {
        StyledShape { fill_color, shape: Shape::Rect(self) }
    }
}

/// Something the compositor can draw.
pub enum Drawable<C> {
    Shape(StyledShape<C>),
}

/// The rectangle a drawable covers.
pub open spec fn spec_bbox<C: Copy>(d: Drawable<C>) -> Rect {
    match d {
        Drawable::Shape(s) => spec_shape_bbox(s.spec_shape()),
    }
}

/// Whether the drawable covers the point.
pub open spec fn spec_hits<C: Copy>(d: Drawable<C>, px: int, py: int) -> bool {
    match d {
        Drawable::Shape(s) => spec_shape_hit(s.spec_shape(), px, py),
    }
}

/// The color the drawable paints where it hits.
pub open spec fn spec_fill<C: Copy>(d: Drawable<C>) -> C {
    match d {
        Drawable::Shape(s) => s.spec_fill(),
    }
}

impl<C: Copy> Drawable<C> {
    pub fn pixel_color(&self, pixel: Point) -> (c: Option<C>)
        ensures
            c is Some <==> spec_hits(*self, pixel.x as int, pixel.y as int),
            c matches Some(v) ==> v == spec_fill(*self),
    {
        match self {
            Drawable::Shape(s) => s.pixel_color(pixel),
        }
    }

    pub fn bounding_box(&self) -> (r: Rect)
        ensures
            r == spec_bbox(*self),
    {
        match self {
            Drawable::Shape(s) => s.bounding_box(),
        }
    }
}

/// The color of a pixel under a stack of drawables: the fill of the topmost
/// (last-pushed) drawable covering the point, or the background color when
/// none does. Later draws occlude earlier ones.
pub open spec fn top_color<C: Copy>(stack: Seq<Drawable<C>>, px: int, py: int, bg: C) -> C
    decreases stack.len(),
{
    if stack.len() == 0 {
        bg
    } else if spec_hits(stack.last(), px, py) {
        spec_fill(stack.last())
    } else {
        top_color(stack.drop_last(), px, py, bg)
    }
}

/// The union of the bounding boxes of everything on the stack.
pub open spec fn stack_bounds<C: Copy>(stack: Seq<Drawable<C>>) -> Rect
    decreases stack.len(),
{
    if stack.len() == 0 {
        Rect { x0: 0, y0: 0, x1: 0, y1: 0 }
    } else {
        spec_union(stack_bounds(stack.drop_last()), spec_bbox(stack.last()))
    }
}

/// Why a drawable could not be queued.
#[derive(Debug, Copy, Clone, PartialEq, Eq, Structural)]
pub enum FrameError {
    /// The draw stack already holds its maximum number of drawables.
    StackFull,
}

/// A frame to draw: a background color, the stack of drawables (first =
/// bottom, last = top), and the dirty rectangle that bounds what must be
/// redrawn. `WIDTH` and `HEIGHT` are the screen size; `LEN` bounds the stack.
pub struct Frame<C, const WIDTH: u16, const HEIGHT: u16, const LEN: usize> {
    bg_color: C,
    draw_area: Rect,
    draw_stack: Vec<Drawable<C>>,
}

impl<C: Copy, const WIDTH: u16, const HEIGHT: u16, const LEN: usize> View for Frame<
    C,
    WIDTH,
    HEIGHT,
    LEN,
> {
    type V = Seq<Drawable<C>>;

    /// The draw stack, bottom first.
    closed spec fn view(&self) -> Seq<Drawable<C>> {
        self.draw_stack@
    }
}

impl<C: Copy, const WIDTH: u16, const HEIGHT: u16, const LEN: usize> Frame<C, WIDTH, HEIGHT, LEN> {
    /// The current background color.
    pub closed spec fn spec_bg(self) -> C {
        self.bg_color
    }

    /// The area that needs redrawing.
    pub closed spec fn spec_dirty(self) -> Rect {
        self.draw_area
    }

    /// The stack fits its bound.
    pub open spec fn wf(self) -> bool {
        self@.len() <= LEN
    }

    /// The dirty rectangle is exactly the union of the bounding boxes of
    /// everything on the stack: no smaller, no larger. `new_frame`
    /// establishes this and `draw` preserves it; `clear` trades it for a
    /// full-screen redraw on purpose.
    pub open spec fn dirty_minimal(self) -> bool {
        self.spec_dirty() == stack_bounds(self@)
    }

    pub fn new(background_color: C) -> (f: Self)
        ensures
            f.wf(),
            f@.len() == 0,
            f.spec_bg() == background_color,
            f.spec_dirty() == (Rect { x0: 0, y0: 0, x1: 0, y1: 0 }),
            f.dirty_minimal(),
    {
        Frame { bg_color: background_color, draw_area: Rect::zero(), draw_stack: Vec::new() }
    }

    /// Start over for the next frame: empty the stack and the dirty
    /// rectangle. No allocation is released; the storage is reused.
    pub fn new_frame(&mut self)
        ensures
            final(self).wf(),
            final(self)@.len() == 0,
            final(self).spec_bg() == old(self).spec_bg(),
            final(self).spec_dirty() == (Rect { x0: 0, y0: 0, x1: 0, y1: 0 }),
            final(self).dirty_minimal(),
    {
        self.draw_stack.clear();
        self.draw_area = Rect::zero();
    }

    pub fn bg_color(&self) -> (c: C)
        ensures
            c == self.spec_bg(),
    {
        self.bg_color
    }

    pub fn set_bg_color(&mut self, color: C)
        ensures
            final(self).spec_bg() == color,
            final(self)@ == old(self)@,
            final(self).spec_dirty() == old(self).spec_dirty(),
    {
        self.bg_color = color;
    }

    /// Request a redraw of the whole screen: the stack is emptied and the
    /// dirty rectangle covers the full width and height. Costly — prefer
    /// incremental redraws of what changed.
    pub fn clear(&mut self)
        requires
            WIDTH <= i16::MAX,
            HEIGHT <= i16::MAX,
        ensures
            final(self).wf(),
            final(self)@.len() == 0,
            final(self).spec_bg() == old(self).spec_bg(),
            final(self).spec_dirty() == (Rect {
                x0: 0,
                y0: 0,
                x1: WIDTH as i16,
                y1: HEIGHT as i16,
            }),
    {
        self.draw_stack.clear();
        self.draw_area = Rect::from_origin_size(Point::new(0, 0), Size::new(WIDTH, HEIGHT));
    }

    /// Queue a drawable on top of the stack and grow the dirty rectangle by
    /// its bounding box. Fails, changing nothing, when the stack is full.
    pub fn draw(&mut self, drawable: Drawable<C>) -> (r: Result<(), FrameError>)
        ensures
            old(self).wf() ==> final(self).wf(),
            r is Ok <==> old(self)@.len() < LEN,
            r is Ok ==> final(self)@ == old(self)@.push(drawable),
            r is Ok ==> final(self).spec_dirty() == spec_union(
                old(self).spec_dirty(),
                spec_bbox(drawable),
            ),
            r is Err ==> *final(self) == *old(self),
            final(self).spec_bg() == old(self).spec_bg(),
            old(self).dirty_minimal() && r is Ok ==> final(self).dirty_minimal(),
    {
        if self.draw_stack.len() >= LEN {
            return Err(FrameError::StackFull);
        }
        let bbox = drawable.bounding_box();
        self.draw_area = self.draw_area.union(bbox);
        self.draw_stack.push(drawable);
        proof {
            assert(self@.drop_last() =~= old(self)@);
            assert(self@.last() == drawable);
        }
        Ok(())
    }

    /// The area that needs to be drawn.
    pub fn draw_area(&self) -> (r: Rect)
        ensures
            r == self.spec_dirty(),
    {
        self.draw_area
    }

    /// The color of one pixel: the topmost drawable covering it wins, the
    /// background shows through where none does.
    pub fn pixel_color(&self, pixel: Point) -> (c: C)
        ensures
            c == top_color(self@, pixel.x as int, pixel.y as int, self.spec_bg()),
    {
        let mut i: usize = self.draw_stack.len();
        proof {
            assert(self@.subrange(0, i as int) =~= self@);
        }
        while i > 0
            invariant
                0 <= i <= self@.len(),
                top_color(self@, pixel.x as int, pixel.y as int, self.spec_bg()) == top_color(
                    self@.subrange(0, i as int),
                    pixel.x as int,
                    pixel.y as int,
                    self.spec_bg(),
                ),
            decreases i,
        {
            i = i - 1;
            let ghost pre = self@.subrange(0, i as int + 1);
            proof {
                assert(pre.len() == i + 1);
                assert(pre.last() == self@[i as int]);
                assert(pre.drop_last() =~= self@.subrange(0, i as int));
            }
            let d = &self.draw_stack[i];
            match d.pixel_color(pixel) {
                Some(c) => {
                    proof {
                        assert(*d == self.draw_stack@[i as int]);
                        assert(self.draw_stack@[i as int] == self@[i as int]);
                        assert(spec_hits(*d, pixel.x as int, pixel.y as int));
                        assert(spec_hits(pre.last(), pixel.x as int, pixel.y as int));
                        assert(top_color(pre, pixel.x as int, pixel.y as int, self.spec_bg()) == spec_fill(
                            pre.last(),
                        ));
                    }
                    return c;
                },
                None => {
                    proof {
                        assert(!spec_hits(pre.last(), pixel.x as int, pixel.y as int));
                        assert(top_color(pre, pixel.x as int, pixel.y as int, self.spec_bg()) == top_color(
                            self@.subrange(0, i as int),
                            pixel.x as int,
                            pixel.y as int,
                            self.spec_bg(),
                        ));
                    }
                },
            }
        }
        proof {
            assert(self@.subrange(0, 0) =~= Seq::<Drawable<C>>::empty());
        }
        self.bg_color
    }

    /// The row-major pixels of the dirty rectangle, left to right then top
    /// to bottom, resolved through the stack.
    pub fn render(&self) -> (r: RenderFrame<'_, C, WIDTH, HEIGHT, LEN>)
        requires
            spec_ordered(self.spec_dirty()),
        ensures
            r.frame() == self,
            r.spec_pos() == (Point { x: self.spec_dirty().x0, y: self.spec_dirty().y0 }),
    {
        RenderFrame { frame: self, pos: self.draw_area.top_left() }
    }
}

/// A restartable producer of the pixels inside a frame's dirty rectangle,
/// in row-major order. Pull one color at a time with `next`.
pub struct RenderFrame<'a, C, const WIDTH: u16, const HEIGHT: u16, const LEN: usize> {
    frame: &'a Frame<C, WIDTH, HEIGHT, LEN>,
    pos: Point,
}

impl<'a, C: Copy, const WIDTH: u16, const HEIGHT: u16, const LEN: usize> RenderFrame<
    'a,
    C,
    WIDTH,
    HEIGHT,
    LEN,
> {
    /// The frame being rendered.
    pub closed spec fn frame(self) -> &'a Frame<C, WIDTH, HEIGHT, LEN> {
        self.frame
    }

    /// The position of the next pixel to produce.
    pub closed spec fn spec_pos(self) -> Point {
        self.pos
    }

    /// The producer is inside the dirty rectangle (or just past its bottom).
    pub open spec fn wf(self) -> bool {
        &&& spec_ordered(self.frame().spec_dirty())
        &&& self.frame().spec_dirty().x0 <= self.spec_pos().x < self.frame().spec_dirty().x1
            || (self.frame().spec_dirty().x0 == self.spec_pos().x && self.frame().spec_dirty().x0
            == self.frame().spec_dirty().x1)
        &&& self.frame().spec_dirty().y0 <= self.spec_pos().y
    }

    /// Produce the pixel at the current position and step to the next one,
    /// or `None` once the position has moved past the last row (at once, for
    /// a dirty rectangle with no width).
    pub fn next(&mut self) -> (c: Option<C>)
        requires
            old(self).wf(),
        ensures
            final(self).wf(),
            final(self).frame() == old(self).frame(),
            c is None <==> old(self).frame().spec_dirty().y1 <= old(self).spec_pos().y || old(
                self,
            ).frame().spec_dirty().x0 == old(self).frame().spec_dirty().x1,
            c is None ==> *final(self) == *old(self),
            c matches Some(v) ==> v == top_color(
                old(self).frame()@,
                old(self).spec_pos().x as int,
                old(self).spec_pos().y as int,
                old(self).frame().spec_bg(),
            ),
            c is Some ==> (if old(self).spec_pos().x + 1 == old(self).frame().spec_dirty().x1 {
                final(self).spec_pos() == (Point {
                    x: old(self).frame().spec_dirty().x0,
                    y: (old(self).spec_pos().y + 1) as i16,
                })
            } else {
                final(self).spec_pos() == (Point {
                    x: (old(self).spec_pos().x + 1) as i16,
                    y: old(self).spec_pos().y,
                })
            }),
    {
        if self.frame.draw_area.y1() <= self.pos.y || self.frame.draw_area.x0()
            == self.frame.draw_area.x1() {
            return None;
        }
        let color = self.frame.pixel_color(self.pos);
        if self.pos.x + 1 == self.frame.draw_area.x1() {
            self.pos.x = self.frame.draw_area.x0();
            self.pos.y = self.pos.y + 1;
        } else {
            self.pos.x = self.pos.x + 1;
        }
        Some(color)
    }
}

/// Occlusion: with two drawables both covering a point pushed in order, the
/// later one decides the point's color, whatever the earlier one was.
pub proof fn lemma_occlusion<C: Copy>(
    stack: Seq<Drawable<C>>,
    a: Drawable<C>,
    b: Drawable<C>,
    px: int,
    py: int,
    bg: C,
)
    requires
        spec_hits(a, px, py),
        spec_hits(b, px, py),
    ensures
        top_color(stack.push(a).push(b), px, py, bg) == spec_fill(b),
{
    assert(stack.push(a).push(b).last() == b);
}

/// A drawable changes no pixel outside the points it covers: pushing it
/// leaves every such pixel's color as it was.
pub proof fn lemma_no_overlap_no_change<C: Copy>(
    stack: Seq<Drawable<C>>,
    d: Drawable<C>,
    px: int,
    py: int,
    bg: C,
)
    requires
        !spec_hits(d, px, py),
    ensures
        top_color(stack.push(d), px, py, bg) == top_color(stack, px, py, bg),
{
    assert(stack.push(d).last() == d);
    assert(stack.push(d).drop_last() =~= stack);
}

/// Dirty-rect minimality, one draw at a time: if the dirty rectangle equals
/// the union of the stack's bounding boxes, it still does after pushing one
/// more drawable and unioning in its bounding box. Starting from an empty
/// frame, the dirty rectangle is therefore exactly the union of the pushed
/// drawables' bounding boxes.
pub proof fn lemma_dirty_step<C: Copy>(dirty: Rect, stack: Seq<Drawable<C>>, d: Drawable<C>)
    requires
        dirty == stack_bounds(stack),
    ensures
        spec_union(dirty, spec_bbox(d)) == stack_bounds(stack.push(d)),
{
    assert(stack.push(d).drop_last() =~= stack);
    assert(stack.push(d).last() == d);
}

} // verus!
