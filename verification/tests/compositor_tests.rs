use dodjtime::frame::{Drawable, Frame, FrameError, Shape};
use dodjtime::geom::{Point, Rect, Size};

const WHITE: u16 = 0xffff;
const BLACK: u16 = 0x0000;

type TestFrame = Frame<u16, 240, 240, 8>;

fn rect(x0: i16, y0: i16, x1: i16, y1: i16) -> Rect {
    Rect::new(x0, y0, x1, y1).unwrap()
}

#[test]
fn rect_new_rejects_out_of_order_edges() {
    assert!(Rect::new(10, 0, 5, 20).is_none());
    assert!(Rect::new(0, 30, 5, 20).is_none());
    let r = rect(1, 2, 3, 4);
    assert_eq!((r.x0(), r.y0(), r.x1(), r.y1()), (1, 2, 3, 4));
}

#[test]
fn union_laws_on_values() {
    let a = rect(0, 0, 10, 10);
    let b = rect(5, 5, 20, 15);
    let zero = Rect::zero();
    assert_eq!(a.union(b), b.union(a));
    assert_eq!(a.union(b), rect(0, 0, 20, 15));
    let c = rect(-5, 2, 3, 30);
    assert_eq!(a.union(b).union(c), a.union(b.union(c)));
    assert_eq!(zero.union(a), a);
    assert_eq!(a.union(zero), a);
    assert_eq!(a.union(a), a);
}

#[test]
fn intersect_of_disjoint_rects_is_empty() {
    let a = rect(0, 0, 10, 10);
    let b = rect(10, 0, 20, 10);
    let i = a.intersect(b);
    assert!(i.x0() >= i.x1() || i.y0() >= i.y1());
    // Overlapping rectangles intersect in their common box.
    let c = rect(5, 5, 15, 15);
    assert_eq!(a.intersect(c), rect(5, 5, 10, 10));
}

#[test]
fn rect_size_area_and_hit_test() {
    let r = rect(2, 3, 12, 8);
    assert_eq!(r.size(), Size::new(10, 5));
    assert_eq!(r.area(), 50);
    assert!(r.hit_test(Point::new(2, 3)));
    assert!(r.hit_test(Point::new(11, 7)));
    // The high edges are excluded.
    assert!(!r.hit_test(Point::new(12, 3)));
    assert!(!r.hit_test(Point::new(2, 8)));
    assert!(!r.is_empty());
    assert!(rect(5, 5, 5, 9).is_empty());
}

#[test]
fn later_draws_occlude_earlier_ones() {
    // Scenario: white 100x100 at the origin, then black 100x100 at (50,50),
    // over a black background.
    let mut frame = TestFrame::new(BLACK);
    frame.draw(Drawable::Shape(rect(0, 0, 100, 100).style(WHITE))).unwrap();
    frame.draw(Drawable::Shape(rect(50, 50, 150, 150).style(BLACK))).unwrap();
    assert_eq!(frame.pixel_color(Point::new(75, 75)), BLACK);
    assert_eq!(frame.pixel_color(Point::new(10, 10)), WHITE);
    assert_eq!(frame.pixel_color(Point::new(200, 200)), BLACK);
}

#[test]
fn non_overlapping_shape_changes_nothing_outside_its_box() {
    let mut frame = TestFrame::new(BLACK);
    frame.draw(Drawable::Shape(rect(0, 0, 10, 10).style(WHITE))).unwrap();
    let before = frame.pixel_color(Point::new(5, 5));
    frame.draw(Drawable::Shape(rect(100, 100, 110, 110).style(0x1234))).unwrap();
    assert_eq!(frame.pixel_color(Point::new(5, 5)), before);
}

#[test]
fn dirty_rect_is_exactly_the_union_of_bounding_boxes() {
    let mut frame = TestFrame::new(BLACK);
    frame.new_frame();
    assert_eq!(frame.draw_area(), Rect::zero());
    frame.draw(Drawable::Shape(rect(10, 10, 20, 20).style(WHITE))).unwrap();
    assert_eq!(frame.draw_area(), rect(10, 10, 20, 20));
    frame.draw(Drawable::Shape(rect(0, 15, 12, 40).style(BLACK))).unwrap();
    assert_eq!(
        frame.draw_area(),
        rect(10, 10, 20, 20).union(rect(0, 15, 12, 40))
    );
    frame.new_frame();
    assert_eq!(frame.draw_area(), Rect::zero());
}

#[test]
fn clear_requests_the_full_screen() {
    let mut frame = TestFrame::new(WHITE);
    frame.draw(Drawable::Shape(rect(0, 0, 5, 5).style(BLACK))).unwrap();
    frame.clear();
    assert_eq!(frame.draw_area(), rect(0, 0, 240, 240));
    // The stack is emptied: everything shows the background.
    assert_eq!(frame.pixel_color(Point::new(2, 2)), WHITE);
}

#[test]
fn draw_stack_full_fails_loudly() {
    let mut frame: Frame<u16, 240, 240, 2> = Frame::new(BLACK);
    assert!(frame.draw(Drawable::Shape(rect(0, 0, 1, 1).style(WHITE))).is_ok());
    assert!(frame.draw(Drawable::Shape(rect(1, 0, 2, 1).style(WHITE))).is_ok());
    assert_eq!(
        frame.draw(Drawable::Shape(rect(2, 0, 3, 1).style(WHITE))),
        Err(FrameError::StackFull)
    );
    // The rejected shape was not queued.
    assert_eq!(frame.pixel_color(Point::new(2, 0)), BLACK);
}

#[test]
fn render_walks_the_dirty_rect_row_major() {
    let mut frame = TestFrame::new(BLACK);
    frame.draw(Drawable::Shape(rect(1, 1, 3, 3).style(WHITE))).unwrap();
    frame.draw(Drawable::Shape(rect(2, 1, 3, 2).style(0x5555))).unwrap();
    // Dirty rect is (1,1)..(3,3): four pixels in row-major order.
    let mut r = frame.render();
    let mut pixels = Vec::new();
    while let Some(c) = r.next() {
        pixels.push(c);
    }
    assert_eq!(pixels, vec![WHITE, 0x5555, WHITE, WHITE]);
}

#[test]
fn shape_accessors() {
    let s = Shape::Rect(rect(0, 0, 4, 4));
    assert_eq!(s.bounding_box(), rect(0, 0, 4, 4));
    assert!(s.hit_test(Point::new(3, 3)));
    assert!(!s.hit_test(Point::new(4, 4)));
    let styled = s.style(0xabcd);
    assert_eq!(styled.bounding_box(), rect(0, 0, 4, 4));
    assert_eq!(styled.pixel_color(Point::new(0, 0)), Some(0xabcd));
    assert_eq!(styled.pixel_color(Point::new(9, 9)), None);
    let d = Drawable::Shape(rect(0, 0, 4, 4).style(0x0f0f));
    assert_eq!(d.bounding_box(), rect(0, 0, 4, 4));
    assert_eq!(d.pixel_color(Point::new(1, 1)), Some(0x0f0f));
}

#[test]
fn background_color_can_change() {
    let mut frame = TestFrame::new(BLACK);
    assert_eq!(frame.bg_color(), BLACK);
    frame.set_bg_color(0x0812);
    assert_eq!(frame.bg_color(), 0x0812);
    assert_eq!(frame.pixel_color(Point::new(0, 0)), 0x0812);
}
