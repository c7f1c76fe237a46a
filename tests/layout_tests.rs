use address_book::layout::{
    calc_percentage, BoxCanvas, BoxDirection, BoxLayout, Direction, Layout, PerCent, Position, Size,
};

#[test]
fn root_layout_takes_shares_of_canvas() {
    let l = Layout::make_root_layout(
        Size::new(500, 500),
        Position::new(0, 0),
        PerCent::new(50).unwrap(),
        PerCent::new(100).unwrap(),
        Direction::Vert,
    );
    assert_eq!(l.bounds_size, Some(Size::new(250, 500)));
    assert_eq!(l.pos, Some(Position::new(0, 0)));
    assert_eq!(l.dir, Direction::Vert);
    assert!(l.content_size.is_none());
    assert!(l.req_width_pc.is_none());
}

#[test]
fn hinted_layout_records_shares() {
    let l = Layout::new(Direction::Horiz, PerCent::new(50).unwrap(), PerCent::new(100).unwrap());
    assert_eq!(l.req_width_pc, PerCent::new(50));
    assert_eq!(l.req_height_pc, PerCent::new(100));
    assert!(l.pos.is_none());
    assert!(l.bounds_size.is_none());
}

#[test]
fn percent_rounds_down_and_rejects_over_hundred() {
    assert_eq!(calc_percentage(PerCent::new(33).unwrap(), 10), 3);
    assert_eq!(calc_percentage(PerCent::new(100).unwrap(), 65535), 65535);
    assert_eq!(calc_percentage(PerCent::new(0).unwrap(), 500), 0);
    assert!(PerCent::new(101).is_none());
}

#[test]
fn defaults() {
    assert_eq!(Direction::default(), Direction::Horiz);
    assert_eq!(BoxDirection::default(), BoxDirection::Horizontal);
    let b = BoxLayout::default();
    assert_eq!(b.direction, BoxDirection::Horizontal);
    let c = BoxCanvas::default();
    assert!(c.layout_stack.is_empty());
}
