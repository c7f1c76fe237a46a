use vstd::prelude::*;

verus! {

/// A width and a height, in terminal cells.
#[derive(Debug, Clone, Copy, Default, PartialEq, Eq, Structural)]
pub struct Size {
    pub width: u16,
    pub height: u16,
}

/// A column and a row, in terminal cells.
#[derive(Debug, Clone, Copy, Default, PartialEq, Eq, Structural)]
pub struct Position {
    pub col: u16,
    pub row: u16,
}

/// A percentage, from 0 to 100.
#[derive(Debug, Clone, Copy, PartialEq, Eq, Structural)]
pub struct PerCent {
    pub value: u8,
}

impl PerCent {
    pub open spec fn wf(&self) -> bool {
        self.value <= 100
    }

    /// The percentage `value`, or `None` above 100.
    pub fn new(value: u8) -> (r: Option<PerCent>)
        ensures
            value <= 100 ==> r == Some(PerCent { value }),
            value > 100 ==> r is None,
    {
        if value <= 100 {
            Some(PerCent { value })
        } else {
            None
        }
    }
}

impl Size {
    pub fn new(width: u16, height: u16) -> (r: Size)
        ensures
            r == (Size { width, height }),
    {
        Size { width, height }
    }
}

impl Position {
    pub fn new(col: u16, row: u16) -> (r: Position)
        ensures
            r == (Position { col, row }),
    {
        Position { col, row }
    }
}

/// The share `pc` of `total`, rounded down.
pub open spec fn percent_of(pc: PerCent, total: u16) -> int {
    (total as int * pc.value as int) / 100
}

/// The share `pc` of `total` cells, rounded down.
pub fn calc_percentage(pc: PerCent, total: u16) -> (r: u16)
    requires
        pc.wf(),
    ensures
        r as int == percent_of(pc, total),
{
    proof {
        assert(total as int * pc.value as int <= 65535 * 100) by (nonlinear_arith)
            requires
                total <= 65535,
                pc.value <= 100,
        ;
    }
    let product: u32 = total as u32 * pc.value as u32;
    (product / 100) as u16
}

/// Direction of the layout of the box.
#[derive(Debug, Clone, Copy, PartialEq, Eq, Structural)]
pub enum Direction {
    Horiz,
    Vert,
}

impl Default for Direction {
    fn default() -> (r: Direction)
        ensures
            r == Direction::Horiz,
    {
        Direction::Horiz
    }
}

/// A box: a rectangle with a position and size, whose direction decides how
/// the elements it contains are placed.
#[derive(Debug, Clone, Copy, Default)]
pub struct Layout {
    pub dir: Direction,
    pub pos: Option<Position>,
    pub content_size: Option<Size>,
    pub bounds_size: Option<Size>,
    pub req_width_pc: Option<PerCent>,
    pub req_height_pc: Option<PerCent>,
}

impl Layout {
    /// A box whose position is `origin_pos` and whose bounds are the given
    /// shares of `canvas_size`.
    pub fn make_root_layout(
        canvas_size: Size,
        origin_pos: Position,
        width_pc: PerCent,
        height_pc: PerCent,
        dir: Direction,
    ) -> (r: Layout)
        requires
            width_pc.wf(),
            height_pc.wf(),
        ensures
            r.dir == dir,
            r.pos == Some(origin_pos),
            r.bounds_size is Some,
            r.bounds_size->0.width as int == percent_of(width_pc, canvas_size.width),
            r.bounds_size->0.height as int == percent_of(height_pc, canvas_size.height),
            r.content_size is None,
            r.req_width_pc is None,
            r.req_height_pc is None,
    {
        let bounds_width = calc_percentage(width_pc, canvas_size.width);
        let bounds_height = calc_percentage(height_pc, canvas_size.height);
        Layout {
            dir,
            pos: Some(origin_pos),
            bounds_size: Some(Size::new(bounds_width, bounds_height)),
            content_size: None,
            req_width_pc: None,
            req_height_pc: None,
        }
    }

    /// A box that records the requested shares; its position and size are
    /// worked out later.
    pub fn new(dir: Direction, width_pc: PerCent, height_pc: PerCent) -> (r: Layout)
        ensures
            r.dir == dir,
            r.pos is None,
            r.bounds_size is None,
            r.content_size is None,
            r.req_width_pc == Some(width_pc),
            r.req_height_pc == Some(height_pc),
    {
        Layout {
            dir,
            pos: None,
            bounds_size: None,
            content_size: None,
            req_width_pc: Some(width_pc),
            req_height_pc: Some(height_pc),
        }
    }
}

/// Direction of the layout of a box on a canvas.
#[derive(Debug, Clone, Copy, PartialEq, Eq, Structural)]
pub enum BoxDirection {
    Horizontal,
    Vertical,
}

impl Default for BoxDirection {
    fn default() -> (r: BoxDirection)
        ensures
            r == BoxDirection::Horizontal,
    {
        BoxDirection::Horizontal
    }
}

/// A rectangle with a position and size on a canvas.
#[derive(Debug, Clone, Copy, Default)]
pub struct BoxLayout {
    pub position: Position,
    pub size: Size,
    pub direction: BoxDirection,
}

/// A rectangular area of the terminal screen, not necessarily all of it,
/// with the boxes opened on it.
#[derive(Debug, Clone, Default)]
pub struct BoxCanvas {
    pub origin: Position,
    pub size: Size,
    pub layout_stack: Vec<BoxLayout>,
}

} // verus!
