//! The display's settings, the text it shows for the network, and the
//! shapes of its icons.
use vstd::prelude::*;
use crate::json::{self, JsonValue};
use crate::config;

verus! {

/// The display's orientation.
#[derive(Debug, Clone, Copy, PartialEq, Eq)]
pub enum OledRotation {
    Rotate0,
    Rotate180,
}

/// The display settings of the configuration.
#[derive(Debug, Clone, Copy, PartialEq, Eq)]
pub struct OledSettings {
    pub enabled: bool,
    pub rotation: OledRotation,
}

impl OledSettings {
    /// Reads `oled_enable` (true when absent) and `oled_rotation` (180 turns
    /// the display; anything else, or nothing, leaves it upright).
    pub fn from_config(config: &JsonValue) -> (r: OledSettings)
        ensures
            r.enabled == match json::json_as_bool(config::system_setting(config@, "oled_enable"@)) {
                Some(b) => b,
                None => true,
            },
            r.rotation == (if json::json_as_u64(config::system_setting(config@, "oled_rotation"@)) == Some(180u64) {
                OledRotation::Rotate180
            } else {
                OledRotation::Rotate0
            }),
    {
        let enabled = match config::get_system_setting(config, "oled_enable") {
            Some(v) => match v.as_bool() {
                Some(b) => b,
                None => true,
            },
            None => true,
        };
        let angle: u64 = match config::get_system_setting(config, "oled_rotation") {
            Some(v) => match v.as_u64() {
                Some(n) => n,
                None => 0,
            },
            None => 0,
        };
        let rotation = if angle == 180 {
            OledRotation::Rotate180
        } else {
            OledRotation::Rotate0
        };
        OledSettings { enabled, rotation }
    }
}

/// The network line of the display: the address, or `No connection`.
pub fn network_text(ip: Option<&str>) -> (r: String)
    ensures
        r@ == match ip {
            Some(a) => a@,
            None => "No connection"@,
        },
{
    match ip {
        Some(a) => String::from_str(a),
        None => String::from_str("No connection"),
    }
}

/// A shape of a display icon, in display pixels.
#[derive(Debug, Clone, Copy, PartialEq, Eq)]
pub enum Shape {
    /// A one-pixel line from one point to another.
    Line { from: (i32, i32), to: (i32, i32) },
    /// A filled rectangle: its top-left corner, width and height.
    FilledRect { corner: (i32, i32), width: u32, height: u32 },
    /// A one-pixel rectangle outline: its top-left corner, width and height.
    OutlinedRect { corner: (i32, i32), width: u32, height: u32 },
    /// A filled circle: the top-left corner of its bounding box, and its
    /// diameter.
    FilledCircle { corner: (i32, i32), diameter: u32 },
}

/// The point `(x + dx, y + dy)`.
pub open spec fn offset(x: i32, y: i32, dx: int, dy: int) -> (i32, i32) {
    ((x + dx) as i32, (y + dy) as i32)
}

/// A line between two points given as offsets from `(x, y)`.
pub open spec fn line_at(x: i32, y: i32, dx0: int, dy0: int, dx1: int, dy1: int) -> Shape {
    Shape::Line { from: offset(x, y, dx0, dy0), to: offset(x, y, dx1, dy1) }
}

/// Whether an icon at `(x, y)` fits in the coordinates: every icon reaches at
/// most nine pixels right of and eight below its position.
pub open spec fn icon_fits(x: i32, y: i32) -> bool {
    x + 9 <= i32::MAX && y + 8 <= i32::MAX
}

/// The logo: a small pi sign.
pub open spec fn logo_icon_spec(x: i32, y: i32) -> Seq<Shape> {
    seq![line_at(x, y, 0, 6, 8, 6), line_at(x, y, 2, 6, 2, 1), line_at(x, y, 6, 6, 6, 1)]
}

/// The processor icon: a chip with two pins on each side.
pub open spec fn cpu_icon_spec(x: i32, y: i32) -> Seq<Shape> {
    seq![
        Shape::FilledRect { corner: offset(x, y, 2, 1), width: 6, height: 6 },
        line_at(x, y, 0, 2, 1, 2),
        line_at(x, y, 0, 5, 1, 5),
        line_at(x, y, 8, 2, 9, 2),
        line_at(x, y, 8, 5, 9, 5),
    ]
}

/// The memory icon: a module outline holding three bars.
pub open spec fn memory_icon_spec(x: i32, y: i32) -> Seq<Shape> {
    seq![
        Shape::OutlinedRect { corner: offset(x, y, 1, 0), width: 8, height: 8 },
        Shape::FilledRect { corner: offset(x, y, 3, 2), width: 1, height: 4 },
        Shape::FilledRect { corner: offset(x, y, 5, 2), width: 1, height: 4 },
        Shape::FilledRect { corner: offset(x, y, 7, 2), width: 1, height: 4 },
    ]
}

/// The temperature icon: a thermometer with its bulb, tube and a mark.
pub open spec fn temperature_icon_spec(x: i32, y: i32) -> Seq<Shape> {
    seq![
        Shape::FilledCircle { corner: offset(x, y, 3, 5), diameter: 3 },
        Shape::FilledRect { corner: offset(x, y, 4, 0), width: 1, height: 6 },
        line_at(x, y, 6, 2, 8, 2),
    ]
}

/// The network icon: a dot under two arcs while connected, a cross when not.
pub open spec fn network_icon_spec(x: i32, y: i32, active: bool) -> Seq<Shape> {
    if active {
        seq![
            Shape::FilledCircle { corner: offset(x, y, 3, 5), diameter: 2 },
            line_at(x, y, 2, 3, 3, 2),
            line_at(x, y, 5, 2, 6, 3),
            line_at(x, y, 1, 1, 2, 0),
            line_at(x, y, 6, 0, 7, 1),
        ]
    } else {
        seq![line_at(x, y, 2, 1, 7, 6), line_at(x, y, 7, 1, 2, 6)]
    }
}

fn line(x: i32, y: i32, dx0: i32, dy0: i32, dx1: i32, dy1: i32) -> (r: Shape)
    requires
        0 <= dx0 <= 9,
        0 <= dy0 <= 8,
        0 <= dx1 <= 9,
        0 <= dy1 <= 8,
        icon_fits(x, y),
    ensures
        r == line_at(x, y, dx0 as int, dy0 as int, dx1 as int, dy1 as int),
{
    Shape::Line { from: (x + dx0, y + dy0), to: (x + dx1, y + dy1) }
}

/// The shapes of the logo at `(x, y)`.
pub fn logo_icon(x: i32, y: i32) -> (r: Vec<Shape>)
    requires
        icon_fits(x, y),
    ensures
        r@ == logo_icon_spec(x, y),
{
    let mut v: Vec<Shape> = Vec::new();
    v.push(line(x, y, 0, 6, 8, 6));
    v.push(line(x, y, 2, 6, 2, 1));
    v.push(line(x, y, 6, 6, 6, 1));
    assert(v@ =~= logo_icon_spec(x, y));
    v
}

/// The shapes of the processor icon at `(x, y)`.
pub fn cpu_icon(x: i32, y: i32) -> (r: Vec<Shape>)
    requires
        icon_fits(x, y),
    ensures
        r@ == cpu_icon_spec(x, y),
{
    let mut v: Vec<Shape> = Vec::new();
    v.push(Shape::FilledRect { corner: (x + 2, y + 1), width: 6, height: 6 });
    v.push(line(x, y, 0, 2, 1, 2));
    v.push(line(x, y, 0, 5, 1, 5));
    v.push(line(x, y, 8, 2, 9, 2));
    v.push(line(x, y, 8, 5, 9, 5));
    assert(v@ =~= cpu_icon_spec(x, y));
    v
}

/// The shapes of the memory icon at `(x, y)`.
pub fn memory_icon(x: i32, y: i32) -> (r: Vec<Shape>)
    requires
        icon_fits(x, y),
    ensures
        r@ == memory_icon_spec(x, y),
{
    let mut v: Vec<Shape> = Vec::new();
    v.push(Shape::OutlinedRect { corner: (x + 1, y), width: 8, height: 8 });
    v.push(Shape::FilledRect { corner: (x + 3, y + 2), width: 1, height: 4 });
    v.push(Shape::FilledRect { corner: (x + 5, y + 2), width: 1, height: 4 });
    v.push(Shape::FilledRect { corner: (x + 7, y + 2), width: 1, height: 4 });
    assert(v@ =~= memory_icon_spec(x, y));
    v
}

/// The shapes of the temperature icon at `(x, y)`.
pub fn temperature_icon(x: i32, y: i32) -> (r: Vec<Shape>)
    requires
        icon_fits(x, y),
    ensures
        r@ == temperature_icon_spec(x, y),
{
    let mut v: Vec<Shape> = Vec::new();
    v.push(Shape::FilledCircle { corner: (x + 3, y + 5), diameter: 3 });
    v.push(Shape::FilledRect { corner: (x + 4, y), width: 1, height: 6 });
    v.push(line(x, y, 6, 2, 8, 2));
    assert(v@ =~= temperature_icon_spec(x, y));
    v
}

/// The shapes of the network icon at `(x, y)`, for a connected or an
/// unconnected network.
pub fn network_icon(x: i32, y: i32, active: bool) -> (r: Vec<Shape>)
    requires
        icon_fits(x, y),
    ensures
        r@ == network_icon_spec(x, y, active),
{
    let mut v: Vec<Shape> = Vec::new();
    if active {
        v.push(Shape::FilledCircle { corner: (x + 3, y + 5), diameter: 2 });
        v.push(line(x, y, 2, 3, 3, 2));
        v.push(line(x, y, 5, 2, 6, 3));
        v.push(line(x, y, 1, 1, 2, 0));
        v.push(line(x, y, 6, 0, 7, 1));
    } else {
        v.push(line(x, y, 2, 1, 7, 6));
        v.push(line(x, y, 7, 1, 2, 6));
    }
    assert(v@ =~= network_icon_spec(x, y, active));
    v
}

} // verus!
