//! Commands of the tray menu.

use vstd::prelude::*;

verus! {

/// What a click in the tray menu asks of the application.
#[derive(Debug, Clone, Copy, PartialEq, Eq, Structural)]
pub enum TrayMessage {
    Show,
    Hide,
    Quit,
}

/// The command that the menu entry with the identifier `id` stands for.
pub open spec fn menu_command(id: Seq<char>) -> Option<TrayMessage> {
    if id == "显示水分提醒"@ {
        Some(TrayMessage::Show)
    } else if id == "隐藏到托盘"@ {
        Some(TrayMessage::Hide)
    } else if id == "退出"@ {
        Some(TrayMessage::Quit)
    } else {
        None
    }
}

/// Width and height of the tray icon, in pixels.
pub const ICON_SIZE: usize = 32;

/// Whether the pixel in column `x` and row `y` belongs to the water drop:
/// a disc of radius 8 around (16, 20), which below its centre narrows to a
/// point at row 32.
pub open spec fn in_drop(x: int, y: int) -> bool {
    let square = (x - 16) * (x - 16) + (y - 20) * (y - 20);
    if y < 20 {
        square <= 64
    } else {
        9 * square <= 4 * ((32 - y) * (32 - y))
    }
}

/// Byte `i` of the icon. Pixels stand row by row, each as red, green, blue
/// and opacity: an opaque light blue inside the drop, nothing outside.
pub open spec fn icon_byte(i: int) -> u8 {
    if !in_drop((i / 4) % 32, (i / 4) / 32) {
        0
    } else if i % 4 == 0 {
        64
    } else if i % 4 == 1 {
        164
    } else {
        255
    }
}

/// Whether the pixel in column `x` and row `y` belongs to the water drop.
fn pixel_in_drop(x: usize, y: usize) -> (inside: bool)
    requires
        x < 32,
        y < 32,
    ensures
        inside == in_drop(x as int, y as int),
{
    let dx: i32 = x as i32 - 16;
    let dy: i32 = y as i32 - 20;
    let left: i32 = 32 - y as i32;
    assert(0 <= dx * dx <= 256) by (nonlinear_arith)
        requires
            -16 <= dx <= 16,
    ;
    assert(0 <= dy * dy <= 400) by (nonlinear_arith)
        requires
            -20 <= dy <= 20,
    ;
    assert(0 <= left * left <= 1024) by (nonlinear_arith)
        requires
            0 <= left <= 32,
    ;
    let square: i32 = dx * dx + dy * dy;
    if y < 20 {
        square <= 64
    } else {
        9 * square <= 4 * (left * left)
    }
}

/// The tray icon: a water drop of 32 by 32 pixels, four bytes to the pixel.
pub fn water_drop_icon() -> (data: Vec<u8>)
    ensures
        data@.len() == 32 * 32 * 4,
        forall|i: int| 0 <= i < data@.len() ==> data@[i] == icon_byte(i),
{
    let mut data: Vec<u8> = Vec::new();
    let mut y: usize = 0;
    while y < ICON_SIZE
        invariant
            y <= 32,
            data@.len() == y * 128,
            forall|i: int| 0 <= i < data@.len() ==> data@[i] == icon_byte(i),
        decreases 32 - y,
    {
        let mut x: usize = 0;
        while x < ICON_SIZE
            invariant
                y < 32,
                x <= 32,
                data@.len() == y * 128 + x * 4,
                forall|i: int| 0 <= i < data@.len() ==> data@[i] == icon_byte(i),
            decreases 32 - x,
        {
            if pixel_in_drop(x, y) {
                data.push(64);
                data.push(164);
                data.push(255);
                data.push(255);
            } else {
                data.push(0);
                data.push(0);
                data.push(0);
                data.push(0);
            }
            x = x + 1;
        }
        y = y + 1;
    }
    data
}

impl TrayMessage {
    /// The command that the menu entry with the identifier `id` stands for,
    /// if it is one of the three entries.
    pub fn from_menu_id(id: &str) -> (message: Option<TrayMessage>)
        ensures
            message == menu_command(id@),
    {
        let id = id.to_owned();
        if id == "显示水分提醒".to_owned() {
            Some(TrayMessage::Show)
        } else if id == "隐藏到托盘".to_owned() {
            Some(TrayMessage::Hide)
        } else if id == "退出".to_owned() {
            Some(TrayMessage::Quit)
        } else {
            None
        }
    }
}

} // verus!
