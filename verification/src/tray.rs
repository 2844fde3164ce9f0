//! The tray menu's events and the tray icon's pixels.

use vstd::prelude::*;

verus! {

/// What a click in the tray menu asks for.
#[derive(Debug, Clone, Copy, PartialEq, Eq, Structural)]
pub enum TrayEvent {
    ShowOptions,
    Exit,
}

/// The event of the menu item whose id is `id`, given the ids of the
/// "options" and "exit" items; `None` for any other item.
pub fn event_for_menu_id(id: &String, options_id: &String, exit_id: &String) -> (res: Option<TrayEvent>)
    ensures
        res == if id@ == options_id@ {
            Some(TrayEvent::ShowOptions)
        } else if id@ == exit_id@ {
            Some(TrayEvent::Exit)
        } else {
            None::<TrayEvent>
        },
{
    if *id == *options_id {
        Some(TrayEvent::ShowOptions)
    } else if *id == *exit_id {
        Some(TrayEvent::Exit)
    } else {
        None
    }
}

/// The width and height of the tray icon, in pixels.
pub const ICON_SIZE: u32 = 16;

/// The RGBA colour of the icon's pixel in column `x` and row `y`: a grey
/// frame, a green rising staircase on the left (upload), a blue falling one
/// on the right (download), on a dark, slightly translucent ground.
pub open spec fn icon_pixel(x: int, y: int) -> (u8, u8, u8, u8) {
    let s = ICON_SIZE as int;
    let border = x == 0 || x == s - 1 || y == 0 || y == s - 1;
    let rise = 2 + (x - 2) * 2;
    let bar_up = x >= 2 && x <= 6 && y >= (if s >= rise { s - rise } else { 0 });
    let bar_dn = x >= 8 && x <= 13 && y >= 2 && y < 2 + (x - 8);
    if border {
        (60, 60, 60, 255)
    } else if bar_up {
        (80, 210, 80, 255)
    } else if bar_dn {
        (80, 150, 255, 255)
    } else {
        (18, 18, 24, 220)
    }
}

/// Channel `c` (0 red, 1 green, 2 blue, 3 alpha) of a colour.
pub open spec fn channel(p: (u8, u8, u8, u8), c: int) -> u8 {
    if c == 0 { p.0 } else if c == 1 { p.1 } else if c == 2 { p.2 } else { p.3 }
}

/// Byte `i` of the icon's row-major RGBA buffer.
pub open spec fn icon_byte(i: int) -> u8 {
    let pixel = i / 4;
    channel(icon_pixel(pixel % (ICON_SIZE as int), pixel / (ICON_SIZE as int)), i % 4)
}

fn pixel_at(x: u32, y: u32) -> (res: (u8, u8, u8, u8))
    requires
        x < ICON_SIZE,
        y < ICON_SIZE,
    ensures
        res == icon_pixel(x as int, y as int),
{
    let s = ICON_SIZE;
    let border = x == 0 || x == s - 1 || y == 0 || y == s - 1;
    let bar_up = x >= 2 && x <= 6 && y >= s.saturating_sub(2 + (x - 2) * 2);
    let bar_dn = x >= 8 && x <= 13 && y >= 2 && y < 2 + (x - 8);
    if border {
        (60, 60, 60, 255)
    } else if bar_up {
        (80, 210, 80, 255)
    } else if bar_dn {
        (80, 150, 255, 255)
    } else {
        (18, 18, 24, 220)
    }
}

/// The tray icon as a 16 x 16 RGBA buffer, rows from the top.
pub fn icon_rgba() -> (res: Vec<u8>)
    ensures
        res@.len() == ICON_SIZE * ICON_SIZE * 4,
        forall|i: int| 0 <= i < res@.len() ==> #[trigger] res@[i] == icon_byte(i),
        forall|x: int, y: int, c: int|
            0 <= x < ICON_SIZE && 0 <= y < ICON_SIZE && 0 <= c < 4
                ==> #[trigger] res@[(y * (ICON_SIZE as int) + x) * 4 + c] == channel(icon_pixel(x, y), c),
{
    let s = ICON_SIZE;
    let mut rgba: Vec<u8> = Vec::with_capacity((s * s * 4) as usize);
    let mut y: u32 = 0;
    while y < s
        invariant
            y <= s,
            s == ICON_SIZE,
            rgba@.len() == y * s * 4,
            forall|i: int| 0 <= i < rgba@.len() ==> #[trigger] rgba@[i] == icon_byte(i),
        decreases s - y,
    {
        let mut x: u32 = 0;
        while x < s
            invariant
                x <= s,
                y < s,
                s == ICON_SIZE,
                rgba@.len() == (y * s + x) * 4,
                forall|i: int| 0 <= i < rgba@.len() ==> #[trigger] rgba@[i] == icon_byte(i),
            decreases s - x,
        {
            let (r, g, b, a) = pixel_at(x, y);
            let ghost base = rgba@.len() as int;
            rgba.push(r);
            rgba.push(g);
            rgba.push(b);
            rgba.push(a);
            proof {
                assert forall|i: int| 0 <= i < rgba@.len() implies #[trigger] rgba@[i] == icon_byte(i) by {
                    if i >= base {
                        assert(i / 4 == y * 16 + x);
                        assert((y * 16 + x) % 16 == x);
                        assert((y * 16 + x) / 16 == y);
                    }
                }
            }
            x = x + 1;
        }
        y = y + 1;
    }
    proof {
        assert forall|x: int, y: int, c: int|
            0 <= x < ICON_SIZE && 0 <= y < ICON_SIZE && 0 <= c < 4
            implies #[trigger] rgba@[(y * (ICON_SIZE as int) + x) * 4 + c] == channel(icon_pixel(x, y), c) by {
            let i = (y * 16 + x) * 4 + c;
            assert(rgba@[i] == icon_byte(i));
            assert(i / 4 == y * 16 + x);
            assert(i % 4 == c);
            assert((y * 16 + x) % 16 == x);
            assert((y * 16 + x) / 16 == y);
        }
    }
    rgba
}

} // verus!
