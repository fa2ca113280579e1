//! The system-tray side: which requests a batch of tray events amounts to,
//! and the tray icon's pixels.

use vstd::prelude::*;

verus! {

/// One event from the tray icon or its menu.
#[derive(Clone, Copy, Debug, PartialEq, Eq, Structural)]
pub enum TrayInput {
    /// A left click on the icon.
    IconLeftClick,
    /// Any other icon event (other buttons, hovering, ...).
    IconOther,
    /// "Show / Hide" was chosen.
    MenuShow,
    /// "Connect" was chosen.
    MenuConnect,
    /// "Disconnect" was chosen.
    MenuDisconnect,
    /// "Quit" was chosen.
    MenuQuit,
    /// A menu event for an item this application does not know.
    MenuOther,
}

/// What the user asked for through the tray since the last poll.
#[derive(Clone, Copy, Debug, PartialEq, Eq, Structural)]
pub struct TrayEvents {
    pub toggle: bool,
    pub connect: bool,
    pub disconnect: bool,
    pub quit: bool,
}

/// Whether `e` occurs among `inputs`.
pub open spec fn has_input(inputs: Seq<TrayInput>, e: TrayInput) -> bool {
    exists|i: int| 0 <= i < inputs.len() && #[trigger] inputs[i] == e
}

/// The requests in a batch of tray events: show/hide on a left click or the
/// "Show / Hide" item, and one flag for each of the other items.
pub fn tray_events(inputs: &[TrayInput]) -> (ev: TrayEvents)
    ensures
        ev.toggle == (has_input(inputs@, TrayInput::IconLeftClick) || has_input(
            inputs@,
            TrayInput::MenuShow,
        )),
        ev.connect == has_input(inputs@, TrayInput::MenuConnect),
        ev.disconnect == has_input(inputs@, TrayInput::MenuDisconnect),
        ev.quit == has_input(inputs@, TrayInput::MenuQuit),
{
    let mut ev = TrayEvents { toggle: false, connect: false, disconnect: false, quit: false };
    let mut i: usize = 0;
    while i < inputs.len()
        invariant
            i <= inputs@.len(),
            ev.toggle == (has_input(inputs@.take(i as int), TrayInput::IconLeftClick) || has_input(
                inputs@.take(i as int),
                TrayInput::MenuShow,
            )),
            ev.connect == has_input(inputs@.take(i as int), TrayInput::MenuConnect),
            ev.disconnect == has_input(inputs@.take(i as int), TrayInput::MenuDisconnect),
            ev.quit == has_input(inputs@.take(i as int), TrayInput::MenuQuit),
        decreases inputs@.len() - i,
    {
        let ghost before = inputs@.take(i as int);
        match inputs[i] {
            TrayInput::IconLeftClick => ev.toggle = true,
            TrayInput::MenuShow => ev.toggle = true,
            TrayInput::MenuConnect => ev.connect = true,
            TrayInput::MenuDisconnect => ev.disconnect = true,
            TrayInput::MenuQuit => ev.quit = true,
            _ => {},
        }
        proof {
            let after = inputs@.take(i + 1);
            assert(after =~= before.push(inputs@[i as int]));
            assert forall|e: TrayInput| #[trigger] has_input(after, e) == (has_input(before, e) || e
                == inputs@[i as int]) by {
                if has_input(after, e) {
                    let k = choose|k: int| 0 <= k < after.len() && #[trigger] after[k] == e;
                    if k < i {
                        assert(before[k] == e);
                    }
                }
                if has_input(before, e) {
                    let k = choose|k: int| 0 <= k < before.len() && #[trigger] before[k] == e;
                    assert(after[k] == e);
                }
                if e == inputs@[i as int] {
                    assert(after[i as int] == e);
                }
            }
        }
        i = i + 1;
    }
    assert(inputs@.take(inputs@.len() as int) =~= inputs@);
    ev
}

/// Side of the square tray icon, in pixels.
pub const ICON_SIZE: u32 = 32;

/// Four times the squared distance from the centre of pixel `(x, y)` to the
/// icon's centre (16, 16).
pub open spec fn centre_dist4(x: int, y: int) -> int {
    (2 * x - 31) * (2 * x - 31) + (2 * y - 31) * (2 * y - 31)
}

/// The RGBA colour of pixel `(x, y)`: green on the ring between radius 8 and
/// radius 14, dark grey inside it, transparent outside.
pub open spec fn icon_pixel(x: int, y: int) -> Seq<u8> {
    let d = centre_dist4(x, y);
    if 256 <= d <= 784 {
        seq![50u8, 200u8, 80u8, 255u8]
    } else if d < 256 {
        seq![30u8, 30u8, 35u8, 255u8]
    } else {
        seq![0u8, 0u8, 0u8, 0u8]
    }
}

/// The 32x32 RGBA image of the tray icon, row by row. Distances are compared
/// squared and doubled, in integers; no pixel centre lies near enough to
/// either radius for a rounded floating-point distance to fall otherwise.
pub fn icon_rgba() -> (rgba: Vec<u8>)
    ensures
        rgba@.len() == 4 * 1024,
        forall|p: int|
            0 <= p < 1024 ==> #[trigger] rgba@.subrange(4 * p, 4 * p + 4) == icon_pixel(
                p % 32,
                p / 32,
            ),
{
    let mut rgba: Vec<u8> = Vec::new();
    let mut p: usize = 0;
    while p < 1024
        invariant
            p <= 1024,
            rgba@.len() == 4 * p,
            forall|q: int|
                0 <= q < p ==> #[trigger] rgba@.subrange(4 * q, 4 * q + 4) == icon_pixel(
                    q % 32,
                    q / 32,
                ),
        decreases 1024 - p,
    {
        let x = (p % 32) as i32;
        let y = (p / 32) as i32;
        let dx = 2 * x - 31;
        let dy = 2 * y - 31;
        assert(-31 <= dx <= 31 && -31 <= dy <= 31);
        assert(dx * dx <= 961) by (nonlinear_arith)
            requires
                -31 <= dx <= 31,
        ;
        assert(dy * dy <= 961) by (nonlinear_arith)
            requires
                -31 <= dy <= 31,
        ;
        assert(dx * dx >= 0) by (nonlinear_arith);
        assert(dy * dy >= 0) by (nonlinear_arith);
        let d = dx * dx + dy * dy;
        let ghost before = rgba@;
        if 256 <= d && d <= 784 {
            rgba.push(50);
            rgba.push(200);
            rgba.push(80);
            rgba.push(255);
        } else if d < 256 {
            rgba.push(30);
            rgba.push(30);
            rgba.push(35);
            rgba.push(255);
        } else {
            rgba.push(0);
            rgba.push(0);
            rgba.push(0);
            rgba.push(0);
        }
        proof {
            assert(d == centre_dist4(p as int % 32, p as int / 32));
            assert(rgba@.subrange(4 * p, 4 * p + 4) =~= icon_pixel(p as int % 32, p as int / 32));
            assert forall|q: int| 0 <= q < p implies #[trigger] rgba@.subrange(4 * q, 4 * q + 4)
                == icon_pixel(q % 32, q / 32) by {
                assert(rgba@.subrange(4 * q, 4 * q + 4) =~= before.subrange(4 * q, 4 * q + 4));
            }
        }
        p = p + 1;
    }
    rgba
}

} // verus!
