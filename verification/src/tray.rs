//! The menu bar tray icon, which is the whole of Shepherdr's controls.
//!
//! The tray owns no state: its menu is rebuilt from the published states every time they change,
//! and every click is turned straight back into a supervisor operation, a reload, a request for
//! the log window, or an app exit.

use vstd::prelude::*;

use crate::names::entries;
use crate::supervisor::service::ServiceCommand;
use crate::supervisor::Supervisor;
use crate::tray::menu::{
    action_of, law_identifiers_are_distinct, AppItem, MenuAction, Operation, Request,
};

pub mod menu;

verus! {

/// What a click on a menu item leads to.
#[derive(Debug)]
pub enum Dispatch<'a, H> {
    /// No menu item has the identifier: report it.
    Unknown,
    /// The service is not one that the supervisor knows: nothing happens.
    Ignored,
    /// The command goes to the task with this handle.
    Deliver(&'a H, ServiceCommand),
    /// The configuration is reloaded.
    Reload,
    /// The log window is shown.
    OpenLogs,
    /// The app exits. Every service is stopped on the way out.
    Quit,
}

/// The command that an operation sends to a service's task.
pub open spec fn command_of(operation: Operation) -> ServiceCommand {
    match operation {
        Operation::Start => ServiceCommand::Start,
        Operation::Stop => ServiceCommand::Stop,
        Operation::Restart => ServiceCommand::Restart,
    }
}

/// Whether `dispatch` is what `request` leads to.
pub open spec fn carries_out<H>(
    supervisor: Supervisor<H>,
    request: Request,
    dispatch: Dispatch<H>,
) -> bool {
    match request {
        Request::Service(operation, name) => if entries(supervisor.handles).contains_key(name) {
            &&& dispatch matches Dispatch::Deliver(handle, command)
            &&& *handle == entries(supervisor.handles)[name]
            &&& command == command_of(operation)
        } else {
            dispatch is Ignored
        },
        Request::App(AppItem::Reload) => dispatch is Reload,
        Request::App(AppItem::OpenLogs) => dispatch is OpenLogs,
        Request::App(AppItem::Quit) => dispatch is Quit,
    }
}

/// Decides what the click on the menu item with the given identifier leads to.
#[must_use]
pub fn dispatch<'a, H>(supervisor: &'a Supervisor<H>, id: &str) -> (dispatch: Dispatch<'a, H>)
    ensures
        forall|request: Request| #[trigger]
            request.id() == id@ ==> carries_out(*supervisor, request, dispatch),
        dispatch is Unknown <==> forall|request: Request| #[trigger] request.id() != id@,
{
    let action = match action_of(id) {
        Some(action) => action,
        None => {
            return Dispatch::Unknown;
        },
    };
    proof {
        assert forall|request: Request| #[trigger] request.id() == id@ implies request
            == action@ by {
            law_identifiers_are_distinct(request, action@);
        }
        assert(action@.id() == id@);
    }
    let delivery = match &action {
        MenuAction::Start(name) => supervisor.start_service(name.as_str()),
        MenuAction::Stop(name) => supervisor.stop_service(name.as_str()),
        MenuAction::Restart(name) => supervisor.restart_service(name.as_str()),
        MenuAction::Reload => {
            return Dispatch::Reload;
        },
        MenuAction::OpenLogs => {
            return Dispatch::OpenLogs;
        },
        MenuAction::Quit => {
            return Dispatch::Quit;
        },
    };
    match delivery {
        Some((handle, command)) => Dispatch::Deliver(handle, command),
        None => Dispatch::Ignored,
    }
}

/// Side length of the generated tray icon, in pixels.
pub const ICON_SIZE: u32 = 32;

/// Radius of the disc drawn on the tray icon, in half-pixels, so 13 pixels.
pub const ICON_RADIUS: i64 = 26;

/// An image, row by row from the top, four bytes (red, green, blue, alpha) for each pixel.
#[derive(Clone, Debug, PartialEq, Eq)]
pub struct Image {
    /// The pixels.
    pub rgba: Vec<u8>,
    /// The number of pixels in a row.
    pub width: u32,
    /// The number of rows.
    pub height: u32,
}

/// Whether the centre of a pixel lies on the disc. Measured in half-pixels, a pixel's centre lands
/// on an integer and the disc needs no rounding: the centre of the image is at
/// `(ICON_SIZE, ICON_SIZE)`.
pub open spec fn on_disc(x: int, y: int) -> bool {
    let dx = x * 2 + 1 - ICON_SIZE;
    let dy = y * 2 + 1 - ICON_SIZE;
    dx * dx + dy * dy <= ICON_RADIUS * ICON_RADIUS
}

/// The four bytes of a pixel: black, and opaque where the disc is.
pub open spec fn icon_pixel(x: int, y: int) -> Seq<u8> {
    seq![0u8, 0u8, 0u8, if on_disc(x, y) { 255u8 } else { 0u8 }]
}

/// The four bytes of the pixel with the given number, counted row by row.
pub open spec fn pixel_bytes(rgba: Seq<u8>, number: int) -> Seq<u8> {
    rgba.subrange(number * 4, number * 4 + 4)
}

/// Draws the tray icon: an opaque black disc on a transparent field, generated rather than loaded.
///
/// As a template image, macOS ignores the colour and renders the alpha channel in the menu bar's
/// own foreground colour, so the shape follows the light and dark appearances without a second
/// asset.
#[must_use]
pub fn icon() -> (image: Image)
    ensures
        image.width == ICON_SIZE,
        image.height == ICON_SIZE,
        image.rgba@.len() == ICON_SIZE * ICON_SIZE * 4,
        forall|x: int, y: int|
            0 <= x < ICON_SIZE && 0 <= y < ICON_SIZE ==> #[trigger] pixel_bytes(
                image.rgba@,
                y * ICON_SIZE + x,
            ) == icon_pixel(x, y),
{
    let mut rgba: Vec<u8> = Vec::new();
    let mut y: u32 = 0;
    while y < ICON_SIZE
        invariant
            y <= ICON_SIZE,
            drawn(rgba@, y * ICON_SIZE),
        decreases ICON_SIZE - y,
    {
        let mut x: u32 = 0;
        while x < ICON_SIZE
            invariant
                x <= ICON_SIZE,
                y < ICON_SIZE,
                drawn(rgba@, y * ICON_SIZE + x),
            decreases ICON_SIZE - x,
        {
            let dx: i64 = x as i64 * 2 + 1 - ICON_SIZE as i64;
            let dy: i64 = y as i64 * 2 + 1 - ICON_SIZE as i64;
            proof {
                assert(-32 <= dx <= 32);
                assert(-32 <= dy <= 32);
                assert(0 <= dx * dx <= 1024) by (nonlinear_arith)
                    requires
                        -32 <= dx <= 32,
                ;
                assert(0 <= dy * dy <= 1024) by (nonlinear_arith)
                    requires
                        -32 <= dy <= 32,
                ;
            }
            let alpha: u8 = if dx * dx + dy * dy <= ICON_RADIUS * ICON_RADIUS {
                255
            } else {
                0
            };
            let ghost before = rgba@;
            rgba.push(0);
            rgba.push(0);
            rgba.push(0);
            rgba.push(alpha);
            proof {
                let count = y * ICON_SIZE + x;
                assert(pixel_bytes(rgba@, count) =~= icon_pixel(x as int, y as int));
                assert forall|number: int| 0 <= number < count + 1 implies #[trigger] pixel_bytes(
                    rgba@,
                    number,
                ) == icon_pixel(
                    number % (ICON_SIZE as int),
                    number / (ICON_SIZE as int),
                ) by {
                    if number < count {
                        assert(pixel_bytes(rgba@, number) =~= pixel_bytes(before, number));
                    } else {
                        assert(number % (ICON_SIZE as int) == x);
                        assert(number / (ICON_SIZE as int) == y);
                    }
                }
            }
            x = x + 1;
        }
        y = y + 1;
    }
    assert forall|x: int, y: int| 0 <= x < ICON_SIZE && 0 <= y < ICON_SIZE implies #[trigger]
        pixel_bytes(rgba@, y * ICON_SIZE + x) == icon_pixel(x, y) by {
        let number = y * ICON_SIZE + x;
        assert(number % (ICON_SIZE as int) == x);
        assert(number / (ICON_SIZE as int) == y);
    }
    Image { rgba, width: ICON_SIZE, height: ICON_SIZE }
}

/// Whether the first `count` pixels of the icon have been drawn, and no more.
spec fn drawn(rgba: Seq<u8>, count: int) -> bool {
    &&& rgba.len() == count * 4
    &&& forall|number: int|
        0 <= number < count ==> #[trigger] pixel_bytes(rgba, number) == icon_pixel(
            number % (ICON_SIZE as int),
            number / (ICON_SIZE as int),
        )
}

/// The icon is the same from either side and from above and below.
pub proof fn law_icon_is_symmetric(x: int, y: int)
    ensures
        icon_pixel(x, y) == icon_pixel(ICON_SIZE - 1 - x, y),
        icon_pixel(x, y) == icon_pixel(x, ICON_SIZE - 1 - y),
        icon_pixel(x, y) == icon_pixel(y, x),
{
    let dx = x * 2 + 1 - ICON_SIZE;
    let dy = y * 2 + 1 - ICON_SIZE;
    assert((ICON_SIZE - 1 - x) * 2 + 1 - ICON_SIZE == -dx);
    assert((ICON_SIZE - 1 - y) * 2 + 1 - ICON_SIZE == -dy);
    assert((-dx) * (-dx) == dx * dx) by (nonlinear_arith);
    assert((-dy) * (-dy) == dy * dy) by (nonlinear_arith);
}

/// Whether a pixel of the icon is opaque.
pub open spec fn opaque(x: int, y: int) -> bool {
    icon_pixel(x, y)[3] == 255
}

/// The icon is a round disc: a pixel that is no farther from the middle than an opaque one is
/// opaque too. Along the rows in the middle it is 26 pixels wide, and every pixel is black, and
/// either opaque or clear.
pub proof fn law_icon_is_a_round_disc(x: int, y: int, u: int, v: int)
    ensures
        ({
            let far = (2 * x - 31) * (2 * x - 31) + (2 * y - 31) * (2 * y - 31);
            let near = (2 * u - 31) * (2 * u - 31) + (2 * v - 31) * (2 * v - 31);
            opaque(x, y) && near <= far ==> opaque(u, v)
        }),
        0 <= x < 32 && (y == 15 || y == 16) ==> (opaque(x, y) <==> 3 <= x <= 28),
        icon_pixel(x, y).len() == 4,
        icon_pixel(x, y).take(3) == seq![0u8, 0u8, 0u8],
        !opaque(x, y) ==> icon_pixel(x, y)[3] == 0,
{
    let dx = x * 2 + 1 - ICON_SIZE;
    let dy = y * 2 + 1 - ICON_SIZE;
    assert(dx == 2 * x - 31);
    assert(dy == 2 * y - 31);
    assert(u * 2 + 1 - ICON_SIZE == 2 * u - 31);
    assert(v * 2 + 1 - ICON_SIZE == 2 * v - 31);
    assert(icon_pixel(x, y).take(3) =~= seq![0u8, 0u8, 0u8]);
    if 0 <= x < 32 && (y == 15 || y == 16) {
        assert(dy * dy == 1) by (nonlinear_arith)
            requires
                dy == 1 || dy == -1,
        ;
        if 3 <= x <= 28 {
            assert(dx * dx <= 625) by (nonlinear_arith)
                requires
                    -25 <= dx <= 25,
            ;
        } else {
            assert(dx * dx >= 729) by (nonlinear_arith)
                requires
                    dx <= -27 || dx >= 27,
            ;
        }
    }
}

/// A click does what its item says, for every service there is: the command goes to the task of
/// that service and of no other, and a service that is not known is left alone.
pub proof fn law_clicks_reach_their_service<H>(
    supervisor: Supervisor<H>,
    operation: Operation,
    name: Seq<char>,
    dispatch: Dispatch<H>,
)
    requires
        carries_out(supervisor, Request::Service(operation, name), dispatch),
    ensures
        entries(supervisor.handles).contains_key(name) <==> dispatch is Deliver,
        dispatch matches Dispatch::Deliver(handle, command) ==> {
            &&& *handle == entries(supervisor.handles)[name]
            &&& command == ServiceCommand::Start <==> operation == Operation::Start
            &&& command == ServiceCommand::Stop <==> operation == Operation::Stop
            &&& command == ServiceCommand::Restart <==> operation == Operation::Restart
        },
        dispatch is Deliver || dispatch is Ignored,
{
}

} // verus!
