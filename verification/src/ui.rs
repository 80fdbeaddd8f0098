//! The main event loop's decisions: what the application does with each
//! event that reaches it. The surrounding runtime owns the channels and the
//! waiting; this module only decides, so that the choreography is checked.

use vstd::prelude::*;

use crate::battery::State;
use crate::display::{Backlight, Cmd, DISPLAY_HEIGHT, DISPLAY_WIDTH};
use crate::geom::{Point, Rect};

verus! {

/// An event the main loop consumes.
#[derive(Debug)]
pub enum UiEvent {
    /// The power button was pressed (already debounced).
    PowerButtonPressed,
    /// The battery task answered a sample request.
    BatteryState(State),
}

/// One step the runtime must carry out, in order.
#[derive(Debug)]
pub enum UiAction {
    /// Ask the battery task for a fresh sample.
    RequestBatterySample,
    /// Send a command to the display task.
    Display(Cmd),
    /// Let the shown state stand for this many seconds.
    Hold(u64),
}

/// React to one event. A button press refreshes the battery reading and
/// shows the watch face: wake the panel, clear it to black, draw the
/// background image at quadruple scale, light the backlight, hold five
/// seconds, and switch the backlight off. A battery answer needs no action
/// beyond being observed.
pub fn on_event(event: UiEvent, bg_image: Vec<u8>) -> (actions: Vec<UiAction>)
    ensures
        event is BatteryState ==> actions@.len() == 0,
        event is PowerButtonPressed ==> actions@.len() == 7,
        event is PowerButtonPressed ==> actions@[0] is RequestBatterySample,
        event is PowerButtonPressed ==> (actions@[1] matches UiAction::Display(c) && c is SleepOff),
        event is PowerButtonPressed ==> (actions@[2] matches UiAction::Display(c) && c
            matches Cmd::FillRectWithColor { area, color } && area == (Rect {
            x0: 0,
            y0: 0,
            x1: DISPLAY_WIDTH as i16,
            y1: DISPLAY_HEIGHT as i16,
        }) && color == 0),
        event is PowerButtonPressed ==> (actions@[3] matches UiAction::Display(c) && c
            matches Cmd::DrawImage { top_left, image, scale } && top_left == (Point {
            x: 2,
            y: 2,
        }) && image@ == bg_image@ && scale == 4),
        event is PowerButtonPressed ==> (actions@[4] matches UiAction::Display(c) && c
            matches Cmd::SetBacklight { level } && level == Backlight::High),
        event is PowerButtonPressed ==> (actions@[5] matches UiAction::Hold(secs) && secs == 5),
        event is PowerButtonPressed ==> (actions@[6] matches UiAction::Display(c) && c
            matches Cmd::SetBacklight { level } && level == Backlight::Off),
{
    let mut actions: Vec<UiAction> = Vec::new();
    match event {
        UiEvent::PowerButtonPressed => {
            actions.push(UiAction::RequestBatterySample);
            actions.push(UiAction::Display(Cmd::SleepOff));
            actions.push(
                UiAction::Display(
                    Cmd::fill_rect_with_color(
                        Rect::new_unchecked(0, 0, DISPLAY_WIDTH as i16, DISPLAY_HEIGHT as i16),
                        0,
                    ),
                ),
            );
            actions.push(
                UiAction::Display(
                    Cmd::DrawImage { top_left: Point::new(2, 2), image: bg_image, scale: 4 },
                ),
            );
            actions.push(UiAction::Display(Cmd::SetBacklight { level: Backlight::High }));
            actions.push(UiAction::Hold(5));
            actions.push(UiAction::Display(Cmd::SetBacklight { level: Backlight::Off }));
            actions
        },
        UiEvent::BatteryState(_state) => actions,
    }
}

} // verus!
