use dodjtime::battery::{Level, Source, State};
use dodjtime::display::{Backlight, Cmd};
use dodjtime::geom::{Point, Rect};
use dodjtime::ui::{on_event, UiAction, UiEvent};

#[test]
fn button_press_shows_the_face_and_flashes_the_backlight() {
    let image = vec![1, 1, 0xab, 0xcd];
    let actions = on_event(UiEvent::PowerButtonPressed, image.clone());
    assert_eq!(actions.len(), 7);
    assert!(matches!(actions[0], UiAction::RequestBatterySample));
    assert!(matches!(&actions[1], UiAction::Display(Cmd::SleepOff)));
    match &actions[2] {
        UiAction::Display(Cmd::FillRectWithColor { area, color }) => {
            assert_eq!(*area, Rect::new(0, 0, 240, 240).unwrap());
            assert_eq!(*color, 0);
        }
        other => panic!("unexpected action {other:?}"),
    }
    match &actions[3] {
        UiAction::Display(Cmd::DrawImage { top_left, image: img, scale }) => {
            assert_eq!(*top_left, Point::new(2, 2));
            assert_eq!(*img, image);
            assert_eq!(*scale, 4);
        }
        other => panic!("unexpected action {other:?}"),
    }
    assert!(matches!(
        &actions[4],
        UiAction::Display(Cmd::SetBacklight { level: Backlight::High })
    ));
    assert!(matches!(&actions[5], UiAction::Hold(5)));
    assert!(matches!(
        &actions[6],
        UiAction::Display(Cmd::SetBacklight { level: Backlight::Off })
    ));
}

#[test]
fn battery_answers_need_no_action() {
    let state = State::new(Level::from_adc_sample(5051), Source::Battery);
    let actions = on_event(UiEvent::BatteryState(state), vec![]);
    assert!(actions.is_empty());
}
