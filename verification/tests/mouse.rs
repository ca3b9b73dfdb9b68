use affine2d::mouse::{Button, Wheel};

#[test]
fn button_raw_codes() {
    assert_eq!(Button::Left.raw(), 0);
    assert_eq!(Button::Right.raw(), 1);
    assert_eq!(Button::Middle.raw(), 2);
    assert_eq!(Button::XButton1.raw(), 3);
    assert_eq!(Button::XButton2.raw(), 4);
    assert_eq!(Button::Count.raw(), 5);
}

#[test]
fn button_round_trips_through_raw() {
    let buttons = [
        Button::Left,
        Button::Right,
        Button::Middle,
        Button::XButton1,
        Button::XButton2,
        Button::Count,
    ];
    for b in buttons {
        assert_eq!(Button::from_raw(b.raw()), b);
    }
}

#[test]
fn wheel_raw_codes() {
    assert_eq!(Wheel::Vertical.raw(), 0);
    assert_eq!(Wheel::Horizontal.raw(), 1);
}

#[test]
fn wheel_round_trips_through_raw() {
    assert_eq!(Wheel::from_raw(Wheel::Vertical.raw()), Wheel::Vertical);
    assert_eq!(Wheel::from_raw(Wheel::Horizontal.raw()), Wheel::Horizontal);
}
