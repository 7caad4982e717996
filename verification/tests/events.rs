use tiling_wm::events::MouseButton;

#[test]
fn buttons_one_to_three_are_known() {
    assert_eq!(MouseButton::try_from(1), Ok(MouseButton::Left));
    assert_eq!(MouseButton::try_from(2), Ok(MouseButton::Middle));
    assert_eq!(MouseButton::try_from(3), Ok(MouseButton::Right));
}

#[test]
fn other_buttons_are_not() {
    assert_eq!(MouseButton::try_from(0), Err(()));
    assert_eq!(MouseButton::try_from(4), Err(()));
    assert_eq!(MouseButton::try_from(5), Err(()));
    assert_eq!(MouseButton::try_from(255), Err(()));
}

#[test]
fn number_is_the_inverse() {
    for n in 1..=3u8 {
        assert_eq!(MouseButton::try_from(n).unwrap().number(), n);
    }
}
