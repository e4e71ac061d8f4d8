use rwatch::input::{action_for, apply_action, page_size, Action, InputEvent, Key, Mouse, Step};

fn press(key: Key) -> InputEvent {
    InputEvent::Key { key, pressed: true, control: false }
}

#[test]
fn page_is_viewport_less_one() {
    assert_eq!(page_size(0), 1);
    assert_eq!(page_size(1), 1);
    assert_eq!(page_size(2), 1);
    assert_eq!(page_size(40), 39);
}

#[test]
fn quit_keys() {
    assert_eq!(action_for(press(Key::Char('q')), 24), Action::Quit);
    assert_eq!(
        action_for(InputEvent::Key { key: Key::Char('c'), pressed: true, control: true }, 24),
        Action::Quit
    );
    assert_eq!(
        action_for(InputEvent::Key { key: Key::Char('q'), pressed: true, control: true }, 24),
        Action::Quit
    );
    assert_eq!(action_for(press(Key::Char('c')), 24), Action::Ignore);
}

#[test]
fn released_keys_do_nothing() {
    assert_eq!(
        action_for(InputEvent::Key { key: Key::Char('q'), pressed: false, control: false }, 24),
        Action::Ignore
    );
}

#[test]
fn scrolling_keys() {
    assert_eq!(action_for(press(Key::Up), 24), Action::ScrollUp(1));
    assert_eq!(action_for(press(Key::Down), 24), Action::ScrollDown(1));
    assert_eq!(action_for(press(Key::PageUp), 24), Action::ScrollUp(23));
    assert_eq!(action_for(press(Key::PageDown), 1), Action::ScrollDown(1));
    assert_eq!(action_for(press(Key::Home), 24), Action::ScrollToTop);
    assert_eq!(action_for(press(Key::End), 24), Action::ScrollToBottom);
    assert_eq!(action_for(press(Key::Other), 24), Action::Ignore);
}

#[test]
fn mouse_and_resize() {
    assert_eq!(action_for(InputEvent::Mouse(Mouse::ScrollUp), 24), Action::ScrollUp(3));
    assert_eq!(action_for(InputEvent::Mouse(Mouse::ScrollDown), 24), Action::ScrollDown(3));
    assert_eq!(action_for(InputEvent::Mouse(Mouse::Other), 24), Action::Ignore);
    assert_eq!(action_for(InputEvent::Resize, 24), Action::Redraw);
    assert_eq!(action_for(InputEvent::Other, 24), Action::Ignore);
}

#[test]
fn steps_of_actions() {
    assert_eq!(apply_action(5, Action::Quit), Step::Quit);
    assert_eq!(apply_action(5, Action::ScrollUp(3)), Step::Render(2));
    assert_eq!(apply_action(2, Action::ScrollUp(3)), Step::Render(0));
    assert_eq!(apply_action(5, Action::ScrollDown(3)), Step::Render(8));
    assert_eq!(apply_action(usize::MAX - 1, Action::ScrollDown(3)), Step::Render(usize::MAX));
    assert_eq!(apply_action(5, Action::ScrollToTop), Step::Render(0));
    assert_eq!(apply_action(5, Action::ScrollToBottom), Step::Render(usize::MAX));
    assert_eq!(apply_action(5, Action::Redraw), Step::Render(5));
    assert_eq!(apply_action(5, Action::Ignore), Step::Wait);
}

#[test]
fn down_then_up_comes_back() {
    let down = match apply_action(10, Action::ScrollDown(7)) {
        Step::Render(n) => n,
        _ => unreachable!(),
    };
    assert_eq!(apply_action(down, Action::ScrollUp(7)), Step::Render(10));
}
