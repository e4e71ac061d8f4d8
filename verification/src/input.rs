//! Keyboard and mouse input, and what it does to the view.
use vstd::prelude::*;

verus! {

/// Lines scrolled by one turn of the mouse wheel.
pub const MOUSE_SCROLL_LINES: usize = 3;

/// The key of a key event.
#[derive(Clone, Copy, Debug, PartialEq, Eq)]
pub enum Key {
    Char(char),
    Up,
    Down,
    PageUp,
    PageDown,
    Home,
    End,
    Other,
}

/// What a mouse event did.
#[derive(Clone, Copy, Debug, PartialEq, Eq)]
pub enum Mouse {
    ScrollUp,
    ScrollDown,
    Other,
}

/// One terminal input event.
#[derive(Clone, Copy, Debug, PartialEq, Eq)]
pub enum InputEvent {
    /// A key event: the key, whether it was pressed (not released or
    /// repeated), and whether Control was held.
    Key { key: Key, pressed: bool, control: bool },
    Mouse(Mouse),
    Resize,
    Other,
}

/// What an input event asks the main loop to do.
#[derive(Clone, Copy, Debug, PartialEq, Eq)]
pub enum Action {
    Quit,
    ScrollUp(usize),
    ScrollDown(usize),
    ScrollToTop,
    ScrollToBottom,
    Redraw,
    Ignore,
}

/// Lines in one page: the viewport less one line, and at least one.
pub open spec fn page_lines(viewport_height: nat) -> nat {
    if viewport_height >= 2 {
        (viewport_height - 1) as nat
    } else {
        1
    }
}

/// Lines that Page Up and Page Down scroll by in a viewport of
/// `viewport_height` rows.
pub fn page_size(viewport_height: usize) -> (r: usize)
    ensures
        r == page_lines(viewport_height as nat),
        r >= 1,
        viewport_height >= 2 ==> r == viewport_height - 1,
        viewport_height < 2 ==> r == 1,
{
    let less_one = if viewport_height > 0 {
        viewport_height - 1
    } else {
        0
    };
    if less_one > 1 {
        less_one
    } else {
        1
    }
}

/// The action of an input event in a viewport of `viewport_height` rows.
pub open spec fn action_of(event: InputEvent, viewport_height: nat) -> Action {
    match event {
        InputEvent::Key { key, pressed, control } => if !pressed {
            Action::Ignore
        } else if key == Key::Char('c') && control {
            Action::Quit
        } else {
            match key {
                Key::Char(c) => if c == 'q' {
                    Action::Quit
                } else {
                    Action::Ignore
                },
                Key::Up => Action::ScrollUp(1),
                Key::Down => Action::ScrollDown(1),
                Key::PageUp => Action::ScrollUp(page_lines(viewport_height) as usize),
                Key::PageDown => Action::ScrollDown(page_lines(viewport_height) as usize),
                Key::Home => Action::ScrollToTop,
                Key::End => Action::ScrollToBottom,
                Key::Other => Action::Ignore,
            }
        },
        InputEvent::Mouse(m) => match m {
            Mouse::ScrollUp => Action::ScrollUp(MOUSE_SCROLL_LINES),
            Mouse::ScrollDown => Action::ScrollDown(MOUSE_SCROLL_LINES),
            Mouse::Other => Action::Ignore,
        },
        InputEvent::Resize => Action::Redraw,
        InputEvent::Other => Action::Ignore,
    }
}

/// What an input event asks the main loop to do; paging moves by
/// [`page_size`] of `viewport_height`.
pub fn action_for(event: InputEvent, viewport_height: usize) -> (r: Action)
    ensures
        r == action_of(event, viewport_height as nat),
        // Paging moves by the viewport less one line, and at least one line.
        event matches InputEvent::Key { key: Key::PageDown, pressed: true, .. } ==> r
            == Action::ScrollDown(if viewport_height >= 2 { (viewport_height - 1) as usize } else { 1 }),
        event matches InputEvent::Key { key: Key::PageUp, pressed: true, .. } ==> r
            == Action::ScrollUp(if viewport_height >= 2 { (viewport_height - 1) as usize } else { 1 }),
        event matches InputEvent::Key { key: Key::Up, pressed: true, .. } ==> r == Action::ScrollUp(1),
        event matches InputEvent::Key { key: Key::Down, pressed: true, .. } ==> r == Action::ScrollDown(1),
        event matches InputEvent::Key { key: Key::Home, pressed: true, .. } ==> r == Action::ScrollToTop,
        event matches InputEvent::Key { key: Key::End, pressed: true, .. } ==> r == Action::ScrollToBottom,
        event matches InputEvent::Key { key: Key::Char(c), pressed: true, .. } && c == 'q' ==> r
            == Action::Quit,
        event matches InputEvent::Key { key: Key::Char(c), pressed: true, control: true } && c == 'c'
            ==> r == Action::Quit,
        event matches InputEvent::Key { pressed: false, .. } ==> r == Action::Ignore,
        event == InputEvent::Mouse(Mouse::ScrollUp) ==> r == Action::ScrollUp(MOUSE_SCROLL_LINES),
        event == InputEvent::Mouse(Mouse::ScrollDown) ==> r == Action::ScrollDown(MOUSE_SCROLL_LINES),
        event == InputEvent::Resize ==> r == Action::Redraw,
        event == InputEvent::Mouse(Mouse::Other) ==> r == Action::Ignore,
        event == InputEvent::Other ==> r == Action::Ignore,
        event matches InputEvent::Key { key: Key::Other, .. } ==> r == Action::Ignore,
        event matches InputEvent::Key { key: Key::Char(c), control, .. } && c != 'q' && !(c == 'c'
            && control) ==> r == Action::Ignore,
        MOUSE_SCROLL_LINES == 3,
{
    match event {
        InputEvent::Key { key, pressed, control } => {
            if !pressed {
                return Action::Ignore;
            }
            let ctrl_c = match key {
                Key::Char(c) => c == 'c' && control,
                _ => false,
            };
            if ctrl_c {
                return Action::Quit;
            }
            match key {
                Key::Char(c) => if c == 'q' {
                    Action::Quit
                } else {
                    Action::Ignore
                },
                Key::Up => Action::ScrollUp(1),
                Key::Down => Action::ScrollDown(1),
                Key::PageUp => Action::ScrollUp(page_size(viewport_height)),
                Key::PageDown => Action::ScrollDown(page_size(viewport_height)),
                Key::Home => Action::ScrollToTop,
                Key::End => Action::ScrollToBottom,
                Key::Other => Action::Ignore,
            }
        },
        InputEvent::Mouse(m) => match m {
            Mouse::ScrollUp => Action::ScrollUp(MOUSE_SCROLL_LINES),
            Mouse::ScrollDown => Action::ScrollDown(MOUSE_SCROLL_LINES),
            Mouse::Other => Action::Ignore,
        },
        InputEvent::Resize => Action::Redraw,
        InputEvent::Other => Action::Ignore,
    }
}

/// What the main loop does next after an input event.
#[derive(Clone, Copy, Debug, PartialEq, Eq)]
pub enum Step {
    /// Leave the loop.
    Quit,
    /// Draw the frame again at this scroll offset (which drawing clamps).
    Render(usize),
    /// Draw nothing; wait for the next event or refresh.
    Wait,
}

/// The next step of the main loop for an action, from scroll offset
/// `offset`. Input only moves the viewport: it never asks for a new sample.
pub open spec fn step_of(offset: nat, action: Action) -> Step {
    match action {
        Action::Quit => Step::Quit,
        Action::ScrollUp(n) => Step::Render(
            if offset >= n {
                (offset - n) as usize
            } else {
                0
            },
        ),
        Action::ScrollDown(n) => Step::Render(
            if offset + n <= usize::MAX {
                (offset + n) as usize
            } else {
                usize::MAX
            },
        ),
        Action::ScrollToTop => Step::Render(0),
        Action::ScrollToBottom => Step::Render(usize::MAX),
        Action::Redraw => Step::Render(offset as usize),
        Action::Ignore => Step::Wait,
    }
}

/// The next step of the main loop for an action, from scroll offset
/// `offset`.
pub fn apply_action(offset: usize, action: Action) -> (r: Step)
    ensures
        r == step_of(offset as nat, action),
        // Scrolling up stops at the top; scrolling down stops at the largest offset.
        action matches Action::ScrollUp(n) ==> r == Step::Render(
            if offset >= n { (offset - n) as usize } else { 0 },
        ),
        action matches Action::ScrollDown(n) ==> r == Step::Render(
            if offset + n <= usize::MAX { (offset + n) as usize } else { usize::MAX },
        ),
        action == Action::ScrollToTop ==> r == Step::Render(0),
        action == Action::ScrollToBottom ==> r == Step::Render(usize::MAX),
        action == Action::Redraw ==> r == Step::Render(offset),
        action == Action::Quit ==> r == Step::Quit,
        action == Action::Ignore ==> r == Step::Wait,
{
    match action {
        Action::Quit => Step::Quit,
        Action::ScrollUp(n) => Step::Render(offset.saturating_sub(n)),
        Action::ScrollDown(n) => Step::Render(offset.saturating_add(n)),
        Action::ScrollToTop => Step::Render(0),
        Action::ScrollToBottom => Step::Render(usize::MAX),
        Action::Redraw => Step::Render(offset),
        Action::Ignore => Step::Wait,
    }
}

/// Paging up and paging down move by the same amount: one line less than
/// the viewport, and never less than one line.
pub proof fn lemma_page_keys(viewport_height: nat, control: bool)
    ensures
        action_of(InputEvent::Key { key: Key::PageDown, pressed: true, control }, viewport_height)
            == Action::ScrollDown(if viewport_height >= 2 { (viewport_height - 1) as usize } else { 1 }),
        action_of(InputEvent::Key { key: Key::PageUp, pressed: true, control }, viewport_height)
            == Action::ScrollUp(if viewport_height >= 2 { (viewport_height - 1) as usize } else { 1 }),
{
}

/// Scrolling up by `n` lands `n` lines higher, or at the top when fewer than
/// `n` lines lie above; it never moves down.
pub proof fn lemma_scroll_up_saturates(offset: usize, n: usize)
    ensures
        step_of(offset as nat, Action::ScrollUp(n)) matches Step::Render(r) && r <= offset && (
        offset >= n ==> r + n == offset) && (offset < n ==> r == 0),
{
}

/// Scrolling down by `n` lands `n` lines lower, or at the largest offset.
pub proof fn lemma_scroll_down_saturates(offset: usize, n: usize)
    ensures
        step_of(offset as nat, Action::ScrollDown(n)) matches Step::Render(r) && r >= offset && (
        offset + n <= usize::MAX ==> r == offset + n) && (offset + n > usize::MAX ==> r
            == usize::MAX),
{
}

/// Scrolling down and then up by the same amount comes back, as long as
/// nothing was cut off at the end of the range.
pub proof fn lemma_scroll_down_up(offset: usize, n: usize)
    requires
        offset + n <= usize::MAX,
    ensures
        step_of(offset as nat, Action::ScrollDown(n)) == Step::Render((offset + n) as usize),
        step_of((offset + n) as nat, Action::ScrollUp(n)) == Step::Render(offset),
{
}

} // verus!
