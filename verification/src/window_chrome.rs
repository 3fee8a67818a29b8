//! The window's own title bar: what lies under the pointer, and what pressing
//! it does. Lengths are in physical pixels; the scale is in thousandths.
use vstd::prelude::*;

verus! {

/// What lies under the pointer.
#[derive(Debug, Clone, Copy, PartialEq, Eq, Structural)]
pub enum Hit {
    Caption,
    SystemMenu,
    Minimize,
    Maximize,
    Close,
    Left,
    Right,
    Top,
    TopLeft,
    TopRight,
    Bottom,
    BottomLeft,
    BottomRight,
}

/// What the window is told to do.
#[derive(Debug, Clone, Copy, PartialEq, Eq, Structural)]
pub enum CaptionCommand {
    Minimize,
    Restore,
    Maximize,
    Close,
}

/// A length at a scale, rounded to the nearest pixel.
pub open spec fn scaled(logical: int, scale: int) -> int {
    (logical * scale + 500) / 1000
}

pub fn scaled_pixels(logical: u8, scale: u32) -> (r: i64)
    ensures
        r == scaled(logical as int, scale as int),
        0 <= r <= 1_100_000_000,
{
    assert(logical * scale <= 255 * 0xffff_ffff) by (nonlinear_arith)
        requires
            logical <= 255,
            scale <= 0xffff_ffff,
    ;
    assert(logical * scale >= 0) by (nonlinear_arith)
        requires
            logical >= 0,
            scale >= 0,
    ;
    (logical as i64 * scale as i64 + 500) / 1_000
}

/// The signed halves of a packed position: the low half is the column, the
/// high half the line.
pub open spec fn signed_half(n: int) -> int {
    if n >= 0x8000 {
        n - 0x10000
    } else {
        n
    }
}

pub fn unpack_point(packed: u32) -> (r: (i32, i32))
    ensures
        r.0 == signed_half(packed as int % 0x10000),
        r.1 == signed_half(packed as int / 0x10000),
{
    let low: u32 = packed % 0x10000;
    let high: u32 = packed / 0x10000;
    let x: i32 = if low >= 0x8000 {
        low as i32 - 0x10000
    } else {
        low as i32
    };
    let y: i32 = if high >= 0x8000 {
        high as i32 - 0x10000
    } else {
        high as i32
    };
    (x, y)
}

/// What of the title bar lies at a point: at the left the system menu, at the
/// right three buttons, between them the caption.
pub open spec fn caption_at(x: int, y: int, width: int, scale: int) -> Option<Hit> {
    let button = scaled(46, scale);
    if y < 0 || y >= scaled(36, scale) || x < 0 || x >= width {
        None
    } else if x < scaled(34, scale) {
        Some(Hit::SystemMenu)
    } else if width - x <= button {
        Some(Hit::Close)
    } else if width - x <= button * 2 {
        Some(Hit::Maximize)
    } else if width - x <= button * 3 {
        Some(Hit::Minimize)
    } else {
        Some(Hit::Caption)
    }
}

pub fn caption_hit_test(x: i32, y: i32, width: i32, scale: u32) -> (r: Option<Hit>)
    ensures
        r == caption_at(x as int, y as int, width as int, scale as int),
{
    let x: i64 = x as i64;
    let y: i64 = y as i64;
    let width: i64 = width as i64;
    if y < 0 || y >= scaled_pixels(36, scale) || x < 0 || x >= width {
        return None;
    }
    let button: i64 = scaled_pixels(46, scale);
    let from_right: i64 = width - x;
    Some(
        if x < scaled_pixels(34, scale) {
            Hit::SystemMenu
        } else if from_right <= button {
            Hit::Close
        } else if from_right <= button * 2 {
            Hit::Maximize
        } else if from_right <= button * 3 {
            Hit::Minimize
        } else {
            Hit::Caption
        },
    )
}

/// The border at a point: corners before edges, left and top before right and
/// bottom. A maximized window has none.
pub open spec fn border_at(x: int, y: int, width: int, height: int, scale: int, maximized: bool) -> Option<
    Hit,
> {
    let border = scaled(6, scale);
    let left = x < border;
    let right = x >= width - border;
    let top = y < border;
    let bottom = y >= height - border;
    if maximized {
        None
    } else if left && top {
        Some(Hit::TopLeft)
    } else if right && top {
        Some(Hit::TopRight)
    } else if left && bottom {
        Some(Hit::BottomLeft)
    } else if right && bottom {
        Some(Hit::BottomRight)
    } else if left {
        Some(Hit::Left)
    } else if right {
        Some(Hit::Right)
    } else if top {
        Some(Hit::Top)
    } else if bottom {
        Some(Hit::Bottom)
    } else {
        None
    }
}

pub fn resize_hit_test(x: i32, y: i32, width: i32, height: i32, scale: u32, maximized: bool) -> (r:
    Option<Hit>)
    ensures
        r == border_at(
            x as int,
            y as int,
            width as int,
            height as int,
            scale as int,
            maximized,
        ),
{
    if maximized {
        return None;
    }
    let border: i64 = scaled_pixels(6, scale);
    let left = (x as i64) < border;
    let right = (x as i64) >= width as i64 - border;
    let top = (y as i64) < border;
    let bottom = (y as i64) >= height as i64 - border;
    if left && top {
        Some(Hit::TopLeft)
    } else if right && top {
        Some(Hit::TopRight)
    } else if left && bottom {
        Some(Hit::BottomLeft)
    } else if right && bottom {
        Some(Hit::BottomRight)
    } else if left {
        Some(Hit::Left)
    } else if right {
        Some(Hit::Right)
    } else if top {
        Some(Hit::Top)
    } else if bottom {
        Some(Hit::Bottom)
    } else {
        None
    }
}

/// What lies under the pointer of a window: its border, else its title bar.
pub fn hit_test(x: i32, y: i32, width: i32, height: i32, scale: u32, maximized: bool) -> (r: Option<Hit>)
    ensures
        r == match border_at(
            x as int,
            y as int,
            width as int,
            height as int,
            scale as int,
            maximized,
        ) {
            Some(hit) => Some(hit),
            None => caption_at(x as int, y as int, width as int, scale as int),
        },
{
    match resize_hit_test(x, y, width, height, scale, maximized) {
        Some(hit) => Some(hit),
        None => caption_hit_test(x, y, width, scale),
    }
}

/// The number of a button, zero for anything else.
pub open spec fn button_of(hit: Option<Hit>) -> i32 {
    match hit {
        Some(Hit::Minimize) => 1,
        Some(Hit::Maximize) => 2,
        Some(Hit::Close) => 3,
        _ => 0,
    }
}

pub fn caption_button_id(hit: Option<Hit>) -> (r: i32)
    ensures
        r == button_of(hit),
{
    match hit {
        Some(Hit::Minimize) => 1,
        Some(Hit::Maximize) => 2,
        Some(Hit::Close) => 3,
        _ => 0,
    }
}

/// What a button does.
pub open spec fn command_of(button: i32, maximized: bool) -> Option<CaptionCommand> {
    if button == 1 {
        Some(CaptionCommand::Minimize)
    } else if button == 2 {
        if maximized {
            Some(CaptionCommand::Restore)
        } else {
            Some(CaptionCommand::Maximize)
        }
    } else if button == 3 {
        Some(CaptionCommand::Close)
    } else {
        None
    }
}

pub fn caption_command(button: i32, maximized: bool) -> (r: Option<CaptionCommand>)
    ensures
        r == command_of(button, maximized),
{
    if button == 1 {
        Some(CaptionCommand::Minimize)
    } else if button == 2 {
        if maximized {
            Some(CaptionCommand::Restore)
        } else {
            Some(CaptionCommand::Maximize)
        }
    } else if button == 3 {
        Some(CaptionCommand::Close)
    } else {
        None
    }
}

/// What happens to the title bar. A hit is where on it, none for elsewhere.
#[derive(Debug, Clone, Copy, PartialEq, Eq, Structural)]
pub enum ChromeEvent {
    RightReleased(Option<Hit>),
    DoubleClicked(Option<Hit>),
    KeyMenu,
    Pressed(Option<Hit>),
    /// The button is released inside the window, over this part.
    Released(Option<Hit>),
    /// The button is released on the title bar; the first hit is where the
    /// message says, the second what lies under the pointer.
    ReleasedOnBar(Option<Hit>, Option<Hit>),
    Cancelled,
}

/// What is to be done about it.
#[derive(Debug, Clone, Copy, PartialEq, Eq, Structural)]
pub enum ChromeAction {
    /// It is for the window system.
    Pass,
    ShowMenuAtPointer,
    ShowMenuAtAnchor,
    Capture,
    Release,
    ReleaseAndRun(CaptionCommand),
    Run(CaptionCommand),
}

/// The button that is held after an event, zero for none.
pub open spec fn held_after(held: i32, event: ChromeEvent) -> i32 {
    match event {
        ChromeEvent::Pressed(hit) => if button_of(hit) != 0 {
            button_of(hit)
        } else {
            held
        },
        ChromeEvent::Released(_) | ChromeEvent::ReleasedOnBar(_, _) | ChromeEvent::Cancelled => 0,
        _ => held,
    }
}

/// What follows from releasing the button: the held button acts when it is
/// still under the pointer.
pub open spec fn released(held: i32, under: Option<Hit>, maximized: bool) -> ChromeAction {
    if button_of(under) == held && command_of(held, maximized) is Some {
        ChromeAction::ReleaseAndRun(command_of(held, maximized)->0)
    } else {
        ChromeAction::Release
    }
}

/// What an event asks for.
pub open spec fn action_on(held: i32, event: ChromeEvent, maximized: bool) -> ChromeAction {
    match event {
        ChromeEvent::RightReleased(hit) => if hit == Some(Hit::Caption) || hit == Some(
            Hit::SystemMenu,
        ) {
            ChromeAction::ShowMenuAtPointer
        } else {
            ChromeAction::Pass
        },
        ChromeEvent::DoubleClicked(hit) => if hit == Some(Hit::SystemMenu) {
            ChromeAction::Run(CaptionCommand::Close)
        } else {
            ChromeAction::Pass
        },
        ChromeEvent::KeyMenu => ChromeAction::ShowMenuAtAnchor,
        ChromeEvent::Pressed(hit) => if button_of(hit) != 0 {
            ChromeAction::Capture
        } else {
            ChromeAction::Pass
        },
        ChromeEvent::Released(under) => if held != 0 {
            released(held, under, maximized)
        } else {
            ChromeAction::Pass
        },
        ChromeEvent::ReleasedOnBar(hit, under) => if held != 0 {
            released(held, under, maximized)
        } else if hit == Some(Hit::SystemMenu) {
            ChromeAction::ShowMenuAtAnchor
        } else {
            ChromeAction::Pass
        },
        ChromeEvent::Cancelled => ChromeAction::Pass,
    }
}

/// The title bar: which button is held.
pub struct Chrome {
    pub held: i32,
}

impl Chrome {
    fn release(&mut self, under: Option<Hit>, maximized: bool) -> (r: ChromeAction)
        ensures
            final(self).held == 0,
            r == released(old(self).held, under, maximized),
    {
        let held: i32 = self.held;
        self.held = 0;
        if caption_button_id(under) == held {
            match caption_command(held, maximized) {
                Some(command) => return ChromeAction::ReleaseAndRun(command),
                None => {},
            }
        }
        ChromeAction::Release
    }

    pub fn on_event(&mut self, event: ChromeEvent, maximized: bool) -> (r: ChromeAction)
        ensures
            final(self).held == held_after(old(self).held, event),
            r == action_on(old(self).held, event, maximized),
    {
        match event {
            ChromeEvent::RightReleased(hit) => match hit {
                Some(Hit::Caption) | Some(Hit::SystemMenu) => ChromeAction::ShowMenuAtPointer,
                _ => ChromeAction::Pass,
            },
            ChromeEvent::DoubleClicked(hit) => match hit {
                Some(Hit::SystemMenu) => ChromeAction::Run(CaptionCommand::Close),
                _ => ChromeAction::Pass,
            },
            ChromeEvent::KeyMenu => ChromeAction::ShowMenuAtAnchor,
            ChromeEvent::Pressed(hit) => {
                let button: i32 = caption_button_id(hit);
                if button != 0 {
                    self.held = button;
                    ChromeAction::Capture
                } else {
                    ChromeAction::Pass
                }
            },
            ChromeEvent::Released(under) => {
                if self.held != 0 {
                    self.release(under, maximized)
                } else {
                    ChromeAction::Pass
                }
            },
            ChromeEvent::ReleasedOnBar(hit, under) => {
                if self.held != 0 {
                    return self.release(under, maximized);
                }
                match hit {
                    Some(Hit::SystemMenu) => ChromeAction::ShowMenuAtAnchor,
                    _ => ChromeAction::Pass,
                }
            },
            ChromeEvent::Cancelled => {
                self.held = 0;
                ChromeAction::Pass
            },
        }
    }
}

/// The entries of the window's menu.
#[derive(Debug, Clone, Copy, PartialEq, Eq, Structural)]
pub enum MenuEntry {
    Restore,
    Move,
    Size,
    Minimize,
    Maximize,
    Close,
}

/// Whether an entry can be chosen: a maximized window can be restored, another
/// one moved, sized and maximized.
pub fn menu_entry_enabled(entry: MenuEntry, maximized: bool) -> (r: bool)
    ensures
        r == match entry {
            MenuEntry::Restore => maximized,
            MenuEntry::Move | MenuEntry::Size | MenuEntry::Maximize => !maximized,
            MenuEntry::Minimize | MenuEntry::Close => true,
        },
{
    match entry {
        MenuEntry::Restore => maximized,
        MenuEntry::Move | MenuEntry::Size | MenuEntry::Maximize => !maximized,
        MenuEntry::Minimize | MenuEntry::Close => true,
    }
}

/// Where the window's menu opens: below the title bar at the left.
pub fn system_menu_anchor(left: i32, top: i32, scale: u32) -> (r: (i64, i64))
    ensures
        r.0 == left,
        r.1 == top + scaled(36, scale as int),
{
    (left as i64, top as i64 + scaled_pixels(36, scale))
}

/// A button acts only when the pointer is released over the button that was
/// pressed.
pub proof fn lemma_buttons_act_on_release(held: i32, event: ChromeEvent, maximized: bool)
    ensures
        action_on(held, event, maximized) matches ChromeAction::ReleaseAndRun(command) ==> held != 0
            && command_of(held, maximized) == Some(command) && match event {
            ChromeEvent::Released(under) => under == Some(hit_of_button(held)),
            ChromeEvent::ReleasedOnBar(_, under) => under == Some(hit_of_button(held)),
            _ => false,
        },
{
}

pub open spec fn hit_of_button(button: i32) -> Hit {
    if button == 1 {
        Hit::Minimize
    } else if button == 2 {
        Hit::Maximize
    } else {
        Hit::Close
    }
}

} // verus!
