//! The camera controller: what input does to the pan and zoom state, and what each
//! frame asks of the camera.
//!
//! The controller owns no camera. Once per frame it is told the camera's zoom level
//! and the level a zoom step would lead to, and answers with a [`CameraUpdate`]: the
//! moves that the owner of the camera then carries out in its own arithmetic.
use vstd::prelude::*;
use crate::scalar::{lemma_magnitude_sign, Scalar, MINUS_ONE_BITS, ONE_BITS};
use crate::zoom::{checked_power, lemma_power_fits, TOP_LEVEL};

verus! {

/// The keys that the controller tells apart.
#[derive(Clone, Copy, Debug, PartialEq, Eq, Structural)]
pub enum KeyCode {
    KeyW,
    KeyA,
    KeyS,
    KeyD,
    ArrowUp,
    ArrowDown,
    ArrowLeft,
    ArrowRight,
    /// Any other key.
    Other,
}

/// The mouse buttons that the controller tells apart.
#[derive(Clone, Copy, Debug, PartialEq, Eq, Structural)]
pub enum MouseButton {
    Left,
    /// Any other button.
    Other,
}

/// A position on the window, in pixels from its top left corner.
#[derive(Clone, Copy, Debug, PartialEq, Eq, Structural)]
pub struct Position {
    pub x: Scalar,
    pub y: Scalar,
}

/// How far the wheel was turned, in the unit that the device reports.
#[derive(Clone, Copy, Debug, PartialEq, Eq, Structural)]
pub enum ScrollDelta {
    /// Lines or rows. Positive `y` scrolls away from the user.
    Lines { x: Scalar, y: Scalar },
    /// Pixels. Positive `y` scrolls away from the user.
    Pixels { x: Scalar, y: Scalar },
}

/// An input event, cut down to what the controller reads of it.
#[derive(Clone, Copy, Debug, PartialEq, Eq, Structural)]
pub enum InputEvent {
    /// A key went down (`pressed`) or up.
    Keyboard { key: KeyCode, pressed: bool },
    /// The wheel was turned.
    MouseWheel { delta: ScrollDelta },
    /// The cursor moved to `position`.
    CursorMoved { position: Position },
    /// A mouse button went down (`pressed`) or up.
    MouseInput { button: MouseButton, pressed: bool },
    /// Anything else.
    Other,
}

/// The four ways to pan with the keyboard.
#[derive(Clone, Copy, Debug, PartialEq, Eq, Structural)]
pub enum Direction {
    Up,
    Down,
    Left,
    Right,
}

/// The direction that a key pans in, if it is bound to one: W, A, S and D, and the
/// four arrows.
pub open spec fn direction_of(key: KeyCode) -> Option<Direction> {
    match key {
        KeyCode::KeyW | KeyCode::ArrowUp => Some(Direction::Up),
        KeyCode::KeyS | KeyCode::ArrowDown => Some(Direction::Down),
        KeyCode::KeyA | KeyCode::ArrowLeft => Some(Direction::Left),
        KeyCode::KeyD | KeyCode::ArrowRight => Some(Direction::Right),
        KeyCode::Other => None,
    }
}

/// The vertical part of a wheel turn, whatever its unit.
pub open spec fn vertical_scroll(delta: ScrollDelta) -> Scalar {
    match delta {
        ScrollDelta::Lines { x, y } => y,
        ScrollDelta::Pixels { x, y } => y,
    }
}

/// The pattern of the factor that a drag pans by: minus one, the whole way of the
/// move and against it, so that the plane follows the cursor.
pub const DRAG_MODIFIER_BITS: u32 = MINUS_ONE_BITS;

/// A step of a drag: the camera is to be panned by the way from `anchor` to
/// `cursor`, scaled by `pan_modifier`.
#[derive(Clone, Copy, Debug, PartialEq, Eq, Structural)]
pub struct Drag {
    pub cursor: Position,
    pub anchor: Position,
    /// Minus one: see [`DRAG_MODIFIER_BITS`].
    pub pan_modifier: Scalar,
}

/// A step of the zoom: the camera is moved along its line of sight by the wheel
/// turn `scroll`, and then panned from where the origin now shows towards the
/// cursor, scaled by `pan_modifier`, so that the zoom turns about the cursor.
#[derive(Clone, Copy, Debug, PartialEq, Eq, Structural)]
pub struct Zoom {
    pub scroll: Scalar,
    /// A quarter of `scroll`.
    pub pan_modifier: Scalar,
}

/// What one frame asks of the camera, in the order in which it is to be done:
/// the zoom, then the drag, then the keyboard pans up, down, left and right.
#[derive(Clone, Copy, Debug, PartialEq, Eq, Structural)]
pub struct CameraUpdate {
    /// The zoom step to take.
    pub zoom: Option<Zoom>,
    /// The drag step to pan by.
    pub drag: Option<Drag>,
    pub pan_up: bool,
    pub pan_down: bool,
    pub pan_left: bool,
    pub pan_right: bool,
}

/// Input state gathered between frames.
///
/// The two mouse flags are kept as the events set them and are not held to
/// exclude each other.
#[derive(Clone, Copy, Debug, PartialEq, Eq, Structural)]
pub struct CameraController {
    /// Pan and zoom speed.
    pub speed: Scalar,
    /// Where the cursor was last seen.
    pub cursor_location: Position,
    /// Where the cursor was when the running drag last moved the camera.
    pub mouse_clicked_at: Option<Position>,
    pub is_up_pressed: bool,
    pub is_down_pressed: bool,
    pub is_left_pressed: bool,
    pub is_right_pressed: bool,
    pub is_mouse_pressed: bool,
    pub is_mouse_released: bool,
    /// The wheel turn not yet spent on a zoom; zero once a frame has used it.
    pub scroll: Scalar,
}

impl CameraController {
    /// The state that a fresh controller starts in.
    pub open spec fn initial(speed: Scalar) -> CameraController {
        CameraController {
            speed,
            cursor_location: Position { x: Scalar::zero(), y: Scalar::zero() },
            mouse_clicked_at: None,
            is_up_pressed: false,
            is_down_pressed: false,
            is_left_pressed: false,
            is_right_pressed: false,
            is_mouse_pressed: false,
            is_mouse_released: true,
            scroll: Scalar::zero(),
        }
    }

    /// Whether the controller takes an event for itself. Events it does not take
    /// are left for other parts of the program.
    pub open spec fn consumes(event: InputEvent) -> bool {
        match event {
            InputEvent::Keyboard { key, pressed } => direction_of(key) is Some,
            InputEvent::MouseWheel { delta } => true,
            InputEvent::CursorMoved { position } => true,
            InputEvent::MouseInput { button, pressed } => true,
            InputEvent::Other => false,
        }
    }

    /// The state after an event.
    pub open spec fn after_event(self, event: InputEvent) -> CameraController {
        match event {
            InputEvent::Keyboard { key, pressed } => match direction_of(key) {
                Some(Direction::Up) => CameraController { is_up_pressed: pressed, ..self },
                Some(Direction::Down) => CameraController { is_down_pressed: pressed, ..self },
                Some(Direction::Left) => CameraController { is_left_pressed: pressed, ..self },
                Some(Direction::Right) => CameraController { is_right_pressed: pressed, ..self },
                None => self,
            },
            InputEvent::MouseWheel { delta } => CameraController {
                scroll: vertical_scroll(delta),
                ..self
            },
            InputEvent::CursorMoved { position } => CameraController {
                cursor_location: position,
                ..self
            },
            InputEvent::MouseInput { button, pressed } => match button {
                MouseButton::Left => CameraController {
                    is_mouse_pressed: pressed,
                    is_mouse_released: !pressed,
                    ..self
                },
                MouseButton::Other => self,
            },
            InputEvent::Other => self,
        }
    }

    /// Whether the pending scroll zooms the camera this frame. `eye_z` is the
    /// camera's height now and `next_eye_z` the height that the zoom would lead to.
    ///
    /// Scrolling in (a positive turn) zooms while the camera is at height one or
    /// above. Scrolling out (a negative turn) zooms while the whole part of the
    /// height it leads to still has a power of two at or above it in a `u32`. No
    /// turn, or a turn that is not a number, zooms nothing.
    pub open spec fn zoom_applies(self, eye_z: Scalar, next_eye_z: Scalar) -> bool {
        ||| self.scroll.gt_spec(Scalar::zero()) && eye_z.ge_spec(Scalar::one())
        ||| self.scroll.lt_spec(Scalar::zero()) && checked_power(next_eye_z.to_u32_spec()) is Some
    }

    /// What a frame asks of the camera in this state.
    ///
    /// A drag step is due while the left button is down and an anchor from an
    /// earlier frame is there to measure from. The keyboard pans are those of the
    /// directions held down.
    pub open spec fn update_plan(self, eye_z: Scalar, next_eye_z: Scalar) -> CameraUpdate {
        CameraUpdate {
            zoom: if self.zoom_applies(eye_z, next_eye_z) {
                Some(Zoom { scroll: self.scroll, pan_modifier: self.scroll.quarter_spec() })
            } else {
                None
            },
            drag: match self.mouse_clicked_at {
                Some(anchor) if self.is_mouse_pressed => Some(
                    Drag {
                        cursor: self.cursor_location,
                        anchor,
                        pan_modifier: Scalar { bits: DRAG_MODIFIER_BITS },
                    },
                ),
                _ => None,
            },
            pan_up: self.is_up_pressed,
            pan_down: self.is_down_pressed,
            pan_left: self.is_left_pressed,
            pan_right: self.is_right_pressed,
        }
    }

    /// The state after a frame. The scroll is spent, whether it zoomed or not. The
    /// anchor is gone once the button is up; while it is down the anchor follows
    /// the cursor, so that each frame pans by that frame's move alone.
    pub open spec fn after_update(self) -> CameraController {
        CameraController {
            scroll: Scalar::zero(),
            mouse_clicked_at: if self.is_mouse_released {
                None
            } else if self.is_mouse_pressed {
                Some(self.cursor_location)
            } else {
                self.mouse_clicked_at
            },
            ..self
        }
    }

    /// A controller with nothing pressed, the cursor at the origin and no scroll
    /// pending.
    pub fn new(speed: Scalar) -> (controller: CameraController)
        ensures
            controller == Self::initial(speed),
    {
        CameraController {
            speed,
            cursor_location: Position { x: Scalar::from_bits(0), y: Scalar::from_bits(0) },
            mouse_clicked_at: None,
            is_up_pressed: false,
            is_down_pressed: false,
            is_left_pressed: false,
            is_right_pressed: false,
            is_mouse_pressed: false,
            is_mouse_released: true,
            scroll: Scalar::from_bits(0),
        }
    }

    /// Takes an event in and says whether it was consumed.
    ///
    /// A bound key sets or clears its direction. A wheel turn replaces the pending
    /// scroll, used or not. A cursor move replaces the cursor position. The left
    /// button sets the two mouse flags; other buttons are consumed and change
    /// nothing.
    pub fn process_events(&mut self, event: &InputEvent) -> (consumed: bool)
        ensures
            *final(self) == old(self).after_event(*event),
            consumed == Self::consumes(*event),
    {
        match event {
            InputEvent::Keyboard { key, pressed } => {
                match key {
                    KeyCode::KeyW | KeyCode::ArrowUp => {
                        self.is_up_pressed = *pressed;
                        true
                    },
                    KeyCode::KeyS | KeyCode::ArrowDown => {
                        self.is_down_pressed = *pressed;
                        true
                    },
                    KeyCode::KeyA | KeyCode::ArrowLeft => {
                        self.is_left_pressed = *pressed;
                        true
                    },
                    KeyCode::KeyD | KeyCode::ArrowRight => {
                        self.is_right_pressed = *pressed;
                        true
                    },
                    KeyCode::Other => false,
                }
            },
            InputEvent::MouseWheel { delta } => {
                match delta {
                    ScrollDelta::Lines { x: _, y } => {
                        self.scroll = *y;
                        true
                    },
                    ScrollDelta::Pixels { x: _, y } => {
                        self.scroll = *y;
                        true
                    },
                }
            },
            InputEvent::CursorMoved { position } => {
                self.cursor_location.x = position.x;
                self.cursor_location.y = position.y;
                true
            },
            InputEvent::MouseInput { button, pressed } => {
                match button {
                    MouseButton::Left => {
                        self.is_mouse_pressed = *pressed;
                        self.is_mouse_released = !*pressed;
                    },
                    MouseButton::Other => {},
                }
                true
            },
            InputEvent::Other => false,
        }
    }

    /// Works out one frame: says what the camera is to do and spends the input
    /// that led to it. `eye_z` is the camera's height now, and `next_eye_z` the
    /// height it would have after zooming by the pending scroll.
    pub fn update_camera(&mut self, eye_z: Scalar, next_eye_z: Scalar) -> (plan: CameraUpdate)
        ensures
            plan == old(self).update_plan(eye_z, next_eye_z),
            *final(self) == old(self).after_update(),
            final(self).scroll == Scalar::zero(),
    {
        let zero = Scalar::from_bits(0);
        let one = Scalar::from_bits(ONE_BITS);
        let not_at_scroll_min = self.scroll.gt(zero) && eye_z.ge(one);
        let not_at_scroll_max = self.scroll.lt(zero)
            && next_eye_z.to_u32().checked_next_power_of_two().is_some();
        let zoom = if not_at_scroll_min || not_at_scroll_max {
            Some(Zoom { scroll: self.scroll, pan_modifier: self.scroll.quarter() })
        } else {
            None
        };
        self.scroll = zero;

        let mut drag: Option<Drag> = None;
        if self.is_mouse_pressed {
            match self.mouse_clicked_at {
                None => {},
                Some(anchor) => {
                    drag = Some(
                        Drag {
                            cursor: self.cursor_location,
                            anchor,
                            pan_modifier: Scalar::from_bits(DRAG_MODIFIER_BITS),
                        },
                    );
                },
            }
            self.mouse_clicked_at = Some(self.cursor_location);
        }
        if self.is_mouse_released {
            self.mouse_clicked_at = None;
        }

        CameraUpdate {
            zoom,
            drag,
            pan_up: self.is_up_pressed,
            pan_down: self.is_down_pressed,
            pan_left: self.is_left_pressed,
            pan_right: self.is_right_pressed,
        }
    }
}

/// The pattern of the number three: the widest window, by width over height, that
/// the camera follows.
pub const MAX_ASPECT_BITS: u32 = 0x4040_0000;

/// Whether the camera takes on the aspect ratio of a resized window: it does up
/// to three to one, and keeps the ratio it has for a wider window, and for one
/// whose ratio is no number.
pub fn follows_aspect(aspect: Scalar) -> (follows: bool)
    ensures
        follows == aspect.le_spec(Scalar { bits: MAX_ASPECT_BITS }),
{
    aspect.le(Scalar::from_bits(MAX_ASPECT_BITS))
}

/// Whether a pan by `modifier` snaps: whether a quarter of the size of `modifier`
/// is at least `spread`, the measure of how far the cursor is from the point to
/// pan to.
pub open spec fn snaps(modifier: Scalar, spread: Scalar) -> bool {
    modifier.abs_spec().quarter_spec().ge_spec(spread)
}

/// The factor that a pan is scaled by, after the snap: one with the sign of
/// `modifier` where the pan snaps, so that a pan by a fraction of the way, which
/// would never arrive, arrives at once; `modifier` itself where it does not.
pub fn snap_modifier(modifier: Scalar, spread: Scalar) -> (factor: Scalar)
    ensures
        factor == if snaps(modifier, spread) {
            modifier.signum_spec()
        } else {
            modifier
        },
{
    if modifier.abs().quarter().ge(spread) {
        modifier.signum()
    } else {
        modifier
    }
}

/// Scrolling in is held back exactly when the camera is below height one.
pub proof fn lemma_zoom_in_blocked_below_one(
    controller: CameraController,
    eye_z: Scalar,
    next_eye_z: Scalar,
)
    requires
        controller.scroll.gt_spec(Scalar::zero()),
        !eye_z.is_nan_spec(),
    ensures
        !controller.zoom_applies(eye_z, next_eye_z) <==> eye_z.lt_spec(Scalar::one()),
{
}

/// Scrolling out is held back exactly when the height it leads to is a number
/// above zero whose whole part is past two to the 31st, the last level with a
/// power of two in a `u32`. A height below zero is cut to level zero and holds
/// nothing back.
pub proof fn lemma_zoom_out_blocked_past_top_level(
    controller: CameraController,
    eye_z: Scalar,
    next_eye_z: Scalar,
)
    requires
        controller.scroll.lt_spec(Scalar::zero()),
    ensures
        !controller.zoom_applies(eye_z, next_eye_z) <==> next_eye_z.to_u32_spec() > TOP_LEVEL,
        next_eye_z.to_u32_spec() > TOP_LEVEL <==> !next_eye_z.is_nan_spec() && !next_eye_z.sign()
            && next_eye_z.whole_part() > TOP_LEVEL,
{
    lemma_power_fits(next_eye_z.to_u32_spec());
    lemma_magnitude_sign(next_eye_z);
}

} // verus!
