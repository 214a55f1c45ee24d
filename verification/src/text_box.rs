//! One text object of the canvas and its geometry.
//!
//! A text box is a line of text centred at a position on the canvas, turned
//! about that position and stretched along its own axes. Everything that asks
//! where a canvas point lies relative to the box first moves the point into
//! the box's local frame: the frame in which the position is the origin and
//! the text runs along the x axis.

use vstd::prelude::*;
use vstd::string::StringSliceAdditionalSpecFns;
use crate::fixed::{
    UNIT, COORD_MAX, SCALE_MAX, in_range, trunc_div, magnitude, clamp, lemma_trunc_div_bounds,
    lemma_trunc_div_exact,
    div_toward_zero, clamp_to, is_in_range,
};
use crate::rotation::{Rotation, Direction, lemma_unrotate_zero, lemma_toward_wf};

verus! {

/// Side of the square handles drawn on a selected box: eight pixels.
pub const HANDLE_SIZE: i64 = 8_000_000;

/// How far from a handle's centre a point still takes hold of it, along
/// either axis: half the handle's side.
pub const HANDLE_TOLERANCE: i64 = 4_000_000;

/// Distance of the rotation handle above the top edge: twenty pixels.
pub const ROTATE_HANDLE_OFFSET: i64 = 20_000_000;

/// Width taken for one byte of text at a font size of one pixel, in
/// millionths of a pixel: six tenths of the font size.
pub const GLYPH_ASPECT: i64 = 600_000;

/// The hotspots of a selected box.
#[derive(Clone, Copy, Debug, PartialEq, Eq, Structural)]
pub enum HandleType {
    ResizeTopLeft,
    ResizeTopRight,
    ResizeBottomRight,
    ResizeBottomLeft,
    Rotate,
}

/// How the text of a box is set.
#[derive(Clone, Debug, PartialEq, Eq)]
pub struct TextBoxStyle {
    /// Font size in whole pixels.
    pub size: u32,
    /// Font family.
    pub family: String,
    /// Font weight or effect.
    pub effect: String,
}

/// The mathematical value of a [`TextBoxStyle`].
pub struct TextBoxStyleView {
    pub size: int,
    pub family: Seq<char>,
    pub effect: Seq<char>,
}

impl View for TextBoxStyle {
    type V = TextBoxStyleView;

    open spec fn view(&self) -> TextBoxStyleView {
        TextBoxStyleView { size: self.size as int, family: self.family@, effect: self.effect@ }
    }
}

/// The edges of a box in its local frame.
#[derive(Clone, Copy, Debug, PartialEq, Eq, Structural)]
pub struct TextBounds {
    pub left: i64,
    pub top: i64,
    pub right: i64,
    pub bottom: i64,
}

/// The mathematical value of a [`TextBounds`].
pub struct TextBoundsView {
    pub left: int,
    pub top: int,
    pub right: int,
    pub bottom: int,
}

impl View for TextBounds {
    type V = TextBoundsView;

    open spec fn view(&self) -> TextBoundsView {
        TextBoundsView {
            left: self.left as int,
            top: self.top as int,
            right: self.right as int,
            bottom: self.bottom as int,
        }
    }
}

/// One positioned, styled, transformable line of text.
#[derive(Clone, Debug, PartialEq, Eq)]
pub struct TextBox {
    /// The text shown.
    pub text: String,
    /// Canvas x coordinate of the centre.
    pub x: i64,
    /// Canvas y coordinate of the centre.
    pub y: i64,
    /// Rotation about the centre.
    pub rotation: Rotation,
    /// Stretch along the local x axis.
    pub scale_x: i64,
    /// Stretch along the local y axis.
    pub scale_y: i64,
    /// Font of the text.
    pub style: TextBoxStyle,
    /// Whether the box is the selected one of its canvas.
    pub is_selected: bool,
}

/// The mathematical value of a [`TextBox`].
pub struct TextBoxView {
    pub text: Seq<char>,
    pub x: int,
    pub y: int,
    pub rotation: Direction,
    pub scale_x: int,
    pub scale_y: int,
    pub style: TextBoxStyleView,
    pub is_selected: bool,
}

impl View for TextBox {
    type V = TextBoxView;

    open spec fn view(&self) -> TextBoxView {
        TextBoxView {
            text: self.text@,
            x: self.x as int,
            y: self.y as int,
            rotation: self.rotation@,
            scale_x: self.scale_x as int,
            scale_y: self.scale_y as int,
            style: self.style@,
            is_selected: self.is_selected,
        }
    }
}

impl TextBoxView {
    /// The box lies within the range of the canvas, its rotation is well
    /// formed and its scale factors are within their range.
    pub open spec fn wf(self) -> bool {
        &&& in_range(self.x)
        &&& in_range(self.y)
        &&& self.rotation.wf()
        &&& -SCALE_MAX <= self.scale_x <= SCALE_MAX
        &&& -SCALE_MAX <= self.scale_y <= SCALE_MAX
        &&& 0 <= self.style.size <= u32::MAX
    }

    /// A new box: not turned, not stretched, not selected.
    pub open spec fn new(
        text: Seq<char>,
        x: int,
        y: int,
        font_size: int,
        font_family: Seq<char>,
        font_effect: Seq<char>,
    ) -> TextBoxView {
        TextBoxView {
            text,
            x,
            y,
            rotation: Direction::identity(),
            scale_x: UNIT as int,
            scale_y: UNIT as int,
            style: TextBoxStyleView { size: font_size, family: font_family, effect: font_effect },
            is_selected: false,
        }
    }

    /// Number of bytes of the text.
    pub open spec fn text_len(self) -> int {
        vstd::utf8::encode_utf8(self.text).len() as int
    }

    /// Width of the text before stretching: six tenths of the font size for
    /// each byte, and no more than the canvas can hold.
    pub open spec fn unscaled_width(self) -> int {
        let w = self.text_len() * self.style.size * GLYPH_ASPECT;
        if w > COORD_MAX {
            COORD_MAX as int
        } else {
            w
        }
    }

    /// Height of the text before stretching: the font size.
    pub open spec fn unscaled_height(self) -> int {
        self.style.size * UNIT
    }

    /// Width of the box, stretched by `scale_x` if `use_scaling`.
    pub open spec fn width(self, use_scaling: bool) -> int {
        if use_scaling {
            trunc_div(self.unscaled_width() * self.scale_x, UNIT as int)
        } else {
            self.unscaled_width()
        }
    }

    /// Height of the box, stretched by `scale_y` if `use_scaling`.
    pub open spec fn height(self, use_scaling: bool) -> int {
        if use_scaling {
            trunc_div(self.unscaled_height() * self.scale_y, UNIT as int)
        } else {
            self.unscaled_height()
        }
    }

    /// The edges of the box in its local frame: centred at the origin.
    pub open spec fn bounds(self, use_scaling: bool) -> TextBoundsView {
        let half_w = trunc_div(self.width(use_scaling), 2);
        let half_h = trunc_div(self.height(use_scaling), 2);
        TextBoundsView { left: -half_w, top: -half_h, right: half_w, bottom: half_h }
    }

    /// The edges that the box would have on the canvas if it were not
    /// turned: the local edges about the position, as left, top, right and
    /// bottom.
    pub open spec fn unturned_bounds(self, use_scaling: bool) -> (int, int, int, int) {
        let b = self.bounds(use_scaling);
        (self.x + b.left, self.y + b.top, self.x + b.right, self.y + b.bottom)
    }

    /// The canvas point `(x, y)` in the local frame: moved by the negated
    /// position, then turned by the inverse rotation.
    pub open spec fn to_local(self, x: int, y: int) -> (int, int) {
        self.rotation.unrotate(x - self.x, y - self.y)
    }

    /// Whether the canvas point `(x, y)` lies on the stretched box.
    pub open spec fn contains_point(self, x: int, y: int) -> bool {
        let (lx, ly) = self.to_local(x, y);
        let b = self.bounds(true);
        b.left <= lx <= b.right && b.top <= ly <= b.bottom
    }

    /// Centre of a handle in the local frame: the corners of the stretched
    /// box, and for the rotation handle the point above the middle of the
    /// top edge.
    pub open spec fn handle_position(self, handle: HandleType) -> (int, int) {
        let b = self.bounds(true);
        match handle {
            HandleType::ResizeTopLeft => (b.left, b.top),
            HandleType::ResizeTopRight => (b.right, b.top),
            HandleType::ResizeBottomRight => (b.right, b.bottom),
            HandleType::ResizeBottomLeft => (b.left, b.bottom),
            HandleType::Rotate => (0, b.top - ROTATE_HANDLE_OFFSET),
        }
    }

    /// Whether the canvas point `(x, y)` is within the tolerance of `handle`
    /// along both local axes.
    pub open spec fn takes_hold(self, handle: HandleType, x: int, y: int) -> bool {
        let (lx, ly) = self.to_local(x, y);
        let (hx, hy) = self.handle_position(handle);
        magnitude(lx - hx) <= HANDLE_TOLERANCE && magnitude(ly - hy) <= HANDLE_TOLERANCE
    }

    /// The handle that the canvas point `(x, y)` takes hold of: none on a box
    /// that is not selected; else the first in the order rotation, top left,
    /// top right, bottom right, bottom left.
    pub open spec fn handle_at(self, x: int, y: int) -> Option<HandleType> {
        if !self.is_selected {
            None
        } else if self.takes_hold(HandleType::Rotate, x, y) {
            Some(HandleType::Rotate)
        } else if self.takes_hold(HandleType::ResizeTopLeft, x, y) {
            Some(HandleType::ResizeTopLeft)
        } else if self.takes_hold(HandleType::ResizeTopRight, x, y) {
            Some(HandleType::ResizeTopRight)
        } else if self.takes_hold(HandleType::ResizeBottomRight, x, y) {
            Some(HandleType::ResizeBottomRight)
        } else if self.takes_hold(HandleType::ResizeBottomLeft, x, y) {
            Some(HandleType::ResizeBottomLeft)
        } else {
            None
        }
    }

    /// The box with its centre moved to `(x, y)`, held on a canvas of
    /// `width` by `height` pixels: x between the left and right edges; y no
    /// higher than the font size below the top edge, and in any case not
    /// below the bottom edge.
    pub open spec fn dragged_to(self, x: int, y: int, width: int, height: int) -> TextBoxView {
        TextBoxView {
            x: clamp(x, 0, width * UNIT),
            y: raise_then_cap(y, self.style.size * UNIT, height * UNIT),
            ..self
        }
    }

    /// The rotation that a turning gesture remembers when the pointer is
    /// pressed at `(x, y)`: the direction from the centre to the pointer,
    /// less the rotation the box has.
    pub open spec fn grip_angle(self, x: int, y: int) -> Direction {
        Direction::toward(x - self.x, y - self.y).compose(self.rotation.inverse())
    }

    /// The box turned so that the pointer at `(x, y)` keeps the angle to the
    /// box that `start_angle` remembers: the direction from the centre to
    /// the pointer, less `start_angle`.
    pub open spec fn turned_toward(self, x: int, y: int, start_angle: Direction) -> TextBoxView {
        TextBoxView {
            rotation: Direction::toward(x - self.x, y - self.y).compose(start_angle.inverse()),
            ..self
        }
    }

    /// The box stretched by a corner handle that the pointer has moved by
    /// `(dx, dy)`. The bottom right corner adds the growth of either axis
    /// to its scale factor, the top left corner takes it away, and the
    /// other two corners leave the box as it is. A scale factor stays
    /// within its range.
    pub open spec fn resized(self, handle: HandleType, dx: int, dy: int) -> TextBoxView {
        let gx = growth(dx, self.unscaled_width());
        let gy = growth(dy, self.unscaled_height());
        match handle {
            HandleType::ResizeBottomRight => TextBoxView {
                scale_x: clamp(self.scale_x + gx, -SCALE_MAX as int, SCALE_MAX as int),
                scale_y: clamp(self.scale_y + gy, -SCALE_MAX as int, SCALE_MAX as int),
                ..self
            },
            HandleType::ResizeTopLeft => TextBoxView {
                scale_x: clamp(self.scale_x - gx, -SCALE_MAX as int, SCALE_MAX as int),
                scale_y: clamp(self.scale_y - gy, -SCALE_MAX as int, SCALE_MAX as int),
                ..self
            },
            _ => self,
        }
    }
}

/// `v` raised to at least `floor`, then lowered to at most `cap`.
pub open spec fn raise_then_cap(v: int, floor: int, cap: int) -> int {
    let raised = if v < floor {
        floor
    } else {
        v
    };
    if raised > cap {
        cap
    } else {
        raised
    }
}

/// By how much a scale factor changes when a corner of a box of the given
/// unstretched extent moves by `delta`: the box is stretched about its
/// centre, so the extent changes by twice the movement. A box without
/// extent cannot be stretched.
pub open spec fn growth(delta: int, extent: int) -> int {
    if extent > 0 {
        trunc_div(2 * delta * UNIT, extent)
    } else {
        0
    }
}

/// A box's own position is the origin of its local frame, whatever its
/// rotation.
pub proof fn lemma_position_is_local_origin(tb: TextBoxView)
    ensures
        tb.to_local(tb.x, tb.y) == (0int, 0int),
{
    lemma_unrotate_zero(tb.rotation);
}

/// Where a point takes hold of the rotation handle of a selected box, it is
/// the rotation handle that is found, whichever corner handles the point
/// takes hold of as well.
pub proof fn lemma_rotate_handle_first(tb: TextBoxView, x: int, y: int)
    requires
        tb.is_selected,
        tb.takes_hold(HandleType::Rotate, x, y),
    ensures
        tb.handle_at(x, y) == Some(HandleType::Rotate),
{
}

/// A handle is found only on a selected box, and only one that the point
/// takes hold of.
pub proof fn lemma_handle_found_is_held(tb: TextBoxView, x: int, y: int)
    ensures
        tb.handle_at(x, y) matches Some(h) ==> tb.is_selected && tb.takes_hold(h, x, y),
        tb.handle_at(x, y) is None && tb.is_selected ==> forall|h: HandleType|
            !tb.takes_hold(h, x, y),
{
    if tb.handle_at(x, y) is None && tb.is_selected {
        assert forall|h: HandleType| !tb.takes_hold(h, x, y) by {
            match h {
                HandleType::ResizeTopLeft => {},
                HandleType::ResizeTopRight => {},
                HandleType::ResizeBottomRight => {},
                HandleType::ResizeBottomLeft => {},
                HandleType::Rotate => {},
            }
        }
    }
}

/// A dragged box stays on the canvas: its centre lies between the left and
/// the right edge and not below the bottom edge, and not higher than its
/// font size below the top edge where the canvas is that high.
pub proof fn lemma_drag_stays_on_canvas(tb: TextBoxView, x: int, y: int, width: int, height: int)
    requires
        0 <= width,
        0 <= height,
        0 <= tb.style.size,
    ensures
        0 <= tb.dragged_to(x, y, width, height).x <= width * UNIT,
        0 <= tb.dragged_to(x, y, width, height).y <= height * UNIT,
        tb.style.size <= height ==> tb.dragged_to(x, y, width, height).y >= tb.style.size * UNIT,
        0 <= x <= width * UNIT ==> tb.dragged_to(x, y, width, height).x == x,
        tb.style.size * UNIT <= y <= height * UNIT ==> tb.dragged_to(x, y, width, height).y == y,
{
}

/// The rotation that a turning gesture remembers is well formed.
pub proof fn lemma_grip_angle_wf(tb: TextBoxView, x: int, y: int)
    ensures
        tb.grip_angle(x, y).wf(),
{
    let to_pointer = Direction::toward(x - tb.x, y - tb.y);
    let back = tb.rotation.inverse();
    lemma_toward_wf(
        to_pointer.cos * back.cos - to_pointer.sin * back.sin,
        to_pointer.sin * back.cos + to_pointer.cos * back.sin,
    );
}

/// Turning a well-formed box leaves it well formed.
pub proof fn lemma_turned_toward_wf(tb: TextBoxView, x: int, y: int, start_angle: Direction)
    requires
        tb.wf(),
    ensures
        tb.turned_toward(x, y, start_angle).wf(),
{
    let to_pointer = Direction::toward(x - tb.x, y - tb.y);
    let back = start_angle.inverse();
    lemma_toward_wf(
        to_pointer.cos * back.cos - to_pointer.sin * back.sin,
        to_pointer.sin * back.cos + to_pointer.cos * back.sin,
    );
}

/// The two corners that stretch a box mirror each other: the top left
/// corner moved one way does what the bottom right corner does moved the
/// opposite way.
pub proof fn lemma_resize_corners_mirror(tb: TextBoxView, dx: int, dy: int)
    ensures
        tb.resized(HandleType::ResizeTopLeft, dx, dy) == tb.resized(
            HandleType::ResizeBottomRight,
            -dx,
            -dy,
        ),
{
    lemma_growth_is_odd(dx, tb.unscaled_width());
    lemma_growth_is_odd(dy, tb.unscaled_height());
}

/// Where twice the movement is a whole number of millionths of the extent,
/// the growth is that number: a corner moved by a tenth of the extent
/// changes the scale factor by a fifth.
pub proof fn lemma_growth_exact(delta: int, extent: int, millionths: int)
    requires
        extent > 0,
        2 * delta * UNIT == millionths * extent,
    ensures
        growth(delta, extent) == millionths,
{
    lemma_trunc_div_exact(millionths, extent);
}

/// The opposite movement gives the opposite growth.
pub proof fn lemma_growth_is_odd(delta: int, extent: int)
    ensures
        growth(-delta, extent) == -growth(delta, extent),
{
}

/// A corner moved outward from the centre makes the box no smaller, and
/// moved inward no larger: the bottom right corner grows the scale factors
/// with the movement, the top left corner against it.
pub proof fn lemma_resize_sign(tb: TextBoxView, dx: int, dy: int)
    requires
        tb.wf(),
    ensures
        dx >= 0 ==> tb.resized(HandleType::ResizeBottomRight, dx, dy).scale_x >= tb.scale_x,
        dy >= 0 ==> tb.resized(HandleType::ResizeBottomRight, dx, dy).scale_y >= tb.scale_y,
        dx >= 0 ==> tb.resized(HandleType::ResizeTopLeft, dx, dy).scale_x <= tb.scale_x,
        dy >= 0 ==> tb.resized(HandleType::ResizeTopLeft, dx, dy).scale_y <= tb.scale_y,
        tb.resized(HandleType::ResizeTopRight, dx, dy) == tb,
        tb.resized(HandleType::ResizeBottomLeft, dx, dy) == tb,
        tb.resized(HandleType::Rotate, dx, dy) == tb,
{
    lemma_growth_sign(dx, tb.unscaled_width());
    lemma_growth_sign(dy, tb.unscaled_height());
}

/// The growth has the sign of the movement.
pub proof fn lemma_growth_sign(delta: int, extent: int)
    ensures
        delta >= 0 ==> growth(delta, extent) >= 0,
        delta <= 0 ==> growth(delta, extent) <= 0,
{
    if extent > 0 {
        let doubled = 2 * delta * UNIT;
        if delta >= 0 {
            assert(doubled / extent >= 0) by (nonlinear_arith)
                requires
                    doubled >= 0,
                    extent > 0,
            ;
        }
        if delta <= 0 {
            let n = -doubled;
            assert(n / extent >= 0) by (nonlinear_arith)
                requires
                    n >= 0,
                    extent > 0,
            ;
        }
    }
}

/// The extents of a well-formed box are within what sixty-four bits hold.
pub proof fn lemma_extent_bounds(tb: TextBoxView, use_scaling: bool)
    requires
        tb.wf(),
    ensures
        0 <= tb.unscaled_width() <= COORD_MAX,
        0 <= tb.unscaled_height() <= COORD_MAX,
        -COORD_MAX * 1000 <= tb.width(use_scaling) <= COORD_MAX * 1000,
        -COORD_MAX * 1000 <= tb.height(use_scaling) <= COORD_MAX * 1000,
        -COORD_MAX * 500 <= tb.bounds(use_scaling).left <= COORD_MAX * 500,
        -COORD_MAX * 500 <= tb.bounds(use_scaling).top <= COORD_MAX * 500,
        tb.bounds(use_scaling).right == -tb.bounds(use_scaling).left,
        tb.bounds(use_scaling).bottom == -tb.bounds(use_scaling).top,
{
    let len = tb.text_len();
    let size = tb.style.size;
    assert(len * size * GLYPH_ASPECT >= 0) by (nonlinear_arith)
        requires
            len >= 0,
            size >= 0,
    ;
    let uw = tb.unscaled_width();
    let uh = tb.unscaled_height();
    lemma_scaled_extent(uw, tb.scale_x);
    lemma_scaled_extent(uh, tb.scale_y);
    let w = tb.width(use_scaling);
    let h = tb.height(use_scaling);
    lemma_trunc_div_bounds(w, 2, COORD_MAX * 500);
    lemma_trunc_div_bounds(h, 2, COORD_MAX * 500);
}

/// An extent stretched by a scale factor is at most a thousand times as
/// large.
pub proof fn lemma_scaled_extent(extent: int, scale: int)
    requires
        0 <= extent <= COORD_MAX,
        -SCALE_MAX <= scale <= SCALE_MAX,
    ensures
        -COORD_MAX * 1000 * UNIT <= extent * scale <= COORD_MAX * 1000 * UNIT,
        -COORD_MAX * 1000 <= trunc_div(extent * scale, UNIT as int) <= COORD_MAX * 1000,
{
    assert(-4_294_967_296_000_000 * 1_000_000_000 <= extent * scale <= 4_294_967_296_000_000
        * 1_000_000_000) by (nonlinear_arith)
        requires
            0 <= extent <= 4_294_967_296_000_000,
            -1_000_000_000 <= scale <= 1_000_000_000,
    ;
    lemma_trunc_div_bounds(extent * scale, UNIT as int, COORD_MAX * 1000);
}

impl TextBox {
    /// The box lies within the range of the canvas, its rotation is well
    /// formed and its scale factors are within their range.
    pub open spec fn wf(&self) -> bool {
        self@.wf()
    }

    /// Whether the box is well formed.
    pub fn is_wf(&self) -> (ok: bool)
        ensures
            ok == self.wf(),
    {
        is_in_range(self.x) && is_in_range(self.y) && self.rotation.is_wf() && -SCALE_MAX
            <= self.scale_x && self.scale_x <= SCALE_MAX && -SCALE_MAX <= self.scale_y
            && self.scale_y <= SCALE_MAX
    }

    /// A new box with the given text, centre and font: not turned, not
    /// stretched, not selected.
    pub fn new(
        text: String,
        x: i64,
        y: i64,
        font_size: u32,
        font_family: String,
        font_effect: String,
    ) -> (tb: TextBox)
        requires
            in_range(x as int),
            in_range(y as int),
        ensures
            tb@ == TextBoxView::new(
                text@,
                x as int,
                y as int,
                font_size as int,
                font_family@,
                font_effect@,
            ),
            tb.wf(),
    {
        TextBox {
            text,
            x,
            y,
            style: TextBoxStyle { size: font_size, effect: font_effect, family: font_family },
            rotation: Rotation::identity(),
            scale_x: UNIT,
            scale_y: UNIT,
            is_selected: false,
        }
    }

    /// Width of the text before stretching.
    pub fn unscaled_width(&self) -> (w: i64)
        ensures
            w == self@.unscaled_width(),
            0 <= w <= COORD_MAX,
    {
        let bytes = self.text.as_str().as_bytes();
        proof {
            vstd::slice::axiom_spec_len(bytes);
        }
        let len: u128 = bytes.len() as u128;
        let size: u128 = self.style.size as u128;
        assert(len * size <= 0xffff_ffff_ffff_ffff * 0xffff_ffff) by (nonlinear_arith)
            requires
                len <= 0xffff_ffff_ffff_ffff,
                size <= 0xffff_ffff,
        ;
        let w: u128 = len * size * 600_000;
        if w > COORD_MAX as u128 {
            COORD_MAX
        } else {
            w as i64
        }
    }

    /// Height of the text before stretching.
    pub fn unscaled_height(&self) -> (h: i64)
        ensures
            h == self@.unscaled_height(),
            0 <= h <= COORD_MAX,
    {
        self.style.size as i64 * UNIT
    }

    /// The edges of the box in its local frame, centred at the origin; those
    /// of the stretched box if `use_scaling`.
    pub fn get_bounds(&self, use_scaling: bool) -> (b: TextBounds)
        requires
            self.wf(),
        ensures
            b@ == self@.bounds(use_scaling),
    {
        let uw: i64 = self.unscaled_width();
        let uh: i64 = self.unscaled_height();
        proof {
            lemma_extent_bounds(self@, use_scaling);
            lemma_scaled_extent(uw as int, self.scale_x as int);
            lemma_scaled_extent(uh as int, self.scale_y as int);
        }
        let w: i128 = if use_scaling {
            div_toward_zero(uw as i128 * self.scale_x as i128, UNIT as i128)
        } else {
            uw as i128
        };
        let h: i128 = if use_scaling {
            div_toward_zero(uh as i128 * self.scale_y as i128, UNIT as i128)
        } else {
            uh as i128
        };
        let half_w: i64 = div_toward_zero(w, 2) as i64;
        let half_h: i64 = div_toward_zero(h, 2) as i64;
        TextBounds { left: -half_w, top: -half_h, right: half_w, bottom: half_h }
    }

    /// The edges that the box would have on the canvas if it were not
    /// turned: left, top, right and bottom, about its centre.
    pub fn get_text_bounds(&self, use_scaling: bool) -> (edges: (i64, i64, i64, i64))
        requires
            self.wf(),
        ensures
            (edges.0 as int, edges.1 as int, edges.2 as int, edges.3 as int)
                == self@.unturned_bounds(use_scaling),
    {
        proof {
            lemma_extent_bounds(self@, use_scaling);
        }
        let b = self.get_bounds(use_scaling);
        (self.x + b.left, self.y + b.top, self.x + b.right, self.y + b.bottom)
    }

    /// The canvas point `(x, y)` in the local frame of the box.
    pub fn canvas_to_local_coords(&self, x: i64, y: i64) -> (p: (i64, i64))
        requires
            self.wf(),
            in_range(x as int),
            in_range(y as int),
        ensures
            (p.0 as int, p.1 as int) == self@.to_local(x as int, y as int),
            magnitude(p.0 as int) <= 4 * COORD_MAX,
            magnitude(p.1 as int) <= 4 * COORD_MAX,
    {
        self.rotation.unrotate(x - self.x, y - self.y)
    }

    /// Whether the canvas point `(x, y)` lies on the stretched box.
    pub fn contains_point(&self, x: i64, y: i64) -> (inside: bool)
        requires
            self.wf(),
            in_range(x as int),
            in_range(y as int),
        ensures
            inside == self@.contains_point(x as int, y as int),
    {
        let (local_x, local_y) = self.canvas_to_local_coords(x, y);
        let b = self.get_bounds(true);
        local_x >= b.left && local_x <= b.right && local_y >= b.top && local_y <= b.bottom
    }

    /// Centre of `handle` in the local frame of the box.
    pub fn handle_position(&self, handle: HandleType) -> (p: (i64, i64))
        requires
            self.wf(),
        ensures
            (p.0 as int, p.1 as int) == self@.handle_position(handle),
            magnitude(p.0 as int) <= COORD_MAX * 501,
            magnitude(p.1 as int) <= COORD_MAX * 501,
    {
        proof {
            lemma_extent_bounds(self@, true);
        }
        let b = self.get_bounds(true);
        match handle {
            HandleType::ResizeTopLeft => (b.left, b.top),
            HandleType::ResizeTopRight => (b.right, b.top),
            HandleType::ResizeBottomRight => (b.right, b.bottom),
            HandleType::ResizeBottomLeft => (b.left, b.bottom),
            HandleType::Rotate => (0, b.top - ROTATE_HANDLE_OFFSET),
        }
    }

    /// Whether the canvas point `(x, y)` is within the tolerance of `handle`.
    pub fn takes_hold(&self, handle: HandleType, x: i64, y: i64) -> (held: bool)
        requires
            self.wf(),
            in_range(x as int),
            in_range(y as int),
        ensures
            held == self@.takes_hold(handle, x as int, y as int),
    {
        let (local_x, local_y) = self.canvas_to_local_coords(x, y);
        let (hx, hy) = self.handle_position(handle);
        let dx: i64 = local_x - hx;
        let dy: i64 = local_y - hy;
        -HANDLE_TOLERANCE <= dx && dx <= HANDLE_TOLERANCE && -HANDLE_TOLERANCE <= dy && dy
            <= HANDLE_TOLERANCE
    }

    /// The handle that the canvas point `(x, y)` takes hold of, if the box
    /// is selected and the point is within the tolerance of one: the
    /// rotation handle before any corner.
    pub fn get_handle_at_position(&self, x: i64, y: i64) -> (found: Option<HandleType>)
        requires
            self.wf(),
            in_range(x as int),
            in_range(y as int),
        ensures
            found == self@.handle_at(x as int, y as int),
    {
        if !self.is_selected {
            return None;
        }
        if self.takes_hold(HandleType::Rotate, x, y) {
            return Some(HandleType::Rotate);
        }
        let corners = [
            HandleType::ResizeTopLeft,
            HandleType::ResizeTopRight,
            HandleType::ResizeBottomRight,
            HandleType::ResizeBottomLeft,
        ];
        let mut i: usize = 0;
        while i < 4
            invariant
                0 <= i <= 4,
                self.wf(),
                in_range(x as int),
                in_range(y as int),
                self.is_selected,
                !self@.takes_hold(HandleType::Rotate, x as int, y as int),
                corners[0] == HandleType::ResizeTopLeft,
                corners[1] == HandleType::ResizeTopRight,
                corners[2] == HandleType::ResizeBottomRight,
                corners[3] == HandleType::ResizeBottomLeft,
                forall|k: int|
                    0 <= k < i ==> !self@.takes_hold(#[trigger] corners[k], x as int, y as int),
            decreases 4 - i,
        {
            let handle = corners[i];
            if self.takes_hold(handle, x, y) {
                return Some(handle);
            }
            i += 1;
        }
        None
    }

    /// Moves the centre to `(x, y)`, held on a canvas of `width` by
    /// `height` pixels.
    pub fn drag_to(&mut self, x: i64, y: i64, width: u32, height: u32)
        requires
            old(self).wf(),
        ensures
            final(self)@ == old(self)@.dragged_to(x as int, y as int, width as int, height as int),
            final(self).wf(),
    {
        let right: i64 = width as i64 * UNIT;
        let bottom: i64 = height as i64 * UNIT;
        let floor: i64 = self.style.size as i64 * UNIT;
        let raised: i64 = if y < floor {
            floor
        } else {
            y
        };
        self.x = clamp_to(x as i128, 0, right);
        self.y = if raised > bottom {
            bottom
        } else {
            raised
        };
    }

    /// The rotation that a turning gesture remembers when the pointer is
    /// pressed at `(x, y)`.
    pub fn grip_angle(&self, x: i64, y: i64) -> (r: Rotation)
        requires
            self.wf(),
            in_range(x as int),
            in_range(y as int),
        ensures
            r@ == self@.grip_angle(x as int, y as int),
            r.wf(),
    {
        let back = self.rotation.inverse();
        Rotation::toward(x - self.x, y - self.y).compose(&back)
    }

    /// Turns the box so that the pointer at `(x, y)` keeps the angle to it
    /// that `start_angle` remembers.
    pub fn turn_toward(&mut self, x: i64, y: i64, start_angle: Rotation)
        requires
            old(self).wf(),
            in_range(x as int),
            in_range(y as int),
            start_angle.wf(),
        ensures
            final(self)@ == old(self)@.turned_toward(x as int, y as int, start_angle@),
            final(self).wf(),
    {
        let back = start_angle.inverse();
        self.rotation = Rotation::toward(x - self.x, y - self.y).compose(&back);
    }

    /// Stretches the box by a corner handle that the pointer has moved by
    /// `(dx, dy)`.
    pub fn resize(&mut self, handle: HandleType, dx: i64, dy: i64)
        requires
            old(self).wf(),
        ensures
            final(self)@ == old(self)@.resized(handle, dx as int, dy as int),
            final(self).wf(),
    {
        let gx: i128 = scale_growth(dx, self.unscaled_width());
        let gy: i128 = scale_growth(dy, self.unscaled_height());
        match handle {
            HandleType::ResizeBottomRight => {
                self.scale_x = clamp_to(self.scale_x as i128 + gx, -SCALE_MAX, SCALE_MAX);
                self.scale_y = clamp_to(self.scale_y as i128 + gy, -SCALE_MAX, SCALE_MAX);
            },
            HandleType::ResizeTopLeft => {
                self.scale_x = clamp_to(self.scale_x as i128 - gx, -SCALE_MAX, SCALE_MAX);
                self.scale_y = clamp_to(self.scale_y as i128 - gy, -SCALE_MAX, SCALE_MAX);
            },
            _ => {},
        }
    }
}

/// By how much a scale factor changes when a corner of a box of the given
/// unstretched extent moves by `delta`.
pub fn scale_growth(delta: i64, extent: i64) -> (g: i128)
    ensures
        g == growth(delta as int, extent as int),
        -0x1_0000_0000_0000_0000 * 1_000_000 <= g <= 0x1_0000_0000_0000_0000 * 1_000_000,
{
    if extent > 0 {
        let doubled: i128 = (delta as i128) * 2_000_000;
        proof {
            assert(-0x1_0000_0000_0000_0000 * 1_000_000 * extent <= doubled
                <= 0x1_0000_0000_0000_0000 * 1_000_000 * extent) by (nonlinear_arith)
                requires
                    extent >= 1,
                    -0x1_0000_0000_0000_0000 * 1_000_000 <= doubled <= 0x1_0000_0000_0000_0000
                        * 1_000_000,
            ;
            lemma_trunc_div_bounds(
                doubled as int,
                extent as int,
                18_446_744_073_709_551_616_000_000int,
            );
        }
        div_toward_zero(doubled, extent as i128)
    } else {
        0
    }
}

} // verus!
