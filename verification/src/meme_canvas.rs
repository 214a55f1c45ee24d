//! The editing session: a scene and the pointer gesture in progress.
//!
//! A press on a handle of the selected box starts turning or stretching it;
//! a press on a box selects it and starts dragging it; a press on nothing
//! clears the selection. While a gesture is in progress every pointer
//! movement changes the box it works on, and the release ends it.

use vstd::prelude::*;
use crate::fixed::{UNIT, in_range};
use crate::rotation::Direction;
use crate::text_box::{
    TextBox, TextBoxView, HandleType, lemma_drag_stays_on_canvas, lemma_grip_angle_wf,
    lemma_turned_toward_wf,
};
use crate::interaction_mode::{InteractionMode, InteractionModeView};
use crate::canvas_objects::{
    CanvasObjects, CanvasObjectsView, text_box_views, index_view, lemma_select_keeps_wf,
    lemma_hit_test_below, lemma_add_keeps_wf, lemma_remove_keeps_wf, lemma_set_text_keeps_wf,
    lemma_consistent_is_exclusive,
};

verus! {

/// A scene being edited with the pointer.
#[derive(Clone, Debug, PartialEq, Eq)]
pub struct MemeCanvas {
    /// The scene. A box is removed through the session, which ends or moves
    /// the gesture with it; removing it from the scene behind the back of
    /// the session can leave a gesture without its box.
    pub scene: CanvasObjects,
    /// The gesture in progress.
    pub interaction_mode: InteractionMode,
}

/// The mathematical value of a [`MemeCanvas`].
pub struct MemeCanvasView {
    pub scene: CanvasObjectsView,
    pub interaction_mode: InteractionModeView,
}

impl View for MemeCanvas {
    type V = MemeCanvasView;

    open spec fn view(&self) -> MemeCanvasView {
        MemeCanvasView { scene: self.scene@, interaction_mode: self.interaction_mode@ }
    }
}

impl MemeCanvasView {
    /// The scene and the gesture are well formed, and a gesture works on a
    /// box that the scene has.
    pub open spec fn wf(self) -> bool {
        &&& self.scene.wf()
        &&& self.interaction_mode.wf()
        &&& self.interaction_mode.target() matches Some(t) ==> t < self.scene.text_boxes.len()
    }

    /// A session on the given boxes, with nothing selected and no gesture.
    pub open spec fn new(
        width: int,
        height: int,
        main_img_url: Seq<char>,
        text_boxes: Seq<TextBoxView>,
    ) -> MemeCanvasView {
        MemeCanvasView {
            scene: CanvasObjectsView {
                main_img_url,
                width,
                height,
                text_boxes,
                selected_index: None,
                generation: 0,
            },
            interaction_mode: InteractionModeView::Idle,
        }
    }

    /// The session with the gesture replaced.
    pub open spec fn with_mode(self, interaction_mode: InteractionModeView) -> MemeCanvasView {
        MemeCanvasView { interaction_mode, ..self }
    }

    /// The session after a press at `(x, y)` has been tried on the handles
    /// of the selected box: on the rotation handle the box starts turning,
    /// on a corner it starts being stretched from `(x, y)`, and off the
    /// handles nothing changes.
    pub open spec fn select_handle(self, x: int, y: int) -> MemeCanvasView {
        match self.scene.handle_at(x, y) {
            Some(HandleType::Rotate) => self.with_mode(
                InteractionModeView::Rotating {
                    index: self.scene.selected_index->0,
                    start_angle: self.scene.text_boxes[self.scene.selected_index->0].grip_angle(
                        x,
                        y,
                    ),
                },
            ),
            Some(handle) => self.with_mode(
                InteractionModeView::Resizing {
                    index: self.scene.selected_index->0,
                    handle,
                    start_pos: (x, y),
                },
            ),
            None => self,
        }
    }

    /// The session after a press at `(x, y)` off the handles: the topmost
    /// box under the point is selected and starts being dragged by the
    /// point; where there is none, nothing is selected and no gesture
    /// starts.
    pub open spec fn maybe_select_text_box(self, x: int, y: int) -> MemeCanvasView {
        match self.scene.hit_test(x, y) {
            Some(index) => MemeCanvasView {
                scene: self.scene.select(Some(index)),
                interaction_mode: InteractionModeView::Dragging {
                    index,
                    offset: (
                        x - self.scene.text_boxes[index].x,
                        y - self.scene.text_boxes[index].y,
                    ),
                },
            },
            None => MemeCanvasView {
                scene: self.scene.select(None),
                interaction_mode: InteractionModeView::Idle,
            },
        }
    }

    /// The session after the pointer is pressed at `(x, y)`: the handles of
    /// the selected box come first, then the boxes.
    pub open spec fn mouse_down(self, x: int, y: int) -> MemeCanvasView {
        if self.scene.handle_at(x, y) is Some {
            self.select_handle(x, y)
        } else {
            self.maybe_select_text_box(x, y)
        }
    }

    /// The session with `text_box` in the place of the box at `index`. An
    /// index out of range leaves the session as it is.
    pub open spec fn with_text_box(self, index: int, text_box: TextBoxView) -> MemeCanvasView {
        if 0 <= index < self.scene.text_boxes.len() {
            MemeCanvasView { scene: self.scene.with_text_box(index, text_box), ..self }
        } else {
            self
        }
    }

    /// The session after the pointer has moved to `(x, y)`: without a
    /// gesture nothing changes; a dragged box follows the pointer, held on
    /// the canvas; a box being turned turns with it; a box being stretched
    /// is stretched by the way of the pointer since the press. The gesture
    /// goes on.
    pub open spec fn mouse_move(self, x: int, y: int) -> MemeCanvasView {
        match self.interaction_mode {
            InteractionModeView::Idle => self,
            InteractionModeView::Dragging { index, offset } => self.with_text_box(
                index,
                self.scene.text_boxes[index].dragged_to(
                    x - offset.0,
                    y - offset.1,
                    self.scene.width,
                    self.scene.height,
                ),
            ),
            InteractionModeView::Resizing { index, handle, start_pos } => self.with_text_box(
                index,
                self.scene.text_boxes[index].resized(handle, x - start_pos.0, y - start_pos.1),
            ),
            InteractionModeView::Rotating { index, start_angle } => self.with_text_box(
                index,
                self.scene.text_boxes[index].turned_toward(x, y, start_angle),
            ),
        }
    }

    /// The session after the pointer is released: no gesture.
    pub open spec fn mouse_up(self) -> MemeCanvasView {
        self.with_mode(InteractionModeView::Idle)
    }

    /// The session after the pointer has left the canvas: no gesture.
    pub open spec fn mouse_leave(self) -> MemeCanvasView {
        self.with_mode(InteractionModeView::Idle)
    }

    /// The gesture once the box at `removed` is gone: none if it worked on
    /// that box; else the same gesture on the same box, which has moved
    /// down by one if it lay above.
    pub open spec fn mode_after_removal(self, removed: int) -> InteractionModeView {
        match self.interaction_mode.target() {
            Some(t) => if t == removed {
                InteractionModeView::Idle
            } else if t > removed {
                self.interaction_mode.retargeted(t - 1)
            } else {
                self.interaction_mode
            },
            None => InteractionModeView::Idle,
        }
    }

    /// The session without the box at `index`. The last box is never
    /// removed, and an index out of range leaves the session as it is.
    pub open spec fn remove_text_box(self, index: int) -> MemeCanvasView {
        if self.scene.text_boxes.len() > 1 && 0 <= index < self.scene.text_boxes.len() {
            MemeCanvasView {
                scene: self.scene.remove_text_box(index),
                interaction_mode: self.mode_after_removal(index),
            }
        } else {
            self
        }
    }
}

/// What can happen to a session: the pointer events and the edits that the
/// page around the canvas makes.
pub enum SessionEvent {
    MouseDown { x: int, y: int },
    MouseMove { x: int, y: int },
    MouseUp,
    MouseLeave,
    Select { index: Option<int> },
    AddTextBox,
    RemoveTextBox { index: int },
    SetText { index: int, text: Seq<char> },
    SetMainImgUrl { url: Seq<char> },
}

impl SessionEvent {
    /// The pointer of the event, if it has one, is within the range of the
    /// canvas.
    pub open spec fn in_range(self) -> bool {
        match self {
            SessionEvent::MouseDown { x, y } => in_range(x) && in_range(y),
            SessionEvent::MouseMove { x, y } => in_range(x) && in_range(y),
            _ => true,
        }
    }
}

impl MemeCanvasView {
    /// The session with another scene.
    pub open spec fn with_scene(self, scene: CanvasObjectsView) -> MemeCanvasView {
        MemeCanvasView { scene, ..self }
    }

    /// The session after `event`.
    pub open spec fn step(self, event: SessionEvent) -> MemeCanvasView {
        match event {
            SessionEvent::MouseDown { x, y } => self.mouse_down(x, y),
            SessionEvent::MouseMove { x, y } => self.mouse_move(x, y),
            SessionEvent::MouseUp => self.mouse_up(),
            SessionEvent::MouseLeave => self.mouse_leave(),
            SessionEvent::Select { index } => self.with_scene(self.scene.select(index)),
            SessionEvent::AddTextBox => self.with_scene(self.scene.add_text_box()),
            SessionEvent::RemoveTextBox { index } => self.remove_text_box(index),
            SessionEvent::SetText { index, text } => self.with_scene(
                self.scene.set_text(index, text),
            ),
            SessionEvent::SetMainImgUrl { url } => self.with_scene(
                self.scene.set_main_img_url(url),
            ),
        }
    }

    /// The session after each of `events` in turn.
    pub open spec fn run(self, events: Seq<SessionEvent>) -> MemeCanvasView
        decreases events.len(),
    {
        if events.len() == 0 {
            self
        } else {
            self.run(events.drop_last()).step(events.last())
        }
    }
}

/// A press keeps a well-formed session well formed.
pub proof fn lemma_mouse_down_keeps_wf(canvas: MemeCanvasView, x: int, y: int)
    requires
        canvas.wf(),
        in_range(x),
        in_range(y),
    ensures
        canvas.mouse_down(x, y).wf(),
{
    if canvas.scene.handle_at(x, y) is Some {
        let s = canvas.scene.selected_index->0;
        lemma_grip_angle_wf(canvas.scene.text_boxes[s], x, y);
    } else {
        lemma_hit_test_below(canvas.scene, x, y, canvas.scene.text_boxes.len() as int);
        lemma_select_keeps_wf(canvas.scene, canvas.scene.hit_test(x, y));
    }
}

/// A pointer movement keeps a well-formed session well formed.
pub proof fn lemma_mouse_move_keeps_wf(canvas: MemeCanvasView, x: int, y: int)
    requires
        canvas.wf(),
        in_range(x),
        in_range(y),
    ensures
        canvas.mouse_move(x, y).wf(),
{
    match canvas.interaction_mode.target() {
        Some(index) => {
            lemma_moved_box_wf(canvas.scene.text_boxes[index], x, y, canvas);
        },
        None => {},
    }
    lemma_move_touches_target_only(canvas, x, y);
}

/// Whatever a gesture makes of a well-formed box is a well-formed box.
pub proof fn lemma_moved_box_wf(tb: TextBoxView, x: int, y: int, canvas: MemeCanvasView)
    requires
        tb.wf(),
        canvas.wf(),
    ensures
        forall|px: int, py: int| #[trigger]
            tb.dragged_to(px, py, canvas.scene.width, canvas.scene.height).wf(),
        forall|h: HandleType, dx: int, dy: int| (#[trigger] tb.resized(h, dx, dy)).wf(),
        forall|r: Direction| (#[trigger] tb.turned_toward(x, y, r)).wf(),
{
    assert forall|px: int, py: int| #[trigger]
        tb.dragged_to(px, py, canvas.scene.width, canvas.scene.height).wf() by {
        lemma_drag_stays_on_canvas(tb, px, py, canvas.scene.width, canvas.scene.height);
    }
    assert forall|r: Direction| (#[trigger] tb.turned_toward(x, y, r)).wf() by {
        lemma_turned_toward_wf(tb, x, y, r);
    }
}

/// Every event keeps a well-formed session well formed: the selection stays
/// consistent, every box stays within its ranges, and a gesture keeps
/// working on a box that the scene has.
pub proof fn lemma_step_keeps_wf(canvas: MemeCanvasView, event: SessionEvent)
    requires
        canvas.wf(),
        event.in_range(),
    ensures
        canvas.step(event).wf(),
{
    match event {
        SessionEvent::MouseDown { x, y } => {
            lemma_mouse_down_keeps_wf(canvas, x, y);
        },
        SessionEvent::MouseMove { x, y } => {
            lemma_mouse_move_keeps_wf(canvas, x, y);
        },
        SessionEvent::MouseUp => {},
        SessionEvent::MouseLeave => {},
        SessionEvent::Select { index } => {
            lemma_select_keeps_wf(canvas.scene, index);
        },
        SessionEvent::AddTextBox => {
            lemma_add_keeps_wf(canvas.scene);
        },
        SessionEvent::RemoveTextBox { index } => {
            lemma_remove_keeps_wf(canvas.scene, index);
        },
        SessionEvent::SetText { index, text } => {
            lemma_set_text_keeps_wf(canvas.scene, index, text);
        },
        SessionEvent::SetMainImgUrl { url } => {},
    }
}

/// In every state that a well-formed session reaches, by whatever events
/// in whatever order, at most one box is flagged as selected and it is the
/// one that the selected index names; and a scene that had a box still has
/// one.
pub proof fn lemma_run_keeps_wf(canvas: MemeCanvasView, events: Seq<SessionEvent>)
    requires
        canvas.wf(),
        forall|i: int| 0 <= i < events.len() ==> (#[trigger] events[i]).in_range(),
    ensures
        canvas.run(events).wf(),
        canvas.run(events).scene.selection_consistent(),
        canvas.run(events).scene.at_most_one_selected(),
        canvas.scene.text_boxes.len() >= 1 ==> canvas.run(events).scene.text_boxes.len() >= 1,
    decreases events.len(),
{
    if events.len() > 0 {
        let before = canvas.run(events.drop_last());
        lemma_run_keeps_wf(canvas, events.drop_last());
        lemma_step_keeps_wf(before, events.last());
        lemma_step_keeps_a_box(before, events.last());
    }
    lemma_consistent_is_exclusive(canvas.run(events).scene);
}

/// No event takes the last box of a scene.
pub proof fn lemma_step_keeps_a_box(canvas: MemeCanvasView, event: SessionEvent)
    ensures
        canvas.scene.text_boxes.len() >= 1 ==> canvas.step(event).scene.text_boxes.len() >= 1,
{
    match event {
        SessionEvent::MouseDown { x, y } => {
            lemma_select_keeps_wf(canvas.scene, canvas.scene.hit_test(x, y));
        },
        SessionEvent::Select { index } => {
            lemma_select_keeps_wf(canvas.scene, index);
        },
        _ => {},
    }
}

/// A dragged box stays on the canvas wherever the pointer goes: its centre
/// is never left of the left edge nor right of the right edge, never below
/// the bottom edge, and never higher than its font size below the top edge
/// where the canvas is that high.
pub proof fn lemma_drag_clamps_to_canvas(canvas: MemeCanvasView, x: int, y: int)
    requires
        canvas.wf(),
        canvas.interaction_mode is Dragging,
    ensures
        ({
            let index = canvas.interaction_mode->Dragging_index;
            let dragged = canvas.mouse_move(x, y).scene.text_boxes[index];
            &&& 0 <= dragged.x <= canvas.scene.width * UNIT
            &&& 0 <= dragged.y <= canvas.scene.height * UNIT
            &&& dragged.style.size <= canvas.scene.height ==> dragged.y >= dragged.style.size
                * UNIT
        }),
{
    let index = canvas.interaction_mode->Dragging_index;
    let offset = canvas.interaction_mode->Dragging_offset;
    lemma_drag_stays_on_canvas(
        canvas.scene.text_boxes[index],
        x - offset.0,
        y - offset.1,
        canvas.scene.width,
        canvas.scene.height,
    );
}

/// A pointer movement changes nothing but the box that the gesture works
/// on and the count of changes: the other boxes, the selection, the
/// background and the gesture stay.
pub proof fn lemma_move_touches_target_only(canvas: MemeCanvasView, x: int, y: int)
    requires
        canvas.wf(),
    ensures
        ({
            let after = canvas.mouse_move(x, y);
            &&& after.interaction_mode == canvas.interaction_mode
            &&& after.scene.selected_index == canvas.scene.selected_index
            &&& after.scene.main_img_url == canvas.scene.main_img_url
            &&& after.scene.text_boxes.len() == canvas.scene.text_boxes.len()
            &&& forall|i: int|
                0 <= i < canvas.scene.text_boxes.len() && canvas.interaction_mode.target() != Some(
                    i,
                ) ==> #[trigger] after.scene.text_boxes[i] == canvas.scene.text_boxes[i]
            &&& forall|i: int|
                0 <= i < canvas.scene.text_boxes.len() ==> (
                #[trigger] after.scene.text_boxes[i]).is_selected
                    == canvas.scene.text_boxes[i].is_selected
        }),
{
}

/// A press on a box, off the handles, selects that box and no other and
/// starts dragging it, with the offset from its centre to the pointer.
pub proof fn lemma_press_on_box_selects_it(canvas: MemeCanvasView, x: int, y: int, index: int)
    requires
        canvas.wf(),
        canvas.scene.handle_at(x, y) is None,
        canvas.scene.hit_test(x, y) == Some(index),
    ensures
        ({
            let after = canvas.mouse_down(x, y);
            &&& 0 <= index < canvas.scene.text_boxes.len()
            &&& after.scene.selected_index == Some(index)
            &&& after.scene.selection_consistent()
            &&& after.scene.text_boxes[index].is_selected
            &&& after.interaction_mode == (InteractionModeView::Dragging {
                index,
                offset: (
                    x - canvas.scene.text_boxes[index].x,
                    y - canvas.scene.text_boxes[index].y,
                ),
            })
        }),
{
    lemma_hit_test_below(canvas.scene, x, y, canvas.scene.text_boxes.len() as int);
}

impl MemeCanvas {
    /// The scene and the gesture are well formed, and a gesture works on a
    /// box that the scene has.
    pub open spec fn wf(&self) -> bool {
        self@.wf()
    }

    /// Whether the scene and the gesture are well formed and the gesture
    /// works on a box that the scene has.
    pub fn is_wf(&self) -> (ok: bool)
        ensures
            ok == self.wf(),
    {
        let len: usize = self.scene.text_boxes.len();
        let on_a_box: bool = match self.interaction_mode {
            InteractionMode::Idle => true,
            InteractionMode::Dragging { index, .. } => index < len,
            InteractionMode::Resizing { index, .. } => index < len,
            InteractionMode::Rotating { index, .. } => index < len,
        };
        on_a_box && self.interaction_mode.is_wf() && self.scene.is_wf()
    }

    /// A session on the given boxes, with nothing selected and no gesture.
    pub fn new(width: u32, height: u32, main_img_url: String, text_boxes: Vec<TextBox>) -> (canvas:
        MemeCanvas)
        requires
            forall|i: int| 0 <= i < text_boxes@.len() ==> (#[trigger] text_boxes@[i]).wf(),
            forall|i: int| 0 <= i < text_boxes@.len() ==> !(#[trigger] text_boxes@[i]).is_selected,
        ensures
            canvas@ == MemeCanvasView::new(
                width as int,
                height as int,
                main_img_url@,
                text_box_views(text_boxes@),
            ),
            canvas.wf(),
    {
        MemeCanvas {
            scene: CanvasObjects {
                main_img_url,
                width,
                height,
                text_boxes,
                selected_index: None,
                generation: 0,
            },
            interaction_mode: InteractionMode::Idle,
        }
    }

    /// Tries a press at `(x, y)` on the handles of the selected box, starts
    /// the gesture of the handle found, and returns the handle.
    pub fn select_handle(&mut self, x: i64, y: i64) -> (found: Option<HandleType>)
        requires
            old(self).wf(),
            in_range(x as int),
            in_range(y as int),
        ensures
            found == old(self)@.scene.handle_at(x as int, y as int),
            final(self)@ == old(self)@.select_handle(x as int, y as int),
            final(self).wf(),
    {
        let found = self.scene.select_handle_at(x, y);
        match found {
            Some(handle_type) => {
                let selected_idx: usize = self.scene.selected_index.unwrap();
                assert(self@.scene.text_boxes[selected_idx as int]
                    == self.scene.text_boxes@[selected_idx as int]@);
                match handle_type {
                    HandleType::Rotate => {
                        let start_angle = self.scene.text_boxes[selected_idx].grip_angle(x, y);
                        self.interaction_mode.set_rotating(selected_idx, start_angle);
                    },
                    _ => {
                        self.interaction_mode.set_resize(selected_idx, handle_type, (x, y));
                    },
                }
            },
            None => {},
        }
        found
    }

    /// The centre of the box at `index`.
    pub fn get_textbox_position(&self, index: usize) -> (p: (i64, i64))
        requires
            index < self.scene.text_boxes.len(),
        ensures
            p.0 == self@.scene.text_boxes[index as int].x,
            p.1 == self@.scene.text_boxes[index as int].y,
    {
        (self.scene.text_boxes[index].x, self.scene.text_boxes[index].y)
    }

    /// Selects the topmost box under `(x, y)` and starts dragging it; where
    /// there is none, clears the selection.
    pub fn maybe_select_text_box(&mut self, x: i64, y: i64)
        requires
            old(self).wf(),
            in_range(x as int),
            in_range(y as int),
        ensures
            final(self)@ == old(self)@.maybe_select_text_box(x as int, y as int),
            final(self).wf(),
    {
        match self.scene.get_text_box_at_position(x, y) {
            Some(index) => {
                self.scene.select_text_box(Some(index));
                let (tb_x, tb_y) = self.get_textbox_position(index);
                self.interaction_mode = InteractionMode::Dragging {
                    index,
                    offset: (x - tb_x, y - tb_y),
                };
            },
            None => {
                self.scene.select_text_box(None);
                self.interaction_mode = InteractionMode::Idle;
            },
        }
    }

    /// The pointer is pressed at `(x, y)`.
    pub fn mouse_down(&mut self, x: i64, y: i64)
        requires
            old(self).wf(),
            in_range(x as int),
            in_range(y as int),
        ensures
            final(self)@ == old(self)@.mouse_down(x as int, y as int),
            final(self).wf(),
    {
        if self.select_handle(x, y).is_none() {
            self.maybe_select_text_box(x, y);
        }
    }

    /// The pointer is released.
    pub fn mouse_up(&mut self)
        requires
            old(self).wf(),
        ensures
            final(self)@ == old(self)@.mouse_up(),
            final(self).wf(),
    {
        self.interaction_mode = InteractionMode::Idle;
    }

    /// The pointer has left the canvas.
    pub fn mouse_leave(&mut self)
        requires
            old(self).wf(),
        ensures
            final(self)@ == old(self)@.mouse_leave(),
            final(self).wf(),
    {
        self.interaction_mode = InteractionMode::Idle;
    }

    /// The pointer has moved to `(x, y)`. Returns whether a gesture is in
    /// progress, in which case the canvas is to be drawn again.
    pub fn mouse_move(&mut self, x: i64, y: i64) -> (redraw: bool)
        requires
            old(self).wf(),
            in_range(x as int),
            in_range(y as int),
        ensures
            final(self)@ == old(self)@.mouse_move(x as int, y as int),
            final(self).wf(),
            redraw == !(old(self)@.interaction_mode is Idle),
    {
        let width: u32 = self.scene.width;
        let height: u32 = self.scene.height;
        match self.interaction_mode {
            InteractionMode::Idle => {
                return false;
            },
            InteractionMode::Dragging { index, offset } => {
                self.scene.text_boxes[index].drag_to(x - offset.0, y - offset.1, width, height);
            },
            InteractionMode::Rotating { index, start_angle } => {
                self.scene.text_boxes[index].turn_toward(x, y, start_angle);
            },
            InteractionMode::Resizing { index, handle, start_pos } => {
                self.scene.text_boxes[index].resize(handle, x - start_pos.0, y - start_pos.1);
            },
        }
        self.scene.touch();
        assert(self@.scene.text_boxes =~= old(self)@.mouse_move(
            x as int,
            y as int,
        ).scene.text_boxes);
        true
    }

    /// The topmost box that the canvas point `(x, y)` lies on.
    pub fn get_text_box_at_position(&self, x: i64, y: i64) -> (hit: Option<usize>)
        requires
            self.wf(),
            in_range(x as int),
            in_range(y as int),
        ensures
            index_view(hit) == self@.scene.hit_test(x as int, y as int),
            hit matches Some(i) ==> i < self.scene.text_boxes.len(),
    {
        self.scene.get_text_box_at_position(x, y)
    }

    /// Clears the selection.
    pub fn unselect_text_boxes(&mut self)
        requires
            old(self).wf(),
        ensures
            final(self)@ == old(self)@.with_scene(old(self)@.scene.select(None)),
            final(self).wf(),
    {
        self.select_text_box(None);
    }

    /// Selects the box at `index` and no other, or none.
    pub fn select_text_box(&mut self, index: Option<usize>)
        requires
            old(self).wf(),
        ensures
            final(self)@ == old(self)@.with_scene(old(self)@.scene.select(index_view(index))),
            final(self).wf(),
    {
        proof {
            lemma_select_keeps_wf(self@.scene, index_view(index));
        }
        self.scene.select_text_box(index);
    }

    /// Puts a new box on top of the others, at the centre of the canvas.
    pub fn add_text_box(&mut self)
        requires
            old(self).wf(),
        ensures
            final(self)@ == old(self)@.with_scene(old(self)@.scene.add_text_box()),
            final(self).wf(),
    {
        self.scene.add_text_box();
    }

    /// Removes the box at `index`, unless it is the last box or there is
    /// no such box. A gesture on the removed box ends.
    pub fn remove_text_box(&mut self, index: usize)
        requires
            old(self).wf(),
        ensures
            final(self)@ == old(self)@.remove_text_box(index as int),
            final(self).wf(),
    {
        if self.scene.text_boxes.len() > 1 && index < self.scene.text_boxes.len() {
            self.scene.remove_text_box(index);
            self.interaction_mode = match self.interaction_mode {
                InteractionMode::Idle => InteractionMode::Idle,
                InteractionMode::Dragging { index: t, offset } => if t == index {
                    InteractionMode::Idle
                } else if t > index {
                    InteractionMode::Dragging { index: (t - 1) as usize, offset }
                } else {
                    InteractionMode::Dragging { index: t, offset }
                },
                InteractionMode::Resizing { index: t, handle, start_pos } => if t == index {
                    InteractionMode::Idle
                } else if t > index {
                    InteractionMode::Resizing { index: (t - 1) as usize, handle, start_pos }
                } else {
                    InteractionMode::Resizing { index: t, handle, start_pos }
                },
                InteractionMode::Rotating { index: t, start_angle } => if t == index {
                    InteractionMode::Idle
                } else if t > index {
                    InteractionMode::Rotating { index: (t - 1) as usize, start_angle }
                } else {
                    InteractionMode::Rotating { index: t, start_angle }
                },
            };
        }
    }

    /// Replaces the text of the box at `index`. An index out of range
    /// leaves the session as it is.
    pub fn set_text(&mut self, index: usize, text: String)
        requires
            old(self).wf(),
        ensures
            final(self)@ == old(self)@.with_scene(old(self)@.scene.set_text(index as int, text@)),
            final(self).wf(),
    {
        proof {
            lemma_set_text_keeps_wf(self@.scene, index as int, text@);
        }
        self.scene.set_text(index, text);
    }

    /// Puts the scene over another background image.
    pub fn set_main_img_url(&mut self, url: String)
        requires
            old(self).wf(),
        ensures
            final(self)@ == old(self)@.with_scene(old(self)@.scene.set_main_img_url(url@)),
            final(self).wf(),
    {
        self.scene.set_main_img_url(url);
    }
}

} // verus!
