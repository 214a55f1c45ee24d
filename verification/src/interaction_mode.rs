//! What the pointer is doing between a press and a release.

use vstd::prelude::*;
use crate::fixed::{COORD_MAX, in_range, is_in_range};
use crate::rotation::{Rotation, Direction};
use crate::text_box::HandleType;

verus! {

/// The gesture in progress. It belongs to the editing session, not to the
/// scene: it starts with a pointer press and ends with the release.
#[derive(Clone, Copy, Debug, PartialEq, Eq)]
pub enum InteractionMode {
    /// No gesture.
    Idle,
    /// The box at `index` follows the pointer, which took hold of it
    /// `offset` away from its centre.
    Dragging { index: usize, offset: (i64, i64) },
    /// The box at `index` is stretched by the corner `handle`, which the
    /// pointer took hold of at `start_pos`.
    Resizing { index: usize, handle: HandleType, start_pos: (i64, i64) },
    /// The box at `index` turns with the pointer; `start_angle` is the
    /// direction from the centre to the pointer at the press, less the
    /// rotation the box had then.
    Rotating { index: usize, start_angle: Rotation },
}

/// The mathematical value of an [`InteractionMode`].
pub enum InteractionModeView {
    Idle,
    Dragging { index: int, offset: (int, int) },
    Resizing { index: int, handle: HandleType, start_pos: (int, int) },
    Rotating { index: int, start_angle: Direction },
}

impl View for InteractionMode {
    type V = InteractionModeView;

    open spec fn view(&self) -> InteractionModeView {
        match *self {
            InteractionMode::Idle => InteractionModeView::Idle,
            InteractionMode::Dragging { index, offset } => InteractionModeView::Dragging {
                index: index as int,
                offset: (offset.0 as int, offset.1 as int),
            },
            InteractionMode::Resizing { index, handle, start_pos } => InteractionModeView::Resizing {
                index: index as int,
                handle,
                start_pos: (start_pos.0 as int, start_pos.1 as int),
            },
            InteractionMode::Rotating { index, start_angle } => InteractionModeView::Rotating {
                index: index as int,
                start_angle: start_angle@,
            },
        }
    }
}

impl InteractionModeView {
    /// The box that the gesture works on, if a gesture is in progress.
    pub open spec fn target(self) -> Option<int> {
        match self {
            InteractionModeView::Idle => None,
            InteractionModeView::Dragging { index, .. } => Some(index),
            InteractionModeView::Resizing { index, .. } => Some(index),
            InteractionModeView::Rotating { index, .. } => Some(index),
        }
    }

    /// The same gesture on the box at `index`.
    pub open spec fn retargeted(self, index: int) -> InteractionModeView {
        match self {
            InteractionModeView::Idle => InteractionModeView::Idle,
            InteractionModeView::Dragging { offset, .. } => InteractionModeView::Dragging {
                index,
                offset,
            },
            InteractionModeView::Resizing { handle, start_pos, .. } => InteractionModeView::Resizing {
                index,
                handle,
                start_pos,
            },
            InteractionModeView::Rotating { start_angle, .. } => InteractionModeView::Rotating {
                index,
                start_angle,
            },
        }
    }

    /// What the gesture remembers is within range: an offset is the
    /// difference of two canvas points, a start position is a canvas point.
    pub open spec fn wf(self) -> bool {
        match self {
            InteractionModeView::Idle => true,
            InteractionModeView::Dragging { index, offset } => {
                &&& 0 <= index
                &&& -2 * COORD_MAX <= offset.0 <= 2 * COORD_MAX
                &&& -2 * COORD_MAX <= offset.1 <= 2 * COORD_MAX
            },
            InteractionModeView::Resizing { index, handle, start_pos } => {
                &&& 0 <= index
                &&& in_range(start_pos.0)
                &&& in_range(start_pos.1)
            },
            InteractionModeView::Rotating { index, start_angle } => {
                &&& 0 <= index
                &&& start_angle.wf()
            },
        }
    }
}

impl InteractionMode {
    /// What the gesture remembers is within range.
    pub open spec fn wf(&self) -> bool {
        self@.wf()
    }

    /// Whether what the gesture remembers is within range.
    pub fn is_wf(&self) -> (ok: bool)
        ensures
            ok == self.wf(),
    {
        match self {
            InteractionMode::Idle => true,
            InteractionMode::Dragging { index: _, offset } => {
                -2 * COORD_MAX <= offset.0 && offset.0 <= 2 * COORD_MAX && -2 * COORD_MAX
                    <= offset.1 && offset.1 <= 2 * COORD_MAX
            },
            InteractionMode::Resizing { index: _, handle: _, start_pos } => {
                is_in_range(start_pos.0) && is_in_range(start_pos.1)
            },
            InteractionMode::Rotating { index: _, start_angle } => start_angle.is_wf(),
        }
    }

    /// Starts dragging the box at `index`.
    pub fn set_dragging(&mut self, index: usize, offset: (i64, i64))
        ensures
            final(self)@ == (InteractionModeView::Dragging {
                index: index as int,
                offset: (offset.0 as int, offset.1 as int),
            }),
    {
        *self = InteractionMode::Dragging { index, offset };
    }

    /// Starts stretching the box at `index` by `handle`.
    pub fn set_resize(&mut self, index: usize, handle: HandleType, start_pos: (i64, i64))
        ensures
            final(self)@ == (InteractionModeView::Resizing {
                index: index as int,
                handle,
                start_pos: (start_pos.0 as int, start_pos.1 as int),
            }),
    {
        *self = InteractionMode::Resizing { index, handle, start_pos };
    }

    /// Starts turning the box at `index`.
    pub fn set_rotating(&mut self, index: usize, start_angle: Rotation)
        ensures
            final(self)@ == (InteractionModeView::Rotating {
                index: index as int,
                start_angle: start_angle@,
            }),
    {
        *self = InteractionMode::Rotating { index, start_angle };
    }
}

} // verus!
