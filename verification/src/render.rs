//! What is drawn for a scene, and in which order.
//!
//! A scene is drawn from a plan: first the background, then each text box
//! in paint order, and right after the selected box its outline and
//! handles. Everything but the background is drawn in the frame of a text
//! box: moved to the centre of the box and turned by its rotation, so that
//! the handles sit where the pointer finds them. The plan says what to
//! draw; putting it on a surface is left to whoever has one.

use vstd::prelude::*;
use crate::text_box::{
    TextBox, TextBoxView, HandleType, HANDLE_SIZE, HANDLE_TOLERANCE, lemma_extent_bounds,
};
use crate::canvas_objects::{CanvasObjects, CanvasObjectsView};

verus! {

/// Number of items that the plan holds for the selection: the outline,
/// four corner handles, the rotation handle and its connector.
pub const SELECTION_ITEMS: usize = 7;

/// One item of a plan.
#[derive(Clone, Copy, Debug, PartialEq, Eq)]
pub enum DrawItem {
    /// The surface is cleared and the background image is drawn over all
    /// of it, `width` by `height` pixels, whatever its own proportions.
    Background { width: u32, height: u32 },
    /// The text of the box at `index`, first its outline, then its
    /// filling, centred at the origin of the frame and stretched by the
    /// scale factors of the box.
    Text { index: usize },
    /// A dashed rectangle around the stretched box at `index`.
    Outline { index: usize, left: i64, top: i64, right: i64, bottom: i64 },
    /// A square handle of side `size` centred at `(x, y)`.
    CornerHandle { index: usize, x: i64, y: i64, size: i64 },
    /// The round rotation handle of the given radius centred at `(x, y)`.
    RotateHandle { index: usize, x: i64, y: i64, radius: i64 },
    /// The line from the lower edge of the rotation handle down to the top
    /// edge of the box, at `x`.
    Connector { index: usize, x: i64, from_y: i64, to_y: i64 },
}

/// The mathematical value of a [`DrawItem`].
pub enum DrawItemView {
    Background { width: int, height: int },
    Text { index: int },
    Outline { index: int, left: int, top: int, right: int, bottom: int },
    CornerHandle { index: int, x: int, y: int, size: int },
    RotateHandle { index: int, x: int, y: int, radius: int },
    Connector { index: int, x: int, from_y: int, to_y: int },
}

impl View for DrawItem {
    type V = DrawItemView;

    open spec fn view(&self) -> DrawItemView {
        match *self {
            DrawItem::Background { width, height } => DrawItemView::Background {
                width: width as int,
                height: height as int,
            },
            DrawItem::Text { index } => DrawItemView::Text { index: index as int },
            DrawItem::Outline { index, left, top, right, bottom } => DrawItemView::Outline {
                index: index as int,
                left: left as int,
                top: top as int,
                right: right as int,
                bottom: bottom as int,
            },
            DrawItem::CornerHandle { index, x, y, size } => DrawItemView::CornerHandle {
                index: index as int,
                x: x as int,
                y: y as int,
                size: size as int,
            },
            DrawItem::RotateHandle { index, x, y, radius } => DrawItemView::RotateHandle {
                index: index as int,
                x: x as int,
                y: y as int,
                radius: radius as int,
            },
            DrawItem::Connector { index, x, from_y, to_y } => DrawItemView::Connector {
                index: index as int,
                x: x as int,
                from_y: from_y as int,
                to_y: to_y as int,
            },
        }
    }
}

impl DrawItemView {
    /// The box in whose frame the item is drawn; the background has none.
    pub open spec fn frame(self) -> Option<int> {
        match self {
            DrawItemView::Background { .. } => None,
            DrawItemView::Text { index } => Some(index),
            DrawItemView::Outline { index, .. } => Some(index),
            DrawItemView::CornerHandle { index, .. } => Some(index),
            DrawItemView::RotateHandle { index, .. } => Some(index),
            DrawItemView::Connector { index, .. } => Some(index),
        }
    }
}

/// The values of a sequence of items.
pub open spec fn draw_item_views(items: Seq<DrawItem>) -> Seq<DrawItemView> {
    Seq::new(items.len(), |i: int| items[i]@)
}

impl TextBoxView {
    /// A corner handle as it is drawn: where the pointer finds it.
    pub open spec fn corner_item(self, index: int, handle: HandleType) -> DrawItemView {
        DrawItemView::CornerHandle {
            index,
            x: self.handle_position(handle).0,
            y: self.handle_position(handle).1,
            size: HANDLE_SIZE as int,
        }
    }

    /// What is drawn for the box at `index` when it is selected, after its
    /// text: the outline of the stretched box, the corner handles from the
    /// top left one clockwise, the rotation handle, and the line that joins
    /// the rotation handle to the top edge.
    pub open spec fn selection_items(self, index: int) -> Seq<DrawItemView> {
        let b = self.bounds(true);
        let turn = self.handle_position(HandleType::Rotate);
        seq![
            DrawItemView::Outline {
                index,
                left: b.left,
                top: b.top,
                right: b.right,
                bottom: b.bottom,
            },
            self.corner_item(index, HandleType::ResizeTopLeft),
            self.corner_item(index, HandleType::ResizeTopRight),
            self.corner_item(index, HandleType::ResizeBottomRight),
            self.corner_item(index, HandleType::ResizeBottomLeft),
            DrawItemView::RotateHandle {
                index,
                x: turn.0,
                y: turn.1,
                radius: HANDLE_TOLERANCE as int,
            },
            DrawItemView::Connector {
                index,
                x: turn.0,
                from_y: turn.1 + HANDLE_TOLERANCE,
                to_y: b.top,
            },
        ]
    }

    /// What is drawn for the box at `index`: its text, and if it is
    /// selected what shows the selection.
    pub open spec fn draw_items(self, index: int) -> Seq<DrawItemView> {
        if self.is_selected {
            seq![DrawItemView::Text { index }] + self.selection_items(index)
        } else {
            seq![DrawItemView::Text { index }]
        }
    }
}

impl CanvasObjectsView {
    /// The plan for the background and the first `upto` boxes.
    pub open spec fn render_plan_below(self, upto: int) -> Seq<DrawItemView>
        decreases upto,
    {
        if upto <= 0 {
            seq![DrawItemView::Background { width: self.width, height: self.height }]
        } else {
            self.render_plan_below(upto - 1) + self.text_boxes[upto - 1].draw_items(upto - 1)
        }
    }

    /// The plan of the scene: the background, then what is drawn for each
    /// box, in paint order.
    pub open spec fn render_plan(self) -> Seq<DrawItemView> {
        self.render_plan_below(self.text_boxes.len() as int)
    }
}

/// The plan starts with the background and draws nothing else over all of
/// the surface; after it every item is drawn in the frame of a box of the
/// scene, and the frames come in paint order.
pub proof fn lemma_plan_is_in_paint_order(scene: CanvasObjectsView, upto: int)
    requires
        0 <= upto <= scene.text_boxes.len(),
    ensures
        ({
            let plan = scene.render_plan_below(upto);
            &&& plan.len() >= 1 + upto
            &&& plan[0] == DrawItemView::Background { width: scene.width, height: scene.height }
            &&& forall|k: int|
                1 <= k < plan.len() ==> (#[trigger] plan[k]).frame() is Some && 0
                    <= plan[k].frame()->0 < upto
            &&& forall|j: int, k: int|
                1 <= j <= k < plan.len() ==> (#[trigger] plan[j]).frame()->0 <= (
                #[trigger] plan[k]).frame()->0
        }),
    decreases upto,
{
    if upto > 0 {
        lemma_plan_is_in_paint_order(scene, upto - 1);
        let before = scene.render_plan_below(upto - 1);
        let added = scene.text_boxes[upto - 1].draw_items(upto - 1);
        let plan = scene.render_plan_below(upto);
        assert forall|k: int| before.len() <= k < plan.len() implies (#[trigger] plan[k]).frame()
            == Some(upto - 1) by {
            assert(plan[k] == added[k - before.len()]);
        }
        assert forall|k: int| 0 <= k < before.len() implies #[trigger] plan[k] == before[k] by {}
    }
}

/// The text of every box is in the plan, each once, and nothing shows a
/// selection in the plan of a scene without one: the plan is the
/// background and then the texts in paint order.
pub proof fn lemma_plan_without_selection(scene: CanvasObjectsView, upto: int)
    requires
        0 <= upto <= scene.text_boxes.len(),
        forall|i: int| 0 <= i < upto ==> !(#[trigger] scene.text_boxes[i]).is_selected,
    ensures
        scene.render_plan_below(upto).len() == 1 + upto,
        forall|i: int|
            0 <= i < upto ==> #[trigger] scene.render_plan_below(upto)[1 + i] == (
            DrawItemView::Text { index: i }),
    decreases upto,
{
    if upto > 0 {
        lemma_plan_without_selection(scene, upto - 1);
    }
}

/// What shows the selection is drawn right after the text of the selected
/// box and nowhere else: the plan of a scene with a consistent selection
/// has one text for each box, and seven items more if a box is selected.
pub proof fn lemma_plan_length(scene: CanvasObjectsView, upto: int)
    requires
        0 <= upto <= scene.text_boxes.len(),
        scene.selection_consistent(),
    ensures
        scene.render_plan_below(upto).len() == 1 + upto + (if scene.selected_index is Some
            && scene.selected_index->0 < upto {
            SELECTION_ITEMS as int
        } else {
            0
        }),
    decreases upto,
{
    if upto > 0 {
        lemma_plan_length(scene, upto - 1);
    }
}

impl TextBox {
    /// Appends to `plan` what shows that the box, which is at `index`, is
    /// selected.
    pub fn push_selection_items(&self, index: usize, plan: &mut Vec<DrawItem>)
        requires
            self.wf(),
        ensures
            draw_item_views(final(plan)@) == draw_item_views(old(plan)@) + self@.selection_items(
                index as int,
            ),
    {
        proof {
            lemma_extent_bounds(self@, true);
        }
        let b = self.get_bounds(true);
        let turn = self.handle_position(HandleType::Rotate);
        let top_left = self.handle_position(HandleType::ResizeTopLeft);
        let top_right = self.handle_position(HandleType::ResizeTopRight);
        let bottom_right = self.handle_position(HandleType::ResizeBottomRight);
        let bottom_left = self.handle_position(HandleType::ResizeBottomLeft);
        plan.push(
            DrawItem::Outline { index, left: b.left, top: b.top, right: b.right, bottom: b.bottom },
        );
        plan.push(
            DrawItem::CornerHandle { index, x: top_left.0, y: top_left.1, size: HANDLE_SIZE },
        );
        plan.push(
            DrawItem::CornerHandle { index, x: top_right.0, y: top_right.1, size: HANDLE_SIZE },
        );
        plan.push(
            DrawItem::CornerHandle {
                index,
                x: bottom_right.0,
                y: bottom_right.1,
                size: HANDLE_SIZE,
            },
        );
        plan.push(
            DrawItem::CornerHandle { index, x: bottom_left.0, y: bottom_left.1, size: HANDLE_SIZE },
        );
        plan.push(DrawItem::RotateHandle { index, x: turn.0, y: turn.1, radius: HANDLE_TOLERANCE });
        plan.push(
            DrawItem::Connector {
                index,
                x: turn.0,
                from_y: turn.1 + HANDLE_TOLERANCE,
                to_y: b.top,
            },
        );
        assert(draw_item_views(plan@) =~= draw_item_views(old(plan)@) + self@.selection_items(
            index as int,
        ));
    }
}

impl CanvasObjects {
    /// The plan of the scene: the background, then what is drawn for each
    /// box, in paint order. Making the plan changes nothing.
    pub fn render_plan(&self) -> (plan: Vec<DrawItem>)
        requires
            self.wf(),
        ensures
            draw_item_views(plan@) == self@.render_plan(),
    {
        let mut plan: Vec<DrawItem> = Vec::new();
        plan.push(DrawItem::Background { width: self.width, height: self.height });
        let n: usize = self.text_boxes.len();
        let mut i: usize = 0;
        while i < n
            invariant
                0 <= i <= n,
                n == self.text_boxes@.len(),
                self.wf(),
                draw_item_views(plan@) == self@.render_plan_below(i as int),
            decreases n - i,
        {
            assert(self@.text_boxes[i as int] == self.text_boxes@[i as int]@);
            let ghost before = plan@;
            plan.push(DrawItem::Text { index: i });
            assert(draw_item_views(plan@) =~= draw_item_views(before) + seq![
                DrawItemView::Text { index: i as int },
            ]);
            if self.text_boxes[i].is_selected {
                self.text_boxes[i].push_selection_items(i, &mut plan);
            }
            assert(draw_item_views(plan@) =~= self@.render_plan_below(i as int)
                + self@.text_boxes[i as int].draw_items(i as int));
            i += 1;
        }
        plan
    }
}

} // verus!
