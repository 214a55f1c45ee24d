//! The scene: the text boxes of a canvas in paint order, the one that is
//! selected, the background image and the size of the canvas.
//!
//! A box later in the sequence is painted over the earlier ones, and a
//! pointer press finds it first. The selection is held twice, as an index
//! and as a flag on each box; every operation keeps the two in step.

use vstd::prelude::*;
use crate::fixed::in_range;
use crate::text_box::{TextBox, TextBoxView, HandleType};

verus! {

/// Font size of the boxes that the scene makes itself, in pixels.
pub const DEFAULT_FONT_SIZE: u32 = 48;

/// The text boxes of a canvas and what is selected among them.
#[derive(Clone, Debug, PartialEq, Eq)]
pub struct CanvasObjects {
    /// Address of the background image.
    pub main_img_url: String,
    /// Width of the canvas in pixels.
    pub width: u32,
    /// Height of the canvas in pixels.
    pub height: u32,
    /// The boxes in paint order.
    pub text_boxes: Vec<TextBox>,
    /// Index of the selected box, if one is selected.
    pub selected_index: Option<usize>,
    /// Counts the changes made to the scene, starting over after the
    /// largest count. A drawing that was begun at one count and finishes at
    /// another is out of date.
    pub generation: u64,
}

/// The mathematical value of a [`CanvasObjects`].
pub struct CanvasObjectsView {
    pub main_img_url: Seq<char>,
    pub width: int,
    pub height: int,
    pub text_boxes: Seq<TextBoxView>,
    pub selected_index: Option<int>,
    pub generation: int,
}

/// The values of a sequence of boxes.
pub open spec fn text_box_views(boxes: Seq<TextBox>) -> Seq<TextBoxView> {
    Seq::new(boxes.len(), |i: int| boxes[i]@)
}

/// The value of an index that may be absent.
pub open spec fn index_view(index: Option<usize>) -> Option<int> {
    match index {
        Some(i) => Some(i as int),
        None => None,
    }
}

impl View for CanvasObjects {
    type V = CanvasObjectsView;

    open spec fn view(&self) -> CanvasObjectsView {
        CanvasObjectsView {
            main_img_url: self.main_img_url@,
            width: self.width as int,
            height: self.height as int,
            text_boxes: text_box_views(self.text_boxes@),
            selected_index: index_view(self.selected_index),
            generation: self.generation as int,
        }
    }
}

impl CanvasObjectsView {
    /// The index and the flags agree: a selected index is in range and the
    /// box there is the only one flagged; without one no box is flagged.
    pub open spec fn selection_consistent(self) -> bool {
        match self.selected_index {
            Some(s) => {
                &&& 0 <= s < self.text_boxes.len()
                &&& forall|i: int|
                    0 <= i < self.text_boxes.len() ==> (#[trigger] self.text_boxes[i]).is_selected
                        == (i == s)
            },
            None => forall|i: int|
                0 <= i < self.text_boxes.len() ==> !(#[trigger] self.text_boxes[i]).is_selected,
        }
    }

    /// Every box is well formed, the selection is consistent, and the
    /// numbers are within their ranges.
    pub open spec fn wf(self) -> bool {
        &&& 0 <= self.width <= u32::MAX
        &&& 0 <= self.height <= u32::MAX
        &&& 0 <= self.generation <= u64::MAX
        &&& forall|i: int| 0 <= i < self.text_boxes.len() ==> (#[trigger] self.text_boxes[i]).wf()
        &&& self.selection_consistent()
    }

    /// The scene with one more change counted.
    pub open spec fn touched(self) -> CanvasObjectsView {
        CanvasObjectsView {
            generation: if self.generation >= u64::MAX {
                0
            } else {
                self.generation + 1
            },
            ..self
        }
    }

    /// The scene a canvas of `width` by `height` pixels starts with: a top
    /// and a bottom caption, each three quarters across, one a quarter and
    /// one three quarters down; nothing selected.
    pub open spec fn new(width: int, height: int) -> CanvasObjectsView {
        CanvasObjectsView {
            main_img_url: "https://i.imgflip.com/4/30b1gx.jpg"@,
            width,
            height,
            text_boxes: seq![
                TextBoxView::new(
                    "top text"@,
                    width * 750_000,
                    height * 250_000,
                    DEFAULT_FONT_SIZE as int,
                    "Arial"@,
                    "bold"@,
                ),
                TextBoxView::new(
                    "bottom text"@,
                    width * 750_000,
                    height * 750_000,
                    DEFAULT_FONT_SIZE as int,
                    "Arial"@,
                    "bold"@,
                ),
            ],
            selected_index: None,
            generation: 0,
        }
    }

    /// The topmost box among the first `upto` that the canvas point
    /// `(x, y)` lies on.
    pub open spec fn hit_test_below(self, x: int, y: int, upto: int) -> Option<int>
        decreases upto,
    {
        if upto <= 0 {
            None
        } else if self.text_boxes[upto - 1].contains_point(x, y) {
            Some(upto - 1)
        } else {
            self.hit_test_below(x, y, upto - 1)
        }
    }

    /// The topmost box that the canvas point `(x, y)` lies on.
    pub open spec fn hit_test(self, x: int, y: int) -> Option<int> {
        self.hit_test_below(x, y, self.text_boxes.len() as int)
    }

    /// The handle of the selected box that the canvas point `(x, y)` takes
    /// hold of.
    pub open spec fn handle_at(self, x: int, y: int) -> Option<HandleType> {
        match self.selected_index {
            Some(s) => if 0 <= s < self.text_boxes.len() {
                self.text_boxes[s].handle_at(x, y)
            } else {
                None
            },
            None => None,
        }
    }

    /// The scene with the box at `index` selected and no other, or with
    /// none selected. An index out of range leaves the scene as it is.
    pub open spec fn select(self, index: Option<int>) -> CanvasObjectsView {
        if index is Some && !(0 <= index->0 < self.text_boxes.len()) {
            self
        } else {
            CanvasObjectsView {
                text_boxes: Seq::new(
                    self.text_boxes.len(),
                    |k: int| TextBoxView { is_selected: index == Some(k), ..self.text_boxes[k] },
                ),
                selected_index: index,
                ..self
            }.touched()
        }
    }

    /// The box that `add_text_box` appends: at the centre of the canvas.
    pub open spec fn added_text_box(self) -> TextBoxView {
        TextBoxView::new(
            "new text"@,
            self.width * 500_000,
            self.height * 500_000,
            DEFAULT_FONT_SIZE as int,
            "Ariel"@,
            "bold"@,
        )
    }

    /// The scene with a new box on top of the others. The selection stays.
    pub open spec fn add_text_box(self) -> CanvasObjectsView {
        CanvasObjectsView {
            text_boxes: self.text_boxes.push(self.added_text_box()),
            ..self
        }.touched()
    }

    /// What is selected once the box at `removed` is gone: nothing if it
    /// was the selected one; else the same box, which has moved down by one
    /// if it lay above.
    pub open spec fn selected_after_removal(selected: Option<int>, removed: int) -> Option<int> {
        match selected {
            Some(s) => if s == removed {
                None
            } else if s > removed {
                Some(s - 1)
            } else {
                Some(s)
            },
            None => None,
        }
    }

    /// The scene without the box at `index`. The last box of a scene is
    /// never removed, and an index out of range leaves the scene as it is.
    pub open spec fn remove_text_box(self, index: int) -> CanvasObjectsView {
        if self.text_boxes.len() > 1 && 0 <= index < self.text_boxes.len() {
            CanvasObjectsView {
                text_boxes: self.text_boxes.remove(index),
                selected_index: Self::selected_after_removal(self.selected_index, index),
                ..self
            }.touched()
        } else {
            self
        }
    }

    /// The scene with `text_box` in the place of the box at `index`.
    pub open spec fn with_text_box(self, index: int, text_box: TextBoxView) -> CanvasObjectsView {
        CanvasObjectsView { text_boxes: self.text_boxes.update(index, text_box), ..self }.touched()
    }

    /// The scene with the text of the box at `index` replaced. An index out
    /// of range leaves the scene as it is.
    pub open spec fn set_text(self, index: int, text: Seq<char>) -> CanvasObjectsView {
        if 0 <= index < self.text_boxes.len() {
            self.with_text_box(index, TextBoxView { text, ..self.text_boxes[index] })
        } else {
            self
        }
    }

    /// The scene over another background image.
    pub open spec fn set_main_img_url(self, url: Seq<char>) -> CanvasObjectsView {
        CanvasObjectsView { main_img_url: url, ..self }.touched()
    }

    /// No two boxes are flagged as selected.
    pub open spec fn at_most_one_selected(self) -> bool {
        forall|i: int, j: int|
            0 <= i < self.text_boxes.len() && 0 <= j < self.text_boxes.len()
                && #[trigger] self.text_boxes[i].is_selected
                && #[trigger] self.text_boxes[j].is_selected ==> i == j
    }

    /// The scene after one selection for each element of `indices`, in
    /// order.
    pub open spec fn select_each(self, indices: Seq<Option<int>>) -> CanvasObjectsView
        decreases indices.len(),
    {
        if indices.len() == 0 {
            self
        } else {
            self.select_each(indices.drop_last()).select(indices.last())
        }
    }
}

/// What `hit_test_below` finds lies on the point, and no box above it among
/// those searched does; where it finds nothing, none of them does.
pub proof fn lemma_hit_test_below(scene: CanvasObjectsView, x: int, y: int, upto: int)
    requires
        0 <= upto <= scene.text_boxes.len(),
    ensures
        match scene.hit_test_below(x, y, upto) {
            Some(i) => {
                &&& 0 <= i < upto
                &&& scene.text_boxes[i].contains_point(x, y)
                &&& forall|j: int|
                    i < j < upto ==> !(#[trigger] scene.text_boxes[j]).contains_point(x, y)
            },
            None => forall|j: int|
                0 <= j < upto ==> !(#[trigger] scene.text_boxes[j]).contains_point(x, y),
        },
    decreases upto,
{
    if upto > 0 && !scene.text_boxes[upto - 1].contains_point(x, y) {
        lemma_hit_test_below(scene, x, y, upto - 1);
    }
}

/// Of two boxes that a point lies on, the pointer never finds the lower
/// one: it finds the upper one, or one above that. Where no box above the
/// upper one holds the point, it is the upper one that is found.
pub proof fn lemma_topmost_wins(scene: CanvasObjectsView, x: int, y: int, i: int, j: int)
    requires
        0 <= i < j < scene.text_boxes.len(),
        scene.text_boxes[i].contains_point(x, y),
        scene.text_boxes[j].contains_point(x, y),
    ensures
        scene.hit_test(x, y) is Some,
        scene.hit_test(x, y)->0 >= j,
        (forall|k: int|
            j < k < scene.text_boxes.len() ==> !(#[trigger] scene.text_boxes[k]).contains_point(
                x,
                y,
            )) ==> scene.hit_test(x, y) == Some(j),
{
    lemma_hit_test_below(scene, x, y, scene.text_boxes.len() as int);
}

/// After a selection the index and the flags agree and at most one box is
/// flagged, whatever the scene was before and whichever box, or none, was
/// asked for, as long as the scene has such a box.
pub proof fn lemma_select_is_exclusive(scene: CanvasObjectsView, index: Option<int>)
    requires
        index matches Some(i) ==> 0 <= i < scene.text_boxes.len(),
    ensures
        scene.select(index).selected_index == index,
        scene.select(index).selection_consistent(),
        scene.select(index).at_most_one_selected(),
{
}

/// A selection keeps a well-formed scene well formed, and a consistent
/// selection consistent, also where the index is out of range.
pub proof fn lemma_select_keeps_wf(scene: CanvasObjectsView, index: Option<int>)
    ensures
        scene.selection_consistent() ==> scene.select(index).selection_consistent(),
        scene.wf() ==> scene.select(index).wf(),
        scene.select(index).text_boxes.len() == scene.text_boxes.len(),
{
}

/// A scene whose index and flags agree has at most one box flagged.
pub proof fn lemma_consistent_is_exclusive(scene: CanvasObjectsView)
    requires
        scene.selection_consistent(),
    ensures
        scene.at_most_one_selected(),
{
}

/// After any sequence of selections, at most one box is flagged as
/// selected, and it is the one that the selected index names.
pub proof fn lemma_selection_exclusive(scene: CanvasObjectsView, indices: Seq<Option<int>>)
    requires
        scene.selection_consistent(),
    ensures
        scene.select_each(indices).selection_consistent(),
        scene.select_each(indices).at_most_one_selected(),
        scene.select_each(indices).text_boxes.len() == scene.text_boxes.len(),
    decreases indices.len(),
{
    if indices.len() > 0 {
        lemma_selection_exclusive(scene, indices.drop_last());
        lemma_select_keeps_wf(scene.select_each(indices.drop_last()), indices.last());
    }
    lemma_consistent_is_exclusive(scene.select_each(indices));
}

/// A new box on top keeps a well-formed scene well formed.
pub proof fn lemma_add_keeps_wf(scene: CanvasObjectsView)
    requires
        scene.wf(),
    ensures
        scene.add_text_box().wf(),
        scene.add_text_box().selected_index == scene.selected_index,
        scene.add_text_box().text_boxes.len() == scene.text_boxes.len() + 1,
{
}

/// Another text in a box keeps a well-formed scene well formed.
pub proof fn lemma_set_text_keeps_wf(scene: CanvasObjectsView, index: int, text: Seq<char>)
    requires
        scene.wf(),
    ensures
        scene.set_text(index, text).wf(),
{
}

/// Removing a box never leaves a scene that had a box without one, and
/// takes away one box at most.
pub proof fn lemma_remove_keeps_one(scene: CanvasObjectsView, index: int)
    ensures
        scene.text_boxes.len() >= 1 ==> scene.remove_text_box(index).text_boxes.len() >= 1,
        scene.text_boxes.len() - 1 <= scene.remove_text_box(index).text_boxes.len()
            <= scene.text_boxes.len(),
{
}

/// Removing a box keeps a well-formed scene well formed: the box that was
/// selected stays the only one flagged, unless it is the one removed.
pub proof fn lemma_remove_keeps_wf(scene: CanvasObjectsView, index: int)
    requires
        scene.wf(),
    ensures
        scene.remove_text_box(index).wf(),
{
}

impl CanvasObjects {
    /// Every box is well formed and the selection is consistent.
    pub open spec fn wf(&self) -> bool {
        self@.wf()
    }

    /// Whether every box is well formed and the selection is consistent.
    pub fn is_wf(&self) -> (ok: bool)
        ensures
            ok == self.wf(),
    {
        match self.selected_index {
            Some(s) => {
                if s >= self.text_boxes.len() {
                    return false;
                }
            },
            None => {},
        }
        let n: usize = self.text_boxes.len();
        let mut i: usize = 0;
        while i < n
            invariant
                0 <= i <= n,
                n == self.text_boxes@.len(),
                self.selected_index matches Some(s) ==> s < n,
                forall|k: int| 0 <= k < i ==> (#[trigger] self@.text_boxes[k]).wf(),
                forall|k: int|
                    0 <= k < i ==> (#[trigger] self@.text_boxes[k]).is_selected == (
                    self@.selected_index == Some(k)),
            decreases n - i,
        {
            assert(self@.text_boxes[i as int] == self.text_boxes@[i as int]@);
            let chosen: bool = match self.selected_index {
                Some(s) => s == i,
                None => false,
            };
            if !self.text_boxes[i].is_wf() || self.text_boxes[i].is_selected != chosen {
                return false;
            }
            i += 1;
        }
        true
    }

    /// The scene a canvas of `width` by `height` pixels starts with.
    pub fn new(width: u32, height: u32) -> (scene: CanvasObjects)
        ensures
            scene@ == CanvasObjectsView::new(width as int, height as int),
            scene.wf(),
    {
        let across: i64 = width as i64 * 750_000;
        let top = TextBox::new(
            "top text".to_owned(),
            across,
            height as i64 * 250_000,
            DEFAULT_FONT_SIZE,
            "Arial".to_owned(),
            "bold".to_owned(),
        );
        let bottom = TextBox::new(
            "bottom text".to_owned(),
            across,
            height as i64 * 750_000,
            DEFAULT_FONT_SIZE,
            "Arial".to_owned(),
            "bold".to_owned(),
        );
        let mut text_boxes: Vec<TextBox> = Vec::new();
        text_boxes.push(top);
        text_boxes.push(bottom);
        let scene = CanvasObjects {
            main_img_url: "https://i.imgflip.com/4/30b1gx.jpg".to_owned(),
            width,
            height,
            text_boxes,
            selected_index: None,
            generation: 0,
        };
        assert(scene@.text_boxes =~= CanvasObjectsView::new(
            width as int,
            height as int,
        ).text_boxes);
        scene
    }

    /// Whether a drawing begun when the scene's count of changes was
    /// `generation` still shows the scene as it is.
    pub fn is_current(&self, generation: u64) -> (current: bool)
        ensures
            current == (generation == self@.generation),
    {
        generation == self.generation
    }

    /// The topmost box that the canvas point `(x, y)` lies on: the boxes are
    /// tried from the last painted to the first.
    pub fn get_text_box_at_position(&self, x: i64, y: i64) -> (hit: Option<usize>)
        requires
            self.wf(),
            in_range(x as int),
            in_range(y as int),
        ensures
            index_view(hit) == self@.hit_test(x as int, y as int),
            hit matches Some(i) ==> i < self.text_boxes.len(),
    {
        let mut i: usize = self.text_boxes.len();
        while i > 0
            invariant
                0 <= i <= self.text_boxes.len(),
                self.wf(),
                in_range(x as int),
                in_range(y as int),
                self@.hit_test(x as int, y as int) == self@.hit_test_below(
                    x as int,
                    y as int,
                    i as int,
                ),
            decreases i,
        {
            i -= 1;
            if self.text_boxes[i].contains_point(x, y) {
                return Some(i);
            }
        }
        None
    }

    /// The handle of the selected box that the canvas point `(x, y)` takes
    /// hold of.
    pub fn select_handle_at(&self, x: i64, y: i64) -> (found: Option<HandleType>)
        requires
            self.wf(),
            in_range(x as int),
            in_range(y as int),
        ensures
            found == self@.handle_at(x as int, y as int),
    {
        match self.selected_index {
            Some(s) => {
                if s < self.text_boxes.len() {
                    self.text_boxes[s].get_handle_at_position(x, y)
                } else {
                    None
                }
            },
            None => None,
        }
    }

    /// Selects the box at `index` and no other, or none. An index out of
    /// range leaves the scene as it is.
    pub fn select_text_box(&mut self, index: Option<usize>)
        requires
            old(self).wf(),
        ensures
            final(self)@ == old(self)@.select(index_view(index)),
            final(self).wf(),
    {
        match index {
            Some(i) => {
                if i >= self.text_boxes.len() {
                    return ;
                }
            },
            None => {},
        }
        let n: usize = self.text_boxes.len();
        let mut j: usize = 0;
        while j < n
            invariant
                0 <= j <= n,
                n == self.text_boxes@.len(),
                n == old(self).text_boxes@.len(),
                self.main_img_url == old(self).main_img_url,
                self.width == old(self).width,
                self.height == old(self).height,
                self.selected_index == old(self).selected_index,
                self.generation == old(self).generation,
                forall|k: int|
                    0 <= k < j ==> (#[trigger] self.text_boxes@[k])@ == (TextBoxView {
                        is_selected: index_view(index) == Some(k),
                        ..old(self).text_boxes@[k]@
                    }),
                forall|k: int|
                    j <= k < n ==> #[trigger] self.text_boxes@[k] == old(self).text_boxes@[k],
            decreases n - j,
        {
            let chosen: bool = match index {
                Some(i) => i == j,
                None => false,
            };
            self.text_boxes[j].is_selected = chosen;
            j += 1;
        }
        self.selected_index = index;
        self.touch();
        proof {
            assert(self@.text_boxes =~= old(self)@.select(index_view(index)).text_boxes);
            lemma_select_keeps_wf(old(self)@, index_view(index));
        }
    }

    /// Puts a new box on top of the others, at the centre of the canvas.
    /// The selection stays as it is.
    pub fn add_text_box(&mut self)
        requires
            old(self).wf(),
        ensures
            final(self)@ == old(self)@.add_text_box(),
            final(self).wf(),
    {
        let text_box = TextBox::new(
            "new text".to_owned(),
            self.width as i64 * 500_000,
            self.height as i64 * 500_000,
            DEFAULT_FONT_SIZE,
            "Ariel".to_owned(),
            "bold".to_owned(),
        );
        self.text_boxes.push(text_box);
        self.touch();
        proof {
            assert(self@.text_boxes =~= old(self)@.add_text_box().text_boxes);
        }
    }

    /// Removes the box at `index`, unless it is the last box of the scene
    /// or there is no such box. Where the selected box is removed, nothing
    /// is selected afterwards.
    pub fn remove_text_box(&mut self, index: usize)
        requires
            old(self).wf(),
        ensures
            final(self)@ == old(self)@.remove_text_box(index as int),
            final(self).wf(),
    {
        if self.text_boxes.len() > 1 && index < self.text_boxes.len() {
            self.text_boxes.remove(index);
            self.selected_index = match self.selected_index {
                Some(s) => if s == index {
                    None
                } else if s > index {
                    Some((s - 1) as usize)
                } else {
                    Some(s)
                },
                None => None,
            };
            self.touch();
            proof {
                assert(self@.text_boxes =~= old(self)@.remove_text_box(index as int).text_boxes);
                lemma_remove_keeps_wf(old(self)@, index as int);
            }
        }
    }

    /// Replaces the text of the box at `index`. An index out of range
    /// leaves the scene as it is.
    pub fn set_text(&mut self, index: usize, text: String)
        requires
            old(self).wf(),
        ensures
            final(self)@ == old(self)@.set_text(index as int, text@),
            final(self).wf(),
    {
        if index < self.text_boxes.len() {
            self.text_boxes[index].text = text;
            self.touch();
            proof {
                assert(self@.text_boxes =~= old(self)@.set_text(index as int, text@).text_boxes);
            }
        }
    }

    /// Puts the scene over another background image.
    pub fn set_main_img_url(&mut self, url: String)
        requires
            old(self).wf(),
        ensures
            final(self)@ == old(self)@.set_main_img_url(url@),
            final(self).wf(),
    {
        self.main_img_url = url;
        self.touch();
    }

    /// Counts one more change.
    pub fn touch(&mut self)
        ensures
            final(self)@ == old(self)@.touched(),
            final(self).text_boxes == old(self).text_boxes,
    {
        self.generation = if self.generation == u64::MAX {
            0
        } else {
            self.generation + 1
        };
    }
}

} // verus!
