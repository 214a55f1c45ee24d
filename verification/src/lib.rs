//! The scene model and pointer interaction engine of a canvas editor: text
//! boxes over a background image that can be dragged, resized and rotated
//! with the pointer.
//!
//! The library holds no surface and does no input or output. It is told
//! where the pointer is, changes the scene, and says what is to be drawn.
//!
//! All numbers are whole. A length, a coordinate and a scale factor are
//! counts of millionths ([`fixed`]); a rotation is the cosine and sine of its
//! angle in millionths ([`rotation`]). The box and its geometry are in
//! [`text_box`], the boxes of a canvas and their selection in
//! [`canvas_objects`], the gesture in progress in [`interaction_mode`], the
//! pointer events in [`meme_canvas`], and the plan of a drawing in
//! [`render`].
//!
//! Every type has a mathematical value, its view, and every operation says
//! what it does to that value. What the operations keep true of every state
//! is stated in the proof functions beside them.

pub mod fixed;
pub mod rotation;
pub mod text_box;
pub mod interaction_mode;
pub mod canvas_objects;
pub mod meme_canvas;
pub mod render;
