use memetopia::canvas_objects::CanvasObjects;
use memetopia::fixed::{pixels, UNIT};
use memetopia::interaction_mode::InteractionMode;
use memetopia::meme_canvas::MemeCanvas;
use memetopia::rotation::Rotation;
use memetopia::text_box::{HandleType, TextBox};

fn default_canvas() -> MemeCanvas {
    MemeCanvas { scene: CanvasObjects::new(500, 500), interaction_mode: InteractionMode::Idle }
}

/// One box of 300 by 100 pixels at the centre of a 500 by 500 canvas.
fn one_box() -> MemeCanvas {
    let boxes = vec![TextBox::new(
        "abcde".to_owned(),
        pixels(250),
        pixels(250),
        100,
        "Arial".to_owned(),
        "bold".to_owned(),
    )];
    MemeCanvas::new(500, 500, "https://example.com/doge.png".to_owned(), boxes)
}

fn selected_flags(canvas: &MemeCanvas) -> Vec<bool> {
    canvas.scene.text_boxes.iter().map(|tb| tb.is_selected).collect()
}

#[test]
fn new_session_has_nothing_selected_and_no_gesture() {
    let canvas = one_box();
    assert_eq!(canvas.scene.width, 500);
    assert_eq!(canvas.scene.height, 500);
    assert_eq!(canvas.scene.main_img_url, "https://example.com/doge.png");
    assert_eq!(canvas.scene.text_boxes.len(), 1);
    assert_eq!(canvas.scene.text_boxes[0].text, "abcde");
    assert_eq!(canvas.scene.selected_index, None);
    assert_eq!(canvas.scene.generation, 0);
    assert_eq!(canvas.interaction_mode, InteractionMode::Idle);
}

#[test]
fn end_to_end_scenario() {
    let mut canvas = default_canvas();
    assert_eq!(canvas.scene.text_boxes[0].text, "top text");
    assert_eq!(canvas.get_textbox_position(0), (pixels(375), pixels(125)));
    assert_eq!(canvas.scene.text_boxes[1].text, "bottom text");
    assert_eq!(canvas.get_textbox_position(1), (pixels(375), pixels(375)));
    assert_eq!(canvas.scene.text_boxes[0].style.size, 48);
    assert_eq!(canvas.scene.text_boxes[1].style.size, 48);

    canvas.mouse_down(pixels(375), pixels(125));
    assert_eq!(canvas.scene.selected_index, Some(0));
    assert_eq!(selected_flags(&canvas), vec![true, false]);
    assert_eq!(canvas.interaction_mode, InteractionMode::Dragging { index: 0, offset: (0, 0) });

    assert!(canvas.mouse_move(pixels(400), pixels(150)));
    assert_eq!(canvas.get_textbox_position(0), (pixels(400), pixels(150)));
    assert_eq!(canvas.get_textbox_position(1), (pixels(375), pixels(375)));
    assert_eq!(canvas.interaction_mode, InteractionMode::Dragging { index: 0, offset: (0, 0) });

    canvas.mouse_up();
    assert_eq!(canvas.interaction_mode, InteractionMode::Idle);
    assert_eq!(canvas.scene.selected_index, Some(0));

    canvas.add_text_box();
    assert_eq!(canvas.scene.text_boxes.len(), 3);
    assert_eq!(canvas.get_textbox_position(2), (pixels(250), pixels(250)));
    assert_eq!(canvas.scene.selected_index, Some(0));

    canvas.remove_text_box(0);
    assert_eq!(canvas.scene.text_boxes.len(), 2);
    assert_eq!(canvas.scene.selected_index, None);
    assert_eq!(selected_flags(&canvas), vec![false, false]);
    assert_eq!(canvas.scene.text_boxes[0].text, "bottom text");
    assert_eq!(canvas.scene.text_boxes[1].text, "new text");

    canvas.remove_text_box(0);
    assert_eq!(canvas.scene.text_boxes.len(), 1);
    canvas.remove_text_box(0);
    assert_eq!(canvas.scene.text_boxes.len(), 1);
    assert_eq!(canvas.scene.text_boxes[0].text, "new text");
}

#[test]
fn press_off_the_centre_keeps_the_grab_offset() {
    let mut canvas = default_canvas();
    canvas.mouse_down(pixels(385), pixels(120));
    assert_eq!(
        canvas.interaction_mode,
        InteractionMode::Dragging { index: 0, offset: (pixels(10), pixels(-5)) }
    );
    // The box moves with the pointer, by (+25, +25).
    canvas.mouse_move(pixels(410), pixels(145));
    assert_eq!(canvas.get_textbox_position(0), (pixels(400), pixels(150)));
    canvas.mouse_move(pixels(385), pixels(120));
    assert_eq!(canvas.get_textbox_position(0), (pixels(375), pixels(125)));
}

#[test]
fn drag_clamps_to_the_canvas() {
    let mut canvas = default_canvas();
    canvas.mouse_down(pixels(375), pixels(125));
    assert!(canvas.mouse_move(pixels(-50), pixels(-50)));
    let (x, y) = canvas.get_textbox_position(0);
    assert_eq!(x, 0);
    assert!(y >= pixels(48));
    assert_eq!(y, pixels(48));
    canvas.mouse_move(pixels(9_999), pixels(9_999));
    assert_eq!(canvas.get_textbox_position(0), (pixels(500), pixels(500)));
}

#[test]
fn drag_clamps_to_the_size_of_this_canvas() {
    let boxes = vec![TextBox::new(
        "abcde".to_owned(),
        pixels(100),
        pixels(100),
        20,
        "Arial".to_owned(),
        "bold".to_owned(),
    )];
    let mut canvas = MemeCanvas::new(800, 300, "u".to_owned(), boxes);
    canvas.mouse_down(pixels(100), pixels(100));
    canvas.mouse_move(pixels(700), pixels(290));
    assert_eq!(canvas.get_textbox_position(0), (pixels(700), pixels(290)));
    canvas.mouse_move(pixels(900), pixels(400));
    assert_eq!(canvas.get_textbox_position(0), (pixels(800), pixels(300)));
    canvas.mouse_move(pixels(-1), pixels(19));
    assert_eq!(canvas.get_textbox_position(0), (0, pixels(20)));
}

#[test]
fn drag_with_an_offset_clamps_the_centre_not_the_pointer() {
    let mut canvas = default_canvas();
    canvas.mouse_down(pixels(385), pixels(120));
    canvas.mouse_move(pixels(5), pixels(40));
    // The centre would be at (-5, 45).
    assert_eq!(canvas.get_textbox_position(0), (0, pixels(48)));
    canvas.mouse_move(pixels(10), pixels(43));
    assert_eq!(canvas.get_textbox_position(0), (0, pixels(48)));
    canvas.mouse_move(pixels(11), pixels(44));
    assert_eq!(canvas.get_textbox_position(0), (pixels(1), pixels(49)));
}

#[test]
fn press_on_nothing_clears_the_selection() {
    let mut canvas = default_canvas();
    canvas.mouse_down(pixels(375), pixels(125));
    canvas.mouse_up();
    canvas.mouse_down(pixels(10), pixels(250));
    assert_eq!(canvas.scene.selected_index, None);
    assert_eq!(selected_flags(&canvas), vec![false, false]);
    assert_eq!(canvas.interaction_mode, InteractionMode::Idle);
}

#[test]
fn press_on_another_box_moves_the_selection() {
    let mut canvas = default_canvas();
    canvas.mouse_down(pixels(375), pixels(125));
    canvas.mouse_up();
    canvas.mouse_down(pixels(375), pixels(375));
    assert_eq!(canvas.scene.selected_index, Some(1));
    assert_eq!(selected_flags(&canvas), vec![false, true]);
    assert_eq!(canvas.interaction_mode, InteractionMode::Dragging { index: 1, offset: (0, 0) });
}

#[test]
fn press_on_overlapping_boxes_takes_the_topmost() {
    let mut canvas = default_canvas();
    canvas.scene.text_boxes[1].y = pixels(140);
    canvas.mouse_down(pixels(375), pixels(130));
    assert_eq!(canvas.scene.selected_index, Some(1));
    assert_eq!(
        canvas.interaction_mode,
        InteractionMode::Dragging { index: 1, offset: (0, pixels(-10)) }
    );
}

#[test]
fn move_without_a_gesture_changes_nothing() {
    let mut canvas = default_canvas();
    assert!(!canvas.mouse_move(pixels(400), pixels(150)));
    assert_eq!(canvas.get_textbox_position(0), (pixels(375), pixels(125)));
    assert_eq!(canvas.scene.generation, 0);
    canvas.mouse_down(pixels(375), pixels(125));
    canvas.mouse_up();
    let generation = canvas.scene.generation;
    assert!(!canvas.mouse_move(pixels(400), pixels(150)));
    assert_eq!(canvas.get_textbox_position(0), (pixels(375), pixels(125)));
    assert_eq!(canvas.scene.generation, generation);
}

#[test]
fn release_and_leave_end_the_gesture() {
    let mut canvas = default_canvas();
    canvas.mouse_down(pixels(375), pixels(125));
    assert_ne!(canvas.interaction_mode, InteractionMode::Idle);
    canvas.mouse_leave();
    assert_eq!(canvas.interaction_mode, InteractionMode::Idle);
    assert_eq!(canvas.scene.selected_index, Some(0));
    canvas.mouse_down(pixels(375), pixels(125));
    canvas.mouse_up();
    assert_eq!(canvas.interaction_mode, InteractionMode::Idle);
    canvas.mouse_up();
    canvas.mouse_leave();
    assert_eq!(canvas.interaction_mode, InteractionMode::Idle);
    assert_eq!(canvas.scene.selected_index, Some(0));
}

#[test]
fn release_does_not_count_as_a_change() {
    let mut canvas = default_canvas();
    canvas.mouse_down(pixels(375), pixels(125));
    let generation = canvas.scene.generation;
    canvas.mouse_up();
    canvas.mouse_leave();
    assert_eq!(canvas.scene.generation, generation);
}

#[test]
fn every_move_of_a_gesture_is_counted() {
    let mut canvas = default_canvas();
    canvas.mouse_down(pixels(375), pixels(125));
    assert_eq!(canvas.scene.generation, 1);
    canvas.mouse_move(pixels(376), pixels(125));
    assert_eq!(canvas.scene.generation, 2);
    canvas.mouse_move(pixels(376), pixels(125));
    assert_eq!(canvas.scene.generation, 3);
    assert!(!canvas.scene.is_current(2));
    assert!(canvas.scene.is_current(3));
}

#[test]
fn press_on_a_corner_of_the_selected_box_starts_resizing() {
    let mut canvas = one_box();
    canvas.mouse_down(pixels(250), pixels(250));
    canvas.mouse_up();
    let generation = canvas.scene.generation;
    canvas.mouse_down(pixels(400), pixels(300));
    assert_eq!(
        canvas.interaction_mode,
        InteractionMode::Resizing {
            index: 0,
            handle: HandleType::ResizeBottomRight,
            start_pos: (pixels(400), pixels(300)),
        }
    );
    assert_eq!(canvas.scene.selected_index, Some(0));
    assert_eq!(canvas.scene.generation, generation);
}

#[test]
fn press_on_a_corner_of_a_box_that_is_not_selected_drags_it() {
    let mut canvas = one_box();
    canvas.mouse_down(pixels(400), pixels(300));
    assert_eq!(
        canvas.interaction_mode,
        InteractionMode::Dragging { index: 0, offset: (pixels(150), pixels(50)) }
    );
    assert_eq!(canvas.scene.selected_index, Some(0));
}

#[test]
fn press_on_a_handle_outside_the_box_takes_the_handle() {
    let mut canvas = one_box();
    canvas.mouse_down(pixels(250), pixels(250));
    canvas.mouse_up();
    // Three pixels outside the corner: off the box, on the handle.
    canvas.mouse_down(pixels(403), pixels(303));
    assert_eq!(
        canvas.interaction_mode,
        InteractionMode::Resizing {
            index: 0,
            handle: HandleType::ResizeBottomRight,
            start_pos: (pixels(403), pixels(303)),
        }
    );
    assert_eq!(canvas.scene.selected_index, Some(0));
}

#[test]
fn select_handle_reports_the_handle_that_it_found() {
    let mut canvas = one_box();
    assert_eq!(canvas.select_handle(pixels(400), pixels(300)), None);
    assert_eq!(canvas.interaction_mode, InteractionMode::Idle);
    canvas.select_text_box(Some(0));
    assert_eq!(canvas.select_handle(pixels(250), pixels(250)), None);
    assert_eq!(canvas.interaction_mode, InteractionMode::Idle);
    assert_eq!(canvas.select_handle(pixels(100), pixels(200)), Some(HandleType::ResizeTopLeft));
    assert_eq!(
        canvas.interaction_mode,
        InteractionMode::Resizing {
            index: 0,
            handle: HandleType::ResizeTopLeft,
            start_pos: (pixels(100), pixels(200)),
        }
    );
    assert_eq!(canvas.select_handle(pixels(250), pixels(180)), Some(HandleType::Rotate));
    assert_eq!(
        canvas.interaction_mode,
        InteractionMode::Rotating { index: 0, start_angle: Rotation { cos: 0, sin: -UNIT } }
    );
}

#[test]
fn resize_from_bottom_right_adds_a_fifth() {
    let mut canvas = one_box();
    canvas.select_text_box(Some(0));
    canvas.mouse_down(pixels(400), pixels(300));
    assert!(canvas.mouse_move(pixels(430), pixels(310)));
    let tb = &canvas.scene.text_boxes[0];
    assert_eq!((tb.scale_x, tb.scale_y), (1_200_000, 1_200_000));
    assert_eq!((tb.x, tb.y), (pixels(250), pixels(250)));
    assert_eq!(tb.rotation, Rotation::identity());
}

#[test]
fn resize_from_top_left_takes_a_fifth_away() {
    let mut canvas = one_box();
    canvas.select_text_box(Some(0));
    canvas.mouse_down(pixels(100), pixels(200));
    assert!(canvas.mouse_move(pixels(130), pixels(210)));
    let tb = &canvas.scene.text_boxes[0];
    assert_eq!((tb.scale_x, tb.scale_y), (800_000, 800_000));
}

#[test]
fn resize_from_top_left_outward_grows_the_box() {
    let mut canvas = one_box();
    canvas.select_text_box(Some(0));
    canvas.mouse_down(pixels(100), pixels(200));
    canvas.mouse_move(pixels(70), pixels(190));
    let tb = &canvas.scene.text_boxes[0];
    assert_eq!((tb.scale_x, tb.scale_y), (1_200_000, 1_200_000));
}

#[test]
fn resize_measures_the_way_of_the_pointer_from_the_press() {
    let mut canvas = one_box();
    canvas.select_text_box(Some(0));
    canvas.mouse_down(pixels(400), pixels(300));
    canvas.mouse_move(pixels(430), pixels(310));
    // The pointer rests: its way from the press is still (30, 10), and the
    // same growth is added once more.
    canvas.mouse_move(pixels(430), pixels(310));
    let tb = &canvas.scene.text_boxes[0];
    assert_eq!((tb.scale_x, tb.scale_y), (1_400_000, 1_400_000));
    // Back at the press the way is nothing.
    canvas.mouse_move(pixels(400), pixels(300));
    let tb = &canvas.scene.text_boxes[0];
    assert_eq!((tb.scale_x, tb.scale_y), (1_400_000, 1_400_000));
}

#[test]
fn resize_from_the_other_corners_changes_nothing() {
    for (x, y, handle) in [
        (400, 200, HandleType::ResizeTopRight),
        (100, 300, HandleType::ResizeBottomLeft),
    ] {
        let mut canvas = one_box();
        canvas.select_text_box(Some(0));
        canvas.mouse_down(pixels(x), pixels(y));
        assert_eq!(
            canvas.interaction_mode,
            InteractionMode::Resizing { index: 0, handle, start_pos: (pixels(x), pixels(y)) }
        );
        assert!(canvas.mouse_move(pixels(x + 30), pixels(y + 10)));
        let tb = &canvas.scene.text_boxes[0];
        assert_eq!((tb.scale_x, tb.scale_y), (UNIT, UNIT));
    }
}

#[test]
fn press_on_the_rotation_handle_starts_rotating() {
    let mut canvas = one_box();
    canvas.select_text_box(Some(0));
    canvas.mouse_down(pixels(250), pixels(180));
    assert_eq!(
        canvas.interaction_mode,
        InteractionMode::Rotating { index: 0, start_angle: Rotation { cos: 0, sin: -UNIT } }
    );
    assert_eq!(canvas.scene.text_boxes[0].rotation, Rotation::identity());
}

#[test]
fn rotating_turns_the_box_with_the_pointer() {
    let mut canvas = one_box();
    canvas.select_text_box(Some(0));
    canvas.mouse_down(pixels(250), pixels(180));
    // From above the centre to its right: a quarter turn.
    assert!(canvas.mouse_move(pixels(320), pixels(250)));
    assert_eq!(canvas.scene.text_boxes[0].rotation, Rotation { cos: 0, sin: UNIT });
    // To below the centre: half a turn.
    canvas.mouse_move(pixels(250), pixels(320));
    assert_eq!(canvas.scene.text_boxes[0].rotation, Rotation { cos: -UNIT, sin: 0 });
    // To the left of the centre: three quarters.
    canvas.mouse_move(pixels(10), pixels(250));
    assert_eq!(canvas.scene.text_boxes[0].rotation, Rotation { cos: 0, sin: -UNIT });
    // Back above the centre: as it was.
    canvas.mouse_move(pixels(250), pixels(5));
    assert_eq!(canvas.scene.text_boxes[0].rotation, Rotation::identity());
    let tb = &canvas.scene.text_boxes[0];
    assert_eq!((tb.x, tb.y), (pixels(250), pixels(250)));
    assert_eq!((tb.scale_x, tb.scale_y), (UNIT, UNIT));
}

#[test]
fn rotating_by_an_eighth_of_a_turn() {
    let mut canvas = one_box();
    canvas.select_text_box(Some(0));
    canvas.mouse_down(pixels(250), pixels(180));
    canvas.mouse_move(pixels(350), pixels(150));
    let r = canvas.scene.text_boxes[0].rotation;
    assert_eq!(r, Rotation { cos: 707_106, sin: 707_106 });
}

#[test]
fn a_second_rotation_starts_from_the_first() {
    let mut canvas = one_box();
    canvas.select_text_box(Some(0));
    canvas.mouse_down(pixels(250), pixels(180));
    canvas.mouse_move(pixels(320), pixels(250));
    canvas.mouse_up();
    // The handle has turned with the box: it is to the right of the centre
    // now, and where it was the turned box itself lies.
    canvas.mouse_down(pixels(250), pixels(180));
    assert_eq!(
        canvas.interaction_mode,
        InteractionMode::Dragging { index: 0, offset: (0, pixels(-70)) }
    );
    canvas.mouse_up();
    assert_eq!(canvas.scene.selected_index, Some(0));
    canvas.mouse_down(pixels(320), pixels(250));
    assert_eq!(
        canvas.interaction_mode,
        InteractionMode::Rotating { index: 0, start_angle: Rotation { cos: 0, sin: -UNIT } }
    );
    // Pressing turns nothing.
    assert_eq!(canvas.scene.text_boxes[0].rotation, Rotation { cos: 0, sin: UNIT });
    canvas.mouse_move(pixels(250), pixels(320));
    assert_eq!(canvas.scene.text_boxes[0].rotation, Rotation { cos: -UNIT, sin: 0 });
}

#[test]
fn a_turned_box_is_found_where_it_is_drawn() {
    let mut canvas = one_box();
    canvas.select_text_box(Some(0));
    canvas.mouse_down(pixels(250), pixels(180));
    canvas.mouse_move(pixels(320), pixels(250));
    canvas.mouse_up();
    canvas.select_text_box(None);
    // The box is 100 wide and 300 high now.
    assert_eq!(canvas.get_text_box_at_position(pixels(250), pixels(390)), Some(0));
    assert_eq!(canvas.get_text_box_at_position(pixels(390), pixels(250)), None);
    assert_eq!(canvas.get_text_box_at_position(pixels(300), pixels(400)), Some(0));
    assert_eq!(canvas.get_text_box_at_position(pixels(301), pixels(400)), None);
}

#[test]
fn rotation_handle_wins_over_a_corner_on_press() {
    let boxes =
        vec![TextBox::new("a".to_owned(), pixels(100), pixels(100), 20, "f".to_owned(), "e".to_owned())];
    let mut canvas = MemeCanvas::new(500, 500, "u".to_owned(), boxes);
    canvas.scene.text_boxes[0].scale_x = 0;
    canvas.scene.text_boxes[0].scale_y = -UNIT;
    canvas.select_text_box(Some(0));
    canvas.mouse_down(pixels(100), pixels(90));
    assert_eq!(
        canvas.interaction_mode,
        InteractionMode::Rotating { index: 0, start_angle: Rotation { cos: 0, sin: -UNIT } }
    );
}

#[test]
fn gesture_ends_when_its_box_is_removed() {
    let mut canvas = default_canvas();
    canvas.mouse_down(pixels(375), pixels(375));
    assert_eq!(canvas.interaction_mode, InteractionMode::Dragging { index: 1, offset: (0, 0) });
    canvas.remove_text_box(1);
    assert_eq!(canvas.interaction_mode, InteractionMode::Idle);
    assert_eq!(canvas.scene.selected_index, None);
    assert!(!canvas.mouse_move(pixels(10), pixels(10)));
    assert_eq!(canvas.get_textbox_position(0), (pixels(375), pixels(125)));
}

#[test]
fn gesture_follows_its_box_when_one_below_is_removed() {
    let mut canvas = default_canvas();
    canvas.mouse_down(pixels(385), pixels(375));
    canvas.remove_text_box(0);
    assert_eq!(
        canvas.interaction_mode,
        InteractionMode::Dragging { index: 0, offset: (pixels(10), 0) }
    );
    assert_eq!(canvas.scene.selected_index, Some(0));
    assert_eq!(canvas.scene.text_boxes[0].text, "bottom text");
    // Alone in the scene, the box cannot be removed and the gesture goes on.
    canvas.remove_text_box(0);
    assert!(canvas.mouse_move(pixels(110), pixels(100)));
    assert_eq!(canvas.get_textbox_position(0), (pixels(100), pixels(100)));
}

#[test]
fn gesture_stays_when_a_box_above_is_removed() {
    let mut canvas = default_canvas();
    canvas.add_text_box();
    canvas.mouse_down(pixels(375), pixels(125));
    canvas.remove_text_box(2);
    assert_eq!(canvas.interaction_mode, InteractionMode::Dragging { index: 0, offset: (0, 0) });
    canvas.remove_text_box(7);
    assert_eq!(canvas.interaction_mode, InteractionMode::Dragging { index: 0, offset: (0, 0) });
    assert_eq!(canvas.scene.text_boxes.len(), 2);
}

#[test]
fn resizing_and_rotating_follow_their_box_too() {
    let mut canvas = default_canvas();
    canvas.select_text_box(Some(1));
    canvas.interaction_mode.set_resize(1, HandleType::ResizeTopLeft, (pixels(1), pixels(2)));
    canvas.remove_text_box(0);
    assert_eq!(
        canvas.interaction_mode,
        InteractionMode::Resizing {
            index: 0,
            handle: HandleType::ResizeTopLeft,
            start_pos: (pixels(1), pixels(2)),
        }
    );
    let mut canvas = default_canvas();
    canvas.select_text_box(Some(1));
    canvas.interaction_mode.set_rotating(1, Rotation { cos: 0, sin: UNIT });
    canvas.remove_text_box(0);
    assert_eq!(
        canvas.interaction_mode,
        InteractionMode::Rotating { index: 0, start_angle: Rotation { cos: 0, sin: UNIT } }
    );
    canvas.add_text_box();
    canvas.remove_text_box(0);
    assert_eq!(canvas.interaction_mode, InteractionMode::Idle);
}

#[test]
fn mode_setters_replace_the_gesture() {
    let mut mode = InteractionMode::Idle;
    mode.set_dragging(3, (pixels(1), pixels(-2)));
    assert_eq!(mode, InteractionMode::Dragging { index: 3, offset: (pixels(1), pixels(-2)) });
    mode.set_resize(4, HandleType::ResizeBottomRight, (pixels(5), pixels(6)));
    assert_eq!(
        mode,
        InteractionMode::Resizing {
            index: 4,
            handle: HandleType::ResizeBottomRight,
            start_pos: (pixels(5), pixels(6)),
        }
    );
    mode.set_rotating(0, Rotation::identity());
    assert_eq!(mode, InteractionMode::Rotating { index: 0, start_angle: Rotation::identity() });
}

#[test]
fn session_selection_is_the_selection_of_the_scene() {
    let mut canvas = default_canvas();
    canvas.select_text_box(Some(1));
    assert_eq!(canvas.scene.selected_index, Some(1));
    assert_eq!(selected_flags(&canvas), vec![false, true]);
    canvas.select_text_box(Some(2));
    assert_eq!(canvas.scene.selected_index, Some(1));
    canvas.unselect_text_boxes();
    assert_eq!(canvas.scene.selected_index, None);
    assert_eq!(selected_flags(&canvas), vec![false, false]);
    assert_eq!(canvas.interaction_mode, InteractionMode::Idle);
}

#[test]
fn selection_during_a_gesture_leaves_the_gesture() {
    let mut canvas = default_canvas();
    canvas.mouse_down(pixels(375), pixels(125));
    canvas.select_text_box(Some(1));
    assert_eq!(canvas.interaction_mode, InteractionMode::Dragging { index: 0, offset: (0, 0) });
    canvas.mouse_move(pixels(300), pixels(100));
    assert_eq!(canvas.get_textbox_position(0), (pixels(300), pixels(100)));
    assert_eq!(canvas.scene.selected_index, Some(1));
    assert_eq!(selected_flags(&canvas), vec![false, true]);
}

#[test]
fn pointer_at_the_limits_of_the_range() {
    let limit = memetopia::fixed::COORD_MAX;
    let mut canvas = default_canvas();
    canvas.mouse_down(limit, -limit);
    assert_eq!(canvas.scene.selected_index, None);
    canvas.mouse_down(pixels(375), pixels(125));
    canvas.mouse_move(limit, limit);
    assert_eq!(canvas.get_textbox_position(0), (pixels(500), pixels(500)));
    canvas.mouse_move(-limit, -limit);
    assert_eq!(canvas.get_textbox_position(0), (0, pixels(48)));
    canvas.mouse_up();
    canvas.mouse_down(0, pixels(48 - 24 - 20));
    assert_eq!(
        canvas.interaction_mode,
        InteractionMode::Rotating { index: 0, start_angle: Rotation { cos: 0, sin: -UNIT } }
    );
    canvas.mouse_move(limit, pixels(48));
    assert_eq!(canvas.scene.text_boxes[0].rotation, Rotation { cos: 0, sin: UNIT });
    canvas.mouse_move(-limit, limit);
    let r = canvas.scene.text_boxes[0].rotation;
    assert!(r.cos.abs() <= UNIT && r.sin.abs() <= UNIT);
}

#[test]
fn validity_of_a_session() {
    let mut canvas = default_canvas();
    assert!(canvas.is_wf());
    canvas.mouse_down(pixels(375), pixels(125));
    assert!(canvas.is_wf());
    // A gesture on a box that the scene does not have.
    canvas.interaction_mode.set_dragging(2, (0, 0));
    assert!(!canvas.is_wf());
    canvas.interaction_mode.set_dragging(1, (0, 0));
    assert!(canvas.is_wf());
    // An offset that no two points of the canvas have.
    canvas.interaction_mode.set_dragging(1, (i64::MAX, 0));
    assert!(!canvas.is_wf());
    canvas.interaction_mode.set_resize(1, HandleType::Rotate, (0, i64::MIN));
    assert!(!canvas.is_wf());
    canvas.interaction_mode.set_resize(1, HandleType::Rotate, (0, 0));
    assert!(canvas.is_wf());
    canvas.interaction_mode.set_rotating(0, Rotation { cos: 2 * UNIT, sin: 0 });
    assert!(!canvas.is_wf());
    canvas.mouse_up();
    assert!(canvas.is_wf());
    // A scene that is not valid.
    canvas.scene.selected_index = None;
    assert!(!canvas.is_wf());
}

#[test]
fn every_state_of_a_long_session_is_valid() {
    let mut canvas = default_canvas();
    let mut seed: u64 = 0x2545_f491_4f6c_dd1d;
    let mut next = move |bound: u64| -> u64 {
        seed ^= seed << 13;
        seed ^= seed >> 7;
        seed ^= seed << 17;
        seed % bound
    };
    for _ in 0..4_000 {
        let x = pixels(next(700) as i32 - 100);
        let y = pixels(next(700) as i32 - 100);
        match next(12) {
            0 | 1 | 2 => canvas.mouse_down(x, y),
            3 | 4 | 5 | 6 => {
                canvas.mouse_move(x, y);
            },
            7 => canvas.mouse_up(),
            8 => canvas.mouse_leave(),
            9 => canvas.add_text_box(),
            10 => canvas.remove_text_box(next(6) as usize),
            _ => {
                let chosen = next(8) as usize;
                canvas.select_text_box(if chosen < 6 { Some(chosen) } else { None });
            },
        }
        assert!(canvas.is_wf());
        assert!(!canvas.scene.text_boxes.is_empty());
        let flagged = canvas.scene.text_boxes.iter().filter(|tb| tb.is_selected).count();
        assert!(flagged <= 1);
        assert_eq!(flagged == 1, canvas.scene.selected_index.is_some());
        for tb in canvas.scene.text_boxes.iter() {
            assert!(0 <= tb.x && tb.x <= pixels(500));
            assert!(0 <= tb.y && tb.y <= pixels(500));
        }
    }
}

#[test]
fn edits_of_the_page_go_through_the_session() {
    let mut canvas = default_canvas();
    canvas.mouse_down(pixels(375), pixels(125));
    let generation = canvas.scene.generation;
    canvas.set_text(0, "such wow".to_owned());
    assert_eq!(canvas.scene.text_boxes[0].text, "such wow");
    assert_eq!(canvas.scene.generation, generation + 1);
    canvas.set_text(5, "nowhere".to_owned());
    assert_eq!(canvas.scene.generation, generation + 1);
    canvas.set_main_img_url("https://example.com/doge.png".to_owned());
    assert_eq!(canvas.scene.main_img_url, "https://example.com/doge.png");
    assert_eq!(canvas.scene.generation, generation + 2);
    // The gesture and the selection stay.
    assert_eq!(canvas.interaction_mode, InteractionMode::Dragging { index: 0, offset: (0, 0) });
    assert_eq!(canvas.scene.selected_index, Some(0));
    assert!(canvas.is_wf());
}
