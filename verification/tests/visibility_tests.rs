use tacticlip::geometry::{anchor_position, parse_edge, Edge, Placement, Position, Screen};
use tacticlip::settings::{ClipboardPolicy, WindowSettings};
use tacticlip::visibility::{
    primary_axis, resize_window, slide_window, toggle_window, Easing, ResizePlan, Slide,
    SlideAction, SlideError, SlidePlan, SlideRun, Surface, ToggleOutcome, VisibilityController,
};

const SCREEN: Screen = Screen { width: 1920, height: 1080 };

fn settings(position: &str) -> WindowSettings {
    WindowSettings {
        window_position: position.to_string(),
        window_secondary_size: 250,
        window_padding_x: 10,
        window_padding_y: 50,
        window_animation_duration: 100,
        window_steps: 30,
        ease_factor: 2,
        reset_scroll_on_show: true,
    }
}

fn placement(edge: Edge) -> Placement {
    Placement { edge, secondary_size: 250, padding_x: 10, padding_y: 50, band_offset: 19 }
}

fn surface(x: i64, y: i64) -> Surface {
    Surface { screen: SCREEN, position: Position { x, y }, band_offset: 19 }
}

fn plan_of(outcome: Result<Slide, SlideError>) -> SlidePlan {
    match outcome {
        Ok(Slide::Animate(plan)) => plan,
        other => panic!("no slide: {:?}", other),
    }
}

#[test]
fn edges_are_read_from_their_names() {
    assert_eq!(parse_edge("top"), Some(Edge::Top));
    assert_eq!(parse_edge("bottom"), Some(Edge::Bottom));
    assert_eq!(parse_edge("left"), Some(Edge::Left));
    assert_eq!(parse_edge("right"), Some(Edge::Right));
    assert_eq!(parse_edge("Top"), None);
    assert_eq!(parse_edge(""), None);
    assert_eq!(parse_edge("center"), None);
}

#[test]
fn the_primary_axis_runs_along_the_edge() {
    assert_eq!(primary_axis(&settings("top"), &SCREEN), (1920, 10));
    assert_eq!(primary_axis(&settings("bottom"), &SCREEN), (1920, 10));
    assert_eq!(primary_axis(&settings("left"), &SCREEN), (1080, 50));
    assert_eq!(primary_axis(&settings("right"), &SCREEN), (1080, 50));
    assert_eq!(primary_axis(&settings("nowhere"), &SCREEN), (1080, 50));
}

#[test]
fn shown_positions_stand_inside_the_screen() {
    assert_eq!(anchor_position(&placement(Edge::Top), &SCREEN, true), Position { x: 29, y: 50 });
    assert_eq!(anchor_position(&placement(Edge::Bottom), &SCREEN, true), Position { x: 29, y: 780 });
    assert_eq!(anchor_position(&placement(Edge::Left), &SCREEN, true), Position { x: 10, y: 69 });
    assert_eq!(anchor_position(&placement(Edge::Right), &SCREEN, true), Position { x: 1660, y: 69 });
}

#[test]
fn hidden_positions_stand_beyond_the_screen() {
    assert_eq!(anchor_position(&placement(Edge::Top), &SCREEN, false), Position { x: 29, y: -300 });
    assert_eq!(anchor_position(&placement(Edge::Bottom), &SCREEN, false), Position { x: 29, y: 1130 });
    assert_eq!(anchor_position(&placement(Edge::Left), &SCREEN, false), Position { x: -260, y: 69 });
    assert_eq!(anchor_position(&placement(Edge::Right), &SCREEN, false), Position { x: 1930, y: 69 });
}

#[test]
fn positions_do_not_overflow() {
    let screen = Screen { width: u32::MAX, height: u32::MAX };
    let wide = Placement {
        edge: Edge::Right,
        secondary_size: i32::MIN,
        padding_x: i32::MIN,
        padding_y: i32::MAX,
        band_offset: i32::MAX,
    };
    assert_eq!(
        anchor_position(&wide, &screen, true),
        Position { x: 4294967295 + 2147483648 + 2147483648, y: 2147483647 + 2147483647 }
    );
    assert_eq!(
        anchor_position(&wide, &screen, false),
        Position { x: 4294967295 - 2147483648, y: 2147483647 + 2147483647 }
    );
    let tall = Placement { edge: Edge::Top, ..wide };
    assert_eq!(anchor_position(&tall, &screen, false).y, 2147483648 - 2147483647);
}

#[test]
fn the_default_settings_are_the_documented_ones() {
    let window = WindowSettings::default();
    assert_eq!(window.window_position, "bottom");
    assert_eq!(window.window_secondary_size, 250);
    assert_eq!(window.window_padding_x, 0);
    assert_eq!(window.window_padding_y, 50);
    assert_eq!(window.window_animation_duration, 100);
    assert_eq!(window.window_steps, 30);
    assert_eq!(window.ease_factor, 1);
    assert!(window.reset_scroll_on_show);
    let policy = ClipboardPolicy::default();
    assert!(!policy.window_rewrite_history_on_copy);
    assert!(policy.auto_hide_on_copy);
    assert!(!policy.auto_paste_on_copy);
    assert_eq!(policy.max_displayed_characters, 250);
}

#[test]
fn a_show_slide_eases_out_towards_the_shown_position() {
    let plan = plan_of(slide_window(&settings("bottom"), &surface(29, 1130), true));
    assert_eq!(plan.start, Position { x: 29, y: 1130 });
    assert_eq!(plan.target, Position { x: 29, y: 780 });
    assert_eq!(plan.steps, 30);
    assert_eq!(plan.step_delay_ms, 3);
    assert_eq!(plan.easing, Easing::EaseOut);
    assert_eq!(plan.exponent, 2);
    assert!(plan.visible);
    assert!(plan.reset_scroll);
}

#[test]
fn a_hide_slide_eases_in_towards_the_hidden_position() {
    let plan = plan_of(slide_window(&settings("bottom"), &surface(29, 780), false));
    assert_eq!(plan.target, Position { x: 29, y: 1130 });
    assert_eq!(plan.easing, Easing::EaseIn);
    assert!(!plan.visible);
    assert!(!plan.reset_scroll);
}

#[test]
fn the_scroll_is_reset_only_where_configured() {
    let mut quiet = settings("top");
    quiet.reset_scroll_on_show = false;
    assert!(!plan_of(slide_window(&quiet, &surface(0, 0), true)).reset_scroll);
    assert!(!plan_of(slide_window(&quiet, &surface(0, 0), false)).reset_scroll);
}

#[test]
fn the_step_delay_is_the_duration_divided_by_the_steps() {
    let mut timed = settings("left");
    timed.window_animation_duration = 1000;
    timed.window_steps = 7;
    assert_eq!(plan_of(slide_window(&timed, &surface(0, 0), true)).step_delay_ms, 142);
    timed.window_animation_duration = 5;
    assert_eq!(plan_of(slide_window(&timed, &surface(0, 0), true)).step_delay_ms, 0);
}

#[test]
fn a_window_at_its_target_needs_no_frame() {
    assert_eq!(slide_window(&settings("bottom"), &surface(29, 780), true), Ok(Slide::InPlace));
    assert_eq!(slide_window(&settings("bottom"), &surface(29, 1130), false), Ok(Slide::InPlace));
    assert_eq!(slide_window(&settings("right"), &surface(1930, 69), false), Ok(Slide::InPlace));
    let mut still = settings("top");
    still.window_steps = 0;
    assert_eq!(slide_window(&still, &surface(29, 50), true), Ok(Slide::InPlace));
}

#[test]
fn an_unknown_edge_is_refused() {
    assert_eq!(slide_window(&settings("middle"), &surface(0, 0), true), Err(SlideError::UnknownEdge));
    assert_eq!(slide_window(&settings(""), &surface(0, 0), false), Err(SlideError::UnknownEdge));
}

#[test]
fn a_slide_without_steps_is_refused() {
    let mut still = settings("top");
    still.window_steps = 0;
    assert_eq!(slide_window(&still, &surface(0, 0), true), Err(SlideError::NoSteps));
}

fn script(plan: SlidePlan) -> Vec<SlideAction> {
    let mut run = SlideRun::new(plan);
    let mut actions = Vec::new();
    loop {
        match run.next_action() {
            SlideAction::Finished => break,
            action => actions.push(action),
        }
    }
    assert_eq!(run.next_action(), SlideAction::Finished);
    assert_eq!(run.plan(), plan);
    actions
}

fn short(visible: bool, reset_scroll: bool, steps: u64) -> SlidePlan {
    SlidePlan {
        start: Position { x: 0, y: 0 },
        target: Position { x: 0, y: 10 },
        steps,
        step_delay_ms: 1,
        easing: if visible { Easing::EaseOut } else { Easing::EaseIn },
        exponent: 1,
        visible,
        reset_scroll,
    }
}

#[test]
fn a_show_slide_shows_the_window_before_the_first_frame() {
    assert_eq!(
        script(short(true, true, 2)),
        vec![
            SlideAction::ResetScroll,
            SlideAction::Show,
            SlideAction::Frame { step: 0 },
            SlideAction::Frame { step: 1 },
            SlideAction::Frame { step: 2 },
        ]
    );
    assert_eq!(
        script(short(true, false, 1)),
        vec![SlideAction::Show, SlideAction::Frame { step: 0 }, SlideAction::Frame { step: 1 }]
    );
}

#[test]
fn a_hide_slide_hides_the_window_after_the_last_frame() {
    assert_eq!(
        script(short(false, false, 2)),
        vec![
            SlideAction::Frame { step: 0 },
            SlideAction::Frame { step: 1 },
            SlideAction::Frame { step: 2 },
            SlideAction::Hide,
            SlideAction::Settled,
        ]
    );
}

#[test]
fn a_slide_of_n_steps_has_n_plus_one_frames() {
    let frames = script(short(true, false, 30))
        .into_iter()
        .filter(|action| matches!(action, SlideAction::Frame { .. }))
        .count();
    assert_eq!(frames, 31);
    assert_eq!(script(short(false, false, 0)).len(), 3);
}

#[test]
fn the_controller_starts_hidden() {
    let controller = VisibilityController::new();
    assert!(!controller.is_visible());
    assert!(!controller.is_current(0));
}

#[test]
fn toggling_to_the_current_state_is_a_no_op() {
    let mut controller = VisibilityController::new();
    let window = settings("bottom");
    let outcome = toggle_window(&mut controller, Some(false), &window, Some(surface(29, 1130)));
    assert_eq!(outcome, ToggleOutcome::Unchanged);
    assert!(!controller.is_visible());
    let outcome = toggle_window(&mut controller, Some(false), &window, None);
    assert_eq!(outcome, ToggleOutcome::Unchanged);
    toggle_window(&mut controller, Some(true), &window, Some(surface(29, 1130)));
    assert!(controller.is_visible());
    let outcome = toggle_window(&mut controller, Some(true), &window, Some(surface(29, 1000)));
    assert_eq!(outcome, ToggleOutcome::Unchanged);
    assert!(controller.is_visible());
    assert!(controller.is_current(1));
}

#[test]
fn toggling_flips_the_state_and_starts_a_slide() {
    let mut controller = VisibilityController::new();
    let window = settings("bottom");
    match toggle_window(&mut controller, None, &window, Some(surface(29, 1130))) {
        ToggleOutcome::Started(transition) => {
            assert!(transition.visible);
            assert_eq!(transition.ticket, 1);
            assert_eq!(transition.slide, slide_window(&window, &surface(29, 1130), true).unwrap());
        }
        other => panic!("not started: {:?}", other),
    }
    assert!(controller.is_visible());
    assert!(controller.is_current(1));
    match toggle_window(&mut controller, None, &window, Some(surface(29, 900))) {
        ToggleOutcome::Started(transition) => {
            assert!(!transition.visible);
            assert_eq!(transition.ticket, 2);
        }
        other => panic!("not started: {:?}", other),
    }
    assert!(!controller.is_visible());
}

#[test]
fn a_new_transition_supersedes_the_one_under_way() {
    let mut controller = VisibilityController::new();
    let window = settings("bottom");
    toggle_window(&mut controller, Some(true), &window, Some(surface(29, 1130)));
    assert!(controller.is_current(1));
    toggle_window(&mut controller, Some(false), &window, Some(surface(29, 900)));
    assert!(!controller.is_current(1));
    assert!(controller.is_current(2));
    controller.finish(1);
    assert!(controller.is_current(2));
    controller.finish(2);
    assert!(!controller.is_current(2));
    assert!(!controller.is_visible());
}

#[test]
fn a_transition_in_place_has_nothing_under_way() {
    let mut controller = VisibilityController::new();
    let window = settings("bottom");
    let outcome = toggle_window(&mut controller, Some(true), &window, Some(surface(29, 780)));
    match outcome {
        ToggleOutcome::Started(transition) => assert_eq!(transition.slide, Slide::InPlace),
        other => panic!("not started: {:?}", other),
    }
    assert!(controller.is_visible());
    assert!(!controller.is_current(1));
}

#[test]
fn a_transition_that_cannot_begin_leaves_the_state() {
    let mut controller = VisibilityController::new();
    let outcome = toggle_window(&mut controller, None, &settings("bottom"), None);
    assert_eq!(outcome, ToggleOutcome::Aborted(SlideError::SurfaceMissing));
    assert!(!controller.is_visible());
    let outcome = toggle_window(&mut controller, Some(true), &settings("nowhere"), Some(surface(0, 0)));
    assert_eq!(outcome, ToggleOutcome::Aborted(SlideError::UnknownEdge));
    assert!(!controller.is_visible());
    let mut still = settings("bottom");
    still.window_steps = 0;
    let outcome = toggle_window(&mut controller, Some(true), &still, Some(surface(0, 0)));
    assert_eq!(outcome, ToggleOutcome::Aborted(SlideError::NoSteps));
    assert!(!controller.is_visible());
    assert!(!controller.is_current(0));
}

#[test]
fn the_window_is_laid_out_along_its_edge() {
    assert_eq!(
        resize_window(&settings("bottom"), &SCREEN, 19, 1862),
        ResizePlan { width: 1862, height: 250, position: Position { x: 29, y: 780 } }
    );
    assert_eq!(
        resize_window(&settings("top"), &SCREEN, 19, 1862),
        ResizePlan { width: 1862, height: 250, position: Position { x: 29, y: 50 } }
    );
    assert_eq!(
        resize_window(&settings("left"), &SCREEN, 10, 960),
        ResizePlan { width: 250, height: 960, position: Position { x: 10, y: 60 } }
    );
    assert_eq!(
        resize_window(&settings("right"), &SCREEN, 10, 960),
        ResizePlan { width: 250, height: 960, position: Position { x: 1660, y: 60 } }
    );
}

#[test]
fn an_unknown_edge_is_laid_out_at_the_right() {
    assert_eq!(
        resize_window(&settings("nowhere"), &SCREEN, 10, 960),
        resize_window(&settings("right"), &SCREEN, 10, 960)
    );
}

#[test]
fn a_negative_thickness_wraps_around() {
    let mut odd = settings("bottom");
    odd.window_secondary_size = -1;
    assert_eq!(resize_window(&odd, &SCREEN, 0, 100).height, u32::MAX);
    odd.window_secondary_size = i32::MIN;
    assert_eq!(resize_window(&odd, &SCREEN, 0, 100).height, 2147483648);
    odd.window_secondary_size = 0;
    assert_eq!(resize_window(&odd, &SCREEN, 0, 100).height, 0);
}
