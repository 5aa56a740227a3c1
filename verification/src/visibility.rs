//! The visibility controller: the shown or hidden state of the popup window,
//! the slide that takes the window from where it stands to where it belongs,
//! and the order of the steps of that slide.

use vstd::prelude::*;
use vstd::string::*;
use crate::geometry::{
    Edge,
    Placement,
    Position,
    Screen,
    anchor,
    anchor_position,
    edge_named,
    parse_edge,
};
use crate::settings::WindowSettings;

verus! {

/// What was found of the screen and the window when a slide was asked for.
#[derive(Clone, Copy, Debug, PartialEq, Eq, Structural)]
pub struct Surface {
    /// The size of the primary screen.
    pub screen: Screen,
    /// Where the window stands now.
    pub position: Position,
    /// Where the window's band begins along its edge.
    pub band_offset: i32,
}

/// Why a slide cannot begin.
#[derive(Clone, Copy, Debug, PartialEq, Eq, Structural)]
pub enum SlideError {
    /// The primary screen or the window could not be located.
    SurfaceMissing,
    /// The configured window position names no edge.
    UnknownEdge,
    /// The configured number of steps is zero.
    NoSteps,
}

/// The easing curve of a slide, over the progress `t` from 0 to 1 and the
/// configured exponent.
#[derive(Clone, Copy, Debug, PartialEq, Eq, Structural)]
pub enum Easing {
    /// `1 - (1 - t)^exponent`, for a window that becomes visible.
    EaseOut,
    /// `t^exponent`, for a window that becomes hidden.
    EaseIn,
}

/// A slide in frames. The frames are numbered from 0 to `steps`, and frame
/// `k` stands at the progress `k / steps`.
#[derive(Clone, Copy, Debug, PartialEq, Eq, Structural)]
pub struct SlidePlan {
    pub start: Position,
    pub target: Position,
    pub steps: u64,
    /// The pause after each frame, in milliseconds.
    pub step_delay_ms: u64,
    pub easing: Easing,
    pub exponent: i32,
    /// Whether the window becomes visible. If so it is shown before the
    /// first frame; if not it is hidden after the last.
    pub visible: bool,
    /// Whether the view's scroll position is reset before the slide.
    pub reset_scroll: bool,
}

/// What it takes to get the window to its position.
#[derive(Clone, Copy, Debug, PartialEq, Eq, Structural)]
pub enum Slide {
    /// The window stands where it belongs: there is no frame to draw and
    /// nothing to show or hide.
    InPlace,
    Animate(SlidePlan),
}

/// How the window is placed under these settings.
pub open spec fn placement_of(settings: WindowSettings, edge: Edge, band_offset: i32) -> Placement {
    Placement {
        edge,
        secondary_size: settings.window_secondary_size,
        padding_x: settings.window_padding_x,
        padding_y: settings.window_padding_y,
        band_offset,
    }
}

/// The slide that takes the window from where it stands to its position on
/// the screen, if `visible`, or off the screen. A window position that names
/// no edge is refused. A window that stands at its target needs no frame.
/// Any other slide needs at least one step.
pub open spec fn slide_spec(settings: WindowSettings, surface: Surface, visible: bool) -> Result<
    Slide,
    SlideError,
> {
    match edge_named(settings.window_position@) {
        None => Err(SlideError::UnknownEdge),
        Some(edge) => {
            let target = anchor(
                placement_of(settings, edge, surface.band_offset),
                surface.screen,
                visible,
            );
            if target == surface.position {
                Ok(Slide::InPlace)
            } else if settings.window_steps == 0 {
                Err(SlideError::NoSteps)
            } else {
                Ok(
                    Slide::Animate(
                        SlidePlan {
                            start: surface.position,
                            target,
                            steps: settings.window_steps,
                            step_delay_ms: settings.window_animation_duration
                                / settings.window_steps,
                            easing: if visible {
                                Easing::EaseOut
                            } else {
                                Easing::EaseIn
                            },
                            exponent: settings.ease_factor,
                            visible,
                            reset_scroll: visible && settings.reset_scroll_on_show,
                        },
                    ),
                )
            }
        },
    }
}

/// Plans the slide of the window to its shown or hidden position.
pub fn slide_window(settings: &WindowSettings, surface: &Surface, visible: bool) -> (outcome: Result<
    Slide,
    SlideError,
>)
    ensures
        outcome == slide_spec(*settings, *surface, visible),
{
    let edge = match parse_edge(settings.window_position.as_str()) {
        Some(edge) => edge,
        None => {
            return Err(SlideError::UnknownEdge);
        },
    };
    let placement = Placement {
        edge,
        secondary_size: settings.window_secondary_size,
        padding_x: settings.window_padding_x,
        padding_y: settings.window_padding_y,
        band_offset: surface.band_offset,
    };
    let target = anchor_position(&placement, &surface.screen, visible);
    if target.x == surface.position.x && target.y == surface.position.y {
        return Ok(Slide::InPlace);
    }
    if settings.window_steps == 0 {
        return Err(SlideError::NoSteps);
    }
    Ok(
        Slide::Animate(
            SlidePlan {
                start: surface.position,
                target,
                steps: settings.window_steps,
                step_delay_ms: settings.window_animation_duration / settings.window_steps,
                easing: if visible {
                    Easing::EaseOut
                } else {
                    Easing::EaseIn
                },
                exponent: settings.ease_factor,
                visible,
                reset_scroll: visible && settings.reset_scroll_on_show,
            },
        ),
    )
}

/// The number of frames of a slide.
pub open spec fn frame_count(slide: Slide) -> nat {
    match slide {
        Slide::InPlace => 0,
        Slide::Animate(plan) => (plan.steps + 1) as nat,
    }
}

/// A slide to the position at which the window already stands has no frame.
pub proof fn lemma_no_frames_in_place(settings: WindowSettings, surface: Surface, visible: bool)
    requires
        edge_named(settings.window_position@) matches Some(edge) && anchor(
            placement_of(settings, edge, surface.band_offset),
            surface.screen,
            visible,
        ) == surface.position,
    ensures
        slide_spec(settings, surface, visible) == Ok::<Slide, SlideError>(Slide::InPlace),
        frame_count(slide_spec(settings, surface, visible).unwrap()) == 0,
{
}

/// One step of a slide.
#[derive(Clone, Copy, Debug, PartialEq, Eq, Structural)]
pub enum SlideAction {
    /// Signal that the view's scroll position is to be reset.
    ResetScroll,
    /// Make the window visible.
    Show,
    /// Move the window to where frame `step` puts it, then pause for the
    /// plan's step delay.
    Frame { step: u64 },
    /// Hide the window.
    Hide,
    /// Signal that the window is hidden and the content settled.
    Settled,
    /// The slide is over.
    Finished,
}

/// What comes before the frames: the scroll reset, if the plan asks for it,
/// and then the showing of a window that becomes visible.
pub open spec fn lead(plan: SlidePlan) -> Seq<SlideAction> {
    (if plan.reset_scroll {
        seq![SlideAction::ResetScroll]
    } else {
        Seq::empty()
    }) + (if plan.visible {
        seq![SlideAction::Show]
    } else {
        Seq::empty()
    })
}

/// The frames, from frame 0 to frame `plan.steps`.
pub open spec fn frames(plan: SlidePlan) -> Seq<SlideAction> {
    Seq::new((plan.steps + 1) as nat, |k: int| SlideAction::Frame { step: k as u64 })
}

/// What comes after the frames: a window that becomes hidden is hidden, and
/// then the content is signalled as settled.
pub open spec fn tail(plan: SlidePlan) -> Seq<SlideAction> {
    if plan.visible {
        Seq::empty()
    } else {
        seq![SlideAction::Hide, SlideAction::Settled]
    }
}

/// The steps of a slide, in order.
pub open spec fn script(plan: SlidePlan) -> Seq<SlideAction> {
    lead(plan) + frames(plan) + tail(plan)
}

/// The order of a slide's steps: the scroll reset comes first; the window
/// is shown before every frame, and only when it becomes visible; it is
/// hidden after every frame, and only when it becomes hidden; and the
/// content is signalled as settled last, right after the hiding.
pub proof fn lemma_script_order(plan: SlidePlan, i: int, j: int)
    requires
        0 <= i < script(plan).len(),
        0 <= j < script(plan).len(),
        script(plan)[j] is Frame,
    ensures
        script(plan)[i] == SlideAction::ResetScroll ==> i == 0,
        script(plan)[i] == SlideAction::Show ==> plan.visible && i < j,
        script(plan)[i] == SlideAction::Hide ==> !plan.visible && j < i,
        script(plan)[i] == SlideAction::Settled ==> i == script(plan).len() - 1 && script(
            plan,
        )[i - 1] == SlideAction::Hide,
        script(plan)[i] != SlideAction::Finished,
{
}

/// Where in its script a slide stands.
#[derive(Clone, Copy, Debug, PartialEq, Eq, Structural)]
enum Stage {
    ResetScroll,
    Show,
    Frames,
    Hide,
    Settled,
    Finished,
}

/// A slide under way: it hands out the steps of its script one by one.
pub struct SlideRun {
    plan: SlidePlan,
    stage: Stage,
    step: u64,
}

impl SlideRun {
    /// How many steps have been handed out.
    closed spec fn handed_out(&self) -> nat {
        match self.stage {
            Stage::ResetScroll => 0,
            Stage::Show => (lead(self.plan).len() - 1) as nat,
            Stage::Frames => lead(self.plan).len() + self.step as nat,
            Stage::Hide => lead(self.plan).len() + frames(self.plan).len(),
            Stage::Settled => lead(self.plan).len() + frames(self.plan).len() + 1,
            Stage::Finished => script(self.plan).len(),
        }
    }

    /// The stage is one that the plan's script goes through.
    #[verifier::type_invariant]
    closed spec fn inv(&self) -> bool {
        match self.stage {
            Stage::ResetScroll => self.plan.reset_scroll,
            Stage::Show => self.plan.visible,
            Stage::Frames => self.step <= self.plan.steps,
            Stage::Hide => !self.plan.visible,
            Stage::Settled => !self.plan.visible,
            Stage::Finished => true,
        }
    }

    /// The plan that is carried out.
    pub closed spec fn plan_spec(&self) -> SlidePlan {
        self.plan
    }

    /// The steps that are still to come.
    pub closed spec fn remaining(&self) -> Seq<SlideAction> {
        script(self.plan).skip(self.handed_out() as int)
    }

    /// Starts carrying out `plan`.
    pub fn new(plan: SlidePlan) -> (run: Self)
        ensures
            run.plan_spec() == plan,
            run.remaining() == script(plan),
    {
        let stage = if plan.reset_scroll {
            Stage::ResetScroll
        } else if plan.visible {
            Stage::Show
        } else {
            Stage::Frames
        };
        let run = SlideRun { plan, stage, step: 0 };
        assert(script(plan).skip(0) =~= script(plan));
        run
    }

    /// The plan that is carried out.
    pub fn plan(&self) -> (plan: SlidePlan)
        ensures
            plan == self.plan_spec(),
    {
        self.plan
    }

    /// Hands out the next step of the slide, and `Finished` once none is
    /// left.
    pub fn next_action(&mut self) -> (action: SlideAction)
        ensures
            final(self).plan_spec() == old(self).plan_spec(),
            old(self).remaining().len() > 0 ==> action == old(self).remaining()[0]
                && final(self).remaining() == old(self).remaining().drop_first(),
            old(self).remaining().len() == 0 ==> action == SlideAction::Finished
                && final(self).remaining() == old(self).remaining(),
    {
        proof {
            use_type_invariant(&*self);
        }
        let ghost all = script(self.plan);
        let ghost before = self.handed_out() as int;
        proof {
            assert(frames(self.plan).len() == self.plan.steps + 1);
            assert(all.len() == lead(self.plan).len() + frames(self.plan).len() + tail(
                self.plan,
            ).len());
        }
        let action = match self.stage {
            Stage::ResetScroll => {
                self.step = 0;
                self.stage = if self.plan.visible {
                    Stage::Show
                } else {
                    Stage::Frames
                };
                SlideAction::ResetScroll
            },
            Stage::Show => {
                self.step = 0;
                self.stage = Stage::Frames;
                SlideAction::Show
            },
            Stage::Frames => {
                let step = self.step;
                if step == self.plan.steps {
                    self.stage = if self.plan.visible {
                        Stage::Finished
                    } else {
                        Stage::Hide
                    };
                } else {
                    self.step = step + 1;
                }
                proof {
                    assert(frames(self.plan)[step as int] == SlideAction::Frame { step });
                }
                SlideAction::Frame { step }
            },
            Stage::Hide => {
                self.stage = Stage::Settled;
                SlideAction::Hide
            },
            Stage::Settled => {
                self.stage = Stage::Finished;
                SlideAction::Settled
            },
            Stage::Finished => {
                proof {
                    assert(all.skip(before).len() == 0);
                }
                return SlideAction::Finished;
            },
        };
        proof {
            assert(before < all.len());
            assert(all.skip(before)[0] == all[before]);
            assert(self.handed_out() == before + 1);
            assert(all.skip(before).drop_first() =~= all.skip(before + 1));
        }
        action
    }
}

/// The controller's state: whether the window counts as shown, and the
/// ticket of the slide that is under way, if one is.
#[derive(Clone, Copy, Debug, PartialEq, Eq, Structural)]
pub struct ControllerState {
    pub visible: bool,
    pub in_flight: bool,
    /// The ticket of the latest slide.
    pub ticket: u64,
}

/// The visibility controller. Only its own transitions change its state.
pub struct VisibilityController {
    state: ControllerState,
}

impl View for VisibilityController {
    type V = ControllerState;

    closed spec fn view(&self) -> ControllerState {
        self.state
    }
}

/// A transition that has begun.
#[derive(Clone, Copy, Debug, PartialEq, Eq, Structural)]
pub struct Transition {
    /// The ticket under which the slide runs. A slide whose ticket is no
    /// longer current has been superseded and must stop.
    pub ticket: u64,
    /// The state that the window takes.
    pub visible: bool,
    pub slide: Slide,
}

/// What became of a request to toggle the window.
#[derive(Clone, Copy, Debug, PartialEq, Eq, Structural)]
pub enum ToggleOutcome {
    /// The window is in the requested state already.
    Unchanged,
    /// The transition could not begin; the state is as it was.
    Aborted(SlideError),
    Started(Transition),
}

/// The state that a request asks for, or nothing where the request names
/// the state the window is in. A request that names no state asks for the
/// other one.
pub open spec fn requested_state(current: bool, target: Option<bool>) -> Option<bool> {
    match target {
        Some(t) => if t == current {
            None
        } else {
            Some(t)
        },
        None => Some(!current),
    }
}

/// The ticket after `ticket`.
pub open spec fn next_ticket(ticket: u64) -> u64 {
    if ticket == u64::MAX {
        0
    } else {
        (ticket + 1) as u64
    }
}

/// The slide that a request leads to, or why none begins.
pub open spec fn planned(
    settings: WindowSettings,
    surface: Option<Surface>,
    visible: bool,
) -> Result<Slide, SlideError> {
    match surface {
        Some(found) => slide_spec(settings, found, visible),
        None => Err(SlideError::SurfaceMissing),
    }
}

/// The controller after a request, and what became of the request. A
/// request for the current state changes nothing. So does a request whose
/// transition cannot begin. Any other request flips the state and starts a
/// slide under a new ticket, which supersedes the slide under way.
pub open spec fn toggled(
    c: ControllerState,
    target: Option<bool>,
    settings: WindowSettings,
    surface: Option<Surface>,
) -> (ControllerState, ToggleOutcome) {
    match requested_state(c.visible, target) {
        None => (c, ToggleOutcome::Unchanged),
        Some(visible) => match planned(settings, surface, visible) {
            Err(e) => (c, ToggleOutcome::Aborted(e)),
            Ok(slide) => (
                ControllerState {
                    visible,
                    in_flight: slide is Animate,
                    ticket: next_ticket(c.ticket),
                },
                ToggleOutcome::Started(
                    Transition { ticket: next_ticket(c.ticket), visible, slide },
                ),
            ),
        },
    }
}

/// Whether the slide that runs under `ticket` is the one under way.
pub open spec fn is_current_spec(c: ControllerState, ticket: u64) -> bool {
    c.in_flight && c.ticket == ticket
}

impl VisibilityController {
    /// The controller at startup: the window is hidden and no slide is
    /// under way.
    pub fn new() -> (controller: Self)
        ensures
            controller@ == (ControllerState { visible: false, in_flight: false, ticket: 0 }),
    {
        VisibilityController {
            state: ControllerState { visible: false, in_flight: false, ticket: 0 },
        }
    }

    /// Whether the window counts as shown.
    pub fn is_visible(&self) -> (visible: bool)
        ensures
            visible == self@.visible,
    {
        self.state.visible
    }

    /// Whether the slide that runs under `ticket` may go on: it may while
    /// no later transition has begun and it has not finished.
    pub fn is_current(&self, ticket: u64) -> (current: bool)
        ensures
            current == is_current_spec(self@, ticket),
    {
        self.state.in_flight && self.state.ticket == ticket
    }

    /// Records that the slide that ran under `ticket` is over. A slide that
    /// has been superseded changes nothing.
    pub fn finish(&mut self, ticket: u64)
        ensures
            final(self)@ == (if is_current_spec(old(self)@, ticket) {
                ControllerState { in_flight: false, ..old(self)@ }
            } else {
                old(self)@
            }),
    {
        if self.state.in_flight && self.state.ticket == ticket {
            self.state.in_flight = false;
        }
    }
}

/// Toggles the window: to `target_visibility` where one is given, to the
/// other state where none is. `surface` is what was found of the screen and
/// the window, or nothing where either could not be located.
pub fn toggle_window(
    controller: &mut VisibilityController,
    target_visibility: Option<bool>,
    settings: &WindowSettings,
    surface: Option<Surface>,
) -> (outcome: ToggleOutcome)
    ensures
        (final(controller)@, outcome) == toggled(
            old(controller)@,
            target_visibility,
            *settings,
            surface,
        ),
        target_visibility == Some(old(controller)@.visible) ==> outcome == ToggleOutcome::Unchanged
            && final(controller)@ == old(controller)@,
        outcome matches ToggleOutcome::Started(t) ==> t.ticket != old(controller)@.ticket && forall|
            other: u64,
        |
            is_current_spec(final(controller)@, other) ==> other == t.ticket,
{
    let current = controller.state.visible;
    let visible = match target_visibility {
        Some(target) => {
            if target == current {
                return ToggleOutcome::Unchanged;
            }
            target
        },
        None => !current,
    };
    let found = match surface {
        Some(found) => found,
        None => {
            return ToggleOutcome::Aborted(SlideError::SurfaceMissing);
        },
    };
    match slide_window(settings, &found, visible) {
        Err(e) => ToggleOutcome::Aborted(e),
        Ok(slide) => {
            let ticket = if controller.state.ticket == u64::MAX {
                0
            } else {
                controller.state.ticket + 1
            };
            let in_flight = match slide {
                Slide::InPlace => false,
                Slide::Animate(_) => true,
            };
            controller.state = ControllerState { visible, in_flight, ticket };
            ToggleOutcome::Started(Transition { ticket, visible, slide })
        },
    }
}

/// The size and the position that the window takes on the screen.
#[derive(Clone, Copy, Debug, PartialEq, Eq, Structural)]
pub struct ResizePlan {
    pub width: u32,
    pub height: u32,
    pub position: Position,
}

/// A configured size taken as a physical size: a negative number wraps
/// around.
pub open spec fn physical_size(size: i32) -> u32 {
    if size >= 0 {
        size as u32
    } else {
        (size + 0x1_0000_0000) as u32
    }
}

/// The edge that the window is laid out at: the configured one, and the
/// right edge where the configured position names none.
pub open spec fn layout_edge(settings: WindowSettings) -> Edge {
    match edge_named(settings.window_position@) {
        Some(edge) => edge,
        None => Edge::Right,
    }
}

/// The screen's length along the edge at which the window is laid out, and
/// the padding that is configured along it.
pub open spec fn primary_axis_spec(settings: WindowSettings, screen: Screen) -> (u32, i32) {
    match layout_edge(settings) {
        Edge::Top | Edge::Bottom => (screen.width, settings.window_padding_x),
        Edge::Left | Edge::Right => (screen.height, settings.window_padding_y),
    }
}

/// The screen's length along the edge at which the window is laid out, and
/// the padding that is configured along it.
pub fn primary_axis(settings: &WindowSettings, screen: &Screen) -> (axis: (u32, i32))
    ensures
        axis == primary_axis_spec(*settings, *screen),
{
    match parse_edge(settings.window_position.as_str()) {
        Some(Edge::Top) | Some(Edge::Bottom) => (screen.width, settings.window_padding_x),
        _ => (screen.height, settings.window_padding_y),
    }
}

/// The window's size and shown position. Along its edge the window is
/// `primary_extent` long, and perpendicular to it as thick as configured.
pub open spec fn resized(
    settings: WindowSettings,
    screen: Screen,
    band_offset: i32,
    primary_extent: u32,
) -> ResizePlan {
    let edge = layout_edge(settings);
    let thickness = physical_size(settings.window_secondary_size);
    ResizePlan {
        width: match edge {
            Edge::Top | Edge::Bottom => primary_extent,
            Edge::Left | Edge::Right => thickness,
        },
        height: match edge {
            Edge::Top | Edge::Bottom => thickness,
            Edge::Left | Edge::Right => primary_extent,
        },
        position: anchor(placement_of(settings, edge, band_offset), screen, true),
    }
}

/// Lays the window out for the screen: its size, and the position at which
/// it is shown.
pub fn resize_window(settings: &WindowSettings, screen: &Screen, band_offset: i32, primary_extent: u32) -> (plan:
    ResizePlan)
    ensures
        plan == resized(*settings, *screen, band_offset, primary_extent),
{
    let edge = match parse_edge(settings.window_position.as_str()) {
        Some(edge) => edge,
        None => Edge::Right,
    };
    let size = settings.window_secondary_size;
    let thickness: u32 = if size >= 0 {
        size as u32
    } else {
        (size as i64 + 0x1_0000_0000) as u32
    };
    let placement = Placement {
        edge,
        secondary_size: size,
        padding_x: settings.window_padding_x,
        padding_y: settings.window_padding_y,
        band_offset,
    };
    let position = anchor_position(&placement, screen, true);
    match edge {
        Edge::Top | Edge::Bottom => ResizePlan { width: primary_extent, height: thickness, position },
        Edge::Left | Edge::Right => ResizePlan { width: thickness, height: primary_extent, position },
    }
}

} // verus!
