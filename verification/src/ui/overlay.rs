//! What the shell draws, in which order, and which part of it an authentication changes.

use crate::common::ipc::FingerprintStatus;
use crate::common::text;
use crate::common::time::Moment;
use crate::renderer::frame::{ClearColor, FrameSize};
use crate::renderer::shape;
use crate::renderer::shape::{clamp_i64, half_i64, signed, Rect};
use crate::ui::emergency;
use crate::ui::emergency::{emergency_background, refusal_text};
use crate::ui::input;
use crate::ui::shell;
use crate::ui::shell::{
    PreviewGrid, ShellCore, ShellMode, ShellState, ShellStatus, ShellTheme,
};
use crate::ui::text_cache::inner_width;
use vstd::prelude::*;

verus! {

/// A part of the scene's layout.
#[derive(Debug, Clone, Copy, PartialEq, Eq, Structural)]
pub enum LayoutRole {
    Hero,
    Auth,
    Footer,
}

/// One thing that is drawn.
#[derive(Debug, Clone, Copy, PartialEq, Eq, Structural)]
pub enum DrawStep {
    Clear(ClearColor),
    StaticBackdrops,
    DynamicBackdrops,
    Layers,
    IdentityGroup { dynamic: bool },
    FloatingIdentity,
    FloatingHeader,
    FloatingInput { dynamic: bool },
    FloatingWeather,
    Role { role: LayoutRole, dynamic: bool },
    AuthOrInputGroup { dynamic: bool },
    NowPlaying,
    TopRightIndicators,
    PreviewGrid,
    EmergencyStatic,
    EmergencyDynamic,
}

/// What is drawn and at which scale. A scale of its own takes a scaled theme, and texts are laid
/// out anew for it.
#[derive(Debug)]
pub struct RenderPlan {
    pub scale: u32,
    pub rescaled: bool,
    pub steps: Vec<DrawStep>,
}

/// The parts that stay the same while a password is typed.
pub open spec fn static_steps(layers: bool) -> Seq<DrawStep> {
    let rest = seq![
        DrawStep::IdentityGroup { dynamic: false },
        DrawStep::FloatingIdentity,
        DrawStep::FloatingInput { dynamic: false },
        DrawStep::Role { role: LayoutRole::Hero, dynamic: false },
        DrawStep::AuthOrInputGroup { dynamic: false },
        DrawStep::Role { role: LayoutRole::Footer, dynamic: false },
    ];
    if layers {
        seq![DrawStep::Layers] + rest
    } else {
        rest
    }
}

/// The parts that change from frame to frame.
pub open spec fn dynamic_steps() -> Seq<DrawStep> {
    seq![
        DrawStep::DynamicBackdrops,
        DrawStep::IdentityGroup { dynamic: true },
        DrawStep::Role { role: LayoutRole::Hero, dynamic: true },
        DrawStep::AuthOrInputGroup { dynamic: true },
        DrawStep::Role { role: LayoutRole::Footer, dynamic: true },
        DrawStep::FloatingHeader,
        DrawStep::FloatingInput { dynamic: true },
        DrawStep::FloatingWeather,
        DrawStep::NowPlaying,
        DrawStep::TopRightIndicators,
        DrawStep::PreviewGrid,
    ]
}

/// Everything over the background.
pub open spec fn overlay_steps(core: ShellCore) -> Seq<DrawStep> {
    if core.mode == ShellMode::Emergency {
        seq![DrawStep::EmergencyStatic, DrawStep::EmergencyDynamic]
    } else {
        seq![DrawStep::StaticBackdrops] + static_steps(true) + dynamic_steps()
    }
}

/// A whole frame.
pub open spec fn frame_steps(core: ShellCore) -> Seq<DrawStep> {
    if core.mode == ShellMode::Emergency {
        seq![DrawStep::Clear(emergency::background_color())] + overlay_steps(core)
    } else {
        seq![DrawStep::Clear(core.theme.background)] + overlay_steps(core)
    }
}

/// The static part of a frame.
pub open spec fn static_overlay_steps(core: ShellCore, layers: bool) -> Seq<DrawStep> {
    if core.mode == ShellMode::Emergency {
        seq![DrawStep::EmergencyStatic]
    } else {
        static_steps(layers)
    }
}

/// The dynamic part of a frame.
pub open spec fn dynamic_overlay_steps(core: ShellCore) -> Seq<DrawStep> {
    if core.mode == ShellMode::Emergency {
        seq![DrawStep::EmergencyDynamic]
    } else {
        dynamic_steps()
    }
}

/// The part of a frame that an authentication changes.
pub open spec fn auth_dirty_steps(core: ShellCore) -> Seq<DrawStep> {
    if core.mode == ShellMode::Emergency {
        seq![DrawStep::EmergencyDynamic]
    } else {
        seq![
            DrawStep::AuthOrInputGroup { dynamic: true },
            DrawStep::FloatingInput { dynamic: true },
        ]
    }
}

/// Whether a plan draws these parts at a scale. Scale one is the shell's own scale. The plain lock
/// screen has no theme that could be scaled.
pub open spec fn plans(plan: RenderPlan, core: ShellCore, scale: u32, steps: Seq<DrawStep>) -> bool {
    &&& plan.steps@ == steps
    &&& plan.rescaled == (scale > 1 && core.mode == ShellMode::Rich)
    &&& plan.scale == if scale > 1 {
        scale
    } else {
        core.render_scale
    }
}

/// A plan for the plain lock screen at a scale.
pub open spec fn emergency_plan(core: ShellCore, scale: u32, steps: Vec<DrawStep>) -> RenderPlan {
    RenderPlan {
        scale: if scale <= 1 {
            core.render_scale
        } else {
            scale
        },
        rescaled: false,
        steps,
    }
}

fn push_static_steps(steps: &mut Vec<DrawStep>, layers: bool)
    ensures
        final(steps)@ == old(steps)@ + static_steps(layers),
{
    if layers {
        steps.push(DrawStep::Layers);
    }
    steps.push(DrawStep::IdentityGroup { dynamic: false });
    steps.push(DrawStep::FloatingIdentity);
    steps.push(DrawStep::FloatingInput { dynamic: false });
    steps.push(DrawStep::Role { role: LayoutRole::Hero, dynamic: false });
    steps.push(DrawStep::AuthOrInputGroup { dynamic: false });
    steps.push(DrawStep::Role { role: LayoutRole::Footer, dynamic: false });
    assert(steps@ =~= old(steps)@ + static_steps(layers));
}

fn push_dynamic_steps(steps: &mut Vec<DrawStep>)
    ensures
        final(steps)@ == old(steps)@ + dynamic_steps(),
{
    steps.push(DrawStep::DynamicBackdrops);
    steps.push(DrawStep::IdentityGroup { dynamic: true });
    steps.push(DrawStep::Role { role: LayoutRole::Hero, dynamic: true });
    steps.push(DrawStep::AuthOrInputGroup { dynamic: true });
    steps.push(DrawStep::Role { role: LayoutRole::Footer, dynamic: true });
    steps.push(DrawStep::FloatingHeader);
    steps.push(DrawStep::FloatingInput { dynamic: true });
    steps.push(DrawStep::FloatingWeather);
    steps.push(DrawStep::NowPlaying);
    steps.push(DrawStep::TopRightIndicators);
    steps.push(DrawStep::PreviewGrid);
    assert(steps@ =~= old(steps)@ + dynamic_steps());
}

impl ShellState {
    /// A whole frame.
    pub fn render(&self) -> (steps: Vec<DrawStep>)
        ensures
            steps@ == frame_steps(self.core),
    {
        let mut steps: Vec<DrawStep> = Vec::new();
        if self.emergency_active() {
            steps.push(DrawStep::Clear(emergency_background()));
        } else {
            steps.push(DrawStep::Clear(self.core.theme.background));
        }
        self.push_overlay(&mut steps);
        assert(steps@ =~= frame_steps(self.core));
        steps
    }

    fn push_overlay(&self, steps: &mut Vec<DrawStep>)
        ensures
            final(steps)@ == old(steps)@ + overlay_steps(self.core),
    {
        if self.emergency_active() {
            steps.push(DrawStep::EmergencyStatic);
            steps.push(DrawStep::EmergencyDynamic);
            assert(steps@ =~= old(steps)@ + overlay_steps(self.core));
            return;
        }
        steps.push(DrawStep::StaticBackdrops);
        push_static_steps(steps, true);
        push_dynamic_steps(steps);
        assert(steps@ =~= old(steps)@ + overlay_steps(self.core));
    }

    /// Everything over the background.
    pub fn render_overlay(&self) -> (steps: Vec<DrawStep>)
        ensures
            steps@ == overlay_steps(self.core),
    {
        let mut steps: Vec<DrawStep> = Vec::new();
        self.push_overlay(&mut steps);
        assert(steps@ =~= overlay_steps(self.core));
        steps
    }

    /// The static part of a frame.
    pub fn render_static_overlay(&self) -> (steps: Vec<DrawStep>)
        ensures
            steps@ == static_overlay_steps(self.core, true),
    {
        self.render_static_overlay_with_layers(true)
    }

    /// The static part of a frame without the layers below it.
    pub fn render_static_overlay_without_layers(&self) -> (steps: Vec<DrawStep>)
        ensures
            steps@ == static_overlay_steps(self.core, false),
    {
        self.render_static_overlay_with_layers(false)
    }

    fn render_static_overlay_with_layers(&self, layers: bool) -> (steps: Vec<DrawStep>)
        ensures
            steps@ == static_overlay_steps(self.core, layers),
    {
        let mut steps: Vec<DrawStep> = Vec::new();
        if self.emergency_active() {
            steps.push(DrawStep::EmergencyStatic);
        } else {
            push_static_steps(&mut steps, layers);
        }
        assert(steps@ =~= static_overlay_steps(self.core, layers));
        steps
    }

    /// The dynamic part of a frame.
    pub fn render_dynamic_overlay(&self) -> (steps: Vec<DrawStep>)
        ensures
            steps@ == dynamic_overlay_steps(self.core),
    {
        let mut steps: Vec<DrawStep> = Vec::new();
        if self.emergency_active() {
            steps.push(DrawStep::EmergencyDynamic);
        } else {
            push_dynamic_steps(&mut steps);
        }
        assert(steps@ =~= dynamic_overlay_steps(self.core));
        steps
    }

    fn with_render_scale(&self, scale: u32, steps: Vec<DrawStep>) -> (plan: RenderPlan)
        ensures
            plans(plan, self.core, scale, steps@),
    {
        if scale <= 1 {
            RenderPlan { scale: self.core.render_scale, rescaled: false, steps }
        } else {
            RenderPlan { scale, rescaled: !self.emergency_active(), steps }
        }
    }

    pub fn render_scaled(&self, scale: u32) -> (plan: RenderPlan)
        ensures
            plans(plan, self.core, scale, frame_steps(self.core)),
    {
        self.with_render_scale(scale, self.render())
    }

    pub fn render_overlay_scaled(&self, scale: u32) -> (plan: RenderPlan)
        ensures
            plans(plan, self.core, scale, overlay_steps(self.core)),
    {
        self.with_render_scale(scale, self.render_overlay())
    }

    pub fn render_static_overlay_scaled(&self, scale: u32) -> (plan: RenderPlan)
        ensures
            plans(plan, self.core, scale, static_overlay_steps(self.core, true)),
    {
        self.with_render_scale(scale, self.render_static_overlay())
    }

    pub fn render_static_overlay_without_layers_scaled(&self, scale: u32) -> (plan: RenderPlan)
        ensures
            plans(plan, self.core, scale, static_overlay_steps(self.core, false)),
    {
        self.with_render_scale(scale, self.render_static_overlay_without_layers())
    }

    pub fn render_dynamic_overlay_scaled(&self, scale: u32) -> (plan: RenderPlan)
        ensures
            plans(plan, self.core, scale, dynamic_overlay_steps(self.core)),
    {
        self.with_render_scale(scale, self.render_dynamic_overlay())
    }

    /// A whole frame of the plain lock screen.
    pub fn render_emergency(&self) -> (steps: Vec<DrawStep>)
        ensures
            steps@ == seq![
                DrawStep::Clear(emergency::background_color()),
                DrawStep::EmergencyStatic,
                DrawStep::EmergencyDynamic,
            ],
    {
        let mut steps: Vec<DrawStep> = Vec::new();
        steps.push(DrawStep::Clear(emergency_background()));
        steps.push(DrawStep::EmergencyStatic);
        steps.push(DrawStep::EmergencyDynamic);
        assert(steps@ =~= seq![
            DrawStep::Clear(emergency::background_color()),
            DrawStep::EmergencyStatic,
            DrawStep::EmergencyDynamic,
        ]);
        steps
    }

    /// Everything of the plain lock screen over its background.
    pub fn render_emergency_overlay(&self) -> (steps: Vec<DrawStep>)
        ensures
            steps@ == seq![DrawStep::EmergencyStatic, DrawStep::EmergencyDynamic],
    {
        let mut steps: Vec<DrawStep> = Vec::new();
        steps.push(DrawStep::EmergencyStatic);
        steps.push(DrawStep::EmergencyDynamic);
        assert(steps@ =~= seq![DrawStep::EmergencyStatic, DrawStep::EmergencyDynamic]);
        steps
    }

    /// The plain lock screen has no theme: another scale changes nothing but the scale.
    fn with_emergency_scale(&self, scale: u32, steps: Vec<DrawStep>) -> (plan: RenderPlan)
        ensures
            plan == emergency_plan(self.core, scale, steps),
    {
        if scale <= 1 {
            RenderPlan { scale: self.core.render_scale, rescaled: false, steps }
        } else {
            RenderPlan { scale, rescaled: false, steps }
        }
    }

    pub fn render_emergency_scaled(&self, scale: u32) -> (plan: RenderPlan)
        ensures
            plan == emergency_plan(self.core, scale, plan.steps),
            plan.steps@ == seq![
                DrawStep::Clear(emergency::background_color()),
                DrawStep::EmergencyStatic,
                DrawStep::EmergencyDynamic,
            ],
    {
        self.with_emergency_scale(scale, self.render_emergency())
    }

    pub fn render_emergency_overlay_scaled(&self, scale: u32) -> (plan: RenderPlan)
        ensures
            plan == emergency_plan(self.core, scale, plan.steps),
            plan.steps@ == seq![DrawStep::EmergencyStatic, DrawStep::EmergencyDynamic],
    {
        self.with_emergency_scale(scale, self.render_emergency_overlay())
    }

    pub fn render_emergency_static_overlay_scaled(&self, scale: u32) -> (plan: RenderPlan)
        ensures
            plan == emergency_plan(self.core, scale, plan.steps),
            plan.steps@ == seq![DrawStep::EmergencyStatic],
    {
        let mut steps: Vec<DrawStep> = Vec::new();
        steps.push(DrawStep::EmergencyStatic);
        assert(steps@ =~= seq![DrawStep::EmergencyStatic]);
        self.with_emergency_scale(scale, steps)
    }

    pub fn render_emergency_dynamic_overlay_scaled(&self, scale: u32) -> (plan: RenderPlan)
        ensures
            plan == emergency_plan(self.core, scale, plan.steps),
            plan.steps@ == seq![DrawStep::EmergencyDynamic],
    {
        let mut steps: Vec<DrawStep> = Vec::new();
        steps.push(DrawStep::EmergencyDynamic);
        assert(steps@ =~= seq![DrawStep::EmergencyDynamic]);
        self.with_emergency_scale(scale, steps)
    }

    /// The part of a frame that an authentication changes.
    pub fn render_auth_dirty_overlay_scaled(&self, scale: u32) -> (plan: RenderPlan)
        ensures
            plans(plan, self.core, scale, auth_dirty_steps(self.core)),
    {
        let mut steps: Vec<DrawStep> = Vec::new();
        if self.emergency_active() {
            steps.push(DrawStep::EmergencyDynamic);
        } else {
            steps.push(DrawStep::AuthOrInputGroup { dynamic: true });
            steps.push(DrawStep::FloatingInput { dynamic: true });
        }
        assert(steps@ =~= auth_dirty_steps(self.core));
        self.with_render_scale(scale, steps)
    }
}

/// What a section of the scene shows.
#[derive(Debug, Clone, Copy, PartialEq, Eq, Structural)]
pub enum SceneWidget {
    Clock,
    Date,
    Status { width: u32, height: u32 },
    Username,
    Avatar,
    Input,
    Other,
}

/// A section of the scene; sections are stacked.
#[derive(Debug, Clone, Copy, PartialEq, Eq, Structural)]
pub struct SceneSection {
    pub widget: SceneWidget,
    pub height: i32,
    pub gap_after: i32,
}

/// How a section is drawn in a pass.
#[derive(Debug, Clone, Copy, PartialEq, Eq, Structural)]
pub enum SectionDraw {
    Nothing,
    HeroClock,
    HeroDate,
    CenteredStatus,
    Username,
    Avatar,
    Input,
}

/// What a section draws in the static or in the dynamic pass.
pub open spec fn section_draw(widget: SceneWidget, dynamic: bool, avatar_enabled: bool) -> SectionDraw {
    match widget {
        SceneWidget::Clock => if dynamic {
            SectionDraw::HeroClock
        } else {
            SectionDraw::Nothing
        },
        SceneWidget::Date => if dynamic {
            SectionDraw::HeroDate
        } else {
            SectionDraw::Nothing
        },
        SceneWidget::Status { .. } => if dynamic {
            SectionDraw::CenteredStatus
        } else {
            SectionDraw::Nothing
        },
        SceneWidget::Username => if dynamic {
            SectionDraw::Nothing
        } else {
            SectionDraw::Username
        },
        SceneWidget::Avatar => if !dynamic && avatar_enabled {
            SectionDraw::Avatar
        } else {
            SectionDraw::Nothing
        },
        SceneWidget::Input => SectionDraw::Input,
        SceneWidget::Other => SectionDraw::Nothing,
    }
}

/// Where a section is drawn that stands at `y`: the avatar and the name may be moved from there.
pub open spec fn section_place(theme: ShellTheme, draw: SectionDraw, y: i32) -> i32 {
    match (draw, theme.username_offset_y, theme.avatar_offset_y) {
        (SectionDraw::Username, Some(offset), _) => shape::clamped(y + offset),
        (SectionDraw::Avatar, _, Some(offset)) => shape::clamped(y + offset),
        _ => y,
    }
}

/// What a section that stands at `y` draws in a pass, and where.
pub open spec fn section_drawn(theme: ShellTheme, widget: SceneWidget, y: i32, dynamic: bool) -> (
    SectionDraw,
    i32,
) {
    let draw = section_draw(widget, dynamic, theme.avatar_enabled);
    (draw, section_place(theme, draw, y))
}

impl ShellState {
    /// Decides what a section that stands at `y` draws in a pass, and where.
    pub fn render_section(&self, section: SceneSection, y: i32, dynamic: bool) -> (drawn: (
        SectionDraw,
        i32,
    ))
        ensures
            drawn == section_drawn(self.core.theme, section.widget, y, dynamic),
    {
        let theme = self.core.theme;
        match section.widget {
            SceneWidget::Clock if dynamic => (SectionDraw::HeroClock, y),
            SceneWidget::Date if dynamic => (SectionDraw::HeroDate, y),
            SceneWidget::Status { .. } if dynamic => (SectionDraw::CenteredStatus, y),
            SceneWidget::Username if !dynamic => (
                SectionDraw::Username,
                moved(y, theme.username_offset_y),
            ),
            SceneWidget::Avatar if !dynamic && theme.avatar_enabled => (
                SectionDraw::Avatar,
                moved(y, theme.avatar_offset_y),
            ),
            SceneWidget::Input => (SectionDraw::Input, y),
            _ => (SectionDraw::Nothing, y),
        }
    }
}

fn moved(y: i32, offset: Option<i32>) -> (place: i32)
    ensures
        place == match offset {
            Some(offset) => shape::clamped(y + offset),
            None => y,
        },
{
    match offset {
        Some(offset) => clamp_i64(y as i64 + offset as i64),
        None => y,
    }
}

/// Sections that are stacked together.
#[derive(Debug, Clone, Copy, PartialEq, Eq, Structural)]
pub enum SectionGroup {
    Role(LayoutRole),
    Identity,
    Input,
}

/// The sections that tell who is asked, where they stand apart, and where they start.
pub fn render_identity_group(identity_y: Option<i32>) -> (group: Option<(SectionGroup, i32)>)
    ensures
        group == match identity_y {
            Some(y) => Some((SectionGroup::Identity, y)),
            None => None,
        },
{
    match identity_y {
        Some(y) => Some((SectionGroup::Identity, y)),
        None => None,
    }
}

/// The sections that ask for the password: without those that tell who is asked, where these
/// stand apart.
pub fn render_auth_or_input_group(identity_y: Option<i32>, auth_y: i32) -> (group: (
    SectionGroup,
    i32,
))
    ensures
        group == if identity_y is Some {
            (SectionGroup::Input, auth_y)
        } else {
            (SectionGroup::Role(LayoutRole::Auth), auth_y)
        },
{
    if identity_y.is_some() {
        (SectionGroup::Input, auth_y)
    } else {
        (SectionGroup::Role(LayoutRole::Auth), auth_y)
    }
}

/// The top of the section after one that starts at `y`.
pub open spec fn next_top(y: i32, section: SceneSection) -> i32 {
    shape::clamped(y + section.height + section.gap_after)
}

/// The top of a section in a stack.
pub open spec fn section_top(sections: Seq<SceneSection>, start: i32, index: int) -> i32
    decreases index,
{
    if index <= 0 {
        start
    } else {
        next_top(section_top(sections, start, index - 1), sections[index - 1])
    }
}

fn below(y: i32, section: SceneSection) -> (top: i32)
    ensures
        top == next_top(y, section),
{
    clamp_i64(y as i64 + section.height as i64 + section.gap_after as i64)
}

/// The tops of stacked sections.
pub fn section_tops(sections: &[SceneSection], start: i32) -> (tops: Vec<i32>)
    ensures
        tops@.len() == sections@.len(),
        forall|i: int| 0 <= i < tops@.len() ==> tops@[i] == section_top(sections@, start, i),
{
    let mut tops: Vec<i32> = Vec::new();
    let mut y: i32 = start;
    let mut index: usize = 0;
    while index < sections.len()
        invariant
            index <= sections@.len(),
            tops@.len() == index,
            y == section_top(sections@, start, index as int),
            forall|i: int| 0 <= i < index ==> tops@[i] == section_top(sections@, start, i),
        decreases sections@.len() - index,
    {
        tops.push(y);
        y = below(y, sections[index]);
        index += 1;
    }
    tops
}

impl ShellState {
    /// What a stack of sections draws in a pass, and where.
    pub fn render_role(&self, sections: &[SceneSection], start: i32, dynamic: bool) -> (drawn: Vec<
        (SectionDraw, i32),
    >)
        ensures
            drawn@ == Seq::new(
                sections@.len(),
                |i: int|
                    section_drawn(
                        self.core.theme,
                        sections@[i].widget,
                        section_top(sections@, start, i),
                        dynamic,
                    ),
            ),
    {
        let tops = section_tops(sections, start);
        let mut drawn: Vec<(SectionDraw, i32)> = Vec::new();
        let mut index: usize = 0;
        while index < sections.len()
            invariant
                index <= sections@.len(),
                tops@.len() == sections@.len(),
                forall|i: int|
                    0 <= i < tops@.len() ==> tops@[i] == section_top(sections@, start, i),
                drawn@.len() == index,
                forall|i: int|
                    0 <= i < index ==> (#[trigger] drawn@[i]) == section_drawn(
                        self.core.theme,
                        sections@[i].widget,
                        section_top(sections@, start, i),
                        dynamic,
                    ),
            decreases sections@.len() - index,
        {
            drawn.push(self.render_section(sections[index], tops[index], dynamic));
            index += 1;
        }
        drawn
    }
}

/// The scene's layout, as far as the authentication is concerned.
#[derive(Debug)]
pub struct SceneLayout {
    /// Whether the input stands apart from the stack.
    pub floating_input: bool,
    /// Where the input stands if it has a place of its own.
    pub input_position: Option<Rect>,
    /// Whether that place is at the bottom of the frame.
    pub input_at_bottom: bool,
    /// The extent of the status if it stands apart from the stack.
    pub floating_status: Option<(u32, u32)>,
    /// Where the status stands if it has a place of its own.
    pub status_position: Option<(i32, i32)>,
    /// Whether the status stands by the input.
    pub status_follows_input: bool,
    /// The column that the authentication is centered on.
    pub auth_center_x: i32,
    /// The top of the stack.
    pub auth_y: i32,
    /// Where the input stands in the stack.
    pub input_left: i32,
    pub input_width: i32,
    pub input_height: i32,
    /// The stack of the authentication, or of the input alone where the identity stands apart.
    pub sections: Vec<SceneSection>,
}

/// Space between a floating status and the input.
pub const STATUS_GAP: i32 = 14;

/// The input in the stack.
pub open spec fn stacked_input(layout: SceneLayout, y: i32) -> Rect {
    Rect { x: layout.input_left, y, width: layout.input_width, height: layout.input_height }
}

/// Where a floating status stands: at its own place, else by the input, above it where the input
/// is at the bottom.
pub open spec fn status_origin(layout: SceneLayout, width: u32, height: u32) -> Option<(i32, i32)> {
    match layout.status_position {
        Some(origin) => Some(origin),
        None => if layout.status_follows_input {
            match layout.input_position {
                Some(input) => Some(
                    (
                        shape::clamped(
                            input.x + shape::half(input.width - shape::signed_extent(width)),
                        ),
                        if layout.input_at_bottom {
                            shape::clamped(input.y - STATUS_GAP - shape::signed_extent(height))
                        } else {
                            shape::clamped(input.y + input.height + STATUS_GAP)
                        },
                    ),
                ),
                None => None,
            }
        } else {
            None
        },
    }
}

pub fn floating_status_origin(layout: &SceneLayout, width: u32, height: u32) -> (origin: Option<
    (i32, i32),
>)
    ensures
        origin == status_origin(*layout, width, height),
{
    if let Some(origin) = layout.status_position {
        return Some(origin);
    }
    if layout.status_follows_input {
        if let Some(input) = layout.input_position {
            let x: i64 = input.x as i64 + half_i64(input.width as i64 - signed(width) as i64);
            let y: i64 = if layout.input_at_bottom {
                input.y as i64 - STATUS_GAP as i64 - signed(height) as i64
            } else {
                input.y as i64 + input.height as i64 + STATUS_GAP as i64
            };
            return Some((clamp_i64(x), clamp_i64(y)));
        }
    }
    None
}

/// Where the input and the status stand if they float; only one of the two passes draws the
/// status. A floating widget has a place.
pub fn render_floating_input_widgets(layout: &SceneLayout, dynamic: bool) -> (places: (
    Option<Rect>,
    Option<(i32, i32)>,
))
    requires
        layout.floating_input ==> layout.input_position is Some,
        dynamic ==> match layout.floating_status {
            Some((width, height)) => status_origin(*layout, width, height) is Some,
            None => true,
        },
    ensures
        places.0 == if layout.floating_input {
            layout.input_position
        } else {
            None
        },
        places.1 == match layout.floating_status {
            Some((width, height)) => if dynamic {
                status_origin(*layout, width, height)
            } else {
                None
            },
            None => None,
        },
{
    let input = if layout.floating_input {
        layout.input_position
    } else {
        None
    };
    let status = match layout.floating_status {
        Some((width, height)) if dynamic => floating_status_origin(layout, width, height),
        _ => None,
    };
    (input, status)
}

/// The rectangle that holds what there is of two.
pub open spec fn union_of(current: Option<Rect>, next: Option<Rect>) -> Option<Rect> {
    match (current, next) {
        (Some(current), Some(next)) => Some(shape::bounding(current, next)),
        (Some(current), None) => Some(current),
        (None, Some(next)) => Some(next),
        (None, None) => None,
    }
}

pub fn union_rect(current: Option<Rect>, next: Option<Rect>) -> (result: Option<Rect>)
    ensures
        result == union_of(current, next),
{
    match (current, next) {
        (Some(current), Some(next)) => Some(current.union(next)),
        (Some(current), None) => Some(current),
        (None, Some(next)) => Some(next),
        (None, None) => None,
    }
}

/// What of a section changes with an authentication.
pub open spec fn section_dirt(layout: SceneLayout, section: SceneSection, y: i32) -> Option<Rect> {
    match section.widget {
        SceneWidget::Input => Some(shape::inflate(stacked_input(layout, y), 8)),
        SceneWidget::Status { width, height } => Some(
            Rect {
                x: shape::clamped(
                    layout.auth_center_x - shape::half(shape::signed_extent(width)),
                ),
                y,
                width: shape::signed_extent(width) as i32,
                height: shape::signed_extent(height) as i32,
            },
        ),
        _ => None,
    }
}

/// What of the first `count` sections changes, together with what floats.
pub open spec fn stacked_dirt(layout: SceneLayout, count: int) -> Option<Rect>
    decreases count,
{
    if count <= 0 {
        floating_dirt(layout)
    } else {
        union_of(
            stacked_dirt(layout, count - 1),
            section_dirt(
                layout,
                layout.sections@[count - 1],
                section_top(layout.sections@, layout.auth_y, count - 1),
            ),
        )
    }
}

/// What of the floating parts changes with an authentication.
pub open spec fn floating_dirt(layout: SceneLayout) -> Option<Rect> {
    let input = if layout.floating_input {
        match layout.input_position {
            Some(rect) => Some(shape::inflate(rect, 8)),
            None => None,
        }
    } else {
        None
    };
    match layout.floating_status {
        Some((width, height)) => match status_origin(layout, width, height) {
            Some((x, y)) => union_of(
                input,
                Some(
                    Rect {
                        x,
                        y,
                        width: shape::signed_extent(width) as i32,
                        height: shape::signed_extent(height) as i32,
                    },
                ),
            ),
            None => input,
        },
        None => input,
    }
}

/// The part of a frame that an authentication changes, with a margin; nothing where it lies
/// outside of the frame.
pub open spec fn dirty_rect(layout: SceneLayout, size: FrameSize) -> Option<Rect> {
    match stacked_dirt(layout, layout.sections@.len() as int) {
        Some(rect) => {
            let visible = shape::clip(
                shape::inflate(rect, 12),
                shape::signed_extent(size.width),
                shape::signed_extent(size.height),
            );
            if visible.width <= 0 || visible.height <= 0 {
                None
            } else {
                Some(visible)
            }
        },
        None => None,
    }
}

fn auth_dirty_padding(rect: Rect) -> (padded: Rect)
    ensures
        padded == shape::inflate(rect, 8),
{
    rect.inflated(8)
}

/// Finds the part of a frame that an authentication changes.
pub fn auth_dirty_rect(layout: &SceneLayout, size: FrameSize) -> (rect: Option<Rect>)
    ensures
        rect == dirty_rect(*layout, size),
{
    let mut dirty: Option<Rect> = None;
    if layout.floating_input {
        if let Some(rect) = layout.input_position {
            dirty = Some(auth_dirty_padding(rect));
        }
    }
    if let Some((width, height)) = layout.floating_status {
        if let Some((x, y)) = floating_status_origin(layout, width, height) {
            dirty = union_rect(dirty, Some(Rect::new(x, y, signed(width), signed(height))));
        }
    }
    let mut y: i32 = layout.auth_y;
    let mut index: usize = 0;
    while index < layout.sections.len()
        invariant
            index <= layout.sections@.len(),
            y == section_top(layout.sections@, layout.auth_y, index as int),
            dirty == stacked_dirt(*layout, index as int),
        decreases layout.sections@.len() - index,
    {
        let section = layout.sections[index];
        match section.widget {
            SceneWidget::Input => {
                let rect = Rect::new(
                    layout.input_left,
                    y,
                    layout.input_width,
                    layout.input_height,
                );
                dirty = union_rect(dirty, Some(auth_dirty_padding(rect)));
            },
            SceneWidget::Status { width, height } => {
                let x: i64 = layout.auth_center_x as i64 - half_i64(signed(width) as i64);
                dirty = union_rect(
                    dirty,
                    Some(Rect::new(clamp_i64(x), y, signed(width), signed(height))),
                );
            },
            _ => {},
        }
        y = below(y, section);
        index += 1;
    }
    match dirty {
        Some(rect) => {
            let visible = rect.inflated(12).clipped_to(signed(size.width), signed(size.height));
            if visible.is_empty() {
                None
            } else {
                Some(visible)
            }
        },
        None => None,
    }
}

impl ShellState {
    /// The part of a frame that an authentication changes; the plain lock screen is always drawn
    /// whole.
    pub fn auth_dirty_rect_scaled(&self, layout: &SceneLayout, size: FrameSize) -> (rect: Option<
        Rect,
    >)
        ensures
            rect == if self.core.mode == ShellMode::Emergency {
                None
            } else {
                dirty_rect(*layout, size)
            },
    {
        if self.emergency_active() {
            return None;
        }
        auth_dirty_rect(layout, size)
    }
}

/// The first input in a stack, from a section on.
pub open spec fn first_input(sections: Seq<SceneSection>, from: int) -> Option<int>
    decreases sections.len() - from,
{
    if from < 0 || from >= sections.len() {
        None
    } else if sections[from].widget is Input {
        Some(from)
    } else {
        first_input(sections, from + 1)
    }
}

/// The input that carries the reveal toggle, if the toggle is enabled and there is an input.
pub open spec fn toggle_input(layout: SceneLayout, eye_enabled: bool) -> Option<Rect> {
    if !eye_enabled {
        None
    } else if layout.floating_input {
        layout.input_position
    } else {
        match first_input(layout.sections@, 0) {
            Some(index) => Some(
                stacked_input(layout, section_top(layout.sections@, layout.auth_y, index)),
            ),
            None => None,
        }
    }
}

/// Finds the input that carries the reveal toggle.
pub fn reveal_toggle_rect_for_frame(layout: &SceneLayout, eye_enabled: bool) -> (rect: Option<Rect>)
    ensures
        rect == toggle_input(*layout, eye_enabled),
{
    if !eye_enabled {
        return None;
    }
    if layout.floating_input {
        return layout.input_position;
    }
    let mut y: i32 = layout.auth_y;
    let mut index: usize = 0;
    while index < layout.sections.len()
        invariant
            index <= layout.sections@.len(),
            y == section_top(layout.sections@, layout.auth_y, index as int),
            eye_enabled,
            !layout.floating_input,
            first_input(layout.sections@, 0) == first_input(layout.sections@, index as int),
        decreases layout.sections@.len() - index,
    {
        let section = layout.sections[index];
        if matches!(section.widget, SceneWidget::Input) {
            return Some(
                Rect::new(layout.input_left, y, layout.input_width, layout.input_height),
            );
        }
        y = below(y, section);
        index += 1;
    }
    None
}

/// What stands at the right end of the password input.
#[derive(Debug, Clone, Copy, PartialEq, Eq, Structural)]
pub enum InputRightAdornment {
    Spinner { phase: u8 },
    CapsLock,
    Toggle { hovered: bool, pressed: bool, reveal_secret: bool },
    Nothing,
}

/// How the password input is drawn in a pass.
#[derive(Debug)]
pub struct InputWidget {
    pub rect: Rect,
    pub secret_len: usize,
    pub focused: bool,
    pub text_width: u32,
    pub reveal_secret: bool,
    pub inline_status: Option<String>,
    pub right_adornment: InputRightAdornment,
    pub draw_shell: bool,
    pub draw_content: bool,
}

/// What stands at the right end: the spinner while an authentication is under way, else the
/// warning about caps lock, else the reveal toggle.
pub open spec fn adornment(core: ShellCore, now: Moment) -> InputRightAdornment {
    match input::spinner_phase(core.status, now) {
        Some(phase) => InputRightAdornment::Spinner { phase },
        None => if core.caps_lock_active && core.theme.caps_lock_enabled {
            InputRightAdornment::CapsLock
        } else if core.theme.eye_enabled {
            InputRightAdornment::Toggle {
                hovered: core.reveal_toggle_hovered,
                pressed: core.reveal_toggle_pressed,
                reveal_secret: core.reveal_secret,
            }
        } else {
            InputRightAdornment::Nothing
        },
    }
}

/// Whether the frame of the input changes with what is typed.
pub open spec fn shell_is_dynamic(core: ShellCore) -> bool {
    core.secret_selected || core.status is Rejected
}

/// What is said of an authentication inside the input.
pub open spec fn inline_words(core: ShellCore) -> Option<Seq<char>> {
    if !shell::input_is_visible(core) || !core.theme.status_enabled || !core.theme.status_inline {
        None
    } else {
        emergency::emergency_words(core.status)
    }
}

/// What is said of the fingerprint reader.
pub open spec fn fingerprint_words(status: FingerprintStatus) -> Seq<char> {
    match status {
        FingerprintStatus::Ready => "Touch fingerprint reader"@,
        FingerprintStatus::Scanning => "Reading fingerprint"@,
        FingerprintStatus::Accepted => "Fingerprint accepted"@,
        FingerprintStatus::NotRecognized => "Fingerprint not recognized"@,
        FingerprintStatus::NoEnrolledFingers => "No enrolled fingerprints"@,
        FingerprintStatus::Unavailable => "Fingerprint unavailable"@,
        FingerprintStatus::Error => "Fingerprint error"@,
    }
}

/// How many attempts failed, in words.
pub open spec fn attempts_words(failed_attempts: u8) -> Seq<char> {
    text::decimal(failed_attempts as nat) + " failed attempt"@ + if failed_attempts == 1 {
        ""@
    } else {
        "s"@
    }
}

/// What is said of a refusal.
pub open spec fn rejected_words(failed_attempts: Option<u8>, retry_seconds: Option<u64>) -> Seq<
    char,
> {
    let start = match failed_attempts {
        Some(failed) => "Authentication failed ("@ + attempts_words(failed) + ")"@,
        None => "Authentication failed"@,
    };
    match retry_seconds {
        Some(seconds) => if seconds > 0 {
            start + ", retry in "@ + text::decimal(seconds as nat) + "s"@
        } else {
            start
        },
        None => start,
    }
}

/// What is said of an authentication, or of the fingerprint reader while there is none.
pub open spec fn status_words(core: ShellCore) -> Option<Seq<char>> {
    match core.status {
        ShellStatus::Idle => match core.fingerprint_status {
            Some(status) => Some(fingerprint_words(status)),
            None => None,
        },
        ShellStatus::Pending { shown, .. } => if shown {
            Some("Checking authentication"@)
        } else {
            None
        },
        ShellStatus::Rejected { displayed_retry_seconds, failed_attempts, .. } => Some(
            rejected_words(failed_attempts, displayed_retry_seconds),
        ),
    }
}

/// Whether a text says these words.
pub open spec fn says(text: Option<String>, words: Option<Seq<char>>) -> bool {
    match (text, words) {
        (Some(text), Some(words)) => text@ == words,
        (None, None) => true,
        _ => false,
    }
}

pub fn rejected_status_text(failed_attempts: Option<u8>, retry_seconds: Option<u64>) -> (words:
    String)
    ensures
        words@ == rejected_words(failed_attempts, retry_seconds),
{
    let mut words = "Authentication failed".to_owned();
    if let Some(failed) = failed_attempts {
        words = text::joined(
            "Authentication failed (",
            text::decimal_text(failed as u128).as_str(),
        );
        words.append(" failed attempt");
        if failed != 1 {
            words.append("s");
        }
        words.append(")");
        proof {
            reveal_strlit("");
            assert(words@ =~= "Authentication failed ("@ + attempts_words(failed) + ")"@);
        }
    }
    if let Some(seconds) = retry_seconds {
        if seconds > 0 {
            words.append(", retry in ");
            words.append(text::decimal_text(seconds as u128).as_str());
            words.append("s");
        }
    }
    words
}

impl ShellState {
    pub fn status_text(&self) -> (words: Option<String>)
        ensures
            says(words, status_words(self.core)),
    {
        match self.core.status {
            ShellStatus::Idle => self.fingerprint_status_text(),
            ShellStatus::Pending { shown, .. } => if shown {
                Some("Checking authentication".to_owned())
            } else {
                None
            },
            ShellStatus::Rejected { displayed_retry_seconds, failed_attempts, .. } => Some(
                rejected_status_text(failed_attempts, displayed_retry_seconds),
            ),
        }
    }

    pub fn inline_input_status_text(&self) -> (words: Option<String>)
        ensures
            says(words, inline_words(self.core)),
    {
        if !self.input_visible() || !self.core.theme.status_enabled
            || !self.core.theme.status_inline {
            return None;
        }
        match self.core.status {
            ShellStatus::Idle => None,
            ShellStatus::Pending { shown, .. } => if shown {
                Some("Checking...".to_owned())
            } else {
                None
            },
            ShellStatus::Rejected { displayed_retry_seconds, .. } => Some(
                refusal_text(displayed_retry_seconds),
            ),
        }
    }

    fn fingerprint_status_text(&self) -> (words: Option<String>)
        ensures
            says(
                words,
                match self.core.fingerprint_status {
                    Some(status) => Some(fingerprint_words(status)),
                    None => None,
                },
            ),
    {
        match self.core.fingerprint_status {
            Some(status) => Some(
                match status {
                    FingerprintStatus::Ready => "Touch fingerprint reader".to_owned(),
                    FingerprintStatus::Scanning => "Reading fingerprint".to_owned(),
                    FingerprintStatus::Accepted => "Fingerprint accepted".to_owned(),
                    FingerprintStatus::NotRecognized => "Fingerprint not recognized".to_owned(),
                    FingerprintStatus::NoEnrolledFingers => "No enrolled fingerprints".to_owned(),
                    FingerprintStatus::Unavailable => "Fingerprint unavailable".to_owned(),
                    FingerprintStatus::Error => "Fingerprint error".to_owned(),
                },
            ),
            None => None,
        }
    }

    pub fn input_shell_is_dynamic(&self) -> (dynamic: bool)
        ensures
            dynamic == shell_is_dynamic(self.core),
    {
        self.core.secret_selected || matches!(self.core.status, ShellStatus::Rejected { .. })
    }

    /// How the password input is drawn in a pass.
    pub fn render_input_widget(&self, rect: Rect, dynamic: bool, now: Moment) -> (widget:
        InputWidget)
        ensures
            widget.rect == rect,
            widget.secret_len == self.secret@.len(),
            widget.focused == self.core.focused,
            widget.reveal_secret == (self.core.reveal_secret && self.secret@.len() > 0),
            says(
                widget.inline_status,
                if dynamic {
                    inline_words(self.core)
                } else {
                    None
                },
            ),
            widget.right_adornment == adornment(self.core, now),
            widget.draw_shell == (dynamic == shell_is_dynamic(self.core)),
            widget.draw_content == dynamic,
            widget.text_width == ({
                let inner = shape::max_int(rect.width - 92, i32::MIN as int);
                if inner >= 0 {
                    inner as u32
                } else {
                    (inner + 0x1_0000_0000) as u32
                }
            }),
    {
        let right_adornment = match self.pending_spinner_phase(now) {
            Some(phase) => InputRightAdornment::Spinner { phase },
            None => if self.core.caps_lock_active && self.core.theme.caps_lock_enabled {
                InputRightAdornment::CapsLock
            } else if self.core.theme.eye_enabled {
                InputRightAdornment::Toggle {
                    hovered: self.core.reveal_toggle_hovered,
                    pressed: self.core.reveal_toggle_pressed,
                    reveal_secret: self.core.reveal_secret,
                }
            } else {
                InputRightAdornment::Nothing
            },
        };
        let inline_status = if dynamic {
            self.inline_input_status_text()
        } else {
            None
        };
        InputWidget {
            rect,
            secret_len: self.secret.char_count(),
            focused: self.core.focused,
            text_width: inner_width(rect.width, 92),
            reveal_secret: self.core.reveal_secret && !self.secret.is_empty(),
            inline_status,
            right_adornment,
            draw_shell: dynamic == self.input_shell_is_dynamic(),
            draw_content: dynamic,
        }
    }

    /// The lines of the preview grid across an extent, if the grid is shown.
    pub fn render_preview_grid_overlay(&self, extent: i32) -> (lines: Option<Vec<GridLine>>)
        requires
            self.core.preview_grid_enabled ==> match self.core.theme.grid {
                Some(grid) => grid.cell_size > 0 && grid.major_every != 0 && grid_fits(
                    extent as int,
                    grid.cell_size as int,
                ),
                None => true,
            },
        ensures
            match (lines, self.core.theme.grid) {
                (Some(lines), Some(grid)) => self.core.preview_grid_enabled && lines@
                    == grid_lines(extent as int, grid.cell_size as int, grid.major_every as int),
                (None, grid) => !self.core.preview_grid_enabled || grid is None,
                _ => false,
            },
    {
        if !self.core.preview_grid_enabled {
            return None;
        }
        match self.core.theme.grid {
            Some(grid) => Some(lines_across(extent, grid.cell_size, grid.major_every)),
            None => None,
        }
    }
}

/// A line of the preview grid.
#[derive(Debug, Clone, Copy, PartialEq, Eq, Structural)]
pub struct GridLine {
    pub at: i32,
    pub major: bool,
}

impl PreviewGrid {
    pub open spec fn line_color(self, line: GridLine) -> ClearColor {
        if line.major {
            self.major_color
        } else {
            self.color
        }
    }

    /// A line from top to bottom of a frame of this height, and its color.
    pub fn draw_grid_vertical_line(self, line: GridLine, height: i32) -> (drawn: (
        Rect,
        ClearColor,
    ))
        ensures
            drawn.0 == (Rect { x: line.at, y: 0, width: 1, height }),
            drawn.1 == self.line_color(line),
    {
        let color = if line.major {
            self.major_color
        } else {
            self.color
        };
        (Rect::new(line.at, 0, 1, height), color)
    }

    /// A line from side to side of a frame of this width, and its color.
    pub fn draw_grid_horizontal_line(self, line: GridLine, width: i32) -> (drawn: (
        Rect,
        ClearColor,
    ))
        ensures
            drawn.0 == (Rect { x: 0, y: line.at, width, height: 1 }),
            drawn.1 == self.line_color(line),
    {
        let color = if line.major {
            self.major_color
        } else {
            self.color
        };
        (Rect::new(0, line.at, width, 1), color)
    }
}

/// How many lines there are from the middle on.
pub open spec fn lines_forward(extent: int, cell: int) -> int {
    if extent <= 0 {
        0
    } else {
        (extent - extent / 2 + cell - 1) / cell
    }
}

/// Whether the place behind the last line can be counted.
pub open spec fn grid_fits(extent: int, cell: int) -> bool {
    extent <= 0 || extent / 2 + lines_forward(extent, cell) * cell <= i32::MAX
}

/// How many lines there are before the middle.
pub open spec fn lines_backward(extent: int, cell: int) -> int {
    if extent <= 0 {
        0
    } else {
        extent / 2 / cell
    }
}

/// Whether the line that is `index` cells from the middle is a major one.
pub open spec fn is_major(index: int, major_every: int) -> bool {
    if major_every > 0 {
        index % major_every == 0
    } else {
        index % (-major_every) == 0
    }
}

/// The lines of the grid: from the middle on, then back from the middle.
pub open spec fn grid_lines(extent: int, cell: int, major_every: int) -> Seq<GridLine> {
    Seq::new(
        lines_forward(extent, cell) as nat,
        |k: int|
            GridLine { at: (extent / 2 + k * cell) as i32, major: is_major(k, major_every) },
    ) + Seq::new(
        lines_backward(extent, cell) as nat,
        |k: int|
            GridLine {
                at: (extent / 2 - (k + 1) * cell) as i32,
                major: is_major(k + 1, major_every),
            },
    )
}

fn major_line(index: i32, major_every: i32) -> (major: bool)
    requires
        index >= 0,
        major_every != 0,
    ensures
        major == is_major(index as int, major_every as int),
{
    let every: i64 = if major_every > 0 {
        major_every as i64
    } else {
        -(major_every as i64)
    };
    index as i64 % every == 0
}

proof fn lemma_forward(extent: int, cell: int, k: int)
    requires
        cell > 0,
        extent > 0,
        k >= 0,
    ensures
        (extent / 2 + k * cell < extent) == (k < lines_forward(extent, cell)),
{
    let span = extent - extent / 2;
    let count = (span + cell - 1) / cell;
    assert(count * cell <= span + cell - 1 < count * cell + cell) by (nonlinear_arith)
        requires
            cell > 0,
            count == (span + cell - 1) / cell,
    ;
    if k < count {
        assert(k * cell <= (count - 1) * cell) by (nonlinear_arith)
            requires
                k <= count - 1,
                cell > 0,
        ;
        assert((count - 1) * cell == count * cell - cell) by (nonlinear_arith);
    } else {
        assert(k * cell >= count * cell) by (nonlinear_arith)
            requires
                k >= count,
                cell > 0,
        ;
    }
}

proof fn lemma_backward(extent: int, cell: int, k: int)
    requires
        cell > 0,
        extent > 0,
        k >= 0,
    ensures
        (extent / 2 - (k + 1) * cell >= 0) == (k < lines_backward(extent, cell)),
{
    let half = extent / 2;
    let count = half / cell;
    assert(count * cell <= half < count * cell + cell) by (nonlinear_arith)
        requires
            cell > 0,
            half >= 0,
            count == half / cell,
    ;
    if k < count {
        assert((k + 1) * cell <= count * cell) by (nonlinear_arith)
            requires
                k + 1 <= count,
                cell > 0,
        ;
    } else {
        assert((k + 1) * cell >= count * cell + cell) by (nonlinear_arith)
            requires
                k >= count,
                cell > 0,
        ;
    }
}

fn lines_across(extent: i32, cell_size: i32, major_every: i32) -> (lines: Vec<GridLine>)
    requires
        cell_size > 0,
        major_every != 0,
        grid_fits(extent as int, cell_size as int),
    ensures
        lines@ == grid_lines(extent as int, cell_size as int, major_every as int),
{
    let mut lines: Vec<GridLine> = Vec::new();
    if extent <= 0 {
        assert(lines@ =~= grid_lines(extent as int, cell_size as int, major_every as int));
        return lines;
    }
    let ghost forward = lines_forward(extent as int, cell_size as int);
    let ghost backward = lines_backward(extent as int, cell_size as int);
    let center: i32 = extent / 2;
    let mut at: i32 = center;
    let mut index: i32 = 0;
    proof {
        lemma_forward(extent as int, cell_size as int, 0);
        assert(0 * cell_size == 0) by (nonlinear_arith);
    }
    while at < extent
        invariant
            extent > 0,
            cell_size > 0,
            major_every != 0,
            grid_fits(extent as int, cell_size as int),
            center == extent / 2,
            index >= 0,
            at == center + index * cell_size,
            index <= at - center,
            forward == lines_forward(extent as int, cell_size as int),
            index <= forward,
            (at < extent) == (index < forward),
            lines@.len() == index,
            forall|k: int|
                0 <= k < index ==> lines@[k] == (GridLine {
                    at: (extent as int / 2 + k * cell_size) as i32,
                    major: is_major(k, major_every as int),
                }),
        decreases forward - index,
    {
        lines.push(GridLine { at, major: major_line(index, major_every) });
        proof {
            assert((index + 1) * cell_size <= forward * cell_size) by (nonlinear_arith)
                requires
                    index + 1 <= forward,
                    cell_size > 0,
            ;
            assert((index + 1) * cell_size == index * cell_size + cell_size) by (nonlinear_arith);
            lemma_forward(extent as int, cell_size as int, index + 1);
        }
        index += 1;
        at += cell_size;
    }
    let ghost first = lines@;
    let mut at: i32 = center - cell_size;
    let mut index: i32 = 1;
    proof {
        lemma_backward(extent as int, cell_size as int, 0);
        assert((0 + 1) * cell_size == cell_size) by (nonlinear_arith);
    }
    while at >= 0
        invariant
            extent > 0,
            cell_size > 0,
            major_every != 0,
            center == extent / 2,
            index >= 1,
            at == center - index * cell_size,
            index <= center - at,
            at >= -(cell_size as int),
            backward == lines_backward(extent as int, cell_size as int),
            index - 1 <= backward,
            (at >= 0) == (index - 1 < backward),
            first.len() == forward,
            forall|k: int|
                0 <= k < first.len() ==> first[k] == (GridLine {
                    at: (extent as int / 2 + k * cell_size) as i32,
                    major: is_major(k, major_every as int),
                }),
            lines@.len() == first.len() + index - 1,
            forall|k: int| 0 <= k < first.len() ==> lines@[k] == first[k],
            forall|j: int|
                first.len() <= j < lines@.len() ==> lines@[j] == (GridLine {
                    at: (extent as int / 2 - (j - first.len() + 1) * cell_size) as i32,
                    major: is_major(j - first.len() + 1, major_every as int),
                }),
        decreases at + cell_size,
    {
        lines.push(GridLine { at, major: major_line(index, major_every) });
        proof {
            assert((index + 1) * cell_size == index * cell_size + cell_size) by (nonlinear_arith);
            lemma_backward(extent as int, cell_size as int, index as int);
        }
        index += 1;
        at -= cell_size;
    }
    proof {
        let expected = grid_lines(extent as int, cell_size as int, major_every as int);
        assert(expected.len() == forward + backward);
        assert forall|j: int| 0 <= j < expected.len() implies lines@[j] == expected[j] by {
            if j < forward {
                assert(lines@[j] == first[j]);
            }
        }
        assert(lines@ =~= expected);
    }
    lines
}

/// A redraw of the whole frame draws the static parts before the dynamic ones, each exactly once.
pub proof fn law_frame_is_static_then_dynamic(core: ShellCore)
    requires
        core.mode == ShellMode::Rich,
    ensures
        overlay_steps(core) == seq![DrawStep::StaticBackdrops] + static_overlay_steps(core, true)
            + dynamic_overlay_steps(core),
        frame_steps(core) == seq![DrawStep::Clear(core.theme.background)] + overlay_steps(core),
{
}

/// What an authentication changes lies inside the frame and is not empty.
pub proof fn law_dirty_part_lies_in_the_frame(layout: SceneLayout, size: FrameSize)
    requires
        dirty_rect(layout, size) is Some,
        size.width <= i32::MAX,
        size.height <= i32::MAX,
    ensures
        ({
            let rect = dirty_rect(layout, size)->0;
            &&& rect.width > 0 && rect.height > 0
            &&& rect.x >= 0 && rect.y >= 0
            &&& rect.x + rect.width <= size.width
            &&& rect.y + rect.height <= size.height
        }),
{
}

/// Coordinates stay this far from the ends of the number range where parts are joined exactly.
pub const PLANE_LIMIT: i32 = 0x2000_0000;

/// The input or the status that a section shows.
pub open spec fn changing_section(layout: SceneLayout, index: int) -> Option<Rect> {
    let y = section_top(layout.sections@, layout.auth_y, index);
    match layout.sections@[index].widget {
        SceneWidget::Input => Some(stacked_input(layout, y)),
        _ => section_dirt(layout, layout.sections@[index], y),
    }
}

/// The input, where it floats.
pub open spec fn changing_input(layout: SceneLayout) -> Option<Rect> {
    if layout.floating_input {
        layout.input_position
    } else {
        None
    }
}

/// The status, where it floats.
pub open spec fn changing_status(layout: SceneLayout) -> Option<Rect> {
    floating_dirt(SceneLayout { floating_input: false, ..layout })
}

/// Whether a part lies on this side of the limit.
pub open spec fn in_plane(part: Option<Rect>) -> bool {
    part matches Some(rect) ==> rect.x >= -PLANE_LIMIT && rect.y >= -PLANE_LIMIT
}

/// Whether every part that an authentication changes lies on this side of the limit.
pub open spec fn layout_in_plane(layout: SceneLayout) -> bool {
    &&& in_plane(changing_input(layout))
    &&& in_plane(changing_status(layout))
    &&& forall|index: int|
        0 <= index < layout.sections@.len() ==> in_plane(#[trigger] changing_section(layout, index))
}

/// Whether a part covers a pixel.
pub open spec fn part_covers(part: Option<Rect>, x: int, y: int) -> bool {
    part matches Some(rect) && shape::covers(rect, x, y)
}

/// Whether an authentication changes a pixel: it belongs to the input or to the status.
pub open spec fn changes_at(layout: SceneLayout, x: int, y: int) -> bool {
    ||| part_covers(changing_input(layout), x, y)
    ||| part_covers(changing_status(layout), x, y)
    ||| exists|index: int|
        0 <= index < layout.sections@.len() && part_covers(
            #[trigger] changing_section(layout, index),
            x,
            y,
        )
}

/// Whether a joined part lies far enough from the limits.
spec fn joined_in_plane(part: Option<Rect>) -> bool {
    part matches Some(rect) ==> rect.x >= -PLANE_LIMIT - 8 && rect.y >= -PLANE_LIMIT - 8
}

proof fn lemma_union_covers(current: Option<Rect>, next: Option<Rect>, x: int, y: int)
    requires
        joined_in_plane(current),
        joined_in_plane(next),
        0 <= x < PLANE_LIMIT,
        0 <= y < PLANE_LIMIT,
    ensures
        joined_in_plane(union_of(current, next)),
        part_covers(current, x, y) || part_covers(next, x, y) ==> part_covers(
            union_of(current, next),
            x,
            y,
        ),
{
}

proof fn lemma_inflated_covers(rect: Rect, amount: int, x: int, y: int)
    requires
        0 <= amount <= 12,
        rect.x >= -PLANE_LIMIT - 8,
        rect.y >= -PLANE_LIMIT - 8,
        0 <= x < PLANE_LIMIT,
        0 <= y < PLANE_LIMIT,
        shape::covers(rect, x, y),
    ensures
        shape::covers(shape::inflate(rect, amount), x, y),
{
}

proof fn lemma_floating_dirt_covers(layout: SceneLayout, x: int, y: int)
    requires
        layout_in_plane(layout),
        0 <= x < PLANE_LIMIT,
        0 <= y < PLANE_LIMIT,
    ensures
        joined_in_plane(floating_dirt(layout)),
        part_covers(changing_input(layout), x, y) ==> part_covers(floating_dirt(layout), x, y),
        part_covers(changing_status(layout), x, y) ==> part_covers(floating_dirt(layout), x, y),
{
    let input = match changing_input(layout) {
        Some(rect) => Some(shape::inflate(rect, 8)),
        None => None,
    };
    if part_covers(changing_input(layout), x, y) {
        lemma_inflated_covers(changing_input(layout)->0, 8, x, y);
    }
    lemma_union_covers(input, changing_status(layout), x, y);
    assert(floating_dirt(layout) == union_of(input, changing_status(layout)));
}

proof fn lemma_stacked_dirt_covers(layout: SceneLayout, count: int, x: int, y: int)
    requires
        layout_in_plane(layout),
        0 <= count <= layout.sections@.len(),
        0 <= x < PLANE_LIMIT,
        0 <= y < PLANE_LIMIT,
    ensures
        joined_in_plane(stacked_dirt(layout, count)),
        part_covers(floating_dirt(layout), x, y) ==> part_covers(stacked_dirt(layout, count), x, y),
        forall|index: int|
            0 <= index < count && part_covers(#[trigger] changing_section(layout, index), x, y)
                ==> part_covers(stacked_dirt(layout, count), x, y),
    decreases count,
{
    lemma_floating_dirt_covers(layout, x, y);
    if count > 0 {
        lemma_stacked_dirt_covers(layout, count - 1, x, y);
        let part = changing_section(layout, count - 1);
        let dirt = section_dirt(
            layout,
            layout.sections@[count - 1],
            section_top(layout.sections@, layout.auth_y, count - 1),
        );
        if part_covers(part, x, y) && layout.sections@[count - 1].widget is Input {
            lemma_inflated_covers(part->0, 8, x, y);
        }
        lemma_union_covers(stacked_dirt(layout, count - 1), dirt, x, y);
    }
}

/// Every pixel of the frame that an authentication changes lies in the part that is drawn anew.
pub proof fn law_dirty_part_covers_what_changes(
    layout: SceneLayout,
    size: FrameSize,
    x: int,
    y: int,
)
    requires
        layout_in_plane(layout),
        size.width <= PLANE_LIMIT,
        size.height <= PLANE_LIMIT,
        0 <= x < size.width,
        0 <= y < size.height,
        changes_at(layout, x, y),
    ensures
        part_covers(dirty_rect(layout, size), x, y),
{
    let count = layout.sections@.len() as int;
    lemma_stacked_dirt_covers(layout, count, x, y);
    lemma_floating_dirt_covers(layout, x, y);
    let rect = stacked_dirt(layout, count)->0;
    lemma_inflated_covers(rect, 12, x, y);
    shape::law_clipping_keeps_the_visible_part(
        shape::inflate(rect, 12),
        size.width as int,
        size.height as int,
        x,
        y,
    );
}

/// Each part of the stack starts below the one before it, as far as that is high and the gap after
/// it is wide; the first one starts at the top.
pub proof fn law_sections_stand_one_below_the_other(
    sections: Seq<SceneSection>,
    start: i32,
    index: int,
)
    requires
        0 <= index,
    ensures
        section_top(sections, start, 0) == start,
        ({
            let top = section_top(sections, start, index);
            let next = top + sections[index].height + sections[index].gap_after;
            i32::MIN <= next <= i32::MAX ==> section_top(sections, start, index + 1) == next
        }),
{
}

/// What changes is drawn with the changing part of a frame and what stays with the lasting one; the
/// input is drawn with both.
pub proof fn law_sections_are_drawn_with_their_part(widget: SceneWidget, avatar_enabled: bool)
    ensures
        ({
            let changing = section_draw(widget, true, avatar_enabled);
            let lasting = section_draw(widget, false, avatar_enabled);
            &&& widget is Clock ==> changing is HeroClock && lasting is Nothing
            &&& widget is Date ==> changing is HeroDate && lasting is Nothing
            &&& widget is Status ==> changing is CenteredStatus && lasting is Nothing
            &&& widget is Username ==> changing is Nothing && lasting is Username
            &&& widget is Avatar && avatar_enabled ==> changing is Nothing && lasting is Avatar
            &&& widget is Avatar && !avatar_enabled ==> changing is Nothing && lasting is Nothing
            &&& widget is Input ==> changing is Input && lasting is Input
        }),
{
}

/// The name and the avatar are moved by their own offsets; nothing else is moved.
pub proof fn law_offsets_move_their_own_widget(theme: ShellTheme, draw: SectionDraw, y: i32)
    ensures
        ({
            let place = section_place(theme, draw, y);
            &&& draw is Username ==> (theme.username_offset_y matches Some(offset) ==> (i32::MIN <= y
                + offset <= i32::MAX ==> place == y + offset))
            &&& draw is Username && theme.username_offset_y is None ==> place == y
            &&& draw is Avatar ==> (theme.avatar_offset_y matches Some(offset) ==> (i32::MIN <= y
                + offset <= i32::MAX ==> place == y + offset))
            &&& draw is Avatar && theme.avatar_offset_y is None ==> place == y
            &&& !(draw is Username) && !(draw is Avatar) ==> place == y
        }),
{
}

/// A status without a place of its own stands centered by the input, fourteen points below it, or
/// above it where the input is at the bottom; its own place comes first.
pub proof fn law_status_stands_by_the_input(
    layout: SceneLayout,
    width: u32,
    height: u32,
    input: Rect,
)
    requires
        layout.input_position == Some(input),
        width <= 0x1000_0000,
        height <= 0x1000_0000,
        0 <= input.width <= 0x1000_0000,
        0 <= input.height <= 0x1000_0000,
        -0x1000_0000 <= input.x <= 0x1000_0000,
        -0x1000_0000 <= input.y <= 0x1000_0000,
    ensures
        layout.status_position is Some ==> status_origin(layout, width, height)
            == layout.status_position,
        layout.status_position is None && !layout.status_follows_input ==> status_origin(
            layout,
            width,
            height,
        ) is None,
        layout.status_position is None && layout.status_follows_input ==> (status_origin(
            layout,
            width,
            height,
        ) matches Some((x, y)) && {
            &&& -1 <= (2 * x + width) - (2 * input.x + input.width) <= 1
            &&& layout.input_at_bottom ==> y + height + 14 == input.y
            &&& !layout.input_at_bottom ==> y == input.y + input.height + 14
        }),
{
}

/// The toggle is looked for where the input stands, on its own or in the stack, and nowhere while
/// it is off.
pub proof fn law_toggle_is_where_the_input_is(layout: SceneLayout, index: int)
    ensures
        toggle_input(layout, false) is None,
        layout.floating_input ==> toggle_input(layout, true) == layout.input_position,
        !layout.floating_input && 0 <= index < layout.sections@.len()
            && layout.sections@[index].widget is Input && (forall|i: int|
            0 <= i < index ==> !((#[trigger] layout.sections@[i]).widget is Input)) ==> (
        toggle_input(layout, true) matches Some(rect) && rect.x == layout.input_left && rect.width
            == layout.input_width && rect.height == layout.input_height && rect.y == section_top(
            layout.sections@,
            layout.auth_y,
            index,
        )),
        !layout.floating_input && (forall|i: int|
            0 <= i < layout.sections@.len() ==> !((#[trigger] layout.sections@[i]).widget is Input))
            ==> toggle_input(layout, true) is None,
{
    if 0 <= index < layout.sections@.len() {
        lemma_first_input(layout.sections@, 0, index);
    }
    if layout.sections@.len() > 0 {
        lemma_no_input(layout.sections@, 0);
    }
}

proof fn lemma_first_input(sections: Seq<SceneSection>, from: int, index: int)
    requires
        0 <= from <= index < sections.len(),
    ensures
        sections[index].widget is Input && (forall|i: int|
            from <= i < index ==> !((#[trigger] sections[i]).widget is Input)) ==> first_input(
            sections,
            from,
        ) == Some(index),
    decreases index - from,
{
    if from < index {
        lemma_first_input(sections, from + 1, index);
    }
}

proof fn lemma_no_input(sections: Seq<SceneSection>, from: int)
    requires
        0 <= from,
    ensures
        (forall|i: int| from <= i < sections.len() ==> !((#[trigger] sections[i]).widget is Input))
            ==> first_input(sections, from) is None,
    decreases sections.len() - from,
{
    if from < sections.len() {
        lemma_no_input(sections, from + 1);
    }
}

/// A sign that Caps Lock is on comes before the toggle, and the sign of a check that runs before
/// both; each is shown only where it is switched on.
pub proof fn law_most_urgent_sign_is_shown(core: ShellCore, now: Moment)
    ensures
        ({
            let shown = adornment(core, now);
            let checking = input::spinner_phase(core.status, now);
            &&& checking is Some ==> shown == (InputRightAdornment::Spinner { phase: checking->0 })
            &&& checking is None && core.caps_lock_active && core.theme.caps_lock_enabled
                ==> shown is CapsLock
            &&& checking is None && !(core.caps_lock_active && core.theme.caps_lock_enabled)
                && core.theme.eye_enabled ==> (shown matches InputRightAdornment::Toggle {
                hovered,
                pressed,
                reveal_secret,
            } && hovered == core.reveal_toggle_hovered && pressed == core.reveal_toggle_pressed
                && reveal_secret == core.reveal_secret)
            &&& checking is None && !(core.caps_lock_active && core.theme.caps_lock_enabled)
                && !core.theme.eye_enabled ==> shown is Nothing
        }),
{
}

/// What is said of a refusal tells the failed attempts, one or several, and the seconds left to
/// wait, where they are known and not over.
pub proof fn law_refusal_tells_attempts_and_wait(failed: u8, seconds: u64)
    ensures
        rejected_words(None, None) == "Authentication failed"@,
        rejected_words(None, Some(0)) == "Authentication failed"@,
        failed != 1 ==> rejected_words(Some(failed), None) == "Authentication failed ("@
            + text::decimal(failed as nat) + " failed attempts)"@,
        rejected_words(Some(1), None) == "Authentication failed (1 failed attempt)"@,
        seconds > 0 ==> rejected_words(None, Some(seconds)) == "Authentication failed, retry in "@
            + text::decimal(seconds as nat) + "s"@,
{
    reveal_strlit("Authentication failed");
    reveal_strlit("Authentication failed (");
    reveal_strlit(" failed attempt");
    reveal_strlit("");
    reveal_strlit("s");
    reveal_strlit(")");
    reveal_strlit(", retry in ");
    reveal_strlit("Authentication failed, retry in ");
    reveal_strlit(" failed attempts)");
    reveal_strlit("Authentication failed (1 failed attempt)");
    let one = text::decimal(1);
    assert(one == seq!['1']);
    assert(rejected_words(Some(1), None) =~= "Authentication failed (1 failed attempt)"@);
    if failed != 1 {
        assert(rejected_words(Some(failed), None) =~= "Authentication failed ("@ + text::decimal(
            failed as nat,
        ) + " failed attempts)"@);
    }
    if seconds > 0 {
        assert(rejected_words(None, Some(seconds)) =~= "Authentication failed, retry in "@
            + text::decimal(seconds as nat) + "s"@);
    }
}

/// The status tells of a refusal, of a check that takes long enough to be shown, and else what the
/// fingerprint reader does; it is silent while there is nothing to tell.
pub proof fn law_status_tells_what_goes_on(core: ShellCore)
    ensures
        core.status is Rejected ==> status_words(core) is Some,
        core.status matches ShellStatus::Pending { shown, .. } ==> (status_words(core) is Some
            <==> shown),
        core.status is Idle ==> (status_words(core) is Some <==> core.fingerprint_status is Some),
        core.status is Idle ==> (core.fingerprint_status matches Some(status) ==> status_words(core)
            == Some(fingerprint_words(status))),
        inline_words(core) is Some ==> core.theme.status_enabled && core.theme.status_inline,
{
}

/// Each state of the fingerprint reader is told in words of its own.
pub proof fn law_fingerprint_states_are_told_apart(a: FingerprintStatus, b: FingerprintStatus)
    ensures
        fingerprint_words(a) == fingerprint_words(b) ==> a == b,
        fingerprint_words(a).len() > 0,
{
    reveal_strlit("Touch fingerprint reader");
    reveal_strlit("Reading fingerprint");
    reveal_strlit("Fingerprint accepted");
    reveal_strlit("Fingerprint not recognized");
    reveal_strlit("No enrolled fingerprints");
    reveal_strlit("Fingerprint unavailable");
    reveal_strlit("Fingerprint error");
    assert("Touch fingerprint reader"@[0] == 'T');
    assert("No enrolled fingerprints"@[0] == 'N');
}

/// A grid has a line through the middle and further ones a cell apart on both sides, up to the
/// edges; every so many lines from the middle one is a major one.
pub proof fn law_grid_lines_are_a_cell_apart(extent: int, cell: int, major_every: int, i: int)
    requires
        0 < extent <= i32::MAX,
        0 < cell,
        0 < major_every,
        0 <= i < grid_lines(extent, cell, major_every).len(),
    ensures
        ({
            let lines = grid_lines(extent, cell, major_every);
            let ahead = lines_forward(extent, cell);
            let steps = if i < ahead {
                i
            } else {
                ahead - 1 - i
            };
            &&& lines[i].at == extent / 2 + steps * cell
            &&& 0 <= lines[i].at < extent
            &&& lines[i].major == (if steps >= 0 {
                steps % major_every == 0
            } else {
                (-steps) % major_every == 0
            })
            &&& extent / 2 + ahead * cell >= extent
            &&& extent / 2 - (lines_backward(extent, cell) + 1) * cell < 0
        }),
{
    let ahead = lines_forward(extent, cell);
    let back = lines_backward(extent, cell);
    assert(ahead >= 0) by (nonlinear_arith)
        requires
            ahead == (extent - extent / 2 + cell - 1) / cell,
            extent > 0,
            cell > 0,
    ;
    assert(back >= 0) by (nonlinear_arith)
        requires
            back == extent / 2 / cell,
            extent > 0,
            cell > 0,
    ;
    lemma_forward(extent, cell, ahead);
    lemma_backward(extent, cell, back);
    if i < ahead {
        lemma_forward(extent, cell, i);
        assert(i * cell >= 0) by (nonlinear_arith)
            requires
                i >= 0,
                cell > 0,
        ;
    } else {
        let k = i - ahead;
        lemma_backward(extent, cell, k);
        assert((k + 1) * cell > 0) by (nonlinear_arith)
            requires
                k >= 0,
                cell > 0,
        ;
        assert((ahead - 1 - i) * cell == -((k + 1) * cell)) by (nonlinear_arith)
            requires
                k == i - ahead,
        ;
    }
}

/// A frame is cleared before anything is drawn, and what changes is drawn over what lasts; in an
/// emergency nothing but the plain lock screen is drawn.
pub proof fn law_frames_are_drawn_from_the_back(core: ShellCore)
    ensures
        frame_steps(core).len() > 1,
        frame_steps(core)[0] is Clear,
        core.mode == ShellMode::Emergency ==> frame_steps(core).skip(1) == seq![
            DrawStep::EmergencyStatic,
            DrawStep::EmergencyDynamic,
        ],
        core.mode == ShellMode::Rich ==> frame_steps(core)[0] == DrawStep::Clear(
            core.theme.background,
        ) && frame_steps(core)[1] == DrawStep::StaticBackdrops && frame_steps(core)[2]
            == DrawStep::Layers,
        static_steps(true) == seq![DrawStep::Layers] + static_steps(false),
        !static_steps(false).contains(DrawStep::Layers),
{
    if core.mode == ShellMode::Emergency {
        assert(frame_steps(core).skip(1) == seq![
            DrawStep::EmergencyStatic,
            DrawStep::EmergencyDynamic,
        ]);
    }
}

/// A frame is drawn at the scale that was asked for where it is more than one, else at the shell's
/// own; only a rich one is laid out anew for it.
pub proof fn law_frames_are_drawn_at_their_scale(
    plan: RenderPlan,
    core: ShellCore,
    scale: u32,
    steps: Seq<DrawStep>,
)
    requires
        plans(plan, core, scale, steps),
    ensures
        scale > 1 ==> plan.scale == scale,
        scale <= 1 ==> plan.scale == core.render_scale && !plan.rescaled,
        plan.rescaled <==> scale > 1 && core.mode == ShellMode::Rich,
        plan.steps@ == steps,
        emergency_plan(core, scale, plan.steps).scale == plan.scale,
        !emergency_plan(core, scale, plan.steps).rescaled,
{
}

/// A change of the prompt draws what changes of the input, in the stack or on its own, all of which
/// a whole frame draws too.
pub proof fn law_changed_prompt_is_part_of_the_frame(core: ShellCore, i: int)
    requires
        0 <= i < auth_dirty_steps(core).len(),
    ensures
        dynamic_overlay_steps(core).contains(auth_dirty_steps(core)[i]),
        core.mode == ShellMode::Rich ==> auth_dirty_steps(core).contains(
            DrawStep::AuthOrInputGroup { dynamic: true },
        ) && auth_dirty_steps(core).contains(DrawStep::FloatingInput { dynamic: true }),
        core.mode == ShellMode::Emergency ==> auth_dirty_steps(core).contains(
            DrawStep::EmergencyDynamic,
        ),
{
    if core.mode == ShellMode::Emergency {
        assert(dynamic_overlay_steps(core)[0] == DrawStep::EmergencyDynamic);
        assert(auth_dirty_steps(core)[0] == DrawStep::EmergencyDynamic);
    } else {
        assert(dynamic_overlay_steps(core)[3] == (DrawStep::AuthOrInputGroup { dynamic: true }));
        assert(dynamic_overlay_steps(core)[6] == (DrawStep::FloatingInput { dynamic: true }));
        assert(auth_dirty_steps(core)[0] == (DrawStep::AuthOrInputGroup { dynamic: true }));
        assert(auth_dirty_steps(core)[1] == (DrawStep::FloatingInput { dynamic: true }));
    }
}

/// The outline of the input is drawn with what changes while a refusal or a selection is shown, and
/// with what lasts otherwise.
pub proof fn law_outline_changes_with_the_state(core: ShellCore)
    ensures
        core.status is Rejected ==> shell_is_dynamic(core),
        core.secret_selected ==> shell_is_dynamic(core),
        shell_is_dynamic(core) ==> core.status is Rejected || core.secret_selected,
{
}

} // verus!
