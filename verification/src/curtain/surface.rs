//! Lock surfaces: one covers each output.

use crate::common::path::FilePath;
use crate::renderer::buffer::{PixelBuffer, SoftwareBuffer};
use crate::renderer::frame::FrameSize;
use crate::renderer::shm::{PoolModel, SurfaceBufferPool};
use vstd::prelude::*;

verus! {

/// What a surface shows.
#[derive(Debug, Clone, Copy, PartialEq, Eq, Structural)]
pub enum OutputRole {
    PrimaryPrompt,
    SecondaryCurtain,
}

impl OutputRole {
    pub fn renders_shell(self) -> (renders: bool)
        ensures
            renders == (self == OutputRole::PrimaryPrompt),
    {
        matches!(self, Self::PrimaryPrompt)
    }

    pub fn as_str(self) -> (name: &'static str)
        ensures
            name@ == match self {
                OutputRole::PrimaryPrompt => "primary_prompt"@,
                OutputRole::SecondaryCurtain => "secondary_curtain"@,
            },
    {
        match self {
            Self::PrimaryPrompt => "primary_prompt",
            Self::SecondaryCurtain => "secondary_curtain",
        }
    }
}

/// The size of a surface as the compositor counts it, and the pixels behind it.
#[derive(Debug, Clone, Copy, PartialEq, Eq, Structural)]
pub struct SurfaceSize {
    pub logical_width: u32,
    pub logical_height: u32,
    pub buffer: FrameSize,
    pub scale: i32,
    pub fractional_scale: Option<u32>,
}

/// A length in pixels, at most the largest `u32`.
pub open spec fn scaled_length(length: u32, scale: int) -> u32 {
    if length * scale <= u32::MAX {
        (length * scale) as u32
    } else {
        u32::MAX
    }
}

/// A scale that is at least one.
pub open spec fn positive_scale(scale: i32) -> i32 {
    if scale < 1 {
        1
    } else {
        scale
    }
}

/// The size of a surface with that many pixels along each logical unit.
pub open spec fn surface_size(
    logical_width: u32,
    logical_height: u32,
    scale: i32,
    fractional_scale: Option<u32>,
) -> SurfaceSize {
    SurfaceSize {
        logical_width,
        logical_height,
        buffer: FrameSize {
            width: scaled_length(logical_width, positive_scale(scale) as int),
            height: scaled_length(logical_height, positive_scale(scale) as int),
        },
        scale: positive_scale(scale),
        fractional_scale,
    }
}

fn scale_length(length: u32, scale: i32) -> (pixels: u32)
    requires
        scale >= 1,
    ensures
        pixels == scaled_length(length, scale as int),
{
    assert(0 <= length * scale <= 0xffff_ffff * 0x7fff_ffff) by (nonlinear_arith)
        requires
            0 <= length <= 0xffff_ffff,
            1 <= scale <= 0x7fff_ffff,
    ;
    let pixels: u64 = length as u64 * scale as u64;
    if pixels <= u32::MAX as u64 {
        pixels as u32
    } else {
        u32::MAX
    }
}

impl SurfaceSize {
    pub fn new_with_fractional_scale(
        logical_width: u32,
        logical_height: u32,
        scale: i32,
        fractional_scale: Option<u32>,
    ) -> (size: Self)
        ensures
            size == surface_size(logical_width, logical_height, scale, fractional_scale),
    {
        let scale: i32 = if scale < 1 {
            1
        } else {
            scale
        };
        Self {
            logical_width,
            logical_height,
            buffer: FrameSize::new(
                scale_length(logical_width, scale),
                scale_length(logical_height, scale),
            ),
            scale,
            fractional_scale,
        }
    }

    /// The scale a buffer is committed with. With a fractional scale the viewport scales instead.
    pub fn buffer_scale_for_commit(self) -> (scale: i32)
        ensures
            scale == if self.fractional_scale is Some {
                1
            } else {
                positive_scale(self.scale)
            },
    {
        if self.fractional_scale.is_some() {
            1
        } else if self.scale < 1 {
            1
        } else {
            self.scale
        }
    }

    /// The scale the scene is drawn with.
    pub fn render_scale(self) -> (scale: u32)
        ensures
            scale == positive_scale(self.scale),
    {
        if self.scale < 1 {
            1
        } else {
            self.scale as u32
        }
    }
}

/// The whole number of pixels per logical unit that covers a fractional scale, which is given in
/// steps of one 120th.
pub open spec fn whole_scale(scale: u32) -> i32 {
    let padded = if scale + 119 <= u32::MAX {
        scale + 119
    } else {
        u32::MAX as int
    };
    if padded / 120 >= 1 {
        (padded / 120) as i32
    } else {
        1
    }
}

pub fn ceil_fractional_scale(scale: u32) -> (whole: i32)
    ensures
        whole == whole_scale(scale),
{
    let padded: u32 = scale.saturating_add(119);
    let whole: u32 = padded / 120;
    if whole >= 1 {
        whole as i32
    } else {
        1
    }
}

/// What is known of an output.
#[derive(Debug)]
pub struct OutputDetails {
    pub name: Option<String>,
    pub logical_size: Option<(i32, i32)>,
    pub scale_factor: i32,
}

pub open spec fn details_name(details: Option<OutputDetails>) -> Option<Seq<char>> {
    match details {
        Some(details) => match details.name {
            Some(name) => Some(name@),
            None => None,
        },
        None => None,
    }
}

/// The logical size of an output, where it reports one with an area.
pub open spec fn details_size(details: Option<OutputDetails>) -> Option<(u32, u32)> {
    match details {
        Some(details) => match details.logical_size {
            Some((width, height)) => if width > 0 && height > 0 {
                Some((width as u32, height as u32))
            } else {
                None
            },
            None => None,
        },
        None => None,
    }
}

pub fn logical_size(details: &Option<OutputDetails>) -> (size: Option<(u32, u32)>)
    ensures
        size == details_size(*details),
{
    match details {
        Some(details) => match details.logical_size {
            Some((width, height)) => if width > 0 && height > 0 {
                Some((width as u32, height as u32))
            } else {
                None
            },
            None => None,
        },
        None => None,
    }
}

/// The part of a lock surface's state that is plain data.
#[derive(Debug, Clone, Copy, PartialEq, Eq, Structural)]
pub struct SurfaceState {
    pub output: u32,
    pub surface: u32,
    pub size: Option<SurfaceSize>,
    pub scene_base_revision: u64,
    pub scene_base_has_layers: bool,
    pub frame_callback_pending: bool,
    pub has_output_power: bool,
    pub preferred_scale: i32,
    pub preferred_fractional_scale: Option<u32>,
    pub has_fractional_scale: bool,
    pub has_viewport: bool,
}

/// A surface that covers an output, with what is drawn for it.
#[derive(Debug)]
pub struct ManagedLockSurface {
    pub state: SurfaceState,
    pub details: Option<OutputDetails>,
    pub background_path: Option<FilePath>,
    pub background: Option<SoftwareBuffer>,
    pub scene_base: Option<SoftwareBuffer>,
    pub shm_pool: Option<SurfaceBufferPool>,
}

/// A picture by its pixels.
#[verifier::ext_equal]
pub ghost struct Picture {
    pub size: FrameSize,
    pub bytes: Seq<u8>,
}

pub open spec fn picture(buffer: SoftwareBuffer) -> Picture {
    Picture { size: buffer.frame(), bytes: buffer.bytes() }
}

pub open spec fn optional_picture(buffer: Option<SoftwareBuffer>) -> Option<Picture> {
    match buffer {
        Some(buffer) => Some(picture(buffer)),
        None => None,
    }
}

pub open spec fn optional_path(path: Option<FilePath>) -> Option<Seq<u8>> {
    match path {
        Some(path) => Some(path@),
        None => None,
    }
}

pub open spec fn optional_pool(pool: Option<SurfaceBufferPool>) -> Option<PoolModel> {
    match pool {
        Some(pool) => Some(pool@),
        None => None,
    }
}

/// A lock surface by what it shows.
#[verifier::ext_equal]
pub ghost struct SurfaceModel {
    pub state: SurfaceState,
    pub details: Option<OutputDetails>,
    pub background_path: Option<Seq<u8>>,
    pub background: Option<Picture>,
    pub scene_base: Option<Picture>,
    pub pool: Option<PoolModel>,
}

impl View for ManagedLockSurface {
    type V = SurfaceModel;

    open spec fn view(&self) -> SurfaceModel {
        SurfaceModel {
            state: self.state,
            details: self.details,
            background_path: optional_path(self.background_path),
            background: optional_picture(self.background),
            scene_base: optional_picture(self.scene_base),
            pool: optional_pool(self.shm_pool),
        }
    }
}

/// The fractional scale a surface is shown with. It takes a viewport to apply one.
pub open spec fn fractional_scale_of(state: SurfaceState) -> Option<u32> {
    if state.has_viewport && state.has_fractional_scale {
        match state.preferred_fractional_scale {
            Some(scale) => if scale > 0 {
                Some(scale)
            } else {
                None
            },
            None => None,
        }
    } else {
        None
    }
}

pub open spec fn larger(a: i32, b: i32) -> i32 {
    if a >= b {
        a
    } else {
        b
    }
}

/// The largest scale anyone asks for: the compositor, the output or the fractional scale.
pub open spec fn scale_of(state: SurfaceState, details: Option<OutputDetails>) -> i32 {
    let output = match details {
        Some(details) => positive_scale(details.scale_factor),
        None => 1i32,
    };
    let fractional = match fractional_scale_of(state) {
        Some(scale) => whole_scale(scale),
        None => 1i32,
    };
    positive_scale(larger(larger(state.preferred_scale, output), fractional))
}

/// The size a surface gets where the compositor asks for `requested`.
pub open spec fn resolved_size(
    state: SurfaceState,
    details: Option<OutputDetails>,
    requested: (u32, u32),
) -> SurfaceSize {
    let logical = if requested.0 > 0 && requested.1 > 0 {
        requested
    } else {
        match details_size(details) {
            Some(size) => size,
            None => (1920u32, 1080u32),
        }
    };
    surface_size(logical.0, logical.1, scale_of(state, details), fractional_scale_of(state))
}

/// The surface without anything drawn for it.
pub open spec fn surface_reset(surface: SurfaceModel) -> SurfaceModel {
    SurfaceModel {
        state: SurfaceState {
            scene_base_revision: 0,
            scene_base_has_layers: false,
            ..surface.state
        },
        background_path: None,
        background: None,
        scene_base: None,
        pool: None,
        ..surface
    }
}

/// The surface without the pictures drawn for it; its shared memory stays.
pub open spec fn source_reset(surface: SurfaceModel) -> SurfaceModel {
    SurfaceModel { pool: surface.pool, ..surface_reset(surface) }
}

fn larger_of(a: i32, b: i32) -> (c: i32)
    ensures
        c == larger(a, b),
{
    if a >= b {
        a
    } else {
        b
    }
}

impl ManagedLockSurface {
    /// The pictures are whole, and the shared memory is in order.
    pub open spec fn wf(&self) -> bool {
        &&& self.background matches Some(buffer) ==> buffer.wf()
        &&& self.scene_base matches Some(buffer) ==> buffer.wf()
        &&& self.shm_pool matches Some(pool) ==> pool.wf()
    }

    /// A surface for an output, before the compositor has told its size.
    pub fn new(
        output: u32,
        surface: u32,
        details: Option<OutputDetails>,
        has_output_power: bool,
        has_fractional_scale: bool,
        has_viewport: bool,
    ) -> (result: Self)
        ensures
            result.wf(),
            result@ == new_surface(
                output,
                surface,
                details,
                has_output_power,
                has_fractional_scale,
                has_viewport,
            ),
    {
        ManagedLockSurface {
            state: SurfaceState {
                output,
                surface,
                size: None,
                scene_base_revision: 0,
                scene_base_has_layers: false,
                frame_callback_pending: false,
                has_output_power,
                preferred_scale: 1,
                preferred_fractional_scale: None,
                has_fractional_scale,
                has_viewport,
            },
            details,
            background_path: None,
            background: None,
            scene_base: None,
            shm_pool: None,
        }
    }

    pub fn surface_fractional_scale(&self) -> (scale: Option<u32>)
        ensures
            scale == fractional_scale_of(self.state),
    {
        if !self.state.has_viewport || !self.state.has_fractional_scale {
            return None;
        }
        match self.state.preferred_fractional_scale {
            Some(scale) if scale > 0 => Some(scale),
            _ => None,
        }
    }

    pub fn surface_scale(&self) -> (scale: i32)
        ensures
            scale == scale_of(self.state, self.details),
    {
        let fractional: i32 = match self.surface_fractional_scale() {
            Some(scale) => ceil_fractional_scale(scale),
            None => 1,
        };
        let output: i32 = match &self.details {
            Some(details) => larger_of(details.scale_factor, 1),
            None => 1,
        };
        larger_of(larger_of(larger_of(self.state.preferred_scale, output), fractional), 1)
    }

    /// The size that results from what the compositor asks for. A size without an area gives way
    /// to the output's own, or to a common one.
    pub fn resolve_surface_size(&self, requested: (u32, u32)) -> (size: SurfaceSize)
        ensures
            size == resolved_size(self.state, self.details, requested),
    {
        let logical = if requested.0 > 0 && requested.1 > 0 {
            requested
        } else {
            match logical_size(&self.details) {
                Some(size) => size,
                None => (1920, 1080),
            }
        };
        SurfaceSize::new_with_fractional_scale(
            logical.0,
            logical.1,
            self.surface_scale(),
            self.surface_fractional_scale(),
        )
    }

    /// The size the surface will likely get, where the output tells one.
    pub fn estimated_surface_size(&self) -> (size: Option<SurfaceSize>)
        ensures
            size == match details_size(self.details) {
                Some(logical) => Some(
                    surface_size(
                        logical.0,
                        logical.1,
                        scale_of(self.state, self.details),
                        fractional_scale_of(self.state),
                    ),
                ),
                None => None,
            },
    {
        match logical_size(&self.details) {
            Some(logical) => Some(
                SurfaceSize::new_with_fractional_scale(
                    logical.0,
                    logical.1,
                    self.surface_scale(),
                    self.surface_fractional_scale(),
                ),
            ),
            None => None,
        }
    }

    /// Drops everything that was drawn for the surface.
    pub fn reset_render_state(&mut self)
        ensures
            final(self)@ == surface_reset(old(self)@),
            final(self).wf(),
    {
        self.shm_pool = None;
        self.reset_source_state();
    }

    /// Drops the pictures that were drawn for the surface.
    pub fn reset_source_state(&mut self)
        ensures
            final(self)@ == source_reset(old(self)@),
            old(self).wf() ==> final(self).wf(),
            old(self).shm_pool is None ==> final(self).wf(),
    {
        self.background_path = None;
        self.background = None;
        self.scene_base = None;
        self.state.scene_base_revision = 0;
        self.state.scene_base_has_layers = false;
    }

    /// Takes over the scale the compositor prefers, and tells the new size where it changes.
    pub fn scale_factor_changed(&mut self, new_factor: i32) -> (resized: Option<SurfaceSize>)
        ensures
            ({
                let state = SurfaceState {
                    preferred_scale: positive_scale(new_factor),
                    ..old(self).state
                };
                &&& resized == resized_to(state, old(self).details)
                &&& final(self)@ == (SurfaceModel {
                    state: with_size(state, resized),
                    ..old(self)@
                })
            }),
            old(self).wf() ==> final(self).wf(),
    {
        self.state.preferred_scale = larger_of(new_factor, 1);
        self.resize_to_scale()
    }

    /// Takes over the fractional scale the compositor prefers, and tells the new size where it
    /// changes.
    pub fn fractional_scale_changed(&mut self, scale: u32) -> (resized: Option<SurfaceSize>)
        ensures
            ({
                let preferred = if scale < 1 {
                    1u32
                } else {
                    scale
                };
                let state = SurfaceState {
                    preferred_fractional_scale: Some(preferred),
                    ..old(self).state
                };
                if old(self).state.preferred_fractional_scale == Some(preferred) {
                    resized is None && final(self)@ == old(self)@
                } else {
                    &&& resized == resized_to(state, old(self).details)
                    &&& final(self)@ == (SurfaceModel {
                        state: with_size(state, resized),
                        ..old(self)@
                    })
                }
            }),
            old(self).wf() ==> final(self).wf(),
    {
        let preferred: u32 = if scale < 1 {
            1
        } else {
            scale
        };
        match self.state.preferred_fractional_scale {
            Some(current) if current == preferred => {
                return None;
            },
            _ => {},
        }
        self.state.preferred_fractional_scale = Some(preferred);
        self.resize_to_scale()
    }

    /// Recomputes the size after a scale changed.
    fn resize_to_scale(&mut self) -> (resized: Option<SurfaceSize>)
        ensures
            resized == resized_to(old(self).state, old(self).details),
            final(self)@ == (SurfaceModel {
                state: with_size(old(self).state, resized),
                ..old(self)@
            }),
            old(self).wf() ==> final(self).wf(),
    {
        match self.state.size {
            Some(previous) => {
                let size = self.resolve_surface_size(
                    (previous.logical_width, previous.logical_height),
                );
                if size == previous {
                    return None;
                }
                self.state.size = Some(size);
                Some(size)
            },
            None => None,
        }
    }
}

/// The new size of a surface whose scale has changed, if it has a size and that is another one.
pub open spec fn resized_to(state: SurfaceState, details: Option<OutputDetails>) -> Option<
    SurfaceSize,
> {
    match state.size {
        Some(previous) => {
            let size = resolved_size(
                state,
                details,
                (previous.logical_width, previous.logical_height),
            );
            if size == previous {
                None
            } else {
                Some(size)
            }
        },
        None => None,
    }
}

pub open spec fn with_size(state: SurfaceState, resized: Option<SurfaceSize>) -> SurfaceState {
    match resized {
        Some(size) => SurfaceState { size: Some(size), ..state },
        None => state,
    }
}

/// A surface before the compositor has told its size.
pub open spec fn new_surface(
    output: u32,
    surface: u32,
    details: Option<OutputDetails>,
    has_output_power: bool,
    has_fractional_scale: bool,
    has_viewport: bool,
) -> SurfaceModel {
    SurfaceModel {
        state: SurfaceState {
            output,
            surface,
            size: None,
            scene_base_revision: 0,
            scene_base_has_layers: false,
            frame_callback_pending: false,
            has_output_power,
            preferred_scale: 1,
            preferred_fractional_scale: None,
            has_fractional_scale,
            has_viewport,
        },
        details,
        background_path: None,
        background: None,
        scene_base: None,
        pool: None,
    }
}

/// A surface is never drawn with fewer pixels than the compositor, the output or its fractional
/// scale ask for.
pub proof fn law_no_scale_is_undercut(state: SurfaceState, details: Option<OutputDetails>)
    ensures
        scale_of(state, details) >= 1,
        scale_of(state, details) >= state.preferred_scale,
        details matches Some(details) ==> scale_of(state, Some(details)) >= details.scale_factor,
        fractional_scale_of(state) matches Some(scale) ==> scale_of(state, details) * 120 >= scale
            || scale > u32::MAX - 119,
{
}

/// Asking a surface for the size it has leaves it as it is.
pub proof fn law_size_is_settled(state: SurfaceState, details: Option<OutputDetails>, requested: (
    u32,
    u32,
))
    ensures
        ({
            let size = resolved_size(state, details, requested);
            size.logical_width > 0 && size.logical_height > 0 && resized_to(
                SurfaceState { size: Some(size), ..state },
                details,
            ) is None
        }),
{
    let size = resolved_size(state, details, requested);
    let settled = SurfaceState { size: Some(size), ..state };
    assert(fractional_scale_of(settled) == fractional_scale_of(state));
    assert(scale_of(settled, details) == scale_of(state, details));
}

/// A frame holds every logical point of its surface at its scale, which is at least one.
pub proof fn law_frame_is_the_surface_at_its_scale(
    logical_width: u32,
    logical_height: u32,
    scale: i32,
    fractional_scale: Option<u32>,
)
    ensures
        ({
            let size = surface_size(logical_width, logical_height, scale, fractional_scale);
            &&& size.scale >= 1
            &&& scale >= 1 ==> size.scale == scale
            &&& scale < 1 ==> size.scale == 1
            &&& size.logical_width == logical_width && size.logical_height == logical_height
            &&& size.fractional_scale == fractional_scale
            &&& logical_width * size.scale <= u32::MAX ==> size.buffer.width == logical_width
                * size.scale
            &&& logical_height * size.scale <= u32::MAX ==> size.buffer.height == logical_height
                * size.scale
            &&& logical_width * size.scale > u32::MAX ==> size.buffer.width == u32::MAX
            &&& logical_height * size.scale > u32::MAX ==> size.buffer.height == u32::MAX
        }),
{
}

/// A scale in parts of 120 is rounded up to the next whole one, and to one at least.
pub proof fn law_fractional_scales_round_up(scale: u32)
    requires
        scale <= 4_294_967_176,
    ensures
        whole_scale(scale) >= 1,
        scale <= 120 * whole_scale(scale),
        scale > 0 ==> 120 * (whole_scale(scale) - 1) < scale,
{
}

/// A surface is drawn at the largest of the scales that were asked for, and at one of them.
pub proof fn law_largest_scale_is_taken(state: SurfaceState, details: Option<OutputDetails>)
    ensures
        ({
            let scale = scale_of(state, details);
            let fraction = state.preferred_fractional_scale;
            let fractional = state.has_viewport && state.has_fractional_scale && fraction is Some
                && fraction->0 > 0;
            &&& scale >= 1
            &&& scale >= state.preferred_scale
            &&& details is Some ==> scale >= details->0.scale_factor
            &&& fractional && fraction->0 <= 4_294_967_176 ==> 120 * scale >= fraction->0
            &&& scale == 1 || scale == state.preferred_scale || (details is Some && scale
                == details->0.scale_factor) || (fractional && (fraction->0 <= 4_294_967_176 ==> 120
                * (scale - 1) < fraction->0))
            &&& fractional_scale_of(state) == if fractional {
                fraction
            } else {
                None
            }
        }),
{
}

/// A surface has the size that the compositor asks for; where it asks for none, that of its
/// output, and without one a common size.
pub proof fn law_requested_size_comes_first(
    state: SurfaceState,
    details: Option<OutputDetails>,
    requested: (u32, u32),
)
    ensures
        ({
            let size = resolved_size(state, details, requested);
            let logical = (size.logical_width, size.logical_height);
            let own = details->0.logical_size->0;
            let known = details is Some && details->0.logical_size is Some
                && own.0 > 0 && own.1 > 0;
            &&& requested.0 > 0 && requested.1 > 0 ==> logical == requested
            &&& (requested.0 == 0 || requested.1 == 0) && known ==> size.logical_width
                == own.0 && size.logical_height
                == own.1
            &&& (requested.0 == 0 || requested.1 == 0) && !known ==> logical == (1920u32, 1080u32)
            &&& size.scale == scale_of(state, details)
        }),
{
}

/// Dropping what was drawn for a surface leaves nothing of it, and forgets nothing else.
pub proof fn law_reset_drops_what_was_drawn(entry: SurfaceModel)
    ensures
        ({
            let after = surface_reset(entry);
            &&& after.background is None && after.scene_base is None && after.pool is None
                && after.background_path is None
            &&& after.details == entry.details
            &&& after.state.size == entry.state.size
            &&& after.state.surface == entry.state.surface
            &&& after.state.output == entry.state.output
            &&& after.state.preferred_scale == entry.state.preferred_scale
            &&& after.state.frame_callback_pending == entry.state.frame_callback_pending
            &&& source_reset(entry).pool == entry.pool
            &&& source_reset(entry).background is None && source_reset(entry).scene_base is None
                && source_reset(entry).background_path is None
        }),
{
}

/// A surface is resized only where its size changes, and keeps its logical extent then.
pub proof fn law_new_scale_keeps_the_logical_size(
    state: SurfaceState,
    details: Option<OutputDetails>,
    previous: SurfaceSize,
)
    requires
        state.size == Some(previous),
        previous.logical_width > 0,
        previous.logical_height > 0,
    ensures
        resized_to(state, details) matches Some(size) ==> {
            &&& size != previous
            &&& size.logical_width == previous.logical_width
            &&& size.logical_height == previous.logical_height
            &&& size.scale == scale_of(state, details)
            &&& with_size(state, Some(size)).size == Some(size)
        },
        resized_to(state, details) is None ==> previous.scale == scale_of(state, details)
            && previous.fractional_scale == fractional_scale_of(state),
{
}

/// A new surface is known by its output and its number, has no size and nothing drawn yet, and no
/// scale but one.
pub proof fn law_new_surface_is_blank(
    output: u32,
    surface: u32,
    details: Option<OutputDetails>,
    has_output_power: bool,
    has_fractional_scale: bool,
    has_viewport: bool,
)
    ensures
        ({
            let new = new_surface(
                output,
                surface,
                details,
                has_output_power,
                has_fractional_scale,
                has_viewport,
            );
            &&& new.state.output == output && new.state.surface == surface && new.details == details
            &&& new.state.size is None && new.background is None && new.scene_base is None
                && new.pool is None && new.background_path is None
            &&& !new.state.frame_callback_pending && new.state.preferred_scale == 1
                && new.state.preferred_fractional_scale is None
            &&& new.state.has_output_power == has_output_power && new.state.has_viewport
                == has_viewport && new.state.has_fractional_scale == has_fractional_scale
        }),
{
}

} // verus!
