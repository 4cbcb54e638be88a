//! Building a layer's pipeline and running its stages.
//!
//! The rendering backend's ambient state is made explicit: a `RenderContext`
//! holds the active camera and the commands issued to the backend, in order.
use vstd::prelude::*;

use crate::layer::{white_spec, bundle_spec, Color, LayerTag, RenderLayerBundle, RenderLayerConfig};
use crate::layout::{cursor_spec, letterbox, placement_spec, remap_cursor, Placement, Resolution};
use crate::store::{count_tag, find_tag, lemma_count_update, lemma_find_tag, record, LayerError, LayerWorld};

verus! {

/// The camera that draw calls go to.
#[derive(Clone, Copy, Debug, PartialEq, Eq, Structural)]
pub enum ActiveCamera {
    /// The default camera, which draws onto the screen.
    Screen,
    /// The camera of a layer, which draws into its offscreen surface.
    Layer(LayerTag),
}

/// One call into the rendering backend.
#[derive(Clone, Copy, Debug, PartialEq, Eq, Structural)]
pub enum RenderCommand {
    /// Make the layer's camera the active one.
    SetCamera(LayerTag),
    /// Make the screen's camera the active one.
    SetDefaultCamera,
    /// Clear what the active camera draws into.
    Clear(Color),
    /// Draw the layer's surface as a textured quad.
    DrawLayer { layer: LayerTag, placement: Placement, tint: Color, flip_y: bool },
}

/// One stage of a layer's pipeline.
#[derive(Clone, Copy, Debug, PartialEq, Eq, Structural)]
pub enum Stage {
    /// Bind the layer's camera, clear its surface and map the cursor.
    Prepare,
    /// Give the screen back to the default camera.
    Finalize,
    /// Draw the layer's surface onto the screen.
    Display,
}

/// What a frame sees of the outside: the screen size and the cursor in
/// physical pixels.
#[derive(Clone, Copy, Debug, PartialEq, Eq, Structural)]
pub struct FrameInput {
    pub screen: Resolution,
    pub cursor_x: i32,
    pub cursor_y: i32,
}

/// The rendering state that stages act on.
pub struct RenderContext {
    pub active: ActiveCamera,
    pub commands: Vec<RenderCommand>,
}

/// The active camera and the commands issued so far.
pub type ContextView = (ActiveCamera, Seq<RenderCommand>);

impl RenderContext {
    pub open spec fn state(&self) -> ContextView {
        (self.active, self.commands@)
    }

    /// The screen camera active and nothing issued.
    pub fn new() -> (r: RenderContext)
        ensures
            r.active == ActiveCamera::Screen,
            r.commands@ == Seq::<RenderCommand>::empty(),
    {
        RenderContext { active: ActiveCamera::Screen, commands: Vec::new() }
    }
}

/// An ordered pipeline for one layer.
pub struct Schedule {
    pub layer: LayerTag,
    pub stages: Vec<Stage>,
}

/// The stages of a layer, with the display stage only where it is shown.
pub open spec fn stages_spec(display: bool) -> Seq<Stage> {
    if display {
        seq![Stage::Prepare, Stage::Finalize, Stage::Display]
    } else {
        seq![Stage::Prepare, Stage::Finalize]
    }
}

/// The record after a prepare stage: the cursor is mapped into the layer,
/// unless the screen has no area, in which case it keeps its last value.
pub open spec fn prepared(b: RenderLayerBundle, input: FrameInput) -> RenderLayerBundle {
    if input.screen.width > 0 && input.screen.height > 0 {
        RenderLayerBundle {
            mouse_position: cursor_spec(b.target_size(), input.screen, input.cursor_x as int, input.cursor_y as int),
            ..b
        }
    } else {
        b
    }
}

/// The error of a lookup of `layer` that does not find exactly one record.
pub open spec fn count_error(w: Seq<RenderLayerBundle>, layer: LayerTag) -> LayerError {
    LayerError::CountMismatch { layer, count: count_tag(w, layer) as usize }
}

/// The prepare stage: bind the layer's camera, clear its surface, and store
/// the cursor in layer pixels.
pub open spec fn prepare_spec(w: Seq<RenderLayerBundle>, c: ContextView, layer: LayerTag, input: FrameInput)
    -> Result<(Seq<RenderLayerBundle>, ContextView), LayerError>
{
    if count_tag(w, layer) != 1 {
        Err(count_error(w, layer))
    } else {
        let b = record(w, layer);
        Ok((
            w.update(find_tag(w, layer), prepared(b, input)),
            (ActiveCamera::Layer(layer), c.1.push(RenderCommand::SetCamera(layer)).push(RenderCommand::Clear(b.clear_color))),
        ))
    }
}

/// The finalize stage: the screen's camera is active again.
pub open spec fn finalize_spec(c: ContextView) -> ContextView {
    (ActiveCamera::Screen, c.1.push(RenderCommand::SetDefaultCamera))
}

/// The display stage: the layer's surface is drawn, letterboxed, untinted and
/// flipped vertically.
pub open spec fn display_spec(w: Seq<RenderLayerBundle>, c: ContextView, layer: LayerTag, screen: Resolution)
    -> Result<ContextView, LayerError>
{
    if count_tag(w, layer) != 1 {
        Err(count_error(w, layer))
    } else {
        Ok((c.0, c.1.push(RenderCommand::DrawLayer {
            layer,
            placement: placement_spec(record(w, layer).target_size(), screen),
            tint: white_spec(),
            flip_y: true,
        })))
    }
}

/// One stage of `layer`'s pipeline.
pub open spec fn stage_spec(
    stage: Stage,
    w: Seq<RenderLayerBundle>,
    c: ContextView,
    layer: LayerTag,
    input: FrameInput,
) -> Result<(Seq<RenderLayerBundle>, ContextView), LayerError> {
    match stage {
        Stage::Prepare => prepare_spec(w, c, layer, input),
        Stage::Finalize => Ok((w, finalize_spec(c))),
        Stage::Display => match display_spec(w, c, layer, input.screen) {
            Ok(c2) => Ok((w, c2)),
            Err(e) => Err(e),
        },
    }
}

/// The stages run in order, up to the first that fails.
pub open spec fn run_spec(
    stages: Seq<Stage>,
    w: Seq<RenderLayerBundle>,
    c: ContextView,
    layer: LayerTag,
    input: FrameInput,
) -> Result<(Seq<RenderLayerBundle>, ContextView), LayerError>
    decreases stages.len(),
{
    if stages.len() == 0 {
        Ok((w, c))
    } else {
        match run_spec(stages.drop_last(), w, c, layer, input) {
            Ok((w1, c1)) => stage_spec(stages.last(), w1, c1, layer, input),
            Err(e) => Err(e),
        }
    }
}

/// Creates `layer`'s record in `world` from `config` and returns its
/// pipeline: prepare, then finalize, then display where `config.display`.
/// A resolution without area is refused and `world` left as it is.
pub fn create_render_layer_schedule(config: &RenderLayerConfig, world: &mut LayerWorld, layer: LayerTag) -> (r:
    Result<Schedule, LayerError>)
    requires
        old(world).wf(),
    ensures
        final(world).wf(),
        !config.valid() ==> r == Err::<Schedule, LayerError>(LayerError::ZeroResolution) && final(world)@ == old(
            world,
        )@,
        config.valid() ==> r is Ok && r->Ok_0.layer == layer && r->Ok_0.stages@ == stages_spec(config.display)
            && final(world)@ == old(world)@.push(bundle_spec(*config, layer)),
{
    if !config.is_valid() {
        return Err(LayerError::ZeroResolution);
    }
    world.spawn(RenderLayerBundle::new(config, layer));
    let mut stages: Vec<Stage> = Vec::new();
    stages.push(Stage::Prepare);
    stages.push(Stage::Finalize);
    if config.display {
        stages.push(Stage::Display);
    }
    assert(stages@ =~= stages_spec(config.display));
    Ok(Schedule { layer, stages })
}

/// The prepare stage of `layer`: its camera becomes the active one, its
/// surface is cleared to its clear colour, and the cursor is stored in layer
/// pixels. Fails, changing nothing, unless `world` holds exactly one record of
/// `layer`.
pub fn prepare_layer_rendering(
    world: &mut LayerWorld,
    ctx: &mut RenderContext,
    layer: LayerTag,
    input: FrameInput,
) -> (r: Result<(), LayerError>)
    requires
        old(world).wf(),
    ensures
        final(world).wf(),
        match prepare_spec(old(world)@, old(ctx).state(), layer, input) {
            Ok((w, c)) => r is Ok && final(world)@ == w && final(ctx).state() == c,
            Err(e) => r == Err::<(), LayerError>(e) && final(world)@ == old(world)@ && final(ctx).state() == old(
                ctx,
            ).state(),
        },
{
    let i = match world.find_single(layer) {
        Ok(i) => i,
        Err(e) => return Err(e),
    };
    let b = *world.get(i);
    assert(world@[i as int].wf());
    ctx.active = ActiveCamera::Layer(layer);
    ctx.commands.push(RenderCommand::SetCamera(layer));
    ctx.commands.push(RenderCommand::Clear(b.clear_color));
    let target = b.surface_size();
    match remap_cursor(target, input.screen, input.cursor_x, input.cursor_y) {
        Some(m) => {
            world.set(i, RenderLayerBundle { mouse_position: m, ..b });
        },
        None => {
            world.set(i, b);
        },
    }
    Ok(())
}

/// The finalize stage: the screen's camera becomes the active one again.
pub fn end_layer_rendering(ctx: &mut RenderContext)
    ensures
        final(ctx).state() == finalize_spec(old(ctx).state()),
{
    ctx.active = ActiveCamera::Screen;
    ctx.commands.push(RenderCommand::SetDefaultCamera);
}

/// The display stage of `layer`: its surface is drawn onto the screen,
/// scaled to fit, centred, untinted and flipped vertically. Fails, issuing
/// nothing, unless `world` holds exactly one record of `layer`.
pub fn display_render_layer(world: &LayerWorld, ctx: &mut RenderContext, layer: LayerTag, screen: Resolution) -> (r:
    Result<(), LayerError>)
    requires
        world.wf(),
    ensures
        match display_spec(world@, old(ctx).state(), layer, screen) {
            Ok(c) => r is Ok && final(ctx).state() == c,
            Err(e) => r == Err::<(), LayerError>(e) && final(ctx).state() == old(ctx).state(),
        },
{
    let i = match world.find_single(layer) {
        Ok(i) => i,
        Err(e) => return Err(e),
    };
    let b = world.get(i);
    assert(world@[i as int].wf());
    let placement = letterbox(b.surface_size(), screen);
    ctx.commands.push(RenderCommand::DrawLayer { layer, placement, tint: Color::white(), flip_y: true });
    Ok(())
}

/// Once a prefix of the stages has failed, the whole run fails with it.
proof fn lemma_run_failed_prefix(
    stages: Seq<Stage>,
    k: int,
    w: Seq<RenderLayerBundle>,
    c: ContextView,
    layer: LayerTag,
    input: FrameInput,
)
    requires
        0 <= k <= stages.len(),
        run_spec(stages.subrange(0, k), w, c, layer, input) is Err,
    ensures
        run_spec(stages, w, c, layer, input) == run_spec(stages.subrange(0, k), w, c, layer, input),
    decreases stages.len(),
{
    if k == stages.len() {
        assert(stages.subrange(0, k) =~= stages);
    } else {
        assert(stages.drop_last().subrange(0, k) =~= stages.subrange(0, k));
        lemma_run_failed_prefix(stages.drop_last(), k, w, c, layer, input);
    }
}

/// Runs `schedule`'s stages in order, once, on `world` and `ctx`, stopping
/// at the first stage that fails.
pub fn run_schedule(schedule: &Schedule, world: &mut LayerWorld, ctx: &mut RenderContext, input: FrameInput) -> (r:
    Result<(), LayerError>)
    requires
        old(world).wf(),
    ensures
        final(world).wf(),
        match run_spec(schedule.stages@, old(world)@, old(ctx).state(), schedule.layer, input) {
            Ok((w, c)) => r is Ok && final(world)@ == w && final(ctx).state() == c,
            Err(e) => r == Err::<(), LayerError>(e),
        },
{
    let ghost w0 = world@;
    let ghost c0 = ctx.state();
    let layer = schedule.layer;
    let mut i: usize = 0;
    assert(schedule.stages@.subrange(0, 0) =~= Seq::<Stage>::empty());
    while i < schedule.stages.len()
        invariant
            i <= schedule.stages@.len(),
            layer == schedule.layer,
            w0 == old(world)@,
            c0 == old(ctx).state(),
            world.wf(),
            run_spec(schedule.stages@.subrange(0, i as int), w0, c0, layer, input) == Ok::<
                (Seq<RenderLayerBundle>, ContextView),
                LayerError,
            >((world@, ctx.state())),
        decreases schedule.stages@.len() - i,
    {
        let ghost prefix = schedule.stages@.subrange(0, i + 1);
        assert(prefix.drop_last() =~= schedule.stages@.subrange(0, i as int));
        let stage = schedule.stages[i];
        let ghost wb = world@;
        let ghost cb = ctx.state();
        assert(prefix.last() == stage);
        let step = match stage {
            Stage::Prepare => prepare_layer_rendering(world, ctx, layer, input),
            Stage::Finalize => {
                end_layer_rendering(ctx);
                Ok(())
            },
            Stage::Display => display_render_layer(world, ctx, layer, input.screen),
        };
        match step {
            Ok(()) => {},
            Err(e) => {
                proof {
                    assert(run_spec(prefix, w0, c0, layer, input) == Err::<
                        (Seq<RenderLayerBundle>, ContextView),
                        LayerError,
                    >(e));
                    lemma_run_failed_prefix(schedule.stages@, i + 1, w0, c0, layer, input);
                }
                return Err(e);
            },
        }
        i = i + 1;
    }
    assert(schedule.stages@.subrange(0, i as int) =~= schedule.stages@);
    Ok(())
}

/// Building a layer into a store that holds no record of it leaves exactly
/// one. Every stage of a layer whose record count is not one fails with that
/// count and does no work: before the layer is built, and after its record is
/// spawned a second time.
pub proof fn lemma_unique_record(
    w: Seq<RenderLayerBundle>,
    config: RenderLayerConfig,
    layer: LayerTag,
    c: ContextView,
    input: FrameInput,
)
    requires
        count_tag(w, layer) == 0,
    ensures
        count_tag(w.push(bundle_spec(config, layer)), layer) == 1,
        prepare_spec(w, c, layer, input) == Err::<(Seq<RenderLayerBundle>, ContextView), LayerError>(
            LayerError::CountMismatch { layer, count: 0 },
        ),
        display_spec(w, c, layer, input.screen) == Err::<ContextView, LayerError>(
            LayerError::CountMismatch { layer, count: 0 },
        ),
        ({
            let b = bundle_spec(config, layer);
            let twice = w.push(b).push(b);
            &&& count_tag(twice, layer) == 2
            &&& prepare_spec(twice, c, layer, input) == Err::<(Seq<RenderLayerBundle>, ContextView), LayerError>(
                LayerError::CountMismatch { layer, count: 2 },
            )
            &&& display_spec(twice, c, layer, input.screen) == Err::<ContextView, LayerError>(
                LayerError::CountMismatch { layer, count: 2 },
            )
        }),
{
    let b = bundle_spec(config, layer);
    assert(w.push(b).drop_last() =~= w);
    assert(w.push(b).push(b).drop_last() =~= w.push(b));
    assert(count_tag(w.push(b), layer) == 1);
    assert(count_tag(w.push(b).push(b), layer) == 2);
}

/// Running the prepare stage a second time, with nothing drawn in between,
/// changes no record: the camera, clear colour and cursor stay as the first
/// run left them. It issues the same two commands again, so the surface is
/// cleared once more and nothing drawn before that clear remains.
pub proof fn lemma_prepare_twice(w: Seq<RenderLayerBundle>, c: ContextView, layer: LayerTag, input: FrameInput)
    requires
        prepare_spec(w, c, layer, input) is Ok,
    ensures
        ({
            let (w1, c1) = prepare_spec(w, c, layer, input)->Ok_0;
            let color = record(w, layer).clear_color;
            &&& record(w1, layer).camera == record(w, layer).camera
            &&& record(w1, layer).clear_color == color
            &&& c1.0 == ActiveCamera::Layer(layer)
            &&& c1.1.last() == RenderCommand::Clear(color)
            &&& prepare_spec(w1, c1, layer, input) == Ok::<(Seq<RenderLayerBundle>, ContextView), LayerError>(
                (
                    w1,
                    (
                        ActiveCamera::Layer(layer),
                        c1.1.push(RenderCommand::SetCamera(layer)).push(RenderCommand::Clear(color)),
                    ),
                ),
            )
        }),
{
    lemma_find_tag(w, layer);
    let i = find_tag(w, layer);
    let b = record(w, layer);
    let p = prepared(b, input);
    let w1 = w.update(i, p);
    lemma_count_update(w, i, p, layer);
    assert(record(w1, layer) == p);
    assert(prepared(p, input) == p);
    assert(w1.update(i, p) =~= w1);
}

/// Without display a pipeline is prepare then finalize; with it, display
/// comes third, after finalize.
pub proof fn lemma_display_gating(display: bool)
    ensures
        stages_spec(display)[0] == Stage::Prepare,
        stages_spec(display)[1] == Stage::Finalize,
        !display ==> stages_spec(display).len() == 2,
        display ==> stages_spec(display).len() == 3 && stages_spec(display)[2] == Stage::Display,
        stages_spec(display).contains(Stage::Display) == display,
{
    if display {
        assert(stages_spec(display)[2] == Stage::Display);
    } else {
        assert forall|k: int| 0 <= k < stages_spec(display).len() implies stages_spec(display)[k] != Stage::Display by {}
    }
}

/// The commands of one frame of a layer whose record is `b`: bind and clear
/// its surface, give the screen back to the default camera, and, where the
/// layer is shown, draw its surface onto the screen.
pub open spec fn frame_commands(b: RenderLayerBundle, layer: LayerTag, screen: Resolution, display: bool) -> Seq<
    RenderCommand,
> {
    let base = seq![RenderCommand::SetCamera(layer), RenderCommand::Clear(b.clear_color), RenderCommand::SetDefaultCamera];
    if display {
        base.push(RenderCommand::DrawLayer {
            layer,
            placement: placement_spec(b.target_size(), screen),
            tint: white_spec(),
            flip_y: true,
        })
    } else {
        base
    }
}

/// One frame of a built layer's pipeline succeeds, updates only the layer's
/// cursor, leaves the screen's camera active, and issues the frame's commands
/// in order: the draw onto the screen comes after the default camera is
/// restored, never while the layer's own camera is bound.
pub proof fn lemma_frame(
    w: Seq<RenderLayerBundle>,
    c: ContextView,
    layer: LayerTag,
    input: FrameInput,
    display: bool,
)
    requires
        count_tag(w, layer) == 1,
    ensures
        run_spec(stages_spec(display), w, c, layer, input) == Ok::<(Seq<RenderLayerBundle>, ContextView), LayerError>(
            (
                w.update(find_tag(w, layer), prepared(record(w, layer), input)),
                (ActiveCamera::Screen, c.1 + frame_commands(record(w, layer), layer, input.screen, display)),
            ),
        ),
{
    lemma_find_tag(w, layer);
    let i = find_tag(w, layer);
    let b = record(w, layer);
    let p = prepared(b, input);
    let w1 = w.update(i, p);
    lemma_count_update(w, i, p, layer);
    assert(record(w1, layer) == p);
    let two = seq![Stage::Prepare, Stage::Finalize];
    assert(two.drop_last() =~= seq![Stage::Prepare]);
    assert(seq![Stage::Prepare].drop_last() =~= Seq::<Stage>::empty());
    assert(stages_spec(true).drop_last() =~= two);
    let c1 = (ActiveCamera::Layer(layer), c.1.push(RenderCommand::SetCamera(layer)).push(RenderCommand::Clear(b.clear_color)));
    assert(run_spec(Seq::<Stage>::empty(), w, c, layer, input) == Ok::<
        (Seq<RenderLayerBundle>, ContextView),
        LayerError,
    >((w, c)));
    assert(seq![Stage::Prepare].last() == Stage::Prepare);
    assert(run_spec(seq![Stage::Prepare], w, c, layer, input) == prepare_spec(w, c, layer, input));
    assert(run_spec(two, w, c, layer, input) == Ok::<(Seq<RenderLayerBundle>, ContextView), LayerError>(
        (w1, finalize_spec(c1)),
    ));
    let base = seq![RenderCommand::SetCamera(layer), RenderCommand::Clear(b.clear_color), RenderCommand::SetDefaultCamera];
    assert(finalize_spec(c1).1 =~= c.1 + base);
    if display {
        let d = RenderCommand::DrawLayer {
            layer,
            placement: placement_spec(b.target_size(), input.screen),
            tint: white_spec(),
            flip_y: true,
        };
        assert(finalize_spec(c1).1.push(d) =~= c.1 + base.push(d));
    }
}

} // verus!
