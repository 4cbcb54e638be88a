use layer_renderer::layer::{Color, LayerTag, RenderLayerConfig};
use layer_renderer::layout::{Fraction, MousePosition, Resolution};
use layer_renderer::pipeline::{
    create_render_layer_schedule, display_render_layer, end_layer_rendering, prepare_layer_rendering, run_schedule,
    ActiveCamera, FrameInput, RenderCommand, RenderContext, Stage,
};
use layer_renderer::store::{LayerError, LayerWorld};

fn config(width: u32, height: u32, display: bool) -> RenderLayerConfig {
    RenderLayerConfig {
        resolution: Resolution { width, height },
        clear_color: Color::purple(),
        display,
        post_processing_shader: None,
    }
}

fn input(w: u32, h: u32, x: i32, y: i32) -> FrameInput {
    FrameInput { screen: Resolution { width: w, height: h }, cursor_x: x, cursor_y: y }
}

const L1: LayerTag = LayerTag { id: 1 };
const L2: LayerTag = LayerTag { id: 2 };

#[test]
fn build_creates_one_record() {
    let mut world = LayerWorld::new();
    assert_eq!(world.count(L1), 0);
    let schedule = create_render_layer_schedule(&config(320, 240, true), &mut world, L1).unwrap();
    assert_eq!(schedule.layer, L1);
    assert_eq!(world.count(L1), 1);
    assert_eq!(world.count(L2), 0);
    let i = world.find_single(L1).unwrap();
    let b = world.get(i);
    assert_eq!(b.clear_color, Color::purple());
    assert_eq!(b.mouse_position, MousePosition { x: 0, y: 0 });
    let target = b.camera.render_target.unwrap();
    assert_eq!((target.width, target.height), (320, 240));
    assert_eq!((b.camera.display_rect.w, b.camera.display_rect.h), (320, 240));
}

#[test]
fn display_gating() {
    let mut world = LayerWorld::new();
    let shown = create_render_layer_schedule(&config(320, 240, true), &mut world, L1).unwrap();
    assert_eq!(shown.stages, vec![Stage::Prepare, Stage::Finalize, Stage::Display]);
    let hidden = create_render_layer_schedule(&config(320, 240, false), &mut world, L2).unwrap();
    assert_eq!(hidden.stages, vec![Stage::Prepare, Stage::Finalize]);
}

#[test]
fn zero_resolution_is_refused() {
    let mut world = LayerWorld::new();
    let r = create_render_layer_schedule(&config(0, 240, true), &mut world, L1);
    assert!(matches!(r, Err(LayerError::ZeroResolution)));
    let r = create_render_layer_schedule(&config(320, 0, false), &mut world, L1);
    assert!(matches!(r, Err(LayerError::ZeroResolution)));
    assert_eq!(world.len(), 0);
}

#[test]
fn stages_before_build_fail() {
    let mut world = LayerWorld::new();
    let mut ctx = RenderContext::new();
    let r = prepare_layer_rendering(&mut world, &mut ctx, L1, input(800, 600, 0, 0));
    assert_eq!(r, Err(LayerError::CountMismatch { layer: L1, count: 0 }));
    let r = display_render_layer(&world, &mut ctx, L1, Resolution { width: 800, height: 600 });
    assert_eq!(r, Err(LayerError::CountMismatch { layer: L1, count: 0 }));
    assert!(ctx.commands.is_empty());
    assert_eq!(ctx.active, ActiveCamera::Screen);
}

#[test]
fn stages_after_duplicate_spawn_fail() {
    let mut world = LayerWorld::new();
    let mut ctx = RenderContext::new();
    let schedule = create_render_layer_schedule(&config(320, 240, true), &mut world, L1).unwrap();
    create_render_layer_schedule(&config(320, 240, true), &mut world, L1).unwrap();
    assert_eq!(world.count(L1), 2);
    let r = run_schedule(&schedule, &mut world, &mut ctx, input(800, 600, 400, 300));
    assert_eq!(r, Err(LayerError::CountMismatch { layer: L1, count: 2 }));
    assert!(ctx.commands.is_empty());
    assert_eq!(world.mouse_position(L1), Err(LayerError::CountMismatch { layer: L1, count: 2 }));
}

#[test]
fn end_to_end_frame() {
    let mut world = LayerWorld::new();
    let mut ctx = RenderContext::new();
    let schedule = create_render_layer_schedule(&config(320, 240, true), &mut world, L1).unwrap();
    run_schedule(&schedule, &mut world, &mut ctx, input(800, 600, 400, 300)).unwrap();
    assert_eq!(world.mouse_position(L1), Ok(MousePosition { x: 160, y: 120 }));
    assert_eq!(ctx.active, ActiveCamera::Screen);
    assert_eq!(ctx.commands.len(), 4);
    assert_eq!(ctx.commands[0], RenderCommand::SetCamera(L1));
    assert_eq!(ctx.commands[1], RenderCommand::Clear(Color::purple()));
    assert_eq!(ctx.commands[2], RenderCommand::SetDefaultCamera);
    match ctx.commands[3] {
        RenderCommand::DrawLayer { layer, placement, tint, flip_y } => {
            assert_eq!(layer, L1);
            assert_eq!(tint, Color::white());
            assert!(flip_y);
            assert_eq!(placement.offset_x.num, 0);
            assert_eq!(placement.offset_y.num, 0);
            assert_eq!(placement.width, Fraction { num: 256000, den: 320 });
            assert_eq!(placement.height, Fraction { num: 192000, den: 320 });
        },
        _ => panic!("expected a draw of the layer"),
    }
}

#[test]
fn hidden_layer_draws_nothing_on_screen() {
    let mut world = LayerWorld::new();
    let mut ctx = RenderContext::new();
    let schedule = create_render_layer_schedule(&config(320, 240, false), &mut world, L1).unwrap();
    run_schedule(&schedule, &mut world, &mut ctx, input(1000, 600, 100, 0)).unwrap();
    assert_eq!(world.mouse_position(L1), Ok(MousePosition { x: 0, y: 0 }));
    assert_eq!(
        ctx.commands,
        vec![RenderCommand::SetCamera(L1), RenderCommand::Clear(Color::purple()), RenderCommand::SetDefaultCamera]
    );
}

#[test]
fn prepare_twice_changes_nothing_more() {
    let mut world = LayerWorld::new();
    let mut ctx = RenderContext::new();
    create_render_layer_schedule(&config(320, 240, true), &mut world, L1).unwrap();
    prepare_layer_rendering(&mut world, &mut ctx, L1, input(1000, 600, 125, 25)).unwrap();
    let first = *world.get(0);
    prepare_layer_rendering(&mut world, &mut ctx, L1, input(1000, 600, 125, 25)).unwrap();
    assert_eq!(*world.get(0), first);
    assert_eq!(first.mouse_position, MousePosition { x: 10, y: 10 });
    assert_eq!(ctx.active, ActiveCamera::Layer(L1));
    assert_eq!(ctx.commands.len(), 4);
    assert_eq!(ctx.commands[0..2], ctx.commands[2..4]);
    assert_eq!(ctx.commands[3], RenderCommand::Clear(Color::purple()));
}

#[test]
fn zero_screen_keeps_last_cursor() {
    let mut world = LayerWorld::new();
    let mut ctx = RenderContext::new();
    create_render_layer_schedule(&config(320, 240, true), &mut world, L1).unwrap();
    prepare_layer_rendering(&mut world, &mut ctx, L1, input(800, 600, 400, 300)).unwrap();
    prepare_layer_rendering(&mut world, &mut ctx, L1, input(0, 0, 7, 7)).unwrap();
    assert_eq!(world.mouse_position(L1), Ok(MousePosition { x: 160, y: 120 }));
}

#[test]
fn layers_are_kept_apart() {
    let mut world = LayerWorld::new();
    let mut ctx = RenderContext::new();
    let a = create_render_layer_schedule(&config(320, 240, true), &mut world, L1).unwrap();
    let b = create_render_layer_schedule(&config(160, 120, true), &mut world, L2).unwrap();
    run_schedule(&a, &mut world, &mut ctx, input(800, 600, 400, 300)).unwrap();
    run_schedule(&b, &mut world, &mut ctx, input(800, 600, 400, 300)).unwrap();
    assert_eq!(world.mouse_position(L1), Ok(MousePosition { x: 160, y: 120 }));
    assert_eq!(world.mouse_position(L2), Ok(MousePosition { x: 80, y: 60 }));
    assert_eq!(ctx.commands.len(), 8);
}

#[test]
fn clear_colour_can_change() {
    let mut world = LayerWorld::new();
    let mut ctx = RenderContext::new();
    create_render_layer_schedule(&config(320, 240, true), &mut world, L1).unwrap();
    let black = Color { r: 0, g: 0, b: 0, a: 255 };
    world.set_clear_color(L1, black).unwrap();
    assert_eq!(world.set_clear_color(L2, black), Err(LayerError::CountMismatch { layer: L2, count: 0 }));
    prepare_layer_rendering(&mut world, &mut ctx, L1, input(800, 600, 0, 0)).unwrap();
    assert_eq!(ctx.commands[1], RenderCommand::Clear(black));
    end_layer_rendering(&mut ctx);
    assert_eq!(ctx.active, ActiveCamera::Screen);
}
