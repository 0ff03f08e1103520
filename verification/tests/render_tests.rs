use piecanvas::canvas::{Canvas, Color, DrawCommand, Shape};
use piecanvas::frame::{Budget, FrameBuffers};
use piecanvas::geometry::{Directions, Point, Rect, UNIT};
use piecanvas::mesh::{AntiAliasing, ConvertConfig};
use piecanvas::piemenu::PieMenuState;
use piecanvas::registry::{TextureRegistry, UnknownTextureHandle};
use piecanvas::render::{render, DrawCall, TextureBinding};

/// The table of directions as a host computes it: cosine and sine of every
/// minute of arc in floating point, times the unit, rounded.
fn directions() -> Directions {
    let table: Vec<Point> = (0..21600)
        .map(|a| {
            let turn = a as f64 * std::f64::consts::TAU / 21600.0;
            Point {
                x: (turn.cos() * UNIT as f64).round() as i32,
                y: (turn.sin() * UNIT as f64).round() as i32,
            }
        })
        .collect();
    Directions::from_table(table).unwrap()
}

fn config() -> ConvertConfig {
    ConvertConfig {
        shape_aa: AntiAliasing::On,
        line_aa: AntiAliasing::On,
        circle_segment_count: 22,
        arc_segment_count: 22,
        curve_segment_count: 22,
        global_alpha: 255,
        null_u: 0,
        null_v: 0,
        directions: directions(),
    }
}

fn demo_budget() -> Budget {
    Budget { vertex_bytes: 512 * 1024, index_bytes: 128 * 1024, command_bytes: 64 * 1024 }
}

fn screen() -> Rect {
    Rect { x: 0, y: 0, w: 1280, h: 800 }
}

fn image(x: i32, texture: u32) -> DrawCommand {
    DrawCommand {
        shape: Shape::Image { bounds: Rect { x, y: 0, w: 30, h: 30 }, texture },
        color: Color { r: 255, g: 255, b: 255, a: 255 },
        clip: Rect { x, y: 0, w: 30, h: 30 },
    }
}

fn line() -> DrawCommand {
    DrawCommand {
        shape: Shape::StrokeLine {
            from: Point { x: 0, y: 0 },
            to: Point { x: 10, y: 10 },
            thickness: 1,
        },
        color: Color { r: 255, g: 255, b: 255, a: 255 },
        clip: screen(),
    }
}

#[test]
fn empty_frame_issues_no_draw_call() {
    let mut frame = FrameBuffers::new(demo_budget());
    assert_eq!(frame.compile(&Vec::new(), &config()), Ok(()));
    let registry: TextureRegistry<u8> = TextureRegistry::new();
    let report = render(&frame, &registry);
    assert!(report.calls.is_empty());
    assert!(report.errors.is_empty());
}

#[test]
fn one_draw_call_per_batch_in_order() {
    let mut registry: TextureRegistry<&str> = TextureRegistry::new();
    let home = registry.register("home");
    let phone = registry.register("phone");
    let mut frame = FrameBuffers::new(demo_budget());
    let commands = vec![line(), image(0, phone), image(40, home), line()];
    assert_eq!(frame.compile(&commands, &config()), Ok(()));
    let report = render(&frame, &registry);
    assert!(report.errors.is_empty());
    assert_eq!(
        report.calls,
        vec![
            DrawCall {
                batch: 0,
                binding: TextureBinding::Atlas,
                clip_rect: screen(),
                base_vertex: 0,
                first_index: 0,
                index_count: 30,
            },
            DrawCall {
                batch: 1,
                binding: TextureBinding::Registered(2),
                clip_rect: Rect { x: 0, y: 0, w: 30, h: 30 },
                base_vertex: 8,
                first_index: 30,
                index_count: 6,
            },
            DrawCall {
                batch: 2,
                binding: TextureBinding::Registered(1),
                clip_rect: Rect { x: 40, y: 0, w: 30, h: 30 },
                base_vertex: 12,
                first_index: 36,
                index_count: 6,
            },
            DrawCall {
                batch: 3,
                binding: TextureBinding::Atlas,
                clip_rect: screen(),
                base_vertex: 16,
                first_index: 42,
                index_count: 30,
            },
        ]
    );
    assert_eq!(report.calls.len(), frame.batches().len());
}

#[test]
fn batch_with_unknown_texture_is_skipped_and_reported() {
    let mut registry: TextureRegistry<&str> = TextureRegistry::new();
    let home = registry.register("home");
    let mut frame = FrameBuffers::new(demo_budget());
    let commands = vec![image(0, home), image(40, 7), line(), image(80, 9), image(120, home)];
    assert_eq!(frame.compile(&commands, &config()), Ok(()));
    assert_eq!(frame.batches().len(), 5);
    let report = render(&frame, &registry);
    assert_eq!(
        report.errors,
        vec![UnknownTextureHandle { handle: 7 }, UnknownTextureHandle { handle: 9 }]
    );
    let drawn: Vec<usize> = report.calls.iter().map(|c| c.batch).collect();
    assert_eq!(drawn, vec![0, 2, 4]);
    assert_eq!(report.calls.len() + report.errors.len(), frame.batches().len());
}

#[test]
fn every_texture_of_a_compiled_menu_resolves() {
    let mut registry: TextureRegistry<String> = TextureRegistry::new();
    let names = ["home", "phone", "plane", "wifi", "settings", "volume"];
    let icons: Vec<u32> = names.iter().map(|n| registry.register(n.to_string())).collect();
    assert_eq!(icons, vec![1, 2, 3, 4, 5, 6]);
    let mut canvas = Canvas::new(screen());
    PieMenuState::layout(Rect { x: -40, y: -40, w: 280, h: 280 }, 6, Point { x: 100, y: -40 }, 16200)
        .paint(&mut canvas, &icons, &directions());
    let mut frame = FrameBuffers::new(demo_budget());
    assert_eq!(frame.compile(canvas.commands(), &config()), Ok(()));
    for _ in 0..3 {
        registry.register("later".to_string());
        let report = render(&frame, &registry);
        assert!(report.errors.is_empty());
        assert_eq!(report.calls.len(), frame.batches().len());
        for (i, call) in report.calls.iter().enumerate() {
            assert_eq!(call.batch, i);
            match call.binding {
                TextureBinding::Atlas => assert_eq!(frame.batches()[i].texture_handle, 0),
                TextureBinding::Registered(handle) => {
                    assert_eq!(frame.batches()[i].texture_handle, handle);
                    assert!(registry.resolve(handle).is_ok());
                }
            }
        }
    }
    let last = render(&frame, &registry).calls[13];
    assert_eq!(last.binding, TextureBinding::Registered(5));
}

#[test]
fn prefix_of_a_frame_over_budget_is_rendered() {
    let registry: TextureRegistry<u8> = TextureRegistry::new();
    let mut frame = FrameBuffers::new(Budget {
        vertex_bytes: 20 * 100,
        index_bytes: 2 * 40,
        command_bytes: 36 * 4,
    });
    let commands = vec![line(), line()];
    assert!(frame.compile(&commands, &config()).is_err());
    let report = render(&frame, &registry);
    assert_eq!(report.calls.len(), 1);
    assert_eq!(report.calls[0].index_count, 30);
    assert!(report.errors.is_empty());
}
