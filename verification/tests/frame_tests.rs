use piecanvas::canvas::{Canvas, Color, DrawCommand, Shape};
use piecanvas::frame::{Budget, CapacityExceeded, DrawBatch, FrameBuffers, Span, BATCH_BYTES};
use piecanvas::geometry::{Directions, Point, Rect, UNIT};
use piecanvas::mesh::{AntiAliasing, ConvertConfig};
use piecanvas::pack::{INDEX_BYTES, VERTEX_BYTES};
use piecanvas::piemenu::PieMenuState;

/// The table of directions as a host computes it: cosine and sine of every
/// minute of arc in floating point, times the unit, rounded.
fn directions() -> Directions {
    let table: Vec<Point> = (0..21600)
        .map(|a| {
            let turn = a as f64 * std::f64::consts::TAU / 21600.0;
            Point {
                x: (turn.cos() * UNIT as f64).round() as i32,
                y: (turn.sin() * UNIT as f64).round() as i32,
            }
        })
        .collect();
    Directions::from_table(table).unwrap()
}

fn config() -> ConvertConfig {
    ConvertConfig {
        shape_aa: AntiAliasing::Off,
        line_aa: AntiAliasing::Off,
        circle_segment_count: 22,
        arc_segment_count: 22,
        curve_segment_count: 22,
        global_alpha: 255,
        null_u: 0,
        null_v: 0,
        directions: directions(),
    }
}

fn demo_budget() -> Budget {
    Budget { vertex_bytes: 512 * 1024, index_bytes: 128 * 1024, command_bytes: 64 * 1024 }
}

fn budget_for(vertices: usize, indices: usize, batches: usize) -> Budget {
    Budget {
        vertex_bytes: vertices * VERTEX_BYTES,
        index_bytes: indices * INDEX_BYTES,
        command_bytes: batches * BATCH_BYTES,
    }
}

fn screen() -> Rect {
    Rect { x: 0, y: 0, w: 1280, h: 800 }
}

fn white() -> Color {
    Color { r: 255, g: 255, b: 255, a: 255 }
}

fn image(x: i32, texture: u32) -> DrawCommand {
    DrawCommand {
        shape: Shape::Image { bounds: Rect { x, y: 0, w: 30, h: 30 }, texture },
        color: white(),
        clip: screen(),
    }
}

fn triangle(x: i32, clip: Rect) -> DrawCommand {
    DrawCommand {
        shape: Shape::FillPolygon {
            points: vec![Point { x, y: 0 }, Point { x: x + 10, y: 0 }, Point { x, y: 10 }],
        },
        color: white(),
        clip,
    }
}

fn assert_renderable(frame: &FrameBuffers) {
    let batches = frame.batches();
    let mut vertex_end = 0;
    let mut index_end = 0;
    for batch in batches.iter() {
        assert_eq!(batch.vertex_range.start, vertex_end);
        assert_eq!(batch.index_range.start, index_end);
        assert!(batch.vertex_range.start < batch.vertex_range.end);
        assert!(batch.vertex_range.end - batch.vertex_range.start <= 65536);
        assert!(batch.index_range.start <= batch.index_range.end);
        for j in batch.index_range.start..batch.index_range.end {
            let index = frame.indices()[j] as usize;
            assert!(index < batch.vertex_range.end - batch.vertex_range.start);
        }
        vertex_end = batch.vertex_range.end;
        index_end = batch.index_range.end;
    }
    assert_eq!(vertex_end, frame.vertices().len());
    assert_eq!(index_end, frame.indices().len());
    let budget = frame.capacity();
    assert!(frame.vertices().len() * VERTEX_BYTES <= budget.vertex_bytes);
    assert!(frame.indices().len() * INDEX_BYTES <= budget.index_bytes);
    assert!(frame.batches().len() * BATCH_BYTES <= budget.command_bytes);
}

#[test]
fn budget_counts_whole_records() {
    let budget = demo_budget();
    assert_eq!(budget.max_vertices(), 32768);
    assert_eq!(budget.max_indices(), 65536);
    assert_eq!(budget.max_batches(), 1820);
    let small = Budget { vertex_bytes: 39, index_bytes: 3, command_bytes: 35 };
    assert_eq!((small.max_vertices(), small.max_indices(), small.max_batches()), (2, 1, 0));
}

#[test]
fn buffers_are_made_for_any_budget() {
    let huge = Budget { vertex_bytes: usize::MAX, index_bytes: usize::MAX, command_bytes: usize::MAX };
    let mut frame = FrameBuffers::new(huge);
    assert_eq!(frame.capacity(), huge);
    assert_eq!(frame.compile(&vec![triangle(0, screen())], &config()), Ok(()));
    assert_eq!(frame.vertices().len(), 3);
    let none = Budget { vertex_bytes: 0, index_bytes: 0, command_bytes: 0 };
    let mut empty = FrameBuffers::new(none);
    assert_eq!(
        empty.compile(&vec![triangle(0, screen())], &config()),
        Err(CapacityExceeded { compiled: 0 })
    );
}

#[test]
fn neighbouring_batches_could_not_have_been_one() {
    let mut cfg = config();
    cfg.circle_segment_count = 30000;
    let circle = DrawCommand {
        shape: Shape::FillCircle { bounds: Rect { x: 0, y: 0, w: 1000, h: 1000 } },
        color: white(),
        clip: screen(),
    };
    let narrow = Rect { x: 10, y: 10, w: 100, h: 100 };
    let commands = vec![
        circle.clone(),
        circle.clone(),
        circle.clone(),
        triangle(0, screen()),
        triangle(0, narrow),
        image(0, 1),
        image(0, 1),
        image(0, 2),
        triangle(0, screen()),
        circle.clone(),
        circle,
    ];
    let mut frame = FrameBuffers::new(budget_for(400000, 900000, 50));
    assert_eq!(frame.compile(&commands, &cfg), Ok(()));
    let batches = frame.batches();
    assert_eq!(batches.len(), 6);
    for pair in batches.windows(2) {
        let together = (pair[0].vertex_range.end - pair[0].vertex_range.start)
            + (pair[1].vertex_range.end - pair[1].vertex_range.start);
        assert!(
            pair[0].texture_handle != pair[1].texture_handle
                || pair[0].clip_rect != pair[1].clip_rect
                || together > 65536
        );
    }
    assert_renderable(&frame);
}

#[test]
fn frame_without_commands_has_no_batches() {
    let mut frame = FrameBuffers::new(demo_budget());
    assert_eq!(frame.compile(&Vec::new(), &config()), Ok(()));
    assert!(frame.batches().is_empty());
    assert!(frame.vertices().is_empty());
    assert!(frame.indices().is_empty());
    assert_eq!(frame.capacity(), demo_budget());
}

#[test]
fn consecutive_commands_with_one_texture_and_clip_share_a_batch() {
    let mut frame = FrameBuffers::new(demo_budget());
    let commands = vec![triangle(0, screen()), triangle(20, screen()), triangle(40, screen())];
    assert_eq!(frame.compile(&commands, &config()), Ok(()));
    assert_eq!(
        frame.batches(),
        &vec![DrawBatch {
            vertex_range: Span { start: 0, end: 9 },
            index_range: Span { start: 0, end: 9 },
            clip_rect: screen(),
            texture_handle: 0,
        }]
    );
    assert_eq!(frame.indices(), &vec![0, 1, 2, 3, 4, 5, 6, 7, 8]);
    assert_eq!(frame.vertices()[3].x, 20);
    assert_eq!(frame.vertices()[7].x, 50);
    assert_renderable(&frame);
}

#[test]
fn change_of_texture_or_clip_starts_a_batch() {
    let mut frame = FrameBuffers::new(demo_budget());
    let narrow = Rect { x: 10, y: 10, w: 100, h: 100 };
    let commands = vec![
        triangle(0, screen()),
        image(0, 1),
        image(40, 1),
        image(80, 2),
        triangle(20, screen()),
        triangle(40, narrow),
        triangle(60, narrow),
    ];
    assert_eq!(frame.compile(&commands, &config()), Ok(()));
    let batch = |v0, v1, i0, i1, clip_rect, texture_handle| DrawBatch {
        vertex_range: Span { start: v0, end: v1 },
        index_range: Span { start: i0, end: i1 },
        clip_rect,
        texture_handle,
    };
    assert_eq!(
        frame.batches(),
        &vec![
            batch(0, 3, 0, 3, screen(), 0),
            batch(3, 11, 3, 15, screen(), 1),
            batch(11, 15, 15, 21, screen(), 2),
            batch(15, 18, 21, 24, screen(), 0),
            batch(18, 24, 24, 30, narrow, 0),
        ]
    );
    assert_eq!(frame.indices()[3..15].to_vec(), vec![0, 1, 2, 0, 2, 3, 4, 5, 6, 4, 6, 7]);
    assert_eq!(frame.indices()[24..30].to_vec(), vec![0, 1, 2, 3, 4, 5]);
    assert_renderable(&frame);
}

#[test]
fn batch_counts_add_up_to_the_totals() {
    let mut frame = FrameBuffers::new(demo_budget());
    let mut canvas = Canvas::new(screen());
    let icons: Vec<u32> = vec![1, 2, 3, 4, 5, 6];
    PieMenuState::layout(Rect { x: -40, y: -40, w: 280, h: 280 }, 6, Point { x: 240, y: 100 }, 0)
        .paint(&mut canvas, &icons, &directions());
    assert_eq!(frame.compile(canvas.commands(), &config()), Ok(()));
    let vertices: usize =
        frame.batches().iter().map(|b| b.vertex_range.end - b.vertex_range.start).sum();
    let indices: usize =
        frame.batches().iter().map(|b| b.index_range.end - b.index_range.start).sum();
    assert_eq!(vertices, frame.vertices().len());
    assert_eq!(indices, frame.indices().len());
    assert_eq!(vertices, 22 + 6 * (24 + 4 + 4) + 22 + 4);
    assert_eq!(indices, 60 + 6 * (66 + 6 + 6) + 60 + 6);
    assert_eq!(frame.batches().len(), 1 + 12 + 1);
    assert_renderable(&frame);
}

#[test]
fn compiling_twice_gives_the_same_buffers() {
    let mut canvas = Canvas::new(screen());
    let icons: Vec<u32> = vec![1, 2, 3];
    PieMenuState::layout(Rect { x: 0, y: 0, w: 200, h: 200 }, 3, Point { x: 10, y: 190 }, 8100)
        .paint(&mut canvas, &icons, &directions());
    let mut first = FrameBuffers::new(demo_budget());
    let mut second = FrameBuffers::new(demo_budget());
    assert_eq!(second.compile(&vec![triangle(0, screen())], &config()), Ok(()));
    assert_eq!(first.compile(canvas.commands(), &config()), Ok(()));
    assert_eq!(second.compile(canvas.commands(), &config()), Ok(()));
    assert_eq!(first.vertices(), second.vertices());
    assert_eq!(first.indices(), second.indices());
    assert_eq!(first.batches(), second.batches());
    let vertices = first.vertices().clone();
    let indices = first.indices().clone();
    let batches = first.batches().clone();
    assert_eq!(first.compile(canvas.commands(), &config()), Ok(()));
    assert_eq!(first.vertices(), &vertices);
    assert_eq!(first.indices(), &indices);
    assert_eq!(first.batches(), &batches);
}

#[test]
fn frame_over_the_index_budget_keeps_the_prefix_that_fits() {
    let commands = vec![
        triangle(0, screen()),
        triangle(20, screen()),
        triangle(40, screen()),
        triangle(60, screen()),
    ];
    let mut frame = FrameBuffers::new(budget_for(100, 8, 10));
    assert_eq!(frame.compile(&commands, &config()), Err(CapacityExceeded { compiled: 2 }));
    assert_eq!(frame.vertices().len(), 6);
    assert_eq!(frame.indices(), &vec![0, 1, 2, 3, 4, 5]);
    assert_eq!(frame.batches().len(), 1);
    assert_renderable(&frame);

    let mut reference = FrameBuffers::new(budget_for(100, 8, 10));
    assert_eq!(reference.compile(&commands[..2].to_vec(), &config()), Ok(()));
    assert_eq!(frame.vertices(), reference.vertices());
    assert_eq!(frame.indices(), reference.indices());
    assert_eq!(frame.batches(), reference.batches());
}

#[test]
fn frame_over_the_vertex_budget_stops() {
    let commands = vec![image(0, 1), image(40, 1), triangle(0, screen())];
    let mut frame = FrameBuffers::new(budget_for(7, 100, 10));
    assert_eq!(frame.compile(&commands, &config()), Err(CapacityExceeded { compiled: 1 }));
    assert_eq!(frame.vertices().len(), 4);
    assert_renderable(&frame);
    let mut exact = FrameBuffers::new(budget_for(11, 15, 2));
    assert_eq!(exact.compile(&commands, &config()), Ok(()));
    assert_eq!(exact.vertices().len(), 11);
    assert_renderable(&exact);
}

#[test]
fn frame_over_the_batch_budget_stops() {
    let commands = vec![image(0, 1), image(40, 1), image(80, 2), image(120, 2)];
    let mut frame = FrameBuffers::new(budget_for(100, 100, 1));
    assert_eq!(frame.compile(&commands, &config()), Err(CapacityExceeded { compiled: 2 }));
    assert_eq!(frame.batches().len(), 1);
    assert_eq!(frame.vertices().len(), 8);
    assert_renderable(&frame);
    let mut none = FrameBuffers::new(budget_for(100, 100, 0));
    assert_eq!(none.compile(&commands, &config()), Err(CapacityExceeded { compiled: 0 }));
    assert!(none.batches().is_empty());
    assert_renderable(&none);
}

#[test]
fn commands_without_geometry_take_no_room() {
    let commands = vec![
        DrawCommand {
            shape: Shape::FillPolygon { points: Vec::new() },
            color: white(),
            clip: screen(),
        },
        DrawCommand {
            shape: Shape::StrokeLine {
                from: Point { x: 1, y: 1 },
                to: Point { x: 1, y: 1 },
                thickness: 1,
            },
            color: white(),
            clip: screen(),
        },
    ];
    let mut frame = FrameBuffers::new(budget_for(0, 0, 0));
    assert_eq!(frame.compile(&commands, &config()), Ok(()));
    assert!(frame.batches().is_empty());
    let mut mixed = FrameBuffers::new(demo_budget());
    let list = vec![
        triangle(0, screen()),
        commands[0].clone(),
        triangle(20, screen()),
        commands[1].clone(),
    ];
    assert_eq!(mixed.compile(&list, &config()), Ok(()));
    assert_eq!(mixed.batches().len(), 1);
    assert_eq!(mixed.vertices().len(), 6);
}

#[test]
fn batch_that_would_pass_the_index_range_is_split() {
    let mut cfg = config();
    cfg.circle_segment_count = 40000;
    let circle = DrawCommand {
        shape: Shape::FillCircle { bounds: Rect { x: 0, y: 0, w: 1000, h: 1000 } },
        color: white(),
        clip: screen(),
    };
    let commands = vec![circle.clone(), triangle(0, screen()), circle.clone(), circle];
    let mut frame = FrameBuffers::new(budget_for(200000, 400000, 10));
    assert_eq!(frame.compile(&commands, &cfg), Ok(()));
    let ranges: Vec<(usize, usize)> =
        frame.batches().iter().map(|b| (b.vertex_range.start, b.vertex_range.end)).collect();
    assert_eq!(ranges, vec![(0, 40003), (40003, 80003), (80003, 120003)]);
    assert_eq!(frame.indices()[3 * 39998], 40000);
    assert_eq!(frame.indices()[3 * 39998 + 2], 40002);
    assert_eq!(frame.indices()[3 * 39999], 0);
    assert_renderable(&frame);
}

#[test]
fn appending_by_hand_matches_compiling() {
    let commands = vec![image(0, 1), triangle(0, screen()), triangle(20, screen())];
    let mut compiled = FrameBuffers::new(demo_budget());
    assert_eq!(compiled.compile(&commands, &config()), Ok(()));
    let mut streamed = FrameBuffers::new(demo_budget());
    for command in commands.iter() {
        assert!(streamed.append(command, &config()));
    }
    assert_eq!(streamed.vertices(), compiled.vertices());
    assert_eq!(streamed.indices(), compiled.indices());
    assert_eq!(streamed.batches(), compiled.batches());
    streamed.clear();
    assert!(streamed.batches().is_empty() && streamed.vertices().is_empty());
    let mut tight = FrameBuffers::new(budget_for(4, 6, 1));
    assert!(tight.append(&commands[0], &config()));
    assert!(!tight.append(&commands[1], &config()));
    assert_eq!(tight.vertices().len(), 4);
}

#[test]
fn buffers_are_handed_out_packed() {
    let mut frame = FrameBuffers::new(demo_budget());
    let commands = vec![image(-2, 1), triangle(0, screen())];
    assert_eq!(frame.compile(&commands, &config()), Ok(()));
    let vertices = frame.vertex_bytes();
    let indices = frame.index_bytes();
    assert_eq!(vertices.len(), frame.vertices().len() * VERTEX_BYTES);
    assert_eq!(indices.len(), frame.indices().len() * INDEX_BYTES);
    assert_eq!(
        vertices[..16].to_vec(),
        vec![0xfe, 0xff, 0xff, 0xff, 0, 0, 0, 0, 0, 0, 0, 0, 255, 255, 255, 255]
    );
    assert_eq!(
        vertices[32..48].to_vec(),
        vec![28, 0, 0, 0, 30, 0, 0, 0, 0xff, 0xff, 0xff, 0xff, 255, 255, 255, 255]
    );
    assert_eq!(indices, vec![0, 0, 1, 0, 2, 0, 0, 0, 2, 0, 3, 0, 0, 0, 1, 0, 2, 0]);
    assert!(vertices.len() <= frame.capacity().vertex_bytes);
    assert!(indices.len() <= frame.capacity().index_bytes);
    let mut again = FrameBuffers::new(demo_budget());
    assert_eq!(again.compile(&commands, &config()), Ok(()));
    assert_eq!(again.vertex_bytes(), vertices);
    assert_eq!(again.index_bytes(), indices);
}
