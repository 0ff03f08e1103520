//! The radial menu: a disc of equal sectors around the point where it was
//! invoked, one icon per sector. The sector under the pointer is highlighted
//! while the invoking button is held and becomes the selection when the
//! button is released inside the menu.

use vstd::prelude::*;
use crate::canvas::{color_rgb, Canvas, Color, DrawCommandView, ShapeView};
use crate::geometry::{
    active_sector, held_angle, lemma_scaled_bounds, lemma_sector_start_bounds, polar_point,
    sector_count, sector_of, sector_start, sector_start_angle, table_ok, Directions, Point, Rect,
    COORD_LIMIT,
};
use crate::mesh::ConvertConfig;
use crate::tessellate::outline_countable;
use crate::style::{menu_style, StyleScope, WindowStyle};

verus! {

/// Side of the box that an icon in a sector is drawn in, whatever the size of
/// the menu.
pub const ICON_SIZE: i32 = 30;

/// What the menu is at one frame: where it is, how large, how many sectors it
/// has and which of them the pointer selects. It is computed anew each frame.
#[derive(Clone, Copy, Debug, PartialEq, Eq)]
pub struct PieMenuState {
    pub center: Point,
    pub outer_radius: i32,
    pub sector_count: usize,
    pub active_sector: Option<usize>,
}

/// Whether the surrounding popup could be opened, and where its content lies.
#[derive(Clone, Copy, Debug, PartialEq, Eq)]
pub enum PopupState {
    /// The popup is open and `bounds` is the square given to the menu.
    Opened { bounds: Rect },
    /// The popup could not be opened.
    Failed,
}

/// What one frame of the menu reports to its caller. Anything but
/// `StillOpen` asks the caller to close the menu.
#[derive(Clone, Copy, Debug, PartialEq, Eq)]
pub enum MenuOutcome {
    /// The invoking button is still held down: nothing is selected yet.
    StillOpen,
    /// The button was released inside the menu, over this sector.
    Selected(usize),
    /// The button was released outside the menu.
    Dismissed,
    /// The popup could not be opened.
    FailedToOpen,
}

/// Fill of the outer disc.
pub open spec fn outer_fill() -> Color {
    Color { r: 50, g: 50, b: 50, a: 255 }
}

/// Fill of the sector under the pointer.
pub open spec fn active_fill() -> Color {
    Color { r: 45, g: 100, b: 255, a: 255 }
}

/// Fill of every other sector.
pub open spec fn idle_fill() -> Color {
    Color { r: 60, g: 60, b: 60, a: 255 }
}

/// Colour of the lines between sectors.
pub open spec fn separator_color() -> Color {
    Color { r: 50, g: 50, b: 50, a: 255 }
}

/// Fill of the inner disc.
pub open spec fn inner_fill() -> Color {
    Color { r: 45, g: 45, b: 45, a: 255 }
}

/// Tint that leaves an icon's own colours unchanged.
pub open spec fn icon_tint() -> Color {
    Color { r: 255, g: 255, b: 255, a: 255 }
}

/// The square of side `2 * radius` around `center`.
pub open spec fn square_around(center: Point, radius: int) -> Rect {
    Rect {
        x: (center.x - radius) as i32,
        y: (center.y - radius) as i32,
        w: (2 * radius) as i32,
        h: (2 * radius) as i32,
    }
}

impl PieMenuState {
    /// The centre is within the accepted range, the radius is neither
    /// negative nor beyond it, there is at least one sector, and the active
    /// sector, if any, is one of them.
    pub open spec fn wf(self) -> bool {
        &&& self.center.wf()
        &&& 0 <= self.outer_radius <= COORD_LIMIT
        &&& self.sector_count >= 1
        &&& self.active_sector matches Some(s) ==> s < self.sector_count
    }

    /// The menu laid out in the square `bounds` for `icon_count` icons, with
    /// the pointer at `pointer` and the host's estimate `angle` of the
    /// pointer's angle as seen from the middle of the square: centred in the
    /// square, reaching its sides, with one sector per icon and at least
    /// one. The active sector is the one whose half-open range holds the
    /// angle of the pointer.
    pub open spec fn laid_out(bounds: Rect, icon_count: int, pointer: Point, angle: int)
        -> PieMenuState {
        let center = bounds.middle();
        PieMenuState {
            center,
            outer_radius: (bounds.w / 2) as i32,
            sector_count: sector_count(icon_count) as usize,
            active_sector: Some(
                sector_of(
                    held_angle(pointer.x - center.x, pointer.y - center.y, angle),
                    icon_count,
                ) as usize,
            ),
        }
    }

    /// The region of the popup: the square that the outer disc is inscribed
    /// in, its edges included.
    pub open spec fn region(self) -> Rect {
        square_around(self.center, self.outer_radius as int)
    }

    /// The first angle of sector `i`.
    pub open spec fn sector_min(self, i: int) -> int {
        sector_start(i, self.sector_count as int)
    }

    /// The angle at which sector `i` ends and the next one begins.
    pub open spec fn sector_max(self, i: int) -> int {
        sector_start(i + 1, self.sector_count as int)
    }

    /// The angle halfway through sector `i`.
    pub open spec fn sector_bisector(self, i: int) -> int {
        self.sector_min(i) + (self.sector_max(i) - self.sector_min(i)) / 2
    }

    /// Distance from the centre to the middle of a sector's icon: two fifths
    /// of the outer radius.
    pub open spec fn icon_distance(self) -> int {
        2 * self.outer_radius / 5
    }

    /// The box of the icon of sector `i`: `ICON_SIZE` on a side, centred on
    /// the sector's bisector at the icon distance.
    pub open spec fn icon_box(self, dirs: Seq<Point>, i: int) -> Rect {
        let mid = polar_point(dirs, self.center, self.sector_bisector(i), self.icon_distance());
        Rect {
            x: (mid.x - ICON_SIZE / 2) as i32,
            y: (mid.y - ICON_SIZE / 2) as i32,
            w: ICON_SIZE,
            h: ICON_SIZE,
        }
    }

    /// The square of the inner disc, whose radius is half the outer radius.
    pub open spec fn inner_bounds(self) -> Rect {
        square_around(self.center, self.outer_radius as int / 2)
    }

    /// The box in the middle of the inner disc that shows the icon of the
    /// active sector: half the inner disc's extent.
    pub open spec fn preview_box(self) -> Rect {
        square_around(self.center, self.outer_radius as int / 2 / 2)
    }

    /// The three commands of sector `i`: its slice, the separator at its
    /// first angle, and its icon.
    pub open spec fn sector_commands(self, dirs: Seq<Point>, i: int, icons: Seq<u32>, clip: Rect)
        -> Seq<DrawCommandView> {
        seq![
            DrawCommandView {
                shape: ShapeView::FillArc {
                    center: self.center,
                    radius: self.outer_radius as u32,
                    a_min: self.sector_min(i) as u32,
                    a_max: self.sector_max(i) as u32,
                },
                color: if self.active_sector == Some(i as usize) {
                    active_fill()
                } else {
                    idle_fill()
                },
                clip,
            },
            DrawCommandView {
                shape: ShapeView::StrokeLine {
                    from: self.center,
                    to: polar_point(
                        dirs,
                        self.center,
                        self.sector_min(i),
                        self.outer_radius as int,
                    ),
                    thickness: 1,
                },
                color: separator_color(),
                clip,
            },
            DrawCommandView {
                shape: ShapeView::Image { bounds: self.icon_box(dirs, i), texture: icons[i] },
                color: icon_tint(),
                clip,
            },
        ]
    }

    /// The commands of the first `k` sectors, in order.
    pub open spec fn sectors_commands(self, dirs: Seq<Point>, k: int, icons: Seq<u32>, clip: Rect)
        -> Seq<DrawCommandView>
        decreases k,
    {
        if k <= 0 {
            Seq::empty()
        } else {
            self.sectors_commands(dirs, k - 1, icons, clip) + self.sector_commands(
                dirs,
                k - 1,
                icons,
                clip,
            )
        }
    }

    /// The command that shows the active sector's icon in the inner disc:
    /// none while no sector is active or the menu has no icon for it.
    pub open spec fn preview_commands(self, icons: Seq<u32>, clip: Rect) -> Seq<DrawCommandView> {
        match self.active_sector {
            Some(s) if s < icons.len() => seq![
                DrawCommandView {
                    shape: ShapeView::Image { bounds: self.preview_box(), texture: icons[s as int] },
                    color: icon_tint(),
                    clip,
                },
            ],
            _ => Seq::empty(),
        }
    }

    /// Everything the menu draws, in painting order: the outer disc, the
    /// sectors, the inner disc, and the active icon on top.
    pub open spec fn commands(self, dirs: Seq<Point>, icons: Seq<u32>, clip: Rect) -> Seq<
        DrawCommandView,
    > {
        seq![
            DrawCommandView {
                shape: ShapeView::FillCircle { bounds: self.region() },
                color: outer_fill(),
                clip,
            },
        ] + self.sectors_commands(dirs, icons.len() as int, icons, clip) + seq![
            DrawCommandView {
                shape: ShapeView::FillCircle { bounds: self.inner_bounds() },
                color: inner_fill(),
                clip,
            },
        ] + self.preview_commands(icons, clip)
    }

    /// What releasing or holding the invoking button means with the pointer
    /// at `pointer`.
    pub open spec fn outcome(self, pointer: Point, button_down: bool) -> MenuOutcome {
        if button_down {
            MenuOutcome::StillOpen
        } else {
            match self.active_sector {
                Some(s) if self.region().holds(pointer) => MenuOutcome::Selected(s),
                _ => MenuOutcome::Dismissed,
            }
        }
    }

    /// A menu around `center` for `icon_count` icons with no active sector
    /// yet.
    pub fn new(center: Point, outer_radius: i32, icon_count: usize) -> (state: PieMenuState)
        ensures
            state == (PieMenuState {
                center,
                outer_radius,
                sector_count: sector_count(icon_count as int) as usize,
                active_sector: None,
            }),
    {
        PieMenuState {
            center,
            outer_radius,
            sector_count: if icon_count < 1 { 1 } else { icon_count },
            active_sector: None,
        }
    }

    /// The menu laid out in `bounds` with the pointer at `pointer`, `angle`
    /// being the host's estimate of the pointer's angle as seen from the
    /// middle of `bounds`, in whole minutes of arc.
    pub fn layout(bounds: Rect, icon_count: usize, pointer: Point, angle: u32) -> (state:
        PieMenuState)
        requires
            bounds.wf(),
        ensures
            state == PieMenuState::laid_out(bounds, icon_count as int, pointer, angle as int),
            state.wf(),
            state.sector_count == sector_count(icon_count as int),
    {
        let center = bounds.center();
        let mut state = PieMenuState::new(center, bounds.w / 2, icon_count);
        state.hover(pointer, angle);
        state
    }

    /// Makes the sector under `pointer` the active one, `angle` being the
    /// host's estimate of the pointer's angle as seen from the centre.
    pub fn hover(&mut self, pointer: Point, angle: u32)
        ensures
            *final(self) == (PieMenuState {
                active_sector: Some(
                    sector_of(
                        held_angle(
                            pointer.x - old(self).center.x,
                            pointer.y - old(self).center.y,
                            angle as int,
                        ),
                        old(self).sector_count as int,
                    ) as usize,
                ),
                ..*old(self)
            }),
            final(self).active_sector matches Some(s) && s < sector_count(
                old(self).sector_count as int,
            ),
    {
        self.active_sector = Some(active_sector(pointer, self.center, angle, self.sector_count));
    }

    /// The region of the popup.
    pub fn popup_region(&self) -> (region: Rect)
        requires
            self.wf(),
        ensures
            region == self.region(),
    {
        square(self.center, self.outer_radius)
    }

    /// Reports what the state of the invoking button means.
    pub fn resolve(&self, pointer: Point, button_down: bool) -> (outcome: MenuOutcome)
        requires
            self.wf(),
        ensures
            outcome == self.outcome(pointer, button_down),
    {
        if button_down {
            return MenuOutcome::StillOpen;
        }
        let inside = self.popup_region().contains(pointer);
        match self.active_sector {
            Some(s) => if inside {
                MenuOutcome::Selected(s)
            } else {
                MenuOutcome::Dismissed
            },
            None => MenuOutcome::Dismissed,
        }
    }

    /// Records slice, separator and icon of sector `i` on `canvas`.
    fn paint_sector(&self, canvas: &mut Canvas, icons: &Vec<u32>, directions: &Directions, i: usize)
        requires
            self.wf(),
            self.sector_count == sector_count(icons.len() as int),
            i < icons.len(),
        ensures
            final(canvas)@ == old(canvas)@ + self.sector_commands(
                directions@,
                i as int,
                icons@,
                old(canvas).current_clip(),
            ),
            final(canvas).current_clip() == old(canvas).current_clip(),
    {
        let ghost clip = canvas.current_clip();
        let ghost step = self.sector_commands(directions@, i as int, icons@, clip);
        proof {
            lemma_sector_start_bounds(i as int, icons.len() as int);
            lemma_sector_start_bounds(i + 1, icons.len() as int);
        }
        let radius: u32 = self.outer_radius as u32;
        let a_min: u32 = sector_start_angle(i, icons.len());
        let a_max: u32 = sector_start_angle(i + 1, icons.len());
        let fill = if is_active(self.active_sector, i) {
            color_rgb(45, 100, 255)
        } else {
            color_rgb(60, 60, 60)
        };
        canvas.fill_arc(self.center, radius, a_min, a_max, fill);
        assert(canvas@ == old(canvas)@.push(step[0]));
        let tip = directions.polar(self.center, a_min, radius);
        canvas.stroke_line(self.center, tip, 1, color_rgb(50, 50, 50));
        assert(canvas@ == old(canvas)@.push(step[0]).push(step[1]));
        let bisector: u32 = a_min + (a_max - a_min) / 2;
        let mid = directions.polar(self.center, bisector, 2 * radius / 5);
        let content = Rect {
            x: mid.x - ICON_SIZE / 2,
            y: mid.y - ICON_SIZE / 2,
            w: ICON_SIZE,
            h: ICON_SIZE,
        };
        assert(content == self.icon_box(directions@, i as int));
        canvas.draw_image(content, icons[i], color_rgb(255, 255, 255));
        assert(canvas@ == old(canvas)@.push(step[0]).push(step[1]).push(step[2]));
        assert(old(canvas)@.push(step[0]).push(step[1]).push(step[2]) =~= old(canvas)@ + step);
    }

    /// Records the menu on `canvas`: the outer disc, then slice, separator
    /// and icon of each sector, then the inner disc and in it the icon of the
    /// active sector.
    pub fn paint(&self, canvas: &mut Canvas, icons: &Vec<u32>, directions: &Directions)
        requires
            self.wf(),
            self.sector_count == sector_count(icons.len() as int),
        ensures
            final(canvas)@ == old(canvas)@ + self.commands(
                directions@,
                icons@,
                old(canvas).current_clip(),
            ),
            final(canvas).current_clip() == old(canvas).current_clip(),
    {
        let ghost clip = canvas.current_clip();
        let ghost base = canvas@;
        canvas.fill_circle(self.popup_region(), color_rgb(50, 50, 50));
        let ghost head = base.push(
            DrawCommandView {
                shape: ShapeView::FillCircle { bounds: self.region() },
                color: outer_fill(),
                clip,
            },
        );
        let mut i: usize = 0;
        while i < icons.len()
            invariant
                self.wf(),
                self.sector_count == sector_count(icons.len() as int),
                0 <= i <= icons.len(),
                canvas.current_clip() == clip,
                canvas@ == head + self.sectors_commands(directions@, i as int, icons@, clip),
            decreases icons.len() - i,
        {
            self.paint_sector(canvas, icons, directions, i);
            assert(canvas@ =~= head + self.sectors_commands(directions@, i + 1, icons@, clip));
            i = i + 1;
        }
        canvas.fill_circle(square(self.center, self.outer_radius / 2), color_rgb(45, 45, 45));
        match self.active_sector {
            Some(s) => {
                if s < icons.len() {
                    canvas.draw_image(
                        square(self.center, self.outer_radius / 2 / 2),
                        icons[s],
                        color_rgb(255, 255, 255),
                    );
                }
            },
            None => {},
        }
        assert(canvas@ =~= base + self.commands(directions@, icons@, clip));
    }
}

/// Whether sector `i` is the active one.
fn is_active(active: Option<usize>, i: usize) -> (yes: bool)
    ensures
        yes == (active == Some(i)),
{
    match active {
        Some(s) => s == i,
        None => false,
    }
}

/// The square of side `2 * radius` around `center`.
fn square(center: Point, radius: i32) -> (sq: Rect)
    requires
        center.wf(),
        0 <= radius <= COORD_LIMIT,
    ensures
        sq == square_around(center, radius as int),
        sq.w == 2 * radius,
        sq.x == center.x - radius,
        sq.y == center.y - radius,
{
    Rect { x: center.x - radius, y: center.y - radius, w: 2 * radius, h: 2 * radius }
}

/// Whether the configuration tessellates discs and slices: its segment
/// counts are large enough for an outline and small enough for its mesh to be
/// indexed.
pub open spec fn tessellates(cfg: ConvertConfig) -> bool {
    &&& outline_countable(cfg.circle_segment_count as int, cfg.shape_aa)
    &&& 1 <= cfg.arc_segment_count
    &&& outline_countable(cfg.arc_segment_count + 2, cfg.shape_aa)
}

/// Whether a command is a line without length, which draws nothing.
pub open spec fn is_empty_line(cmd: DrawCommandView) -> bool {
    cmd.shape matches ShapeView::StrokeLine { from, to, thickness } && from == to
}

/// A point at most `radius` away from a valid centre, along each axis, for a
/// radius within the accepted range.
proof fn lemma_polar_point_near(dirs: Seq<Point>, center: Point, angle: int, radius: int)
    requires
        table_ok(dirs),
        center.wf(),
        0 <= radius <= COORD_LIMIT,
    ensures
        center.x - radius <= polar_point(dirs, center, angle, radius).x <= center.x + radius,
        center.y - radius <= polar_point(dirs, center, angle, radius).y <= center.y + radius,
{
    lemma_scaled_bounds(dirs, angle, radius);
}

impl PieMenuState {
    /// The three commands of a sector of a well-formed menu can be drawn,
    /// but for a separator that has no length.
    pub proof fn lemma_sector_commands_drawable(
        self,
        dirs: Seq<Point>,
        i: int,
        icons: Seq<u32>,
        clip: Rect,
        cfg: ConvertConfig,
    )
        requires
            table_ok(dirs),
            self.wf(),
            0 <= i < self.sector_count,
            tessellates(cfg),
        ensures
            self.sector_commands(dirs, i, icons, clip).len() == 3,
            forall|j: int|
                0 <= j < 3 ==> {
                    let cmd = #[trigger] self.sector_commands(dirs, i, icons, clip)[j];
                    cmd.drawable(cfg) || is_empty_line(cmd)
                },
    {
        let n = self.sector_count as int;
        lemma_sector_start_bounds(i, n);
        lemma_sector_start_bounds(i + 1, n);
        lemma_polar_point_near(dirs, self.center, self.sector_min(i), self.outer_radius as int);
        lemma_polar_point_near(dirs, self.center, self.sector_bisector(i), self.icon_distance());
        let step = self.sector_commands(dirs, i, icons, clip);
        assert(step[0].drawable(cfg));
        assert(step[1].drawable(cfg) || is_empty_line(step[1]));
        assert(step[2].drawable(cfg));
    }

    /// The commands of the first `k` sectors of a well-formed menu can be
    /// drawn, but for separators that have no length.
    pub proof fn lemma_sectors_commands_drawable(
        self,
        dirs: Seq<Point>,
        k: int,
        icons: Seq<u32>,
        clip: Rect,
        cfg: ConvertConfig,
    )
        requires
            table_ok(dirs),
            self.wf(),
            0 <= k <= self.sector_count,
            tessellates(cfg),
        ensures
            self.sectors_commands(dirs, k, icons, clip).len() == 3 * k,
            forall|j: int|
                0 <= j < 3 * k ==> {
                    let cmd = #[trigger] self.sectors_commands(dirs, k, icons, clip)[j];
                    cmd.drawable(cfg) || is_empty_line(cmd)
                },
        decreases k,
    {
        if k > 0 {
            self.lemma_sectors_commands_drawable(dirs, k - 1, icons, clip, cfg);
            self.lemma_sector_commands_drawable(dirs, k - 1, icons, clip, cfg);
            let before = self.sectors_commands(dirs, k - 1, icons, clip);
            let step = self.sector_commands(dirs, k - 1, icons, clip);
            let all = self.sectors_commands(dirs, k, icons, clip);
            assert forall|j: int| 0 <= j < 3 * k implies {
                let cmd = #[trigger] all[j];
                cmd.drawable(cfg) || is_empty_line(cmd)
            } by {
                if j < 3 * (k - 1) {
                    assert(all[j] == before[j]);
                } else {
                    assert(all[j] == step[j - 3 * (k - 1)]);
                }
            }
        }
    }

    /// Nothing that a well-formed menu records is lost on the way to the
    /// screen for want of a valid shape: with a configuration that
    /// tessellates, every command of the menu can be drawn, but for
    /// separators that have no length.
    pub proof fn lemma_commands_drawable(
        self,
        dirs: Seq<Point>,
        icons: Seq<u32>,
        clip: Rect,
        cfg: ConvertConfig,
    )
        requires
            table_ok(dirs),
            self.wf(),
            self.sector_count == sector_count(icons.len() as int),
            tessellates(cfg),
        ensures
            forall|j: int|
                0 <= j < self.commands(dirs, icons, clip).len() ==> {
                    let cmd = #[trigger] self.commands(dirs, icons, clip)[j];
                    cmd.drawable(cfg) || is_empty_line(cmd)
                },
    {
        let n = icons.len() as int;
        self.lemma_sectors_commands_drawable(dirs, n, icons, clip, cfg);
        let all = self.commands(dirs, icons, clip);
        let sectors = self.sectors_commands(dirs, n, icons, clip);
        assert forall|j: int| 0 <= j < all.len() implies {
            let cmd = #[trigger] all[j];
            cmd.drawable(cfg) || is_empty_line(cmd)
        } by {
            if j == 0 {
                assert(all[j].drawable(cfg));
            } else if j <= 3 * n {
                assert(all[j] == sectors[j - 1]);
            } else if j == 3 * n + 1 {
                assert(all[j].drawable(cfg));
            } else {
                assert(all[j] == self.preview_commands(icons, clip)[0]);
                assert(all[j].drawable(cfg));
            }
        }
    }
}

/// What one frame of the menu reports, given whether its popup opened.
pub open spec fn menu_outcome(
    popup: PopupState,
    pointer: Point,
    angle: int,
    button_down: bool,
    icon_count: int,
) -> MenuOutcome {
    match popup {
        PopupState::Opened { bounds } if bounds.wf() => PieMenuState::laid_out(
            bounds,
            icon_count,
            pointer,
            angle,
        ).outcome(pointer, button_down),
        _ => MenuOutcome::FailedToOpen,
    }
}

/// What one frame of the menu draws, given whether its popup opened.
pub open spec fn menu_paint(
    popup: PopupState,
    pointer: Point,
    angle: int,
    dirs: Seq<Point>,
    icons: Seq<u32>,
    clip: Rect,
) -> Seq<DrawCommandView> {
    match popup {
        PopupState::Opened { bounds } if bounds.wf() => PieMenuState::laid_out(
            bounds,
            icons.len() as int,
            pointer,
            angle,
        ).commands(dirs, icons, clip),
        _ => Seq::empty(),
    }
}

/// The rectangle to ask the popup for, relative to the content origin of the
/// window that the menu was invoked in: the square of side `2 * radius`
/// centred on `pos`. There is none where the radius is negative or a corner
/// of the square leaves the accepted range of coordinates.
pub open spec fn popup_request(pos: Point, radius: int, origin: Point) -> Option<Rect> {
    let x = pos.x - origin.x - radius;
    let y = pos.y - radius - origin.y;
    if 0 <= radius && -COORD_LIMIT <= x && x + 2 * radius <= COORD_LIMIT && -COORD_LIMIT <= y && y
        + 2 * radius <= COORD_LIMIT {
        Some(Rect { x: x as i32, y: y as i32, w: (2 * radius) as i32, h: (2 * radius) as i32 })
    } else {
        None
    }
}

/// Starts a frame of the menu invoked at `pos`: replaces the ambient window
/// style by the menu's own and says which rectangle to open the popup with.
/// The returned scope holds the style as it was; `ui_piemenu` puts it back.
pub fn piemenu_begin<B>(style: &mut WindowStyle<B>, pos: Point, radius: i32, origin: Point) -> (request:
    (StyleScope<B>, Option<Rect>))
    ensures
        request.0.saved() == *old(style),
        *final(style) == menu_style::<B>(),
        request.1 == popup_request(pos, radius as int, origin),
        request.1 matches Some(r) ==> r.wf(),
{
    let scope = StyleScope::enter(style);
    let x: i64 = pos.x as i64 - origin.x as i64 - radius as i64;
    let y: i64 = pos.y as i64 - radius as i64 - origin.y as i64;
    let limit: i64 = COORD_LIMIT as i64;
    let side: i64 = 2 * (radius as i64);
    let region = if 0 <= radius && -limit <= x && x + side <= limit && -limit <= y && y + side
        <= limit {
        Some(Rect { x: x as i32, y: y as i32, w: side as i32, h: side as i32 })
    } else {
        None
    };
    (scope, region)
}

/// One frame of the menu. `directions` is the host's table of directions, by
/// which the ends of the separators and the places of the icons are set.
/// `pointer` is where the pointer is, and `angle` is
/// the host's estimate, in whole minutes of arc, of the angle of the pointer
/// as seen from the middle of the popup's square; the sector under the
/// pointer is the one whose half-open range holds that angle, the angle being
/// held to what the pointer's coordinates decide. With the popup open in a
/// valid square the function records the menu on `canvas` and reports
/// `StillOpen` while the invoking button is down, the active sector when the
/// button is up and the pointer inside the menu, and `Dismissed` when it is
/// up and the pointer outside. With the popup not open, or not in a valid
/// square, it draws nothing and reports `FailedToOpen`. In every case it puts
/// the window style back as `scope` found it.
pub fn ui_piemenu<B>(
    scope: StyleScope<B>,
    style: &mut WindowStyle<B>,
    canvas: &mut Canvas,
    popup: PopupState,
    pointer: Point,
    angle: u32,
    button_down: bool,
    icons: &Vec<u32>,
    directions: &Directions,
) -> (outcome: MenuOutcome)
    ensures
        *final(style) == scope.saved(),
        outcome == menu_outcome(popup, pointer, angle as int, button_down, icons.len() as int),
        final(canvas)@ == old(canvas)@ + menu_paint(
            popup,
            pointer,
            angle as int,
            directions@,
            icons@,
            old(canvas).current_clip(),
        ),
        final(canvas).current_clip() == old(canvas).current_clip(),
{
    let outcome = match popup {
        PopupState::Opened { bounds } => {
            if bounds.is_valid() {
                let state = PieMenuState::layout(bounds, icons.len(), pointer, angle);
                state.paint(canvas, icons, directions);
                state.resolve(pointer, button_down)
            } else {
                MenuOutcome::FailedToOpen
            }
        },
        PopupState::Failed => MenuOutcome::FailedToOpen,
    };
    assert(canvas@ =~= old(canvas)@ + menu_paint(
        popup,
        pointer,
        angle as int,
        directions@,
        icons@,
        old(canvas).current_clip(),
    ));
    scope.leave(style);
    outcome
}

} // verus!
