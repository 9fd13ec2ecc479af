//! Where a module is drawn: the display it is placed on, its anchors and offsets.

use vstd::prelude::*;

use crate::scene::{last_index_with_id, SceneData};

verus! {

/// `v` is in the range of `i32`.
pub open spec fn fits_i32(v: int) -> bool {
    i32::MIN <= v <= i32::MAX
}

/// Division of `v` by two, rounding toward zero as Rust's integer division does.
pub open spec fn half(v: int) -> int {
    if v >= 0 {
        v / 2
    } else {
        -((-v) / 2)
    }
}

/// Horizontal alignment of a module within its area.
#[derive(Clone, Copy, Debug, PartialEq, Eq, Structural)]
pub enum HorizontalPositionAnchor {
    Left,
    Center,
    Right,
}

/// Where the left edge of something `value` wide starts in an area `available` wide.
pub open spec fn horizontal_start(
    anchor: HorizontalPositionAnchor,
    available: int,
    value: int,
) -> int {
    match anchor {
        HorizontalPositionAnchor::Left => 0,
        HorizontalPositionAnchor::Center => half(available) - half(value),
        HorizontalPositionAnchor::Right => available - value,
    }
}

impl HorizontalPositionAnchor {
    /// The offset at which something `value` wide starts in an area `available` wide.
    pub fn compute(&self, available: i32, value: i32) -> (start: i32)
        requires
            fits_i32(horizontal_start(*self, available as int, value as int)),
        ensures
            start == horizontal_start(*self, available as int, value as int),
    {
        match self {
            Self::Left => 0,
            Self::Center => (available / 2) - (value / 2),
            Self::Right => available - value,
        }
    }
}

impl Default for HorizontalPositionAnchor {
    fn default() -> (anchor: Self)
        ensures
            anchor == HorizontalPositionAnchor::Center,
    {
        Self::Center
    }
}

/// Vertical alignment of a module within its area.
#[derive(Clone, Copy, Debug, PartialEq, Eq, Structural)]
pub enum VerticalPositionAnchor {
    Top,
    Center,
    Bottom,
}

/// Where the top edge of something `value` high starts in an area `available` high.
pub open spec fn vertical_start(anchor: VerticalPositionAnchor, available: int, value: int) -> int {
    match anchor {
        VerticalPositionAnchor::Top => 0,
        VerticalPositionAnchor::Center => half(available) - half(value),
        VerticalPositionAnchor::Bottom => available - value,
    }
}

/// Where the baseline of text `value` high lies in an area `available` high.
pub open spec fn vertical_baseline(
    anchor: VerticalPositionAnchor,
    available: int,
    value: int,
) -> int {
    match anchor {
        VerticalPositionAnchor::Top => value,
        VerticalPositionAnchor::Center => half(available) + half(value),
        VerticalPositionAnchor::Bottom => available,
    }
}

impl VerticalPositionAnchor {
    /// The offset at which something `value` high starts in an area `available` high.
    pub fn compute(&self, available: i32, value: i32) -> (start: i32)
        requires
            fits_i32(vertical_start(*self, available as int, value as int)),
        ensures
            start == vertical_start(*self, available as int, value as int),
    {
        match self {
            Self::Top => 0,
            Self::Center => (available / 2) - (value / 2),
            Self::Bottom => available - value,
        }
    }

    /// The offset of the baseline of text `value` high in an area `available` high.
    pub fn compute_baselined(&self, available: i32, value: i32) -> (baseline: i32)
        ensures
            baseline == vertical_baseline(*self, available as int, value as int),
    {
        match self {
            Self::Top => value,
            Self::Center => (available / 2) + (value / 2),
            Self::Bottom => available,
        }
    }
}

impl Default for VerticalPositionAnchor {
    fn default() -> (anchor: Self)
        ensures
            anchor == VerticalPositionAnchor::Center,
    {
        Self::Center
    }
}

/// The baseline lies `value` below the top edge, except for centered text of odd
/// height, where integer halving puts it one pixel higher.
pub proof fn lemma_baseline_below_top(anchor: VerticalPositionAnchor, available: int, value: int)
    ensures
        anchor != VerticalPositionAnchor::Center || value % 2 == 0 ==> vertical_baseline(
            anchor,
            available,
            value,
        ) == vertical_start(anchor, available, value) + value,
        anchor == VerticalPositionAnchor::Center && value % 2 == 1 ==> vertical_baseline(
            anchor,
            available,
            value,
        ) == vertical_start(anchor, available, value) + value - (if value > 0 {
            1int
        } else {
            -1int
        }),
{
}

/// Which display a module is placed on.
#[derive(Clone, Debug, PartialEq, Eq)]
pub enum DisplaySelection {
    /// No particular display: the whole drawing surface.
    NoDisplay,
    /// The primary display.
    Primary,
    /// The display with the given id.
    Identified { id: String, name: String },
}

/// The area a selection covers in `data`: its width, height and top left corner,
/// or `None` when the selected display is not present.
pub open spec fn selection_area(selection: DisplaySelection, data: SceneData) -> Option<
    (i32, i32, i32, i32),
> {
    match selection {
        DisplaySelection::NoDisplay => Some((data.surface_width(), data.surface_height(), 0i32, 0i32)),
        DisplaySelection::Primary => {
            let p = data.layout().primary_view();
            Some((p.width, p.height, p.x, p.y))
        },
        DisplaySelection::Identified { id, name } => {
            let list = data.layout().display_list();
            let index = last_index_with_id(list, id@);
            if index >= 0 {
                let d = list[index];
                Some((d.width, d.height, d.x, d.y))
            } else {
                None
            }
        },
    }
}

impl DisplaySelection {
    /// Runs `calc` with the width and height of the selected area and moves the
    /// point it returns from area coordinates into surface coordinates.
    pub fn perform_calculation_with<F>(&self, data: &SceneData, calc: F) -> (point: Option<
        (i32, i32),
    >) where F: FnOnce(i32, i32) -> (i32, i32)
        requires
            selection_area(*self, *data) matches Some((w, h, sx, sy)) ==> {
                &&& calc.requires((w, h))
                &&& forall|p: (i32, i32)|
                    calc.ensures((w, h), p) ==> fits_i32(sx + p.0) && fits_i32(sy + p.1)
            },
        ensures
            match selection_area(*self, *data) {
                Some((w, h, sx, sy)) => exists|p: (i32, i32)|
                    calc.ensures((w, h), p) && point == Some(((sx + p.0) as i32, (sy + p.1) as i32)),
                None => point is None,
            },
    {
        let (width, height, start_x, start_y) = match self {
            DisplaySelection::NoDisplay => (data.width(), data.height(), 0, 0),
            DisplaySelection::Primary => {
                let display = data.primary_display();
                (display.width(), display.height(), display.x(), display.y())
            },
            DisplaySelection::Identified { id, .. } => match data.lookup_display(id) {
                None => return None,
                Some(d) => (d.width(), d.height(), d.x(), d.y()),
            },
        };
        let (x, y) = calc(width, height);
        Some((start_x + x, start_y + y))
    }
}

impl Default for DisplaySelection {
    fn default() -> (selection: Self)
        ensures
            selection == DisplaySelection::Primary,
    {
        DisplaySelection::Primary
    }
}

/// What a [`ModulePosition`] holds.
pub ghost struct ModulePositionView {
    pub horizontal: HorizontalPositionAnchor,
    pub vertical: VerticalPositionAnchor,
    pub display: DisplaySelection,
    pub x_offset: i32,
    pub y_offset: i32,
}

/// The placement of a module: anchors within a display, plus a pixel offset.
#[derive(Clone, Debug, PartialEq, Eq)]
pub struct ModulePosition {
    horizontal: HorizontalPositionAnchor,
    vertical: VerticalPositionAnchor,
    display: DisplaySelection,
    x_offset: i32,
    y_offset: i32,
}

impl View for ModulePosition {
    type V = ModulePositionView;

    closed spec fn view(&self) -> ModulePositionView {
        ModulePositionView {
            horizontal: self.horizontal,
            vertical: self.vertical,
            display: self.display,
            x_offset: self.x_offset,
            y_offset: self.y_offset,
        }
    }
}

/// The top left corner (or, with `baselined`, the left end of the text baseline)
/// of something `width` by `height` placed at `position`, before the checks for
/// overflow; `None` when the selected display is not present.
pub open spec fn placed_at(
    position: ModulePositionView,
    data: SceneData,
    width: int,
    height: int,
    baselined: bool,
) -> Option<(int, int)> {
    match selection_area(position.display, data) {
        Some((w, h, sx, sy)) => {
            let x = horizontal_start(position.horizontal, w as int, width) + position.x_offset;
            let y = if baselined {
                vertical_baseline(position.vertical, h as int, height)
            } else {
                vertical_start(position.vertical, h as int, height)
            } + position.y_offset;
            Some((sx + x, sy + y))
        },
        None => None,
    }
}

/// No step of the placement computation leaves the range of `i32`.
pub open spec fn placement_fits(
    position: ModulePositionView,
    data: SceneData,
    width: int,
    height: int,
    baselined: bool,
) -> bool {
    match selection_area(position.display, data) {
        Some((w, h, sx, sy)) => {
            let x = horizontal_start(position.horizontal, w as int, width);
            let y = if baselined {
                vertical_baseline(position.vertical, h as int, height)
            } else {
                vertical_start(position.vertical, h as int, height)
            };
            &&& fits_i32(x)
            &&& fits_i32(y)
            &&& fits_i32(x + position.x_offset)
            &&& fits_i32(y + position.y_offset)
            &&& fits_i32(sx + x + position.x_offset)
            &&& fits_i32(sy + y + position.y_offset)
        },
        None => true,
    }
}

impl ModulePosition {
    /// Creates a placement.
    pub fn new(
        horizontal: HorizontalPositionAnchor,
        vertical: VerticalPositionAnchor,
        display: DisplaySelection,
        x_offset: i32,
        y_offset: i32,
    ) -> (position: Self)
        ensures
            position@ == (ModulePositionView { horizontal, vertical, display, x_offset, y_offset }),
    {
        Self { horizontal, vertical, display, x_offset, y_offset }
    }

    /// The horizontal anchor.
    pub fn horizontal(&self) -> (anchor: HorizontalPositionAnchor)
        ensures
            anchor == self@.horizontal,
    {
        self.horizontal
    }

    /// The vertical anchor.
    pub fn vertical(&self) -> (anchor: VerticalPositionAnchor)
        ensures
            anchor == self@.vertical,
    {
        self.vertical
    }

    /// The display selection.
    pub fn display(&self) -> (selection: &DisplaySelection)
        ensures
            *selection == self@.display,
    {
        &self.display
    }

    /// The horizontal offset in pixels.
    pub fn x_offset(&self) -> (offset: i32)
        ensures
            offset == self@.x_offset,
    {
        self.x_offset
    }

    /// The vertical offset in pixels.
    pub fn y_offset(&self) -> (offset: i32)
        ensures
            offset == self@.y_offset,
    {
        self.y_offset
    }

    /// The top left corner of something `width` by `height` placed here.
    pub fn compute_position(&self, data: &SceneData, width: i32, height: i32) -> (point: Option<
        (i32, i32),
    >)
        requires
            placement_fits(self@, *data, width as int, height as int, false),
        ensures
            match placed_at(self@, *data, width as int, height as int, false) {
                Some((x, y)) => point == Some((x as i32, y as i32)),
                None => point is None,
            },
    {
        let horizontal = self.horizontal;
        let vertical = self.vertical;
        let x_offset = self.x_offset;
        let y_offset = self.y_offset;
        self.display.perform_calculation_with(
            data,
            (|available_width: i32, available_height: i32| -> (p: (i32, i32))
                requires
                    fits_i32(horizontal_start(horizontal, available_width as int, width as int)),
                    fits_i32(vertical_start(vertical, available_height as int, height as int)),
                    fits_i32(
                        horizontal_start(horizontal, available_width as int, width as int)
                            + x_offset,
                    ),
                    fits_i32(
                        vertical_start(vertical, available_height as int, height as int)
                            + y_offset,
                    ),
                ensures
                    p.0 == horizontal_start(horizontal, available_width as int, width as int)
                        + x_offset,
                    p.1 == vertical_start(vertical, available_height as int, height as int)
                        + y_offset,
                {
                    (
                        horizontal.compute(available_width, width) + x_offset,
                        vertical.compute(available_height, height) + y_offset,
                    )
                }),
        )
    }

    /// The left end of the baseline of text `width` by `height` placed here.
    pub fn compute_position_baselined(
        &self,
        data: &SceneData,
        width: i32,
        height: i32,
    ) -> (point: Option<(i32, i32)>)
        requires
            placement_fits(self@, *data, width as int, height as int, true),
        ensures
            match placed_at(self@, *data, width as int, height as int, true) {
                Some((x, y)) => point == Some((x as i32, y as i32)),
                None => point is None,
            },
    {
        let horizontal = self.horizontal;
        let vertical = self.vertical;
        let x_offset = self.x_offset;
        let y_offset = self.y_offset;
        self.display.perform_calculation_with(
            data,
            (|available_width: i32, available_height: i32| -> (p: (i32, i32))
                requires
                    fits_i32(horizontal_start(horizontal, available_width as int, width as int)),
                    fits_i32(
                        horizontal_start(horizontal, available_width as int, width as int)
                            + x_offset,
                    ),
                    fits_i32(
                        vertical_baseline(vertical, available_height as int, height as int)
                            + y_offset,
                    ),
                ensures
                    p.0 == horizontal_start(horizontal, available_width as int, width as int)
                        + x_offset,
                    p.1 == vertical_baseline(vertical, available_height as int, height as int)
                        + y_offset,
                {
                    (
                        horizontal.compute(available_width, width) + x_offset,
                        vertical.compute_baselined(available_height, height) + y_offset,
                    )
                }),
        )
    }
}

impl Default for ModulePosition {
    fn default() -> (position: Self)
        ensures
            position@ == (ModulePositionView {
                horizontal: HorizontalPositionAnchor::Center,
                vertical: VerticalPositionAnchor::Center,
                display: DisplaySelection::Primary,
                x_offset: 0,
                y_offset: 0,
            }),
    {
        Self {
            horizontal: HorizontalPositionAnchor::Center,
            vertical: VerticalPositionAnchor::Center,
            display: DisplaySelection::Primary,
            x_offset: 0,
            y_offset: 0,
        }
    }
}

} // verus!
