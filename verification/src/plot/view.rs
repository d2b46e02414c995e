use vstd::prelude::*;

verus! {

/// The box shown by an orthographic projection, in pixels of the client
/// area; depth always runs from -1 to 1.
#[derive(Clone, Copy, Debug, PartialEq, Eq, Structural)]
pub struct ViewBounds {
    pub left: u32,
    pub right: u32,
    pub bottom: u32,
    pub top: u32,
}

/// The view of a client area of `client_size` pixels: from the lower left
/// corner to the upper right one, or with bottom and top swapped when
/// `flip_vertically` is set.
pub open spec fn view_bounds_of(client_size: (u32, u32), flip_vertically: bool) -> ViewBounds {
    if flip_vertically {
        ViewBounds { left: 0, right: client_size.0, bottom: client_size.1, top: 0 }
    } else {
        ViewBounds { left: 0, right: client_size.0, bottom: 0, top: client_size.1 }
    }
}

/// The view state of a plot: the size of its client area and whether it
/// is drawn upside down.
#[derive(Clone, Copy, Debug)]
pub struct PlotView {
    pub client_size: (u32, u32),
    pub flip_vertically: bool,
}

impl PlotView {
    /// A view of an empty client area, not flipped.
    pub fn new() -> (v: Self)
        ensures
            v == (PlotView { client_size: (0, 0), flip_vertically: false }),
    {
        PlotView { client_size: (0, 0), flip_vertically: false }
    }

    /// Sets the client area and gives the view to project it with.
    pub fn set_view(&mut self, client_size: (u32, u32)) -> (bounds: ViewBounds)
        ensures
            final(self).client_size == client_size,
            final(self).flip_vertically == old(self).flip_vertically,
            bounds == view_bounds_of(client_size, old(self).flip_vertically),
    {
        self.client_size = client_size;
        if self.flip_vertically {
            ViewBounds { left: 0, right: self.client_size.0, bottom: self.client_size.1, top: 0 }
        } else {
            ViewBounds { left: 0, right: client_size.0, bottom: 0, top: client_size.1 }
        }
    }

    /// Sets whether the plot is drawn upside down and gives the view to
    /// project the unchanged client area with.
    pub fn flip_vertically(&mut self, flip: bool) -> (bounds: ViewBounds)
        ensures
            final(self).client_size == old(self).client_size,
            final(self).flip_vertically == flip,
            bounds == view_bounds_of(old(self).client_size, flip),
    {
        self.flip_vertically = flip;
        let client_size = self.client_size;
        self.set_view(client_size)
    }
}

/// Flipping swaps the bottom and the top of the view and keeps its sides.
pub proof fn law_flip_swaps_bottom_and_top(client_size: (u32, u32))
    ensures
        view_bounds_of(client_size, true).bottom == view_bounds_of(client_size, false).top,
        view_bounds_of(client_size, true).top == view_bounds_of(client_size, false).bottom,
        view_bounds_of(client_size, true).left == view_bounds_of(client_size, false).left,
        view_bounds_of(client_size, true).right == view_bounds_of(client_size, false).right,
{
}

/// The view spans the whole client area: from 0 to its width across, and
/// from 0 up to its height, or from its height down to 0 when flipped.
pub proof fn law_view_spans_client_area(client_size: (u32, u32), flip_vertically: bool)
    ensures
        view_bounds_of(client_size, flip_vertically).left == 0,
        view_bounds_of(client_size, flip_vertically).right == client_size.0,
        !flip_vertically ==> view_bounds_of(client_size, flip_vertically).bottom == 0
            && view_bounds_of(client_size, flip_vertically).top == client_size.1,
        flip_vertically ==> view_bounds_of(client_size, flip_vertically).bottom == client_size.1
            && view_bounds_of(client_size, flip_vertically).top == 0,
{
}

} // verus!
