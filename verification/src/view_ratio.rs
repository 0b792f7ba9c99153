use vstd::prelude::*;

verus! {

/// The shares of the screen width that the parent, the main and the child
/// pane get.
#[derive(Debug, Clone, Copy, PartialEq, Eq, Structural, Hash)]
pub struct ViewRatio {
    pub parent: usize,
    pub main: usize,
    pub child: usize,
}

/// Where the three panes stand on a line: the column each starts at, and its
/// width.
#[derive(Debug, Clone, Copy, PartialEq, Eq, Structural, Hash)]
pub struct Columns {
    pub parent_offset: usize,
    pub parent_width: usize,
    pub main_offset: usize,
    pub main_width: usize,
    pub child_offset: usize,
    pub child_width: usize,
}

/// `share` units of `unit` cells each, but no more than `room`.
pub open spec fn share_width(unit: int, share: int, room: int) -> int {
    if unit * share > room {
        room
    } else {
        unit * share
    }
}

impl ViewRatio {
    /// The sum of the three shares, stopping at the largest number the
    /// machine holds.
    pub open spec fn spec_sum(self) -> int {
        if self.parent + self.main + self.child > usize::MAX {
            usize::MAX as int
        } else {
            self.parent + self.main + self.child
        }
    }

    /// How many cells one share is worth on a line `width` cells wide.
    pub open spec fn unit(self, width: int) -> int {
        if self.spec_sum() == 0 {
            0
        } else {
            width / self.spec_sum()
        }
    }

    /// The panes side by side from the left edge on, each as wide as its
    /// share, and none reaching beyond the line.
    pub open spec fn spec_split(self, width: int) -> Columns {
        let unit = self.unit(width);
        let parent_width = share_width(unit, self.parent as int, width);
        let main_width = share_width(unit, self.main as int, width - parent_width);
        let child_width = share_width(unit, self.child as int, width - parent_width - main_width);
        Columns {
            parent_offset: 0,
            parent_width: parent_width as usize,
            main_offset: parent_width as usize,
            main_width: main_width as usize,
            child_offset: (parent_width + main_width) as usize,
            child_width: child_width as usize,
        }
    }

    pub fn new(parent: usize, main: usize, child: usize) -> (ratio: ViewRatio)
        ensures
            ratio.parent == parent,
            ratio.main == main,
            ratio.child == child,
    {
        ViewRatio { parent, main, child }
    }

    pub fn sum(&self) -> (sum: usize)
        ensures
            sum == self.spec_sum(),
    {
        self.parent.saturating_add(self.main).saturating_add(self.child)
    }

    /// `share` units, cut off at `room`.
    fn share(unit: usize, share: usize, room: usize) -> (width: usize)
        ensures
            width == share_width(unit as int, share as int, room as int),
            width <= room,
    {
        if unit == 0 {
            assert(unit * share == 0) by (nonlinear_arith)
                requires
                    unit == 0,
            ;
            0
        } else if share > room / unit {
            assert(unit * share > room) by (nonlinear_arith)
                requires
                    unit > 0,
                    share > room / unit,
            ;
            room
        } else {
            assert(unit * share <= room) by (nonlinear_arith)
                requires
                    unit > 0,
                    share <= room / unit,
            ;
            unit * share
        }
    }

    /// Divides a line `width` cells wide among the three panes.
    pub fn split(&self, width: usize) -> (columns: Columns)
        ensures
            columns == self.spec_split(width as int),
            columns.parent_offset + columns.parent_width <= columns.main_offset,
            columns.main_offset + columns.main_width <= columns.child_offset,
            columns.child_offset + columns.child_width <= width,
    {
        let sum = self.sum();
        let unit = if sum == 0 {
            0
        } else {
            width / sum
        };
        let parent_width = Self::share(unit, self.parent, width);
        let main_width = Self::share(unit, self.main, width - parent_width);
        let child_width = Self::share(unit, self.child, width - parent_width - main_width);
        Columns {
            parent_offset: 0,
            parent_width,
            main_offset: parent_width,
            main_width,
            child_offset: parent_width + main_width,
            child_width,
        }
    }
}

impl Default for ViewRatio {
    /// A quarter, a half and a quarter.
    fn default() -> (ratio: ViewRatio)
        ensures
            ratio == (ViewRatio { parent: 1, main: 2, child: 1 }),
    {
        ViewRatio::new(1, 2, 1)
    }
}

} // verus!
