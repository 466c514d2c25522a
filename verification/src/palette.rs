//! The palette: its colours, its placement on screen, and the colour under
//! the pointer.

use vstd::prelude::*;
use crate::color::Rgba8;
use crate::gradient::{blend_color, gradient_colors, lemma_gradient_endpoints};
use crate::layout::{find_slot, lemma_negative_offset_misses, lemma_slot_in_range, slot_at};
use crate::session::SessionCoords;
use crate::store::{ColorStore, CAPACITY};

verus! {

/// Why the palette turned a request down.
#[derive(Clone, Copy, Debug, PartialEq, Eq, Structural)]
pub enum PaletteError {
    /// The colours asked for do not fit in what is left of the 256 slots.
    Full,
    /// A gradient needs its two end colours: at least two steps.
    TooFewSteps,
    /// The cells have no size, so no point lies in one.
    ZeroCellSize,
    /// The columns have no rows, so no colour is displayed.
    ZeroHeight,
}

/// The colours available to the editor, shown as a grid of square cells.
pub struct Palette {
    /// The colours, in the order in which they were added.
    pub colors: ColorStore,
    /// The colour under the pointer, as of the last pointer movement.
    pub hover: Option<Rgba8>,
    /// The edge of one cell.
    pub cellsize: i32,
    /// The number of cells in a column before the display starts another.
    pub height: usize,
    /// The left edge of the display.
    pub x: i32,
    /// The top edge of the display.
    pub y: i32,
}

/// What a palette is, to its contracts.
pub struct PaletteView {
    pub colors: Seq<Rgba8>,
    pub hover: Option<Rgba8>,
    pub cellsize: i32,
    pub height: usize,
    pub x: i32,
    pub y: i32,
}

impl PaletteView {
    /// The palette after `color` was offered to it: appended, unless the
    /// palette holds it already or has no slot left.
    pub open spec fn added(self, color: Rgba8) -> PaletteView {
        if self.colors.contains(color) || self.colors.len() >= CAPACITY {
            self
        } else {
            PaletteView { colors: self.colors.push(color), ..self }
        }
    }

    /// The palette with a gradient of `number` colours appended.
    pub open spec fn extended(self, start: Rgba8, end: Rgba8, number: int) -> PaletteView {
        PaletteView { colors: self.colors + gradient_colors(start, end, number), ..self }
    }

    /// Whether a gradient of `number` colours is taken: it is not with
    /// fewer than two colours, nor with more than there are slots left.
    pub open spec fn gradient_outcome(self, number: usize) -> Result<(), PaletteError> {
        if number < 2 {
            Err(PaletteError::TooFewSteps)
        } else if self.colors.len() + number > CAPACITY {
            Err(PaletteError::Full)
        } else {
            Ok(())
        }
    }

    /// The palette without its colours.
    pub open spec fn cleared(self) -> PaletteView {
        PaletteView { colors: Seq::empty(), ..self }
    }

    /// Whether the display has cells at all.
    pub open spec fn displayable(self) -> bool {
        self.cellsize != 0 && self.height != 0
    }

    /// The colour displayed at `point`, if any.
    pub open spec fn color_at(self, point: SessionCoords) -> Option<Rgba8> {
        if self.displayable() {
            match slot_at(
                self.colors.len() as int,
                self.height as int,
                self.cellsize as int,
                point.x - self.x,
                point.y - self.y,
            ) {
                Some(slot) => Some(self.colors[slot]),
                None => None,
            }
        } else {
            None
        }
    }

    /// The palette after the pointer moved to `point`.
    pub open spec fn pointed(self, point: SessionCoords) -> PaletteView {
        PaletteView { hover: self.color_at(point), ..self }
    }
}

impl View for Palette {
    type V = PaletteView;

    open spec fn view(&self) -> PaletteView {
        PaletteView {
            colors: self.colors@,
            hover: self.hover,
            cellsize: self.cellsize,
            height: self.height,
            x: self.x,
            y: self.y,
        }
    }
}

impl Palette {
    /// An empty palette at the origin, with cells of edge `cellsize` in
    /// columns of `height` cells.
    pub fn new(cellsize: i32, height: usize) -> (palette: Palette)
        ensures
            palette@ == (PaletteView {
                colors: Seq::empty(),
                hover: None,
                cellsize,
                height,
                x: 0,
                y: 0,
            }),
    {
        Palette { colors: ColorStore::new(), hover: None, cellsize, height, x: 0, y: 0 }
    }

    /// The number of colours.
    pub fn size(&self) -> (n: usize)
        ensures
            n == self@.colors.len(),
            n <= CAPACITY,
    {
        self.colors.len()
    }

    /// The colours, in the order in which they were added.
    pub fn colors(&self) -> (list: Vec<Rgba8>)
        ensures
            list@ == self@.colors,
    {
        let n: usize = self.colors.len();
        let mut list: Vec<Rgba8> = Vec::new();
        let mut i: usize = 0;
        while i < n
            invariant
                n == self.colors@.len(),
                i <= n,
                list@ == self.colors@.subrange(0, i as int),
            decreases n - i,
        {
            list.push(self.colors.get(i));
            proof {
                assert(list@ =~= self.colors@.subrange(0, i + 1));
            }
            i += 1;
        }
        proof {
            assert(self.colors@.subrange(0, n as int) =~= self.colors@);
        }
        list
    }

    /// Removes every colour. The placement stays, and so does `hover`, which
    /// may then name a colour that the palette no longer holds.
    pub fn clear(&mut self)
        ensures
            final(self)@ == old(self)@.cleared(),
    {
        self.colors.clear();
    }

    /// Whether the palette holds `color`.
    pub fn contains(&self, color: Rgba8) -> (found: bool)
        ensures
            found == self@.colors.contains(color),
    {
        let n: usize = self.colors.len();
        let mut i: usize = 0;
        while i < n
            invariant
                n == self.colors@.len(),
                i <= n,
                forall|k: int| 0 <= k < i ==> self.colors@[k] != color,
            decreases n - i,
        {
            if self.colors.get(i) == color {
                return true;
            }
            i += 1;
        }
        false
    }

    /// Appends `color`, unless the palette holds it already. A colour that
    /// is new to a palette of 256 colours is turned down.
    pub fn add(&mut self, color: Rgba8) -> (outcome: Result<(), PaletteError>)
        ensures
            final(self)@ == old(self)@.added(color),
            final(self)@.colors.len() <= CAPACITY,
            outcome is Err <==> !old(self)@.colors.contains(color) && old(self)@.colors.len()
                >= CAPACITY,
            outcome is Err ==> outcome == Err::<(), PaletteError>(PaletteError::Full),
    {
        let held: usize = self.colors.len();
        if self.contains(color) {
            return Ok(());
        }
        if held >= CAPACITY {
            return Err(PaletteError::Full);
        }
        self.colors.push(color);
        Ok(())
    }

    /// Appends `number` colours that run from `start` to `end` in equal
    /// steps, whether or not the palette holds some of them already. Fewer
    /// than two steps, or more than there are slots left, are turned down
    /// and leave the palette as it was.
    pub fn gradient(&mut self, start: Rgba8, end: Rgba8, number: usize) -> (outcome: Result<
        (),
        PaletteError,
    >)
        ensures
            outcome == old(self)@.gradient_outcome(number),
            final(self)@ == if outcome is Ok {
                old(self)@.extended(start, end, number as int)
            } else {
                old(self)@
            },
            final(self)@.colors.len() <= CAPACITY,
            outcome is Ok ==> final(self)@.colors[old(self)@.colors.len() as int] == start,
            outcome is Ok ==> final(self)@.colors.last() == end,
    {
        let held: usize = self.colors.len();
        if number < 2 {
            return Err(PaletteError::TooFewSteps);
        }
        if number > CAPACITY - held {
            return Err(PaletteError::Full);
        }
        let last: usize = number - 1;
        let ghost before = self@;
        let ghost run = gradient_colors(start, end, number as int);
        let mut i: usize = 0;
        while i < number
            invariant
                i <= number,
                last == number - 1,
                0 < last <= 255,
                before.colors.len() + number <= CAPACITY,
                run == gradient_colors(start, end, number as int),
                self@ == (PaletteView { colors: before.colors + run.subrange(0, i as int), ..before }),
            decreases number - i,
        {
            let color = blend_color(start, end, i, last);
            self.colors.push(color);
            proof {
                assert(run.subrange(0, i as int).push(color) =~= run.subrange(0, i + 1));
                assert((before.colors + run.subrange(0, i as int)).push(color) =~= before.colors
                    + run.subrange(0, i + 1));
            }
            i += 1;
        }
        proof {
            assert(run.subrange(0, number as int) =~= run);
            lemma_gradient_endpoints(start, end, number as int);
        }
        Ok(())
    }

    /// Recomputes `hover` for a pointer at `point`: the colour of the cell
    /// under it, or none. A palette whose cells have no size, or whose
    /// columns have no rows, displays nothing: `hover` is emptied and the
    /// fault is reported, the cell size first.
    pub fn handle_cursor_moved(&mut self, point: SessionCoords) -> (outcome: Result<
        (),
        PaletteError,
    >)
        ensures
            final(self)@ == old(self)@.pointed(point),
            final(self)@.hover matches Some(color) ==> final(self)@.colors.contains(color),
            point.x < old(self)@.x || point.y < old(self)@.y ==> final(self)@.hover is None,
            outcome == if old(self)@.cellsize == 0 {
                Err::<(), PaletteError>(PaletteError::ZeroCellSize)
            } else if old(self)@.height == 0 {
                Err::<(), PaletteError>(PaletteError::ZeroHeight)
            } else {
                Ok::<(), PaletteError>(())
            },
    {
        if self.cellsize == 0 {
            self.hover = None;
            return Err(PaletteError::ZeroCellSize);
        }
        if self.height == 0 {
            self.hover = None;
            return Err(PaletteError::ZeroHeight);
        }
        let size: usize = self.colors.len();
        let x: i64 = point.x as i64 - self.x as i64;
        let y: i64 = point.y as i64 - self.y as i64;
        proof {
            lemma_slot_in_range(
                size as int,
                self.height as int,
                self.cellsize as int,
                x as int,
                y as int,
            );
        }
        self.hover = match find_slot(size, self.height, self.cellsize, x, y) {
            Some(slot) => Some(self.colors.get(slot)),
            None => None,
        };
        Ok(())
    }
}

/// Offering a colour twice leaves the palette as offering it once does.
pub proof fn lemma_add_twice(palette: PaletteView, color: Rgba8)
    ensures
        palette.added(color).added(color) == palette.added(color),
{
    if !palette.colors.contains(color) && palette.colors.len() < CAPACITY {
        let grown = palette.colors.push(color);
        assert(grown[palette.colors.len() as int] == color);
        assert(grown.contains(color));
    }
}

/// Offering a colour to a palette in which no colour occurs twice leaves
/// one in which none does.
pub proof fn lemma_add_keeps_distinct(palette: PaletteView, color: Rgba8)
    requires
        palette.colors.no_duplicates(),
    ensures
        palette.added(color).colors.no_duplicates(),
{
    if !palette.colors.contains(color) && palette.colors.len() < CAPACITY {
        let grown = palette.colors.push(color);
        assert forall|i: int, j: int| 0 <= i < grown.len() && 0 <= j < grown.len() && i != j implies grown[i]
            != grown[j] by {
            if i < palette.colors.len() {
                assert(palette.colors.contains(grown[i]));
            }
            if j < palette.colors.len() {
                assert(palette.colors.contains(grown[j]));
            }
        }
    }
}

/// A cleared palette has no colours; clearing it again, or clearing a
/// palette that had none, changes nothing.
pub proof fn lemma_clear_idempotent(palette: PaletteView)
    ensures
        palette.cleared().colors.len() == 0,
        palette.cleared().cleared() == palette.cleared(),
        palette.colors.len() == 0 ==> palette.cleared() == palette,
{
    if palette.colors.len() == 0 {
        assert(palette.colors =~= Seq::<Rgba8>::empty());
    }
}

/// A pointer left of the display, or above it, is over no colour, whatever
/// the palette holds and however it is laid out.
pub proof fn lemma_pointer_before_corner(palette: PaletteView, point: SessionCoords)
    requires
        point.x < palette.x || point.y < palette.y,
    ensures
        palette.pointed(point).hover is None,
{
    if palette.displayable() {
        lemma_negative_offset_misses(
            palette.colors.len() as int,
            palette.height as int,
            palette.cellsize as int,
            point.x - palette.x,
            point.y - palette.y,
        );
    }
}

/// The colour that a pointer movement leaves in `hover` is one of the
/// palette's colours.
pub proof fn lemma_hover_is_held(palette: PaletteView, point: SessionCoords)
    ensures
        palette.pointed(point).hover matches Some(color) ==> palette.colors.contains(color),
{
    if palette.displayable() {
        lemma_slot_in_range(
            palette.colors.len() as int,
            palette.height as int,
            palette.cellsize as int,
            point.x - palette.x,
            point.y - palette.y,
        );
    }
}

} // verus!
