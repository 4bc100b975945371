use vstd::prelude::*;
use crate::pixel::{lemma_cell_in_grid, Rgba8};

verus! {

/// A `width` by `height` grid of pixels, stored row by row, with the color
/// that `clear` fills it with and the color that `set_pixel` draws.
pub struct Framebuffer {
    pub width: i32,
    pub height: i32,
    color_buffer: Vec<Rgba8>,
    background_color: Rgba8,
    current_color: Rgba8,
}

pub open spec fn white() -> Rgba8 {
    Rgba8::spec_new(255, 255, 255, 255)
}

impl Framebuffer {
    pub closed spec fn spec_width(&self) -> int {
        self.width as int
    }

    pub closed spec fn spec_height(&self) -> int {
        self.height as int
    }

    /// The pixels, row by row.
    pub closed spec fn pixels(&self) -> Seq<Rgba8> {
        self.color_buffer@
    }

    pub closed spec fn background(&self) -> Rgba8 {
        self.background_color
    }

    pub closed spec fn current(&self) -> Rgba8 {
        self.current_color
    }

    /// Non-negative sides, and one stored pixel per cell.
    pub open spec fn wf(&self) -> bool {
        &&& self.spec_width() >= 0
        &&& self.spec_height() >= 0
        &&& self.pixels().len() == self.spec_width() * self.spec_height()
    }

    pub open spec fn in_bounds(&self, x: i32, y: i32) -> bool {
        0 <= x < self.spec_width() && 0 <= y < self.spec_height()
    }

    /// Position of cell `(x, y)` in `pixels()`.
    pub open spec fn index_of(&self, x: i32, y: i32) -> int {
        y * self.spec_width() + x
    }

    /// The number of columns.
    pub fn get_width(&self) -> (r: i32)
        ensures
            r == self.spec_width(),
    {
        self.width
    }

    /// The number of rows.
    pub fn get_height(&self) -> (r: i32)
        ensures
            r == self.spec_height(),
    {
        self.height
    }

    /// A framebuffer of the given size filled with `background_color`,
    /// drawing in white.
    pub fn new(width: i32, height: i32, background_color: Rgba8) -> (fb: Framebuffer)
        requires
            width >= 0,
            height >= 0,
            width as int * height as int <= usize::MAX,
        ensures
            fb.wf(),
            fb.spec_width() == width,
            fb.spec_height() == height,
            fb.background() == background_color,
            fb.current() == white(),
            forall|i: int| 0 <= i < fb.pixels().len() ==> #[trigger] fb.pixels()[i] == background_color,
    {
        let n: usize = (width as usize) * (height as usize);
        let mut color_buffer: Vec<Rgba8> = Vec::new();
        let mut i: usize = 0;
        while i < n
            invariant
                i <= n,
                color_buffer@.len() == i,
                forall|k: int| 0 <= k < i ==> color_buffer@[k] == background_color,
            decreases n - i,
        {
            color_buffer.push(background_color);
            i = i + 1;
        }
        Framebuffer {
            width,
            height,
            color_buffer,
            background_color,
            current_color: Rgba8::new(255, 255, 255, 255),
        }
    }

    /// Fills every pixel with the background color.
    pub fn clear(&mut self)
        requires
            old(self).wf(),
        ensures
            final(self).wf(),
            final(self).spec_width() == old(self).spec_width(),
            final(self).spec_height() == old(self).spec_height(),
            final(self).background() == old(self).background(),
            final(self).current() == old(self).current(),
            final(self).pixels().len() == old(self).pixels().len(),
            forall|i: int| 0 <= i < final(self).pixels().len() ==> #[trigger] final(self).pixels()[i] == old(self).background(),
    {
        let n: usize = self.color_buffer.len();
        let mut i: usize = 0;
        while i < n
            invariant
                i <= n,
                n == self.color_buffer@.len(),
                self.width == old(self).width,
                self.height == old(self).height,
                self.background_color == old(self).background_color,
                self.current_color == old(self).current_color,
                forall|k: int| 0 <= k < i ==> self.color_buffer@[k] == self.background_color,
            decreases n - i,
        {
            let c = self.background_color;
            self.color_buffer.set(i, c);
            i = i + 1;
        }
    }

    /// Draws the current color at `(x, y)`; a cell outside the grid is left
    /// alone.
    pub fn set_pixel(&mut self, x: i32, y: i32)
        requires
            old(self).wf(),
        ensures
            final(self).wf(),
            final(self).spec_width() == old(self).spec_width(),
            final(self).spec_height() == old(self).spec_height(),
            final(self).background() == old(self).background(),
            final(self).current() == old(self).current(),
            final(self).pixels() == if old(self).in_bounds(x, y) {
                old(self).pixels().update(old(self).index_of(x, y), old(self).current())
            } else {
                old(self).pixels()
            },
    {
        let len: usize = self.color_buffer.len();
        if x >= 0 && x < self.width && y >= 0 && y < self.height {
            proof {
                lemma_cell_in_grid(x as int, y as int, self.width as int, self.height as int);
            }
            assert((y as int) * (self.width as int) + (x as int) < len);
            let idx: usize = (y as usize) * (self.width as usize) + (x as usize);
            let c = self.current_color;
            self.color_buffer.set(idx, c);
        }
    }

    /// The color at `(x, y)`, or `None` outside the grid.
    pub fn get_pixel_color(&mut self, x: i32, y: i32) -> (r: Option<Rgba8>)
        requires
            old(self).wf(),
        ensures
            *final(self) == *old(self),
            r == if old(self).in_bounds(x, y) {
                Some(old(self).pixels()[old(self).index_of(x, y)])
            } else {
                None::<Rgba8>
            },
    {
        let len: usize = self.color_buffer.len();
        if x >= 0 && x < self.width && y >= 0 && y < self.height {
            proof {
                lemma_cell_in_grid(x as int, y as int, self.width as int, self.height as int);
            }
            assert((y as int) * (self.width as int) + (x as int) < len);
            let idx: usize = (y as usize) * (self.width as usize) + (x as usize);
            Some(self.color_buffer[idx])
        } else {
            None
        }
    }

    /// Sets the color that `clear` fills with.
    pub fn set_background_color(&mut self, color: Rgba8)
        ensures
            final(self).background() == color,
            final(self).spec_width() == old(self).spec_width(),
            final(self).spec_height() == old(self).spec_height(),
            final(self).pixels() == old(self).pixels(),
            final(self).current() == old(self).current(),
    {
        self.background_color = color;
    }

    /// Sets the color that `set_pixel` draws.
    pub fn set_current_color(&mut self, color: Rgba8)
        ensures
            final(self).current() == color,
            final(self).spec_width() == old(self).spec_width(),
            final(self).spec_height() == old(self).spec_height(),
            final(self).pixels() == old(self).pixels(),
            final(self).background() == old(self).background(),
    {
        self.current_color = color;
    }

    /// The pixels, row by row, for presentation.
    pub fn pixel_data(&self) -> (r: &Vec<Rgba8>)
        ensures
            r@ == self.pixels(),
    {
        &self.color_buffer
    }
}

} // verus!
