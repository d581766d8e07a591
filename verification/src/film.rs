//! The film the integrator writes to, sized by its resolution, and the tiles
//! that worker threads render and merge back into it.

use vstd::prelude::*;
use vstd::arithmetic::div_mod::lemma_fundamental_div_mod_converse;

pub use crate::camera::film::FilmPixel;
use crate::camera::film::{
    blank_pixel_vec, blank_pixels, copy_tile_pixels, lemma_merge_places_tile, merge_writes, planned_corners, rect_columns,
    rect_rows, tile_corners, tile_extent,
};

verus! {

pub struct Film<C> {
    /// The number of pixels horizontally, then vertically.
    pub resoloution: (usize, usize),
    pub pixels: Vec<FilmPixel<C>>,
}

impl<C: Clone> Clone for Film<C> {
    fn clone(&self) -> (film: Self)
        ensures
            film.resoloution == self.resoloution,
            film.pixels@.len() == self.pixels@.len(),
            forall|i: int| 0 <= i < self.pixels@.len() ==> cloned(self.pixels@[i], film.pixels@[i]),
    {
        Film { resoloution: self.resoloution, pixels: self.pixels.clone() }
    }
}

impl<C: Clone> Clone for FilmTile<C> {
    fn clone(&self) -> (tile: Self)
        ensures
            tile.bottom_left == self.bottom_left,
            tile.top_right == self.top_right,
            tile.samples == self.samples,
            tile.id == self.id,
            tile.pixels@.len() == self.pixels@.len(),
            forall|i: int| 0 <= i < self.pixels@.len() ==> cloned(self.pixels@[i], tile.pixels@[i]),
    {
        FilmTile {
            bottom_left: self.bottom_left,
            top_right: self.top_right,
            pixels: self.pixels.clone(),
            samples: self.samples,
            id: self.id,
        }
    }
}

impl<C> Default for Film<C> {
    fn default() -> (film: Self)
        ensures
            film.resoloution == (0usize, 0usize),
            film.pixels@.len() == 0,
    {
        Film { resoloution: (0, 0), pixels: Vec::new() }
    }
}

impl<C> Film<C> {
    /// The position of the pixel at `row` and `column`: rows are stored one
    /// after the other, each `resoloution.0` pixels long.
    pub open spec fn pixel_index(self, row: int, column: int) -> int {
        row * self.resoloution.0 + column
    }

    /// The index of the pixel that a tile's bottom-left corner lands on, which
    /// decides whether the tile is newer than the film.
    pub open spec fn test_index(self, tile: FilmTile<C>) -> int {
        self.pixel_index(tile.bottom_left.0 as int, tile.bottom_left.1 as int)
    }

    /// The tile is newer than what the film holds at its corner, so merging it
    /// writes its pixels.
    pub open spec fn accepts_tile(self, tile: FilmTile<C>) -> bool {
        tile.id > self.pixels@[self.test_index(tile)].id
    }

    /// Returns the index of a pixel in pixels for a given row and column.
    pub fn get_index(&self, row: usize, column: usize) -> (index: usize)
        requires
            self.pixel_index(row as int, column as int) <= usize::MAX,
        ensures
            index == self.pixel_index(row as int, column as int),
    {
        proof {
            assert(row * self.resoloution.0 >= 0) by (nonlinear_arith);
        }
        row * self.resoloution.0 + column
    }

    /// Merges a tile into the film. All pixels of a tile share its id: when
    /// the tile's id is not greater than the id of the film pixel under its
    /// corner, the film is already up to date and is left as it is. Otherwise
    /// the tile's pixels are copied, row by row, onto the film.
    pub fn merge_tile(&mut self, tile: &FilmTile<C>)
        where C: Copy,
        requires
            0 <= old(self).test_index(*tile) < old(self).pixels@.len(),
            old(self).accepts_tile(*tile) && rect_rows(tile.rect()) > 0 && rect_columns(tile.rect()) > 0
                ==> {
                &&& old(self).pixel_index(tile.top_right.0 - 1, tile.top_right.1 - 1) < old(
                    self,
                ).pixels@.len()
                &&& tile.pixels@.len() >= rect_rows(tile.rect()) * rect_columns(tile.rect())
            },
        ensures
            final(self).resoloution.0 == old(self).resoloution.0,
            final(self).resoloution.1 == old(self).resoloution.1,
            !old(self).accepts_tile(*tile) ==> final(self).pixels@ == old(self).pixels@,
            old(self).accepts_tile(*tile) ==> final(self).pixels@ == merge_writes(
                old(self).pixels@,
                old(self).resoloution.0 as int,
                tile.rect(),
                tile.pixels@,
                (rect_rows(tile.rect()) * rect_columns(tile.rect())) as nat,
            ),
            ({
                let w = old(self).resoloution.0 as int;
                let corner = tile.bottom_left.0 * w + tile.bottom_left.1;
                let rows = tile.top_right.0 - tile.bottom_left.0;
                let columns = tile.top_right.1 - tile.bottom_left.1;
                &&& tile.id <= old(self).pixels@[corner].id ==> final(self).pixels@ == old(
                    self,
                ).pixels@
                &&& tile.id > old(self).pixels@[corner].id && (rows <= 0 || columns <= 0)
                    ==> final(self).pixels@ == old(self).pixels@
                &&& tile.id > old(self).pixels@[corner].id && rows > 0 && columns > 0
                    && tile.top_right.1 <= w ==> {
                    &&& final(self).pixels@.len() == old(self).pixels@.len()
                    &&& forall|row: int, column: int|
                        tile.bottom_left.0 <= row < tile.top_right.0 && tile.bottom_left.1 <= column
                            < tile.top_right.1 ==> #[trigger] final(self).pixels@[row * w + column]
                            == tile.pixels@[(row - tile.bottom_left.0) * columns + (column
                            - tile.bottom_left.1)]
                    &&& forall|k: int|
                        0 <= k < old(self).pixels@.len() && !(tile.bottom_left.0 <= k / w
                            < tile.top_right.0 && tile.bottom_left.1 <= k % w < tile.top_right.1)
                            ==> #[trigger] final(self).pixels@[k] == old(self).pixels@[k]
                }
            }),
    {
        let pixel_count = self.pixels.len();
        proof {
            assert(self.test_index(*tile) < pixel_count);
        }
        let test_pixel_index = self.get_index(tile.bottom_left.0, tile.bottom_left.1);
        let test_pixel_id = self.pixels[test_pixel_index].id;
        if tile.id <= test_pixel_id {
            return;
        }
        if tile.bottom_left.0 >= tile.top_right.0 || tile.bottom_left.1 >= tile.top_right.1 {
            proof {
                assert(rect_rows(tile.rect()) * rect_columns(tile.rect()) == 0) by (nonlinear_arith)
                    requires
                        rect_rows(tile.rect()) == 0 || rect_columns(tile.rect()) == 0,
                ;
            }
            return;
        }
        let width = self.resoloution.0;
        let ghost old_pixels = self.pixels@;
        copy_tile_pixels(&mut self.pixels, width, tile.bottom_left, tile.top_right, &tile.pixels);
        proof {
            if tile.top_right.1 <= width {
                lemma_merge_places_tile(old_pixels, width as int, tile.rect(), tile.pixels@);
            }
        }
    }
}

/// The film pixel that decides whether a tile is merged is the one under the
/// tile's bottom-left corner, at `row * resoloution.0 + column`, and the tile
/// is merged exactly when its id is greater than that pixel's id: a tile from
/// an older or the same scene is never written over a newer one.
pub proof fn lemma_tile_accepted_iff_newer<C>(film: Film<C>, tile: FilmTile<C>)
    ensures
        film.test_index(tile) == tile.bottom_left.0 * film.resoloution.0 + tile.bottom_left.1,
        film.accepts_tile(tile) <==> tile.id > film.pixels@[tile.bottom_left.0 * film.resoloution.0
            + tile.bottom_left.1].id,
{
}

/// Inside the film, the index of a pixel lies within the pixel buffer and
/// determines the row and column it came from, so distinct pixels never share
/// an index.
pub proof fn lemma_pixel_index_in_bounds<C>(film: Film<C>, row: int, column: int)
    requires
        0 <= row < film.resoloution.1,
        0 <= column < film.resoloution.0,
    ensures
        0 <= film.pixel_index(row, column) < film.resoloution.0 * film.resoloution.1,
        film.pixel_index(row, column) / film.resoloution.0 as int == row,
        film.pixel_index(row, column) % film.resoloution.0 as int == column,
{
    let w = film.resoloution.0 as int;
    let h = film.resoloution.1 as int;
    assert(0 <= row * w + column < w * h) by (nonlinear_arith)
        requires
            0 <= row < h,
            0 <= column < w,
    ;
    lemma_fundamental_div_mod_converse(row * w + column, w, row, column);
}

impl<C: Default> Film<C> {
    /// The tile number `k` of a `columns` by `rows` split, counted row by row,
    /// as `get_tiles` lays it out.
    pub open spec fn is_planned_tile(self, tile: FilmTile<C>, columns: int, rows: int, k: int) -> bool {
        let corners = planned_corners(self.resoloution.0 as int, self.resoloution.1 as int, columns, rows, k);
        &&& tile.bottom_left.0 == corners.0
        &&& tile.bottom_left.1 == corners.1
        &&& tile.top_right.0 == corners.2
        &&& tile.top_right.1 == corners.3
        &&& tile.samples == 0
        &&& tile.id == 0
        &&& tile.pixels@.len() == tile_extent(self.resoloution.1 as int, rows, k / columns) * tile_extent(
            self.resoloution.0 as int,
            columns,
            k % columns,
        )
        &&& blank_pixels(tile.pixels@)
    }
}

impl<C: Copy + Default> Film<C> {
    pub fn new(resoloution: (usize, usize)) -> (film: Film<C>)
        requires
            resoloution.0 * resoloution.1 <= usize::MAX,
        ensures
            film.resoloution == resoloution,
            film.pixels@.len() == resoloution.0 * resoloution.1,
            blank_pixels(film.pixels@),
    {
        let pixels = blank_pixel_vec(resoloution.0 * resoloution.1);
        Film { resoloution, pixels }
    }

    /// Splits the film into `rows` by `columns` tiles, listed row by row.
    /// Every tile but the last in a row (or column) spans an even share of
    /// the film's width (or height); the last one spans the remainder.
    pub fn get_tiles(&self, columns: usize, rows: usize) -> (tiles: Vec<FilmTile<C>>)
        requires
            columns > 0,
            rows > 0,
            rows * columns <= usize::MAX,
            rows * self.resoloution.1 <= usize::MAX,
            columns * self.resoloution.0 <= usize::MAX,
            self.resoloution.0 * self.resoloution.1 <= usize::MAX,
        ensures
            tiles@.len() == rows * columns,
            forall|k: int|
                0 <= k < tiles@.len() ==> self.is_planned_tile(
                    #[trigger] tiles@[k],
                    columns as int,
                    rows as int,
                    k,
                ),
    {
        let mut tiles: Vec<FilmTile<C>> = Vec::new();
        let tile_count = rows * columns;
        let mut k: usize = 0;
        while k < tile_count
            invariant
                columns > 0,
                rows > 0,
                tile_count == rows * columns,
                rows * self.resoloution.1 <= usize::MAX,
                columns * self.resoloution.0 <= usize::MAX,
                self.resoloution.0 * self.resoloution.1 <= usize::MAX,
                k <= tile_count,
                tiles@.len() == k,
                forall|m: int|
                    0 <= m < k ==> self.is_planned_tile(
                        #[trigger] tiles@[m],
                        columns as int,
                        rows as int,
                        m,
                    ),
            decreases tile_count - k,
        {
            let (bottom_left, top_right) = tile_corners(self.resoloution.0, self.resoloution.1, columns, rows, k);
            let tile = FilmTile::new(bottom_left, top_right, 0, 0);
            tiles.push(tile);
            proof {
                assert(self.is_planned_tile(tiles@[k as int], columns as int, rows as int, k as int));
            }
            k += 1;
        }
        tiles
    }
}

/// A subset of the film. Multiple threads can work on different tiles at the
/// same time, allowing for easy parallelism.
pub struct FilmTile<C> {
    /// The (x, y) coordinates corresponding to the bottom-left of the tile.
    pub bottom_left: (usize, usize),
    /// The (x, y) coordinates corresponding to the top-right of the tile.
    pub top_right: (usize, usize),
    /// FilmTile pixels are stored from bottom to top, left to right.
    pub pixels: Vec<FilmPixel<C>>,
    /// Counts the number of samples integrated into the film tile.
    pub samples: i32,
    /// Every time the scene changes (e.g. due to camera movement), the id
    /// increments. Tracking this stops threads from integrating old scenes
    /// into the image.
    pub id: i32,
}

impl<C> FilmTile<C> {
    /// The tile's corners: bottom-left row and column, top-right row and column.
    pub open spec fn rect(self) -> (int, int, int, int) {
        (
            self.bottom_left.0 as int,
            self.bottom_left.1 as int,
            self.top_right.0 as int,
            self.top_right.1 as int,
        )
    }
}

impl<C: Copy + Default> FilmTile<C> {
    pub fn new(bottom_left: (usize, usize), top_right: (usize, usize), samples: i32, id: i32) -> (tile: FilmTile<C>)
        requires
            bottom_left.0 <= top_right.0,
            bottom_left.1 <= top_right.1,
            (top_right.0 - bottom_left.0) * (top_right.1 - bottom_left.1) <= usize::MAX,
        ensures
            tile.bottom_left == bottom_left,
            tile.top_right == top_right,
            tile.samples == samples,
            tile.id == id,
            tile.pixels@.len() == (top_right.0 - bottom_left.0) * (top_right.1 - bottom_left.1),
            blank_pixels(tile.pixels@),
    {
        let number_of_pixels = (top_right.0 - bottom_left.0) * (top_right.1 - bottom_left.1);
        let film_pixels = blank_pixel_vec(number_of_pixels);
        FilmTile { bottom_left, top_right, samples, pixels: film_pixels, id }
    }

    /// Forgets the samples gathered so far: the count drops to zero and every
    /// pixel becomes blank again.
    pub fn clear(&mut self)
        ensures
            final(self).samples == 0,
            final(self).pixels@.len() == old(self).pixels@.len(),
            blank_pixels(final(self).pixels@),
            final(self).bottom_left == old(self).bottom_left,
            final(self).top_right == old(self).top_right,
            final(self).id == old(self).id,
    {
        self.samples = 0;
        self.pixels = blank_pixel_vec(self.pixels.len());
    }
}

} // verus!
