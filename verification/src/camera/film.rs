//! The film a camera exposes: a width-by-height grid of pixels stored row by
//! row, and the rectangular tiles that worker threads render and merge back.

use vstd::prelude::*;
use vstd::arithmetic::div_mod::{
    lemma_div_pos_is_pos, lemma_fundamental_div_mod, lemma_fundamental_div_mod_converse,
    lemma_mod_bound,
};
use vstd::arithmetic::mul::lemma_mul_inequality;
use vstd::string::*;

use crate::decimal::{decimal, push_decimal};

verus! {

/// A raster position: `x` is the row and `y` the column.
#[derive(Clone, Copy, PartialEq, Eq, Structural, Debug)]
pub struct Point2 {
    pub x: usize,
    pub y: usize,
}

impl Point2 {
    pub fn new(x: usize, y: usize) -> (point: Point2)
        ensures
            point.x == x,
            point.y == y,
    {
        Point2 { x, y }
    }
}

/// Represents a single pixel on the film. The contribution is the colour
/// gathered so far; its representation is chosen by the renderer.
#[derive(Clone, Copy)]
pub struct FilmPixel<C> {
    pub contribution: C,
    pub weight: usize,
    pub id: i32,
}

impl<C: Default> Default for FilmPixel<C> {
    fn default() -> (pixel: Self)
        ensures
            call_ensures(C::default, (), pixel.contribution),
            pixel.weight == 0,
            pixel.id == 0,
    {
        FilmPixel { contribution: C::default(), weight: 0, id: 0 }
    }
}

/// Every pixel is a default pixel: no weight, no id, and as contribution the
/// value that `C::default()` gives, one value shared by all.
pub open spec fn blank_pixels<C: Default>(pixels: Seq<FilmPixel<C>>) -> bool {
    forall|i: int|
        0 <= i < pixels.len() ==> {
            &&& #[trigger] pixels[i].weight == 0
            &&& pixels[i].id == 0
            &&& call_ensures(C::default, (), pixels[i].contribution)
            &&& pixels[i].contribution == pixels[0].contribution
        }
}

/// `count` copies of one default pixel.
pub(crate) fn blank_pixel_vec<C: Copy + Default>(count: usize) -> (pixels: Vec<FilmPixel<C>>)
    ensures
        pixels@.len() == count,
        blank_pixels(pixels@),
{
    let blank: FilmPixel<C> = FilmPixel::default();
    let mut pixels: Vec<FilmPixel<C>> = Vec::new();
    let mut filled: usize = 0;
    while filled < count
        invariant
            filled <= count,
            pixels@.len() == filled,
            blank.weight == 0,
            blank.id == 0,
            call_ensures(C::default, (), blank.contribution),
            forall|i: int| 0 <= i < filled ==> #[trigger] pixels@[i] == blank,
        decreases count - filled,
    {
        pixels.push(blank);
        filled += 1;
    }
    pixels
}

/// The number of pixels that tile number `index` of `parts` spans along an
/// axis of `total` pixels: an even share, except for the last tile, which
/// takes the remainder of the division.
pub open spec fn tile_extent(total: int, parts: int, index: int) -> int {
    if index + 1 < parts {
        total / parts
    } else {
        total % parts
    }
}

/// Along an axis of `total` pixels split into `parts` tiles, every tile but
/// the last spans the even share: the largest extent that fits `parts` times
/// into the axis. The last tile spans what that division leaves over, fewer
/// pixels than there are parts.
pub proof fn lemma_tile_extent_shares(total: int, parts: int, index: int)
    requires
        0 <= total,
        0 < parts,
        0 <= index < parts,
    ensures
        index + 1 < parts ==> parts * tile_extent(total, parts, index) <= total < parts * (
        tile_extent(total, parts, index) + 1),
        index + 1 == parts ==> {
            &&& 0 <= tile_extent(total, parts, index) < parts
            &&& parts * (total / parts) + tile_extent(total, parts, index) == total
        },
{
    lemma_fundamental_div_mod(total, parts);
    lemma_mod_bound(total, parts);
    let q = total / parts;
    assert(parts * (q + 1) == parts * q + parts) by (nonlinear_arith);
}

pub(crate) proof fn lemma_tile_extent_bounds(total: int, parts: int, index: int)
    requires
        0 <= total,
        0 < parts,
        0 <= index < parts,
    ensures
        0 <= tile_extent(total, parts, index) <= total,
        index * tile_extent(total, parts, index) <= (index + 1) * tile_extent(total, parts, index),
        (index + 1) * tile_extent(total, parts, index) <= parts * total,
{
    let e = tile_extent(total, parts, index);
    let q = total / parts;
    let r = total % parts;
    lemma_fundamental_div_mod(total, parts);
    lemma_mod_bound(total, parts);
    lemma_div_pos_is_pos(total, parts);
    assert(parts * q >= 0) by (nonlinear_arith)
        requires
            parts > 0,
            q >= 0,
    ;
    if index + 1 < parts {
        assert(q <= total) by (nonlinear_arith)
            requires
                parts * q <= total,
                parts >= 1,
                q >= 0,
        ;
        assert((index + 1) * q <= parts * q) by (nonlinear_arith)
            requires
                index + 1 <= parts,
                q >= 0,
        ;
        assert(parts * q <= parts * total) by (nonlinear_arith)
            requires
                q <= total,
                parts > 0,
        ;
    } else {
        assert((index + 1) * r <= parts * total) by (nonlinear_arith)
            requires
                index + 1 == parts,
                parts > 0,
                0 <= r <= total,
        ;
    }
    assert(index * e <= (index + 1) * e) by (nonlinear_arith)
        requires
            e >= 0,
    ;
}

/// The number of rows the tile with corners `rect` (bottom-left row, bottom-left
/// column, top-right row, top-right column) covers; none when they are inverted.
pub open spec fn rect_rows(rect: (int, int, int, int)) -> int {
    if rect.0 < rect.2 {
        rect.2 - rect.0
    } else {
        0
    }
}

/// The number of columns the tile with corners `rect` covers.
pub open spec fn rect_columns(rect: (int, int, int, int)) -> int {
    if rect.1 < rect.3 {
        rect.3 - rect.1
    } else {
        0
    }
}

/// The film index that the `t`-th pixel of a tile is written to, the tile's
/// pixels running row by row.
pub open spec fn merge_target(film_width: int, rect: (int, int, int, int), t: int) -> int {
    (rect.0 + t / rect_columns(rect)) * film_width + (rect.1 + t
        % rect_columns(rect))
}

/// The film pixels after the first `n` pixels of the tile have been written
/// in order.
pub open spec fn merge_writes<C>(
    pixels: Seq<FilmPixel<C>>,
    film_width: int,
    rect: (int, int, int, int),
    tile_pixels: Seq<FilmPixel<C>>,
    n: nat,
) -> Seq<FilmPixel<C>>
    decreases n,
{
    if n == 0 {
        pixels
    } else {
        merge_writes(pixels, film_width, rect, tile_pixels, (n - 1) as nat).update(
            merge_target(film_width, rect, n - 1),
            tile_pixels[n - 1],
        )
    }
}

/// The film index `k` lies under the tile, for a film `film_width` pixels wide.
pub open spec fn under_tile(film_width: int, rect: (int, int, int, int), k: int) -> bool {
    &&& rect.0 <= k / film_width < rect.2
    &&& rect.1 <= k % film_width < rect.3
}

/// The position, among the tile's pixels, of the one that lands on film index `k`.
pub open spec fn tile_offset(film_width: int, rect: (int, int, int, int), k: int) -> int {
    (k / film_width - rect.0) * rect_columns(rect) + (k % film_width
        - rect.1)
}

/// The `t`-th tile pixel lands under the tile, and it is the one that lands there.
proof fn lemma_merge_target_round_trip(film_width: int, rect: (int, int, int, int), t: int)
    requires
        0 <= rect.0,
        0 <= rect.1,
        rect.3 <= film_width,
        rect_rows(rect) > 0,
        rect_columns(rect) > 0,
        0 <= t < rect_rows(rect) * rect_columns(rect),
    ensures
        under_tile(film_width, rect, merge_target(film_width, rect, t)),
        tile_offset(film_width, rect, merge_target(film_width, rect, t)) == t,
        merge_target(film_width, rect, t) >= 0,
{
    let cols = rect_columns(rect);
    let q = t / cols;
    let r = t % cols;
    lemma_fundamental_div_mod(t, cols);
    lemma_mod_bound(t, cols);
    lemma_div_pos_is_pos(t, cols);
    if q >= rect_rows(rect) {
        assert(t >= rect_rows(rect) * cols) by (nonlinear_arith)
            requires
                t == cols * q + r,
                q >= rect_rows(rect),
                r >= 0,
                cols > 0,
        ;
    }
    let row = rect.0 + q;
    let col = rect.1 + r;
    let k = merge_target(film_width, rect, t);
    assert(k == row * film_width + col);
    assert(row * film_width >= 0) by (nonlinear_arith)
        requires
            row >= 0,
            film_width >= 0,
    ;
    lemma_fundamental_div_mod_converse(k, film_width, row, col);
    assert(tile_offset(film_width, rect, k) == q * cols + r);
    assert(q * cols == cols * q) by (nonlinear_arith);
}

/// A film index under the tile is where its tile pixel lands.
proof fn lemma_under_tile_is_target(film_width: int, rect: (int, int, int, int), k: int)
    requires
        0 <= rect.0,
        0 <= rect.1,
        rect.3 <= film_width,
        rect_rows(rect) > 0,
        rect_columns(rect) > 0,
        0 <= k,
        under_tile(film_width, rect, k),
    ensures
        0 <= tile_offset(film_width, rect, k) < rect_rows(rect) * rect_columns(rect),
        merge_target(film_width, rect, tile_offset(film_width, rect, k)) == k,
{
    let cols = rect_columns(rect);
    let a = k / film_width - rect.0;
    let b = k % film_width - rect.1;
    lemma_fundamental_div_mod(k, film_width);
    assert(0 <= a < rect_rows(rect));
    assert(0 <= b < cols);
    let t = a * cols + b;
    assert(t < rect_rows(rect) * cols) by (nonlinear_arith)
        requires
            t == a * cols + b,
            0 <= a < rect_rows(rect),
            0 <= b < cols,
    ;
    assert(t >= 0) by (nonlinear_arith)
        requires
            t == a * cols + b,
            a >= 0,
            b >= 0,
            cols > 0,
    ;
    lemma_fundamental_div_mod_converse(t, cols, a, b);
    assert((k / film_width) * film_width == film_width * (k / film_width)) by (nonlinear_arith);
    assert(merge_target(film_width, rect, t) == (k / film_width) * film_width + k % film_width);
}

proof fn lemma_merge_prefix<C>(
    pixels: Seq<FilmPixel<C>>,
    film_width: int,
    rect: (int, int, int, int),
    tile_pixels: Seq<FilmPixel<C>>,
    n: nat,
)
    requires
        0 <= rect.0,
        0 <= rect.1,
        rect.3 <= film_width,
        rect_rows(rect) > 0,
        rect_columns(rect) > 0,
        n <= rect_rows(rect) * rect_columns(rect),
        (rect.2 - 1) * film_width + (rect.3 - 1) < pixels.len(),
    ensures
        merge_writes(pixels, film_width, rect, tile_pixels, n).len() == pixels.len(),
        forall|k: int|
            0 <= k < pixels.len() ==> #[trigger] merge_writes(pixels, film_width, rect, tile_pixels, n)[k] == if under_tile(
                film_width,
                rect,
                k,
            ) && tile_offset(film_width, rect, k) < n {
                tile_pixels[tile_offset(film_width, rect, k)]
            } else {
                pixels[k]
            },
    decreases n,
{
    if n > 0 {
        let t = n - 1;
        lemma_merge_prefix(pixels, film_width, rect, tile_pixels, t as nat);
        lemma_merge_target_round_trip(film_width, rect, t);
        let target = merge_target(film_width, rect, t);
        let row = target / film_width;
        let col = target % film_width;
        lemma_fundamental_div_mod(target, film_width);
        assert(row <= rect.2 - 1);
        assert(col <= rect.3 - 1);
        lemma_mul_inequality(row, rect.2 - 1, film_width);
        assert(target < pixels.len());
        assert forall|k: int| 0 <= k < pixels.len() implies #[trigger] merge_writes(
            pixels,
            film_width,
            rect,
            tile_pixels,
            n,
        )[k] == if under_tile(film_width, rect, k) && tile_offset(film_width, rect, k) < n {
            tile_pixels[tile_offset(film_width, rect, k)]
        } else {
            pixels[k]
        } by {
            if k != target && under_tile(film_width, rect, k) {
                lemma_under_tile_is_target(film_width, rect, k);
            }
        }
    }
}

/// Merging an accepted tile writes each of its pixels to its place on the
/// film, and leaves every film pixel that the tile does not cover as it was,
/// for a tile whose columns lie within the film's width.
pub proof fn lemma_merge_places_tile<C>(
    pixels: Seq<FilmPixel<C>>,
    film_width: int,
    rect: (int, int, int, int),
    tile_pixels: Seq<FilmPixel<C>>,
)
    requires
        0 <= rect.0,
        0 <= rect.1,
        rect.3 <= film_width,
        rect_rows(rect) > 0,
        rect_columns(rect) > 0,
        (rect.2 - 1) * film_width + (rect.3 - 1) < pixels.len(),
        tile_pixels.len() >= rect_rows(rect) * rect_columns(rect),
    ensures
        ({
            let merged = merge_writes(
                pixels,
                film_width,
                rect,
                tile_pixels,
                (rect_rows(rect) * rect_columns(rect)) as nat,
            );
            &&& merged.len() == pixels.len()
            &&& forall|row: int, column: int|
                rect.0 <= row < rect.2 && rect.1 <= column
                    < rect.3 ==> #[trigger] merged[row * film_width + column]
                    == tile_pixels[(row - rect.0) * rect_columns(rect) + (column
                    - rect.1)]
            &&& forall|k: int|
                0 <= k < pixels.len() && !under_tile(film_width, rect, k) ==> #[trigger] merged[k]
                    == pixels[k]
        }),
{
    let n = (rect_rows(rect) * rect_columns(rect)) as nat;
    lemma_merge_prefix(pixels, film_width, rect, tile_pixels, n);
    let merged = merge_writes(pixels, film_width, rect, tile_pixels, n);
    assert forall|row: int, column: int|
        rect.0 <= row < rect.2 && rect.1 <= column
            < rect.3 implies #[trigger] merged[row * film_width + column]
            == tile_pixels[(row - rect.0) * rect_columns(rect) + (column
            - rect.1)] by {
        let k = row * film_width + column;
        assert(row * film_width >= 0) by (nonlinear_arith)
            requires
                row >= 0,
                film_width >= 0,
        ;
        lemma_fundamental_div_mod_converse(k, film_width, row, column);
        lemma_mul_inequality(row, rect.2 - 1, film_width);
        lemma_under_tile_is_target(film_width, rect, k);
    }
}

#[derive(Clone)]
pub struct Film<C> {
    /// The number of pixels in the horizontal direction.
    pub image_width: usize,
    /// The number of pixels in the vertical direction.
    pub image_height: usize,
    pub pixels: Vec<FilmPixel<C>>,
}

impl<C> Default for Film<C> {
    fn default() -> (film: Self)
        ensures
            film.image_width == 0,
            film.image_height == 0,
            film.pixels@.len() == 0,
    {
        Film { image_width: 0, image_height: 0, pixels: Vec::new() }
    }
}

impl<C> Film<C> {
    /// The position of the pixel at `row` and `column`: rows are stored one
    /// after the other, each `image_width` pixels long.
    pub open spec fn pixel_index(self, row: int, column: int) -> int {
        row * self.image_width + column
    }

    /// The index of the pixel that a tile's bottom-left corner lands on, which
    /// decides whether the tile is newer than the film.
    pub open spec fn test_index(self, tile: FilmTile<C>) -> int {
        self.pixel_index(tile.bottom_left.x as int, tile.bottom_left.y as int)
    }

    /// The tile is newer than what the film holds at its corner, so merging it
    /// writes its pixels.
    pub open spec fn accepts_tile(self, tile: FilmTile<C>) -> bool {
        tile.id > self.pixels@[self.test_index(tile)].id
    }

    /// Returns the index of a pixel in pixels for a given row and column.
    pub fn get_index(&self, row: usize, column: usize) -> (index: usize)
        requires
            self.pixel_index(row as int, column as int) <= usize::MAX,
        ensures
            index == self.pixel_index(row as int, column as int),
    {
        proof {
            assert(row * self.image_width >= 0) by (nonlinear_arith);
        }
        row * self.image_width + column
    }

    /// Merges a tile into the film. All pixels of a tile share its id: when
    /// the tile's id is not greater than the id of the film pixel under its
    /// corner, the film is already up to date and is left as it is. Otherwise
    /// the tile's pixels are copied, row by row, onto the film.
    pub fn merge_tile(&mut self, tile: &FilmTile<C>)
        where C: Copy,
        requires
            0 <= old(self).test_index(*tile) < old(self).pixels@.len(),
            old(self).accepts_tile(*tile) && rect_rows(tile.rect()) > 0 && rect_columns(tile.rect()) > 0
                ==> {
                &&& old(self).pixel_index(tile.top_right.x - 1, tile.top_right.y - 1) < old(
                    self,
                ).pixels@.len()
                &&& tile.pixels@.len() >= rect_rows(tile.rect()) * rect_columns(tile.rect())
            },
        ensures
            final(self).image_width == old(self).image_width,
            final(self).image_height == old(self).image_height,
            !old(self).accepts_tile(*tile) ==> final(self).pixels@ == old(self).pixels@,
            old(self).accepts_tile(*tile) ==> final(self).pixels@ == merge_writes(
                old(self).pixels@,
                old(self).image_width as int,
                tile.rect(),
                tile.pixels@,
                (rect_rows(tile.rect()) * rect_columns(tile.rect())) as nat,
            ),
            ({
                let w = old(self).image_width as int;
                let corner = tile.bottom_left.x * w + tile.bottom_left.y;
                let rows = tile.top_right.x - tile.bottom_left.x;
                let columns = tile.top_right.y - tile.bottom_left.y;
                &&& tile.id <= old(self).pixels@[corner].id ==> final(self).pixels@ == old(
                    self,
                ).pixels@
                &&& tile.id > old(self).pixels@[corner].id && (rows <= 0 || columns <= 0)
                    ==> final(self).pixels@ == old(self).pixels@
                &&& tile.id > old(self).pixels@[corner].id && rows > 0 && columns > 0
                    && tile.top_right.y <= w ==> {
                    &&& final(self).pixels@.len() == old(self).pixels@.len()
                    &&& forall|row: int, column: int|
                        tile.bottom_left.x <= row < tile.top_right.x && tile.bottom_left.y <= column
                            < tile.top_right.y ==> #[trigger] final(self).pixels@[row * w + column]
                            == tile.pixels@[(row - tile.bottom_left.x) * columns + (column
                            - tile.bottom_left.y)]
                    &&& forall|k: int|
                        0 <= k < old(self).pixels@.len() && !(tile.bottom_left.x <= k / w
                            < tile.top_right.x && tile.bottom_left.y <= k % w < tile.top_right.y)
                            ==> #[trigger] final(self).pixels@[k] == old(self).pixels@[k]
                }
            }),
    {
        let pixel_count = self.pixels.len();
        proof {
            assert(self.test_index(*tile) < pixel_count);
        }
        let test_pixel_index = self.get_index(tile.bottom_left.x, tile.bottom_left.y);
        let test_pixel_id = self.pixels[test_pixel_index].id;
        if tile.id <= test_pixel_id {
            return;
        }
        if tile.bottom_left.x >= tile.top_right.x || tile.bottom_left.y >= tile.top_right.y {
            proof {
                assert(rect_rows(tile.rect()) * rect_columns(tile.rect()) == 0) by (nonlinear_arith)
                    requires
                        rect_rows(tile.rect()) == 0 || rect_columns(tile.rect()) == 0,
                ;
            }
            return;
        }
        let width = self.image_width;
        let ghost old_pixels = self.pixels@;
        copy_tile_pixels(&mut self.pixels, width, (tile.bottom_left.x, tile.bottom_left.y), (tile.top_right.x, tile.top_right.y), &tile.pixels);
        proof {
            if tile.top_right.y <= width {
                lemma_merge_places_tile(old_pixels, width as int, tile.rect(), tile.pixels@);
            }
        }
    }
}

/// The film pixel that decides whether a tile is merged is the one under the
/// tile's bottom-left corner, at `row * image_width + column`, and the tile is
/// merged exactly when its id is greater than that pixel's id: a tile from an
/// older or the same scene is never written over a newer one.
pub proof fn lemma_tile_accepted_iff_newer<C>(film: Film<C>, tile: FilmTile<C>)
    ensures
        film.test_index(tile) == tile.bottom_left.x * film.image_width + tile.bottom_left.y,
        film.accepts_tile(tile) <==> tile.id > film.pixels@[tile.bottom_left.x * film.image_width
            + tile.bottom_left.y].id,
{
}

/// Inside the film, the index of a pixel lies within the pixel buffer and
/// determines the row and column it came from, so distinct pixels never share
/// an index.
pub proof fn lemma_pixel_index_in_bounds<C>(film: Film<C>, row: int, column: int)
    requires
        0 <= row < film.image_height,
        0 <= column < film.image_width,
    ensures
        0 <= film.pixel_index(row, column) < film.image_width * film.image_height,
        film.pixel_index(row, column) / film.image_width as int == row,
        film.pixel_index(row, column) % film.image_width as int == column,
{
    let w = film.image_width as int;
    let h = film.image_height as int;
    assert(0 <= row * w + column < w * h) by (nonlinear_arith)
        requires
            0 <= row < h,
            0 <= column < w,
    ;
    lemma_fundamental_div_mod_converse(row * w + column, w, row, column);
}

impl<C: Default> Film<C> {
    /// The tile number `k` of a `columns` by `rows` split, counted row by row,
    /// as `get_tiles` lays it out.
    pub open spec fn is_planned_tile(self, tile: FilmTile<C>, columns: int, rows: int, k: int) -> bool {
        let corners = planned_corners(self.image_width as int, self.image_height as int, columns, rows, k);
        &&& tile.bottom_left.x == corners.0
        &&& tile.bottom_left.y == corners.1
        &&& tile.top_right.x == corners.2
        &&& tile.top_right.y == corners.3
        &&& tile.samples == 0
        &&& tile.id == 0
        &&& tile.pixels@.len() == tile_extent(self.image_height as int, rows, k / columns) * tile_extent(
            self.image_width as int,
            columns,
            k % columns,
        )
        &&& blank_pixels(tile.pixels@)
    }
}

impl<C: Copy + Default> Film<C> {
    pub fn new(image_width: usize, image_height: usize) -> (film: Film<C>)
        requires
            image_width * image_height <= usize::MAX,
        ensures
            film.image_width == image_width,
            film.image_height == image_height,
            film.pixels@.len() == image_width * image_height,
            blank_pixels(film.pixels@),
    {
        let pixels = blank_pixel_vec(image_width * image_height);
        Film { image_width, image_height, pixels }
    }

    /// Splits the film into `rows` by `columns` tiles, listed row by row.
    /// Every tile but the last in a row (or column) spans an even share of
    /// the film's width (or height); the last one spans the remainder.
    pub fn get_tiles(&self, columns: usize, rows: usize) -> (tiles: Vec<FilmTile<C>>)
        requires
            columns > 0,
            rows > 0,
            rows * columns <= usize::MAX,
            rows * self.image_height <= usize::MAX,
            columns * self.image_width <= usize::MAX,
            self.image_width * self.image_height <= usize::MAX,
        ensures
            tiles@.len() == rows * columns,
            forall|k: int|
                0 <= k < tiles@.len() ==> self.is_planned_tile(
                    #[trigger] tiles@[k],
                    columns as int,
                    rows as int,
                    k,
                ),
    {
        let mut tiles: Vec<FilmTile<C>> = Vec::new();
        let tile_count = rows * columns;
        let mut k: usize = 0;
        while k < tile_count
            invariant
                columns > 0,
                rows > 0,
                tile_count == rows * columns,
                rows * self.image_height <= usize::MAX,
                columns * self.image_width <= usize::MAX,
                self.image_width * self.image_height <= usize::MAX,
                k <= tile_count,
                tiles@.len() == k,
                forall|m: int|
                    0 <= m < k ==> self.is_planned_tile(
                        #[trigger] tiles@[m],
                        columns as int,
                        rows as int,
                        m,
                    ),
            decreases tile_count - k,
        {
            let (bottom_left, top_right) = tile_corners(self.image_width, self.image_height, columns, rows, k);
            let tile = FilmTile::new(Point2::new(bottom_left.0, bottom_left.1), Point2::new(top_right.0, top_right.1), 0, 0);
            tiles.push(tile);
            proof {
                assert(self.is_planned_tile(tiles@[k as int], columns as int, rows as int, k as int));
            }
            k += 1;
        }
        tiles
    }
}

/// The corners of tile number `k` of a `columns` by `rows` split of a
/// `width` by `height` film, tiles counted row by row: the first row and
/// column the tile covers, then one past its last row and column.
pub open spec fn planned_corners(width: int, height: int, columns: int, rows: int, k: int) -> (int, int, int, int) {
    let i = k / columns;
    let j = k % columns;
    let row_pixels = tile_extent(height, rows, i);
    let column_pixels = tile_extent(width, columns, j);
    (i * row_pixels, j * column_pixels, (i + 1) * row_pixels, (j + 1) * column_pixels)
}

/// The corners of tile number `k` of a `columns` by `rows` split of a
/// `width` by `height` film, as `get_tiles` lays the tiles out.
pub(crate) fn tile_corners(width: usize, height: usize, columns: usize, rows: usize, k: usize) -> (corners: (
    (usize, usize),
    (usize, usize),
))
    requires
        columns > 0,
        rows > 0,
        k < rows * columns,
        rows * height <= usize::MAX,
        columns * width <= usize::MAX,
        width * height <= usize::MAX,
    ensures
        (corners.0.0 as int, corners.0.1 as int, corners.1.0 as int, corners.1.1 as int)
            == planned_corners(width as int, height as int, columns as int, rows as int, k as int),
        corners.0.0 <= corners.1.0,
        corners.0.1 <= corners.1.1,
        (corners.1.0 - corners.0.0) * (corners.1.1 - corners.0.1) == tile_extent(
            height as int,
            rows as int,
            (k / columns) as int,
        ) * tile_extent(width as int, columns as int, (k % columns) as int),
        (corners.1.0 - corners.0.0) * (corners.1.1 - corners.0.1) <= usize::MAX,
{
    let i = k / columns;
    let j = k % columns;
    proof {
        lemma_fundamental_div_mod(k as int, columns as int);
        lemma_mod_bound(k as int, columns as int);
        if i >= rows {
            assert(k as int >= rows * columns) by (nonlinear_arith)
                requires
                    k == columns * i + j,
                    i >= rows,
                    j >= 0,
                    columns > 0,
            ;
        }
    }
    let row_pixels: usize = if i < rows - 1 {
        height / rows
    } else {
        height % rows
    };
    let column_pixels: usize = if j < columns - 1 {
        width / columns
    } else {
        width % columns
    };
    proof {
        lemma_tile_extent_bounds(height as int, rows as int, i as int);
        lemma_tile_extent_bounds(width as int, columns as int, j as int);
        assert(row_pixels == tile_extent(height as int, rows as int, i as int));
        assert(column_pixels == tile_extent(width as int, columns as int, j as int));
        assert(row_pixels * column_pixels <= height * width) by (nonlinear_arith)
            requires
                0 <= row_pixels <= height,
                0 <= column_pixels <= width,
        ;
        assert(height * width == width * height) by (nonlinear_arith);
        assert(((i + 1) * row_pixels - i * row_pixels) * ((j + 1) * column_pixels - j * column_pixels)
            == row_pixels * column_pixels) by (nonlinear_arith);
    }
    ((i * row_pixels, j * column_pixels), ((i + 1) * row_pixels, (j + 1) * column_pixels))
}

/// Copies a tile's pixels, row by row, onto the rows `bottom_left.0` up to
/// `top_right.0` and the columns `bottom_left.1` up to `top_right.1` of a
/// film `width` pixels wide.
pub(crate) fn copy_tile_pixels<C: Copy>(
    pixels: &mut Vec<FilmPixel<C>>,
    width: usize,
    bottom_left: (usize, usize),
    top_right: (usize, usize),
    tile_pixels: &Vec<FilmPixel<C>>,
)
    requires
        bottom_left.0 < top_right.0,
        bottom_left.1 < top_right.1,
        (top_right.0 - 1) * width + (top_right.1 - 1) < old(pixels)@.len(),
        tile_pixels@.len() >= (top_right.0 - bottom_left.0) * (top_right.1 - bottom_left.1),
    ensures
        final(pixels)@ == merge_writes(
            old(pixels)@,
            width as int,
            (bottom_left.0 as int, bottom_left.1 as int, top_right.0 as int, top_right.1 as int),
            tile_pixels@,
            ((top_right.0 - bottom_left.0) * (top_right.1 - bottom_left.1)) as nat,
        ),
{
    let ghost rect = (bottom_left.0 as int, bottom_left.1 as int, top_right.0 as int, top_right.1 as int);
    let ghost old_pixels = pixels@;
    let ghost rows = top_right.0 - bottom_left.0;
    let ghost columns = top_right.1 - bottom_left.1;
    let pixel_count = pixels.len();
    let tile_pixel_count = tile_pixels.len();
    let mut tile_index: usize = 0;
    let mut row = bottom_left.0;
    while row < top_right.0
        invariant
            bottom_left.0 <= row <= top_right.0,
            bottom_left.1 < top_right.1,
            rows == top_right.0 - bottom_left.0,
            columns == top_right.1 - bottom_left.1,
            rect == (bottom_left.0 as int, bottom_left.1 as int, top_right.0 as int, top_right.1 as int),
            tile_index == (row - bottom_left.0) * columns,
            tile_pixels@.len() >= rows * columns,
            (top_right.0 - 1) * width + (top_right.1 - 1) < old_pixels.len(),
            pixels@.len() == old_pixels.len(),
            pixel_count == old_pixels.len(),
            tile_pixel_count == tile_pixels@.len(),
            pixels@ == merge_writes(old_pixels, width as int, rect, tile_pixels@, tile_index as nat),
        decreases top_right.0 - row,
    {
        let mut column = bottom_left.1;
        while column < top_right.1
            invariant
                bottom_left.0 <= row < top_right.0,
                bottom_left.1 <= column <= top_right.1,
                rows == top_right.0 - bottom_left.0,
                columns == top_right.1 - bottom_left.1,
                rect == (bottom_left.0 as int, bottom_left.1 as int, top_right.0 as int, top_right.1 as int),
                tile_index == (row - bottom_left.0) * columns + (column - bottom_left.1),
                tile_pixels@.len() >= rows * columns,
                (top_right.0 - 1) * width + (top_right.1 - 1) < old_pixels.len(),
                pixels@.len() == old_pixels.len(),
                pixel_count == old_pixels.len(),
                tile_pixel_count == tile_pixels@.len(),
                pixels@ == merge_writes(old_pixels, width as int, rect, tile_pixels@, tile_index as nat),
            decreases top_right.1 - column,
        {
            let ghost t = tile_index as int;
            let ghost r = row - bottom_left.0;
            let ghost c = column - bottom_left.1;
            proof {
                lemma_fundamental_div_mod_converse(t, columns, r, c);
                lemma_mul_inequality(row as int, top_right.0 - 1, width as int);
                assert(r * columns + c < (r + 1) * columns) by (nonlinear_arith)
                    requires
                        c < columns,
                ;
                lemma_mul_inequality(r + 1, rows, columns);
                assert(merge_target(width as int, rect, t) == row * width + column);
            }
            let film_index = row * width + column;
            let pixel = tile_pixels[tile_index];
            pixels.set(film_index, pixel);
            tile_index += 1;
            column += 1;
        }
        proof {
            assert((row - bottom_left.0) * columns + columns == (row + 1 - bottom_left.0) * columns)
                by (nonlinear_arith);
        }
        row += 1;
    }
}

/// The four bytes `bytes` encode `pixel`: the colour that `to_rgb` gives for
/// it, followed by an opaque alpha of 255.
pub open spec fn encodes_pixel<C, F: Fn(&FilmPixel<C>) -> [u8; 3]>(
    to_rgb: F,
    pixel: FilmPixel<C>,
    bytes: Seq<u8>,
) -> bool {
    &&& bytes.len() == 4
    &&& bytes[3] == 255
    &&& exists|rgb: [u8; 3]|
        {
            &&& #[trigger] to_rgb.ensures((&pixel,), rgb)
            &&& bytes[0] == rgb[0]
            &&& bytes[1] == rgb[1]
            &&& bytes[2] == rgb[2]
        }
}

/// Four bytes that encode a pixel are the red, green and blue values that
/// `to_rgb` gives for it, followed by an alpha of 255, whatever the pixel's
/// weight or id: every pixel comes out opaque.
pub proof fn lemma_encoded_pixel_bytes<C, F: Fn(&FilmPixel<C>) -> [u8; 3]>(
    to_rgb: F,
    pixel: FilmPixel<C>,
    bytes: Seq<u8>,
)
    requires
        encodes_pixel(to_rgb, pixel, bytes),
    ensures
        bytes.len() == 4,
        bytes[3] == 255,
        exists|rgb: [u8; 3]|
            {
                &&& #[trigger] to_rgb.ensures((&pixel,), rgb)
                &&& bytes[0] == rgb[0]
                &&& bytes[1] == rgb[1]
                &&& bytes[2] == rgb[2]
            },
{
}

impl<C> Film<C> {
    /// Outputs the image as bytes, four per pixel: the red, green and blue
    /// values that `to_rgb` gives for the pixel, then an opaque alpha of 255.
    pub fn output_rgba<F: Fn(&FilmPixel<C>) -> [u8; 3]>(&self, to_rgb: F) -> (rgbas: Vec<u8>)
        requires
            4 * self.pixels@.len() <= usize::MAX,
            forall|i: int| 0 <= i < self.pixels@.len() ==> to_rgb.requires((&self.pixels@[i],)),
        ensures
            rgbas@.len() == 4 * self.pixels@.len(),
            forall|i: int|
                0 <= i < self.pixels@.len() ==> encodes_pixel(
                    to_rgb,
                    self.pixels@[i],
                    #[trigger] rgbas@.subrange(4 * i, 4 * i + 4),
                ),
            forall|i: int|
                #![trigger rgbas@[4 * i + 3]]
                0 <= i < self.pixels@.len() ==> {
                    &&& rgbas@[4 * i + 3] == 255
                    &&& exists|rgb: [u8; 3]|
                        {
                            &&& #[trigger] to_rgb.ensures((&self.pixels@[i],), rgb)
                            &&& rgbas@[4 * i] == rgb[0]
                            &&& rgbas@[4 * i + 1] == rgb[1]
                            &&& rgbas@[4 * i + 2] == rgb[2]
                        }
                },
    {
        let mut rgbas: Vec<u8> = Vec::with_capacity(self.pixels.len() * 4);
        let mut p: usize = 0;
        while p < self.pixels.len()
            invariant
                4 * self.pixels@.len() <= usize::MAX,
                forall|i: int| 0 <= i < self.pixels@.len() ==> to_rgb.requires((&self.pixels@[i],)),
                p <= self.pixels@.len(),
                rgbas@.len() == 4 * p,
                forall|i: int|
                    0 <= i < p ==> encodes_pixel(
                        to_rgb,
                        self.pixels@[i],
                        #[trigger] rgbas@.subrange(4 * i, 4 * i + 4),
                    ),
            decreases self.pixels@.len() - p,
        {
            let rgb = to_rgb(&self.pixels[p]);
            let ghost before = rgbas@;
            rgbas.push(rgb[0]);
            rgbas.push(rgb[1]);
            rgbas.push(rgb[2]);
            rgbas.push(255);
            proof {
                assert forall|i: int| 0 <= i < p + 1 implies encodes_pixel(
                    to_rgb,
                    self.pixels@[i],
                    #[trigger] rgbas@.subrange(4 * i, 4 * i + 4),
                ) by {
                    if i < p {
                        assert(rgbas@.subrange(4 * i, 4 * i + 4) =~= before.subrange(
                            4 * i,
                            4 * i + 4,
                        ));
                    } else {
                        assert(i == p);
                        let bytes = rgbas@.subrange(4 * i, 4 * i + 4);
                        assert(bytes[0] == rgb[0] && bytes[1] == rgb[1] && bytes[2] == rgb[2]);
                        assert(to_rgb.ensures((&self.pixels@[i],), rgb));
                    }
                }
            }
            p += 1;
        }
        proof {
            assert forall|i: int|
                #![trigger rgbas@[4 * i + 3]]
                0 <= i < self.pixels@.len() implies {
                &&& rgbas@[4 * i + 3] == 255
                &&& exists|rgb: [u8; 3]|
                    {
                        &&& #[trigger] to_rgb.ensures((&self.pixels@[i],), rgb)
                        &&& rgbas@[4 * i] == rgb[0]
                        &&& rgbas@[4 * i + 1] == rgb[1]
                        &&& rgbas@[4 * i + 2] == rgb[2]
                    }
            } by {
                let bytes = rgbas@.subrange(4 * i, 4 * i + 4);
                assert(encodes_pixel(to_rgb, self.pixels@[i], bytes));
                lemma_encoded_pixel_bytes(to_rgb, self.pixels@[i], bytes);
                assert(bytes[3] == rgbas@[4 * i + 3]);
                assert(bytes[0] == rgbas@[4 * i]);
                assert(bytes[1] == rgbas@[4 * i + 1]);
                assert(bytes[2] == rgbas@[4 * i + 2]);
            }
        }
        rgbas
    }
}

/// The header of a plain PPM file for a `width` by `height` image whose
/// channels go up to 255.
pub open spec fn ppm_header_text(width: nat, height: nat) -> Seq<char> {
    seq!['P', '3', '\n'] + decimal(width) + seq![' '] + decimal(height) + seq![' ', '\n', '2', '5', '5', '\n']
}

/// The line of a plain PPM file that holds one pixel: its red, green and blue
/// values in decimal, separated by spaces.
pub open spec fn ppm_color_text(rgb: [u8; 3]) -> Seq<char> {
    decimal(rgb[0] as nat) + seq![' '] + decimal(rgb[1] as nat) + seq![' '] + decimal(rgb[2] as nat)
        + seq!['\n']
}

impl<C> Film<C> {
    /// The header that starts the film's plain PPM file.
    pub fn ppm_header(&self) -> (header: String)
        ensures
            header@ == ppm_header_text(self.image_width as nat, self.image_height as nat),
    {
        let mut header = String::new();
        proof {
            reveal_strlit("P3\n");
            reveal_strlit(" ");
            reveal_strlit(" \n255\n");
        }
        header.append("P3\n");
        push_decimal(&mut header, self.image_width as u64);
        header.append(" ");
        push_decimal(&mut header, self.image_height as u64);
        header.append(" \n255\n");
        proof {
            assert(header@ =~= ppm_header_text(self.image_width as nat, self.image_height as nat));
        }
        header
    }
}

/// The line that a pixel of colour `rgb` takes in a plain PPM file.
pub fn ppm_color_line(rgb: [u8; 3]) -> (line: String)
    ensures
        line@ == ppm_color_text(rgb),
{
    let mut line = String::new();
    proof {
        reveal_strlit(" ");
        reveal_strlit("\n");
    }
    push_decimal(&mut line, rgb[0] as u64);
    line.append(" ");
    push_decimal(&mut line, rgb[1] as u64);
    line.append(" ");
    push_decimal(&mut line, rgb[2] as u64);
    line.append("\n");
    proof {
        assert(line@ =~= ppm_color_text(rgb));
    }
    line
}

/// A subset of the film. Multiple threads can work on different tiles at the
/// same time, allowing for easy parallelism.
#[derive(Clone)]
pub struct FilmTile<C> {
    /// The (x, y) coordinates corresponding to the bottom-left of the tile.
    pub bottom_left: Point2,
    /// The (x, y) coordinates corresponding to the top-right of the tile.
    pub top_right: Point2,
    /// FilmTile pixels are stored from bottom to top, left to right.
    pub pixels: Vec<FilmPixel<C>>,
    /// Counts the number of samples integrated into the film tile.
    pub samples: i32,
    /// Every time the scene changes (e.g. due to camera movement), the id
    /// increments. Tracking this stops threads from integrating old scenes
    /// into the image.
    pub id: i32,
}

impl<C> FilmTile<C> {
    /// The tile's corners: bottom-left row and column, top-right row and column.
    pub open spec fn rect(self) -> (int, int, int, int) {
        (
            self.bottom_left.x as int,
            self.bottom_left.y as int,
            self.top_right.x as int,
            self.top_right.y as int,
        )
    }
}

impl<C: Copy + Default> FilmTile<C> {
    pub fn new(bottom_left: Point2, top_right: Point2, samples: i32, id: i32) -> (tile: FilmTile<C>)
        requires
            bottom_left.x <= top_right.x,
            bottom_left.y <= top_right.y,
            (top_right.x - bottom_left.x) * (top_right.y - bottom_left.y) <= usize::MAX,
        ensures
            tile.bottom_left == bottom_left,
            tile.top_right == top_right,
            tile.samples == samples,
            tile.id == id,
            tile.pixels@.len() == (top_right.x - bottom_left.x) * (top_right.y - bottom_left.y),
            blank_pixels(tile.pixels@),
    {
        let number_of_pixels = (top_right.x - bottom_left.x) * (top_right.y - bottom_left.y);
        let film_pixels = blank_pixel_vec(number_of_pixels);
        FilmTile { bottom_left, top_right, samples, pixels: film_pixels, id }
    }

    /// Forgets the samples gathered so far: the count drops to zero and every
    /// pixel becomes blank again.
    pub fn clear(&mut self)
        ensures
            final(self).samples == 0,
            final(self).pixels@.len() == old(self).pixels@.len(),
            blank_pixels(final(self).pixels@),
            final(self).bottom_left == old(self).bottom_left,
            final(self).top_right == old(self).top_right,
            final(self).id == old(self).id,
    {
        self.samples = 0;
        self.pixels = blank_pixel_vec(self.pixels.len());
    }
}

} // verus!
