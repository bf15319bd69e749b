//! Placing a watermark on a canvas: once at a resolved corner, or tiled
//! over the whole canvas.

use crate::error::{ConfigurationError, GeometryError, WatermarkError};
use crate::position::{placement, resolve_placement, Position};
use crate::raster::{
    composite, cover, lemma_cell_index, opaque, pixel, settled, stamp, transparent, Bitmap, Raster,
};
use vstd::arithmetic::div_mod::{
    lemma_fundamental_div_mod, lemma_fundamental_div_mod_converse, lemma_mod_multiples_basic,
};
use vstd::prelude::*;

verus! {

/// How many multiples of `spacing`, counted from zero, lie below `extent`.
pub open spec fn steps(extent: int, spacing: int) -> int {
    if extent <= 0 || spacing <= 0 {
        0
    } else {
        (extent - 1) / spacing + 1
    }
}

/// The corners at which a canvas of the given size is tiled: every point
/// whose coordinates are multiples of `spacing` and lie on the canvas, row
/// by row from the top, each row from the left.
pub open spec fn grid(width: int, height: int, spacing: int) -> Seq<(int, int)> {
    let columns = steps(width, spacing);
    let rows = steps(height, spacing);
    Seq::new(
        (columns * rows) as nat,
        |i: int| ((i % columns) * spacing, (i / columns) * spacing),
    )
}

/// `bottom` with `top` blended onto it at each of the points in turn.
pub open spec fn stamped(bottom: Bitmap, top: Bitmap, points: Seq<(int, int)>) -> Bitmap
    decreases points.len(),
{
    if points.len() == 0 {
        bottom
    } else {
        stamp(stamped(bottom, top, points.drop_last()), top, points.last().0, points.last().1)
    }
}

/// Whether pixel `k` of `bitmap` is, byte for byte, some pixel of `top`.
pub open spec fn shows(bitmap: Bitmap, top: Bitmap, k: int) -> bool {
    exists|m: int| 0 <= m < top.width * top.height && pixel(bitmap, k) == #[trigger] pixel(top, m)
}

/// The index in the grid of the copy that starts nearest before pixel `k`
/// on both axes.
pub open spec fn home(k: int, width: int, spacing: int) -> int {
    ((k / width) / spacing) * steps(width, spacing) + (k % width) / spacing
}

/// Whether copies of `top` laid out with the given spacing leave no gap
/// and hide what lies under them.
pub open spec fn covering(top: Bitmap, spacing: int) -> bool {
    &&& opaque(top)
    &&& 0 < spacing <= top.width
    &&& spacing <= top.height
}

/// What applying a watermark gives: the canvas with the overlay tiled over
/// it or blended at the resolved corner, or the reason why it was left
/// alone.
pub open spec fn applied(bottom: Bitmap, top: Bitmap, position: Position, margin: u32) -> Result<
    Bitmap,
    WatermarkError,
> {
    match position {
        Position::FlatLay(spacing) => if spacing == 0 {
            Err(WatermarkError::Configuration(ConfigurationError::ZeroSpacing))
        } else {
            Ok(stamped(bottom, top, grid(bottom.width as int, bottom.height as int, spacing as int)))
        },
        _ => match placement(
            position,
            bottom.width as u32,
            bottom.height as u32,
            top.width as u32,
            top.height as u32,
            margin,
        ) {
            Err(e) => Err(WatermarkError::Geometry(e)),
            Ok(corner) => Ok(stamp(bottom, top, corner.0 as int, corner.1 as int)),
        },
    }
}

/// The `k`-th multiple of the spacing lies below the extent exactly when
/// `k` is below the number of steps.
pub proof fn lemma_steps(extent: int, spacing: int, k: int)
    requires
        0 < spacing,
        0 <= k,
    ensures
        0 <= steps(extent, spacing),
        k * spacing < extent <==> k < steps(extent, spacing),
{
    if extent <= 0 {
        assert(0 <= k * spacing) by (nonlinear_arith)
            requires
                0 <= k,
                0 < spacing,
        ;
    } else {
        let m = extent - 1;
        let q = m / spacing;
        lemma_fundamental_div_mod(m, spacing);
        assert(0 <= q) by (nonlinear_arith)
            requires
                m == spacing * q + m % spacing,
                0 <= m % spacing < spacing,
                0 <= m,
                0 < spacing,
        ;
        if k <= q {
            assert(k * spacing <= spacing * q) by (nonlinear_arith)
                requires
                    0 <= k <= q,
                    0 < spacing,
            ;
        } else {
            assert(k * spacing >= spacing * q + spacing) by (nonlinear_arith)
                requires
                    k >= q + 1,
                    0 < spacing,
            ;
        }
    }
}

/// The point of the grid in a given row and column.
pub proof fn lemma_grid_cell(width: int, height: int, spacing: int, column: int, row: int)
    requires
        0 < spacing,
        0 <= column < steps(width, spacing),
        0 <= row < steps(height, spacing),
    ensures
        0 <= row * steps(width, spacing) + column < grid(width, height, spacing).len(),
        grid(width, height, spacing)[row * steps(width, spacing) + column] == (
            column * spacing,
            row * spacing,
        ),
{
    let columns = steps(width, spacing);
    let rows = steps(height, spacing);
    let i = row * columns + column;
    assert(0 <= row * columns && i < columns * rows) by (nonlinear_arith)
        requires
            0 <= column < columns,
            0 <= row < rows,
            i == row * columns + column,
    ;
    lemma_fundamental_div_mod_converse(i, columns, row, column);
}

/// Whether the point lies on the canvas and both of its coordinates are
/// multiples of the spacing.
pub open spec fn on_grid(point: (int, int), width: int, height: int, spacing: int) -> bool {
    &&& 0 <= point.0 < width
    &&& 0 <= point.1 < height
    &&& point.0 % spacing == 0
    &&& point.1 % spacing == 0
}

/// Tiling places a copy at every point of the canvas whose coordinates are
/// multiples of the spacing, and nowhere else.
pub proof fn lemma_grid_points(width: int, height: int, spacing: int, point: (int, int))
    requires
        0 < spacing,
    ensures
        grid(width, height, spacing).contains(point) <==> on_grid(point, width, height, spacing),
{
    let points = grid(width, height, spacing);
    let columns = steps(width, spacing);
    let rows = steps(height, spacing);
    lemma_steps(width, spacing, 0);
    lemma_steps(height, spacing, 0);
    if on_grid(point, width, height, spacing) {
        let a = point.0 / spacing;
        let b = point.1 / spacing;
        lemma_fundamental_div_mod(point.0, spacing);
        lemma_fundamental_div_mod(point.1, spacing);
        assert(0 <= a && 0 <= b && a * spacing == point.0 && b * spacing == point.1)
            by (nonlinear_arith)
            requires
                point.0 == spacing * a,
                point.1 == spacing * b,
                0 <= point.0,
                0 <= point.1,
                0 < spacing,
        ;
        lemma_steps(width, spacing, a);
        lemma_steps(height, spacing, b);
        lemma_grid_cell(width, height, spacing, a, b);
        assert(points[b * columns + a] == point);
    }
    if points.contains(point) {
        let i = choose|i: int| 0 <= i < points.len() && points[i] == point;
        if columns <= 0 {
            assert(columns * rows <= 0) by (nonlinear_arith)
                requires
                    columns <= 0,
                    0 <= rows,
            ;
        } else {
            let a = i % columns;
            let b = i / columns;
            lemma_fundamental_div_mod(i, columns);
            assert(0 <= b < rows) by (nonlinear_arith)
                requires
                    i == columns * b + a,
                    0 <= a < columns,
                    0 <= i < columns * rows,
                    0 <= rows,
            ;
            lemma_steps(width, spacing, a);
            lemma_steps(height, spacing, b);
            assert(point == (a * spacing, b * spacing));
            lemma_mod_multiples_basic(a, spacing);
            lemma_mod_multiples_basic(b, spacing);
            assert(0 <= a * spacing && 0 <= b * spacing) by (nonlinear_arith)
                requires
                    0 <= a,
                    0 <= b,
                    0 < spacing,
            ;
        }
    }
}

/// Where the spacing is no larger than the overlay on either axis, every
/// pixel of the canvas lies under one of the copies.
pub proof fn lemma_grid_covers(
    width: int,
    height: int,
    spacing: int,
    overlay_width: int,
    overlay_height: int,
    px: int,
    py: int,
)
    requires
        0 < spacing <= overlay_width,
        spacing <= overlay_height,
        0 <= px < width,
        0 <= py < height,
    ensures
        exists|i: int|
            0 <= i < grid(width, height, spacing).len() && {
                let p = #[trigger] grid(width, height, spacing)[i];
                p.0 <= px < p.0 + overlay_width && p.1 <= py < p.1 + overlay_height
            },
{
    let a = px / spacing;
    let b = py / spacing;
    lemma_fundamental_div_mod(px, spacing);
    lemma_fundamental_div_mod(py, spacing);
    assert(0 <= a && 0 <= b) by (nonlinear_arith)
        requires
            px == spacing * a + px % spacing,
            py == spacing * b + py % spacing,
            0 <= px % spacing < spacing,
            0 <= py % spacing < spacing,
            0 <= px,
            0 <= py,
            0 < spacing,
    ;
    assert(a * spacing == spacing * a && b * spacing == spacing * b) by (nonlinear_arith);
    lemma_steps(width, spacing, a);
    lemma_steps(height, spacing, b);
    lemma_grid_cell(width, height, spacing, a, b);
    let i = b * steps(width, spacing) + a;
    assert(grid(width, height, spacing)[i] == (a * spacing, b * spacing));
}

/// The copy that starts nearest before a pixel is one of the grid, and
/// the pixel lies less than one spacing after its corner on both axes.
pub proof fn lemma_home(k: int, width: int, height: int, spacing: int)
    requires
        0 < spacing,
        0 <= k < width * height,
        0 <= width,
    ensures
        ({
            let column = (k % width) / spacing;
            let row = (k / width) / spacing;
            &&& 0 <= column < steps(width, spacing)
            &&& 0 <= row < steps(height, spacing)
            &&& column * spacing <= k % width < column * spacing + spacing
            &&& row * spacing <= k / width < row * spacing + spacing
            &&& 0 <= home(k, width, spacing) < grid(width, height, spacing).len()
        }),
{
    assert(0 < width) by (nonlinear_arith)
        requires
            0 <= k < width * height,
            0 <= width,
    ;
    let px = k % width;
    let py = k / width;
    lemma_fundamental_div_mod(k, width);
    assert(0 <= py < height) by (nonlinear_arith)
        requires
            k == width * py + px,
            0 <= px < width,
            0 <= k < width * height,
    ;
    let column = px / spacing;
    let row = py / spacing;
    lemma_fundamental_div_mod(px, spacing);
    lemma_fundamental_div_mod(py, spacing);
    assert(0 <= column && column * spacing == spacing * column) by (nonlinear_arith)
        requires
            px == spacing * column + px % spacing,
            0 <= px % spacing < spacing,
            0 <= px,
    ;
    assert(0 <= row && row * spacing == spacing * row) by (nonlinear_arith)
        requires
            py == spacing * row + py % spacing,
            0 <= py % spacing < spacing,
            0 <= py,
    ;
    lemma_steps(width, spacing, column);
    lemma_steps(height, spacing, row);
    lemma_grid_cell(width, height, spacing, column, row);
}

/// One more copy of an opaque overlay, blended at its place in the grid,
/// leaves every pixel whose nearest copy has been placed showing the
/// overlay.
proof fn lemma_tile_step(
    before: Bitmap,
    after: Bitmap,
    top: Bitmap,
    spacing: int,
    column: int,
    row: int,
)
    requires
        covering(top, spacing),
        top.data.len() == 4 * top.width * top.height,
        after.width == before.width,
        after.height == before.height,
        0 <= column < steps(before.width as int, spacing),
        0 <= row < steps(before.height as int, spacing),
        forall|k: int|
            0 <= k < before.width * before.height ==> #[trigger] settled(
                before,
                top,
                column * spacing,
                row * spacing,
                k,
                after,
            ),
        forall|k: int|
            0 <= k < before.width * before.height && home(k, before.width as int, spacing) < row
                * steps(before.width as int, spacing) + column ==> #[trigger] shows(before, top, k),
    ensures
        forall|k: int|
            0 <= k < after.width * after.height && home(k, after.width as int, spacing) < row
                * steps(after.width as int, spacing) + column + 1 ==> #[trigger] shows(
                after,
                top,
                k,
            ),
{
    let width = before.width as int;
    let height = before.height as int;
    let columns = steps(width, spacing);
    let n = row * columns + column;
    let x = column * spacing;
    let y = row * spacing;
    assert(top.data.len() == 4 * (top.width * top.height)) by (nonlinear_arith)
        requires
            top.data.len() == 4 * top.width * top.height,
    ;
    assert forall|k: int|
        0 <= k < width * height && home(k, width, spacing) < n + 1 implies #[trigger] shows(
        after,
        top,
        k,
    ) by {
        lemma_home(k, width, height, spacing);
        assert(settled(before, top, x, y, k, after));
        match cover(before, top, x, y, k) {
            Some(m) => {
                lemma_cell_index(k % width - x, k / width - y, top.width as int, top.height as int);
                assert(top.data[4 * m + 3] == 255);
                assert(pixel(after, k) == pixel(top, m));
            },
            None => {
                if home(k, width, spacing) < n {
                    assert(shows(before, top, k));
                    let m = choose|m: int|
                        0 <= m < top.width * top.height && pixel(before, k) == #[trigger] pixel(
                            top,
                            m,
                        );
                    assert(pixel(after, k) == pixel(top, m));
                } else {
                    let c = (k % width) / spacing;
                    let r = (k / width) / spacing;
                    lemma_fundamental_div_mod_converse(n, columns, r, c);
                    lemma_fundamental_div_mod_converse(n, columns, row, column);
                    assert(false);
                }
            },
        }
    }
}

/// Tiles `overlay` over `base`: a copy is blended at every point whose
/// coordinates are multiples of `spacing` and lie on the canvas, row by
/// row from the top, each row from the left. A spacing of zero is
/// rejected and leaves `base` as it was, and so does a fully transparent
/// overlay.
pub fn tile(base: &mut Raster, overlay: &Raster, spacing: usize) -> (r: Result<
    (),
    ConfigurationError,
>)
    requires
        old(base).wf(),
        overlay.wf(),
    ensures
        final(base).wf(),
        spacing == 0 ==> r == Err::<(), ConfigurationError>(ConfigurationError::ZeroSpacing)
            && final(base)@ == old(base)@,
        spacing > 0 ==> r is Ok && final(base)@ == stamped(
            old(base)@,
            overlay@,
            grid(old(base)@.width as int, old(base)@.height as int, spacing as int),
        ),
        transparent(overlay@) ==> final(base)@ == old(base)@,
        covering(overlay@, spacing as int) ==> forall|k: int|
            0 <= k < final(base)@.width * final(base)@.height ==> #[trigger] shows(
                final(base)@,
                overlay@,
                k,
            ),
{
    if spacing == 0 {
        return Err(ConfigurationError::ZeroSpacing);
    }
    // Wide enough to hold one step past the edge of the canvas.
    let width: u128 = base.width() as u128;
    let height: u128 = base.height() as u128;
    let step: u128 = spacing as u128;
    let ghost bottom = base@;
    let ghost top = overlay@;
    let ghost columns = steps(width as int, step as int);
    let ghost rows = steps(height as int, step as int);
    let ghost points = grid(width as int, height as int, step as int);
    let mut y: u128 = 0;
    let ghost mut row: int = 0;
    proof {
        lemma_steps(height as int, step as int, 0);
        lemma_steps(width as int, step as int, 0);
        assert(points.take(0) =~= Seq::<(int, int)>::empty());
        assert(0 * columns == 0) by (nonlinear_arith);
        assert(0 * (step as int) == 0) by (nonlinear_arith);
    }
    while y < height
        invariant
            base.wf(),
            overlay.wf(),
            overlay@ == top,
            base@.width == bottom.width,
            base@.height == bottom.height,
            width == bottom.width,
            height == bottom.height,
            width <= u32::MAX,
            height <= u32::MAX,
            0 < step <= usize::MAX,
            columns == steps(width as int, step as int),
            rows == steps(height as int, step as int),
            points == grid(width as int, height as int, step as int),
            0 <= columns,
            0 <= row <= rows,
            y == row * step,
            base@ == stamped(bottom, top, points.take(row * columns)),
            transparent(top) ==> base@ == bottom,
            covering(top, step as int) ==> forall|k: int|
                0 <= k < width * height && home(k, width as int, step as int) < row * columns
                    ==> #[trigger] shows(base@, top, k),
        decreases rows - row,
    {
        proof {
            lemma_steps(height as int, step as int, row);
        }
        let mut x: u128 = 0;
        let ghost mut column: int = 0;
        proof {
            assert(0 * (step as int) == 0) by (nonlinear_arith);
        }
        while x < width
            invariant
                base.wf(),
                overlay.wf(),
                overlay@ == top,
                base@.width == bottom.width,
                base@.height == bottom.height,
                width == bottom.width,
                height == bottom.height,
                width <= u32::MAX,
                height <= u32::MAX,
                0 < step <= usize::MAX,
                columns == steps(width as int, step as int),
                rows == steps(height as int, step as int),
                points == grid(width as int, height as int, step as int),
                0 <= row < rows,
                y == row * step,
                y < height,
                0 <= column <= columns,
                x == column * step,
                base@ == stamped(bottom, top, points.take(row * columns + column)),
                transparent(top) ==> base@ == bottom,
                covering(top, step as int) ==> forall|k: int|
                    0 <= k < width * height && home(k, width as int, step as int) < row * columns
                        + column ==> #[trigger] shows(base@, top, k),
            decreases columns - column,
        {
            let ghost n = row * columns + column;
            proof {
                lemma_steps(width as int, step as int, column);
                lemma_grid_cell(width as int, height as int, step as int, column, row);
                assert(points[n] == (x as int, y as int));
            }
            let ghost before = base@;
            composite(base, overlay, x as i64, y as i64);
            proof {
                if covering(top, step as int) {
                    lemma_tile_step(before, base@, top, step as int, column, row);
                }
                let next = points.take(n + 1);
                assert(next.drop_last() =~= points.take(n));
                assert(next.last() == points[n]);
                assert((column + 1) * step == column * step + step) by (nonlinear_arith);
                column = column + 1;
            }
            x = x + step;
        }
        proof {
            lemma_steps(width as int, step as int, column);
            assert(column == columns);
            assert((row + 1) * columns == row * columns + columns) by (nonlinear_arith);
            assert((row + 1) * step == row * step + step) by (nonlinear_arith);
            row = row + 1;
        }
        y = y + step;
    }
    proof {
        lemma_steps(height as int, step as int, row);
        assert(row == rows);
        assert(rows * columns == columns * rows) by (nonlinear_arith);
        assert(points.take(row * columns) =~= points);
        if covering(top, step as int) {
            assert forall|k: int| 0 <= k < width * height implies #[trigger] shows(
                base@,
                top,
                k,
            ) by {
                lemma_home(k, width as int, height as int, step as int);
            }
        }
    }
    Ok(())
}

/// Applies a watermark to `base`: tiles it where the placement asks for
/// tiling, else blends it once at the corner that the placement resolves
/// to. Where the placement cannot be honoured, `base` is left as it was.
pub fn apply(base: &mut Raster, overlay: &Raster, position: Position, margin: u32) -> (r: Result<
    (),
    WatermarkError,
>)
    requires
        old(base).wf(),
        overlay.wf(),
    ensures
        final(base).wf(),
        match applied(old(base)@, overlay@, position, margin) {
            Ok(bitmap) => r is Ok && final(base)@ == bitmap,
            Err(e) => r == Err::<(), WatermarkError>(e) && final(base)@ == old(base)@,
        },
        transparent(overlay@) ==> final(base)@ == old(base)@,
{
    if let Position::FlatLay(spacing) = position {
        return match tile(base, overlay, spacing) {
            Ok(()) => Ok(()),
            Err(e) => Err(WatermarkError::Configuration(e)),
        };
    }
    match resolve_placement(
        position,
        base.width(),
        base.height(),
        overlay.width(),
        overlay.height(),
        margin,
    ) {
        Err(e) => Err(WatermarkError::Geometry(e)),
        Ok((x, y)) => {
            composite(base, overlay, x as i64, y as i64);
            Ok(())
        },
    }
}

/// The square frame in which a text mask can be turned by any angle: its
/// side, and the corner at which the mask is centred in it.
#[derive(Clone, Copy, Debug, PartialEq, Eq, Structural)]
pub struct Frame {
    pub side: u32,
    pub left: u32,
    pub top: u32,
}

/// Whether `side` is the length of the diagonal of a `width` by `height`
/// rectangle, rounded up to a whole number.
pub open spec fn is_diagonal(side: int, width: int, height: int) -> bool {
    &&& 0 <= side
    &&& side * side >= width * width + height * height
    &&& side > 0 ==> (side - 1) * (side - 1) < width * width + height * height
}

/// The frame for a text mask of the given size. Its side is the diagonal
/// of the mask, rounded up; the mask is centred by halving the side and
/// the mask's extent, each rounded down. The mask lies within the frame. A
/// diagonal beyond `u32::MAX` is an error.
pub fn text_frame(width: u32, height: u32) -> (r: Result<Frame, GeometryError>)
    ensures
        match r {
            Ok(frame) => {
                &&& is_diagonal(frame.side as int, width as int, height as int)
                &&& frame.left == frame.side / 2 - width / 2
                &&& frame.top == frame.side / 2 - height / 2
                &&& frame.left + width <= frame.side
                &&& frame.top + height <= frame.side
            },
            Err(e) => e == GeometryError::FrameTooLarge && u32::MAX * u32::MAX < width * width
                + height * height,
        },
{
    let w: u128 = width as u128;
    let h: u128 = height as u128;
    assert(w * w <= 0xffff_ffff * 0xffff_ffff && h * h <= 0xffff_ffff * 0xffff_ffff)
        by (nonlinear_arith)
        requires
            w <= 0xffff_ffff,
            h <= 0xffff_ffff,
    ;
    let area: u128 = w * w + h * h;
    let mut low: u128 = 0;
    let mut high: u128 = 0x2_0000_0000;
    assert(high * high == 0x4_0000_0000_0000_0000) by (nonlinear_arith)
        requires
            high == 0x2_0000_0000,
    ;
    while low < high
        invariant
            low <= high <= 0x2_0000_0000,
            high * high >= area,
            low > 0 ==> (low - 1) * (low - 1) < area,
        decreases high - low,
    {
        let middle: u128 = low + (high - low) / 2;
        assert(middle * middle <= 0x2_0000_0000 * 0x2_0000_0000) by (nonlinear_arith)
            requires
                middle <= 0x2_0000_0000,
        ;
        if middle * middle >= area {
            high = middle;
        } else {
            low = middle + 1;
        }
    }
    if low > u32::MAX as u128 {
        assert((low - 1) * (low - 1) >= 0xffff_ffff * 0xffff_ffff) by (nonlinear_arith)
            requires
                low - 1 >= 0xffff_ffff,
        ;
        return Err(GeometryError::FrameTooLarge);
    }
    let side: u32 = low as u32;
    assert(side >= width && side >= height) by (nonlinear_arith)
        requires
            side * side >= width * width + height * height,
            0 <= side,
            0 <= width,
            0 <= height,
    ;
    Ok(Frame { side, left: side / 2 - width / 2, top: side / 2 - height / 2 })
}

} // verus!
