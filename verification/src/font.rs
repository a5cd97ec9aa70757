//! Font atlas construction: the character set taken from a TrueType face,
//! the face metrics and kerning pairs read from it, and the packing of
//! glyph bitmaps into a grid of fixed-size cells.
use vstd::prelude::*;

verus! {

/// Side in pixels of one glyph bitmap.
pub const MSDF_GLYPH_SIZE: usize = 48;

/// Empty pixels on each side of a glyph inside its atlas cell.
pub const GLYPH_PADDING: usize = 2;

/// Side in pixels of one atlas cell: the glyph plus padding on both sides.
pub const GLYPH_CELL_SIZE: usize = 52;

/// Bytes of one RGBA glyph bitmap.
pub const GLYPH_BITMAP_BYTES: usize = 9216;

/// Most glyph bitmaps an atlas is packed from (its byte size must fit in 32 bits).
pub const MAX_ATLAS_GLYPHS: usize = 262144;

/// Index of channel `c` of pixel `(x, y)` in an RGBA image `w` pixels wide.
pub open spec fn px_index(w: int, x: int, y: int, c: int) -> int {
    (y * w + x) * 4 + c
}

/// Distinct pixels and channels of an image have distinct indices.
pub proof fn lemma_px_index_injective(w: int, x1: int, y1: int, c1: int, x2: int, y2: int, c2: int)
    requires
        0 <= x1 < w,
        0 <= x2 < w,
        0 <= y1,
        0 <= y2,
        0 <= c1 < 4,
        0 <= c2 < 4,
        px_index(w, x1, y1, c1) == px_index(w, x2, y2, c2),
    ensures
        x1 == x2,
        y1 == y2,
        c1 == c2,
{
    let a1 = y1 * w + x1;
    let a2 = y2 * w + x2;
    assert(a1 == a2);
    assert(y1 == y2) by (nonlinear_arith)
        requires
            y1 * w + x1 == y2 * w + x2,
            0 <= x1 < w,
            0 <= x2 < w,
            0 <= y1,
            0 <= y2,
    ;
}

/// Every pixel and channel of a `w` x `h` image lies inside its bytes.
pub proof fn lemma_px_index_bound(w: int, h: int, x: int, y: int, c: int)
    requires
        0 <= x < w,
        0 <= y < h,
        0 <= c < 4,
    ensures
        0 <= y * w <= (h - 1) * w,
        0 <= px_index(w, x, y, c) < w * h * 4,
{
    assert(0 <= y * w <= (h - 1) * w) by (nonlinear_arith)
        requires
            0 <= x < w,
            0 <= y < h,
    ;
    assert(0 <= px_index(w, x, y, c) < w * h * 4) by (nonlinear_arith)
        requires
            0 <= x < w,
            0 <= y < h,
            0 <= c < 4,
            0 <= y * w <= (h - 1) * w,
    ;
}

/// Whether pixel `(x, y)` lies in the glyph square whose corner is `(cx, cy)`.
pub open spec fn in_glyph_rect(x: int, y: int, cx: int, cy: int) -> bool {
    cx <= x < cx + MSDF_GLYPH_SIZE && cy <= y < cy + MSDF_GLYPH_SIZE
}

/// Byte `c` of pixel `(x, y)` of a glyph bitmap placed with its corner at `(cx, cy)`.
pub open spec fn glyph_byte_index(x: int, y: int, cx: int, cy: int, c: int) -> int {
    ((y - cy) * MSDF_GLYPH_SIZE + (x - cx)) * 4 + c
}

/// Corner of the glyph in atlas cell `k` of a grid `cols` cells wide (cells
/// are filled row by row).
pub open spec fn cell_x(k: int, cols: int) -> int {
    (k % cols) * GLYPH_CELL_SIZE + GLYPH_PADDING
}

pub open spec fn cell_y(k: int, cols: int) -> int {
    (k / cols) * GLYPH_CELL_SIZE + GLYPH_PADDING
}

/// A pixel lies in the glyph square of at most one cell.
pub proof fn lemma_glyph_rects_disjoint(k1: int, k2: int, cols: int, x: int, y: int)
    requires
        cols > 0,
        k1 >= 0,
        k2 >= 0,
        in_glyph_rect(x, y, cell_x(k1, cols), cell_y(k1, cols)),
        in_glyph_rect(x, y, cell_x(k2, cols), cell_y(k2, cols)),
    ensures
        k1 == k2,
{
    let m1 = k1 % cols;
    let m2 = k2 % cols;
    let q1 = k1 / cols;
    let q2 = k2 / cols;
    assert(m1 == m2) by (nonlinear_arith)
        requires
            m1 * 52 + 2 <= x < m1 * 52 + 50,
            m2 * 52 + 2 <= x < m2 * 52 + 50,
    ;
    assert(q1 == q2) by (nonlinear_arith)
        requires
            q1 * 52 + 2 <= y < q1 * 52 + 50,
            q2 * 52 + 2 <= y < q2 * 52 + 50,
    ;
    vstd::arithmetic::div_mod::lemma_fundamental_div_mod(k1, cols);
    vstd::arithmetic::div_mod::lemma_fundamental_div_mod(k2, cols);
}

/// The glyph square of cell `k` lies inside an atlas of `cols` x `rows`
/// cells when `k < cols * rows`.
pub proof fn lemma_cell_inside_atlas(k: int, cols: int, rows: int)
    requires
        cols > 0,
        0 <= k < cols * rows,
    ensures
        0 <= cell_x(k, cols),
        cell_x(k, cols) + MSDF_GLYPH_SIZE <= cols * GLYPH_CELL_SIZE,
        0 <= cell_y(k, cols),
        cell_y(k, cols) + MSDF_GLYPH_SIZE <= rows * GLYPH_CELL_SIZE,
{
    let m = k % cols;
    let q = k / cols;
    vstd::arithmetic::div_mod::lemma_fundamental_div_mod(k, cols);
    assert(0 <= m < cols);
    assert(q >= 0) by (nonlinear_arith)
        requires
            k == cols * q + m,
            0 <= m < cols,
            k >= 0,
    ;
    assert(q < rows) by (nonlinear_arith)
        requires
            k == cols * q + m,
            0 <= m < cols,
            k < cols * rows,
            cols > 0,
    ;
    assert(m * 52 + 50 <= cols * 52) by (nonlinear_arith)
        requires
            0 <= m < cols,
    ;
    assert(q * 52 + 50 <= rows * 52) by (nonlinear_arith)
        requires
            0 <= q < rows,
    ;
    assert(0 <= m * 52 && 0 <= q * 52) by (nonlinear_arith)
        requires
            0 <= m,
            0 <= q,
    ;
}

/// Copies a 48 x 48 RGBA glyph bitmap into an RGBA atlas `w` x `h` pixels
/// large, with the glyph's corner at `(cx, cy)`; every other byte stays.
pub fn blit_glyph(atlas: &mut Vec<u8>, w: usize, h: usize, cx: usize, cy: usize, bitmap: &Vec<u8>)
    requires
        old(atlas).len() == w * h * 4,
        cx + MSDF_GLYPH_SIZE <= w,
        cy + MSDF_GLYPH_SIZE <= h,
        bitmap.len() >= GLYPH_BITMAP_BYTES,
    ensures
        final(atlas).len() == old(atlas).len(),
        forall|x: int, y: int, c: int|
            0 <= x < w && 0 <= y < h && 0 <= c < 4 ==> #[trigger] final(atlas)@[px_index(w as int, x, y, c)]
                == if in_glyph_rect(x, y, cx as int, cy as int) {
                bitmap@[glyph_byte_index(x, y, cx as int, cy as int, c)]
            } else {
                old(atlas)@[px_index(w as int, x, y, c)]
            },
{
    let ghost orig = atlas@;
    let mut py: usize = 0;
    while py < MSDF_GLYPH_SIZE
        invariant
            py <= MSDF_GLYPH_SIZE,
            atlas.len() == w * h * 4,
            orig.len() == w * h * 4,
            cx + MSDF_GLYPH_SIZE <= w,
            cy + MSDF_GLYPH_SIZE <= h,
            bitmap.len() >= GLYPH_BITMAP_BYTES,
            forall|x: int, y: int, c: int|
                0 <= x < w && 0 <= y < h && 0 <= c < 4 ==> #[trigger] atlas@[px_index(w as int, x, y, c)]
                    == if in_glyph_rect(x, y, cx as int, cy as int) && y - cy < py {
                    bitmap@[glyph_byte_index(x, y, cx as int, cy as int, c)]
                } else {
                    orig[px_index(w as int, x, y, c)]
                },
        decreases MSDF_GLYPH_SIZE - py,
    {
        let mut px: usize = 0;
        while px < MSDF_GLYPH_SIZE
            invariant
                py < MSDF_GLYPH_SIZE,
                px <= MSDF_GLYPH_SIZE,
                atlas.len() == w * h * 4,
                orig.len() == w * h * 4,
                cx + MSDF_GLYPH_SIZE <= w,
                cy + MSDF_GLYPH_SIZE <= h,
                bitmap.len() >= GLYPH_BITMAP_BYTES,
                forall|x: int, y: int, c: int|
                    0 <= x < w && 0 <= y < h && 0 <= c < 4 ==> #[trigger] atlas@[px_index(w as int, x, y, c)]
                        == if in_glyph_rect(x, y, cx as int, cy as int) && (y - cy < py || (y - cy == py && x
                        - cx < px)) {
                        bitmap@[glyph_byte_index(x, y, cx as int, cy as int, c)]
                    } else {
                        orig[px_index(w as int, x, y, c)]
                    },
            decreases MSDF_GLYPH_SIZE - px,
        {
            let mut ch: usize = 0;
            while ch < 4
                invariant
                    py < MSDF_GLYPH_SIZE,
                    px < MSDF_GLYPH_SIZE,
                    ch <= 4,
                    atlas.len() == w * h * 4,
                    orig.len() == w * h * 4,
                    cx + MSDF_GLYPH_SIZE <= w,
                    cy + MSDF_GLYPH_SIZE <= h,
                    bitmap.len() >= GLYPH_BITMAP_BYTES,
                    forall|x: int, y: int, c: int|
                        0 <= x < w && 0 <= y < h && 0 <= c < 4 ==> #[trigger] atlas@[px_index(w as int, x, y, c)]
                            == if in_glyph_rect(x, y, cx as int, cy as int) && (y - cy < py || (y - cy == py
                            && (x - cx < px || (x - cx == px && c < ch)))) {
                            bitmap@[glyph_byte_index(x, y, cx as int, cy as int, c)]
                        } else {
                            orig[px_index(w as int, x, y, c)]
                        },
                decreases 4 - ch,
            {
                let ax: usize = cx + px;
                let ay: usize = cy + py;
                proof {
                    lemma_px_index_bound(w as int, h as int, ax as int, ay as int, ch as int);
                }
                let row_start: usize = ay * w;
                let dest: usize = (row_start + ax) * 4 + ch;
                let src: usize = (py * MSDF_GLYPH_SIZE + px) * 4 + ch;
                let v: u8 = bitmap[src];
                let ghost prev = atlas@;
                atlas.set(dest, v);
                proof {
                    assert forall|x: int, y: int, c: int|
                        0 <= x < w && 0 <= y < h && 0 <= c < 4 implies #[trigger] atlas@[px_index(
                            w as int,
                            x,
                            y,
                            c,
                        )] == if in_glyph_rect(x, y, cx as int, cy as int) && (y - cy < py || (y - cy
                            == py && (x - cx < px || (x - cx == px && c < ch + 1)))) {
                            bitmap@[glyph_byte_index(x, y, cx as int, cy as int, c)]
                        } else {
                            orig[px_index(w as int, x, y, c)]
                        } by {
                        lemma_px_index_bound(w as int, h as int, x, y, c);
                        assert(prev[px_index(w as int, x, y, c)] == if in_glyph_rect(x, y, cx as int, cy as int)
                            && (y - cy < py || (y - cy == py && (x - cx < px || (x - cx == px && c < ch)))) {
                            bitmap@[glyph_byte_index(x, y, cx as int, cy as int, c)]
                        } else {
                            orig[px_index(w as int, x, y, c)]
                        });
                        if px_index(w as int, x, y, c) == dest as int {
                            lemma_px_index_injective(w as int, x, y, c, ax as int, ay as int, ch as int);
                        }
                    }
                }
                ch = ch + 1;
            }
            px = px + 1;
        }
        py = py + 1;
    }
}

/// Number of glyphs in `s` that have a bitmap.
pub open spec fn spec_visible_count(s: Seq<Option<Vec<u8>>>) -> nat
    decreases s.len(),
{
    if s.len() == 0 {
        0
    } else {
        spec_visible_count(s.drop_last()) + if s.last() is Some { 1nat } else { 0nat }
    }
}

/// Number of glyphs before index `i` that have a bitmap: the atlas cell of
/// glyph `i`, when it has one.
pub open spec fn spec_visible_before(s: Seq<Option<Vec<u8>>>, i: int) -> nat {
    spec_visible_count(s.subrange(0, i))
}

proof fn lemma_visible_step(s: Seq<Option<Vec<u8>>>, i: int)
    requires
        0 <= i < s.len(),
    ensures
        spec_visible_before(s, i + 1) == spec_visible_before(s, i) + if s[i] is Some { 1nat } else { 0nat },
{
    assert(s.subrange(0, i + 1).drop_last() =~= s.subrange(0, i));
}

proof fn lemma_visible_mono(s: Seq<Option<Vec<u8>>>, j: int, i: int)
    requires
        0 <= j <= i <= s.len(),
    ensures
        spec_visible_before(s, j) <= spec_visible_before(s, i),
    decreases i - j,
{
    if j < i {
        lemma_visible_mono(s, j, i - 1);
        lemma_visible_step(s, i - 1);
    }
}

/// Glyphs with bitmaps get distinct, increasing cells.
pub proof fn lemma_visible_strict(s: Seq<Option<Vec<u8>>>, j: int, i: int)
    requires
        0 <= j < i <= s.len(),
        s[j] is Some,
    ensures
        spec_visible_before(s, j) < spec_visible_before(s, i),
{
    lemma_visible_step(s, j);
    lemma_visible_mono(s, j + 1, i);
}

proof fn lemma_visible_all(s: Seq<Option<Vec<u8>>>)
    ensures
        spec_visible_before(s, s.len() as int) == spec_visible_count(s),
{
    assert(s.subrange(0, s.len() as int) =~= s);
}

proof fn lemma_visible_le(s: Seq<Option<Vec<u8>>>, i: int)
    requires
        0 <= i <= s.len(),
    ensures
        spec_visible_before(s, i) <= i,
    decreases i,
{
    if i > 0 {
        lemma_visible_le(s, i - 1);
        lemma_visible_step(s, i - 1);
    }
}

/// The grid an atlas is laid out on.
#[derive(Debug, Clone, Copy, PartialEq, Eq, Structural)]
pub struct AtlasLayout {
    pub cols: u32,
    pub rows: u32,
    /// Atlas width in pixels.
    pub width: u32,
    /// Atlas height in pixels.
    pub height: u32,
}

/// The grid for `visible` glyphs: the fewest columns whose square holds them
/// all (one for none), as many rows as needed, cells of `GLYPH_CELL_SIZE`.
pub open spec fn spec_layout_ok(visible: nat, l: AtlasLayout) -> bool {
    &&& visible == 0 ==> l.cols == 1 && l.rows == 1
    &&& visible > 0 ==> {
        &&& l.cols * l.cols >= visible
        &&& (l.cols - 1) * (l.cols - 1) < visible
        &&& l.rows == (visible + l.cols - 1) / (l.cols as int)
    }
    &&& l.width == l.cols * GLYPH_CELL_SIZE
    &&& l.height == l.rows * GLYPH_CELL_SIZE
}

/// The atlas grid for `visible` glyph bitmaps.
pub fn atlas_layout(visible: usize) -> (l: AtlasLayout)
    requires
        visible <= MAX_ATLAS_GLYPHS,
    ensures
        spec_layout_ok(visible as nat, l),
        1 <= l.cols <= 512,
        1 <= l.rows <= l.cols,
        l.cols * l.rows >= visible,
        l.width * l.height * 4 <= u32::MAX,
{
    if visible == 0 {
        return AtlasLayout { cols: 1, rows: 1, width: 52, height: 52 };
    }
    let mut c: u32 = 1;
    let mut sq: usize = 1;
    while sq < visible
        invariant
            1 <= c <= 512,
            sq == c * c,
            0 < visible <= MAX_ATLAS_GLYPHS,
            (c - 1) * (c - 1) < visible,
        decreases 512 - c,
    {
        assert(c < 512) by (nonlinear_arith)
            requires
                c * c < visible,
                visible <= 262144,
                c >= 1,
        ;
        assert((c + 1) * (c + 1) == c * c + 2 * c + 1) by (nonlinear_arith);
        sq = sq + 2 * (c as usize) + 1;
        c = c + 1;
    }
    let v: u32 = visible as u32;
    let rows: u32 = (v + (c - 1)) / c;
    assert(c * rows >= v && rows <= c && rows >= 1) by (nonlinear_arith)
        requires
            rows == (v + (c - 1)) / (c as int),
            c * c >= v,
            c >= 1,
            v >= 1,
    ;
    let width: u32 = c * 52;
    let height: u32 = rows * 52;
    assert(width * height * 4 <= u32::MAX) by (nonlinear_arith)
        requires
            width == c * 52,
            height == rows * 52,
            1 <= rows <= c,
            c <= 512,
    ;
    AtlasLayout { cols: c, rows, width, height }
}

/// Whether pixel `(x, y)` lies in the glyph square of one of the first `n`
/// glyphs that have bitmaps.
pub open spec fn spec_covered(s: Seq<Option<Vec<u8>>>, n: int, cols: int, x: int, y: int) -> bool {
    exists|j: int|
        0 <= j < n && s[j] is Some && #[trigger] in_glyph_rect(
            x,
            y,
            cell_x(spec_visible_before(s, j) as int, cols),
            cell_y(spec_visible_before(s, j) as int, cols),
        )
}

/// A packed atlas: its grid, its RGBA pixels, and per glyph the corner of
/// its square in the atlas, if it has a bitmap.
pub struct AtlasPacking {
    pub layout: AtlasLayout,
    pub pixels: Vec<u8>,
    pub cells: Vec<Option<(u32, u32)>>,
}

/// Packs the glyph bitmaps into an atlas: glyph `i` with a bitmap goes to
/// cell `k`, `k` being the number of glyphs with bitmaps before it, cells
/// filled row by row; its 48 x 48 pixels land 2 pixels inside the cell;
/// every pixel outside all glyph squares is zero.
pub fn pack_atlas(bitmaps: &Vec<Option<Vec<u8>>>) -> (r: AtlasPacking)
    requires
        bitmaps.len() <= MAX_ATLAS_GLYPHS,
        forall|i: int| 0 <= i < bitmaps.len() && (#[trigger] bitmaps@[i]) is Some ==> bitmaps@[i]->0.len() >= GLYPH_BITMAP_BYTES,
    ensures
        spec_layout_ok(spec_visible_count(bitmaps@), r.layout),
        r.pixels.len() == r.layout.width * r.layout.height * 4,
        r.cells.len() == bitmaps.len(),
        forall|j: int|
            0 <= j < bitmaps.len() && (#[trigger] bitmaps@[j]) is Some ==> cell_x(
                spec_visible_before(bitmaps@, j) as int,
                r.layout.cols as int,
            ) + MSDF_GLYPH_SIZE <= r.layout.width && cell_y(
                spec_visible_before(bitmaps@, j) as int,
                r.layout.cols as int,
            ) + MSDF_GLYPH_SIZE <= r.layout.height,
        forall|j: int|
            0 <= j < bitmaps.len() ==> #[trigger] r.cells@[j] == if bitmaps@[j] is Some {
                Some(
                    (
                        cell_x(spec_visible_before(bitmaps@, j) as int, r.layout.cols as int) as u32,
                        cell_y(spec_visible_before(bitmaps@, j) as int, r.layout.cols as int) as u32,
                    ),
                )
            } else {
                None
            },
        forall|j: int, x: int, y: int, c: int|
            #![trigger bitmaps@[j], r.pixels@[px_index(r.layout.width as int, x, y, c)]]
            0 <= j < bitmaps.len() && bitmaps@[j] is Some && 0 <= c < 4 && in_glyph_rect(
                x,
                y,
                cell_x(spec_visible_before(bitmaps@, j) as int, r.layout.cols as int),
                cell_y(spec_visible_before(bitmaps@, j) as int, r.layout.cols as int),
            ) ==> r.pixels@[px_index(r.layout.width as int, x, y, c)] == bitmaps@[j]->0@[glyph_byte_index(
                x,
                y,
                cell_x(spec_visible_before(bitmaps@, j) as int, r.layout.cols as int),
                cell_y(spec_visible_before(bitmaps@, j) as int, r.layout.cols as int),
                c,
            )],
        forall|x: int, y: int, c: int|
            0 <= x < r.layout.width && 0 <= y < r.layout.height && 0 <= c < 4 && !spec_covered(
                bitmaps@,
                bitmaps.len() as int,
                r.layout.cols as int,
                x,
                y,
            ) ==> #[trigger] r.pixels@[px_index(r.layout.width as int, x, y, c)] == 0,
{
    let ghost s = bitmaps@;
    let mut n: usize = 0;
    let mut i: usize = 0;
    while i < bitmaps.len()
        invariant
            i <= bitmaps.len(),
            s == bitmaps@,
            n == spec_visible_before(s, i as int),
            n <= i,
        decreases bitmaps.len() - i,
    {
        proof {
            lemma_visible_step(s, i as int);
        }
        if bitmaps[i].is_some() {
            n = n + 1;
        }
        i = i + 1;
    }
    proof {
        lemma_visible_all(s);
    }
    let layout = atlas_layout(n);
    let cols: usize = layout.cols as usize;
    let rows: usize = layout.rows as usize;
    let w: usize = layout.width as usize;
    let h: usize = layout.height as usize;
    let total: usize = w * h * 4;
    let mut pixels: Vec<u8> = Vec::new();
    while pixels.len() < total
        invariant
            pixels.len() <= total,
            forall|p: int| 0 <= p < pixels.len() ==> #[trigger] pixels@[p] == 0,
        decreases total - pixels.len(),
    {
        pixels.push(0);
    }
    proof {
        assert forall|x: int, y: int, c: int|
            0 <= x < w && 0 <= y < h && 0 <= c < 4 implies #[trigger] pixels@[px_index(w as int, x, y, c)] == 0 by {
            lemma_px_index_bound(w as int, h as int, x, y, c);
        }
    }
    let mut cells: Vec<Option<(u32, u32)>> = Vec::new();
    let mut vi: usize = 0;
    i = 0;
    while i < bitmaps.len()
        invariant
            i <= bitmaps.len(),
            s == bitmaps@,
            bitmaps.len() <= MAX_ATLAS_GLYPHS,
            forall|k: int| 0 <= k < bitmaps.len() && (#[trigger] bitmaps@[k]) is Some ==> bitmaps@[k]->0.len() >= GLYPH_BITMAP_BYTES,
            n == spec_visible_count(s),
            n == spec_visible_before(s, bitmaps.len() as int),
            spec_layout_ok(n as nat, layout),
            cols == layout.cols,
            rows == layout.rows,
            w == layout.width,
            h == layout.height,
            1 <= cols <= 512,
            cols * rows >= n,
            total == w * h * 4,
            w == cols * 52,
            h == rows * 52,
            vi == spec_visible_before(s, i as int),
            pixels.len() == total,
            cells.len() == i,
            forall|j: int|
                0 <= j < i ==> #[trigger] cells@[j] == if s[j] is Some {
                    Some(
                        (
                            cell_x(spec_visible_before(s, j) as int, cols as int) as u32,
                            cell_y(spec_visible_before(s, j) as int, cols as int) as u32,
                        ),
                    )
                } else {
                    None
                },
            forall|j: int, x: int, y: int, c: int|
                #![trigger s[j], pixels@[px_index(w as int, x, y, c)]]
                0 <= j < i && s[j] is Some && 0 <= c < 4 && in_glyph_rect(
                    x,
                    y,
                    cell_x(spec_visible_before(s, j) as int, cols as int),
                    cell_y(spec_visible_before(s, j) as int, cols as int),
                ) ==> pixels@[px_index(w as int, x, y, c)] == s[j]->0@[glyph_byte_index(
                    x,
                    y,
                    cell_x(spec_visible_before(s, j) as int, cols as int),
                    cell_y(spec_visible_before(s, j) as int, cols as int),
                    c,
                )],
            forall|x: int, y: int, c: int|
                0 <= x < w && 0 <= y < h && 0 <= c < 4 && !spec_covered(s, i as int, cols as int, x, y)
                    ==> #[trigger] pixels@[px_index(w as int, x, y, c)] == 0,
        decreases bitmaps.len() - i,
    {
        proof {
            lemma_visible_step(s, i as int);
            lemma_visible_mono(s, i as int + 1, bitmaps.len() as int);
        }
        match &bitmaps[i] {
            Some(bitmap) => {
                let k: usize = vi;
                proof {
                    lemma_cell_inside_atlas(k as int, cols as int, rows as int);
                }
                let cx: usize = (k % cols) * 52 + 2;
                let cy: usize = (k / cols) * 52 + 2;
                let ghost before = pixels@;
                blit_glyph(&mut pixels, w, h, cx, cy, bitmap);
                proof {
                    assert forall|j: int, x: int, y: int, c: int|
                        #![trigger s[j], pixels@[px_index(w as int, x, y, c)]]
                        0 <= j < i + 1 && s[j] is Some && 0 <= c < 4 && in_glyph_rect(
                            x,
                            y,
                            cell_x(spec_visible_before(s, j) as int, cols as int),
                            cell_y(spec_visible_before(s, j) as int, cols as int),
                        ) implies pixels@[px_index(w as int, x, y, c)] == s[j]->0@[glyph_byte_index(
                            x,
                            y,
                            cell_x(spec_visible_before(s, j) as int, cols as int),
                            cell_y(spec_visible_before(s, j) as int, cols as int),
                            c,
                        )] by {
                        let kj = spec_visible_before(s, j) as int;
                        lemma_visible_le(s, j);
                        lemma_visible_mono(s, j, bitmaps.len() as int);
                        if j < i {
                            lemma_visible_strict(s, j, i as int);
                            lemma_visible_step(s, j);
                            lemma_visible_mono(s, j + 1, bitmaps.len() as int);
                        }
                        lemma_cell_inside_atlas(kj, cols as int, rows as int);
                        if j < i {
                            if in_glyph_rect(x, y, cx as int, cy as int) {
                                lemma_glyph_rects_disjoint(kj, k as int, cols as int, x, y);
                            }
                            assert(before[px_index(w as int, x, y, c)] == s[j]->0@[glyph_byte_index(
                                x,
                                y,
                                cell_x(kj, cols as int),
                                cell_y(kj, cols as int),
                                c,
                            )]);
                        }
                        assert(pixels@[px_index(w as int, x, y, c)] == if in_glyph_rect(x, y, cx as int, cy as int) {
                            bitmap@[glyph_byte_index(x, y, cx as int, cy as int, c)]
                        } else {
                            before[px_index(w as int, x, y, c)]
                        });
                    }
                    assert forall|x: int, y: int, c: int|
                        0 <= x < w && 0 <= y < h && 0 <= c < 4 && !spec_covered(s, i + 1, cols as int, x, y)
                            implies #[trigger] pixels@[px_index(w as int, x, y, c)] == 0 by {
                        if in_glyph_rect(x, y, cx as int, cy as int) {
                            assert(in_glyph_rect(
                                x,
                                y,
                                cell_x(spec_visible_before(s, i as int) as int, cols as int),
                                cell_y(spec_visible_before(s, i as int) as int, cols as int),
                            ));
                            assert(spec_covered(s, i + 1, cols as int, x, y));
                        }
                        if spec_covered(s, i as int, cols as int, x, y) {
                            let j = choose|j: int|
                                0 <= j < i && s[j] is Some && #[trigger] in_glyph_rect(
                                    x,
                                    y,
                                    cell_x(spec_visible_before(s, j) as int, cols as int),
                                    cell_y(spec_visible_before(s, j) as int, cols as int),
                                );
                            assert(spec_covered(s, i + 1, cols as int, x, y));
                        }
                        assert(before[px_index(w as int, x, y, c)] == 0);
                    }
                }
                cells.push(Some((cx as u32, cy as u32)));
                vi = vi + 1;
            },
            None => {
                cells.push(None);
                proof {
                    assert forall|x: int, y: int, c: int|
                        0 <= x < w && 0 <= y < h && 0 <= c < 4 && !spec_covered(s, i + 1, cols as int, x, y)
                            implies #[trigger] pixels@[px_index(w as int, x, y, c)] == 0 by {
                        if spec_covered(s, i as int, cols as int, x, y) {
                            let j = choose|j: int|
                                0 <= j < i && s[j] is Some && #[trigger] in_glyph_rect(
                                    x,
                                    y,
                                    cell_x(spec_visible_before(s, j) as int, cols as int),
                                    cell_y(spec_visible_before(s, j) as int, cols as int),
                                );
                            assert(spec_covered(s, i + 1, cols as int, x, y));
                        }
                    }
                }
            },
        }
        i = i + 1;
    }
    proof {
        assert forall|j: int| 0 <= j < bitmaps.len() && (#[trigger] bitmaps@[j]) is Some implies cell_x(
            spec_visible_before(bitmaps@, j) as int,
            cols as int,
        ) + MSDF_GLYPH_SIZE <= w && cell_y(spec_visible_before(bitmaps@, j) as int, cols as int)
            + MSDF_GLYPH_SIZE <= h by {
            lemma_visible_strict(s, j, bitmaps.len() as int);
            lemma_visible_le(s, j);
            lemma_cell_inside_atlas(spec_visible_before(s, j) as int, cols as int, rows as int);
        }
    }
    AtlasPacking { layout, pixels, cells }
}

/// The error `ttf_parser::Face::parse` reports for data it rejects.
#[verifier::external_type_specification]
#[verifier::external_body]
pub struct ExFaceParsingError(ttf_parser::FaceParsingError);

/// Whether `ttf_parser::Face::parse` accepts `data` as face 0.
pub uninterp spec fn ttf_parses(data: Seq<u8>) -> bool;

/// `Face::units_per_em` of the face parsed from `data`.
pub uninterp spec fn ttf_units_per_em(data: Seq<u8>) -> u16;

/// `Face::ascender` of the face parsed from `data`.
pub uninterp spec fn ttf_ascender(data: Seq<u8>) -> i16;

/// `Face::descender` of the face parsed from `data`.
pub uninterp spec fn ttf_descender(data: Seq<u8>) -> i16;

/// `Face::line_gap` of the face parsed from `data`.
pub uninterp spec fn ttf_line_gap(data: Seq<u8>) -> i16;

/// `Face::glyph_index` of `ch` in the face parsed from `data`.
pub uninterp spec fn ttf_glyph_index(data: Seq<u8>, ch: char) -> Option<u16>;

/// `Face::glyph_hor_advance` of a glyph in the face parsed from `data`.
pub uninterp spec fn ttf_glyph_hor_advance(data: Seq<u8>, glyph: u16) -> Option<u16>;

/// `Subtables::len` of the `kern` table of the face parsed from `data`
/// (0 without such a table).
pub uninterp spec fn ttf_kern_subtable_count(data: Seq<u8>) -> u32;

/// The `horizontal` and `variable` flags of the `index`-th `kern` subtable
/// the subtable iterator yields, if it yields that many.
pub uninterp spec fn ttf_kern_subtable_flags(data: Seq<u8>, index: u32) -> Option<(bool, bool)>;

/// `Subtable::glyphs_kerning` of a glyph pair in the `index`-th `kern`
/// subtable, if the iterator yields that many.
pub uninterp spec fn ttf_glyphs_kerning(data: Seq<u8>, index: u32, left: u16, right: u16) -> Option<i16>;

/// Calls `ttf_parser::Face::parse(data, 0)`, keeping only whether it
/// succeeded and its error. Claimed: it succeeds exactly for the data that
/// `ttf_parses` names.
#[verifier::external_body]
fn face_parse(data: &[u8]) -> (r: Result<(), ttf_parser::FaceParsingError>)
    ensures
        r is Ok == ttf_parses(data@),
{
    match ttf_parser::Face::parse(data, 0) {
        Ok(_) => Ok(()),
        Err(e) => Err(e),
    }
}

/// Parses `data` and calls `Face::units_per_em`. Claimed: the value named
/// `ttf_units_per_em` when the data parses, which the crate's
/// documentation guarantees to lie in 16..=16384; `None` otherwise.
#[verifier::external_body]
fn face_units_per_em(data: &[u8]) -> (r: Option<u16>)
    ensures
        ttf_parses(data@) ==> r == Some(ttf_units_per_em(data@)),
        !ttf_parses(data@) ==> r.is_none(),
        r matches Some(u) ==> 16 <= u <= 16384,
{
    match ttf_parser::Face::parse(data, 0) {
        Ok(face) => Some(face.units_per_em()),
        Err(_) => None,
    }
}

/// Parses `data` and calls `Face::ascender`. Claimed: the value named
/// `ttf_ascender` when the data parses, `None` otherwise.
#[verifier::external_body]
fn face_ascender(data: &[u8]) -> (r: Option<i16>)
    ensures
        ttf_parses(data@) ==> r == Some(ttf_ascender(data@)),
        !ttf_parses(data@) ==> r.is_none(),
{
    match ttf_parser::Face::parse(data, 0) {
        Ok(face) => Some(face.ascender()),
        Err(_) => None,
    }
}

/// Parses `data` and calls `Face::descender`. Claimed: the value named
/// `ttf_descender` when the data parses, `None` otherwise.
#[verifier::external_body]
fn face_descender(data: &[u8]) -> (r: Option<i16>)
    ensures
        ttf_parses(data@) ==> r == Some(ttf_descender(data@)),
        !ttf_parses(data@) ==> r.is_none(),
{
    match ttf_parser::Face::parse(data, 0) {
        Ok(face) => Some(face.descender()),
        Err(_) => None,
    }
}

/// Parses `data` and calls `Face::line_gap`. Claimed: the value named
/// `ttf_line_gap` when the data parses, `None` otherwise.
#[verifier::external_body]
fn face_line_gap(data: &[u8]) -> (r: Option<i16>)
    ensures
        ttf_parses(data@) ==> r == Some(ttf_line_gap(data@)),
        !ttf_parses(data@) ==> r.is_none(),
{
    match ttf_parser::Face::parse(data, 0) {
        Ok(face) => Some(face.line_gap()),
        Err(_) => None,
    }
}

/// Parses `data` and calls `Face::glyph_index(ch)`, giving the glyph id's
/// number. Claimed: the value named `ttf_glyph_index` when the data parses,
/// `None` otherwise.
#[verifier::external_body]
fn face_glyph_index(data: &[u8], ch: char) -> (r: Option<u16>)
    ensures
        ttf_parses(data@) ==> r == ttf_glyph_index(data@, ch),
        !ttf_parses(data@) ==> r.is_none(),
{
    match ttf_parser::Face::parse(data, 0) {
        Ok(face) => match face.glyph_index(ch) {
            Some(g) => Some(g.0),
            None => None,
        },
        Err(_) => None,
    }
}

/// Parses `data` and calls `Face::glyph_hor_advance` on glyph `glyph`.
/// Claimed: the value named `ttf_glyph_hor_advance` when the data parses,
/// `None` otherwise.
#[verifier::external_body]
fn face_glyph_hor_advance(data: &[u8], glyph: u16) -> (r: Option<u16>)
    ensures
        ttf_parses(data@) ==> r == ttf_glyph_hor_advance(data@, glyph),
        !ttf_parses(data@) ==> r.is_none(),
{
    match ttf_parser::Face::parse(data, 0) {
        Ok(face) => face.glyph_hor_advance(ttf_parser::GlyphId(glyph)),
        Err(_) => None,
    }
}

/// Parses `data` and calls `Subtables::len` on its `kern` table. Claimed:
/// the value named `ttf_kern_subtable_count` when the data parses, 0
/// otherwise.
#[verifier::external_body]
fn face_kern_subtable_count(data: &[u8]) -> (r: u32)
    ensures
        ttf_parses(data@) ==> r == ttf_kern_subtable_count(data@),
        !ttf_parses(data@) ==> r == 0,
{
    match ttf_parser::Face::parse(data, 0) {
        Ok(face) => match face.tables().kern {
            Some(kern) => kern.subtables.len(),
            None => 0,
        },
        Err(_) => 0,
    }
}

/// Parses `data` and takes the `index`-th item of its `kern` subtable
/// iterator, giving its `horizontal` and `variable` flags. Claimed: the
/// value named `ttf_kern_subtable_flags` when the data parses, `None`
/// otherwise.
#[verifier::external_body]
fn face_kern_subtable_flags(data: &[u8], index: u32) -> (r: Option<(bool, bool)>)
    ensures
        ttf_parses(data@) ==> r == ttf_kern_subtable_flags(data@, index),
        !ttf_parses(data@) ==> r.is_none(),
{
    match ttf_parser::Face::parse(data, 0) {
        Ok(face) => match face.tables().kern {
            Some(kern) => kern.subtables.into_iter().nth(index as usize).map(|st| (st.horizontal, st.variable)),
            None => None,
        },
        Err(_) => None,
    }
}

/// Parses `data`, takes the `index`-th `kern` subtable and calls
/// `Subtable::glyphs_kerning` on the glyph pair. Claimed: the value named
/// `ttf_glyphs_kerning` when the data parses, `None` otherwise.
#[verifier::external_body]
fn face_glyphs_kerning(data: &[u8], index: u32, left: u16, right: u16) -> (r: Option<i16>)
    ensures
        ttf_parses(data@) ==> r == ttf_glyphs_kerning(data@, index, left, right),
        !ttf_parses(data@) ==> r.is_none(),
{
    let face = match ttf_parser::Face::parse(data, 0) {
        Ok(face) => face,
        Err(_) => return None,
    };
    match face.tables().kern {
        Some(kern) => match kern.subtables.into_iter().nth(index as usize) {
            Some(st) => st.glyphs_kerning(ttf_parser::GlyphId(left), ttf_parser::GlyphId(right)),
            None => None,
        },
        None => None,
    }
}

/// Face-wide metrics in font units.
#[derive(Debug, Clone, Copy, PartialEq, Eq, Structural)]
pub struct FaceMetrics {
    pub units_per_em: u16,
    pub ascender: i16,
    pub descender: i16,
    pub line_gap: i16,
}

/// Why a font could not be read.
#[derive(Debug)]
pub enum FontError {
    /// The TrueType parser rejected the data.
    Parse(ttf_parser::FaceParsingError),
}

/// The metrics of the face in `data`.
pub open spec fn spec_face_metrics(data: Seq<u8>) -> FaceMetrics {
    FaceMetrics {
        units_per_em: ttf_units_per_em(data),
        ascender: ttf_ascender(data),
        descender: ttf_descender(data),
        line_gap: ttf_line_gap(data),
    }
}

/// Parses the face and reads its metrics; fails exactly when the parser
/// rejects the data.
pub fn read_face_metrics(data: &[u8]) -> (r: Result<FaceMetrics, FontError>)
    ensures
        r is Ok == ttf_parses(data@),
        r matches Ok(m) ==> m == spec_face_metrics(data@) && 16 <= m.units_per_em <= 16384,
{
    match face_parse(data) {
        Err(e) => Err(FontError::Parse(e)),
        Ok(()) => {
            let units_per_em = face_units_per_em(data).unwrap();
            let ascender = face_ascender(data).unwrap();
            let descender = face_descender(data).unwrap();
            let line_gap = face_line_gap(data).unwrap();
            Ok(FaceMetrics { units_per_em, ascender, descender, line_gap })
        },
    }
}

/// Number of candidate code points of the character set: printable Basic
/// Latin (0x20..=0x7E) and Latin-1 Supplement (0xA0..=0xFF).
pub const CHARSET_CANDIDATES: usize = 190;

/// Candidate `k` of the character set, in code point order.
pub open spec fn spec_charset_candidate(k: int) -> char {
    if k < 95 { ((0x20 + k) as u8) as char } else { ((0xA0 + (k - 95)) as u8) as char }
}

/// Whether the face in `data` has a glyph for `ch`.
pub open spec fn spec_has_glyph(data: Seq<u8>, ch: char) -> bool {
    ttf_parses(data) && ttf_glyph_index(data, ch) is Some
}

/// The candidates among the first `n` that the face has glyphs for, in order.
pub open spec fn spec_charset_upto(data: Seq<u8>, n: nat) -> Seq<char>
    decreases n,
{
    if n == 0 {
        Seq::empty()
    } else {
        let prev = spec_charset_upto(data, (n - 1) as nat);
        let ch = spec_charset_candidate(n - 1);
        if spec_has_glyph(data, ch) { prev.push(ch) } else { prev }
    }
}

/// The character set of a font: the candidates its face has glyphs for.
pub open spec fn spec_charset(data: Seq<u8>) -> Seq<char> {
    spec_charset_upto(data, CHARSET_CANDIDATES as nat)
}

/// The characters of the character set the face in `data` has glyphs for,
/// in code point order.
pub fn font_charset(data: &[u8]) -> (r: Vec<char>)
    ensures
        r@ == spec_charset(data@),
{
    let mut r: Vec<char> = Vec::new();
    let mut k: usize = 0;
    while k < CHARSET_CANDIDATES
        invariant
            k <= CHARSET_CANDIDATES,
            r@ == spec_charset_upto(data@, k as nat),
        decreases CHARSET_CANDIDATES - k,
    {
        let cp: u8 = if k < 95 {
            (0x20 + k) as u8
        } else {
            (0xA0 + (k - 95)) as u8
        };
        let ch: char = cp as char;
        let present = face_glyph_index(data, ch).is_some();
        if present {
            r.push(ch);
        }
        k = k + 1;
    }
    r
}

/// Every character of the set is one the face has a glyph for.
pub proof fn lemma_charset_has_glyphs(data: Seq<u8>, n: nat, i: int)
    requires
        0 <= i < spec_charset_upto(data, n).len(),
    ensures
        spec_has_glyph(data, spec_charset_upto(data, n)[i]),
    decreases n,
{
    if n > 0 {
        let prev = spec_charset_upto(data, (n - 1) as nat);
        if i < prev.len() {
            lemma_charset_has_glyphs(data, (n - 1) as nat, i);
        }
    }
}

/// The horizontal advance of `ch` in font units, 0 when the face gives none.
pub open spec fn spec_glyph_advance(data: Seq<u8>, ch: char) -> u16 {
    match ttf_glyph_hor_advance(data, ttf_glyph_index(data, ch)->0) {
        Some(a) => a,
        None => 0,
    }
}

/// Horizontal advance of a character the face has a glyph for.
pub fn glyph_advance(data: &[u8], ch: char) -> (a: u16)
    requires
        spec_has_glyph(data@, ch),
    ensures
        a == spec_glyph_advance(data@, ch),
{
    let g = face_glyph_index(data, ch).unwrap();
    match face_glyph_hor_advance(data, g) {
        Some(a) => a,
        None => 0,
    }
}

/// Horizontal advance of `ch`, if the face has a glyph for it.
pub fn glyph_advance_of(data: &[u8], ch: char) -> (r: Option<u16>)
    ensures
        r == if spec_has_glyph(data@, ch) {
            Some(spec_glyph_advance(data@, ch))
        } else {
            None
        },
{
    if face_parse(data).is_err() {
        return None;
    }
    if face_glyph_index(data, ch).is_none() {
        return None;
    }
    Some(glyph_advance(data, ch))
}

/// A kerning adjustment in font units between two characters.
#[derive(Debug, Clone, Copy, PartialEq, Eq, Structural)]
pub struct KerningPair {
    pub left: char,
    pub right: char,
    pub value: i16,
}

/// The pair `(left, right)` of subtable `st`, if both have glyphs and the
/// subtable gives them a non-zero kerning.
pub open spec fn spec_kern_entry(data: Seq<u8>, st: u32, left: char, right: char) -> Seq<KerningPair> {
    if ttf_glyph_index(data, left) is Some && ttf_glyph_index(data, right) is Some {
        match ttf_glyphs_kerning(data, st, ttf_glyph_index(data, left)->0, ttf_glyph_index(data, right)->0) {
            Some(v) => if v != 0 { seq![KerningPair { left, right, value: v }] } else { Seq::empty() },
            None => Seq::empty(),
        }
    } else {
        Seq::empty()
    }
}

proof fn lemma_push_is_concat<A>(s: Seq<A>, x: A)
    ensures
        s.push(x) == s + seq![x],
{
    assert(s.push(x) =~= s + seq![x]);
}

proof fn lemma_kern_entry_one(data: Seq<u8>, st: u32, left: char, right: char, v: i16)
    requires
        ttf_glyph_index(data, left) is Some,
        ttf_glyph_index(data, right) is Some,
        ttf_glyphs_kerning(data, st, ttf_glyph_index(data, left)->0, ttf_glyph_index(data, right)->0) == Some(v),
        v != 0,
    ensures
        spec_kern_entry(data, st, left, right) =~= seq![KerningPair { left, right, value: v }],
{
}

/// The pairs of subtable `st` with left character `left`, over `rights` in order.
pub open spec fn spec_kern_row(data: Seq<u8>, st: u32, left: char, rights: Seq<char>) -> Seq<KerningPair>
    decreases rights.len(),
{
    if rights.len() == 0 {
        Seq::empty()
    } else {
        spec_kern_row(data, st, left, rights.drop_last()) + spec_kern_entry(data, st, left, rights.last())
    }
}

/// The pairs of subtable `st` over `lefts` x `chars`, rows in order.
pub open spec fn spec_kern_block(data: Seq<u8>, st: u32, lefts: Seq<char>, chars: Seq<char>) -> Seq<KerningPair>
    decreases lefts.len(),
{
    if lefts.len() == 0 {
        Seq::empty()
    } else {
        spec_kern_block(data, st, lefts.drop_last(), chars) + spec_kern_row(data, st, lefts.last(), chars)
    }
}

/// Whether subtable `st` is used: one for horizontal text that is not variable.
pub open spec fn spec_kern_subtable_used(data: Seq<u8>, st: u32) -> bool {
    ttf_kern_subtable_flags(data, st) == Some((true, false))
}

/// The pairs of the first `n` subtables, each used subtable contributing
/// its block in order.
pub open spec fn spec_kerning_upto(data: Seq<u8>, n: nat, chars: Seq<char>) -> Seq<KerningPair>
    decreases n,
{
    if n == 0 {
        Seq::empty()
    } else {
        let st = (n - 1) as u32;
        spec_kerning_upto(data, (n - 1) as nat, chars) + if spec_kern_subtable_used(data, st) {
            spec_kern_block(data, st, chars, chars)
        } else {
            Seq::empty()
        }
    }
}

/// Every non-zero kerning the used `kern` subtables give to an ordered pair
/// of characters of `chars`, subtable by subtable, left character by left
/// character, right character by right character (a later pair for the same
/// characters supersedes an earlier one). None for data the parser rejects.
pub fn kerning_pairs(data: &[u8], chars: &Vec<char>) -> (r: Vec<KerningPair>)
    ensures
        ttf_parses(data@) ==> r@ == spec_kerning_upto(data@, ttf_kern_subtable_count(data@) as nat, chars@),
        !ttf_parses(data@) ==> r@.len() == 0,
{
    let mut r: Vec<KerningPair> = Vec::new();
    let count = face_kern_subtable_count(data);
    if face_parse(data).is_err() {
        return r;
    }
    let mut st: u32 = 0;
    while st < count
        invariant
            ttf_parses(data@),
            count == ttf_kern_subtable_count(data@),
            st <= count,
            r@ == spec_kerning_upto(data@, st as nat, chars@),
        decreases count - st,
    {
        let ghost base = r@;
        let used = match face_kern_subtable_flags(data, st) {
            Some(flags) => flags.0 && !flags.1,
            None => false,
        };
        if used {
            let mut li: usize = 0;
            while li < chars.len()
                invariant
                    ttf_parses(data@),
                    spec_kern_subtable_used(data@, st),
                    li <= chars.len(),
                    r@ == base + spec_kern_block(data@, st, chars@.take(li as int), chars@),
                decreases chars.len() - li,
            {
                let left = chars[li];
                let ghost row_base = r@;
                let left_gid = face_glyph_index(data, left);
                let mut ri: usize = 0;
                while ri < chars.len()
                    invariant
                        ttf_parses(data@),
                        li < chars.len(),
                        left == chars@[li as int],
                        left_gid == ttf_glyph_index(data@, left),
                        ri <= chars.len(),
                        r@ == row_base + spec_kern_row(data@, st, left, chars@.take(ri as int)),
                    decreases chars.len() - ri,
                {
                    let right = chars[ri];
                    let right_gid = face_glyph_index(data, right);
                    let ghost before = r@;
                    if left_gid.is_some() && right_gid.is_some() {
                        let lg = left_gid.unwrap();
                        let rg = right_gid.unwrap();
                        let k = face_glyphs_kerning(data, st, lg, rg);
                        if k.is_some() {
                            let v = k.unwrap();
                            if v != 0 {
                                r.push(KerningPair { left, right, value: v });
                                proof {
                                    lemma_kern_entry_one(data@, st, left, right, v);
                                    let pair = KerningPair { left, right, value: v };
                                    assert(r@ == before.push(pair));
                                    lemma_push_is_concat(before, pair);
                                    assert(r@ =~= before + spec_kern_entry(data@, st, left, right));
                                }
                            } else {
                                assert(spec_kern_entry(data@, st, left, right) =~= Seq::<KerningPair>::empty());
                                assert(r@ =~= before + spec_kern_entry(data@, st, left, right));
                            }
                        } else {
                            assert(spec_kern_entry(data@, st, left, right) =~= Seq::<KerningPair>::empty());
                        }
                    } else {
                        assert(spec_kern_entry(data@, st, left, right) =~= Seq::<KerningPair>::empty());
                    }
                    proof {
                        assert(chars@.take(ri as int + 1).drop_last() =~= chars@.take(ri as int));
                        assert(chars@.take(ri as int + 1).last() == right);
                        assert(r@ =~= before + spec_kern_entry(data@, st, left, right));
                        assert(r@ =~= row_base + spec_kern_row(data@, st, left, chars@.take(ri as int + 1)));
                    }
                    ri = ri + 1;
                }
                proof {
                    assert(chars@.take(chars.len() as int) =~= chars@);
                    assert(chars@.take(li as int + 1).drop_last() =~= chars@.take(li as int));
                    assert(chars@.take(li as int + 1).last() == left);
                    assert(r@ =~= base + spec_kern_block(data@, st, chars@.take(li as int + 1), chars@));
                }
                li = li + 1;
            }
            proof {
                assert(chars@.take(chars.len() as int) =~= chars@);
            }
        }
        proof {
            assert(r@ =~= spec_kerning_upto(data@, st as nat + 1, chars@));
        }
        st = st + 1;
    }
    r
}

} // verus!
