use vstd::prelude::*;

verus! {

/// The factor by which a new window scales the screen.
pub const BASE_RESOLUTION_SCALAR: usize = 20;

/// A width and a height, in pixels.
#[derive(Debug, Clone, Copy, PartialEq, Eq, Structural)]
pub struct Size {
    pub width: usize,
    pub height: usize,
}

impl Size {
    /// The size `width` by `height`.
    pub fn new(width: usize, height: usize) -> (r: Self)
        ensures
            r.width == width,
            r.height == height,
    {
        Self { width, height }
    }

    /// The width and the height.
    pub fn get(&self) -> (r: (usize, usize))
        ensures
            r == (self.width, self.height),
    {
        (self.width, self.height)
    }

    /// Sets the width and the height.
    pub fn set(&mut self, width: usize, height: usize)
        ensures
            final(self).width == width,
            final(self).height == height,
    {
        self.width = width;
        self.height = height;
    }
}

/// A pixel of a row-major buffer `screen_width` pixels wide: its column
/// `x`, its row `y`, and its place `index` in the buffer.
#[derive(Debug, Clone, Copy)]
pub struct Position {
    pub index: usize,
    pub x: usize,
    pub y: usize,
    pub screen_width: usize,
}

impl Position {
    /// The position at column `x` and row `y` of a buffer `screen_width`
    /// pixels wide.
    pub fn from_coords(x: usize, y: usize, screen_width: usize) -> (r: Self)
        requires
            screen_width * y + x <= usize::MAX,
        ensures
            r.index == screen_width * y + x,
            r.x == x,
            r.y == y,
            r.screen_width == screen_width,
    {
        Self { index: screen_width * y + x, x, y, screen_width }
    }

    /// The position at place `index` of a buffer `screen_width` pixels wide.
    pub fn from_index(index: usize, screen_width: usize) -> (r: Self)
        requires
            screen_width > 0,
        ensures
            r.index == index,
            r.x == index % screen_width,
            r.y == index / screen_width,
            r.screen_width == screen_width,
    {
        Self { index, x: index % screen_width, y: index / screen_width, screen_width }
    }

    fn update_index(&mut self)
        requires
            old(self).screen_width * old(self).y + old(self).x <= usize::MAX,
        ensures
            final(self).index == old(self).screen_width * old(self).y + old(self).x,
            final(self).x == old(self).x,
            final(self).y == old(self).y,
            final(self).screen_width == old(self).screen_width,
    {
        self.index = self.screen_width * self.y + self.x;
    }

    /// The same pixel in the buffer scaled up `factor` times: the top-left
    /// pixel of its enlarged square.
    pub fn scale(self, factor: usize) -> (r: Self)
        requires
            self.screen_width * factor <= usize::MAX,
            self.x * factor <= usize::MAX,
            self.y * factor <= usize::MAX,
            (self.screen_width * factor) * (self.y * factor) + self.x * factor <= usize::MAX,
        ensures
            r.screen_width == self.screen_width * factor,
            r.x == self.x * factor,
            r.y == self.y * factor,
            r.index == r.screen_width * r.y + r.x,
    {
        let mut s = self;
        s.screen_width = s.screen_width * factor;
        s.x = s.x * factor;
        s.y = s.y * factor;
        s.update_index();
        s
    }

    /// The same pixel in the buffer with a margin of `x_margin` columns on
    /// each side and `y_margin` rows above.
    pub fn add_padding(self, x_margin: usize, y_margin: usize) -> (r: Self)
        requires
            self.screen_width + 2 * x_margin <= usize::MAX,
            self.y + y_margin <= usize::MAX,
            self.x + x_margin <= usize::MAX,
            (self.screen_width + 2 * x_margin) * (self.y + y_margin) + self.x + x_margin <= usize::MAX,
        ensures
            r.screen_width == self.screen_width + 2 * x_margin,
            r.x == self.x + x_margin,
            r.y == self.y + y_margin,
            r.index == r.screen_width * r.y + r.x,
    {
        let mut s = self;
        s.screen_width = s.screen_width + x_margin * 2;
        s.x = s.x + x_margin;
        s.y = s.y + y_margin;
        s.update_index();
        s
    }

    /// The width of the buffer the position is in.
    pub fn get_screen_width(&self) -> (r: usize)
        ensures
            r == self.screen_width,
    {
        self.screen_width
    }
}


/// The pixel at column `x` (inside the width) and row `y` is found again
/// from its place in the buffer.
pub proof fn lemma_coords_index_roundtrip(x: int, y: int, w: int)
    requires
        0 <= x < w,
        0 <= y,
    ensures
        (w * y + x) % w == x,
        (w * y + x) / w == y,
{
    assert(w * y == y * w) by (nonlinear_arith);
    vstd::arithmetic::div_mod::lemma_fundamental_div_mod_converse(w * y + x, w, y, x);
}

/// The window size for a screen of `base`: twenty times larger, saturating.
pub fn initial_window_size(base: Size) -> (r: Size)
    ensures
        r.width == (if base.width * BASE_RESOLUTION_SCALAR <= usize::MAX {
            base.width * BASE_RESOLUTION_SCALAR
        } else {
            usize::MAX as int
        }),
        r.height == (if base.height * BASE_RESOLUTION_SCALAR <= usize::MAX {
            base.height * BASE_RESOLUTION_SCALAR
        } else {
            usize::MAX as int
        }),
{
    Size::new(
        saturating_scale(base.width, BASE_RESOLUTION_SCALAR),
        saturating_scale(base.height, BASE_RESOLUTION_SCALAR),
    )
}

/// `a * b`, or `usize::MAX` where the product does not fit.
fn saturating_scale(a: usize, b: usize) -> (r: usize)
    ensures
        r == (if a * b <= usize::MAX {
            a * b
        } else {
            usize::MAX as int
        }),
{
    if b == 0 {
        0
    } else if a > usize::MAX / b {
        proof {
            assert(a * b > usize::MAX) by (nonlinear_arith)
                requires
                    a > usize::MAX / b,
                    b > 0,
            ;
        }
        usize::MAX
    } else {
        proof {
            assert(a * b <= usize::MAX) by (nonlinear_arith)
                requires
                    a <= usize::MAX / b,
                    b > 0,
            ;
        }
        a * b
    }
}

/// The largest whole factor by which the screen `base` fits in `window`.
pub fn fit_scale(window: Size, base: Size) -> (r: usize)
    requires
        base.width > 0,
        base.height > 0,
    ensures
        r == (if window.width / base.width <= window.height / base.height {
            window.width / base.width
        } else {
            window.height / base.height
        }),
        r * base.width <= window.width,
        r * base.height <= window.height,
        (r + 1) * base.width > window.width || (r + 1) * base.height > window.height,
{
    let a = window.width / base.width;
    let b = window.height / base.height;
    let r = if a <= b {
        a
    } else {
        b
    };
    proof {
        let (ww, wh, bw, bh) = (window.width as int, window.height as int, base.width as int, base.height as int);
        assert(a * bw <= ww && (a + 1) * bw > ww) by (nonlinear_arith)
            requires
                a == ww / bw,
                bw > 0,
                ww >= 0,
        ;
        assert(b * bh <= wh && (b + 1) * bh > wh) by (nonlinear_arith)
            requires
                b == wh / bh,
                bh > 0,
                wh >= 0,
        ;
        assert(r * bw <= ww) by (nonlinear_arith)
            requires
                r <= a,
                a * bw <= ww,
                bw > 0,
                r >= 0,
        ;
        assert(r * bh <= wh) by (nonlinear_arith)
            requires
                r <= b,
                b * bh <= wh,
                bh > 0,
                r >= 0,
        ;
    }
    r
}

/// The colours a frame is painted with.
#[derive(Debug, Clone, Copy, PartialEq, Eq, Structural)]
pub struct FrameColors {
    pub active: u32,
    pub inactive: u32,
    pub border: u32,
}

/// The buffer with places `start` to `start + width - 1` painted `color`.
pub open spec fn fill_row(buf: Seq<u32>, start: int, width: int, color: u32) -> Seq<u32> {
    Seq::new(buf.len(), |i: int| if start <= i < start + width { color } else { buf[i] })
}

/// The buffer after a rectangle `width` wide and `rows` high is painted
/// `color`, row after row, from place `start` with rows `stride` apart.
pub open spec fn fill_rows(
    buf: Seq<u32>,
    start: int,
    stride: int,
    width: int,
    rows: nat,
    color: u32,
) -> Seq<u32>
    decreases rows,
{
    if rows == 0 {
        buf
    } else {
        fill_row(
            fill_rows(buf, start, stride, width, (rows - 1) as nat, color),
            start + (rows - 1) * stride,
            width,
            color,
        )
    }
}

/// Painting keeps a buffer's length.
pub proof fn lemma_fill_rows_len(
    buf: Seq<u32>,
    start: int,
    stride: int,
    width: int,
    rows: nat,
    color: u32,
)
    ensures
        fill_rows(buf, start, stride, width, rows, color).len() == buf.len(),
    decreases rows,
{
    if rows > 0 {
        lemma_fill_rows_len(buf, start, stride, width, (rows - 1) as nat, color);
    }
}

/// The margin left on each side when `inner` is centred in `outer`.
pub open spec fn margin(outer: int, inner: int) -> int {
    (outer - inner) / 2
}

/// The buffer of a `w` by `h` window after its margins are painted: the
/// left and right columns `xm` wide, then the top and bottom rows `ym` high
/// between them.
pub open spec fn border_painted(buf: Seq<u32>, w: int, h: int, xm: int, ym: int, color: u32) -> Seq<
    u32,
> {
    let b1 = if xm > 0 {
        fill_rows(fill_rows(buf, 0, w, xm, h as nat, color), w - xm, w, xm, h as nat, color)
    } else {
        buf
    };
    if ym > 0 {
        fill_rows(
            fill_rows(b1, xm, w, w - 2 * xm, ym as nat, color),
            w * (h - ym) + xm,
            w,
            w - 2 * xm,
            ym as nat,
            color,
        )
    } else {
        b1
    }
}

/// Where the square of screen pixel `p` begins: the pixel's place, scaled
/// `f` times and shifted by the margins, in rows `bw * f + 2 * xm` wide.
pub open spec fn square_start(p: int, bw: int, f: int, xm: int, ym: int) -> int {
    (bw * f + 2 * xm) * ((p / bw) * f + ym) + (p % bw) * f + xm
}

/// The buffer after the squares of screen pixels `0` to `n - 1` are painted.
pub open spec fn pixels_painted(
    buf: Seq<u32>,
    fb: Seq<bool>,
    bw: int,
    f: int,
    xm: int,
    ym: int,
    colors: FrameColors,
    n: nat,
) -> Seq<u32>
    decreases n,
{
    if n == 0 {
        buf
    } else {
        let p = n - 1;
        fill_rows(
            pixels_painted(buf, fb, bw, f, xm, ym, colors, (n - 1) as nat),
            square_start(p, bw, f, xm, ym),
            bw * f + 2 * xm,
            f,
            f as nat,
            if fb[p] {
                colors.active
            } else {
                colors.inactive
            },
        )
    }
}

/// The frame painted over `buf` for the screen `fb` (`base` pixels) in a
/// window of size `window`, each screen pixel a square `f` wide.
pub open spec fn frame(
    buf: Seq<u32>,
    fb: Seq<bool>,
    base: Size,
    window: Size,
    f: int,
    colors: FrameColors,
) -> Seq<u32> {
    let w = window.width as int;
    let h = window.height as int;
    let xm = margin(w, base.width * f);
    let ym = margin(h, base.height * f);
    pixels_painted(
        border_painted(buf, w, h, xm, ym, colors.border),
        fb,
        base.width as int,
        f,
        xm,
        ym,
        colors,
        fb.len(),
    )
}

/// Paints a `size` rectangle `color` from `pos`, row after row, in rows
/// `pos.screen_width` apart.
pub fn render_square(pos: Position, size: Size, color: u32, buffer: &mut Vec<u32>)
    requires
        size.height > 0 ==> pos.index + (size.height - 1) * pos.screen_width + size.width
            <= old(buffer)@.len(),
    ensures
        final(buffer)@ == fill_rows(
            old(buffer)@,
            pos.index as int,
            pos.screen_width as int,
            size.width as int,
            size.height as nat,
            color,
        ),
{
    let len = buffer.len();
    let mut row: usize = 0;
    while row < size.height
        invariant
            row <= size.height,
            len == old(buffer)@.len(),
            size.height > 0 ==> pos.index + (size.height - 1) * pos.screen_width + size.width
                <= old(buffer)@.len(),
            buffer@ == fill_rows(
                old(buffer)@,
                pos.index as int,
                pos.screen_width as int,
                size.width as int,
                row as nat,
                color,
            ),
        decreases size.height - row,
    {
        proof {
            lemma_fill_rows_len(
                old(buffer)@,
                pos.index as int,
                pos.screen_width as int,
                size.width as int,
                row as nat,
                color,
            );
            let (r, hh, sw) = (row as int, size.height as int, pos.screen_width as int);
            assert(r * sw <= (hh - 1) * sw) by (nonlinear_arith)
                requires
                    0 <= r < hh,
                    sw >= 0,
            ;
        }
        let start = pos.index + row * pos.screen_width;
        let ghost before = buffer@;
        let mut c: usize = 0;
        while c < size.width
            invariant
                c <= size.width,
                before.len() == len,
                start + size.width <= before.len(),
                buffer@ == fill_row(before, start as int, c as int, color),
            decreases size.width - c,
        {
            buffer.set(start + c, color);
            c = c + 1;
            assert(buffer@ =~= fill_row(before, start as int, c as int, color));
        }
        row = row + 1;
    }
}

/// Whether place `i` lies in the rectangle `width` wide and `rows` high
/// that starts at place `start`, rows `stride` apart.
pub open spec fn in_rect(i: int, start: int, stride: int, width: int, rows: int) -> bool {
    i >= start && (i - start) / stride < rows && (i - start) % stride < width
}

/// Each place of a painted rectangle holds its colour, every other place
/// what it held before (for rows at least as far apart as they are wide).
pub proof fn lemma_fill_rows_at(
    buf: Seq<u32>,
    start: int,
    stride: int,
    width: int,
    rows: nat,
    color: u32,
    i: int,
)
    requires
        0 <= width <= stride,
        stride > 0,
        0 <= i < buf.len(),
    ensures
        fill_rows(buf, start, stride, width, rows, color)[i] == (if in_rect(
            i,
            start,
            stride,
            width,
            rows as int,
        ) {
            color
        } else {
            buf[i]
        }),
    decreases rows,
{
    if rows == 0 {
        if i >= start {
            assert((i - start) / stride >= 0) by (nonlinear_arith)
                requires
                    i - start >= 0,
                    stride > 0,
            ;
        }
    } else {
        let k = rows - 1;
        lemma_fill_rows_at(buf, start, stride, width, k as nat, color, i);
        lemma_fill_rows_len(buf, start, stride, width, k as nat, color);
        if i >= start {
            let q = (i - start) / stride;
            let r = (i - start) % stride;
            vstd::arithmetic::div_mod::lemma_fundamental_div_mod(i - start, stride);
            assert(0 <= r < stride);
            assert(i - (start + k * stride) == stride * (q - k) + r) by (nonlinear_arith)
                requires
                    i - start == stride * q + r,
            ;
            assert(q >= 0) by (nonlinear_arith)
                requires
                    i - start >= 0,
                    stride > 0,
                    q == (i - start) / stride,
            ;
            if q == k {
                assert(stride * (q - k) == 0) by (nonlinear_arith)
                    requires
                        q == k,
                ;
            } else if q < k {
                assert(stride * (q - k) <= -stride) by (nonlinear_arith)
                    requires
                        q < k,
                        stride > 0,
                ;
            } else if q > k {
                assert(stride * (q - k) >= stride) by (nonlinear_arith)
                    requires
                        q > k,
                        stride > 0,
                ;
            }
            let seg = start + k * stride <= i < start + k * stride + width;
            assert(seg == (q == k && r < width));
        } else {
            assert(k * stride >= 0) by (nonlinear_arith)
                requires
                    k >= 0,
                    stride >= 0,
            ;
        }
    }
}

/// In a buffer `w` wide, the pixel at column `x` and row `y` lies in the
/// rectangle at column `x0` and row `y0`, `width` wide and `rows` high,
/// exactly where its column and row fall inside the rectangle's.
pub proof fn lemma_rect_membership(
    w: int,
    x: int,
    y: int,
    x0: int,
    y0: int,
    width: int,
    rows: int,
)
    requires
        0 <= x < w,
        0 <= y,
        0 <= x0,
        0 <= y0,
        0 <= width,
        x0 + width <= w,
    ensures
        in_rect(w * y + x, w * y0 + x0, w, width, rows) == (y0 <= y < y0 + rows && x0 <= x < x0
            + width),
{
    let i = w * y + x;
    let start = w * y0 + x0;
    lemma_coords_index_roundtrip(x, y, w);
    if y0 <= y < y0 + rows && x0 <= x < x0 + width {
        assert(i - start == w * (y - y0) + (x - x0)) by (nonlinear_arith)
            requires
                i == w * y + x,
                start == w * y0 + x0,
        ;
        lemma_coords_index_roundtrip(x - x0, y - y0, w);
    }
    if in_rect(i, start, w, width, rows) {
        let q = (i - start) / w;
        let r = (i - start) % w;
        vstd::arithmetic::div_mod::lemma_fundamental_div_mod(i - start, w);
        assert(q >= 0) by (nonlinear_arith)
            requires
                i - start >= 0,
                w > 0,
                q == (i - start) / w,
        ;
        assert(i == w * (y0 + q) + (x0 + r)) by (nonlinear_arith)
            requires
                i - start == w * q + r,
                start == w * y0 + x0,
        ;
        lemma_coords_index_roundtrip(x0 + r, y0 + q, w);
    }
}

/// Painting keeps a buffer's length.
pub proof fn lemma_pixels_painted_len(
    buf: Seq<u32>,
    fb: Seq<bool>,
    bw: int,
    f: int,
    xm: int,
    ym: int,
    colors: FrameColors,
    n: nat,
)
    ensures
        pixels_painted(buf, fb, bw, f, xm, ym, colors, n).len() == buf.len(),
    decreases n,
{
    if n > 0 {
        lemma_pixels_painted_len(buf, fb, bw, f, xm, ym, colors, (n - 1) as nat);
        let p = n - 1;
        lemma_fill_rows_len(
            pixels_painted(buf, fb, bw, f, xm, ym, colors, (n - 1) as nat),
            square_start(p, bw, f, xm, ym),
            bw * f + 2 * xm,
            f,
            f as nat,
            if fb[p] {
                colors.active
            } else {
                colors.inactive
            },
        );
    }
}

/// Whether the window pixel at column `x` and row `y` shows the screen: the
/// screen (`bw` by `bh` pixels, each `f` wide) starts at column `xm`, row `ym`.
pub open spec fn in_image(x: int, y: int, bw: int, bh: int, f: int, xm: int, ym: int) -> bool {
    xm <= x < xm + bw * f && ym <= y < ym + bh * f
}

/// The screen pixel that the window pixel at column `x` and row `y` shows.
pub open spec fn image_pixel(x: int, y: int, bw: int, f: int, xm: int, ym: int) -> int {
    ((y - ym) / f) * bw + (x - xm) / f
}

/// Whether the window pixel at column `x` and row `y` lies in a margin.
pub open spec fn in_margin(x: int, y: int, w: int, h: int, xm: int, ym: int) -> bool {
    x < xm || x >= w - xm || y < ym || y >= h - ym
}

/// Where the rows of the window are `bw * f + 2 * xm` wide, each window
/// pixel of the screen's area shows its screen pixel, once that pixel's
/// square is painted; every other pixel is left as it was.
proof fn lemma_pixels_painted_at(
    buf: Seq<u32>,
    fb: Seq<bool>,
    bw: int,
    bh: int,
    f: int,
    xm: int,
    ym: int,
    colors: FrameColors,
    n: nat,
    x: int,
    y: int,
)
    requires
        bw > 0,
        f > 0,
        xm >= 0,
        ym >= 0,
        n <= fb.len() <= bw * bh,
        0 <= x < bw * f + 2 * xm,
        0 <= y,
        (bw * f + 2 * xm) * y + x < buf.len(),
    ensures
        ({
            let w = bw * f + 2 * xm;
            let p = image_pixel(x, y, bw, f, xm, ym);
            pixels_painted(buf, fb, bw, f, xm, ym, colors, n)[w * y + x] == if in_image(
                x,
                y,
                bw,
                bh,
                f,
                xm,
                ym,
            ) && p < n {
                if fb[p] {
                    colors.active
                } else {
                    colors.inactive
                }
            } else {
                buf[w * y + x]
            }
        }),
    decreases n,
{
    let w = bw * f + 2 * xm;
    if n > 0 {
        let p = n - 1;
        let prev = pixels_painted(buf, fb, bw, f, xm, ym, colors, (n - 1) as nat);
        lemma_pixels_painted_at(buf, fb, bw, bh, f, xm, ym, colors, (n - 1) as nat, x, y);
        lemma_pixels_painted_len(buf, fb, bw, f, xm, ym, colors, (n - 1) as nat);
        let px = p % bw;
        let py = p / bw;
        vstd::arithmetic::div_mod::lemma_fundamental_div_mod(p, bw);
        assert(0 <= px < bw && 0 <= py < bh) by (nonlinear_arith)
            requires
                bw > 0,
                0 <= p < bw * bh,
                px == p % bw,
                py == p / bw,
        ;
        let x0 = px * f + xm;
        let y0 = py * f + ym;
        assert(0 <= px * f && px * f + f <= bw * f && 0 <= py * f && py * f + f <= bh * f)
            by (nonlinear_arith)
            requires
                0 <= px < bw,
                0 <= py < bh,
                f > 0,
        ;
        assert(f <= bw * f) by (nonlinear_arith)
            requires
                bw >= 1,
                f > 0,
        ;
        assert(square_start(p, bw, f, xm, ym) == w * y0 + x0);
        let color = if fb[p] {
            colors.active
        } else {
            colors.inactive
        };
        lemma_fill_rows_at(prev, w * y0 + x0, w, f, f as nat, color, w * y + x);
        lemma_rect_membership(w, x, y, x0, y0, f, f);
        let in_sq = y0 <= y < y0 + f && x0 <= x < x0 + f;
        let ip = image_pixel(x, y, bw, f, xm, ym);
        if in_sq {
            lemma_coords_index_roundtrip(x - x0, py, f);
            assert(x - xm == f * px + (x - x0)) by (nonlinear_arith)
                requires
                    x0 == px * f + xm,
            ;
            assert(y - ym == f * py + (y - y0)) by (nonlinear_arith)
                requires
                    y0 == py * f + ym,
            ;
            lemma_coords_index_roundtrip(x - x0, px, f);
            lemma_coords_index_roundtrip(y - y0, py, f);
            assert((x - xm) / f == px);
            assert((y - ym) / f == py);
            assert(py * bw == bw * py) by (nonlinear_arith);
            assert(ip == p);
            assert(in_image(x, y, bw, bh, f, xm, ym));
        }
        if in_image(x, y, bw, bh, f, xm, ym) && ip == p {
            let qx = (x - xm) / f;
            let qy = (y - ym) / f;
            vstd::arithmetic::div_mod::lemma_fundamental_div_mod(x - xm, f);
            vstd::arithmetic::div_mod::lemma_fundamental_div_mod(y - ym, f);
            assert(0 <= qx < bw) by (nonlinear_arith)
                requires
                    0 <= x - xm < bw * f,
                    f > 0,
                    qx == (x - xm) / f,
            ;
            assert(qy >= 0) by (nonlinear_arith)
                requires
                    0 <= y - ym,
                    f > 0,
                    qy == (y - ym) / f,
            ;
            lemma_coords_index_roundtrip(qx, qy, bw);
            assert(bw * qy + qx == qy * bw + qx) by (nonlinear_arith);
            assert(qx == px && qy == py);
            assert(x - xm == f * qx + (x - xm) % f);
            assert(y - ym == f * qy + (y - ym) % f);
            assert(f * qx == px * f && f * qy == py * f) by (nonlinear_arith)
                requires
                    qx == px,
                    qy == py,
            ;
            assert(in_sq);
        }
    }
}

/// The margins of a painted border hold its colour, every other place what
/// it held before.
proof fn lemma_border_painted_at(
    buf: Seq<u32>,
    w: int,
    h: int,
    xm: int,
    ym: int,
    color: u32,
    x: int,
    y: int,
)
    requires
        buf.len() == w * h,
        0 <= x < w,
        0 <= y < h,
        0 <= xm,
        2 * xm <= w,
        0 <= ym,
        2 * ym <= h,
    ensures
        border_painted(buf, w, h, xm, ym, color)[w * y + x] == if in_margin(x, y, w, h, xm, ym) {
            color
        } else {
            buf[w * y + x]
        },
{
    let i = w * y + x;
    assert(i < w * h) by (nonlinear_arith)
        requires
            0 <= x < w,
            0 <= y < h,
            i == w * y + x,
    ;
    assert(w * 0 == 0) by (nonlinear_arith);
    let b1 = if xm > 0 {
        fill_rows(fill_rows(buf, 0, w, xm, h as nat, color), w - xm, w, xm, h as nat, color)
    } else {
        buf
    };
    if xm > 0 {
        let l = fill_rows(buf, 0, w, xm, h as nat, color);
        lemma_fill_rows_len(buf, 0, w, xm, h as nat, color);
        lemma_fill_rows_at(buf, 0, w, xm, h as nat, color, i);
        lemma_rect_membership(w, x, y, 0, 0, xm, h);
        lemma_fill_rows_len(l, w - xm, w, xm, h as nat, color);
        lemma_fill_rows_at(l, w - xm, w, xm, h as nat, color, i);
        lemma_rect_membership(w, x, y, w - xm, 0, xm, h);
    }
    assert(b1.len() == w * h);
    assert(b1[i] == if x < xm || x >= w - xm {
        color
    } else {
        buf[i]
    });
    if ym > 0 {
        let t = fill_rows(b1, xm, w, w - 2 * xm, ym as nat, color);
        lemma_fill_rows_len(b1, xm, w, w - 2 * xm, ym as nat, color);
        lemma_fill_rows_at(b1, xm, w, w - 2 * xm, ym as nat, color, i);
        lemma_rect_membership(w, x, y, xm, 0, w - 2 * xm, ym);
        lemma_fill_rows_at(t, w * (h - ym) + xm, w, w - 2 * xm, ym as nat, color, i);
        lemma_rect_membership(w, x, y, xm, h - ym, w - 2 * xm, ym);
    }
}

/// What the window shows once a frame is painted, where the width left
/// beside the scaled screen is even (so the rows of squares are as wide as
/// the window's): each window pixel in the screen's area shows its screen
/// pixel, each margin pixel the border colour, and any other pixel (a row
/// left over below an odd height margin, or past the end of the screen's
/// pixels) what it held before.
pub proof fn lemma_frame_at(
    buf: Seq<u32>,
    fb: Seq<bool>,
    base: Size,
    window: Size,
    f: int,
    colors: FrameColors,
    x: int,
    y: int,
)
    requires
        base.width > 0,
        f > 0,
        fb.len() <= base.width * base.height,
        base.width * f <= window.width,
        base.height * f <= window.height,
        (window.width - base.width * f) % 2 == 0,
        buf.len() == window.width * window.height,
        0 <= x < window.width,
        0 <= y < window.height,
    ensures
        ({
            let (w, h, bw, bh) = (
                window.width as int,
                window.height as int,
                base.width as int,
                base.height as int,
            );
            let xm = margin(w, bw * f);
            let ym = margin(h, bh * f);
            let p = image_pixel(x, y, bw, f, xm, ym);
            frame(buf, fb, base, window, f, colors)[w * y + x] == if in_image(
                x,
                y,
                bw,
                bh,
                f,
                xm,
                ym,
            ) && p < fb.len() {
                if fb[p] {
                    colors.active
                } else {
                    colors.inactive
                }
            } else if in_margin(x, y, w, h, xm, ym) {
                colors.border
            } else {
                buf[w * y + x]
            }
        }),
{
    let (w, h, bw, bh) = (
        window.width as int,
        window.height as int,
        base.width as int,
        base.height as int,
    );
    let xm = margin(w, bw * f);
    let ym = margin(h, bh * f);
    assert(0 <= bw * f && 0 <= bh * f) by (nonlinear_arith)
        requires
            bw > 0,
            bh >= 0,
            f > 0,
    ;
    assert(w == bw * f + 2 * xm);
    let bordered = border_painted(buf, w, h, xm, ym, colors.border);
    lemma_border_painted_at(buf, w, h, xm, ym, colors.border, x, y);
    assert(bordered.len() == w * h) by {
        if xm > 0 {
            lemma_fill_rows_len(buf, 0, w, xm, h as nat, colors.border);
            lemma_fill_rows_len(
                fill_rows(buf, 0, w, xm, h as nat, colors.border),
                w - xm,
                w,
                xm,
                h as nat,
                colors.border,
            );
        }
        let b1 = if xm > 0 {
            fill_rows(
                fill_rows(buf, 0, w, xm, h as nat, colors.border),
                w - xm,
                w,
                xm,
                h as nat,
                colors.border,
            )
        } else {
            buf
        };
        if ym > 0 {
            lemma_fill_rows_len(b1, xm, w, w - 2 * xm, ym as nat, colors.border);
            lemma_fill_rows_len(
                fill_rows(b1, xm, w, w - 2 * xm, ym as nat, colors.border),
                w * (h - ym) + xm,
                w,
                w - 2 * xm,
                ym as nat,
                colors.border,
            );
        }
    }
    assert(w * y + x < w * h) by (nonlinear_arith)
        requires
            0 <= x < w,
            0 <= y < h,
    ;
    lemma_pixels_painted_at(bordered, fb, bw, bh, f, xm, ym, colors, fb.len(), x, y);
}

/// The square of a screen pixel fits in the window's buffer, and building
/// its position does not overflow.
proof fn lemma_pixel_square_fits(p: int, bw: int, bh: int, f: int, w: int, h: int)
    requires
        bw > 0,
        f >= 0,
        0 <= p < bw * bh,
        bw * f <= w,
        bh * f <= h,
        w * h <= usize::MAX,
        w <= usize::MAX,
        h <= usize::MAX,
    ensures
        ({
            let xm = margin(w, bw * f);
            let ym = margin(h, bh * f);
            let s = bw * f + 2 * xm;
            let px = p % bw;
            let py = p / bw;
            &&& 0 <= px < bw
            &&& 0 <= py < bh
            &&& 0 <= xm
            &&& 0 <= ym
            &&& 0 <= s <= w
            &&& 0 <= px * f <= usize::MAX
            &&& 0 <= py * f <= usize::MAX
            &&& (bw * f) * (py * f) + px * f <= usize::MAX
            &&& py * f + ym <= usize::MAX
            &&& px * f + xm <= usize::MAX
            &&& s * (py * f + ym) + px * f + xm <= usize::MAX
            &&& square_start(p, bw, f, xm, ym) == s * (py * f + ym) + px * f + xm
            &&& f > 0 ==> square_start(p, bw, f, xm, ym) + (f - 1) * s + f <= w * h
        }),
{
    let xm = margin(w, bw * f);
    let ym = margin(h, bh * f);
    let s = bw * f + 2 * xm;
    let px = p % bw;
    let py = p / bw;
    assert(0 <= px < bw && 0 <= py < bh) by (nonlinear_arith)
        requires
            bw > 0,
            0 <= p < bw * bh,
            px == p % bw,
            py == p / bw,
    ;
    assert(0 <= bw * f) by (nonlinear_arith)
        requires
            bw > 0,
            f >= 0,
    ;
    assert(0 <= bh * f) by (nonlinear_arith)
        requires
            bh > 0,
            f >= 0,
    ;
    assert(0 <= xm && bw * f + 2 * xm <= w);
    assert(0 <= ym && bh * f + 2 * ym <= h);
    assert(0 <= px * f && px * f + f <= bw * f && 0 <= py * f && py * f + f <= bh * f)
        by (nonlinear_arith)
        requires
            0 <= px < bw,
            0 <= py < bh,
            f >= 0,
    ;
    assert(s * (py * f + ym) >= (bw * f) * (py * f)) by (nonlinear_arith)
        requires
            s >= bw * f >= 0,
            py * f >= 0,
            ym >= 0,
    ;
    assert(square_start(p, bw, f, xm, ym) == s * (py * f + ym) + px * f + xm);
    if f > 0 {
        let rows = py * f + ym + f;
        assert(rows <= h);
        assert(s * rows <= w * h) by (nonlinear_arith)
            requires
                0 <= s <= w,
                0 <= rows <= h,
        ;
        assert((f - 1) * s + f + s * (py * f + ym) + px * f + xm <= s * rows) by (nonlinear_arith)
            requires
                rows == py * f + ym + f,
                s == bw * f + 2 * xm,
                px * f + f <= bw * f,
                xm >= 0,
                f >= 1,
                s >= 0,
        ;
        assert(s * (py * f + ym) + px * f + xm <= s * rows) by (nonlinear_arith)
            requires
                (f - 1) * s + f + s * (py * f + ym) + px * f + xm <= s * rows,
                f >= 1,
                s >= 0,
        ;
        assert(py * f + ym <= s * (py * f + ym)) by (nonlinear_arith)
            requires
                s >= bw * f,
                bw >= 1,
                f >= 1,
                py * f + ym >= 0,
        ;
        assert(s * rows <= usize::MAX);
        assert(s * (py * f + ym) + px * f + xm <= usize::MAX);
        assert((bw * f) * (py * f) + px * f <= usize::MAX);
        assert(py * f + ym <= usize::MAX);
        assert(px * f + xm <= usize::MAX);
        assert(0 <= px * f <= usize::MAX);
        assert(0 <= py * f <= usize::MAX);
    } else {
        assert(px * f == 0 && py * f == 0 && bw * f == 0) by (nonlinear_arith)
            requires
                f == 0,
        ;
        assert((bw * f) * (py * f) == 0) by (nonlinear_arith)
            requires
                bw * f == 0,
        ;
        if ym > 0 {
            assert(s * ym + xm <= w * h) by (nonlinear_arith)
                requires
                    0 <= s <= w,
                    0 <= xm <= w,
                    1 <= ym,
                    2 * ym <= h,
            ;
        } else {
            assert(s * ym == 0) by (nonlinear_arith)
                requires
                    ym == 0,
            ;
        }
    }
}

/// Paints a frame into `buffer`, the window's pixels row after row: the
/// margins in the border colour, then each screen pixel of `framebuffer`
/// (`base` pixels, row after row) as a `size_factor`-wide square in the
/// active or inactive colour, centred in the window; see `frame`.
pub fn render_frame(
    buffer: &mut Vec<u32>,
    framebuffer: &[bool],
    base: Size,
    window: Size,
    size_factor: usize,
    colors: FrameColors,
)
    requires
        base.width > 0,
        old(buffer)@.len() == window.width * window.height,
        framebuffer@.len() <= base.width * base.height,
        base.width * size_factor <= window.width,
        base.height * size_factor <= window.height,
    ensures
        final(buffer)@ == frame(
            old(buffer)@,
            framebuffer@,
            base,
            window,
            size_factor as int,
            colors,
        ),
{
    let len = buffer.len();
    let (window_width, window_height) = window.get();
    let (base_width, base_height) = base.get();
    let ghost (w, h, f) = (window_width as int, window_height as int, size_factor as int);
    proof {
        assert(0 <= base_width * f && 0 <= base_height * f) by (nonlinear_arith)
            requires
                f >= 0,
                base_width >= 0,
                base_height >= 0,
        ;
    }
    let x_margin = (window_width - base_width * size_factor) / 2;
    let y_margin = (window_height - base_height * size_factor) / 2;
    let ghost buf0 = buffer@;
    proof {
        assert(w * h == len);
        if h > 0 {
            assert((h - 1) * w + x_margin <= w * h) by (nonlinear_arith)
                requires
                    x_margin <= w,
                    h > 0,
                    w >= 0,
            ;
            assert((h - 1) * w + w == w * h) by (nonlinear_arith);
        }
        assert(y_margin > 0 ==> x_margin + (y_margin - 1) * w + (w - 2 * x_margin) <= w * h)
            by (nonlinear_arith)
            requires
                0 <= x_margin,
                2 * x_margin <= w,
                0 <= y_margin <= h,
        ;
        assert(y_margin > 0 ==> w * (h - y_margin) + x_margin + (y_margin - 1) * w + (w - 2
            * x_margin) <= w * h) by (nonlinear_arith)
            requires
                0 <= x_margin,
                2 * x_margin <= w,
                0 <= y_margin <= h,
        ;
        assert(w * (h - y_margin) <= w * h) by (nonlinear_arith)
            requires
                0 <= y_margin <= h,
                w >= 0,
        ;
    }
    if x_margin > 0 {
        render_square(
            Position::from_coords(0, 0, window_width),
            Size::new(x_margin, window_height),
            colors.border,
            buffer,
        );
        proof {
            lemma_fill_rows_len(buf0, 0, w, x_margin as int, h as nat, colors.border);
        }
        render_square(
            Position::from_coords(window_width - x_margin, 0, window_width),
            Size::new(x_margin, window_height),
            colors.border,
            buffer,
        );
    }
    let ghost buf1 = buffer@;
    proof {
        if x_margin > 0 {
            lemma_fill_rows_len(buf0, 0, w, x_margin as int, h as nat, colors.border);
            lemma_fill_rows_len(
                fill_rows(buf0, 0, w, x_margin as int, h as nat, colors.border),
                w - x_margin,
                w,
                x_margin as int,
                h as nat,
                colors.border,
            );
        }
    }
    if y_margin > 0 {
        render_square(
            Position::from_coords(x_margin, 0, window_width),
            Size::new(window_width - (x_margin * 2), y_margin),
            colors.border,
            buffer,
        );
        proof {
            lemma_fill_rows_len(
                buf1,
                x_margin as int,
                w,
                w - 2 * x_margin,
                y_margin as nat,
                colors.border,
            );
        }
        render_square(
            Position::from_coords(x_margin, window_height - y_margin, window_width),
            Size::new(window_width - (x_margin * 2), y_margin),
            colors.border,
            buffer,
        );
    }
    let ghost bordered = buffer@;
    proof {
        if y_margin > 0 {
            lemma_fill_rows_len(
                buf1,
                x_margin as int,
                w,
                w - 2 * x_margin,
                y_margin as nat,
                colors.border,
            );
            lemma_fill_rows_len(
                fill_rows(buf1, x_margin as int, w, w - 2 * x_margin, y_margin as nat, colors.border),
                w * (h - y_margin) + x_margin,
                w,
                w - 2 * x_margin,
                y_margin as nat,
                colors.border,
            );
        }
        assert(bordered == border_painted(buf0, w, h, x_margin as int, y_margin as int, colors.border));
    }
    let mut pixel: usize = 0;
    while pixel < framebuffer.len()
        invariant
            base_width > 0,
            base_width == base.width,
            base_height == base.height,
            window_width == window.width,
            window_height == window.height,
            w == window_width,
            h == window_height,
            f == size_factor,
            x_margin == margin(w, base_width * f),
            y_margin == margin(h, base_height * f),
            framebuffer@.len() <= base_width * base_height,
            base_width * f <= w,
            base_height * f <= h,
            w * h <= usize::MAX,
            pixel <= framebuffer@.len(),
            buffer@.len() == w * h,
            buffer@ == pixels_painted(
                bordered,
                framebuffer@,
                base_width as int,
                f,
                x_margin as int,
                y_margin as int,
                colors,
                pixel as nat,
            ),
        decreases framebuffer@.len() - pixel,
    {
        proof {
            lemma_pixel_square_fits(
                pixel as int,
                base_width as int,
                base_height as int,
                f,
                w,
                h,
            );
        }
        let pos = Position::from_index(pixel, base_width).scale(size_factor).add_padding(
            x_margin,
            y_margin,
        );
        let size = Size::new(size_factor, size_factor);
        let color = if framebuffer[pixel] {
            colors.active
        } else {
            colors.inactive
        };
        render_square(pos, size, color, buffer);
        proof {
            lemma_fill_rows_len(
                pixels_painted(
                    bordered,
                    framebuffer@,
                    base_width as int,
                    f,
                    x_margin as int,
                    y_margin as int,
                    colors,
                    pixel as nat,
                ),
                pos.index as int,
                pos.screen_width as int,
                f,
                f as nat,
                color,
            );
        }
        pixel = pixel + 1;
    }
}

/// What the window does when its event loop is about to wait.
#[derive(Debug, Clone, Copy, PartialEq, Eq, Structural)]
pub struct LoopPlan {
    /// Close the input helper's step.
    pub end_input_step: bool,
    /// Leave the event loop.
    pub exit: bool,
    /// Stop the machine.
    pub deactivate: bool,
    /// Hand the step's key events to the key pad.
    pub update_input: bool,
    /// Take the new window size and paint at once.
    pub resize: bool,
    /// Take the queued frame and ask the window to repaint.
    pub request_redraw: bool,
}

/// The plan for one wait of the event loop: a stopped machine leaves the
/// loop; a window being closed stops the machine and leaves; otherwise the
/// key events go to the pad, a resized window is repainted, and a repaint is
/// asked for where the window was resized or a frame is queued, if there is
/// a window.
pub fn plan_about_to_wait(
    active: bool,
    close_requested: bool,
    resized: bool,
    render_queued: bool,
    has_window: bool,
) -> (r: LoopPlan)
    ensures
        r.exit == (!active || close_requested),
        r.end_input_step == active,
        r.deactivate == (active && close_requested),
        r.update_input == (active && !close_requested),
        r.resize == (active && !close_requested && resized),
        r.request_redraw == (active && !close_requested && (resized || render_queued)
            && has_window),
{
    if !active {
        return LoopPlan {
            end_input_step: false,
            exit: true,
            deactivate: false,
            update_input: false,
            resize: false,
            request_redraw: false,
        };
    }
    if close_requested {
        return LoopPlan {
            end_input_step: true,
            exit: true,
            deactivate: true,
            update_input: false,
            resize: false,
            request_redraw: false,
        };
    }
    let should_render = resized || render_queued;
    LoopPlan {
        end_input_step: true,
        exit: false,
        deactivate: false,
        update_input: true,
        resize: resized,
        request_redraw: should_render && has_window,
    }
}

} // verus!
