use vstd::prelude::*;
use vstd::arithmetic::div_mod::{lemma_fundamental_div_mod, lemma_fundamental_div_mod_converse};
use crate::frame_buffer::{col, row, idx, hi, lo, on_screen, put, lemma_idx, lemma_nibble_bound, N_PIXELS};
use crate::image::{
    walk, image_pixel, copy_line, fast_rows, fast_rows_ok, render_ok, render_result, fast_toff, fast_line_bytes,
    fast_end, fast_top, fast_left, fast_right, fast_skip, fast_start, fast_copy_taken, fast_height,
};
use crate::frame_buffer::BUFFER_SIZE;

verus! {

/// The color of the screen pixel `j` after the pixels `[from, upto)` of an image
/// `w` pixels wide are drawn with the image's top-left corner at `(px, py)`:
/// pixel `k` of the image lands in column `px + k % w` of line `py + k / w`,
/// unless it has the transparent color.
pub open spec fn placed_pixel(old: u8, j: int, img: Seq<u8>, px: int, py: int, w: int, transp: u8, from: int, upto: int) -> u8 {
    let c = col(j) - px;
    let r = row(j) - py;
    let k = r * w + c;
    if 0 <= c < w && 0 <= r && from <= k < upto && k < 2 * img.len() && image_pixel(img, k) != transp {
        image_pixel(img, k)
    } else {
        old
    }
}

/// All screen pixels after the pixels `[from, upto)` of the image are drawn, see [`placed_pixel`].
pub open spec fn placed(pix: Seq<u8>, img: Seq<u8>, px: int, py: int, w: int, transp: u8, from: int, upto: int) -> Seq<u8> {
    Seq::new(pix.len(), |j: int| placed_pixel(pix[j], j, img, px, py, w, transp, from, upto))
}

/// Where pixel `k + 1` of an image `w` pixels wide is, given where pixel `k` is.
proof fn lemma_next_pos(k: int, w: int)
    requires
        0 <= k,
        0 < w,
    ensures
        0 <= k % w < w,
        0 <= k / w,
        (k + 1) % w == (if k % w + 1 >= w { 0 } else { k % w + 1 }),
        (k + 1) / w == (if k % w + 1 >= w { k / w + 1 } else { k / w }),
{
    lemma_fundamental_div_mod(k, w);
    let q = k / w;
    let m = k % w;
    assert(0 <= m < w);
    assert(0 <= q) by (nonlinear_arith)
        requires
            k == w * q + m,
            0 <= k,
            0 < w,
            m < w,
    ;
    if m + 1 >= w {
        assert(k + 1 == (q + 1) * w + 0) by (nonlinear_arith)
            requires
                k == w * q + m,
                m == w - 1,
        ;
        lemma_fundamental_div_mod_converse(k + 1, w, q + 1, 0);
    } else {
        assert(k + 1 == q * w + (m + 1)) by (nonlinear_arith)
            requires
                k == w * q + m,
        ;
        lemma_fundamental_div_mod_converse(k + 1, w, q, m + 1);
    }
}

/// A screen pixel shows pixel `k` of an image at `(px, py)` exactly when its
/// column and line put it at offset `k` of the image.
proof fn lemma_point_of_offset(j: int, k: int, px: int, py: int, w: int)
    requires
        0 <= j < N_PIXELS,
        0 <= k,
        0 < w,
    ensures
        (on_screen(px + k % w, py + k / w) && j == idx(px + k % w, py + k / w)) <==> ({
            let c = col(j) - px;
            let r = row(j) - py;
            0 <= c < w && 0 <= r && r * w + c == k
        }),
{
    lemma_next_pos(k, w);
    lemma_fundamental_div_mod(k, w);
    lemma_fundamental_div_mod(j, 240);
    assert(k / w * w + k % w == k) by (nonlinear_arith)
        requires
            k == w * (k / w) + k % w,
    ;
    let x = px + k % w;
    let y = py + k / w;
    if on_screen(x, y) && j == idx(x, y) {
        lemma_idx(x, y);
    }
    let c = col(j) - px;
    let r = row(j) - py;
    if 0 <= c < w && 0 <= r && r * w + c == k {
        lemma_fundamental_div_mod_converse(k, w, r, c);
        assert(0 <= col(j) < 240);
        assert(row(j) < 160);
        assert(j == idx(col(j), row(j)));
    }
}

/// Walking over the image bytes from byte `i` on draws the image pixels from `2 * i` on
/// at their places, when the image fits into the screen width and nothing is skipped.
proof fn lemma_walk_places(pix: Seq<u8>, img: Seq<u8>, i: int, px: int, py: int, w: int, transp: u8)
    requires
        pix.len() == N_PIXELS,
        0 <= px,
        px + w <= 240,
        0 < w,
        0 <= i <= img.len(),
    ensures
        walk(pix, img, i, px + (2 * i) % w, py + (2 * i) / w, transp, px, px + w, 0)
            == placed(pix, img, px, py, w, transp, 2 * i, 2 * img.len() as int),
    decreases img.len() - i,
{
    let total: int = 2 * img.len() as int;
    if i == img.len() {
        assert(placed(pix, img, px, py, w, transp, 2 * i, total) =~= pix);
    } else {
        let k0 = 2 * i;
        let k1 = k0 + 1;
        let k2 = k0 + 2;
        lemma_next_pos(k0, w);
        lemma_next_pos(k1, w);
        let b = img[i];
        let x = px + k0 % w;
        let y = py + k0 / w;
        let x1 = px + k1 % w;
        let y1 = py + k1 / w;
        let x2 = px + k2 % w;
        let y2 = py + k2 / w;
        let pix1 = put(pix, x, y, hi(b), transp);
        let pix2 = put(pix1, x1, y1, lo(b), transp);
        assert(walk(pix, img, i, x, y, transp, px, px + w, 0) == walk(pix2, img, i + 1, x2, y2, transp, px, px + w, 0));
        lemma_walk_places(pix2, img, i + 1, px, py, w, transp);
        assert(image_pixel(img, k0) == hi(b));
        assert(image_pixel(img, k1) == lo(b));
        let lhs = placed(pix2, img, px, py, w, transp, k2, total);
        let rhs = placed(pix, img, px, py, w, transp, k0, total);
        assert forall|j: int| 0 <= j < N_PIXELS implies #[trigger] lhs[j] == rhs[j] by {
            lemma_point_of_offset(j, k0, px, py, w);
            lemma_point_of_offset(j, k1, px, py, w);
            if on_screen(x, y) {
                lemma_idx(x, y);
            }
            if on_screen(x1, y1) {
                lemma_idx(x1, y1);
            }
        }
        assert(lhs =~= rhs);
    }
}

/// The pixels `[a, b)` of an image land off the screen: placing from `b` on gives
/// what placing from `a` on gives.
proof fn lemma_skip_offscreen(pix: Seq<u8>, img: Seq<u8>, px: int, py: int, w: int, transp: u8, a: int, b: int, upto: int)
    requires
        pix.len() == N_PIXELS,
        0 < w,
        0 <= a <= b,
        forall|k: int| a <= k < b ==> !#[trigger] on_screen(px + k % w, py + k / w),
    ensures
        placed(pix, img, px, py, w, transp, b, upto) == placed(pix, img, px, py, w, transp, a, upto),
{
    let lhs = placed(pix, img, px, py, w, transp, b, upto);
    let rhs = placed(pix, img, px, py, w, transp, a, upto);
    assert forall|j: int| 0 <= j < N_PIXELS implies #[trigger] lhs[j] == rhs[j] by {
        let c = col(j) - px;
        let r = row(j) - py;
        if 0 <= c < w && 0 <= r {
            let k = r * w + c;
            if a <= k < b {
                assert(0 <= k);
                lemma_point_of_offset(j, k, px, py, w);
                assert(on_screen(px + k % w, py + k / w));
            }
        }
    }
    assert(lhs =~= rhs);
}

/// Walking over the image bytes from byte `i` on, each line drawn from column
/// `2 * ls` (the first line from wherever byte `i` is) to column `w - 2 * rs` and
/// the other columns skipped, draws the image pixels from `2 * i` on at their
/// places, when the skipped columns are off the screen and the image width is even.
proof fn lemma_walk_clipped(pix: Seq<u8>, img: Seq<u8>, i: int, px: int, py: int, w: int, transp: u8, ls: int, rs: int)
    requires
        pix.len() == N_PIXELS,
        0 < w,
        w % 2 == 0,
        0 <= ls,
        0 <= rs,
        2 * ls + 2 * rs < w,
        ls > 0 ==> px + 2 * ls <= 0,
        rs > 0 ==> px + w - 2 * rs >= 240,
        0 <= i,
        i < img.len() ==> (2 * i) % w < w - 2 * rs,
    ensures
        walk(pix, img, i, px + (2 * i) % w, py + (2 * i) / w, transp, px + 2 * ls, px + w - 2 * rs, ls + rs)
            == placed(pix, img, px, py, w, transp, 2 * i, 2 * img.len() as int),
    decreases (if i < img.len() { img.len() - i } else { 0 }),
{
    let total: int = 2 * img.len() as int;
    let l = px + 2 * ls;
    let rr = px + w - 2 * rs;
    let skip = ls + rs;
    if i >= img.len() {
        assert(placed(pix, img, px, py, w, transp, 2 * i, total) =~= pix);
    } else {
        let k0 = 2 * i;
        let k1 = k0 + 1;
        lemma_fundamental_div_mod(k0, w);
        let q = k0 / w;
        let c = k0 % w;
        assert(0 <= c < w);
        assert(k0 == w * q + c);
        assert(c % 2 == 0) by {
            let h = w / 2;
            assert(w == 2 * h);
            assert(w * q == 2 * (h * q)) by (nonlinear_arith)
                requires
                    w == 2 * h,
            ;
            assert(c == 2 * (i - h * q));
            lemma_fundamental_div_mod_converse(c, 2, i - h * q, 0);
        }
        assert(c + 2 <= w - 2 * rs);
        lemma_fundamental_div_mod_converse(k1, w, q, c + 1);
        let b = img[i];
        let x = px + c;
        let y = py + q;
        let x1 = x + 1;
        let pix1 = put(pix, x, y, hi(b), transp);
        let pix2 = put(pix1, x1, y, lo(b), transp);
        assert(image_pixel(img, k0) == hi(b));
        assert(image_pixel(img, k1) == lo(b));
        let k2 = k0 + 2;
        let nexti = if c + 2 == w - 2 * rs { i + 1 + skip } else { i + 1 };
        let nx = if c + 2 == w - 2 * rs { l } else { x + 2 };
        let ny = if c + 2 == w - 2 * rs { y + 1 } else { y };
        assert(walk(pix, img, i, x, y, transp, l, rr, skip) == walk(pix2, img, nexti, nx, ny, transp, l, rr, skip));
        if c + 2 == w - 2 * rs {
            assert(2 * nexti == (q + 1) * w + 2 * ls) by (nonlinear_arith)
                requires
                    nexti == i + 1 + ls + rs,
                    2 * i == w * q + c,
                    c + 2 == w - 2 * rs,
            ;
            lemma_fundamental_div_mod_converse(2 * nexti, w, q + 1, 2 * ls);
        } else {
            lemma_fundamental_div_mod_converse(k2, w, q, c + 2);
        }
        assert(nx == px + (2 * nexti) % w && ny == py + (2 * nexti) / w);
        lemma_walk_clipped(pix2, img, nexti, px, py, w, transp, ls, rs);
        // The skipped pixels are off the screen.
        if c + 2 == w - 2 * rs {
            assert forall|k: int| k2 <= k < 2 * nexti implies !#[trigger] on_screen(px + k % w, py + k / w) by {
                if k < (q + 1) * w {
                    lemma_fundamental_div_mod_converse(k, w, q, k - q * w);
                    assert(rs > 0);
                } else {
                    lemma_fundamental_div_mod_converse(k, w, q + 1, k - (q + 1) * w);
                    assert(ls > 0);
                }
            }
        }
        lemma_skip_offscreen(pix2, img, px, py, w, transp, k2, 2 * nexti, total);
        let lhs = placed(pix2, img, px, py, w, transp, k2, total);
        let rhs = placed(pix, img, px, py, w, transp, k0, total);
        assert forall|j: int| 0 <= j < N_PIXELS implies #[trigger] lhs[j] == rhs[j] by {
            lemma_point_of_offset(j, k0, px, py, w);
            lemma_point_of_offset(j, k1, px, py, w);
            if on_screen(x, y) {
                lemma_idx(x, y);
            }
            if on_screen(x1, y) {
                lemma_idx(x1, y);
            }
        }
        assert(lhs =~= rhs);
    }
}

/// Copying `n` image bytes from byte `s` to frame buffer byte `toff` sets the screen
/// pixels `[2 * toff, 2 * (toff + n))` to the image pixels from `2 * s` on.
proof fn lemma_copy_line(pix: Seq<u8>, img: Seq<u8>, s: int, toff: int, n: int)
    requires
        0 <= s,
        0 <= toff,
        0 <= n,
        s + n <= img.len(),
        2 * (toff + n) <= pix.len(),
    ensures
        copy_line(pix, img, s, toff, n) == Seq::new(
            pix.len(),
            |j: int| if 2 * toff <= j < 2 * (toff + n) { image_pixel(img, 2 * s + (j - 2 * toff)) } else { pix[j] },
        ),
    decreases n,
{
    let expected = Seq::new(
        pix.len(),
        |j: int| if 2 * toff <= j < 2 * (toff + n) { image_pixel(img, 2 * s + (j - 2 * toff)) } else { pix[j] },
    );
    if n > 0 {
        let t = n - 1;
        lemma_copy_line(pix, img, s, toff, t);
        assert((2 * s + 2 * t) % 2 == 0 && (2 * s + 2 * t) / 2 == s + t);
        assert((2 * s + 2 * t + 1) % 2 == 1 && (2 * s + 2 * t + 1) / 2 == s + t);
        assert(copy_line(pix, img, s, toff, n) =~= expected);
    } else {
        assert(copy_line(pix, img, s, toff, n) =~= expected);
    }
}

/// Copying line `r` of an image (whole bytes, aligned with the frame buffer) puts the
/// pixels of that line at their places.
proof fn lemma_copy_line_places(pix0: Seq<u8>, img: Seq<u8>, px: int, py: int, w: int, transp: u8, r: int, vw: int)
    requires
        pix0.len() == N_PIXELS,
        0 <= px,
        px % 2 == 0,
        w % 2 == 0,
        0 < w,
        0 < vw <= w,
        vw % 2 == 0,
        px + vw <= 240,
        vw < w ==> px + vw == 240,
        0 <= py + r,
        0 <= r,
        py + r < 160,
        r * w + vw <= 2 * img.len(),
        transp > 15,
    ensures
        copy_line(placed(pix0, img, px, py, w, transp, 0, r * w), img, r * (w / 2), (py * 240 + px) / 2 + 120 * r, vw / 2)
            == placed(pix0, img, px, py, w, transp, 0, r * w + vw),
{
    let w2 = w / 2;
    let toff = (py * 240 + px) / 2 + 120 * r;
    let base = (py + r) * 240 + px;
    assert(px == 2 * (px / 2));
    lemma_fundamental_div_mod_converse(py * 240 + px, 2, py * 120 + px / 2, 0);
    assert(2 * toff == base);
    assert(r * w == 2 * (r * w2)) by (nonlinear_arith)
        requires
            w2 == w / 2,
            w % 2 == 0,
    ;
    assert(r * w == 2 * (r * w2));
    assert(0 <= r * w2) by (nonlinear_arith)
        requires
            0 <= r,
            0 < w,
            w2 == w / 2,
    ;
    assert(base + vw <= N_PIXELS) by (nonlinear_arith)
        requires
            base == (py + r) * 240 + px,
            py + r < 160,
            px + vw <= 240,
    ;
    let v2 = vw / 2;
    assert(vw == 2 * v2 && v2 <= w2);
    assert((r + 1) * w == r * w + w && 0 <= r * w) by (nonlinear_arith)
        requires
            0 <= r,
            0 < w,
    ;
    let p = placed(pix0, img, px, py, w, transp, 0, r * w);
    lemma_copy_line(p, img, r * w2, toff, v2);
    let lhs = copy_line(p, img, r * w2, toff, v2);
    let rhs = placed(pix0, img, px, py, w, transp, 0, r * w + vw);
    assert forall|j: int| 0 <= j < N_PIXELS implies #[trigger] lhs[j] == rhs[j] by {
        lemma_fundamental_div_mod(j, 240);
        if base <= j < base + vw {
            let d = j - base;
            lemma_fundamental_div_mod_converse(j, 240, py + r, px + d);
            assert(r * w + d == 2 * (r * w2) + (j - 2 * toff));
            let k = r * w + d;
            assert(col(j) - px == d && row(j) - py == r);
            assert(k < 2 * img.len());
            lemma_nibble_bound(img[k / 2]);
            assert(image_pixel(img, k) < 16);
            assert(lhs[j] == image_pixel(img, k));
            assert(rhs[j] == image_pixel(img, k));
        } else {
            let c = col(j) - px;
            let rr = row(j) - py;
            if 0 <= c < w && 0 <= rr && r * w <= rr * w + c < r * w + vw {
                assert(rr == r) by (nonlinear_arith)
                    requires
                        0 <= c < w,
                        vw <= w,
                        r * w <= rr * w + c < r * w + vw,
                ;
                assert(col(j) < 240);
                assert(c < vw);
                lemma_fundamental_div_mod_converse(j, 240, row(j), col(j));
                assert(j == base + c);
                assert(false);
            }
            assert(lhs[j] == p[j]);
        }
    }
    assert(lhs =~= rhs);
}

/// The pixels placed from line `m` on of an image at line `py` are below the
/// screen when line `m` of the image is below the screen.
proof fn lemma_below_screen(pix0: Seq<u8>, img: Seq<u8>, px: int, py: int, w: int, transp: u8, m: int, upto: int)
    requires
        pix0.len() == N_PIXELS,
        0 < w,
        0 <= m,
        py + m >= 160,
        upto >= m * w,
    ensures
        placed(pix0, img, px, py, w, transp, 0, m * w) == placed(pix0, img, px, py, w, transp, 0, upto),
{
    let a = placed(pix0, img, px, py, w, transp, 0, m * w);
    let b = placed(pix0, img, px, py, w, transp, 0, upto);
    assert forall|j: int| 0 <= j < N_PIXELS implies #[trigger] a[j] == b[j] by {
        let c = col(j) - px;
        let rr = row(j) - py;
        assert(row(j) < 160);
        if 0 <= c < w && 0 <= rr && rr * w + c >= m * w {
            assert(rr >= m) by (nonlinear_arith)
                requires
                    0 <= c < w,
                    0 <= rr,
                    rr * w + c >= m * w,
            ;
        }
    }
    assert(a =~= b);
}

/// The pixels `[a, b)` of an image land off the screen: placing up to `b` gives
/// what placing up to `a` gives.
proof fn lemma_offscreen_upto(pix: Seq<u8>, img: Seq<u8>, px: int, py: int, w: int, transp: u8, a: int, b: int)
    requires
        pix.len() == N_PIXELS,
        0 < w,
        0 <= a <= b,
        forall|k: int| a <= k < b ==> !#[trigger] on_screen(px + k % w, py + k / w),
    ensures
        placed(pix, img, px, py, w, transp, 0, b) == placed(pix, img, px, py, w, transp, 0, a),
{
    let lhs = placed(pix, img, px, py, w, transp, 0, b);
    let rhs = placed(pix, img, px, py, w, transp, 0, a);
    assert forall|j: int| 0 <= j < N_PIXELS implies #[trigger] lhs[j] == rhs[j] by {
        let c = col(j) - px;
        let r = row(j) - py;
        if 0 <= c < w && 0 <= r {
            let k = r * w + c;
            if a <= k < b {
                lemma_point_of_offset(j, k, px, py, w);
                assert(on_screen(px + k % w, py + k / w));
            }
        }
    }
    assert(lhs =~= rhs);
}

/// Copying the image line by line from line `r` on, whole bytes at a time and
/// `vw` pixels of each line (the rest being off the screen on the right), puts all
/// its pixels at their places.
proof fn lemma_fast_rows_places(pix0: Seq<u8>, img: Seq<u8>, px: int, py: int, w: int, transp: u8, r: int, vw: int)
    requires
        pix0.len() == N_PIXELS,
        0 <= px,
        px % 2 == 0,
        w % 2 == 0,
        0 < w,
        0 < vw <= w,
        vw % 2 == 0,
        px + vw <= 240,
        vw < w ==> px + vw == 240,
        0 <= py + r,
        transp > 15,
        0 <= r,
        r * (w / 2) <= img.len(),
        fast_rows_ok(r * (w / 2), img.len() as int, (py * 240 + px) / 2 + 120 * r, vw / 2, w / 2),
    ensures
        ({
            let res = fast_rows(
                placed(pix0, img, px, py, w, transp, 0, r * w),
                img,
                r * (w / 2),
                img.len() as int,
                (py * 240 + px) / 2 + 120 * r,
                vw / 2,
                w / 2,
            );
            res.0 == placed(pix0, img, px, py, w, transp, 0, 2 * img.len() as int)
        }),
    decreases img.len() - r * (w / 2),
{
    let w2 = w / 2;
    let v2 = vw / 2;
    let len = img.len() as int;
    let s = r * w2;
    let toff = (py * 240 + px) / 2 + 120 * r;
    assert(r * w == 2 * s && (r + 1) * w2 == s + w2 && (r + 1) * w == 2 * (s + w2)) by (nonlinear_arith)
        requires
            w2 == w / 2,
            w % 2 == 0,
            s == r * w2,
    ;
    assert(w2 > 0 && vw == 2 * v2);
    assert(px == 2 * (px / 2));
    lemma_fundamental_div_mod_converse(py * 240 + px, 2, py * 120 + px / 2, 0);
    assert(toff == 120 * (py + r) + px / 2);
    if s >= len {
        assert(s == len);
        assert(placed(pix0, img, px, py, w, transp, 0, r * w) == placed(pix0, img, px, py, w, transp, 0, 2 * len));
    } else {
        assert(s + v2 <= len);
        assert(toff + v2 <= BUFFER_SIZE);
        assert(py + r < 160);
        lemma_copy_line_places(pix0, img, px, py, w, transp, r, vw);
        let p1 = placed(pix0, img, px, py, w, transp, 0, r * w + vw);
        // The columns of line `r` from `vw` on are off the screen.
        assert forall|k: int| r * w + vw <= k < (r + 1) * w implies !#[trigger] on_screen(px + k % w, py + k / w) by {
            lemma_fundamental_div_mod_converse(k, w, r, k - r * w);
        }
        lemma_offscreen_upto(pix0, img, px, py, w, transp, r * w + vw, (r + 1) * w);
        if BUFFER_SIZE - toff < 120 {
            assert(py + r == 159);
            lemma_below_screen(pix0, img, px, py, w, transp, r + 1, 2 * len + (r + 1) * w);
            lemma_below_screen(pix0, img, px, py, w, transp, r + 1, (r + 1) * w);
            assert(placed(pix0, img, px, py, w, transp, 0, 2 * len + (r + 1) * w) == placed(
                pix0,
                img,
                px,
                py,
                w,
                transp,
                0,
                2 * len,
            )) by {
                let x1 = placed(pix0, img, px, py, w, transp, 0, 2 * len + (r + 1) * w);
                let x2 = placed(pix0, img, px, py, w, transp, 0, 2 * len);
                assert(x1 =~= x2);
            }
        } else {
            assert(fast_rows_ok(s + w2, len, toff + 120, v2, w2));
            assert((py * 240 + px) / 2 + 120 * (r + 1) == toff + 120);
            lemma_fast_rows_places(pix0, img, px, py, w, transp, r + 1, vw);
        }
    }
}

/// Copying `n` bytes from byte `s` reads only image bytes before `end`.
proof fn lemma_copy_line_prefix(pix: Seq<u8>, img: Seq<u8>, s: int, toff: int, n: int, end: int)
    requires
        0 <= s,
        s + n <= end <= img.len(),
    ensures
        copy_line(pix, img, s, toff, n) == copy_line(pix, img.subrange(0, end), s, toff, n),
    decreases n,
{
    if n > 0 {
        lemma_copy_line_prefix(pix, img, s, toff, n - 1, end);
        assert(img.subrange(0, end)[s + n - 1] == img[s + n - 1]);
    }
}

/// The line-by-line copy up to byte `end` reads only image bytes before `end`.
proof fn lemma_fast_rows_prefix(pix: Seq<u8>, img: Seq<u8>, s: int, end: int, toff: int, lb: int, w2: int)
    requires
        0 <= s,
        end <= img.len(),
        fast_rows_ok(s, end, toff, lb, w2),
    ensures
        fast_rows(pix, img, s, end, toff, lb, w2) == fast_rows(pix, img.subrange(0, end), s, end, toff, lb, w2),
    decreases (if s < end && w2 > 0 { end - s } else { 0 }),
{
    if s < end && w2 > 0 {
        lemma_copy_line_prefix(pix, img, s, toff, lb, end);
        if BUFFER_SIZE - toff >= 120 {
            let pix1 = copy_line(pix, img, s, toff, lb);
            lemma_fast_rows_prefix(pix1, img, s + w2, end, toff + 120, lb, w2);
        }
    }
}

/// Cutting the image after its last line on the screen leaves every screen pixel as
/// drawing the whole image would.
proof fn lemma_placed_cut(pix: Seq<u8>, img: Seq<u8>, px: int, py: int, w: int, transp: u8, e: int)
    requires
        pix.len() == N_PIXELS,
        0 < w,
        0 <= e <= img.len(),
        py <= 160,
        2 * e == (160 - py) * w,
    ensures
        placed(pix, img.subrange(0, e), px, py, w, transp, 0, 2 * e) == placed(
            pix,
            img,
            px,
            py,
            w,
            transp,
            0,
            2 * img.len() as int,
        ),
{
    let cut = img.subrange(0, e);
    let a = placed(pix, cut, px, py, w, transp, 0, 2 * e);
    let b = placed(pix, img, px, py, w, transp, 0, 2 * img.len() as int);
    assert forall|j: int| 0 <= j < N_PIXELS implies #[trigger] a[j] == b[j] by {
        let c = col(j) - px;
        let r = row(j) - py;
        assert(row(j) < 160);
        if 0 <= c < w && 0 <= r {
            let k = r * w + c;
            assert(k < 2 * e) by (nonlinear_arith)
                requires
                    0 <= c < w,
                    0 <= r,
                    r <= 159 - py,
                    k == r * w + c,
                    2 * e == (160 - py) * w,
            ;
            assert(0 <= k) by (nonlinear_arith)
                requires
                    0 <= c,
                    0 <= r,
                    0 < w,
                    k == r * w + c,
            ;
            assert(cut[k / 2] == img[k / 2]);
            assert(image_pixel(cut, k) == image_pixel(img, k));
        }
    }
    assert(a =~= b);
}

/// The image lines above the screen land nowhere: placing the pixels of an image
/// from line `m` on gives what placing all of them gives, when line `m` is the
/// first one on the screen or above it.
proof fn lemma_above_screen(pix: Seq<u8>, img: Seq<u8>, px: int, py: int, w: int, transp: u8, m: int, upto: int)
    requires
        pix.len() == N_PIXELS,
        0 < w,
        0 <= m,
        py + m <= 0,
    ensures
        placed(pix, img, px, py, w, transp, m * w, upto) == placed(pix, img, px, py, w, transp, 0, upto),
{
    let a = placed(pix, img, px, py, w, transp, m * w, upto);
    let b = placed(pix, img, px, py, w, transp, 0, upto);
    assert forall|j: int| 0 <= j < N_PIXELS implies #[trigger] a[j] == b[j] by {
        let c = col(j) - px;
        let r = row(j) - py;
        assert(row(j) >= 0);
        if 0 <= c < w && 0 <= r {
            assert(r * w + c >= m * w) by (nonlinear_arith)
                requires
                    0 <= c < w,
                    r >= m,
            ;
        }
    }
    assert(a =~= b);
}

/// Walking over the bytes `[s, e)` of an image, numbered from 0, is walking over
/// the first `e` bytes of it from byte `s`.
proof fn lemma_walk_shift(pix: Seq<u8>, img: Seq<u8>, s: int, e: int, i: int, x: int, y: int, transp: u8, l: int, r: int, skip: int)
    requires
        0 <= s <= i,
        s <= e <= img.len(),
        skip >= 0,
    ensures
        walk(pix, img.subrange(s, e), i - s, x, y, transp, l, r, skip) == walk(
            pix,
            img.subrange(0, e),
            i,
            x,
            y,
            transp,
            l,
            r,
            skip,
        ),
    decreases (if i < e { e - i } else { 0 }),
{
    let a = img.subrange(s, e);
    let b = img.subrange(0, e);
    if i < e {
        assert(a[i - s] == b[i]);
        let bt = b[i];
        let pix1 = put(pix, x, y, hi(bt), transp);
        let x1 = if x + 1 >= r { l } else { x + 1 };
        let y1 = if x + 1 >= r { y + 1 } else { y };
        let i1 = if x + 1 >= r { i + skip } else { i };
        let pix2 = put(pix1, x1, y1, lo(bt), transp);
        let x2 = if x1 + 1 >= r { l } else { x1 + 1 };
        let y2 = if x1 + 1 >= r { y1 + 1 } else { y1 };
        let i2 = if x1 + 1 >= r { i1 + skip } else { i1 };
        lemma_walk_shift(pix2, img, s, e, i2 + 1, x2, y2, transp, l, r, skip);
        assert(i2 + 1 - s == (if x1 + 1 >= r { (if x + 1 >= r { (i - s) + skip } else { i - s }) + skip } else {
            (if x + 1 >= r { (i - s) + skip } else { i - s }) }) + 1);
    }
}

/// A walk that stays right of the screen, or left of it, draws nothing.
proof fn lemma_walk_offscreen(pix: Seq<u8>, img: Seq<u8>, i: int, x: int, y: int, transp: u8, l: int, r: int, skip: int)
    requires
        (x >= 240 && l >= 240) || (x < 0 && l < 0 && r <= 0),
    ensures
        walk(pix, img, i, x, y, transp, l, r, skip) == pix,
    decreases (if i < img.len() { img.len() - i } else { 0 }),
{
    if !(i < 0 || i >= img.len() || skip < 0) {
        let b = img[i];
        let x1 = if x + 1 >= r { l } else { x + 1 };
        let y1 = if x + 1 >= r { y + 1 } else { y };
        let i1 = if x + 1 >= r { i + skip } else { i };
        let x2 = if x1 + 1 >= r { l } else { x1 + 1 };
        let y2 = if x1 + 1 >= r { y1 + 1 } else { y1 };
        let i2 = if x1 + 1 >= r { i1 + skip } else { i1 };
        assert(put(pix, x, y, hi(b), transp) == pix);
        assert(put(pix, x1, y1, lo(b), transp) == pix);
        lemma_walk_offscreen(pix, img, i2 + 1, x2, y2, transp, l, r, skip);
    }
}

/// Copying lines of no bytes changes nothing.
proof fn lemma_fast_rows_nothing(pix: Seq<u8>, img: Seq<u8>, s: int, end: int, toff: int, w2: int)
    ensures
        fast_rows(pix, img, s, end, toff, 0, w2).0 == pix,
    decreases (if s < end && w2 > 0 { end - s } else { 0 }),
{
    if s < end && w2 > 0 {
        assert(copy_line(pix, img, s, toff, 0) == pix);
        if BUFFER_SIZE - toff >= 120 {
            lemma_fast_rows_nothing(pix, img, s + w2, end, toff + 120, w2);
        }
    }
}

/// An image right of the screen, or left of it at an odd column, draws nothing,
/// and none of its pixels has a place on the screen.
proof fn lemma_offscreen_cols(pix: Seq<u8>, bytes: Seq<u8>, w: int, transp: u8, px: int, py: int)
    requires
        pix.len() == N_PIXELS,
        render_ok(bytes, w, transp, None, px, py),
        px >= 240 || (px <= -w && (-px) % 2 == 1),
    ensures
        render_result(pix, bytes, w, transp, None, px, py)
            == placed(pix, bytes, px, py, w, transp, 0, 2 * bytes.len() as int),
{
    let len = bytes.len() as int;
    assert(0 < w);
    let all = placed(pix, bytes, px, py, w, transp, 0, 2 * len);
    assert(all =~= pix) by {
        assert forall|j: int| 0 <= j < N_PIXELS implies #[trigger] all[j] == pix[j] by {
            assert(0 <= col(j) < 240);
        }
    }
    let s = fast_start(py, w);
    if s <= len {
        if let Some(e) = fast_end(py, w, len) {
            let l = fast_left(px);
            let r = fast_right(px, w);
            let k = fast_skip(px, w);
            let top = fast_top(py);
            if fast_copy_taken(px, w, transp) {
                assert(fast_line_bytes(px, w) == 0);
                lemma_fast_rows_nothing(pix, bytes, s, e, fast_toff(px, py), w / 2);
                lemma_walk_offscreen(pix, bytes.subrange(e, e), 0, px, top, transp, l, r, k);
            } else {
                lemma_walk_offscreen(pix, bytes.subrange(s, e), 0, px, top, transp, l, r, k);
            }
        }
    }
}

/// Drawn with its top line at `py`, the image is cut at the top and at the bottom of
/// the screen between two of its pixels: the bytes of its lines above the screen
/// are a whole number, and so are those of its lines down to the bottom of the
/// screen, unless it ends above the bottom.
pub open spec fn image_cut_ok(len: int, width: int, py: int) -> bool {
    &&& (py >= 0 || ((-py) * width) % 2 == 0)
    &&& (py + (2 * len) / width <= 160 || ((160 - py) * width) % 2 == 0)
}

/// The image, drawn with its left column at `px`, lies right of the screen, or left
/// of it with `px` odd, or reaches into the screen's columns and lies within them or
/// has an even width, so that its lines are cut at the sides of the screen between
/// two bytes.
pub open spec fn image_cols_ok(width: int, px: int) -> bool {
    ||| px >= 240
    ||| px <= -width && (-px) % 2 == 1
    ||| -width < px < 240 && ((0 <= px && px + width <= 240) || width % 2 == 0)
}

/// An image lands at its place: after drawing it with its top-left corner at
/// `(px, py)`, the screen pixel in column `px + c` of line `py + r` shows the pixel
/// in column `c` of line `r` of the image, unless that pixel has the transparent
/// color, and every other screen pixel stays as it was. This holds where the image
/// is cut at the sides of the screen between two bytes (see [`image_cols_ok`]) and
/// at its top and bottom between two pixels (see [`image_cut_ok`]).
pub proof fn law_image_drawn_in_place(pix: Seq<u8>, bytes: Seq<u8>, width: int, transp: u8, px: int, py: int)
    requires
        pix.len() == N_PIXELS,
        render_ok(bytes, width, transp, None, px, py),
        image_cols_ok(width, px),
        image_cut_ok(bytes.len() as int, width, py),
    ensures
        render_result(pix, bytes, width, transp, None, px, py)
            == placed(pix, bytes, px, py, width, transp, 0, 2 * bytes.len() as int),
{
    if px >= 240 || (px <= -width && (-px) % 2 == 1) {
        lemma_offscreen_cols(pix, bytes, width, transp, px, py);
        return;
    }
    let len = bytes.len() as int;
    let w = width;
    assert(0 < w);
    let top = fast_top(py);
    let s = fast_start(py, w);
    let r = top - py;
    assert(2 * s == r * w) by {
        if py < 0 {
            assert(((-py) * w) % 2 == 0);
            lemma_fundamental_div_mod((-py) * w, 2);
        }
    }
    assert(r >= 0 && top >= 0);
    if s > len {
        lemma_above_screen(pix, bytes, px, py, w, transp, r, 2 * len);
        assert(placed(pix, bytes, px, py, w, transp, r * w, 2 * len) =~= pix);
        return;
    }
    let h = fast_height(py, w, len);
    lemma_fundamental_div_mod(2 * (len - s), w);
    assert(2 * (len - s) == w * h + (2 * (len - s)) % w);
    assert(2 * len == w * (r + h) + (2 * (len - s)) % w) by (nonlinear_arith)
        requires
            2 * (len - s) == w * h + (2 * (len - s)) % w,
            2 * s == r * w,
    ;
    lemma_fundamental_div_mod_converse(2 * len, w, r + h, (2 * (len - s)) % w);
    assert((2 * len) / w == r + h);
    if top + h <= 160 {
        assert(fast_end(py, w, len) == Some(len));
        lemma_drawn(pix, bytes, w, transp, px, py, s, len);
    } else if top <= 160 {
        assert((160 - top) * w < 2 * (len - s)) by (nonlinear_arith)
            requires
                160 - top < h,
                0 <= 160 - top,
                2 * (len - s) == w * h + (2 * (len - s)) % w,
                0 <= (2 * (len - s)) % w,
                0 < w,
        ;
        assert(((160 - py) * w) % 2 == 0);
        assert((160 - py) * w == (160 - top) * w + r * w) by (nonlinear_arith)
            requires
                r == top - py,
        ;
        assert(((160 - top) * w) % 2 == 0);
        let e = s + ((160 - top) * w) / 2;
        assert(2 * e == (160 - py) * w);
        assert((h - (top + h - 160)) * w == (160 - top) * w);
        assert(fast_end(py, w, len) == Some(e));
        lemma_drawn(pix, bytes, w, transp, px, py, s, e);
    } else {
        assert(py > 160 && s == 0);
        assert(fast_end(py, w, len) is None) by {
            assert((h - (top + h - 160)) * w < 0) by (nonlinear_arith)
                requires
                    top > 160,
                    0 < w,
            ;
        }
        lemma_below_screen(pix, bytes, px, py, w, transp, 0, 2 * len);
        assert(placed(pix, bytes, px, py, w, transp, 0, 0 * w) =~= pix);
    }
}

/// The law once the cuts are known: the image is drawn from byte `s`, its first
/// line on the screen, to byte `e`, the end of its last line on the screen.
proof fn lemma_drawn(pix: Seq<u8>, bytes: Seq<u8>, w: int, transp: u8, px: int, py: int, s: int, e: int)
    requires
        pix.len() == N_PIXELS,
        render_ok(bytes, w, transp, None, px, py),
        -w < px < 240,
        (0 <= px && px + w <= 240) || w % 2 == 0,
        0 < w,
        fast_start(py, w) == s,
        fast_end(py, w, bytes.len() as int) == Some(e),
        0 <= s <= e <= bytes.len(),
        2 * s == (fast_top(py) - py) * w,
        fast_top(py) >= 0,
        fast_top(py) >= py,
        fast_top(py) == py || fast_top(py) == 0,
        py + (2 * bytes.len() as int) / w <= 160 ==> e == bytes.len(),
        e == bytes.len() ==> py + (2 * bytes.len() as int) / w <= 160,
        e < bytes.len() ==> 2 * e == (160 - py) * w,
    ensures
        render_result(pix, bytes, w, transp, None, px, py)
            == placed(pix, bytes, px, py, w, transp, 0, 2 * bytes.len() as int),
{
    let len = bytes.len() as int;
    let top = fast_top(py);
    let r = top - py;
    let cut = bytes.subrange(0, e);
    assert(cut.len() == e);
    let all = placed(pix, bytes, px, py, w, transp, 0, 2 * len);
    // The cut image places the pixels on the screen as the whole image does.
    if e == len {
        assert(cut =~= bytes);
    } else {
        assert(160 - py >= 0) by (nonlinear_arith)
            requires
                2 * e == (160 - py) * w,
                e >= 0,
                0 < w,
        ;
        lemma_placed_cut(pix, bytes, px, py, w, transp, e);
    }
    assert(placed(pix, cut, px, py, w, transp, 0, 2 * e) == all);
    assert(py + (2 * e) / w <= 160) by {
        if e < len {
            lemma_fundamental_div_mod_converse(2 * e, w, 160 - py, 0);
        }
    }
    // The first byte drawn starts line `r` of the image.
    lemma_fundamental_div_mod_converse(2 * s, w, r, 0);
    assert((2 * s) % w == 0 && (2 * s) / w == r);
    if r > 0 {
        assert(top == 0);
        lemma_above_screen(pix, cut, px, py, w, transp, r, 2 * e);
    } else {
        assert(r * w == 0);
    }
    assert(placed(pix, cut, px, py, w, transp, r * w, 2 * e) == placed(pix, cut, px, py, w, transp, 0, 2 * e));
    assert(bytes.subrange(s, e) =~= cut.subrange(s, e));
    assert(cut.subrange(0, e) =~= cut);
    let ls = if px < 0 { (-px) / 2 } else { 0 };
    let rs = if px + w > 240 { (px + w - 240) / 2 } else { 0 };
    assert(fast_left(px) == px + 2 * ls);
    assert(fast_right(px, w) == px + w - 2 * rs);
    assert(fast_skip(px, w) == ls + rs);
    if fast_copy_taken(px, w, transp) {
        let vw = w - 2 * rs;
        let toff = fast_toff(px, py);
        assert(px == 2 * (px / 2));
        lemma_fundamental_div_mod_converse(top * 240 + px, 2, top * 120 + px / 2, 0);
        lemma_fundamental_div_mod_converse(py * 240 + px, 2, py * 120 + px / 2, 0);
        assert(toff == (py * 240 + px) / 2 + 120 * r);
        assert(w % 2 == 0);
        assert(vw % 2 == 0 && 0 < vw <= w);
        assert(fast_line_bytes(px, w) == vw / 2);
        assert(s == r * (w / 2)) by (nonlinear_arith)
            requires
                2 * s == r * w,
                w % 2 == 0,
        ;
        lemma_fast_rows_prefix(pix, bytes, s, e, toff, vw / 2, w / 2);
        if r > 0 {
            lemma_above_screen(pix, cut, px, py, w, transp, r, r * w);
        } else {
            assert(r * w == 0);
        }
        assert(placed(pix, cut, px, py, w, transp, r * w, r * w) =~= pix);
        assert(placed(pix, cut, px, py, w, transp, 0, r * w) == pix);
        lemma_fast_rows_places(pix, cut, px, py, w, transp, r, vw);
        let copied = fast_rows(pix, cut, s, e, toff, vw / 2, w / 2);
        assert(copied.0 == all);
        assert(bytes.subrange(e, e) =~= Seq::<u8>::empty());
        assert(walk(all, bytes.subrange(e, e), 0, px, top, transp, fast_left(px), fast_right(px, w), fast_skip(px, w))
            == all);
        assert(render_result(pix, bytes, w, transp, None, px, py) == all);
    } else {
        lemma_walk_shift(pix, bytes, s, e, s, px, top, transp, fast_left(px), fast_right(px, w), fast_skip(px, w));
        if 0 <= px && px + w <= 240 {
            lemma_walk_places(pix, cut, s, px, py, w, transp);
        } else {
            assert(w % 2 == 0);
            assert(2 * ls + 2 * rs < w);
            lemma_walk_clipped(pix, cut, s, px, py, w, transp, ls, rs);
        }
        assert(render_result(pix, bytes, w, transp, None, px, py) == all);
    }
}

} // verus!
