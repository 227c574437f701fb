use vstd::prelude::*;
use crate::frame_buffer::{FrameBuffer, col, row, idx, on_screen, lemma_idx, N_PIXELS};

verus! {

/// The QR code of the data as text: one line per row of modules, `#` for a dark
/// module and a space for a light one, with the quiet zone around; none if no QR
/// code can hold the data.
pub uninterp spec fn qr_text_of(data: Seq<u8>) -> Option<Seq<u8>>;

/// `tinyqr::QrCode::new` and its text rendering (dark `#`, light space, one
/// character per module, lines joined by line breaks): the text for the data,
/// if a QR code can hold the data. Whether it can, and the text, depend on the
/// data alone. The text has only `#`, spaces, and line breaks.
#[verifier::external_body]
fn qr_text(data: &[u8]) -> (res: Option<Vec<u8>>)
    ensures
        res is Some <==> qr_text_of(data@) is Some,
        res matches Some(t) ==> qr_text_of(data@) == Some(t@),
        res matches Some(t) ==> forall|i: int| 0 <= i < t@.len() ==> (#[trigger] t@[i] == 35u8 || t@[i] == 32u8 || t@[i] == 10u8),
{
    let code = tinyqr::QrCode::new(data).ok()?;
    Some(code.render::<char>().dark_color('#').light_color(' ').module_dimensions(1, 1).build().into_bytes())
}

/// The text without its line breaks.
pub open spec fn modules(t: Seq<u8>) -> Seq<u8>
    decreases t.len(),
{
    if t.len() == 0 {
        t
    } else if t.last() == 10 {
        modules(t.drop_last())
    } else {
        modules(t.drop_last()).push(t.last())
    }
}

/// The index of the first line break, or 0 if there is none: the QR code width.
pub open spec fn first_line_len(t: Seq<u8>) -> int {
    if exists|i: int| 0 <= i < t.len() && t[i] == 10 {
        choose|i: int| 0 <= i < t.len() && t[i] == 10 && forall|j: int| 0 <= j < i ==> t[j] != 10
    } else {
        0
    }
}

/// The color of the screen pixel `i` after drawing the QR code text with its top-left
/// module at `(x, y)` as a `w` by `w` square: the `k`-th module (line breaks skipped)
/// goes to the `k`-th point of the square, row by row; a `#` module gets `black`,
/// any other `white`; a missing color leaves the pixel as it is.
pub open spec fn qr_pixel(old: u8, i: int, m: Seq<u8>, w: int, x: int, y: int, black: Option<u8>, white: Option<u8>) -> u8 {
    let dx = col(i) - x;
    let dy = row(i) - y;
    let k = dy * w + dx;
    if 0 <= dx < w && 0 <= dy < w && k < m.len() {
        let c = if m[k] == 35 { black } else { white };
        match c {
            Some(v) => v,
            None => old,
        }
    } else {
        old
    }
}

/// The first `n` bytes without line breaks: how many modules they hold.
proof fn lemma_modules_push(t: Seq<u8>, n: int)
    requires
        0 <= n < t.len(),
    ensures
        modules(t.subrange(0, n + 1)) == (if t[n] == 10 {
            modules(t.subrange(0, n))
        } else {
            modules(t.subrange(0, n)).push(t[n])
        }),
{
    assert(t.subrange(0, n + 1).drop_last() =~= t.subrange(0, n));
}

/// Find the first line break.
fn find_line_break(t: &Vec<u8>) -> (res: usize)
    ensures
        res == first_line_len(t@),
{
    let n = t.len();
    let mut i: usize = 0;
    while i < n
        invariant
            n == t@.len(),
            0 <= i <= n,
            forall|j: int| 0 <= j < i ==> t@[j] != 10,
        decreases n - i,
    {
        if t[i] == 10 {
            proof {
                let c = choose|c: int| 0 <= c < t@.len() && t@[c] == 10 && forall|j: int| 0 <= j < c ==> t@[j] != 10;
                if c < i {
                    assert(t@[c] != 10);
                }
                if c > i {
                    assert(t@[i as int] != 10);
                }
            }
            return i;
        }
        i = i + 1;
    }
    0
}

/// The palette index of a QR code color given by the app, or None for 0.
pub open spec fn qr_color(c: i32) -> Option<u8> {
    if c == 0 { None } else { Some((((c as u8) - 1) as u8) & 15u8) }
}

/// The screen pixel `i` is the point of the `k`-th module of a `w` by `w` square at `(x, y)`.
pub open spec fn module_point(i: int, k: int, w: int, x: int, y: int) -> bool {
    let dx = col(i) - x;
    let dy = row(i) - y;
    0 <= dx < w && 0 <= dy < w && dy * w + dx == k
}

/// Adding one module changes only the pixel of that module.
proof fn lemma_qr_pixel_push(o: u8, i: int, m: Seq<u8>, c: u8, w: int, x: int, y: int, black: Option<u8>, white: Option<u8>)
    ensures
        qr_pixel(o, i, m.push(c), w, x, y, black, white) == (if module_point(i, m.len() as int, w, x, y) {
            match (if c == 35 { black } else { white }) {
                Some(v) => v,
                None => qr_pixel(o, i, m, w, x, y, black, white),
            }
        } else {
            qr_pixel(o, i, m, w, x, y, black, white)
        }),
{
}

/// Draw the `k`-th module of a `w` by `w` square at `(x, y)` with the color, if any.
fn put_module(frame: &mut FrameBuffer, k: usize, w: usize, x: i32, y: i32, color: Option<u8>)
    requires
        old(frame).wf(),
        color matches Some(v) ==> v < 16,
    ensures
        final(frame).wf(),
        final(frame).palette == old(frame).palette,
        final(frame).dirty == old(frame).dirty,
        forall|i: int| 0 <= i < N_PIXELS ==> #[trigger] final(frame).pixel(i) == (if module_point(i, k as int, w as int, x as int, y as int) {
            match color {
                Some(v) => v,
                None => old(frame).pixel(i),
            }
        } else {
            old(frame).pixel(i)
        }),
{
    if w == 0 || k / w >= w {
        proof {
            assert forall|i: int| 0 <= i < N_PIXELS implies !module_point(i, k as int, w as int, x as int, y as int) by {
                let dx = col(i) - x;
                let dy = row(i) - y;
                if 0 <= dx < w && 0 <= dy < w {
                    assert(dy * w + dx < k) by (nonlinear_arith)
                        requires
                            0 <= dx < w,
                            0 <= dy < w,
                            k / w >= w,
                            k >= 0,
                    ;
                }
            }
        }
        return;
    }
    let px: i128 = x as i128 + (k % w) as i128;
    let py: i128 = y as i128 + (k / w) as i128;
    assert(0 <= k % w < w && k / w < w && k == (k / w) * w + k % w) by (nonlinear_arith)
        requires
            w > 0,
            k / w < w,
    ;
    let ghost before = *frame;
    if let Some(v) = color {
        if px >= 0 && py >= 0 && px < 240 && py < 160 {
            frame.set_pixel(px as i32, py as i32, v);
        }
    }
    proof {
        assert forall|i: int| 0 <= i < N_PIXELS implies #[trigger] frame.pixel(i) == (if module_point(i, k as int, w as int, x as int, y as int) {
            match color {
                Some(v) => v,
                None => before.pixel(i),
            }
        } else {
            before.pixel(i)
        }) by {
            let dx = col(i) - x;
            let dy = row(i) - y;
            if module_point(i, k as int, w as int, x as int, y as int) {
                assert(dy == k / w && dx == k % w) by (nonlinear_arith)
                    requires
                        0 <= dx < w,
                        0 <= dy < w,
                        dy * w + dx == k,
                        w > 0,
                ;
                assert(col(i) == px && row(i) == py);
                assert(0 <= px < 240 && 0 <= py < 160);
                lemma_idx(px as int, py as int);
            } else {
                if on_screen(px as int, py as int) {
                    lemma_idx(px as int, py as int);
                    if i == idx(px as int, py as int) {
                        assert(dx == k % w && dy == k / w);
                    }
                }
            }
        }
    }
}

/// Draw the text of a QR code (see [`qr_pixel`]) onto the frame buffer.
pub fn draw_qr_text(frame: &mut FrameBuffer, t: &Vec<u8>, x: i32, y: i32, black: Option<u8>, white: Option<u8>)
    requires
        old(frame).wf(),
        black matches Some(b) ==> b < 16,
        white matches Some(v) ==> v < 16,
    ensures
        final(frame).wf(),
        final(frame).palette == old(frame).palette,
        final(frame).dirty,
        forall|i: int| 0 <= i < N_PIXELS ==> #[trigger] final(frame).pixel(i) == qr_pixel(
            old(frame).pixel(i),
            i,
            modules(t@),
            first_line_len(t@),
            x as int,
            y as int,
            black,
            white,
        ),
{
    frame.dirty = true;
    let w = find_line_break(t);
    let n = t.len();
    let mut j: usize = 0;
    let mut k: usize = 0;
    proof {
        assert(t@.subrange(0, 0) =~= Seq::<u8>::empty());
    }
    while j < n
        invariant
            n == t@.len(),
            0 <= j <= n,
            w == first_line_len(t@),
            k == modules(t@.subrange(0, j as int)).len(),
            k <= j,
            frame.wf(),
            frame.dirty,
            frame.palette == old(frame).palette,
            black matches Some(b) ==> b < 16,
            white matches Some(v) ==> v < 16,
            forall|i: int| 0 <= i < N_PIXELS ==> #[trigger] frame.pixel(i) == qr_pixel(
                old(frame).pixel(i),
                i,
                modules(t@.subrange(0, j as int)),
                w as int,
                x as int,
                y as int,
                black,
                white,
            ),
        decreases n - j,
    {
        proof {
            lemma_modules_push(t@, j as int);
        }
        let c = t[j];
        if c != 10 {
            let ghost m0 = modules(t@.subrange(0, j as int));
            let color = if c == 35 { black } else { white };
            let ghost before = *frame;
            put_module(frame, k, w, x, y, color);
            proof {
                assert forall|i: int| 0 <= i < N_PIXELS implies #[trigger] frame.pixel(i) == qr_pixel(
                    old(frame).pixel(i),
                    i,
                    m0.push(c),
                    w as int,
                    x as int,
                    y as int,
                    black,
                    white,
                ) by {
                    lemma_qr_pixel_push(old(frame).pixel(i), i, m0, c, w as int, x as int, y as int, black, white);
                    assert(before.pixel(i) == qr_pixel(old(frame).pixel(i), i, m0, w as int, x as int, y as int, black, white));
                }
            }
            k = k + 1;
        }
        j = j + 1;
    }
    proof {
        assert(t@.subrange(0, n as int) =~= t@);
    }
}

/// Why a QR code cannot be drawn.
#[derive(Debug, Clone, Copy, PartialEq, Eq, Structural)]
pub enum QrError {
    /// The data doesn't fit into a QR code.
    CannotConstruct,
}

/// Draw a QR code of the text with its top-left corner at `(x, y)`, one pixel per module.
///
/// The colors are given as by the app: 0 is no color (those modules are not drawn),
/// other values are the palette index plus one.
pub fn draw_qr(frame: &mut FrameBuffer, text: &[u8], x: i32, y: i32, black: i32, white: i32) -> (res: Result<(), QrError>)
    requires
        old(frame).wf(),
        black == 0 || (black as u8) != 0,
        white == 0 || (white as u8) != 0,
    ensures
        final(frame).wf(),
        final(frame).palette == old(frame).palette,
        res is Err <==> qr_text_of(text@) is None,
        res is Err ==> *final(frame) == *old(frame),
        res is Ok ==> {
            let t = qr_text_of(text@)->0;
            &&& final(frame).dirty
            &&& forall|i: int| 0 <= i < N_PIXELS ==> #[trigger] final(frame).pixel(i) == qr_pixel(
                old(frame).pixel(i),
                i,
                modules(t),
                first_line_len(t),
                x as int,
                y as int,
                qr_color(black),
                qr_color(white),
            )
        },
{
    let t = match qr_text(text) {
        Some(t) => t,
        None => return Err(QrError::CannotConstruct),
    };
    let b = if black != 0 { Some(((black as u8) - 1) & 15u8) } else { None };
    let w = if white != 0 { Some(((white as u8) - 1) & 15u8) } else { None };
    proof {
        if black != 0 {
            let v = ((black as u8) - 1) as u8;
            assert(v & 15u8 < 16) by (bit_vector);
        }
        if white != 0 {
            let v = ((white as u8) - 1) as u8;
            assert(v & 15u8 < 16) by (bit_vector);
        }
    }
    draw_qr_text(frame, &t, x, y, b, w);
    Ok(())
}

} // verus!
