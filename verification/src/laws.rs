//! Laws that the operations obey on every raster and structuring element.

use crate::decode::{decoded, LOAD_THRESHOLD, MAX_SIDE};
use crate::grid::{lemma_offset, lemma_position};
use crate::image::ImageView;
use crate::kernel::{KernelVal, KernelView};
use crate::pixel::{black, white};
use crate::session::{Msg, SessionView};
use vstd::prelude::*;

verus! {

/// Wrapping the buffer of a raster gives the raster back.
pub proof fn lemma_bytes_hold(r: ImageView)
    requires
        r.wf(),
    ensures
        r.bytes().len() == 4 * (r.width * r.height),
        ImageView::from_bytes(r.bytes(), r.width, r.height) == r,
{
    assert(ImageView::from_bytes(r.bytes(), r.width, r.height).pixels =~= r.pixels);
}

/// The buffer of the raster that wraps a buffer of four bytes per position
/// is that buffer.
pub proof fn lemma_held_bytes(bytes: Seq<u8>, width: nat, height: nat)
    requires
        bytes.len() == 4 * (width * height),
    ensures
        ImageView::from_bytes(bytes, width, height).bytes() == bytes,
{
    assert(ImageView::from_bytes(bytes, width, height).bytes() =~= bytes);
}

/// A binarized raster shows nothing but opaque black and opaque white, so
/// every channel of every pixel is 0 or 255.
pub proof fn lemma_binarize_binary(r: ImageView, threshold: u8)
    ensures
        r.binarize(threshold).binary(),
        forall|i: int, c: int|
            0 <= i < r.binarize(threshold).pixels.len() && 0 <= c < 4 ==> {
                let v = #[trigger] r.binarize(threshold).pixels[i].channel(c);
                v == 0 || v == 255
            },
{
}

/// Binarizing a binarized raster with the same threshold changes nothing.
pub proof fn lemma_binarize_idempotent(r: ImageView, threshold: u8)
    ensures
        r.binarize(threshold).binarize(threshold) == r.binarize(threshold),
{
    assert(r.binarize(threshold).binarize(threshold).pixels =~= r.binarize(threshold).pixels);
}

/// Erosion by the element of one foreground cell is the identity.
pub proof fn lemma_erode_unit(r: ImageView, kernel: KernelView)
    requires
        r.wf(),
        kernel.wf(),
        kernel.dimension == 1,
        kernel.get(0, 0) == KernelVal::One,
    ensures
        r.erode(kernel) == r,
{
    assert forall|x: int, y: int| r.contains(x, y) implies r.erode(kernel).at(x, y) == r.at(x, y) by {
        r.lemma_erode_at(kernel, x, y);
        reveal_with_fuel(ImageView::scan_min, 2);
        assert(r.seen(kernel, x, y, 0) == r.at(x, y));
    }
    r.erode(kernel).lemma_ext_equal(r);
}

/// Dilation by the element of one foreground cell is the identity on
/// opaque rasters.
pub proof fn lemma_dilate_unit(r: ImageView, kernel: KernelView)
    requires
        r.wf(),
        r.opaque(),
        kernel.wf(),
        kernel.dimension == 1,
        kernel.get(0, 0) == KernelVal::One,
    ensures
        r.dilate(kernel) == r,
{
    assert forall|x: int, y: int| r.contains(x, y) implies r.dilate(kernel).at(x, y) == r.at(x, y) by {
        r.lemma_dilate_at(kernel, x, y);
        lemma_offset(r.width as int, r.height as int, x, y);
        reveal_with_fuel(ImageView::scan_max, 2);
        assert(r.seen(kernel, x, y, 0) == r.at(x, y));
    }
    r.dilate(kernel).lemma_ext_equal(r);
}

/// A dilated raster is opaque, whatever the structuring element; so
/// dilation is the identity on no raster that is not.
pub proof fn lemma_dilate_opaque(r: ImageView, kernel: KernelView)
    requires
        r.wf(),
    ensures
        r.dilate(kernel).opaque(),
{
    let dilated = r.dilate(kernel);
    assert forall|i: int| 0 <= i < dilated.pixels.len() implies (#[trigger] dilated.pixels[i]).3
        == 255 by {
        lemma_position(r.width as int, r.height as int, i);
        r.lemma_dilate_at_alpha(kernel, i % (r.width as int), i / (r.width as int));
    }
}

/// A raster of opaque black and opaque white is opaque.
pub proof fn lemma_binary_opaque(r: ImageView)
    requires
        r.binary(),
    ensures
        r.opaque(),
{
}

/// On a raster of black and white every running extremum is black or
/// white.
proof fn lemma_scan_binary(r: ImageView, kernel: KernelView, x: int, y: int, n: nat)
    requires
        r.wf(),
        r.binary(),
        r.contains(x, y),
    ensures
        r.scan_max(kernel, x, y, n) == black() || r.scan_max(kernel, x, y, n) == white(),
        r.scan_min(kernel, x, y, n) == black() || r.scan_min(kernel, x, y, n) == white(),
    decreases n,
{
    if n > 0 {
        lemma_scan_binary(r, kernel, x, y, (n - 1) as nat);
        let i = (n - 1) % (kernel.dimension as int);
        let j = (n - 1) / (kernel.dimension as int);
        let nx = x + i - kernel.center();
        let ny = y + j - kernel.center();
        lemma_offset(r.width as int, r.height as int, x, y);
        if r.contains(nx, ny) {
            lemma_offset(r.width as int, r.height as int, nx, ny);
        }
        let seen = r.seen(kernel, x, y, n - 1);
        assert(seen == black() || seen == white());
    }
}

/// Dilation and erosion of a raster of black and white give rasters of
/// black and white.
pub proof fn lemma_extrema_binary(r: ImageView, kernel: KernelView)
    requires
        r.wf(),
        r.binary(),
    ensures
        r.dilate(kernel).binary(),
        r.erode(kernel).binary(),
{
    let dilated = r.dilate(kernel);
    let eroded = r.erode(kernel);
    assert forall|i: int| 0 <= i < dilated.pixels.len() implies #[trigger] dilated.pixels[i]
        == black() || dilated.pixels[i] == white() by {
        lemma_position(r.width as int, r.height as int, i);
        lemma_scan_binary(
            r,
            kernel,
            i % (r.width as int),
            i / (r.width as int),
            kernel.cells.len(),
        );
    }
    assert forall|i: int| 0 <= i < eroded.pixels.len() implies #[trigger] eroded.pixels[i]
        == black() || eroded.pixels[i] == white() by {
        lemma_position(r.width as int, r.height as int, i);
        lemma_scan_binary(
            r,
            kernel,
            i % (r.width as int),
            i / (r.width as int),
            kernel.cells.len(),
        );
    }
}

/// Opening and closing of a raster of black and white give rasters of
/// black and white.
pub proof fn lemma_open_close_binary(r: ImageView, kernel: KernelView)
    requires
        r.wf(),
        r.binary(),
    ensures
        r.open(kernel).binary(),
        r.close(kernel).binary(),
{
    let flat = KernelView::full(kernel.dimension);
    lemma_extrema_binary(r, flat);
    lemma_extrema_binary(r.erode(flat), flat);
    lemma_extrema_binary(r.dilate(flat), flat);
}

/// The raster of matches is a raster of black and white, and thinning and
/// thickening keep a raster of black and white so.
pub proof fn lemma_matching_binary(r: ImageView, kernel: KernelView)
    requires
        r.wf(),
    ensures
        r.hit_or_miss(kernel).binary(),
        r.binary() ==> r.thinning(kernel).binary() && r.thickening(kernel).binary(),
{
    if r.binary() {
        let thin = r.thinning(kernel);
        let thick = r.thickening(kernel);
        assert forall|i: int| 0 <= i < thin.pixels.len() implies #[trigger] thin.pixels[i] == black()
            || thin.pixels[i] == white() by {
            lemma_position(r.width as int, r.height as int, i);
            assert(r.pixels[i] == black() || r.pixels[i] == white());
        }
        assert forall|i: int| 0 <= i < thick.pixels.len() implies #[trigger] thick.pixels[i]
            == black() || thick.pixels[i] == white() by {
            lemma_position(r.width as int, r.height as int, i);
            assert(r.pixels[i] == black() || r.pixels[i] == white());
        }
    }
}

/// Against an element that cares about no cell every position matches: the
/// raster of matches is white throughout.
pub proof fn lemma_hit_or_miss_dont_care(r: ImageView, kernel: KernelView)
    requires
        r.wf(),
        kernel.wf(),
        kernel.all(KernelVal::DontCare),
    ensures
        r.hit_or_miss(kernel) == ImageView::filled(r.width, r.height, white()),
{
    let all_white = ImageView::filled(r.width, r.height, white());
    assert forall|x: int, y: int| r.contains(x, y) implies r.hit_or_miss(kernel).at(x, y)
        == all_white.at(x, y) by {
        ImageView::lemma_tabulate_at(
            r.width,
            r.height,
            |x: int, y: int| r.hit_or_miss_at(kernel, x, y),
            x,
            y,
        );
        ImageView::lemma_tabulate_at(r.width, r.height, |x: int, y: int| white(), x, y);
        assert forall|i: int, j: int| kernel.contains(i, j) implies #[trigger] r.cell_matches(
            kernel,
            x,
            y,
            i,
            j,
        ) by {
            lemma_offset(kernel.dimension as int, kernel.dimension as int, i, j);
        }
    }
    r.hit_or_miss(kernel).lemma_ext_equal(all_white);
}

/// Thinning leaves a black pixel black.
pub proof fn lemma_thinning_keeps_black(r: ImageView, kernel: KernelView, x: int, y: int)
    requires
        r.contains(x, y),
        r.at(x, y) == black(),
    ensures
        r.thinning(kernel).at(x, y) == black(),
{
    ImageView::lemma_tabulate_at(
        r.width,
        r.height,
        |x: int, y: int| r.marked_at(kernel, black(), x, y),
        x,
        y,
    );
}

/// Thickening leaves a white pixel white.
pub proof fn lemma_thickening_keeps_white(r: ImageView, kernel: KernelView, x: int, y: int)
    requires
        r.contains(x, y),
        r.at(x, y) == white(),
    ensures
        r.thickening(kernel).at(x, y) == white(),
{
    ImageView::lemma_tabulate_at(
        r.width,
        r.height,
        |x: int, y: int| r.marked_at(kernel, white(), x, y),
        x,
        y,
    );
}

/// Eroding an opening gives, on the color channels, the erosion that the
/// opening was made from.
proof fn lemma_erode_of_opening(r: ImageView, side: nat, x: int, y: int, c: int)
    requires
        r.wf(),
        side % 2 == 1,
        r.contains(x, y),
        0 <= c < 3,
    ensures
        ({
            let flat = KernelView::full(side);
            r.erode(flat).dilate(flat).erode(flat).at(x, y).channel(c) == r.erode(flat).at(
                x,
                y,
            ).channel(c)
        }),
{
    let flat = KernelView::full(side);
    let eroded = r.erode(flat);
    let opened = eroded.dilate(flat);
    opened.lemma_erode_at(flat, x, y);
    r.lemma_erode_at(flat, x, y);
    // No smaller: the new minimum is an opened pixel near (x, y), and that
    // pixel is a maximum over a window that holds (x, y).
    let (qx, qy) = opened.lemma_flat_erode_attained(side, x, y, c);
    eroded.lemma_dilate_at(flat, qx, qy);
    eroded.lemma_flat_dilate_upper(side, qx, qy, x, y, c);
    // No larger: the old minimum is a pixel of `r` near (x, y); the opened
    // pixel there is an eroded pixel nearby, which that pixel of `r` bounds.
    let (px, py) = r.lemma_flat_erode_attained(side, x, y, c);
    eroded.lemma_dilate_at(flat, px, py);
    let (sx, sy) = eroded.lemma_flat_dilate_attained(side, px, py, c);
    r.lemma_erode_at(flat, sx, sy);
    r.lemma_flat_erode_lower(side, sx, sy, px, py, c);
    opened.lemma_flat_erode_lower(side, x, y, px, py, c);
}

/// Dilating a closing gives, on the color channels, the dilation that the
/// closing was made from.
proof fn lemma_dilate_of_closing(r: ImageView, side: nat, x: int, y: int, c: int)
    requires
        r.wf(),
        side % 2 == 1,
        r.contains(x, y),
        0 <= c < 3,
    ensures
        ({
            let flat = KernelView::full(side);
            r.dilate(flat).erode(flat).dilate(flat).at(x, y).channel(c) == r.dilate(flat).at(
                x,
                y,
            ).channel(c)
        }),
{
    let flat = KernelView::full(side);
    let dilated = r.dilate(flat);
    let closed = dilated.erode(flat);
    closed.lemma_dilate_at(flat, x, y);
    r.lemma_dilate_at(flat, x, y);
    // No larger: the new maximum is a closed pixel near (x, y), and that
    // pixel is a minimum over a window that holds (x, y).
    let (qx, qy) = closed.lemma_flat_dilate_attained(side, x, y, c);
    dilated.lemma_erode_at(flat, qx, qy);
    dilated.lemma_flat_erode_lower(side, qx, qy, x, y, c);
    // No smaller: the old maximum is a pixel of `r` near (x, y); the closed
    // pixel there is a dilated pixel nearby, which bounds that pixel of `r`.
    let (px, py) = r.lemma_flat_dilate_attained(side, x, y, c);
    dilated.lemma_erode_at(flat, px, py);
    let (sx, sy) = dilated.lemma_flat_erode_attained(side, px, py, c);
    r.lemma_dilate_at(flat, sx, sy);
    r.lemma_flat_dilate_upper(side, sx, sy, px, py, c);
    closed.lemma_flat_dilate_upper(side, x, y, px, py, c);
}

/// Opening an opening gives, on the color channels, the opening.
proof fn lemma_open_channel(r: ImageView, side: nat, x: int, y: int, c: int)
    requires
        r.wf(),
        side % 2 == 1,
        r.contains(x, y),
        0 <= c < 3,
    ensures
        ({
            let flat = KernelView::full(side);
            r.erode(flat).dilate(flat).erode(flat).dilate(flat).at(x, y).channel(c) == r.erode(
                flat,
            ).dilate(flat).at(x, y).channel(c)
        }),
{
    let flat = KernelView::full(side);
    let eroded = r.erode(flat);
    let opened = eroded.dilate(flat);
    let again = opened.erode(flat);
    again.lemma_dilate_at(flat, x, y);
    eroded.lemma_dilate_at(flat, x, y);
    let (ax, ay) = again.lemma_flat_dilate_attained(side, x, y, c);
    lemma_erode_of_opening(r, side, ax, ay, c);
    eroded.lemma_flat_dilate_upper(side, x, y, ax, ay, c);
    let (bx, by) = eroded.lemma_flat_dilate_attained(side, x, y, c);
    lemma_erode_of_opening(r, side, bx, by, c);
    again.lemma_flat_dilate_upper(side, x, y, bx, by, c);
}

/// Closing a closing gives, on the color channels, the closing.
proof fn lemma_close_channel(r: ImageView, side: nat, x: int, y: int, c: int)
    requires
        r.wf(),
        side % 2 == 1,
        r.contains(x, y),
        0 <= c < 3,
    ensures
        ({
            let flat = KernelView::full(side);
            r.dilate(flat).erode(flat).dilate(flat).erode(flat).at(x, y).channel(c) == r.dilate(
                flat,
            ).erode(flat).at(x, y).channel(c)
        }),
{
    let flat = KernelView::full(side);
    let dilated = r.dilate(flat);
    let closed = dilated.erode(flat);
    let again = closed.dilate(flat);
    again.lemma_erode_at(flat, x, y);
    dilated.lemma_erode_at(flat, x, y);
    let (ax, ay) = again.lemma_flat_erode_attained(side, x, y, c);
    lemma_dilate_of_closing(r, side, ax, ay, c);
    dilated.lemma_flat_erode_lower(side, x, y, ax, ay, c);
    let (bx, by) = dilated.lemma_flat_erode_attained(side, x, y, c);
    lemma_dilate_of_closing(r, side, bx, by, c);
    again.lemma_flat_erode_lower(side, x, y, bx, by, c);
}

/// An erosion, by a flat element, of a raster that came out of a dilation
/// has full alpha.
proof fn lemma_erode_of_dilated_alpha(r: ImageView, kernel: KernelView, side: nat, x: int, y: int)
    requires
        r.wf(),
        side % 2 == 1,
        r.contains(x, y),
    ensures
        r.dilate(kernel).erode_at(KernelView::full(side), x, y).3 == 255,
{
    let dilated = r.dilate(kernel);
    let (ax, ay) = dilated.lemma_flat_erode_attained(side, x, y, 3);
    r.lemma_dilate_at(kernel, ax, ay);
    r.lemma_dilate_at_alpha(kernel, ax, ay);
}

/// Opening is idempotent: opening an opened raster with a structuring
/// element of the same size gives the opened raster back.
pub proof fn lemma_open_idempotent(r: ImageView, kernel: KernelView)
    requires
        r.wf(),
        kernel.wf(),
    ensures
        r.open(kernel).open(kernel) == r.open(kernel),
{
    let side = kernel.dimension;
    let flat = KernelView::full(side);
    let once = r.open(kernel);
    let twice = once.open(kernel);
    assert forall|x: int, y: int| twice.contains(x, y) implies twice.at(x, y) == once.at(x, y) by {
        lemma_open_channel(r, side, x, y, 0);
        lemma_open_channel(r, side, x, y, 1);
        lemma_open_channel(r, side, x, y, 2);
        once.erode(flat).lemma_dilate_at(flat, x, y);
        once.erode(flat).lemma_dilate_at_alpha(flat, x, y);
        r.erode(flat).lemma_dilate_at(flat, x, y);
        r.erode(flat).lemma_dilate_at_alpha(flat, x, y);
    }
    twice.lemma_ext_equal(once);
}

/// Closing is idempotent: closing a closed raster with a structuring
/// element of the same size gives the closed raster back.
pub proof fn lemma_close_idempotent(r: ImageView, kernel: KernelView)
    requires
        r.wf(),
        kernel.wf(),
    ensures
        r.close(kernel).close(kernel) == r.close(kernel),
{
    let side = kernel.dimension;
    let flat = KernelView::full(side);
    let once = r.close(kernel);
    let twice = once.close(kernel);
    assert forall|x: int, y: int| twice.contains(x, y) implies twice.at(x, y) == once.at(x, y) by {
        lemma_close_channel(r, side, x, y, 0);
        lemma_close_channel(r, side, x, y, 1);
        lemma_close_channel(r, side, x, y, 2);
        once.dilate(flat).lemma_erode_at(flat, x, y);
        lemma_erode_of_dilated_alpha(once, flat, side, x, y);
        r.dilate(flat).lemma_erode_at(flat, x, y);
        lemma_erode_of_dilated_alpha(r, flat, side, x, y);
    }
    twice.lemma_ext_equal(once);
}

/// A session whose rasters show only opaque black and white stays so,
/// whatever message it takes: a load binarizes, and no operation leads out
/// of black and white.
pub proof fn lemma_session_settled(s: SessionView, msg: Msg)
    requires
        s.settled(),
        s.accepts(msg),
    ensures
        s.update(msg).settled(),
{
    match msg {
        Msg::FileLoaded(data) => {
            if let Some((bytes, width, height)) = decoded(data@, MAX_SIDE) {
                lemma_binarize_binary(
                    ImageView::from_bytes(bytes, width as nat, height as nat),
                    LOAD_THRESHOLD,
                );
            }
        },
        Msg::FileUpload | Msg::RadiusChanged(_) => {},
        Msg::ToggleKernel(x, y, _) => {
            lemma_offset(s.kernel.dimension as int, s.kernel.dimension as int, x as int, y as int);
        },
        Msg::ToggleKernelDontCare(x, y) => {
            lemma_offset(s.kernel.dimension as int, s.kernel.dimension as int, x as int, y as int);
        },
        _ => {
            if let Some(image) = s.image {
                lemma_extrema_binary(image, s.kernel);
                lemma_open_close_binary(image, s.kernel);
                lemma_matching_binary(image, s.kernel);
            }
        },
    }
}

} // verus!
