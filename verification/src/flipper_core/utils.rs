//! Frame utilities: zlib compression of frame deltas and the conversion of a captured frame
//! into RGBA image bytes.
use crate::error::CompressionError;
use flate2::read::ZlibDecoder;
use flate2::write::ZlibEncoder;
use flate2::Compression;
use std::io::{Read, Write};
use vstd::prelude::*;

verus! {

/// What `flate2`'s zlib encoder, at the default level, produces from `data`.
pub uninterp spec fn zlib_compressed(data: Seq<u8>) -> Seq<u8>;

/// What `flate2`'s zlib decoder reads out of `data`, or `None` where it reports an error.
pub uninterp spec fn zlib_decompressed(data: Seq<u8>) -> Option<Seq<u8>>;

/// Compresses `bytes` with `flate2::write::ZlibEncoder` at `Compression::default()`, writing
/// to a `Vec` and finishing the stream. Claims: it succeeds (writing to a `Vec` cannot fail,
/// and the deflate call fails only on a bad parameter or a broken stream state, neither of
/// which this call can produce), the result is `zlib_compressed(bytes)`, and the zlib decoder
/// reads `bytes` back out of it.
#[verifier::external_body]
fn zlib_encode(bytes: &[u8]) -> (r: Option<Vec<u8>>)
    ensures
        r is Some,
        r matches Some(v) ==> v@ == zlib_compressed(bytes@) && zlib_decompressed(v@) == Some(
            bytes@,
        ),
{
    let mut e = ZlibEncoder::new(Vec::new(), Compression::default());
    match e.write_all(bytes) {
        Ok(()) => e.finish().ok(),
        Err(_) => None,
    }
}

/// Decompresses `bytes` with `flate2::read::ZlibDecoder`, reading to the end. Claims: the
/// result is `zlib_decompressed(bytes)`.
#[verifier::external_body]
fn zlib_decode(bytes: &[u8]) -> (r: Option<Vec<u8>>)
    ensures
        r is Some <==> zlib_decompressed(bytes@) is Some,
        r matches Some(v) ==> zlib_decompressed(bytes@) == Some(v@),
{
    let mut gz = ZlibDecoder::new(bytes);
    let mut buf = Vec::new();
    match gz.read_to_end(&mut buf) {
        Ok(_) => Some(buf),
        Err(_) => None,
    }
}

/// Compresses `bytes` into a zlib stream; compressing into memory always succeeds.
pub fn compress(bytes: &[u8]) -> (r: Result<Vec<u8>, CompressionError>)
    ensures
        r is Ok,
        r matches Ok(v) ==> v@ == zlib_compressed(bytes@) && zlib_decompressed(v@) == Some(
            bytes@,
        ),
{
    match zlib_encode(bytes) {
        Some(v) => Ok(v),
        None => Err(CompressionError::Compress),
    }
}

/// Decompresses a zlib stream.
pub fn decompress(bytes: &[u8]) -> (r: Result<Vec<u8>, CompressionError>)
    ensures
        r is Ok <==> zlib_decompressed(bytes@) is Some,
        r matches Ok(v) ==> zlib_decompressed(bytes@) == Some(v@),
        r matches Err(e) ==> e == CompressionError::Decompress,
{
    match zlib_decode(bytes) {
        Some(v) => Ok(v),
        None => Err(CompressionError::Decompress),
    }
}

/// The RGBA pixel made from the four captured bytes at `i`: the first and third channel
/// swapped, alpha fully opaque.
pub open spec fn rgba_pixel(frame: Seq<u8>, i: int) -> Seq<u8> {
    seq![frame[i + 2], frame[i + 1], frame[i], 255u8]
}

/// The first `n` pixels of row `y` of a frame whose rows are `stride` bytes apart.
pub open spec fn img_row(frame: Seq<u8>, stride: int, y: int, n: int) -> Seq<u8>
    decreases n,
{
    if n <= 0 {
        Seq::empty()
    } else {
        img_row(frame, stride, y, n - 1) + rgba_pixel(frame, stride * y + 4 * (n - 1))
    }
}

/// The first `n` rows, each of `width` pixels.
pub open spec fn img_rows(frame: Seq<u8>, stride: int, width: int, n: int) -> Seq<u8>
    decreases n,
{
    if n <= 0 {
        Seq::empty()
    } else {
        img_rows(frame, stride, width, n - 1) + img_row(frame, stride, n - 1, width)
    }
}

/// The RGBA image of a `width` by `height` frame, whose rows are `frame.len() / height` bytes
/// apart.
pub open spec fn img_bytes(frame: Seq<u8>, width: int, height: int) -> Seq<u8> {
    img_rows(frame, frame.len() as int / height, width, height)
}

/// Whether a frame of `len` bytes holds every pixel of a `width` by `height` image, and the
/// image fits in memory.
pub open spec fn img_layout_fits(len: int, width: int, height: int) -> bool {
    &&& height > 0
    &&& width >= 0
    &&& width * height * 4 <= isize::MAX
    &&& width > 0 ==> (len / height) * (height - 1) + 4 * (width - 1) + 2 < len
}

/// Whether a frame of `len` bytes can be turned into a `width` by `height` image.
pub fn img_layout_ok(len: usize, width: usize, height: usize) -> (b: bool)
    ensures
        b == img_layout_fits(len as int, width as int, height as int),
{
    if height == 0 {
        return false;
    }
    if width == 0 {
        return true;
    }
    let h = height as u128;
    let w = width as u128;
    assert(w * h <= 0xffff_ffff_ffff_ffffu128 * 0xffff_ffff_ffff_ffffu128) by (nonlinear_arith)
        requires
            w <= 0xffff_ffff_ffff_ffffu128,
            h <= 0xffff_ffff_ffff_ffffu128,
    ;
    let area = w * h;
    if area > (isize::MAX as u128) / 4 {
        return false;
    }
    let stride_usize = len / height;
    assert(stride_usize * height <= len) by (nonlinear_arith)
        requires
            stride_usize == len / height,
            height > 0,
    ;
    let stride = stride_usize as u128;
    assert(stride * (h - 1) <= len as u128) by (nonlinear_arith)
        requires
            stride * h <= len,
            h >= 1,
    ;
    let last = stride * (h - 1) + 4 * (w - 1) + 2;
    last < len as u128
}

proof fn lemma_img_row_len(frame: Seq<u8>, stride: int, y: int, n: int)
    requires
        n >= 0,
    ensures
        img_row(frame, stride, y, n).len() == 4 * n,
    decreases n,
{
    if n > 0 {
        lemma_img_row_len(frame, stride, y, n - 1);
    }
}

proof fn lemma_img_rows_len(frame: Seq<u8>, stride: int, width: int, n: int)
    requires
        n >= 0,
        width >= 0,
    ensures
        img_rows(frame, stride, width, n).len() == 4 * width * n,
    decreases n,
{
    if n > 0 {
        lemma_img_rows_len(frame, stride, width, n - 1);
        lemma_img_row_len(frame, stride, n - 1, width);
        assert(4 * width * (n - 1) + 4 * width == 4 * width * n) by (nonlinear_arith);
    } else {
        assert(4 * width * n == 0) by (nonlinear_arith)
            requires
                n == 0,
        ;
    }
}

proof fn lemma_img_row_pixel(frame: Seq<u8>, stride: int, y: int, n: int, x: int)
    requires
        0 <= x < n,
    ensures
        img_row(frame, stride, y, n).subrange(4 * x, 4 * x + 4) == rgba_pixel(
            frame,
            stride * y + 4 * x,
        ),
    decreases n,
{
    lemma_img_row_len(frame, stride, y, n - 1);
    let prev = img_row(frame, stride, y, n - 1);
    let row = img_row(frame, stride, y, n);
    if x == n - 1 {
        assert(row.subrange(4 * x, 4 * x + 4) =~= rgba_pixel(frame, stride * y + 4 * x));
    } else {
        lemma_img_row_pixel(frame, stride, y, n - 1, x);
        assert(row.subrange(4 * x, 4 * x + 4) =~= prev.subrange(4 * x, 4 * x + 4));
    }
}

proof fn lemma_img_rows_pixel(frame: Seq<u8>, stride: int, width: int, n: int, y: int, x: int)
    requires
        0 <= y < n,
        0 <= x < width,
    ensures
        img_rows(frame, stride, width, n).subrange(4 * (y * width + x), 4 * (y * width + x) + 4)
            == rgba_pixel(frame, stride * y + 4 * x),
    decreases n,
{
    lemma_img_rows_len(frame, stride, width, n - 1);
    let prev = img_rows(frame, stride, width, n - 1);
    let rows = img_rows(frame, stride, width, n);
    let at = 4 * (y * width + x);
    if y == n - 1 {
        assert(at == 4 * width * (n - 1) + 4 * x) by (nonlinear_arith)
            requires
                y == n - 1,
                at == 4 * (y * width + x),
        ;
        lemma_img_row_pixel(frame, stride, y, width, x);
        lemma_img_row_len(frame, stride, y, width);
        assert(rows.subrange(at, at + 4) =~= img_row(frame, stride, y, width).subrange(
            4 * x,
            4 * x + 4,
        ));
    } else {
        assert(at + 4 <= 4 * width * (n - 1)) by (nonlinear_arith)
            requires
                0 <= y < n - 1,
                0 <= x < width,
                at == 4 * (y * width + x),
        ;
        lemma_img_rows_pixel(frame, stride, width, n - 1, y, x);
        assert(rows.subrange(at, at + 4) =~= prev.subrange(at, at + 4));
    }
}

/// The image of a `width` by `height` frame has four bytes per pixel, and the pixel at column
/// `x` of row `y` is the frame's bytes at `i = (frame.len() / height) * y + 4 * x` taken as
/// `frame[i + 2], frame[i + 1], frame[i]`, followed by alpha 255.
pub proof fn lemma_img_bytes_pixels(frame: Seq<u8>, width: int, height: int)
    requires
        height > 0,
        width >= 0,
    ensures
        img_bytes(frame, width, height).len() == 4 * width * height,
        forall|y: int, x: int|
            0 <= y < height && 0 <= x < width ==> #[trigger] img_bytes(frame, width, height).subrange(
                4 * (y * width + x),
                4 * (y * width + x) + 4,
            ) == seq![
                frame[(frame.len() as int / height) * y + 4 * x + 2],
                frame[(frame.len() as int / height) * y + 4 * x + 1],
                frame[(frame.len() as int / height) * y + 4 * x],
                255u8,
            ],
{
    let stride = frame.len() as int / height;
    lemma_img_rows_len(frame, stride, width, height);
    assert forall|y: int, x: int| 0 <= y < height && 0 <= x < width implies #[trigger] img_bytes(
        frame,
        width,
        height,
    ).subrange(4 * (y * width + x), 4 * (y * width + x) + 4) == seq![
        frame[stride * y + 4 * x + 2],
        frame[stride * y + 4 * x + 1],
        frame[stride * y + 4 * x],
        255u8,
    ] by {
        lemma_img_rows_pixel(frame, stride, width, height, y, x);
        assert(rgba_pixel(frame, stride * y + 4 * x) =~= seq![
            frame[stride * y + 4 * x + 2],
            frame[stride * y + 4 * x + 1],
            frame[stride * y + 4 * x],
            255u8,
        ]);
    }
}

/// What a delta from screen `a` to screen `b` is: as long as `a`, and each byte the xor of the
/// bytes of `a` and `b` at that place.
pub open spec fn is_xor_delta(d: Seq<u8>, a: Seq<u8>, b: Seq<u8>) -> bool {
    &&& d.len() == a.len()
    &&& forall|j: int| 0 <= j < a.len() ==> #[trigger] d[j] == a[j] ^ b[j]
}

/// Xoring two screens of equal length gives the delta from the first to the second, and
/// xoring a delta into the screen it starts from gives the screen it leads to.
pub proof fn lemma_xor_zip_delta(a: Seq<u8>, b: Seq<u8>, d: Seq<u8>)
    requires
        a.len() == b.len(),
    ensures
        is_xor_delta(xor_zip(a, b), a, b),
        is_xor_delta(d, a, b) ==> xor_zip(a, d) == b,
{
    if is_xor_delta(d, a, b) {
        assert forall|j: int| 0 <= j < a.len() implies #[trigger] xor_zip(a, d)[j] == b[j] by {
            let x = a[j];
            let y = b[j];
            assert(d[j] == x ^ y);
            assert(x ^ (x ^ y) == y) by (bit_vector);
        }
        assert(xor_zip(a, d) =~= b);
    }
}

/// Converts a captured frame into RGBA image bytes, row by row.
pub fn frame_to_img_bytes(frame: &[u8], width: usize, height: usize) -> (img: Vec<u8>)
    requires
        img_layout_fits(frame@.len() as int, width as int, height as int),
    ensures
        img@ == img_bytes(frame@, width as int, height as int),
        img@.len() == 4 * width * height,
        forall|y: int, x: int|
            0 <= y < height && 0 <= x < width ==> #[trigger] img@.subrange(
                4 * (y * width + x),
                4 * (y * width + x) + 4,
            ) == seq![
                frame@[(frame@.len() as int / height as int) * y + 4 * x + 2],
                frame@[(frame@.len() as int / height as int) * y + 4 * x + 1],
                frame@[(frame@.len() as int / height as int) * y + 4 * x],
                255u8,
            ],
{
    proof {
        lemma_img_bytes_pixels(frame@, width as int, height as int);
    }
    assert(width * height <= width * height * 4) by (nonlinear_arith);
    let mut bitflipped: Vec<u8> = Vec::with_capacity(width * height * 4);
    let flen = frame.len();
    let stride = flen / height;
    let ghost f = frame@;
    let mut y: usize = 0;
    while y < height
        invariant
            0 <= y <= height,
            img_layout_fits(f.len() as int, width as int, height as int),
            f == frame@,
            flen == f.len(),
            stride == (f.len() as int) / (height as int),
            bitflipped@ == img_rows(f, stride as int, width as int, y as int),
        decreases height - y,
    {
        let mut x: usize = 0;
        while x < width
            invariant
                0 <= y < height,
                0 <= x <= width,
                img_layout_fits(f.len() as int, width as int, height as int),
                f == frame@,
                flen == f.len(),
                stride == (f.len() as int) / (height as int),
                bitflipped@ == img_rows(f, stride as int, width as int, y as int) + img_row(
                    f,
                    stride as int,
                    y as int,
                    x as int,
                ),
            decreases width - x,
        {
            assert(0 <= stride * y && stride * y + 4 * x + 2 < f.len()) by (nonlinear_arith)
                requires
                    y < height,
                    x < width,
                    stride * (height - 1) + 4 * (width - 1) + 2 < f.len(),
            ;
            let i = stride * y + 4 * x;
            bitflipped.push(frame[i + 2]);
            bitflipped.push(frame[i + 1]);
            bitflipped.push(frame[i]);
            bitflipped.push(255);
            assert(bitflipped@ =~= img_rows(f, stride as int, width as int, y as int) + img_row(
                f,
                stride as int,
                y as int,
                x + 1,
            ));
            x = x + 1;
        }
        assert(bitflipped@ =~= img_rows(f, stride as int, width as int, y + 1));
        y = y + 1;
    }
    bitflipped
}

/// `a` with each byte that has a partner in `b` xored with it; bytes of `a` past the end of `b`
/// stay as they are.
pub open spec fn xor_zip(a: Seq<u8>, b: Seq<u8>) -> Seq<u8> {
    Seq::new(a.len(), |i: int| if i < b.len() { a[i] ^ b[i] } else { a[i] })
}

/// Xors `b` into `a`, byte by byte, as far as both reach.
pub fn xor_in_place(a: &mut Vec<u8>, b: &[u8])
    ensures
        final(a)@ == xor_zip(old(a)@, b@),
{
    let n = if a.len() < b.len() {
        a.len()
    } else {
        b.len()
    };
    let mut i: usize = 0;
    while i < n
        invariant
            n <= old(a)@.len(),
            n <= b@.len(),
            n == old(a)@.len() || n == b@.len(),
            0 <= i <= n,
            a@.len() == old(a)@.len(),
            forall|j: int| 0 <= j < i ==> a@[j] == old(a)@[j] ^ b@[j],
            forall|j: int| i <= j < a@.len() ==> a@[j] == old(a)@[j],
        decreases n - i,
    {
        let x = a[i] ^ b[i];
        a.set(i, x);
        i = i + 1;
    }
    assert(a@ =~= xor_zip(old(a)@, b@));
}

/// Whether two byte strings are equal.
pub fn bytes_equal(a: &[u8], b: &[u8]) -> (r: bool)
    ensures
        r == (a@ == b@),
{
    if a.len() != b.len() {
        return false;
    }
    let mut i: usize = 0;
    while i < a.len()
        invariant
            a@.len() == b@.len(),
            0 <= i <= a@.len(),
            forall|j: int| 0 <= j < i ==> a@[j] == b@[j],
        decreases a@.len() - i,
    {
        if a[i] != b[i] {
            return false;
        }
        i = i + 1;
    }
    assert(a@ =~= b@);
    true
}

/// Xoring the delta of two frames of equal length into the first gives the second, and
/// xoring a frame into itself gives all zeros.
pub proof fn lemma_xor_delta(a: Seq<u8>, b: Seq<u8>)
    requires
        a.len() == b.len(),
    ensures
        xor_zip(a, xor_zip(a, b)) == b,
        xor_zip(a, b).len() == a.len(),
        xor_zip(a, a) == Seq::new(a.len(), |i: int| 0u8),
{
    assert forall|i: int| 0 <= i < a.len() implies #[trigger] xor_zip(a, xor_zip(a, b))[i]
        == b[i] by {
        let x = a[i];
        let y = b[i];
        assert(x ^ (x ^ y) == y) by (bit_vector);
    }
    assert(xor_zip(a, xor_zip(a, b)) =~= b);
    assert forall|i: int| 0 <= i < a.len() implies #[trigger] xor_zip(a, a)[i] == 0u8 by {
        let x = a[i];
        assert(x ^ x == 0u8) by (bit_vector);
    }
    assert(xor_zip(a, a) =~= Seq::new(a.len(), |i: int| 0u8));
}

} // verus!
