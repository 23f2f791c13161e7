//! The neighbourhood / convolution driver: applies a square kernel
//! with a divisor (gain) and bias to each colour channel, sampling
//! out-of-bounds neighbours by clamp-to-edge, and always reading from
//! the original buffer (double-buffered).  Alpha is copied through.

use vstd::prelude::*;
use vstd::arithmetic::div_mod::lemma_fundamental_div_mod;
use vstd::arithmetic::div_mod::lemma_fundamental_div_mod_converse;
use crate::PhotonError;
use crate::PhotonImage;
use crate::lemma_row_major;
use crate::transform::clamp_u8;
use crate::transform::lemma_buf_multiple_of_four;

verus! {

/// Largest magnitude a kernel element may have.
pub open spec fn elem_limit() -> int {
    100000
}

/// Largest magnitude the gain and bias may have.
pub open spec fn scalar_limit() -> int {
    1000000
}

/// A convolution kernel: a `size x size` matrix of signed weights in
/// row-major order, a positive divisor `gain`, and an additive `bias`.
#[derive(Clone, Debug)]
pub struct Kernel {
    pub elems: Vec<i64>,
    pub size: u32,
    pub gain: i64,
    pub bias: i64,
}

/// Values the driver accepts as a kernel: 3x3 or 5x5 shape, bounded
/// weights, a positive bounded gain and a bounded bias.
pub open spec fn kernel_ok(elems: Seq<i64>, size: u32, gain: i64, bias: i64) -> bool {
    &&& (size == 3 || size == 5)
    &&& elems.len() == size * size
    &&& forall|i: int| 0 <= i < elems.len() ==> -elem_limit() <= #[trigger] elems[i] <= elem_limit()
    &&& 1 <= gain <= scalar_limit()
    &&& -scalar_limit() <= bias <= scalar_limit()
}

impl Kernel {
    /// A kernel the driver accepts: exactly the values the constructor
    /// admits.
    pub open spec fn wf(&self) -> bool {
        kernel_ok(self.elems@, self.size, self.gain, self.bias)
    }

    /// Build a kernel: succeeds on exactly the 3x3 or 5x5 shapes with
    /// in-range weights, gain and bias, and returns `InvalidArgument`
    /// on everything else.
    pub fn new(elems: Vec<i64>, size: u32, gain: i64, bias: i64) -> (res: Result<
        Kernel,
        PhotonError,
    >)
        ensures
            res is Ok <==> kernel_ok(elems@, size, gain, bias),
            res is Ok ==> res->Ok_0.wf() && res->Ok_0.elems@ == elems@ && res->Ok_0.size == size
                && res->Ok_0.gain == gain && res->Ok_0.bias == bias,
            res is Err ==> res == Err::<Kernel, PhotonError>(PhotonError::InvalidArgument),
    {
        if size != 3 && size != 5 {
            return Err(PhotonError::InvalidArgument);
        }
        if elems.len() != (size * size) as usize {
            return Err(PhotonError::InvalidArgument);
        }
        if gain < 1 || gain > 1000000 {
            return Err(PhotonError::InvalidArgument);
        }
        if bias < -1000000 || bias > 1000000 {
            return Err(PhotonError::InvalidArgument);
        }
        let mut i: usize = 0;
        while i < elems.len()
            invariant
                i <= elems@.len(),
                forall|j: int| 0 <= j < i ==> -elem_limit() <= #[trigger] elems@[j] <= elem_limit(),
            decreases elems@.len() - i,
        {
            if elems[i] < -100000 || elems[i] > 100000 {
                return Err(PhotonError::InvalidArgument);
            }
            i += 1;
        }
        Ok(Kernel { elems, size, gain, bias })
    }
}

/// Clip `v` into `[lo, hi]`.
pub open spec fn clampi(v: int, lo: int, hi: int) -> int {
    if v < lo {
        lo
    } else if v > hi {
        hi
    } else {
        v
    }
}

/// Division truncating toward zero, for a positive divisor.
pub open spec fn tdiv(a: int, b: int) -> int {
    if a >= 0 {
        a / b
    } else {
        -((-a) / b)
    }
}

/// Channel `c` of the pixel at `(x, y)`, with out-of-bounds
/// coordinates replicating the nearest edge pixel.
pub open spec fn sample(s: Seq<u8>, w: int, h: int, x: int, y: int, c: int) -> u8 {
    let cx = clampi(x, 0, w - 1);
    let cy = clampi(y, 0, h - 1);
    s[4 * (cy * w + cx) + c]
}

/// The weighted sum of the first `n` kernel entries over the
/// neighbourhood of `(x, y)`, channel `c`.
pub open spec fn kern_sum(
    s: Seq<u8>,
    w: int,
    h: int,
    x: int,
    y: int,
    c: int,
    elems: Seq<i64>,
    size: int,
    n: int,
) -> int
    decreases n,
{
    if n <= 0 {
        0
    } else {
        kern_sum(s, w, h, x, y, c, elems, size, n - 1) + elems[n - 1] * sample(
            s,
            w,
            h,
            x + (n - 1) % size - size / 2,
            y + (n - 1) / size - size / 2,
            c,
        )
    }
}

/// Byte `i` of the convolved buffer: colour bytes get the clamped,
/// biased, gain-divided weighted sum; alpha bytes are copied.
pub open spec fn conv_byte(s: Seq<u8>, w: int, h: int, k: Kernel, i: int) -> u8
    recommends
        0 <= i < s.len(),
{
    if i % 4 == 3 {
        s[i]
    } else {
        let x = (i / 4) % w;
        let y = (i / 4) / w;
        let c = i % 4;
        clamp_u8(
            k.bias + tdiv(
                kern_sum(s, w, h, x, y, c, k.elems@, k.size as int, (k.size * k.size) as int),
                k.gain as int,
            ),
        )
    }
}

/// The whole convolved buffer.
pub open spec fn conv_spec(s: Seq<u8>, w: int, h: int, k: Kernel) -> Seq<u8> {
    Seq::new(s.len(), |i: int| conv_byte(s, w, h, k, i))
}

/// Sum of the first `n` kernel weights.
pub open spec fn elem_sum(elems: Seq<i64>, n: int) -> int
    decreases n,
{
    if n <= 0 {
        0
    } else {
        elem_sum(elems, n - 1) + elems[n - 1]
    }
}

/// Read one clamped sample, executable form.
fn sample_e(s: &Vec<u8>, w: u32, h: u32, x: i64, y: i64, c: usize) -> (v: u8)
    requires
        1 <= w,
        1 <= h,
        s@.len() == 4 * (w as int) * (h as int),
        c < 4,
        -0x2_0000_0000 <= x < 0x2_0000_0000,
        -0x2_0000_0000 <= y < 0x2_0000_0000,
    ensures
        v == sample(s@, w as int, h as int, x as int, y as int, c as int),
{
    let cx: i64 = if x < 0 {
        0
    } else if x > (w - 1) as i64 {
        (w - 1) as i64
    } else {
        x
    };
    let cy: i64 = if y < 0 {
        0
    } else if y > (h - 1) as i64 {
        (h - 1) as i64
    } else {
        y
    };
    let _buf_len = s.len();
    proof {
        lemma_row_major(cx as int, cy as int, w as int, h as int);
    }
    let idx: usize = 4 * ((cy as usize) * (w as usize) + (cx as usize)) + c;
    s[idx]
}

/// One output channel: the biased, gain-divided weighted sum of the
/// clamped neighbourhood, clipped to a byte.
fn kern_apply(s: &Vec<u8>, w: u32, h: u32, x: u32, y: u32, c: usize, k: &Kernel) -> (v: u8)
    requires
        1 <= w,
        1 <= h,
        s@.len() == 4 * (w as int) * (h as int),
        x < w,
        y < h,
        c < 3,
        k.wf(),
    ensures
        v as int == clamp_u8(
            k.bias + tdiv(
                kern_sum(
                    s@,
                    w as int,
                    h as int,
                    x as int,
                    y as int,
                    c as int,
                    k.elems@,
                    k.size as int,
                    (k.size * k.size) as int,
                ),
                k.gain as int,
            ),
        ) as int,
{
    let size = k.size as usize;
    let half = size / 2;
    proof {
        assert((size as int) * (size as int) <= 25) by (nonlinear_arith)
            requires
                size <= 5,
        ;
    }
    let total = size * size;
    let mut acc: i64 = 0;
    let mut t: usize = 0;
    while t < total
        invariant
            k.wf(),
            1 <= w,
            1 <= h,
            s@.len() == 4 * (w as int) * (h as int),
            x < w,
            y < h,
            c < 3,
            size == k.size,
            half == size / 2,
            total == size * size,
            total == k.elems@.len(),
            t <= total,
            acc == kern_sum(
                s@,
                w as int,
                h as int,
                x as int,
                y as int,
                c as int,
                k.elems@,
                k.size as int,
                t as int,
            ),
            -(t as int) * elem_limit() * 255 <= acc <= (t as int) * elem_limit() * 255,
        decreases total - t,
    {
        let dx = (t % size) as i64;
        let dy = (t / size) as i64;
        proof {
            lemma_fundamental_div_mod(t as int, size as int);
            assert(t as int / (size as int) < size as int) by (nonlinear_arith)
                requires
                    (t as int) < (size as int) * (size as int),
                    0 < size as int,
                    t as int == (size as int) * (t as int / (size as int)) + t as int % (
                    size as int),
                    0 <= t as int % (size as int) < size as int,
            ;
        }
        let sx: i64 = x as i64 + dx - half as i64;
        let sy: i64 = y as i64 + dy - half as i64;
        let sv = sample_e(s, w, h, sx, sy, c);
        let e = k.elems[t];
        proof {
            assert(-elem_limit() * 255 <= (e as int) * (sv as int) <= elem_limit() * 255)
                by (nonlinear_arith)
                requires
                    -elem_limit() <= e <= elem_limit(),
                    0 <= sv <= 255,
            ;
            assert((t as int + 1) * elem_limit() * 255 == (t as int) * elem_limit() * 255
                + elem_limit() * 255) by (nonlinear_arith);
        }
        acc = acc + e * (sv as i64);
        t += 1;
    }
    proof {
        assert((total as int) * elem_limit() * 255 <= 25 * elem_limit() * 255)
            by (nonlinear_arith)
            requires
                total <= 25,
        ;
    }
    let q = tdiv_e(acc, k.gain);
    let v = k.bias + q;
    if v < 0 {
        0
    } else if v > 255 {
        255
    } else {
        v as u8
    }
}

/// Truncating division, executable form.
fn tdiv_e(a: i64, b: i64) -> (r: i64)
    requires
        1 <= b,
        -0x4000_0000_0000_0000 <= a <= 0x4000_0000_0000_0000,
    ensures
        r == tdiv(a as int, b as int),
        -0x4000_0000_0000_0000 <= r <= 0x4000_0000_0000_0000,
{
    if a >= 0 {
        let q = (a as u64) / (b as u64);
        proof {
            lemma_fundamental_div_mod(a as int, b as int);
        }
        q as i64
    } else {
        let q = ((-a) as u64) / (b as u64);
        -(q as i64)
    }
}

/// Convolve the image with a kernel: every colour channel of every
/// pixel becomes the clamped, biased, gain-divided weighted sum of its
/// clamp-to-edge neighbourhood, computed entirely from the original
/// buffer; alpha is copied through.  Dimensions are unchanged.
pub fn convolve(img: &mut PhotonImage, k: &Kernel)
    requires
        old(img).wf(),
        k.wf(),
    ensures
        final(img).wf(),
        final(img).spec_width() == old(img).spec_width(),
        final(img).spec_height() == old(img).spec_height(),
        final(img).data() == conv_spec(
            old(img).data(),
            old(img).spec_width() as int,
            old(img).spec_height() as int,
            *k,
        ),
{
    let ghost s0 = img.data();
    let w = img.width;
    let h = img.height;
    let n = img.raw_pixels.len();
    proof {
        lemma_buf_multiple_of_four(n as int, w as int, h as int);
    }
    let npix = n / 4;
    let mut out: Vec<u8> = Vec::new();
    let mut px: usize = 0;
    while px < npix
        invariant
            img.wf(),
            img.data() == s0,
            w == img.spec_width(),
            h == img.spec_height(),
            k.wf(),
            n == s0.len(),
            n == 4 * npix,
            npix == (w as int) * (h as int),
            px <= npix,
            out@.len() == 4 * px,
            forall|j: int|
                0 <= j < 4 * px ==> out@[j] == conv_byte(s0, w as int, h as int, *k, j),
        decreases npix - px,
    {
        let x = (px % (w as usize)) as u32;
        let y = (px / (w as usize)) as u32;
        proof {
            lemma_fundamental_div_mod(px as int, w as int);
            assert((w as int) * (px as int / (w as int)) <= (w as int) * ((h as int) - 1)
                ==> px as int / (w as int) <= (h as int) - 1) by (nonlinear_arith)
                requires
                    1 <= w as int,
            ;
            assert((w as int) * (px as int / (w as int)) + px as int % (w as int) < (w as int) * (
            h as int) ==> (w as int) * (px as int / (w as int)) <= (w as int) * ((h as int) - 1))
                by (nonlinear_arith)
                requires
                    1 <= w as int,
                    0 <= px as int % (w as int) < w as int,
            ;
        }
        let base = 4 * px;
        let rv = kern_apply(&img.raw_pixels, w, h, x, y, 0, k);
        let gv = kern_apply(&img.raw_pixels, w, h, x, y, 1, k);
        let bv = kern_apply(&img.raw_pixels, w, h, x, y, 2, k);
        let av = img.raw_pixels[base + 3];
        out.push(rv);
        out.push(gv);
        out.push(bv);
        out.push(av);
        proof {
            lemma_fundamental_div_mod_converse(4 * px, 4, px as int, 0);
            lemma_fundamental_div_mod_converse(4 * px + 1, 4, px as int, 1);
            lemma_fundamental_div_mod_converse(4 * px + 2, 4, px as int, 2);
            lemma_fundamental_div_mod_converse(4 * px + 3, 4, px as int, 3);
        }
        px += 1;
    }
    proof {
        assert(out@ =~= conv_spec(s0, w as int, h as int, *k));
    }
    img.raw_pixels = out;
}

/// Every byte of a uniform image equals the channel value its offset
/// selects.
pub open spec fn uniform(s: Seq<u8>, pr: u8, pg: u8, pb: u8, pa: u8) -> bool {
    forall|i: int|
        0 <= i < s.len() ==> #[trigger] s[i] == (if i % 4 == 0 {
            pr
        } else if i % 4 == 1 {
            pg
        } else if i % 4 == 2 {
            pb
        } else {
            pa
        })
}

/// On a uniform image, the weighted neighbourhood sum collapses to the
/// channel value times the sum of the weights.
proof fn lemma_kern_sum_uniform(
    s: Seq<u8>,
    w: int,
    h: int,
    x: int,
    y: int,
    c: int,
    elems: Seq<i64>,
    size: int,
    n: int,
    v: u8,
    pr: u8,
    pg: u8,
    pb: u8,
    pa: u8,
)
    requires
        uniform(s, pr, pg, pb, pa),
        s.len() == 4 * w * h,
        1 <= w,
        1 <= h,
        0 <= c < 3,
        0 <= n <= elems.len(),
        v == (if c == 0 {
            pr
        } else if c == 1 {
            pg
        } else {
            pb
        }),
    ensures
        kern_sum(s, w, h, x, y, c, elems, size, n) == (v as int) * elem_sum(elems, n),
    decreases n,
{
    if n <= 0 {
        assert((v as int) * 0 == 0) by (nonlinear_arith);
    } else {
        lemma_kern_sum_uniform(s, w, h, x, y, c, elems, size, n - 1, v, pr, pg, pb, pa);
        let sx = x + (n - 1) % size - size / 2;
        let sy = y + (n - 1) / size - size / 2;
        let cx = clampi(sx, 0, w - 1);
        let cy = clampi(sy, 0, h - 1);
        lemma_row_major(cx, cy, w, h);
        lemma_fundamental_div_mod_converse(4 * (cy * w + cx) + c, 4, cy * w + cx, c);
        assert(sample(s, w, h, sx, sy, c) == v);
        assert((v as int) * (elem_sum(elems, n - 1) + elems[n - 1]) == (v as int) * elem_sum(
            elems,
            n - 1,
        ) + (v as int) * elems[n - 1]) by (nonlinear_arith);
        assert(elems[n - 1] * (v as int) == (v as int) * elems[n - 1]) by (nonlinear_arith);
    }
}

/// Edge policy check: convolving a uniform image with any kernel whose
/// gain equals the sum of its weights (and whose bias is zero) returns
/// the image unchanged, because clamp-to-edge sampling sees the same
/// pixel everywhere.
pub proof fn lemma_conv_uniform(
    s: Seq<u8>,
    w: int,
    h: int,
    k: Kernel,
    pr: u8,
    pg: u8,
    pb: u8,
    pa: u8,
)
    requires
        uniform(s, pr, pg, pb, pa),
        s.len() == 4 * w * h,
        1 <= w,
        1 <= h,
        k.wf(),
        k.bias == 0,
        k.gain as int == elem_sum(k.elems@, (k.size * k.size) as int),
    ensures
        conv_spec(s, w, h, k) =~= s,
{
    assert forall|i: int| 0 <= i < s.len() implies conv_spec(s, w, h, k)[i] == s[i] by {
        lemma_fundamental_div_mod(i, 4);
        if i % 4 != 3 {
            let c = i % 4;
            let x = (i / 4) % w;
            let y = (i / 4) / w;
            let v: u8 = if c == 0 {
                pr
            } else if c == 1 {
                pg
            } else {
                pb
            };
            lemma_kern_sum_uniform(
                s,
                w,
                h,
                x,
                y,
                c,
                k.elems@,
                k.size as int,
                (k.size * k.size) as int,
                v,
                pr,
                pg,
                pb,
                pa,
            );
            let g = k.gain as int;
            assert(0 <= (v as int) * g) by (nonlinear_arith)
                requires
                    1 <= g,
            ;
            lemma_fundamental_div_mod_converse((v as int) * g, g, v as int, 0);
            assert(tdiv((v as int) * g, g) == v);
        }
    }
}

/// The largest root not exceeding the square root of `v`, searched
/// downward from `c`; zero when every candidate is too large.
pub open spec fn isqrt_rec(v: int, c: int) -> int
    decreases c,
{
    if c <= 0 {
        0
    } else if c * c <= v {
        c
    } else {
        isqrt_rec(v, c - 1)
    }
}

/// Whether `c * c <= v`, for candidates small enough to square.
fn square_le(c: u32, v: u32) -> (b: bool)
    requires
        c <= 255,
    ensures
        b == ((c as int) * (c as int) <= v as int),
{
    proof {
        assert((c as int) * (c as int) <= 65025) by (nonlinear_arith)
            requires
                c <= 255u32,
        ;
    }
    c * c <= v
}

/// Integer square root capped at 255, executable form.
fn isqrt_e(v: u32) -> (r: u32)
    requires
        v <= 200000,
    ensures
        r as int == isqrt_rec(v as int, 255),
        r <= 255,
{
    let mut c: u32 = 255;
    while c > 0 && !square_le(c, v)
        invariant
            c <= 255,
            isqrt_rec(v as int, 255) == isqrt_rec(v as int, c as int),
        decreases c,
    {
        c -= 1;
    }
    c
}

/// Byte `i` of the gradient-magnitude image: colour bytes are the
/// rounded-down Euclidean magnitude of the two input channels; alpha
/// comes from the first image.
pub open spec fn mag_byte(sa: Seq<u8>, sb: Seq<u8>, i: int) -> u8 {
    if i % 4 == 3 {
        sa[i]
    } else {
        clamp_u8(isqrt_rec(sa[i] * sa[i] + sb[i] * sb[i], 255))
    }
}

/// The whole gradient-magnitude buffer.
pub open spec fn magnitude_spec(sa: Seq<u8>, sb: Seq<u8>) -> Seq<u8> {
    Seq::new(sa.len(), |i: int| mag_byte(sa, sb, i))
}

/// Combine two directional edge images (for instance the Sobel X and Y
/// responses) into one magnitude image, channel by channel.  The
/// images must agree in width and height, else `SizeMismatch`.
pub fn edge_magnitude(a: &PhotonImage, b: &PhotonImage) -> (res: Result<PhotonImage, PhotonError>)
    requires
        a.wf(),
        b.wf(),
    ensures
        a.same_dims(b) ==> {
            &&& res is Ok
            &&& res->Ok_0.wf()
            &&& res->Ok_0.spec_width() == a.spec_width()
            &&& res->Ok_0.spec_height() == a.spec_height()
            &&& res->Ok_0.data() == magnitude_spec(a.data(), b.data())
        },
        !a.same_dims(b) ==> res == Err::<PhotonImage, PhotonError>(PhotonError::SizeMismatch),
{
    if a.width != b.width || a.height != b.height {
        return Err(PhotonError::SizeMismatch);
    }
    let n = a.raw_pixels.len();
    let mut out: Vec<u8> = Vec::new();
    let mut i: usize = 0;
    while i < n
        invariant
            a.wf(),
            b.wf(),
            n == a.data().len(),
            n == b.data().len(),
            i <= n,
            out@.len() == i,
            forall|j: int| 0 <= j < i ==> out@[j] == mag_byte(a.data(), b.data(), j),
        decreases n - i,
    {
        let av = a.raw_pixels[i];
        let bv = b.raw_pixels[i];
        if i % 4 == 3 {
            out.push(av);
        } else {
            proof {
                assert((av as int) * (av as int) <= 65025 && (bv as int) * (bv as int) <= 65025)
                    by (nonlinear_arith)
                    requires
                        av <= 255u8,
                        bv <= 255u8,
                ;
            }
            let v = (av as u32) * (av as u32) + (bv as u32) * (bv as u32);
            let r = isqrt_e(v);
            out.push(r as u8);
        }
        i += 1;
    }
    proof {
        assert(out@ =~= magnitude_spec(a.data(), b.data()));
    }
    Ok(PhotonImage { raw_pixels: out, width: a.width, height: a.height })
}

/// A 3x3 box blur: all ones, gain 9.
pub fn box_blur() -> (k: Kernel)
    ensures
        k.wf(),
        k.size == 3,
        k.gain == 9,
        k.bias == 0,
        k.elems@ =~= seq![1i64, 1i64, 1i64, 1i64, 1i64, 1i64, 1i64, 1i64, 1i64],
        k.gain as int == elem_sum(k.elems@, 9),
{
    let k = Kernel { elems: vec![1i64, 1i64, 1i64, 1i64, 1i64, 1i64, 1i64, 1i64, 1i64], size: 3, gain: 9, bias: 0 };
    proof {
        assert(k.elems@ =~= seq![1i64, 1i64, 1i64, 1i64, 1i64, 1i64, 1i64, 1i64, 1i64]);
        reveal_with_fuel(elem_sum, 10);
        assert(elem_sum(k.elems@, 9) == 9);
    }
    k
}

/// A 3x3 Gaussian blur: the binomial kernel, gain 16.
pub fn gaussian_blur() -> (k: Kernel)
    ensures
        k.wf(),
        k.size == 3,
        k.gain == 16,
        k.bias == 0,
        k.gain as int == elem_sum(k.elems@, 9),
{
    let k = Kernel { elems: vec![1i64, 2i64, 1i64, 2i64, 4i64, 2i64, 1i64, 2i64, 1i64], size: 3, gain: 16, bias: 0 };
    proof {
        assert(k.elems@ =~= seq![1i64, 2i64, 1i64, 2i64, 4i64, 2i64, 1i64, 2i64, 1i64]);
        reveal_with_fuel(elem_sum, 10);
        assert(elem_sum(k.elems@, 9) == 16);
    }
    k
}

/// The horizontal Sobel edge kernel.
pub fn sobel_x() -> (k: Kernel)
    ensures
        k.wf(),
        k.size == 3,
        k.elems@ =~= seq![-1i64, 0i64, 1i64, -2i64, 0i64, 2i64, -1i64, 0i64, 1i64],
{
    let k = Kernel { elems: vec![-1i64, 0i64, 1i64, -2i64, 0i64, 2i64, -1i64, 0i64, 1i64], size: 3, gain: 1, bias: 0 };
    proof {
        assert(k.elems@ =~= seq![-1i64, 0i64, 1i64, -2i64, 0i64, 2i64, -1i64, 0i64, 1i64]);
    }
    k
}

/// The vertical Sobel edge kernel.
pub fn sobel_y() -> (k: Kernel)
    ensures
        k.wf(),
        k.size == 3,
        k.elems@ =~= seq![-1i64, -2i64, -1i64, 0i64, 0i64, 0i64, 1i64, 2i64, 1i64],
{
    let k = Kernel { elems: vec![-1i64, -2i64, -1i64, 0i64, 0i64, 0i64, 1i64, 2i64, 1i64], size: 3, gain: 1, bias: 0 };
    proof {
        assert(k.elems@ =~= seq![-1i64, -2i64, -1i64, 0i64, 0i64, 0i64, 1i64, 2i64, 1i64]);
    }
    k
}

/// The four-neighbour Laplacian.
pub fn laplacian() -> (k: Kernel)
    ensures
        k.wf(),
        k.size == 3,
        k.elems@ =~= seq![0i64, -1i64, 0i64, -1i64, 4i64, -1i64, 0i64, -1i64, 0i64],
{
    let k = Kernel { elems: vec![0i64, -1i64, 0i64, -1i64, 4i64, -1i64, 0i64, -1i64, 0i64], size: 3, gain: 1, bias: 0 };
    proof {
        assert(k.elems@ =~= seq![0i64, -1i64, 0i64, -1i64, 4i64, -1i64, 0i64, -1i64, 0i64]);
    }
    k
}

/// Sharpen: identity plus the Laplacian.
pub fn sharpen() -> (k: Kernel)
    ensures
        k.wf(),
        k.size == 3,
        k.elems@ =~= seq![0i64, -1i64, 0i64, -1i64, 5i64, -1i64, 0i64, -1i64, 0i64],
        k.gain as int == elem_sum(k.elems@, 9),
{
    let k = Kernel { elems: vec![0i64, -1i64, 0i64, -1i64, 5i64, -1i64, 0i64, -1i64, 0i64], size: 3, gain: 1, bias: 0 };
    proof {
        assert(k.elems@ =~= seq![0i64, -1i64, 0i64, -1i64, 5i64, -1i64, 0i64, -1i64, 0i64]);
        reveal_with_fuel(elem_sum, 10);
        assert(elem_sum(k.elems@, 9) == 1);
    }
    k
}

/// A diagonal emboss kernel.
pub fn emboss() -> (k: Kernel)
    ensures
        k.wf(),
        k.size == 3,
        k.elems@ =~= seq![-2i64, -1i64, 0i64, -1i64, 1i64, 1i64, 0i64, 1i64, 2i64],
{
    let k = Kernel { elems: vec![-2i64, -1i64, 0i64, -1i64, 1i64, 1i64, 0i64, 1i64, 2i64], size: 3, gain: 1, bias: 0 };
    proof {
        assert(k.elems@ =~= seq![-2i64, -1i64, 0i64, -1i64, 1i64, 1i64, 0i64, 1i64, 2i64]);
    }
    k
}

/// The horizontal Prewitt edge kernel.
pub fn prewitt_x() -> (k: Kernel)
    ensures
        k.wf(),
        k.size == 3,
        k.elems@ =~= seq![-1i64, 0i64, 1i64, -1i64, 0i64, 1i64, -1i64, 0i64, 1i64],
{
    let k = Kernel { elems: vec![-1i64, 0i64, 1i64, -1i64, 0i64, 1i64, -1i64, 0i64, 1i64], size: 3, gain: 1, bias: 0 };
    proof {
        assert(k.elems@ =~= seq![-1i64, 0i64, 1i64, -1i64, 0i64, 1i64, -1i64, 0i64, 1i64]);
    }
    k
}

/// The vertical Prewitt edge kernel.
pub fn prewitt_y() -> (k: Kernel)
    ensures
        k.wf(),
        k.size == 3,
        k.elems@ =~= seq![-1i64, -1i64, -1i64, 0i64, 0i64, 0i64, 1i64, 1i64, 1i64],
{
    let k = Kernel {
        elems: vec![-1i64, -1i64, -1i64, 0i64, 0i64, 0i64, 1i64, 1i64, 1i64],
        size: 3,
        gain: 1,
        bias: 0,
    };
    proof {
        assert(k.elems@ =~= seq![-1i64, -1i64, -1i64, 0i64, 0i64, 0i64, 1i64, 1i64, 1i64]);
    }
    k
}

/// Noise reduction: the 5x5 binomial Gaussian, gain 256.
pub fn noise_reduction() -> (k: Kernel)
    ensures
        k.wf(),
        k.size == 5,
        k.gain == 256,
        k.gain as int == elem_sum(k.elems@, 25),
{
    let k = Kernel {
        elems: vec![1i64, 4i64, 6i64, 4i64, 1i64, 4i64, 16i64, 24i64, 16i64, 4i64, 6i64, 24i64, 36i64, 24i64, 6i64, 4i64, 16i64, 24i64, 16i64, 4i64, 1i64, 4i64, 6i64, 4i64, 1i64],
        size: 5,
        gain: 256,
        bias: 0,
    };
    proof {
        assert(k.elems@ =~= seq![1i64, 4i64, 6i64, 4i64, 1i64, 4i64, 16i64, 24i64, 16i64, 4i64, 6i64, 24i64, 36i64, 24i64, 6i64, 4i64, 16i64, 24i64, 16i64, 4i64, 1i64, 4i64, 6i64, 4i64, 1i64]);
        reveal_with_fuel(elem_sum, 26);
        assert(elem_sum(k.elems@, 25) == 256);
    }
    k
}

} // verus!