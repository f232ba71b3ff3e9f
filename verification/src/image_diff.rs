//! Visual difference of two RGBA images: identical pixels are shown in
//! translucent grey, differing pixels in opaque red.

use vstd::prelude::*;

verus! {

/// An RGBA image: four bytes per pixel, rows from top to bottom.
pub struct RgbaImageData {
    pub width: u32,
    pub height: u32,
    pub pixels: Vec<u8>,
}

/// View of an RGBA image.
pub struct ImageView {
    pub width: nat,
    pub height: nat,
    pub pixels: Seq<u8>,
}

impl View for RgbaImageData {
    type V = ImageView;

    open spec fn view(&self) -> ImageView {
        ImageView { width: self.width as nat, height: self.height as nat, pixels: self.pixels@ }
    }
}

/// The pixel buffer holds exactly four bytes for each pixel.
pub open spec fn image_wf(img: ImageView) -> bool {
    img.pixels.len() == 4 * img.width * img.height
}

/// Pixel (x, y) of an image; positions outside it read as opaque black.
pub open spec fn pixel_at(img: ImageView, x: nat, y: nat) -> Seq<u8> {
    if x < img.width && y < img.height {
        let i = 4 * (y * img.width + x);
        img.pixels.subrange(i as int, i + 4 as int)
    } else {
        seq![0u8, 0u8, 0u8, 255u8]
    }
}

/// The diff pixel at (x, y): grey (mean of the first image's red, green
/// and blue, alpha 128) where the two images agree, opaque red elsewhere.
pub open spec fn diff_pixel(a: ImageView, b: ImageView, x: nat, y: nat) -> Seq<u8> {
    let pa = pixel_at(a, x, y);
    let pb = pixel_at(b, x, y);
    if pa == pb {
        let g = ((pa[0] + pa[1] + pa[2]) / 3) as u8;
        seq![g, g, g, 128u8]
    } else {
        seq![255u8, 0u8, 0u8, 255u8]
    }
}

/// The first `x` diff pixels of row `y`.
pub open spec fn diff_row(a: ImageView, b: ImageView, x: nat, y: nat) -> Seq<u8>
    decreases x,
{
    if x == 0 {
        Seq::empty()
    } else {
        diff_row(a, b, (x - 1) as nat, y) + diff_pixel(a, b, (x - 1) as nat, y)
    }
}

/// The first `y` rows of the diff, each `width` pixels wide.
pub open spec fn diff_rows(a: ImageView, b: ImageView, width: nat, y: nat) -> Seq<u8>
    decreases y,
{
    if y == 0 {
        Seq::empty()
    } else {
        diff_rows(a, b, width, (y - 1) as nat) + diff_row(a, b, width, (y - 1) as nat)
    }
}

/// Larger of two numbers.
pub open spec fn max_nat(p: nat, q: nat) -> nat {
    if p >= q {
        p
    } else {
        q
    }
}

/// The diff image of `a` and `b`: as wide and as tall as the larger of the two.
pub open spec fn spec_visual_diff(a: ImageView, b: ImageView) -> ImageView {
    let w = max_nat(a.width, b.width);
    let h = max_nat(a.height, b.height);
    ImageView { width: w, height: h, pixels: diff_rows(a, b, w, h) }
}

proof fn lemma_row_len(a: ImageView, b: ImageView, x: nat, y: nat)
    ensures
        diff_row(a, b, x, y).len() == 4 * x,
    decreases x,
{
    if x > 0 {
        lemma_row_len(a, b, (x - 1) as nat, y);
    }
}

proof fn lemma_rows_len(a: ImageView, b: ImageView, w: nat, y: nat)
    ensures
        diff_rows(a, b, w, y).len() == 4 * w * y,
    decreases y,
{
    if y > 0 {
        lemma_rows_len(a, b, w, (y - 1) as nat);
        lemma_row_len(a, b, w, (y - 1) as nat);
        assert(4 * w * ((y - 1) as nat) + 4 * w == 4 * w * y) by (nonlinear_arith)
            requires
                y > 0,
        ;
    } else {
        assert(4 * w * y == 0) by (nonlinear_arith)
            requires
                y == 0,
        ;
    }
}

proof fn lemma_pixel_index(x: nat, y: nat, w: nat, h: nat)
    requires
        x < w,
        y < h,
    ensures
        4 * (y * w + x) + 4 <= 4 * w * h,
{
    assert(y * w + x < w * h) by (nonlinear_arith)
        requires
            x < w,
            y < h,
    ;
    assert(4 * (w * h) == 4 * w * h) by (nonlinear_arith);
}

fn read_pixel(img: &RgbaImageData, x: u32, y: u32) -> (p: [u8; 4])
    requires
        image_wf(img@),
        img@.pixels.len() <= usize::MAX,
    ensures
        p@ == pixel_at(img@, x as nat, y as nat),
{
    if x < img.width && y < img.height {
        proof {
            lemma_pixel_index(x as nat, y as nat, img.width as nat, img.height as nat);
        }
        let i = 4 * (y as usize * img.width as usize + x as usize);
        let p = [img.pixels[i], img.pixels[i + 1], img.pixels[i + 2], img.pixels[i + 3]];
        assert(p@ =~= pixel_at(img@, x as nat, y as nat));
        p
    } else {
        let p = [0u8, 0u8, 0u8, 255u8];
        assert(p@ =~= pixel_at(img@, x as nat, y as nat));
        p
    }
}

/// Builds the visual diff of two images. The result is as large as the
/// larger of the two in each direction.
pub fn visual_diff(a: &RgbaImageData, b: &RgbaImageData) -> (d: RgbaImageData)
    requires
        image_wf(a@),
        image_wf(b@),
        a@.pixels.len() <= usize::MAX,
        b@.pixels.len() <= usize::MAX,
        4 * max_nat(a@.width, b@.width) * max_nat(a@.height, b@.height) <= usize::MAX,
    ensures
        d@ == spec_visual_diff(a@, b@),
        image_wf(d@),
{
    let w = if a.width >= b.width {
        a.width
    } else {
        b.width
    };
    let h = if a.height >= b.height {
        a.height
    } else {
        b.height
    };
    let mut out: Vec<u8> = Vec::new();
    let mut y: u32 = 0;
    while y < h
        invariant
            y <= h,
            w == max_nat(a@.width, b@.width),
            h == max_nat(a@.height, b@.height),
            image_wf(a@),
            image_wf(b@),
            a@.pixels.len() <= usize::MAX,
            b@.pixels.len() <= usize::MAX,
            out@ == diff_rows(a@, b@, w as nat, y as nat),
        decreases h - y,
    {
        let ghost before = out@;
        let mut x: u32 = 0;
        while x < w
            invariant
                x <= w,
                y < h,
                image_wf(a@),
                image_wf(b@),
                a@.pixels.len() <= usize::MAX,
                b@.pixels.len() <= usize::MAX,
                out@ == before + diff_row(a@, b@, x as nat, y as nat),
            decreases w - x,
        {
            let pa = read_pixel(a, x, y);
            let pb = read_pixel(b, x, y);
            let same = pa[0] == pb[0] && pa[1] == pb[1] && pa[2] == pb[2] && pa[3] == pb[3];
            assert(same == (pa@ == pb@)) by {
                if same {
                    assert(pa@ =~= pb@);
                }
            }
            let ghost prev = out@;
            if same {
                let g = ((pa[0] as u32 + pa[1] as u32 + pa[2] as u32) / 3) as u8;
                out.push(g);
                out.push(g);
                out.push(g);
                out.push(128u8);
            } else {
                out.push(255u8);
                out.push(0u8);
                out.push(0u8);
                out.push(255u8);
            }
            assert(out@ =~= prev + diff_pixel(a@, b@, x as nat, y as nat));
            x += 1;
            assert(out@ =~= before + diff_row(a@, b@, x as nat, y as nat));
        }
        y += 1;
    }
    proof {
        lemma_rows_len(a@, b@, w as nat, h as nat);
    }
    RgbaImageData { width: w, height: h, pixels: out }
}

proof fn lemma_row_symmetric(a: ImageView, b: ImageView, x: nat, y: nat)
    ensures
        diff_row(a, b, x, y) == diff_row(b, a, x, y),
    decreases x,
{
    if x > 0 {
        lemma_row_symmetric(a, b, (x - 1) as nat, y);
    }
}

proof fn lemma_rows_symmetric(a: ImageView, b: ImageView, w: nat, y: nat)
    ensures
        diff_rows(a, b, w, y) == diff_rows(b, a, w, y),
    decreases y,
{
    if y > 0 {
        lemma_rows_symmetric(a, b, w, (y - 1) as nat);
        lemma_row_symmetric(a, b, w, (y - 1) as nat);
    }
}

/// The diff does not depend on the order of the two images.
pub proof fn lemma_visual_diff_symmetric(a: ImageView, b: ImageView)
    ensures
        spec_visual_diff(a, b) == spec_visual_diff(b, a),
{
    lemma_rows_symmetric(a, b, max_nat(a.width, b.width), max_nat(a.height, b.height));
}


proof fn lemma_pixel_len(img: ImageView, x: nat, y: nat)
    requires
        image_wf(img),
    ensures
        pixel_at(img, x, y).len() == 4,
{
    if x < img.width && y < img.height {
        lemma_pixel_index(x, y, img.width, img.height);
    }
}

proof fn lemma_row_pixel(a: ImageView, b: ImageView, x: nat, y: nat, i: nat)
    requires
        i < x,
        image_wf(a),
        image_wf(b),
    ensures
        diff_row(a, b, x, y).subrange((4 * i) as int, (4 * i + 4) as int) == diff_pixel(a, b, i, y),
    decreases x,
{
    lemma_row_len(a, b, (x - 1) as nat, y);
    lemma_pixel_len(a, i, y);
    lemma_pixel_len(b, i, y);
    let prev = diff_row(a, b, (x - 1) as nat, y);
    let px = diff_pixel(a, b, (x - 1) as nat, y);
    assert(diff_row(a, b, x, y) == prev + px);
    if i == x - 1 {
        assert(diff_row(a, b, x, y).subrange((4 * i) as int, (4 * i + 4) as int) =~= px);
    } else {
        lemma_row_pixel(a, b, (x - 1) as nat, y, i);
        assert(diff_row(a, b, x, y).subrange((4 * i) as int, (4 * i + 4) as int) =~= prev.subrange(
            (4 * i) as int,
            (4 * i + 4) as int,
        ));
    }
}

proof fn lemma_rows_pixel(a: ImageView, b: ImageView, w: nat, y: nat, j: nat, i: nat)
    requires
        j < y,
        i < w,
        image_wf(a),
        image_wf(b),
    ensures
        diff_rows(a, b, w, y).subrange((4 * (j * w + i)) as int, (4 * (j * w + i) + 4) as int) == diff_pixel(
            a,
            b,
            i,
            j,
        ),
    decreases y,
{
    let yp = (y - 1) as nat;
    lemma_rows_len(a, b, w, yp);
    lemma_row_len(a, b, w, yp);
    let prev = diff_rows(a, b, w, yp);
    let row = diff_row(a, b, w, yp);
    assert(diff_rows(a, b, w, y) == prev + row);
    let o: int = (4 * (j * w + i)) as int;
    if j == yp {
        assert(o == 4 * w * yp + 4 * i) by (nonlinear_arith)
            requires
                o == 4 * (j * w + i),
                j == yp,
        ;
        lemma_row_pixel(a, b, w, yp, i);
        assert(diff_rows(a, b, w, y).subrange(o, o + 4) =~= row.subrange((4 * i) as int, (4 * i + 4) as int));
    } else {
        lemma_rows_pixel(a, b, w, yp, j, i);
        assert(o + 4 <= 4 * w * yp) by (nonlinear_arith)
            requires
                o == 4 * (j * w + i),
                j < yp,
                i < w,
        ;
        assert(diff_rows(a, b, w, y).subrange(o, o + 4) =~= prev.subrange(o, o + 4));
    }
}

/// Pixel (x, y) of an image inside it is its four bytes at offset
/// 4 * (y * width + x); outside it, opaque black.
pub proof fn lemma_pixel_bytes(img: ImageView, x: nat, y: nat)
    requires
        image_wf(img),
    ensures
        pixel_at(img, x, y).len() == 4,
        x < img.width && y < img.height ==> forall|c: int|
            0 <= c < 4 ==> #[trigger] pixel_at(img, x, y)[c] == img.pixels[4 * (y * img.width
                + x) + c],
        !(x < img.width && y < img.height) ==> pixel_at(img, x, y) == seq![0u8, 0u8, 0u8, 255u8],
{
    lemma_pixel_len(img, x, y);
    if x < img.width && y < img.height {
        lemma_pixel_index(x, y, img.width, img.height);
        let o: int = (4 * (y * img.width + x)) as int;
        assert forall|c: int| 0 <= c < 4 implies #[trigger] pixel_at(img, x, y)[c]
            == img.pixels[4 * (y * img.width + x) + c] by {
            assert(pixel_at(img, x, y) == img.pixels.subrange(o, o + 4));
            assert(img.pixels.subrange(o, o + 4)[c] == img.pixels[o + c]);
        }
    }
}

/// Pixel (x, y) of the diff image is opaque red when the two source pixels
/// differ in any channel, and otherwise grey of the first image's pixel:
/// the mean of its red, green and blue, with alpha 128.
pub proof fn lemma_visual_diff_pixel(a: ImageView, b: ImageView, x: nat, y: nat)
    requires
        image_wf(a),
        image_wf(b),
        x < max_nat(a.width, b.width),
        y < max_nat(a.height, b.height),
    ensures
        ({
            let d = spec_visual_diff(a, b);
            let o: int = (4 * (y * d.width + x)) as int;
            let pa = pixel_at(a, x, y);
            let pb = pixel_at(b, x, y);
            &&& o + 4 <= d.pixels.len()
            &&& (pa[0] != pb[0] || pa[1] != pb[1] || pa[2] != pb[2] || pa[3] != pb[3])
                ==> d.pixels.subrange(o, o + 4) == seq![255u8, 0u8, 0u8, 255u8]
            &&& (pa[0] == pb[0] && pa[1] == pb[1] && pa[2] == pb[2] && pa[3] == pb[3])
                ==> d.pixels.subrange(o, o + 4) == seq![
                ((pa[0] + pa[1] + pa[2]) / 3) as u8,
                ((pa[0] + pa[1] + pa[2]) / 3) as u8,
                ((pa[0] + pa[1] + pa[2]) / 3) as u8,
                128u8,
            ]
        }),
{
    let w = max_nat(a.width, b.width);
    let h = max_nat(a.height, b.height);
    lemma_rows_len(a, b, w, h);
    lemma_pixel_index(x, y, w, h);
    lemma_rows_pixel(a, b, w, h, y, x);
    lemma_pixel_len(a, x, y);
    lemma_pixel_len(b, x, y);
    let pa = pixel_at(a, x, y);
    let pb = pixel_at(b, x, y);
    if pa[0] == pb[0] && pa[1] == pb[1] && pa[2] == pb[2] && pa[3] == pb[3] {
        assert(pa =~= pb);
    }
}


/// The diff image is as wide as the wider of the two images and as tall as
/// the taller, with four bytes for each of its pixels.
pub proof fn lemma_visual_diff_size(a: ImageView, b: ImageView)
    ensures
        spec_visual_diff(a, b).width >= a.width,
        spec_visual_diff(a, b).width >= b.width,
        spec_visual_diff(a, b).width == a.width || spec_visual_diff(a, b).width == b.width,
        spec_visual_diff(a, b).height >= a.height,
        spec_visual_diff(a, b).height >= b.height,
        spec_visual_diff(a, b).height == a.height || spec_visual_diff(a, b).height == b.height,
        image_wf(spec_visual_diff(a, b)),
{
    lemma_rows_len(a, b, max_nat(a.width, b.width), max_nat(a.height, b.height));
}

} // verus!
