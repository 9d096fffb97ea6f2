//! Pictures of four bytes per pixel.

use vstd::prelude::*;

verus! {

/// Red, green, blue and opacity of one pixel.
pub type Rgba = (u8, u8, u8, u8);

/// A picture, held by an `image::RgbaImage`.
#[verifier::external_body]
pub struct Picture {
    image: image::RgbaImage,
}

/// The pixels of a picture: its rows from top to bottom, each from left to right.
pub uninterp spec fn pixel_rows(picture: Picture) -> Seq<Seq<Rgba>>;

/// The four samples of a pixel.
pub open spec fn samples(pixel: Rgba) -> Seq<u8> {
    seq![pixel.0, pixel.1, pixel.2, pixel.3]
}

/// The samples of all pixels, row by row.
pub open spec fn all_samples(rows: Seq<Seq<Rgba>>) -> Seq<u8> {
    rows.flatten().map_values(|p: Rgba| samples(p)).flatten()
}

impl View for Picture {
    type V = Seq<Seq<Rgba>>;

    open spec fn view(&self) -> Seq<Seq<Rgba>> {
        pixel_rows(*self)
    }
}

impl Picture {
    /// `image::ImageBuffer::new`: a picture of the given size whose pixels are all zero. It
    /// panics where the samples of a row cannot be counted, even if there is no row, and on a size
    /// that a vector cannot hold.
    #[verifier::external_body]
    fn new(width: u32, height: u32) -> (picture: Picture)
        requires
            width * 4 <= usize::MAX,
            width * height * 4 <= isize::MAX,
        ensures
            pixel_rows(picture) == Seq::new(
                height as nat,
                |y: int| Seq::new(width as nat, |x: int| (0u8, 0u8, 0u8, 0u8)),
            ),
    {
        Picture { image: image::RgbaImage::new(width, height) }
    }

    /// `image::ImageBuffer::put_pixel`: replaces the pixel at column `x` of row `y` and no other.
    /// It panics outside the picture.
    #[verifier::external_body]
    fn put_pixel(&mut self, x: u32, y: u32, pixel: Rgba)
        requires
            y < pixel_rows(*old(self)).len(),
            x < pixel_rows(*old(self))[y as int].len(),
        ensures
            pixel_rows(*final(self)) == pixel_rows(*old(self)).update(
                y as int,
                pixel_rows(*old(self))[y as int].update(x as int, pixel),
            ),
    {
        self.image.put_pixel(x, y, image::Rgba([pixel.0, pixel.1, pixel.2, pixel.3]))
    }

    /// `image::ImageBuffer::into_raw`: the samples of the pixels, row by row.
    #[verifier::external_body]
    fn into_raw(self) -> (bytes: Vec<u8>)
        ensures
            bytes@ == all_samples(pixel_rows(self)),
    {
        self.image.into_raw()
    }
}

/// Pixel number `i` of packed red, green and blue bytes, fully opaque.
pub open spec fn opaque_pixel(rgb: Seq<u8>, i: int) -> Rgba {
    (rgb[3 * i], rgb[3 * i + 1], rgb[3 * i + 2], 255u8)
}

/// The pixels of packed red, green and blue bytes, fully opaque.
pub open spec fn opaque_rows(rgb: Seq<u8>, width: nat, height: nat) -> Seq<Seq<Rgba>> {
    Seq::new(height, |y: int| Seq::new(width, |x: int| opaque_pixel(rgb, y * width + x)))
}

/// The picture that packed red, green and blue bytes show.
pub fn expand_rgb(rgb: &Vec<u8>, width: u32, height: u32) -> (picture: Picture)
    requires
        width * height * 3 <= rgb.len(),
        width * 4 <= usize::MAX,
        width * height * 4 <= isize::MAX,
    ensures
        picture@ == opaque_rows(rgb@, width as nat, height as nat),
{
    let mut picture = Picture::new(width, height);
    let mut y: u32 = 0;
    while y < height
        invariant
            y <= height,
            width * height * 3 <= rgb.len(),
            picture@.len() == height,
            forall|v: int| #![trigger picture@[v]] 0 <= v < height ==> picture@[v].len() == width,
            forall|v: int, u: int|
                #![trigger picture@[v][u]]
                0 <= v < y && 0 <= u < width ==> picture@[v][u] == opaque_pixel(
                    rgb@,
                    v * width + u,
                ),
        decreases height - y,
    {
        assert(y * width + width <= width * height) by (nonlinear_arith)
            requires
                y < height,
        ;
        let start: usize = (y as usize) * (width as usize) * 3;
        let mut x: u32 = 0;
        while x < width
            invariant
                y < height,
                x <= width,
                y * width + width <= width * height,
                width * height * 3 <= rgb.len(),
                start == y * width * 3,
                picture@.len() == height,
                forall|v: int|
                    #![trigger picture@[v]]
                    0 <= v < height ==> picture@[v].len() == width,
                forall|v: int, u: int|
                    #![trigger picture@[v][u]]
                    0 <= v < y && 0 <= u < width ==> picture@[v][u] == opaque_pixel(
                        rgb@,
                        v * width + u,
                    ),
                forall|u: int|
                    #![trigger picture@[y as int][u]]
                    0 <= u < x ==> picture@[y as int][u] == opaque_pixel(rgb@, y * width + u),
            decreases width - x,
        {
            let i: usize = start + (x as usize) * 3;
            picture.put_pixel(x, y, (rgb[i], rgb[i + 1], rgb[i + 2], 255));
            x = x + 1;
        }
        y = y + 1;
    }
    assert(picture@ =~~= opaque_rows(rgb@, width as nat, height as nat));
    picture
}

/// Packed red, green and blue bytes with an opacity of 255 after every third.
pub open spec fn with_opacity(rgb: Seq<u8>, pixels: nat) -> Seq<u8> {
    Seq::new(
        4 * pixels,
        |i: int|
            if i % 4 == 3 {
                255u8
            } else {
                rgb[3 * (i / 4) + i % 4]
            },
    )
}

proof fn lemma_flatten_even<A>(rows: Seq<Seq<A>>, width: nat)
    requires
        forall|y: int| #![trigger rows[y]] 0 <= y < rows.len() ==> rows[y].len() == width,
    ensures
        rows.flatten().len() == rows.len() * width,
        forall|y: int, x: int|
            0 <= y < rows.len() && 0 <= x < width ==> rows.flatten()[y * width + x]
                == #[trigger] rows[y][x],
    decreases rows.len(),
{
    if rows.len() > 0 {
        let front = rows.drop_last();
        let last = rows.last();
        lemma_flatten_even(front, width);
        front.lemma_flatten_push(last);
        assert(rows =~= front.push(last));
        assert(rows.flatten() == front.flatten() + last);
        assert(front.len() * width + width == rows.len() * width) by (nonlinear_arith)
            requires
                front.len() + 1 == rows.len(),
        ;
        assert forall|y: int, x: int|
            0 <= y < rows.len() && 0 <= x < width implies rows.flatten()[y * width + x]
            == #[trigger] rows[y][x] by {
            if y < front.len() {
                assert(y * width + x < front.len() * width) by (nonlinear_arith)
                    requires
                        0 <= y < front.len(),
                        0 <= x < width,
                ;
                assert(0 <= y * width) by (nonlinear_arith)
                    requires
                        0 <= y,
                ;
                assert(front[y][x] == rows[y][x]);
            } else {
                assert(last[x] == rows[y][x]);
            }
        }
    } else {
        assert(rows.len() * width == 0) by (nonlinear_arith)
            requires
                rows.len() == 0,
        ;
    }
}

/// The samples of the picture that packed red, green and blue bytes show are these bytes, each
/// pixel followed by an opacity of 255.
pub proof fn law_expansion_keeps_the_bytes(rgb: Seq<u8>, width: nat, height: nat)
    ensures
        all_samples(opaque_rows(rgb, width, height)) == with_opacity(rgb, width * height),
{
    let rows = opaque_rows(rgb, width, height);
    lemma_flatten_even(rows, width);
    let pixels = rows.flatten();
    assert(pixels.len() == width * height) by (nonlinear_arith)
        requires
            pixels.len() == height * width,
    ;
    assert forall|i: int| 0 <= i < pixels.len() implies #[trigger] pixels[i] == opaque_pixel(
        rgb,
        i,
    ) by {
        let y = i / (width as int);
        let x = i % (width as int);
        assert(0 <= y < height && 0 <= x < width && i == y * width + x) by (nonlinear_arith)
            requires
                0 <= i < width * height,
                y == i / (width as int),
                x == i % (width as int),
        ;
        assert(rows[y][x] == opaque_pixel(rgb, y * width + x));
    }
    let split = pixels.map_values(|p: Rgba| samples(p));
    lemma_flatten_even(split, 4);
    assert forall|i: int| 0 <= i < 4 * (width * height) implies #[trigger] split.flatten()[i]
        == with_opacity(rgb, width * height)[i] by {
        let k = i / 4;
        let c = i % 4;
        assert(i == k * 4 + c);
        assert(split[k] == samples(pixels[k]));
        assert(split.flatten()[k * 4 + c] == split[k][c]);
    }
    assert(split.flatten() =~= with_opacity(rgb, width * height));
}

/// A pixel of the picture has its three bytes of the row that it stands in, and is opaque.
pub proof fn law_picture_shows_the_bytes(rgb: Seq<u8>, width: nat, height: nat, x: int, y: int)
    requires
        0 <= x < width,
        0 <= y < height,
    ensures
        opaque_rows(rgb, width, height).len() == height,
        opaque_rows(rgb, width, height)[y].len() == width,
        opaque_rows(rgb, width, height)[y][x].0 == rgb[3 * (width * y + x)],
        opaque_rows(rgb, width, height)[y][x].1 == rgb[3 * (width * y + x) + 1],
        opaque_rows(rgb, width, height)[y][x].2 == rgb[3 * (width * y + x) + 2],
        opaque_rows(rgb, width, height)[y][x].3 == 255,
{
    assert(y * width == width * y) by (nonlinear_arith);
}

/// Of the four samples of a pixel three are its bytes, in their order, and the last is 255.
pub proof fn law_opacity_follows_each_pixel(rgb: Seq<u8>, pixels: nat, k: int)
    requires
        0 <= k < pixels,
    ensures
        with_opacity(rgb, pixels).len() == 4 * pixels,
        with_opacity(rgb, pixels).subrange(4 * k, 4 * k + 3) == seq![
            rgb[3 * k],
            rgb[3 * k + 1],
            rgb[3 * k + 2],
        ],
        with_opacity(rgb, pixels)[4 * k + 3] == 255,
{
    let out = with_opacity(rgb, pixels);
    assert((4 * k + 1) / 4 == k && (4 * k + 2) / 4 == k && (4 * k + 3) / 4 == k);
    assert(out.subrange(4 * k, 4 * k + 3) =~= seq![rgb[3 * k], rgb[3 * k + 1], rgb[3 * k + 2]]);
}

/// The samples, with opacity, of the picture that packed red, green and blue bytes show.
pub fn rgba_samples(rgb: &Vec<u8>, width: u32, height: u32) -> (bytes: Vec<u8>)
    requires
        width * height * 3 <= rgb.len(),
        width * 4 <= usize::MAX,
        width * height * 4 <= isize::MAX,
    ensures
        bytes@ == with_opacity(rgb@, (width * height) as nat),
        bytes.len() == 4 * (width * height),
        forall|k: int|
            #![trigger bytes@[4 * k]]
            0 <= k < width * height ==> bytes@[4 * k] == rgb@[3 * k] && bytes@[4 * k + 1] == rgb@[3
                * k + 1] && bytes@[4 * k + 2] == rgb@[3 * k + 2] && bytes@[4 * k + 3] == 255,
{
    let picture = expand_rgb(rgb, width, height);
    proof {
        law_expansion_keeps_the_bytes(rgb@, width as nat, height as nat);
    }
    picture.into_raw()
}

} // verus!
