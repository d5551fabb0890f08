use vstd::prelude::*;

verus! {

/// Colour a surface is cleared to before sprites are drawn: a dark, translucent violet.
pub const BACKGROUND: u32 = 0x0d00_1ab3;

/// One pixel packed as red, green, blue and alpha from the high byte down.
pub open spec fn pack_rgba(r: u8, g: u8, b: u8, a: u8) -> u32 {
    (r as int * 0x100_0000 + g as int * 0x1_0000 + b as int * 0x100 + a as int) as u32
}

/// The pixel at index `i` of a buffer holding four bytes per pixel.
pub open spec fn rgba_at(raw: Seq<u8>, i: int) -> u32 {
    pack_rgba(raw[4 * i], raw[4 * i + 1], raw[4 * i + 2], raw[4 * i + 3])
}

/// Pixels of an image, row by row from the top.
pub struct Picture {
    pub width: u32,
    pub height: u32,
    pub rows: Seq<Seq<u32>>,
}

impl Picture {
    pub open spec fn wf(self) -> bool {
        &&& self.rows.len() == self.height
        &&& forall|y: int| 0 <= y < self.rows.len() ==> #[trigger] self.rows[y].len() == self.width
    }
}

/// The image that a buffer of `width * height` RGBA pixels, four bytes each and
/// row by row, describes; `None` when the buffer is too short.
pub open spec fn picture_from_rgba(width: u32, height: u32, raw: Seq<u8>) -> Option<Picture> {
    if raw.len() >= 4 * width * height {
        Some(
            Picture {
                width,
                height,
                rows: Seq::new(
                    height as nat,
                    |y: int| Seq::new(width as nat, |x: int| rgba_at(raw, y * width + x)),
                ),
            },
        )
    } else {
        None
    }
}

/// What the image crate decodes from the bytes of an image file: width, height
/// and the pixels as RGBA bytes, or `None` where it cannot decode them.
pub uninterp spec fn decoded_rgba(bytes: Seq<u8>) -> Option<(u32, u32, Seq<u8>)>;

/// The picture held in the bytes of an image file, if they decode.
pub open spec fn picture_of_file(bytes: Seq<u8>) -> Option<Picture> {
    match decoded_rgba(bytes) {
        Some((w, h, raw)) => picture_from_rgba(w, h, raw),
        None => None,
    }
}

/// Relies on `image::load_from_memory`, `DynamicImage::to_rgba8` and
/// `ImageBuffer::into_raw`: the result depends on the bytes alone.
#[verifier::external_body]
fn decode_rgba(bytes: &[u8]) -> (r: Option<(u32, u32, Vec<u8>)>)
    ensures
        r matches Some((w, h, raw)) ==> decoded_rgba(bytes@) == Some((w, h, raw@)),
        r is None ==> decoded_rgba(bytes@) is None,
{
    image::load_from_memory(bytes).ok().map(
        |i| {
            let rgba = i.to_rgba8();
            (rgba.width(), rgba.height(), rgba.into_raw())
        },
    )
}

/// An image held in memory, row by row from the top.
pub struct Image {
    pub width: u32,
    pub height: u32,
    pub rows: Vec<Vec<u32>>,
}

pub open spec fn rows_view(rows: Seq<Vec<u32>>) -> Seq<Seq<u32>> {
    rows.map_values(|r: Vec<u32>| r@)
}

/// The picture an optional image holds.
pub open spec fn view_of(img: Option<Image>) -> Option<Picture> {
    match img {
        Some(i) => Some(i@),
        None => None,
    }
}

impl View for Image {
    type V = Picture;

    open spec fn view(&self) -> Picture {
        Picture { width: self.width, height: self.height, rows: rows_view(self.rows@) }
    }
}

impl Image {
    pub open spec fn wf(&self) -> bool {
        self@.wf()
    }

    /// Decodes the bytes of an image file (PNG) into pixels; `None` where they
    /// do not decode.
    pub fn decode(bytes: &[u8]) -> (r: Option<Image>)
        ensures
            r matches Some(img) ==> img.wf(),
            view_of(r) == picture_of_file(bytes@),
    {
        match decode_rgba(bytes) {
            Some((w, h, raw)) => Image::from_rgba(w, h, &raw),
            None => None,
        }
    }

    /// Builds an image from `width * height` pixels given as RGBA bytes, row by
    /// row; `None` where `raw` holds fewer bytes than that.
    pub fn from_rgba(width: u32, height: u32, raw: &Vec<u8>) -> (r: Option<Image>)
        ensures
            r matches Some(img) ==> img.wf(),
            view_of(r) == picture_from_rgba(width, height, raw@),
    {
        let wide = width as u128;
        let high = height as u128;
        assert(wide * high <= 0xffff_ffff_u128 * 0xffff_ffff_u128) by (nonlinear_arith)
            requires
                wide <= 0xffff_ffff,
                high <= 0xffff_ffff,
        ;
        let needed: u128 = wide * high * 4;
        assert(needed == 4 * width * height) by (nonlinear_arith)
            requires
                needed == wide * high * 4,
                wide == width,
                high == height,
        ;
        let len = raw.len();
        if (len as u128) < needed {
            return None;
        }
        let ghost w = width as int;
        let ghost total = w * height;
        assert(4 * total == 4 * width * height) by (nonlinear_arith)
            requires
                total == w * height,
                w == width,
        ;
        let mut rows: Vec<Vec<u32>> = Vec::new();
        let mut y: u32 = 0;
        let mut off: usize = 0;
        while y < height
            invariant
                y <= height,
                off == 4 * (y * w),
                w == width,
                raw@.len() >= 4 * total,
                total == w * height,
                raw@.len() == len,
                rows@.len() == y,
                forall|j: int|
                    0 <= j < y ==> #[trigger] rows@[j]@ == Seq::new(
                        width as nat,
                        |x: int| rgba_at(raw@, j * w + x),
                    ),
            decreases height - y,
        {
            let mut row: Vec<u32> = Vec::new();
            let mut x: u32 = 0;
            while x < width
                invariant
                    x <= width,
                    y < height,
                    w == width,
                    off == 4 * (y * w + x),
                    raw@.len() >= 4 * total,
                    total == w * height,
                    raw@.len() == len,
                    row@.len() == x,
                    forall|i: int| 0 <= i < x ==> #[trigger] row@[i] == rgba_at(raw@, y * w + i),
                decreases width - x,
            {
                proof {
                    lemma_pixel_in_buffer(y as int, x as int, w, height as int);
                }
                assert(off + 4 <= raw@.len());
                let p = pack(raw[off], raw[off + 1], raw[off + 2], raw[off + 3]);
                row.push(p);
                off = off + 4;
                x = x + 1;
            }
            assert(row@ =~= Seq::new(width as nat, |x: int| rgba_at(raw@, y * w + x)));
            proof {
                assert((y + 1) * w == y * w + w) by (nonlinear_arith);
            }
            rows.push(row);
            y = y + 1;
        }
        let img = Image { width, height, rows };
        assert(img@.rows =~= Seq::new(
            height as nat,
            |y: int| Seq::new(width as nat, |x: int| rgba_at(raw@, y * w + x)),
        ));
        Some(img)
    }
}

proof fn lemma_pixel_in_buffer(y: int, x: int, w: int, h: int)
    requires
        0 <= y < h,
        0 <= x < w,
    ensures
        y * w + x < w * h,
        0 <= y * w,
{
    assert(y * w + x < w * h) by (nonlinear_arith)
        requires
            0 <= y < h,
            0 <= x < w,
    ;
    assert(0 <= y * w) by (nonlinear_arith)
        requires
            0 <= y,
            0 <= w,
    ;
}

fn pack(r: u8, g: u8, b: u8, a: u8) -> (p: u32)
    ensures
        p == pack_rgba(r, g, b, a),
{
    (r as u32) * 0x100_0000 + (g as u32) * 0x1_0000 + (b as u32) * 0x100 + (a as u32)
}

} // verus!
