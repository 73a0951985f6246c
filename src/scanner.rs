//! Reading a chunk's text from a photographed or scanned QR symbol.
//!
//! Detection is sensitive to lighting, so an image is tried in three passes
//! in a fixed order: as it is, contrast-stretched, and inverted. The first
//! grid that decodes, in the first pass that has one, wins.
//!
//! Grid detection and decoding are left to the caller: the QR reader's own
//! source holds `expect`s and `panic!`s that depend on an image's geometry,
//! and which images reach them is not known, so the call cannot stand here
//! under a contract that rules them out. The caller reads the grids of each
//! pass (`enhance_contrast` and `invert_image` make the passes) and hands
//! the reads to `choose_first_read`, which makes the choice.

use vstd::prelude::*;

verus! {

/// How the operator hands over the next chunk.
#[derive(Debug, Clone)]
pub enum ScanMethod {
    /// A photograph or screenshot of the chunk's QR symbol, at this path.
    File(String),
    /// The chunk's base64 text, pasted.
    Manual,
}

/// A grayscale image, row by row: 0 is black, 255 is white.
#[derive(Debug, Clone)]
pub struct GrayImage {
    pub width: usize,
    pub height: usize,
    pub pixels: Vec<u8>,
}

impl GrayImage {
    /// The pixels fill the rectangle exactly.
    pub open spec fn wf(&self) -> bool {
        self.pixels@.len() == self.width * self.height
    }

    /// An image from its rows of pixels, or `None` where their number is not
    /// `width * height`.
    pub fn from_pixels(width: usize, height: usize, pixels: Vec<u8>) -> (r: Option<GrayImage>)
        ensures
            match r {
                Some(img) => img.wf() && img.width == width && img.height == height && img.pixels@ == pixels@,
                None => pixels@.len() != width * height,
            },
    {
        if height == 0 {
            if pixels.len() == 0 {
                return Some(GrayImage { width, height, pixels });
            }
            return None;
        }
        if pixels.len() % height != 0 || pixels.len() / height != width {
            proof {
                if pixels@.len() == width * height {
                    assert(pixels@.len() % (height as nat) == 0 && pixels@.len() / (height as nat) == width)
                        by (nonlinear_arith)
                        requires pixels@.len() == width * height, height > 0;
                }
            }
            return None;
        }
        assert(pixels@.len() == width * height) by (nonlinear_arith)
            requires
                height > 0,
                pixels@.len() % (height as nat) == 0,
                pixels@.len() / (height as nat) == width;
        Some(GrayImage { width, height, pixels })
    }

    /// The pixel in column `x` of row `y`.
    pub fn pixel(&self, x: usize, y: usize) -> (r: u8)
        requires
            self.wf(),
            x < self.width,
            y < self.height,
        ensures
            r == self.pixels@[y * self.width + x],
    {
        let len = self.pixels.len();
        proof {
            assert(y * self.width + x < self.width * self.height) by (nonlinear_arith)
                requires x < self.width, y < self.height;
            assert(y * self.width + x < len);
        }
        self.pixels[y * self.width + x]
    }
}

/// Contrast stretch of one value: below the midpoint halved toward black,
/// from it upward spread by half again toward white, capped at white.
pub open spec fn stretch(v: u8) -> u8 {
    if v < 128 {
        (v / 2) as u8
    } else if 128 + (v - 128) * 3 / 2 > 255 {
        255
    } else {
        (128 + (v - 128) * 3 / 2) as u8
    }
}

/// Tonal inverse of one value.
pub open spec fn invert(v: u8) -> u8 {
    (255 - v) as u8
}

fn stretch_value(v: u8) -> (r: u8)
    ensures
        r == stretch(v),
{
    if v < 128 {
        v / 2
    } else {
        let s: u16 = 128 + (v as u16 - 128) * 3 / 2;
        if s > 255 {
            255
        } else {
            s as u8
        }
    }
}

/// The image with every value contrast-stretched.
pub fn enhance_contrast(img: &GrayImage) -> (r: GrayImage)
    requires
        img.wf(),
    ensures
        r.wf(),
        r.width == img.width,
        r.height == img.height,
        r.pixels@ == img.pixels@.map_values(|v: u8| stretch(v)),
{
    let mut out: Vec<u8> = Vec::new();
    let mut i: usize = 0;
    while i < img.pixels.len()
        invariant
            i <= img.pixels@.len(),
            out@ == img.pixels@.subrange(0, i as int).map_values(|v: u8| stretch(v)),
        decreases img.pixels@.len() - i,
    {
        out.push(stretch_value(img.pixels[i]));
        i = i + 1;
        assert(out@ =~= img.pixels@.subrange(0, i as int).map_values(|v: u8| stretch(v)));
    }
    assert(img.pixels@.subrange(0, i as int) =~= img.pixels@);
    GrayImage { width: img.width, height: img.height, pixels: out }
}

/// The image with every value inverted.
pub fn invert_image(img: &GrayImage) -> (r: GrayImage)
    requires
        img.wf(),
    ensures
        r.wf(),
        r.width == img.width,
        r.height == img.height,
        r.pixels@ == img.pixels@.map_values(|v: u8| invert(v)),
{
    let mut out: Vec<u8> = Vec::new();
    let mut i: usize = 0;
    while i < img.pixels.len()
        invariant
            i <= img.pixels@.len(),
            out@ == img.pixels@.subrange(0, i as int).map_values(|v: u8| invert(v)),
        decreases img.pixels@.len() - i,
    {
        out.push(255 - img.pixels[i]);
        i = i + 1;
        assert(out@ =~= img.pixels@.subrange(0, i as int).map_values(|v: u8| invert(v)));
    }
    assert(img.pixels@.subrange(0, i as int) =~= img.pixels@);
    GrayImage { width: img.width, height: img.height, pixels: out }
}

/// The characters of an optional text.
pub open spec fn text_view(t: Option<String>) -> Option<Seq<char>> {
    match t {
        Some(s) => Some(s@),
        None => None,
    }
}

/// The reads of one pass, one entry per detected grid, as characters.
pub open spec fn reads_view(reads: Seq<Option<String>>) -> Seq<Option<Seq<char>>> {
    reads.map_values(|t: Option<String>| text_view(t))
}

/// The first text that was read, if any.
pub open spec fn first_text(reads: Seq<Option<Seq<char>>>) -> Option<Seq<char>>
    decreases reads.len(),
{
    if reads.len() == 0 {
        None
    } else if reads[0] is Some {
        reads[0]
    } else {
        first_text(reads.drop_first())
    }
}

proof fn lemma_first_text_skip(reads: Seq<Option<Seq<char>>>, i: int)
    requires
        0 <= i <= reads.len(),
        forall|k: int| 0 <= k < i ==> reads[k] is None,
    ensures
        first_text(reads) == first_text(reads.skip(i)),
    decreases i,
{
    if i > 0 {
        lemma_first_text_skip(reads.drop_first(), i - 1);
        assert(reads.drop_first().skip(i - 1) =~= reads.skip(i));
    } else {
        assert(reads.skip(0) =~= reads);
    }
}

proof fn lemma_first_text_concat(a: Seq<Option<Seq<char>>>, b: Seq<Option<Seq<char>>>)
    ensures
        first_text(a + b) == if first_text(a) is Some { first_text(a) } else { first_text(b) },
    decreases a.len(),
{
    if a.len() == 0 {
        assert(a + b =~= b);
    } else {
        lemma_first_text_concat(a.drop_first(), b);
        assert((a + b).drop_first() =~= a.drop_first() + b);
    }
}

/// The first text among the reads of a pass, if any grid decoded.
pub fn first_decoded(reads: &Vec<Option<String>>) -> (r: Option<String>)
    ensures
        text_view(r) == first_text(reads_view(reads@)),
{
    let ghost views = reads@.map_values(|t: Option<String>| text_view(t));
    let mut i: usize = 0;
    while i < reads.len()
        invariant
            i <= reads@.len(),
            views == reads@.map_values(|t: Option<String>| text_view(t)),
            forall|k: int| 0 <= k < i ==> views[k] is None,
        decreases reads@.len() - i,
    {
        match &reads[i] {
            Some(text) => {
                proof {
                    lemma_first_text_skip(views, i as int);
                    assert(views.skip(i as int)[0] == Some(text@));
                }
                return Some(text.clone());
            },
            None => {},
        }
        i = i + 1;
    }
    proof {
        lemma_first_text_skip(views, i as int);
        assert(views.skip(i as int).len() == 0);
    }
    None
}

/// Chooses a chunk's text from the reads of the three passes over an
/// image (as it is, contrast-stretched, inverted), each holding one entry
/// per detected grid in order: the first grid that decoded, in the first
/// pass that has one; `None` where no grid decoded in any pass.
pub fn choose_first_read(
    plain: &Vec<Option<String>>,
    stretched: &Vec<Option<String>>,
    inverted: &Vec<Option<String>>,
) -> (r: Option<String>)
    ensures
        text_view(r) == first_text(reads_view(plain@) + reads_view(stretched@) + reads_view(inverted@)),
{
    proof {
        lemma_first_text_concat(reads_view(plain@) + reads_view(stretched@), reads_view(inverted@));
        lemma_first_text_concat(reads_view(plain@), reads_view(stretched@));
    }
    let first = first_decoded(plain);
    if first.is_some() {
        return first;
    }
    let second = first_decoded(stretched);
    if second.is_some() {
        return second;
    }
    first_decoded(inverted)
}

} // verus!
