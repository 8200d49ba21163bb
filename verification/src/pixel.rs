//! Colors and the dense pixel buffer of one frame.
//!
//! A buffer of `width` by `height` pixels is `width * height * 3` bytes:
//! rows from top to bottom, pixels from left to right within a row, and the
//! channels red, green, blue within a pixel. The pixel at column `x` of row
//! `y` starts at byte `(y * width + x) * 3`.

use vstd::prelude::*;
use vstd::string::StrSliceExecFns;

verus! {

/// One pixel's color, eight bits per channel.
#[derive(Clone, Copy, Debug, PartialEq, Eq, Structural)]
pub struct Rgb {
    pub r: u8,
    pub g: u8,
    pub b: u8,
}

/// A channel value scaled to the byte range, brought into it: below 0 it
/// becomes 0, above 255 it becomes 255, and in between it stays.
pub open spec fn clamp_channel(scaled: int) -> int {
    if scaled < 0 {
        0
    } else if scaled > 255 {
        255
    } else {
        scaled
    }
}

/// Quantizes one channel that was scaled by 255 and cut to a whole number:
/// values outside `0 ..= 255` are clamped, never wrapped.
pub fn quantize(scaled: i64) -> (byte: u8)
    ensures
        byte as int == clamp_channel(scaled as int),
{
    if scaled <= 0 {
        0
    } else if scaled >= 255 {
        255
    } else {
        scaled as u8
    }
}

/// The value of the hexadecimal digit `c`, in either case.
pub open spec fn hex_digit_value(c: char) -> Option<nat> {
    let n = c as u32;
    if 48 <= n <= 57 {
        Some((n - 48) as nat)
    } else if 97 <= n <= 102 {
        Some((n - 87) as nat)
    } else if 65 <= n <= 70 {
        Some((n - 55) as nat)
    } else {
        None
    }
}

/// The byte that two hexadecimal digits spell, the higher digit first.
pub open spec fn hex_pair(hi: char, lo: char) -> Option<u8> {
    match (hex_digit_value(hi), hex_digit_value(lo)) {
        (Some(h), Some(l)) => Some((h * 16 + l) as u8),
        _ => None,
    }
}

/// The color that `code` spells as `#rrggbb`: a hash sign and six
/// hexadecimal digits, two for each channel.
pub open spec fn hex_color(code: Seq<char>) -> Option<Rgb> {
    if code.len() == 7 && code[0] == '#' {
        match (hex_pair(code[1], code[2]), hex_pair(code[3], code[4]), hex_pair(code[5], code[6])) {
            (Some(r), Some(g), Some(b)) => Some(Rgb { r, g, b }),
            _ => None,
        }
    } else {
        None
    }
}

/// The value of the hexadecimal digit `c`, in either case.
fn hex_digit(c: char) -> (value: Option<u8>)
    ensures
        match value {
            Some(v) => hex_digit_value(c) == Some(v as nat) && v < 16,
            None => hex_digit_value(c) is None,
        },
{
    let n: u32 = c as u32;
    if 48 <= n && n <= 57 {
        Some((n - 48) as u8)
    } else if 97 <= n && n <= 102 {
        Some((n - 87) as u8)
    } else if 65 <= n && n <= 70 {
        Some((n - 55) as u8)
    } else {
        None
    }
}

/// The byte that two hexadecimal digits spell, the higher digit first.
fn hex_byte(hi: char, lo: char) -> (value: Option<u8>)
    ensures
        value == hex_pair(hi, lo),
{
    match hex_digit(hi) {
        None => None,
        Some(h) => match hex_digit(lo) {
            None => None,
            Some(l) => Some(h * 16 + l),
        },
    }
}

impl Rgb {
    /// The color that `code` spells as `#rrggbb`, or `None` where `code` is
    /// not a hash sign followed by exactly six hexadecimal digits.
    pub fn from_hex(code: &str) -> (color: Option<Rgb>)
        ensures
            color == hex_color(code@),
    {
        if code.unicode_len() != 7 || code.get_char(0) != '#' {
            return None;
        }
        let r = match hex_byte(code.get_char(1), code.get_char(2)) {
            None => {
                return None;
            },
            Some(r) => r,
        };
        let g = match hex_byte(code.get_char(3), code.get_char(4)) {
            None => {
                return None;
            },
            Some(g) => g,
        };
        let b = match hex_byte(code.get_char(5), code.get_char(6)) {
            None => {
                return None;
            },
            Some(b) => b,
        };
        Some(Rgb { r, g, b })
    }

    /// The color with the given channels.
    pub fn new(r: u8, g: u8, b: u8) -> (c: Rgb)
        ensures
            c == (Rgb { r, g, b }),
    {
        Rgb { r, g, b }
    }

    /// The color whose channels are the three scaled values, each quantized
    /// on its own.
    pub fn from_scaled(r: i64, g: i64, b: i64) -> (c: Rgb)
        ensures
            c.r as int == clamp_channel(r as int),
            c.g as int == clamp_channel(g as int),
            c.b as int == clamp_channel(b as int),
    {
        Rgb { r: quantize(r), g: quantize(g), b: quantize(b) }
    }
}

/// The index of the pixel at column `x` of row `y`, counting row by row.
pub open spec fn pixel_index(width: int, x: int, y: int) -> int {
    y * width + x
}

/// The byte at which the pixel at column `x` of row `y` starts.
pub open spec fn offset_of(width: int, x: int, y: int) -> int {
    pixel_index(width, x, y) * 3
}

/// The color that `bytes` holds for the pixel at column `x` of row `y`.
pub open spec fn pixel_in(bytes: Seq<u8>, width: int, x: int, y: int) -> Rgb {
    Rgb {
        r: bytes[offset_of(width, x, y)],
        g: bytes[offset_of(width, x, y) + 1],
        b: bytes[offset_of(width, x, y) + 2],
    }
}

/// `bytes` with the three channels of the pixel at `(x, y)` replaced by `c`.
pub open spec fn with_pixel(bytes: Seq<u8>, width: int, x: int, y: int, c: Rgb) -> Seq<u8> {
    bytes.update(offset_of(width, x, y), c.r).update(offset_of(width, x, y) + 1, c.g).update(
        offset_of(width, x, y) + 2,
        c.b,
    )
}

/// A pixel inside the grid has an index inside `0 .. width * height`.
pub proof fn lemma_pixel_index_in_range(width: int, height: int, x: int, y: int)
    requires
        0 <= x < width,
        0 <= y < height,
    ensures
        0 <= pixel_index(width, x, y) < width * height,
        0 <= offset_of(width, x, y),
        offset_of(width, x, y) + 3 <= width * height * 3,
{
    assert(0 <= y * width) by (nonlinear_arith)
        requires
            0 <= y,
            0 <= width,
    ;
    assert(y * width + width <= height * width) by (nonlinear_arith)
        requires
            y + 1 <= height,
            0 <= width,
    ;
    assert(height * width == width * height) by (nonlinear_arith);
}

/// Two different pixels of one row-major grid have different indices.
pub proof fn lemma_pixel_index_injective(width: int, x1: int, y1: int, x2: int, y2: int)
    requires
        0 <= x1 < width,
        0 <= x2 < width,
        0 <= y1,
        0 <= y2,
        pixel_index(width, x1, y1) == pixel_index(width, x2, y2),
    ensures
        x1 == x2,
        y1 == y2,
{
    if y1 < y2 {
        assert(y1 * width + width <= y2 * width) by (nonlinear_arith)
            requires
                y1 + 1 <= y2,
                0 <= width,
        ;
    } else if y2 < y1 {
        assert(y2 * width + width <= y1 * width) by (nonlinear_arith)
            requires
                y2 + 1 <= y1,
                0 <= width,
        ;
    }
}

/// Writing one pixel sets that pixel and leaves every other pixel of the
/// grid as it was.
pub proof fn lemma_with_pixel(bytes: Seq<u8>, width: int, height: int, x: int, y: int, c: Rgb)
    requires
        0 <= x < width,
        0 <= y < height,
        bytes.len() == width * height * 3,
    ensures
        with_pixel(bytes, width, x, y, c).len() == bytes.len(),
        pixel_in(with_pixel(bytes, width, x, y, c), width, x, y) == c,
        forall|x2: int, y2: int|
            0 <= x2 < width && 0 <= y2 < height && (x2 != x || y2 != y) ==> #[trigger] pixel_in(
                with_pixel(bytes, width, x, y, c),
                width,
                x2,
                y2,
            ) == pixel_in(bytes, width, x2, y2),
{
    lemma_pixel_index_in_range(width, height, x, y);
    assert forall|x2: int, y2: int|
        0 <= x2 < width && 0 <= y2 < height && (x2 != x || y2 != y) implies #[trigger] pixel_in(
        with_pixel(bytes, width, x, y, c),
        width,
        x2,
        y2,
    ) == pixel_in(bytes, width, x2, y2) by {
        lemma_pixel_index_in_range(width, height, x2, y2);
        if pixel_index(width, x, y) == pixel_index(width, x2, y2) {
            lemma_pixel_index_injective(width, x, y, x2, y2);
        }
    }
}

/// The pixels of one frame.
pub struct PixelBuffer {
    width: usize,
    height: usize,
    data: Vec<u8>,
}

impl View for PixelBuffer {
    type V = Seq<u8>;

    /// The bytes of the buffer, in storage order.
    closed spec fn view(&self) -> Seq<u8> {
        self.data@
    }
}

impl PixelBuffer {
    /// The number of columns.
    pub closed spec fn spec_width(&self) -> usize {
        self.width
    }

    /// The number of rows.
    pub closed spec fn spec_height(&self) -> usize {
        self.height
    }

    /// The buffer holds three bytes for each pixel of the grid.
    pub closed spec fn wf(&self) -> bool {
        self.data@.len() == self.width * self.height * 3
    }

    /// The color of the pixel at column `x` of row `y`.
    pub open spec fn pixel(&self, x: int, y: int) -> Rgb {
        pixel_in(self@, self.spec_width() as int, x, y)
    }

    /// What validity says of the byte count.
    pub proof fn lemma_len(&self)
        requires
            self.wf(),
        ensures
            self@.len() == self.spec_width() * self.spec_height() * 3,
    {
    }

    /// A black buffer of `width` by `height` pixels, or `None` when its
    /// byte count does not fit the machine's word.
    pub fn new(width: usize, height: usize) -> (made: Option<PixelBuffer>)
        ensures
            made.is_some() <==> width * height * 3 <= usize::MAX,
            made matches Some(buf) ==> {
                &&& buf.wf()
                &&& buf.spec_width() == width
                &&& buf.spec_height() == height
                &&& buf@ == Seq::new((width * height * 3) as nat, |i: int| 0u8)
            },
    {
        assert(width * height * 3 <= usize::MAX ==> width * height <= usize::MAX) by (nonlinear_arith)
            requires
                0 <= width * height,
        ;
        match width.checked_mul(height) {
            None => None,
            Some(pixels) => match pixels.checked_mul(3) {
                None => None,
                Some(len) => {
                    let data = vec![0u8; len];
                    assert(data@ =~= Seq::new(len as nat, |i: int| 0u8));
                    Some(PixelBuffer { width, height, data })
                },
            },
        }
    }

    /// The number of columns.
    #[verifier::when_used_as_spec(spec_width)]
    pub fn width(&self) -> (w: usize)
        ensures
            w == self.spec_width(),
    {
        self.width
    }

    /// The number of rows.
    #[verifier::when_used_as_spec(spec_height)]
    pub fn height(&self) -> (h: usize)
        ensures
            h == self.spec_height(),
    {
        self.height
    }

    /// The byte at which the pixel at column `x` of row `y` starts.
    pub fn offset(&self, x: usize, y: usize) -> (at: usize)
        requires
            self.wf(),
            x < self.width(),
            y < self.height(),
        ensures
            at as int == offset_of(self.width() as int, x as int, y as int),
            at + 3 <= self@.len() <= usize::MAX,
    {
        let len: usize = self.data.len();
        proof {
            lemma_pixel_index_in_range(self.width as int, self.height as int, x as int, y as int);
            assert(0 <= y * self.width) by (nonlinear_arith)
                requires
                    0 <= y,
                    0 <= self.width,
            ;
            assert(offset_of(self.width as int, x as int, y as int) + 3 <= len);
        }
        (y * self.width + x) * 3
    }

    /// The color of the pixel at column `x` of row `y`.
    pub fn get_pixel(&self, x: usize, y: usize) -> (c: Rgb)
        requires
            self.wf(),
            x < self.width(),
            y < self.height(),
        ensures
            c == self.pixel(x as int, y as int),
    {
        let at = self.offset(x, y);
        Rgb { r: self.data[at], g: self.data[at + 1], b: self.data[at + 2] }
    }

    /// Writes `c` at column `x` of row `y`. No other pixel changes.
    pub fn set_pixel(&mut self, x: usize, y: usize, c: Rgb)
        requires
            old(self).wf(),
            x < old(self).width(),
            y < old(self).height(),
        ensures
            final(self).wf(),
            final(self).width() == old(self).width(),
            final(self).height() == old(self).height(),
            final(self)@ == with_pixel(old(self)@, old(self).width() as int, x as int, y as int, c),
            final(self).pixel(x as int, y as int) == c,
            forall|x2: int, y2: int|
                0 <= x2 < old(self).width() && 0 <= y2 < old(self).height() && (x2 != x || y2
                    != y) ==> #[trigger] final(self).pixel(x2, y2) == old(self).pixel(x2, y2),
    {
        let at = self.offset(x, y);
        proof {
            lemma_with_pixel(self.data@, self.width as int, self.height as int, x as int, y as int, c);
        }
        self.data.set(at, c.r);
        self.data.set(at + 1, c.g);
        self.data.set(at + 2, c.b);
    }

    /// The bytes of the frame, in storage order.
    pub fn as_bytes(&self) -> (bytes: &[u8])
        ensures
            bytes@ == self@,
    {
        self.data.as_slice()
    }

    /// Gives the bytes away, as the sink takes them.
    pub fn into_bytes(self) -> (bytes: Vec<u8>)
        ensures
            bytes@ == self@,
    {
        self.data
    }
}

} // verus!
