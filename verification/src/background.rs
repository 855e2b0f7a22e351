//! The background picture behind the login form: an RGB raster the size of
//! the terminal, the colour each terminal cell takes from it, and where the
//! raster is cached between runs.
use vstd::prelude::*;
use image::ImageFormat;
use crate::text::{decimal, lemma_decimal_injective, lemma_decimal_reads_back, push_decimal};

verus! {

/// The directory that holds cached background rasters.
pub const CACHE_BG_DIR: &'static str = "/var/cache/disgreet/";

/// An RGB raster, three bytes per pixel, row by row. The pixel buffer may
/// be longer than the pixels need, as `ImageBuffer::from_raw` allows.
pub struct Background {
    width: u32,
    height: u32,
    pixels: Vec<u8>,
}

/// The number of bytes the pixels of a `width` by `height` RGB raster take.
pub open spec fn raster_len(width: u32, height: u32) -> int {
    3 * (width as int) * (height as int)
}

/// Where the channels of pixel `(x, y)` start in a raster `width` wide.
pub open spec fn pixel_offset(width: u32, x: u32, y: u32) -> int {
    3 * ((y as int) * (width as int) + (x as int))
}

/// The colour a terminal cell is painted with.
#[derive(Clone, Copy, PartialEq, Eq, Structural)]
pub enum CellColor {
    /// A colour of the terminal's palette.
    Indexed(u8),
    /// A true colour.
    Rgb(u8, u8, u8),
}

/// The colour of a cell under a pixel: pixels whose three channels all
/// exceed 230 are painted with palette colour 15 (white), the others with
/// their own colour.
pub open spec fn cell_color_spec(r: u8, g: u8, b: u8) -> CellColor {
    if r > 230 && g > 230 && b > 230 {
        CellColor::Indexed(15)
    } else {
        CellColor::Rgb(r, g, b)
    }
}

/// Only near-white is repainted: a pixel with any channel at most 230
/// keeps its own colour, and a pixel whose three channels all exceed 230 is
/// painted palette white (colour 15).
pub proof fn lemma_only_near_white_repainted(r: u8, g: u8, b: u8)
    ensures
        (r <= 230 || g <= 230 || b <= 230) ==> cell_color_spec(r, g, b) == CellColor::Rgb(r, g, b),
        (r > 230 && g > 230 && b > 230) ==> cell_color_spec(r, g, b) == CellColor::Indexed(15),
{
}

/// Pixels that are not near-white keep their distinct colours: two pixels
/// painted alike are the same pixel, or both near-white.
pub proof fn lemma_colours_kept_apart(r1: u8, g1: u8, b1: u8, r2: u8, g2: u8, b2: u8)
    requires
        cell_color_spec(r1, g1, b1) == cell_color_spec(r2, g2, b2),
    ensures
        (r1 == r2 && g1 == g2 && b1 == b2) || (r1 > 230 && g1 > 230 && b1 > 230 && r2 > 230 && g2
            > 230 && b2 > 230),
{
}

/// The colour of a cell under a pixel of colour `(r, g, b)`.
pub fn pixel_color(r: u8, g: u8, b: u8) -> (c: CellColor)
    ensures
        c == cell_color_spec(r, g, b),
{
    let mut r = r;
    let mut g = g;
    let mut b = b;
    if r > 230 && g > 230 && b > 230 {
        r = 255;
        g = 255;
        b = 255;
    }
    if r == 255 && g == 255 && b == 255 {
        CellColor::Indexed(15)
    } else {
        CellColor::Rgb(r, g, b)
    }
}

proof fn lemma_pixel_in_raster(width: u32, height: u32, x: u32, y: u32)
    requires
        x < width,
        y < height,
    ensures
        pixel_offset(width, x, y) + 3 <= raster_len(width, height),
        (y as int) * (width as int) + (x as int) < (width as int) * (height as int),
        (y as int) * (width as int) <= 0xffff_ffff * 0xffff_ffff,
{
    assert(3 * ((y as int) * (width as int) + (x as int)) + 3 <= 3 * (width as int) * (
    height as int)) by (nonlinear_arith)
        requires
            x < width,
            y < height,
    ;
    assert((y as int) * (width as int) + (x as int) < (width as int) * (height as int))
        by (nonlinear_arith)
        requires
            x < width,
            y < height,
    ;
    assert((y as int) * (width as int) <= 0xffff_ffff * 0xffff_ffff) by (nonlinear_arith)
        requires
            y <= 0xffff_ffffu32,
            width <= 0xffff_ffffu32,
    ;
}

/// A raster read from `raw` for a `width` by `height` picture, as
/// `ImageBuffer::from_raw` reads it: when the pixels fit in `usize` and in
/// `raw`, the raster of that size over `raw`, else nothing.
pub open spec fn read_raster(width: u32, height: u32, raw: Seq<u8>) -> Option<(u32, u32, Seq<u8>)> {
    if raster_len(width, height) <= usize::MAX && raster_len(width, height) <= raw.len() {
        Some((width, height, raw))
    } else {
        None
    }
}

/// An optional raster by its size and bytes.
pub open spec fn raster_view(r: Option<Background>) -> Option<(u32, u32, Seq<u8>)> {
    match r {
        Some(bg) => Some((bg.width_view(), bg.height_view(), bg.pixels_view())),
        None => None,
    }
}

/// Reading back a cached raster gives the raster that was cached: the bytes
/// that `as_raw` hands out for a raster, read as a raster of its width and
/// height, are that raster.
pub proof fn lemma_cache_roundtrip(width: u32, height: u32, raw: Seq<u8>)
    requires
        raster_len(width, height) <= raw.len(),
        raw.len() <= usize::MAX,
    ensures
        read_raster(width, height, raw) == Some((width, height, raw)),
{
}

/// Pixels lie row by row, three bytes each: the next pixel of a row follows
/// right after, the first pixel of a row follows the last of the row above,
/// and every pixel of the raster lies inside its bytes.
pub proof fn lemma_pixels_row_by_row(width: u32, height: u32, x: u32, y: u32)
    requires
        x < width,
        y < height,
    ensures
        pixel_offset(width, x, y) + 3 <= raster_len(width, height),
        x + 1 < width ==> pixel_offset(width, (x + 1) as u32, y) == pixel_offset(width, x, y) + 3,
        x + 1 == width && y + 1 < height ==> pixel_offset(width, 0, (y + 1) as u32) == pixel_offset(
            width,
            x,
            y,
        ) + 3,
        pixel_offset(width, 0, 0) == 0,
{
    lemma_pixel_in_raster(width, height, x, y);
    assert(((y + 1) as int) * (width as int) == (y as int) * (width as int) + (width as int))
        by (nonlinear_arith);
}

impl Background {
    #[verifier::type_invariant]
    spec fn fits(&self) -> bool {
        raster_len(self.width, self.height) <= self.pixels@.len()
    }

    /// The raster's width in pixels.
    pub closed spec fn width_view(&self) -> u32 {
        self.width
    }

    /// The raster's height in pixels.
    pub closed spec fn height_view(&self) -> u32 {
        self.height
    }

    /// The raster's bytes.
    pub closed spec fn pixels_view(&self) -> Seq<u8> {
        self.pixels@
    }

    /// A raster over `raw`, as `ImageBuffer::from_raw` accepts it: when the
    /// pixels of a `width` by `height` raster fit in `usize` and in `raw`.
    pub fn from_raw(width: u32, height: u32, raw: Vec<u8>) -> (r: Option<Background>)
        ensures
            raster_view(r) == read_raster(width, height, raw@),
    {
        assert((width as int) * (height as int) <= 0xffff_ffff * 0xffff_ffff) by (nonlinear_arith)
            requires
                width <= 0xffff_ffffu32,
                height <= 0xffff_ffffu32,
        ;
        let area: u128 = (width as u128) * (height as u128);
        let need: u128 = 3 * area;
        assert(need == raster_len(width, height)) by (nonlinear_arith)
            requires
                area == (width as int) * (height as int),
                need == 3 * area,
        ;
        if need <= usize::MAX as u128 && need <= raw.len() as u128 {
            Some(Background { width, height, pixels: raw })
        } else {
            None
        }
    }

    /// The raster's width in pixels.
    pub fn width(&self) -> (r: u32)
        ensures
            r == self.width_view(),
    {
        self.width
    }

    /// The raster's height in pixels.
    pub fn height(&self) -> (r: u32)
        ensures
            r == self.height_view(),
    {
        self.height
    }

    /// The raster's bytes, as they are cached.
    pub fn as_raw(&self) -> (r: &Vec<u8>)
        ensures
            r@ == self.pixels_view(),
            raster_len(self.width_view(), self.height_view()) <= r@.len(),
    {
        proof {
            use_type_invariant(self);
        }
        &self.pixels
    }

    /// The channels of pixel `(x, y)`.
    pub fn pixel(&self, x: u32, y: u32) -> (r: (u8, u8, u8))
        requires
            x < self.width_view(),
            y < self.height_view(),
        ensures
            r.0 == self.pixels_view()[pixel_offset(self.width_view(), x, y)],
            r.1 == self.pixels_view()[pixel_offset(self.width_view(), x, y) + 1],
            r.2 == self.pixels_view()[pixel_offset(self.width_view(), x, y) + 2],
    {
        proof {
            use_type_invariant(self);
            lemma_pixel_in_raster(self.width, self.height, x, y);
        }
        let row: u64 = (y as u64) * (self.width as u64);
        let cell: u64 = row + x as u64;
        let plen = self.pixels.len();
        assert(3 * (cell as int) + 3 <= plen);
        let i = 3 * (cell as usize);
        (self.pixels[i], self.pixels[i + 1], self.pixels[i + 2])
    }

    /// The colour of the terminal cell `(x, y)` under the raster.
    pub fn cell_color(&self, x: u32, y: u32) -> (c: CellColor)
        requires
            x < self.width_view(),
            y < self.height_view(),
        ensures
            c == cell_color_spec(
                self.pixels_view()[pixel_offset(self.width_view(), x, y)],
                self.pixels_view()[pixel_offset(self.width_view(), x, y) + 1],
                self.pixels_view()[pixel_offset(self.width_view(), x, y) + 2],
            ),
    {
        let (r, g, b) = self.pixel(x, y);
        pixel_color(r, g, b)
    }

    /// The colours of the terminal cells of a `width` by `height` area
    /// under the raster, row by row: cell `(x, y)` takes the colour of pixel
    /// `(x, y)`.
    pub fn cell_colors(&self, width: u16, height: u16) -> (r: Vec<Vec<CellColor>>)
        requires
            width as u32 <= self.width_view(),
            height as u32 <= self.height_view(),
        ensures
            r@.len() == height as int,
            forall|y: int|
                0 <= y < height ==> {
                    &&& (#[trigger] r@[y])@.len() == width as int
                    &&& forall|x: int|
                        0 <= x < width ==> (#[trigger] r@[y]@[x]) == cell_color_spec(
                            self.pixels_view()[pixel_offset(self.width_view(), x as u32, y as u32)],
                            self.pixels_view()[pixel_offset(self.width_view(), x as u32, y as u32)
                                + 1],
                            self.pixels_view()[pixel_offset(self.width_view(), x as u32, y as u32)
                                + 2],
                        )
                },
    {
        let mut rows: Vec<Vec<CellColor>> = Vec::new();
        let mut y: u16 = 0;
        while y < height
            invariant
                y <= height,
                width as u32 <= self.width_view(),
                height as u32 <= self.height_view(),
                rows@.len() == y as int,
                forall|j: int|
                    0 <= j < y ==> {
                        &&& (#[trigger] rows@[j])@.len() == width as int
                        &&& forall|x: int|
                            0 <= x < width ==> (#[trigger] rows@[j]@[x]) == cell_color_spec(
                                self.pixels_view()[pixel_offset(
                                    self.width_view(),
                                    x as u32,
                                    j as u32,
                                )],
                                self.pixels_view()[pixel_offset(
                                    self.width_view(),
                                    x as u32,
                                    j as u32,
                                ) + 1],
                                self.pixels_view()[pixel_offset(
                                    self.width_view(),
                                    x as u32,
                                    j as u32,
                                ) + 2],
                            )
                    },
            decreases height - y,
        {
            let mut row: Vec<CellColor> = Vec::new();
            let mut x: u16 = 0;
            while x < width
                invariant
                    x <= width,
                    y < height,
                    width as u32 <= self.width_view(),
                    height as u32 <= self.height_view(),
                    row@.len() == x as int,
                    forall|i: int|
                        0 <= i < x ==> (#[trigger] row@[i]) == cell_color_spec(
                            self.pixels_view()[pixel_offset(self.width_view(), i as u32, y as u32)],
                            self.pixels_view()[pixel_offset(self.width_view(), i as u32, y as u32)
                                + 1],
                            self.pixels_view()[pixel_offset(self.width_view(), i as u32, y as u32)
                                + 2],
                        ),
                decreases width - x,
            {
                let c = self.cell_color(x as u32, y as u32);
                row.push(c);
                x = x + 1;
            }
            rows.push(row);
            y = y + 1;
        }
        rows
    }
}

/// Where the raster for the picture `file_name` at `width` by `height`
/// cells is cached: `{CACHE_BG_DIR}/{file_name}_{width}x{height}.bin`.
pub open spec fn cache_path_spec(file_name: Seq<char>, width: u16, height: u16) -> Seq<char> {
    "/var/cache/disgreet/"@ + seq!['/'] + file_name + seq!['_'] + decimal(width as nat) + seq![
        'x',
    ] + decimal(height as nat) + ".bin"@
}

/// Numbers written in decimal with an `x` between them are told apart:
/// equal texts mean equal numbers.
proof fn lemma_size_text_injective(w1: nat, h1: nat, w2: nat, h2: nat)
    requires
        decimal(w1) + seq!['x'] + decimal(h1) == decimal(w2) + seq!['x'] + decimal(h2),
    ensures
        w1 == w2,
        h1 == h2,
{
    lemma_decimal_reads_back(w1);
    lemma_decimal_reads_back(w2);
    let a1 = decimal(w1);
    let a2 = decimal(w2);
    let t1 = a1 + seq!['x'] + decimal(h1);
    let t2 = a2 + seq!['x'] + decimal(h2);
    if a1.len() < a2.len() {
        assert(t1[a1.len() as int] == 'x');
        assert(t2[a1.len() as int] == a2[a1.len() as int]);
        assert(0x30 <= a2[a1.len() as int] as u32 <= 0x39);
        assert(false);
    }
    if a2.len() < a1.len() {
        assert(t2[a2.len() as int] == 'x');
        assert(t1[a2.len() as int] == a1[a2.len() as int]);
        assert(0x30 <= a1[a2.len() as int] as u32 <= 0x39);
        assert(false);
    }
    assert(a1 =~= t1.subrange(0, a1.len() as int));
    assert(a2 =~= t2.subrange(0, a2.len() as int));
    lemma_decimal_injective(w1, w2);
    assert(decimal(h1) =~= t1.subrange((a1.len() + 1) as int, t1.len() as int));
    assert(decimal(h2) =~= t2.subrange((a2.len() + 1) as int, t2.len() as int));
    lemma_decimal_injective(h1, h2);
}

/// Different terminal sizes never share a cache file: for one picture,
/// equal cache paths mean equal widths and heights.
pub proof fn lemma_cache_path_injective(file_name: Seq<char>, w1: u16, h1: u16, w2: u16, h2: u16)
    requires
        cache_path_spec(file_name, w1, h1) == cache_path_spec(file_name, w2, h2),
    ensures
        w1 == w2,
        h1 == h2,
{
    let pre = "/var/cache/disgreet/"@ + seq!['/'] + file_name + seq!['_'];
    let t1 = decimal(w1 as nat) + seq!['x'] + decimal(h1 as nat);
    let t2 = decimal(w2 as nat) + seq!['x'] + decimal(h2 as nat);
    let suf = ".bin"@;
    let p1 = cache_path_spec(file_name, w1, h1);
    let p2 = cache_path_spec(file_name, w2, h2);
    assert(p1 =~= pre + t1 + suf);
    assert(p2 =~= pre + t2 + suf);
    assert(t1.len() == t2.len());
    assert(t1 =~= p1.subrange(pre.len() as int, (pre.len() + t1.len()) as int));
    assert(t2 =~= p2.subrange(pre.len() as int, (pre.len() + t2.len()) as int));
    lemma_size_text_injective(w1 as nat, h1 as nat, w2 as nat, h2 as nat);
}

/// The cache file for the picture `file_name` at a terminal size.
pub fn background_cache_path(file_name: &str, width: u16, height: u16) -> (r: String)
    ensures
        r@ == cache_path_spec(file_name@, width, height),
{
    let mut p = CACHE_BG_DIR.to_owned();
    p.append("/");
    p.append(file_name);
    p.append("_");
    push_decimal(&mut p, width as u32);
    p.append("x");
    push_decimal(&mut p, height as u32);
    p.append(".bin");
    proof {
        reveal_strlit("/");
        reveal_strlit("_");
        reveal_strlit("x");
        assert(p@ =~= cache_path_spec(file_name@, width, height));
    }
    p
}

// ---------------------------------------------------------------------------
// Decoding a picture with the `image` crate
// ---------------------------------------------------------------------------

/// The image format whose signature starts `bytes`, by the first file
/// extension the `image` crate lists for it: what `image::guess_format`
/// finds.
pub uninterp spec fn guessed_format(bytes: Seq<u8>) -> Option<Seq<char>>;

/// The image format that a path's extension names, by the first file
/// extension the `image` crate lists for it: what `ImageFormat::from_path`
/// finds.
pub uninterp spec fn path_format(path: Seq<char>) -> Option<Seq<char>>;

/// Whether `image::load_from_memory_with_format` decodes `bytes` in the
/// format that the file extension `format` names.
pub uninterp spec fn decodes(bytes: Seq<u8>, format: Seq<char>) -> bool;

/// Wraps `image::guess_format`. The format found is handed back as the
/// first of its file extensions (`ImageFormat::extensions_str`); the
/// contract claims that this is `guessed_format` of the bytes.
#[verifier::external_body]
fn guess_image_format(bytes: &[u8]) -> (r: Option<String>)
    ensures
        opt_text(r) == guessed_format(bytes@),
{
    image::guess_format(bytes).ok().map(|f| f.extensions_str()[0].to_string())
}

/// Wraps `ImageFormat::from_path`. The format found is handed back as the
/// first of its file extensions; the contract claims that this is
/// `path_format` of the path.
#[verifier::external_body]
fn image_format_from_path(path: &str) -> (r: Option<String>)
    ensures
        opt_text(r) == path_format(path@),
{
    ImageFormat::from_path(path).ok().map(|f| f.extensions_str()[0].to_string())
}

/// The RGB bytes, row by row, of the picture `bytes` decoded in the format
/// that the file extension `format` names and scaled to `width` by `height`
/// pixels with the nearest-neighbour filter.
pub uninterp spec fn decoded_rgb8(bytes: Seq<u8>, format: Seq<char>, width: u32, height: u32) -> Seq<
    u8,
>;

/// Wraps `image::load_from_memory_with_format` (the format given by a file
/// extension, `ImageFormat::from_extension`), then `DynamicImage::resize_exact`
/// with the nearest-neighbour filter, handing the scaled image back as its
/// RGB bytes (`to_rgb8`, `into_raw`). The contract claims that bytes come
/// back exactly when `decodes` holds, that they are `decoded_rgb8` of the
/// arguments, and, as the scaled buffer is made `width` by `height`, that
/// there are three for each pixel. A size whose bytes do not fit in `usize`
/// makes the buffer's allocation panic and is left out.
#[verifier::external_body]
fn decode_resized_rgb8(bytes: &[u8], format: &str, width: u32, height: u32) -> (r: Option<Vec<u8>>)
    requires
        raster_len(width, height) <= usize::MAX,
    ensures
        r is Some <==> decodes(bytes@, format@),
        r matches Some(v) ==> v@ == decoded_rgb8(bytes@, format@, width, height),
        r matches Some(v) ==> v@.len() == raster_len(width, height),
{
    let f = ImageFormat::from_extension(format)?;
    let img = image::load_from_memory_with_format(bytes, f).ok()?;
    Some(img.resize_exact(width, height, image::imageops::FilterType::Nearest).to_rgb8().into_raw())
}

/// An optional string by its view.
pub open spec fn opt_text(o: Option<String>) -> Option<Seq<char>> {
    match o {
        Some(s) => Some(s@),
        None => None,
    }
}

/// The format a picture is decoded in: the one its bytes announce, else the
/// one its path's extension names.
pub open spec fn chosen_format(guessed: Option<Seq<char>>, by_path: Option<Seq<char>>) -> Option<
    Seq<char>,
> {
    match guessed {
        Some(f) => Some(f),
        None => by_path,
    }
}

/// Picks the format to decode in, as `ImageReader::with_guessed_format`
/// does: the guessed one where there is one, else the one from the path.
pub fn choose_format(guessed: Option<String>, by_path: Option<String>) -> (r: Option<String>)
    ensures
        opt_text(r) == chosen_format(opt_text(guessed), opt_text(by_path)),
{
    match guessed {
        Some(f) => Some(f),
        None => by_path,
    }
}

/// The picture in `bytes`, read from `path`, can be decoded: a format is
/// known for it and the bytes decode in that format.
pub open spec fn picture_decodes(bytes: Seq<u8>, path: Seq<char>) -> bool {
    match chosen_format(guessed_format(bytes), path_format(path)) {
        Some(f) => decodes(bytes, f),
        None => false,
    }
}

/// The RGB bytes of the picture in `bytes`, read from `path`, scaled to
/// `width` by `height` pixels, where it decodes.
pub open spec fn decoded_picture(bytes: Seq<u8>, path: Seq<char>, width: u32, height: u32) -> Option<
    Seq<u8>,
> {
    match chosen_format(guessed_format(bytes), path_format(path)) {
        Some(f) => if decodes(bytes, f) {
            Some(decoded_rgb8(bytes, f, width, height))
        } else {
            None
        },
        None => None,
    }
}

/// Decodes the picture in `file_bytes`, read from `path`, and scales it to
/// `width` by `height` pixels. The format is the one the bytes announce,
/// else the one the path's extension names, as `ImageReader` guesses it.
/// A raster comes back exactly when the picture decodes; it has the size
/// asked for and holds the scaled picture's RGB bytes.
pub fn decode_background(file_bytes: &[u8], path: &str, width: u16, height: u16) -> (r: Option<
    Background,
>)
    requires
        raster_len(width as u32, height as u32) <= usize::MAX,
    ensures
        r is Some <==> picture_decodes(file_bytes@, path@),
        r matches Some(bg) ==> bg.width_view() == width as u32 && bg.height_view()
            == height as u32,
        r matches Some(bg) ==> Some(bg.pixels_view()) == decoded_picture(
            file_bytes@,
            path@,
            width as u32,
            height as u32,
        ),
{
    let guessed = guess_image_format(file_bytes);
    let by_path = if guessed.is_some() {
        None
    } else {
        image_format_from_path(path)
    };
    let format = match choose_format(guessed, by_path) {
        Some(f) => f,
        None => return None,
    };
    let raw = match decode_resized_rgb8(file_bytes, format.as_str(), width as u32, height as u32) {
        Some(v) => v,
        None => return None,
    };
    Background::from_raw(width as u32, height as u32, raw)
}

} // verus!
