//! Shrinking pictures: the fit to a height limit, and the re-encoding of a file
//! that is too large to be sent.

use vstd::prelude::*;

verus! {

/// The error of the `image` crate; nothing is read from it.
#[verifier::external_type_specification]
#[verifier::external_body]
pub struct ExImageError(image::ImageError);

/// The picture that `DynamicImage::resize` with the Lanczos3 filter makes of an
/// RGB picture for the given bounds: its width, its height and its bytes.
pub uninterp spec fn resized_rgb(
    width: u32,
    height: u32,
    data: Seq<u8>,
    nwidth: u32,
    nheight: u32,
) -> (u32, u32, Seq<u8>);

/// The JPEG file that `JpegEncoder::encode` writes for an RGB picture, where it
/// writes one.
pub uninterp spec fn jpeg_of_rgb(width: u32, height: u32, data: Seq<u8>, quality: u8) -> Option<
    Seq<u8>,
>;

/// The number of bytes of an RGB picture of the given size.
pub open spec fn rgb_len(width: u32, height: u32) -> int {
    width as int * height as int * 3
}

/// A side of at least one pixel: the side itself, or one where it is zero.
pub open spec fn at_least_one(side: u32) -> u32 {
    if side == 0 {
        1
    } else {
        side
    }
}

/// Calls `DynamicImage::resize` with the Lanczos3 filter on an RGB picture that
/// has a height, for a height no larger than the picture's; so the picture is
/// never enlarged, and the result is not too large to be held. The result is a
/// function of the picture and the bounds, and is again an RGB picture with
/// three bytes to the pixel. For a picture that has a width too: as the crate
/// documents, the sides keep their ratio and the result fits within the
/// bounds, so that it is no larger than the picture; by the crate's source
/// each side of it is at least one pixel, also where a bound is zero.
#[verifier::external_body]
fn resize_rgb(width: u32, height: u32, data: Vec<u8>, nwidth: u32, nheight: u32) -> (out: (
    u32,
    u32,
    Vec<u8>,
))
    requires
        data@.len() == rgb_len(width, height),
        height >= 1,
        nheight <= height,
    ensures
        (out.0, out.1, out.2@) == resized_rgb(width, height, data@, nwidth, nheight),
        out.2@.len() == rgb_len(out.0, out.1),
        width >= 1 ==> 1 <= out.0 <= at_least_one(nwidth) && 1 <= out.1 <= at_least_one(nheight),
        width >= 1 ==> out.0 <= width && out.1 <= height,
{
    let source = image::RgbImage::from_raw(width, height, data).unwrap();
    let resized = image::DynamicImage::ImageRgb8(source).resize(
        nwidth,
        nheight,
        image::imageops::FilterType::Lanczos3,
    ).into_rgb8();
    (resized.width(), resized.height(), resized.into_raw())
}

/// Calls `JpegEncoder::encode` on an RGB picture with the given quality. The
/// file is a function of the picture and the quality. By the crate's source the
/// encoder refuses a picture with a side of zero or of more than 65535 pixels,
/// and a file it has written begins with a marker, so it is not empty.
#[verifier::external_body]
fn encode_jpeg(width: u32, height: u32, data: &Vec<u8>, quality: u8) -> (out: Result<
    Vec<u8>,
    image::ImageError,
>)
    requires
        data@.len() == rgb_len(width, height),
    ensures
        out is Ok <==> jpeg_of_rgb(width, height, data@, quality) is Some,
        out matches Ok(bytes) ==> bytes@ == jpeg_of_rgb(width, height, data@, quality).unwrap()
            && bytes@.len() > 0 && 1 <= width <= 65535 && 1 <= height <= 65535,
{
    let mut file: Vec<u8> = Vec::new();
    let mut encoder = image::codecs::jpeg::JpegEncoder::new_with_quality(&mut file, quality);
    match encoder.encode(data.as_slice(), width, height, image::ExtendedColorType::Rgb8) {
        Ok(()) => Ok(file),
        Err(error) => Err(error),
    }
}

/// A picture in RGB, three bytes to the pixel, row by row.
pub struct RgbPicture {
    width: u32,
    height: u32,
    data: Vec<u8>,
}

/// A picture could not be written as a JPEG file.
#[derive(Debug)]
pub enum CompressError {
    /// The encoder refused the picture.
    Encode,
}

/// The quality at which files are re-encoded.
pub const JPEG_QUALITY: u8 = 85;

/// A picture is not shrunk to less than this many pixels on either side.
pub const MIN_DIMENSION: u32 = 100;

/// The size in bytes that a re-encoded file should not exceed.
pub const COMPRESSION_TARGET_BYTES: u64 = 15518924;

/// A picture taller than this is fitted to this height.
pub const MAX_HEIGHT: u32 = 2500;

/// Nine tenths of a side, rounded down.
pub open spec fn shrunk(side: u32) -> u32 {
    (side as int * 9 / 10) as u32
}

/// The file for a picture under a size limit: the picture as a JPEG file if
/// that fits in `target` bytes or if a picture a tenth smaller would have a
/// side of less than `MIN_DIMENSION` pixels, else the file for the picture
/// resized to nine tenths of its sides. `None` where the encoder refuses a
/// picture on the way.
pub open spec fn limited_jpeg(width: u32, height: u32, data: Seq<u8>, target: u64) -> Option<
    Seq<u8>,
>
    decreases width,
{
    match jpeg_of_rgb(width, height, data, JPEG_QUALITY) {
        None => None,
        Some(file) => {
            let smaller = resized_rgb(width, height, data, shrunk(width), shrunk(height));
            if file.len() <= target || shrunk(width) < MIN_DIMENSION || shrunk(height)
                < MIN_DIMENSION || smaller.0 >= width {
                Some(file)
            } else {
                limited_jpeg(smaller.0, smaller.1, smaller.2, target)
            }
        },
    }
}

/// The most rounds of resizing that a picture can take.
pub const MAX_ROUNDS: u32 = 61;

/// The largest side that a picture can have after `rounds` rounds of resizing:
/// the encoder takes no side of more than 65535 pixels, and every round leaves
/// at most nine tenths of a side.
pub open spec fn largest_side_after(rounds: nat) -> nat
    decreases rounds,
{
    if rounds == 0 {
        65535
    } else {
        largest_side_after((rounds - 1) as nat) * 9 / 10
    }
}

/// After `MAX_ROUNDS` rounds a side is too short for another round.
pub proof fn lemma_rounds_are_bounded()
    ensures
        largest_side_after(MAX_ROUNDS as nat) == 101,
        shrunk(101) < MIN_DIMENSION,
{
    // The sides round by round, each nine tenths of the one before, rounded down.
    assert(largest_side_after(0) == 65535);
    assert(largest_side_after(1) == 58981);
    assert(largest_side_after(2) == 53082);
    assert(largest_side_after(3) == 47773);
    assert(largest_side_after(4) == 42995);
    assert(largest_side_after(5) == 38695);
    assert(largest_side_after(6) == 34825);
    assert(largest_side_after(7) == 31342);
    assert(largest_side_after(8) == 28207);
    assert(largest_side_after(9) == 25386);
    assert(largest_side_after(10) == 22847);
    assert(largest_side_after(11) == 20562);
    assert(largest_side_after(12) == 18505);
    assert(largest_side_after(13) == 16654);
    assert(largest_side_after(14) == 14988);
    assert(largest_side_after(15) == 13489);
    assert(largest_side_after(16) == 12140);
    assert(largest_side_after(17) == 10926);
    assert(largest_side_after(18) == 9833);
    assert(largest_side_after(19) == 8849);
    assert(largest_side_after(20) == 7964);
    assert(largest_side_after(21) == 7167);
    assert(largest_side_after(22) == 6450);
    assert(largest_side_after(23) == 5805);
    assert(largest_side_after(24) == 5224);
    assert(largest_side_after(25) == 4701);
    assert(largest_side_after(26) == 4230);
    assert(largest_side_after(27) == 3807);
    assert(largest_side_after(28) == 3426);
    assert(largest_side_after(29) == 3083);
    assert(largest_side_after(30) == 2774);
    assert(largest_side_after(31) == 2496);
    assert(largest_side_after(32) == 2246);
    assert(largest_side_after(33) == 2021);
    assert(largest_side_after(34) == 1818);
    assert(largest_side_after(35) == 1636);
    assert(largest_side_after(36) == 1472);
    assert(largest_side_after(37) == 1324);
    assert(largest_side_after(38) == 1191);
    assert(largest_side_after(39) == 1071);
    assert(largest_side_after(40) == 963);
    assert(largest_side_after(41) == 866);
    assert(largest_side_after(42) == 779);
    assert(largest_side_after(43) == 701);
    assert(largest_side_after(44) == 630);
    assert(largest_side_after(45) == 567);
    assert(largest_side_after(46) == 510);
    assert(largest_side_after(47) == 459);
    assert(largest_side_after(48) == 413);
    assert(largest_side_after(49) == 371);
    assert(largest_side_after(50) == 333);
    assert(largest_side_after(51) == 299);
    assert(largest_side_after(52) == 269);
    assert(largest_side_after(53) == 242);
    assert(largest_side_after(54) == 217);
    assert(largest_side_after(55) == 195);
    assert(largest_side_after(56) == 175);
    assert(largest_side_after(57) == 157);
    assert(largest_side_after(58) == 141);
    assert(largest_side_after(59) == 126);
    assert(largest_side_after(60) == 113);
    assert(largest_side_after(61) == 101);
}

/// What the re-encoding of a picture gave.
pub struct Compressed {
    /// The JPEG file.
    pub bytes: Vec<u8>,
    /// The width of the picture that the file holds.
    pub width: u32,
    /// The height of the picture that the file holds.
    pub height: u32,
    /// How many times the picture was resized before this file was written.
    pub rounds: u32,
}

/// `file` is what the encoder writes for some picture of the given size.
pub open spec fn is_jpeg_of_size(file: Seq<u8>, width: u32, height: u32) -> bool {
    exists|data: Seq<u8>| #[trigger] jpeg_of_rgb(width, height, data, JPEG_QUALITY) == Some(file)
}

impl RgbPicture {
    /// The width in pixels.
    pub closed spec fn spec_width(&self) -> u32 {
        self.width
    }

    /// The height in pixels.
    pub closed spec fn spec_height(&self) -> u32 {
        self.height
    }

    /// The bytes of the pixels.
    pub closed spec fn pixels(&self) -> Seq<u8> {
        self.data@
    }

    /// There are three bytes for every pixel.
    pub closed spec fn well_formed(&self) -> bool {
        self.data@.len() == rgb_len(self.width, self.height)
    }

    /// A picture of the given size from its bytes, if there are three for every pixel.
    pub fn new(width: u32, height: u32, data: Vec<u8>) -> (picture: Option<Self>)
        ensures
            picture is Some <==> data@.len() == rgb_len(width, height),
            picture matches Some(p) ==> p.well_formed() && p.spec_width() == width
                && p.spec_height() == height && p.pixels() == data@,
    {
        assert(0 <= width as int * height as int <= 0xffff_ffff * 0xffff_ffff) by (nonlinear_arith)
            requires
                0 <= width <= 0xffff_ffff,
                0 <= height <= 0xffff_ffff,
        ;
        let pixels: u64 = width as u64 * height as u64;
        let wanted: u128 = pixels as u128 * 3;
        if data.len() as u128 == wanted {
            Some(RgbPicture { width, height, data })
        } else {
            None
        }
    }

    /// The width in pixels.
    #[verifier::when_used_as_spec(spec_width)]
    pub fn width(&self) -> (w: u32)
        ensures
            w == self.spec_width(),
    {
        self.width
    }

    /// The height in pixels.
    #[verifier::when_used_as_spec(spec_height)]
    pub fn height(&self) -> (h: u32)
        ensures
            h == self.spec_height(),
    {
        self.height
    }

    /// The picture's bytes.
    pub fn into_raw(self) -> (data: Vec<u8>)
        ensures
            data@ == self.pixels(),
    {
        self.data
    }
}

/// Fits a picture to the height limit: one that is taller than `MAX_HEIGHT`
/// pixels is resized to fit within `new_width` by `MAX_HEIGHT` pixels, its
/// sides keeping their ratio; any other is returned as it is. `new_width` is
/// the width that goes with the height limit; the caller works it out. The
/// picture is never enlarged, whatever the width handed in.
pub fn preprocess_image(picture: RgbPicture, new_width: u32) -> (fitted: RgbPicture)
    requires
        picture.well_formed(),
    ensures
        fitted.well_formed(),
        picture.spec_height() <= MAX_HEIGHT ==> fitted == picture,
        picture.spec_height() > MAX_HEIGHT ==> (
            fitted.spec_width(),
            fitted.spec_height(),
            fitted.pixels(),
        ) == resized_rgb(
            picture.spec_width(),
            picture.spec_height(),
            picture.pixels(),
            new_width,
            MAX_HEIGHT,
        ),
        picture.spec_height() > MAX_HEIGHT && picture.spec_width() >= 1 ==> 1
            <= fitted.spec_width() <= at_least_one(new_width) && fitted.spec_width()
            <= picture.spec_width() && 1 <= fitted.spec_height() <= MAX_HEIGHT,
{
    if picture.height > MAX_HEIGHT {
        let (w, h, data) = resize_rgb(
            picture.width,
            picture.height,
            picture.data,
            new_width,
            MAX_HEIGHT,
        );
        RgbPicture { width: w, height: h, data }
    } else {
        picture
    }
}

/// Writes a picture as a JPEG file of at most `target_bytes` bytes if it can:
/// as long as the file is larger, the picture is resized to nine tenths of its
/// sides and written again, until a side would fall under `MIN_DIMENSION`
/// pixels; the last file written is then accepted whatever its size. The
/// picture is resized `MAX_ROUNDS` times at most, it never grows, and no file
/// is empty.
pub fn save_image_with_limit(picture: RgbPicture, target_bytes: u64) -> (out: Result<
    Compressed,
    CompressError,
>)
    requires
        picture.well_formed(),
    ensures
        out is Ok <==> limited_jpeg(
            picture.spec_width(),
            picture.spec_height(),
            picture.pixels(),
            target_bytes,
        ) is Some,
        out matches Ok(file) ==> file.bytes@ == limited_jpeg(
            picture.spec_width(),
            picture.spec_height(),
            picture.pixels(),
            target_bytes,
        ).unwrap() && file.bytes@.len() > 0 && file.rounds <= MAX_ROUNDS,
        out matches Ok(file) ==> is_jpeg_of_size(file.bytes@, file.width, file.height)
            && file.width <= picture.spec_width() && file.height <= picture.spec_height(),
        out matches Ok(file) ==> file.bytes@.len() <= target_bytes || shrunk(file.width)
            < MIN_DIMENSION || shrunk(file.height) < MIN_DIMENSION,
        out matches Ok(file) ==> (file.rounds == 0 ==> file.width == picture.spec_width()
            && file.height == picture.spec_height()),
{
    let mut width = picture.width;
    let mut height = picture.height;
    let mut data = picture.data;
    let mut rounds: u32 = 0;
    loop
        invariant
            data@.len() == rgb_len(width, height),
            limited_jpeg(width, height, data@, target_bytes) == limited_jpeg(
                picture.spec_width(),
                picture.spec_height(),
                picture.pixels(),
                target_bytes,
            ),
            rounds <= MAX_ROUNDS,
            rounds > 0 ==> width <= largest_side_after(rounds as nat),
            width <= picture.spec_width(),
            height <= picture.spec_height(),
            rounds == 0 ==> width == picture.spec_width() && height == picture.spec_height(),
        decreases width,
    {
        let file = match encode_jpeg(width, height, &data, JPEG_QUALITY) {
            Ok(file) => file,
            Err(_) => {
                return Err(CompressError::Encode);
            },
        };
        if file.len() as u64 <= target_bytes {
            return Ok(Compressed { bytes: file, width, height, rounds });
        }
        let new_width: u32 = ((width as u64) * 9 / 10) as u32;
        let new_height: u32 = ((height as u64) * 9 / 10) as u32;
        if new_width < MIN_DIMENSION || new_height < MIN_DIMENSION {
            return Ok(Compressed { bytes: file, width, height, rounds });
        }
        proof {
            lemma_rounds_are_bounded();
            if rounds == MAX_ROUNDS {
                assert(width <= 101);
                assert(new_width < MIN_DIMENSION);
            }
            assert(largest_side_after((rounds + 1) as nat) == largest_side_after(rounds as nat) * 9
                / 10);
        }
        let (w, h, smaller) = resize_rgb(width, height, data, new_width, new_height);
        width = w;
        height = h;
        data = smaller;
        rounds = rounds + 1;
    }
}

} // verus!
