//! Where a map tile comes from: its address on the tile server, its file in
//! the disk cache, the name of its texture, and the decoding of its bytes.
use vstd::prelude::*;

use crate::numbers::{
    all_digits, decimal, is_digit, lemma_decimal_digits, lemma_decimal_injective, push_decimal,
};
use crate::text::{chars_of, push_char, push_range, string_of};
use crate::tiles::TileId;

verus! {

/// Appends the characters of `t` to `s`.
fn push_str(s: &mut String, t: &str)
    ensures
        final(s)@ == old(s)@ + t@,
{
    let cs = chars_of(t);
    push_range(s, &cs, 0, cs.len());
    assert(cs@.subrange(0, cs@.len() as int) =~= cs@);
}

/// The path of a tile's file in the cache, below the cache's folder:
/// `{z}/{x}/{y}.png`.
pub open spec fn tile_file_name(id: TileId) -> Seq<char> {
    decimal(id.z as nat) + seq!['/'] + decimal(id.x as nat) + seq!['/'] + decimal(id.y as nat)
        + ".png"@
}

/// The address of a tile on the OpenStreetMap tile server.
pub open spec fn tile_url_of(id: TileId) -> Seq<char> {
    "https://tile.openstreetmap.org/"@ + tile_file_name(id)
}

/// The name the texture of a tile is loaded under: `tile-{z}-{x}-{y}`.
pub open spec fn texture_name_of(id: TileId) -> Seq<char> {
    "tile-"@ + decimal(id.z as nat) + seq!['-'] + decimal(id.x as nat) + seq!['-'] + decimal(
        id.y as nat,
    )
}

/// The path of a tile's file in the cache, below the cache's folder.
pub fn tile_file(id: TileId) -> (r: String)
    ensures
        r@ == tile_file_name(id),
{
    let mut r = String::new();
    push_decimal(&mut r, id.z as u64);
    push_char(&mut r, '/');
    push_decimal(&mut r, id.x as u64);
    push_char(&mut r, '/');
    push_decimal(&mut r, id.y as u64);
    push_str(&mut r, ".png");
    assert(r@ =~= tile_file_name(id));
    r
}

/// The address of a tile on the OpenStreetMap tile server.
pub fn tile_url(id: TileId) -> (r: String)
    ensures
        r@ == tile_url_of(id),
{
    let mut r = string_of("https://tile.openstreetmap.org/");
    let f = tile_file(id);
    push_str(&mut r, f.as_str());
    r
}

/// The name the texture of a tile is loaded under.
pub fn texture_name(id: TileId) -> (r: String)
    ensures
        r@ == texture_name_of(id),
{
    let mut r = string_of("tile-");
    push_decimal(&mut r, id.z as u64);
    push_char(&mut r, '-');
    push_decimal(&mut r, id.x as u64);
    push_char(&mut r, '-');
    push_decimal(&mut r, id.y as u64);
    assert(r@ =~= texture_name_of(id));
    r
}

/// The words of the error for a tile that could not be had from `url`,
/// for the reason `why`: the address, a colon, and the reason.
pub open spec fn fetch_error_of(url: Seq<char>, why: Seq<char>) -> Seq<char> {
    url + ": "@ + why
}

/// The error for a tile that could not be had from `url`, for the reason
/// `why`.
pub fn fetch_error(url: &str, why: &str) -> (r: String)
    ensures
        r@ == fetch_error_of(url@, why@),
{
    let mut r = string_of(url);
    push_str(&mut r, ": ");
    push_str(&mut r, why);
    r
}

/// Two runs of digits, each closed by the same character that is not a
/// digit, followed by the rest: where the wholes are equal, so are the
/// runs and so are the rests.
proof fn lemma_split(a: Seq<char>, b: Seq<char>, sep: char, ra: Seq<char>, rb: Seq<char>)
    requires
        all_digits(a),
        all_digits(b),
        !is_digit(sep),
        a + seq![sep] + ra == b + seq![sep] + rb,
    ensures
        a == b,
        ra == rb,
{
    let l = a + seq![sep] + ra;
    let r = b + seq![sep] + rb;
    if a.len() < b.len() {
        assert(l[a.len() as int] == sep);
        assert(r[a.len() as int] == b[a.len() as int]);
    } else if b.len() < a.len() {
        assert(r[b.len() as int] == sep);
        assert(l[b.len() as int] == a[b.len() as int]);
    }
    assert(a =~= l.take(a.len() as int));
    assert(b =~= r.take(b.len() as int));
    assert(ra =~= l.skip(a.len() as int + 1));
    assert(rb =~= r.skip(b.len() as int + 1));
}

/// Different tiles have different files.
proof fn lemma_files_differ(a: TileId, b: TileId)
    requires
        a != b,
    ensures
        tile_file_name(a) != tile_file_name(b),
{
    let (za, xa, ya) = (decimal(a.z as nat), decimal(a.x as nat), decimal(a.y as nat));
    let (zb, xb, yb) = (decimal(b.z as nat), decimal(b.x as nat), decimal(b.y as nat));
    let png = ".png"@;
    assert(tile_file_name(a) =~= za + seq!['/'] + (xa + seq!['/'] + (ya + png)));
    assert(tile_file_name(b) =~= zb + seq!['/'] + (xb + seq!['/'] + (yb + png)));
    if tile_file_name(a) == tile_file_name(b) {
        lemma_decimal_digits(a.z as nat);
        lemma_decimal_digits(a.x as nat);
        lemma_decimal_digits(b.z as nat);
        lemma_decimal_digits(b.x as nat);
        lemma_split(za, zb, '/', xa + seq!['/'] + (ya + png), xb + seq!['/'] + (yb + png));
        lemma_split(xa, xb, '/', ya + png, yb + png);
        assert(ya =~= (ya + png).take(ya.len() as int));
        assert(yb =~= (yb + png).take(yb.len() as int));
        lemma_decimal_injective(a.z as nat, b.z as nat);
        lemma_decimal_injective(a.x as nat, b.x as nat);
        lemma_decimal_injective(a.y as nat, b.y as nat);
    }
}

/// Different tiles have different texture names.
proof fn lemma_textures_differ(a: TileId, b: TileId)
    requires
        a != b,
    ensures
        texture_name_of(a) != texture_name_of(b),
{
    let (za, xa, ya) = (decimal(a.z as nat), decimal(a.x as nat), decimal(a.y as nat));
    let (zb, xb, yb) = (decimal(b.z as nat), decimal(b.x as nat), decimal(b.y as nat));
    let head = "tile-"@;
    let ta = za + seq!['-'] + (xa + seq!['-'] + ya);
    let tb = zb + seq!['-'] + (xb + seq!['-'] + yb);
    assert(texture_name_of(a) =~= head + ta);
    assert(texture_name_of(b) =~= head + tb);
    if texture_name_of(a) == texture_name_of(b) {
        assert(ta =~= texture_name_of(a).skip(head.len() as int));
        assert(tb =~= texture_name_of(b).skip(head.len() as int));
        lemma_decimal_digits(a.z as nat);
        lemma_decimal_digits(a.x as nat);
        lemma_decimal_digits(b.z as nat);
        lemma_decimal_digits(b.x as nat);
        lemma_split(za, zb, '-', xa + seq!['-'] + ya, xb + seq!['-'] + yb);
        lemma_split(xa, xb, '-', ya, yb);
        lemma_decimal_injective(a.z as nat, b.z as nat);
        lemma_decimal_injective(a.x as nat, b.x as nat);
        lemma_decimal_injective(a.y as nat, b.y as nat);
    }
}

/// Every tile has a file, an address and a texture name of its own: two
/// different tiles never share one.
pub proof fn tiles_have_names_of_their_own(a: TileId, b: TileId)
    requires
        a != b,
    ensures
        tile_file_name(a) != tile_file_name(b),
        tile_url_of(a) != tile_url_of(b),
        texture_name_of(a) != texture_name_of(b),
{
    lemma_files_differ(a, b);
    lemma_textures_differ(a, b);
    let host = "https://tile.openstreetmap.org/"@;
    if tile_url_of(a) == tile_url_of(b) {
        assert(tile_file_name(a) =~= tile_url_of(a).skip(host.len() as int));
        assert(tile_file_name(b) =~= tile_url_of(b).skip(host.len() as int));
    }
}

/// A picture: its width and height in pixels, and its pixels row by row,
/// four bytes each, red, green, blue and alpha.
pub struct Picture {
    pub width: u32,
    pub height: u32,
    pub rgba: Vec<u8>,
}

/// The image crate's format, which this module only carries from the guess
/// to the decoding.
#[verifier::external_type_specification]
#[verifier::external_body]
pub struct ExImageFormat(image::ImageFormat);

/// The format that `image::guess_format` reads off the first bytes of a
/// picture file by their magic numbers, or the words of its error where
/// none matches.
pub uninterp spec fn guessed_format(bytes: Seq<u8>) -> Result<image::ImageFormat, Seq<char>>;

/// What `image::load_from_memory_with_format` makes of the bytes of a
/// picture file in the given built-in format, turned into RGBA bytes: its
/// width, its height and its pixels, or the words of its error. The
/// decoders take far more than a few lines to state.
pub uninterp spec fn decoded_as(bytes: Seq<u8>, format: image::ImageFormat) -> Result<
    (u32, u32, Seq<u8>),
    Seq<char>,
>;

/// What a picture file decodes to: the format is guessed from its first
/// bytes, and the bytes are decoded in that format.
pub open spec fn decoded_image(bytes: Seq<u8>) -> Result<(u32, u32, Seq<u8>), Seq<char>> {
    match guessed_format(bytes) {
        Ok(f) => decoded_as(bytes, f),
        Err(e) => Err(e),
    }
}

/// A decoded picture, as the contracts see it.
pub open spec fn picture_view(r: Result<Picture, String>) -> Result<(u32, u32, Seq<u8>), Seq<char>> {
    match r {
        Ok(p) => Ok((p.width, p.height, p.rgba@)),
        Err(e) => Err(e@),
    }
}

/// Guesses the format of a picture file from its first bytes with
/// `image::guess_format`, which looks only at the crate's own table of
/// magic numbers; an error is given by its words. The outcome is named by
/// `guessed_format`: the same bytes give the same outcome.
#[verifier::external_body]
fn guess_format(bytes: &[u8]) -> (r: Result<image::ImageFormat, String>)
    ensures
        match r {
            Ok(f) => guessed_format(bytes@) == Ok::<image::ImageFormat, Seq<char>>(f),
            Err(e) => guessed_format(bytes@) == Err::<image::ImageFormat, Seq<char>>(e@),
        },
{
    match image::guess_format(bytes) {
        Ok(f) => Ok(f),
        Err(e) => Err(e.to_string()),
    }
}

/// Decodes the bytes of a picture file in the built-in format `format`
/// with `image::load_from_memory_with_format`, and turns the picture into
/// RGBA bytes with `DynamicImage::to_rgba8`; an error is given by its
/// words. With a built-in format given, the crate does not look at the
/// hooks that code may register in the process, and its default limits
/// are fixed; so the outcome is named by `decoded_as`: the same bytes and
/// format give the same outcome.
#[verifier::external_body]
fn load_rgba(bytes: &[u8], format: image::ImageFormat) -> (r: Result<(u32, u32, Vec<u8>), String>)
    ensures
        match r {
            Ok((w, h, px)) => decoded_as(bytes@, format) == Ok::<(u32, u32, Seq<u8>), Seq<char>>((w, h, px@)),
            Err(e) => decoded_as(bytes@, format) == Err::<(u32, u32, Seq<u8>), Seq<char>>(e@),
        },
{
    match image::load_from_memory_with_format(bytes, format) {
        Ok(img) => {
            let img = img.to_rgba8();
            Ok((img.width(), img.height(), img.into_raw()))
        },
        Err(e) => Err(e.to_string()),
    }
}

/// The picture in the bytes of a tile's file, as RGBA bytes, or the reason
/// it could not be read: the format is guessed from the first bytes, then
/// the bytes are decoded in it.
pub fn decode(bytes: &[u8]) -> (r: Result<Picture, String>)
    ensures
        picture_view(r) == decoded_image(bytes@),
{
    match guess_format(bytes) {
        Ok(format) => match load_rgba(bytes, format) {
            Ok((width, height, rgba)) => Ok(Picture { width, height, rgba }),
            Err(e) => Err(e),
        },
        Err(e) => Err(e),
    }
}

/// A tile's file is `{z}/{x}/{y}.png` below the cache's folder, its
/// address that path on `https://tile.openstreetmap.org/`, and its texture
/// `tile-{z}-{x}-{y}`, each number in decimal.
pub proof fn tile_names_follow_the_server(id: TileId)
    ensures
        tile_file_name(id) == decimal(id.z as nat) + seq!['/'] + decimal(id.x as nat) + seq!['/'] + decimal(
            id.y as nat,
        ) + seq!['.', 'p', 'n', 'g'],
        tile_url_of(id) == seq![
            'h', 't', 't', 'p', 's', ':', '/', '/', 't', 'i', 'l', 'e', '.', 'o', 'p', 'e', 'n', 's',
            't', 'r', 'e', 'e', 't', 'm', 'a', 'p', '.', 'o', 'r', 'g', '/',
        ] + tile_file_name(id),
        texture_name_of(id) == seq!['t', 'i', 'l', 'e', '-'] + decimal(id.z as nat) + seq!['-']
            + decimal(id.x as nat) + seq!['-'] + decimal(id.y as nat),
{
    reveal_strlit(".png");
    reveal_strlit("https://tile.openstreetmap.org/");
    reveal_strlit("tile-");
    assert(".png"@ =~= seq!['.', 'p', 'n', 'g']);
    assert("https://tile.openstreetmap.org/"@ =~= seq![
        'h', 't', 't', 'p', 's', ':', '/', '/', 't', 'i', 'l', 'e', '.', 'o', 'p', 'e', 'n', 's',
        't', 'r', 'e', 'e', 't', 'm', 'a', 'p', '.', 'o', 'r', 'g', '/',
    ]);
    assert("tile-"@ =~= seq!['t', 'i', 'l', 'e', '-']);
}

} // verus!
