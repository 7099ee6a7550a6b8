use antenna_toolbox::tilefiles::{decode, fetch_error, texture_name, tile_file, tile_url};
use antenna_toolbox::tiles::TileId;

// A PNG of two pixels side by side: opaque red, then half-clear blue.
const TWO_PIXELS: [u8; 71] = [
    137, 80, 78, 71, 13, 10, 26, 10, 0, 0, 0, 13, 73, 72, 68, 82, 0, 0, 0, 2, 0, 0, 0, 1, 8, 6, 0,
    0, 0, 244, 34, 127, 138, 0, 0, 0, 14, 73, 68, 65, 84, 120, 156, 99, 248, 207, 192, 0, 66, 13,
    0, 15, 122, 3, 126, 119, 233, 127, 151, 0, 0, 0, 0, 73, 69, 78, 68, 174, 66, 96, 130,
];

#[test]
fn a_tile_is_kept_in_a_file_by_zoom_column_and_row() {
    assert_eq!(tile_file(TileId { z: 3, x: 12, y: 0 }), "3/12/0.png");
    assert_eq!(tile_file(TileId { z: 0, x: 0, y: 0 }), "0/0/0.png");
    assert_eq!(
        tile_file(TileId { z: 19, x: 524287, y: 4294967295 }),
        "19/524287/4294967295.png"
    );
}

#[test]
fn a_tile_is_fetched_from_the_osm_server() {
    assert_eq!(
        tile_url(TileId { z: 10, x: 511, y: 340 }),
        "https://tile.openstreetmap.org/10/511/340.png"
    );
}

#[test]
fn a_tile_texture_is_named_by_the_tile() {
    assert_eq!(texture_name(TileId { z: 7, x: 100, y: 42 }), "tile-7-100-42");
}

#[test]
fn neighbouring_tiles_keep_apart() {
    // Written without separators these would read alike.
    let a = TileId { z: 1, x: 12, y: 3 };
    let b = TileId { z: 11, x: 2, y: 3 };
    assert_ne!(tile_file(a), tile_file(b));
    assert_ne!(texture_name(a), texture_name(b));
}

#[test]
fn a_failed_fetch_names_the_address() {
    assert_eq!(
        fetch_error("https://tile.openstreetmap.org/1/0/0.png", "timed out"),
        "https://tile.openstreetmap.org/1/0/0.png: timed out"
    );
}

#[test]
fn a_png_decodes_to_rgba_bytes() {
    let p = decode(&TWO_PIXELS).expect("a valid picture");
    assert_eq!(p.width, 2);
    assert_eq!(p.height, 1);
    assert_eq!(p.rgba, vec![255, 0, 0, 255, 0, 0, 255, 128]);
}

#[test]
fn bytes_that_are_no_picture_give_an_error() {
    assert!(decode(b"not a picture at all").is_err());
    assert!(decode(&[]).is_err());
}

#[test]
fn decoding_matches_the_image_crate_with_its_format_guessed() {
    let cases: [&[u8]; 4] = [&TWO_PIXELS, b"not a picture at all", &[], b"GIF89a and then nothing"];
    for bytes in cases {
        let ours = decode(bytes).map(|p| (p.width, p.height, p.rgba));
        let theirs = image::load_from_memory(bytes)
            .map(|i| {
                let i = i.to_rgba8();
                (i.width(), i.height(), i.into_raw())
            })
            .map_err(|e| e.to_string());
        assert_eq!(ours, theirs);
    }
}
