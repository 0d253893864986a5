use naronbenh::images::building_image;
use naronbenh::raster::building_grid;

// The image frame wraps exactly the rendered grid: same dimensions,
// same bytes, row-major.
#[test]
fn building_image_wraps_the_grid() {
    let frame = building_image(68);
    assert_eq!(frame.buf.width(), 300);
    assert_eq!(frame.buf.height(), 300);
    let raw = frame.buf.into_raw();
    let grid = building_grid(68, 4200, 4500, -4300, -4000);
    assert_eq!(raw, grid);
}

// Known pixels of the y = 68 slice: (4352, 68, -4120) sits on the
// inclusive exclusion boundary and is lit; one step nearer the anchor,
// (4352, 68, -4119) is dark.
#[test]
fn building_image_known_pixels() {
    let frame = building_image(68);
    let raw = frame.buf.into_raw();
    assert_eq!(raw[180 * 300 + 152], 255);
    assert_eq!(raw[181 * 300 + 152], 0);
}
