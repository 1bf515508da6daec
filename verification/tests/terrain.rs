use onlinerpg::terrain::{
    default_heightmap, default_splatmap, heightmap_path, meta_path, splatmap_path,
    tile_to_region, DEFAULT_HEIGHT_VALUE, HEIGHTMAP_SIZE, SPLATMAP_SIZE,
};

#[test]
fn tile_to_region_positive() {
    assert_eq!(tile_to_region(0), 0);
    assert_eq!(tile_to_region(15), 0);
    assert_eq!(tile_to_region(16), 1);
    assert_eq!(tile_to_region(249), 15);
}

#[test]
fn tile_to_region_negative() {
    assert_eq!(tile_to_region(-1), -1);
    assert_eq!(tile_to_region(-16), -1);
    assert_eq!(tile_to_region(-17), -2);
    assert_eq!(tile_to_region(-250), -16);
}

#[test]
fn heightmap_path_positive() {
    let p = heightmap_path("terrain", 5, 3);
    assert_eq!(p, "terrain/height/r+00_+00/h_+0005_+0003.bin");
}

#[test]
fn heightmap_path_negative() {
    let p = heightmap_path("terrain", -5, -20);
    assert_eq!(p, "terrain/height/r-01_-02/h_-0005_-0020.bin");
}

#[test]
fn splatmap_path_format() {
    let p = splatmap_path("t", 0, 0);
    assert_eq!(p, "t/splat/r+00_+00/s_+0000_+0000.bin");
}

#[test]
fn meta_path_format() {
    let p = meta_path("t", -1, 2);
    assert_eq!(p, "t/meta/r-01_+02.json");
}

#[test]
fn default_heightmap_size() {
    assert_eq!(default_heightmap().len(), HEIGHTMAP_SIZE);
}

#[test]
fn default_heightmap_value() {
    let data = default_heightmap();
    let value = u16::from_le_bytes([data[0], data[1]]);
    assert_eq!(value, DEFAULT_HEIGHT_VALUE);
}

#[test]
fn default_splatmap_size() {
    assert_eq!(default_splatmap().len(), SPLATMAP_SIZE);
}

#[test]
fn default_splatmap_first_pixel() {
    let data = default_splatmap();
    assert_eq!(data[0], 255); // R = 100%
    assert_eq!(data[1], 0); // G
    assert_eq!(data[2], 0); // B
    assert_eq!(data[3], 0); // A
}

#[test]
fn path_join_with_trailing_slash_and_extreme_coordinates() {
    assert_eq!(
        heightmap_path("base/", i32::MIN, 123456),
        "base/height/r-134217728_+7716/h_-2147483648_+123456.bin"
    );
    assert_eq!(splatmap_path("", 16, -16), "splat/r+01_-01/s_+0016_-0016.bin");
}

#[test]
fn default_heightmap_every_sample_is_sea_level() {
    let data = default_heightmap();
    for k in 0..HEIGHTMAP_SIZE / 2 {
        assert_eq!(u16::from_le_bytes([data[2 * k], data[2 * k + 1]]), 10000);
    }
}
