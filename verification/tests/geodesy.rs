use geodb::options::GeoDbPlugin;
use geodb::geodesy::{Bearing, Geode, GeodeBB, Geodetic, GeodeticBB, PitchCline};
use geodb::options::{GeoDbOpts, StdPathsOpts, StdPathsPlugin, COLORS_URL, HEIGHTS_URL};

#[test]
fn bearing_and_pitch_hold_their_angle() {
    let mut b = Bearing::new(1.5f64);
    assert_eq!(b.angle(), 1.5);
    *b.angle_mut() = 0.25;
    assert_eq!(b.angle(), 0.25);
    let mut p = PitchCline::new(-0.5f64);
    assert_eq!(p.angle(), -0.5);
    *p.angle_mut() += 1.0;
    assert_eq!(p.angle(), 0.5);
}

#[test]
fn geode_accessors() {
    let mut g = Geode::new(10.0f64, 20.0f64);
    assert_eq!((g.lat(), g.lon()), (10.0, 20.0));
    g.set_lat(-5.0);
    g.set_lon(7.0);
    assert_eq!((g.lat(), g.lon()), (-5.0, 7.0));
    *g.lat_mut() = 1.0;
    *g.lon_mut() = 2.0;
    assert_eq!(g, Geode::new(1.0, 2.0));
    let d = g.asl(300i32);
    assert_eq!(d.lat(), 1.0);
    assert_eq!(d.lon(), 2.0);
    assert_eq!(d.asl(), 300);
    assert_eq!(*d.geode(), g);
}

#[test]
fn geodetic_accessors() {
    let mut d = Geodetic::new(3i64, 4i64, 5u32);
    assert_eq!((d.lat(), d.lon(), d.asl()), (3, 4, 5));
    d.set_lat(6);
    d.set_lon(7);
    d.set_asl(8);
    assert_eq!((d.lat(), d.lon(), d.asl()), (6, 7, 8));
    *d.lat_mut() = 9;
    *d.lon_mut() = 10;
    *d.asl_mut() = 11;
    assert_eq!(d, Geodetic::new_geode(Geode::new(9, 10), 11));
}

#[test]
fn ground_box_edges_and_corners() {
    let bb = GeodeBB::from_bounds(Geode::new(-1i32, -2i32), Geode::new(3i32, 4i32));
    assert_eq!((bb.south(), bb.north(), bb.west(), bb.east()), (-1, 3, -2, 4));
    assert_eq!(*bb.low(), Geode::new(-1, -2));
    assert_eq!(*bb.high(), Geode::new(3, 4));
    assert_eq!(
        bb.corners(),
        [Geode::new(-1, -2), Geode::new(3, -2), Geode::new(3, 4), Geode::new(-1, 4)]
    );
}

#[test]
fn box_with_altitudes() {
    let bb = GeodeticBB::new(Geodetic::new(-1i32, -2i32, 10u16), Geodetic::new(3i32, 4i32, 20u16));
    assert_eq!((bb.south(), bb.north(), bb.west(), bb.east()), (-1, 3, -2, 4));
    assert_eq!((bb.min_asl(), bb.max_asl()), (10, 20));
    assert_eq!(*bb.low(), Geodetic::new(-1, -2, 10));
    assert_eq!(*bb.high(), Geodetic::new(3, 4, 20));
    let g = bb.geode_bb();
    assert_eq!((g.south(), g.north(), g.west(), g.east()), (-1, 3, -2, 4));
    let g2 = GeodeBB::from_geodetic_bb(&bb);
    assert_eq!(g2.corners(), g.corners());
}

#[test]
fn data_set_locations() {
    let o = GeoDbOpts::default();
    assert_eq!(o.tiles_color_url(), COLORS_URL);
    assert_eq!(o.tiles_height_url(), HEIGHTS_URL);
    assert_eq!(o.height_override(), None);
    let o = GeoDbOpts::new(Some("file:///h.cog".to_owned()), None);
    assert_eq!(o.tiles_height_url(), "file:///h.cog");
    assert_eq!(o.tiles_color_url(), COLORS_URL);
    let o = GeoDbOpts::new(None, Some("c.cog".to_owned()));
    assert_eq!(o.tiles_color_url(), "c.cog");
    assert_eq!(o.color_override(), Some("c.cog".to_owned()));
    assert_eq!(HEIGHTS_URL, "https://storage.googleapis.com/openfa/srtm-sparse-512-lzma.cog");
    assert_eq!(COLORS_URL, "https://storage.googleapis.com/openfa/bmng-jan-sparse-512-lzma.cog");
}

#[test]
fn application_names() {
    assert_eq!(StdPathsOpts::new("nitrogen").name(), "nitrogen");
    assert_eq!(StdPathsPlugin::new("openfa").name(), "openfa");
}

#[test]
fn plugin_data_set_locations() {
    let p = GeoDbPlugin::default();
    assert_eq!(p.tiles_color_url(), COLORS_URL);
    assert_eq!(p.tiles_height_url(), HEIGHTS_URL);
    let p = GeoDbPlugin::new(Some("h".to_owned()), Some("c".to_owned()));
    assert_eq!(p.tiles_height_url(), "h");
    assert_eq!(p.tiles_color_url(), "c");
}
