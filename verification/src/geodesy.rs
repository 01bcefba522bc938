//! Positions on the planet and boxes of them.
//!
//! These types carry angles and lengths through the database. They are
//! generic in the representation of an angle (`A`) and of a length (`L`):
//! what they do is keep each coordinate in its place, which holds whatever
//! the representation. Unit conversion and arithmetic on coordinates belong
//! to the representation and stay outside this library.
use vstd::prelude::*;

verus! {

/// A 2d orientation in map space, clockwise from true north.
#[derive(Clone, Copy, Debug)]
pub struct Bearing<A>(A);

impl<A: Copy> Bearing<A> {
    pub closed spec fn spec_angle(self) -> A {
        self.0
    }

    pub fn new(angle: A) -> (r: Self)
        ensures
            r.spec_angle() == angle,
    {
        Bearing(angle)
    }

    pub fn angle(&self) -> (r: A)
        ensures
            r == self.spec_angle(),
    {
        self.0
    }

    pub fn angle_mut(&mut self) -> (r: &mut A)
        ensures
            *r == old(self).spec_angle(),
            final(self).spec_angle() == *final(r),
    {
        &mut self.0
    }
}

/// A 2d elevation in map space; positive is up.
#[derive(Clone, Copy, Debug)]
pub struct PitchCline<A>(A);

impl<A: Copy> PitchCline<A> {
    pub closed spec fn spec_angle(self) -> A {
        self.0
    }

    pub fn new(angle: A) -> (r: Self)
        ensures
            r.spec_angle() == angle,
    {
        PitchCline(angle)
    }

    pub fn angle(&self) -> (r: A)
        ensures
            r == self.spec_angle(),
    {
        self.0
    }

    pub fn angle_mut(&mut self) -> (r: &mut A)
        ensures
            *r == old(self).spec_angle(),
            final(self).spec_angle() == *final(r),
    {
        &mut self.0
    }
}

/// A latitude and longitude.
#[derive(Clone, Copy, Debug, Default, PartialEq, Eq, PartialOrd, Ord)]
pub struct Geode<A> {
    lat: A,
    lon: A,
}

impl<A: Copy> Geode<A> {
    pub closed spec fn spec_lat(self) -> A {
        self.lat
    }

    pub closed spec fn spec_lon(self) -> A {
        self.lon
    }

    pub fn new(lat: A, lon: A) -> (r: Self)
        ensures
            r.spec_lat() == lat,
            r.spec_lon() == lon,
    {
        Geode { lat, lon }
    }

    pub fn lat(&self) -> (r: A)
        ensures
            r == self.spec_lat(),
    {
        self.lat
    }

    pub fn lon(&self) -> (r: A)
        ensures
            r == self.spec_lon(),
    {
        self.lon
    }

    pub fn set_lat(&mut self, lat: A)
        ensures
            final(self).spec_lat() == lat,
            final(self).spec_lon() == old(self).spec_lon(),
    {
        self.lat = lat;
    }

    pub fn set_lon(&mut self, lon: A)
        ensures
            final(self).spec_lon() == lon,
            final(self).spec_lat() == old(self).spec_lat(),
    {
        self.lon = lon;
    }

    pub fn lat_mut(&mut self) -> (r: &mut A)
        ensures
            *r == old(self).spec_lat(),
            final(self).spec_lat() == *final(r),
            final(self).spec_lon() == old(self).spec_lon(),
    {
        &mut self.lat
    }

    pub fn lon_mut(&mut self) -> (r: &mut A)
        ensures
            *r == old(self).spec_lon(),
            final(self).spec_lon() == *final(r),
            final(self).spec_lat() == old(self).spec_lat(),
    {
        &mut self.lon
    }

    /// This position at `altitude` above sea level.
    pub fn asl<L: Copy>(&self, altitude: L) -> (r: Geodetic<A, L>)
        ensures
            r.spec_geode() == *self,
            r.spec_asl() == altitude,
    {
        Geodetic::new_geode(*self, altitude)
    }
}

/// A latitude, longitude, and height above (mean) sea level.
#[derive(Clone, Copy, Debug, PartialEq, Eq, PartialOrd, Ord)]
pub struct Geodetic<A, L> {
    geode: Geode<A>,
    asl: L,
}

impl<A: Copy, L: Copy> Geodetic<A, L> {
    pub closed spec fn spec_geode(self) -> Geode<A> {
        self.geode
    }

    pub closed spec fn spec_asl(self) -> L {
        self.asl
    }

    pub fn new(lat: A, lon: A, asl: L) -> (r: Self)
        ensures
            r.spec_geode().spec_lat() == lat,
            r.spec_geode().spec_lon() == lon,
            r.spec_asl() == asl,
    {
        Geodetic { geode: Geode::new(lat, lon), asl }
    }

    pub fn new_geode(geode: Geode<A>, asl: L) -> (r: Self)
        ensures
            r.spec_geode() == geode,
            r.spec_asl() == asl,
    {
        Geodetic { geode, asl }
    }

    pub fn lat(&self) -> (r: A)
        ensures
            r == self.spec_geode().spec_lat(),
    {
        self.geode.lat()
    }

    pub fn lon(&self) -> (r: A)
        ensures
            r == self.spec_geode().spec_lon(),
    {
        self.geode.lon()
    }

    pub fn asl(&self) -> (r: L)
        ensures
            r == self.spec_asl(),
    {
        self.asl
    }

    pub fn set_lat(&mut self, lat: A)
        ensures
            final(self).spec_geode().spec_lat() == lat,
            final(self).spec_geode().spec_lon() == old(self).spec_geode().spec_lon(),
            final(self).spec_asl() == old(self).spec_asl(),
    {
        self.geode.set_lat(lat);
    }

    pub fn set_lon(&mut self, lon: A)
        ensures
            final(self).spec_geode().spec_lon() == lon,
            final(self).spec_geode().spec_lat() == old(self).spec_geode().spec_lat(),
            final(self).spec_asl() == old(self).spec_asl(),
    {
        self.geode.set_lon(lon);
    }

    pub fn set_asl(&mut self, asl: L)
        ensures
            final(self).spec_asl() == asl,
            final(self).spec_geode() == old(self).spec_geode(),
    {
        self.asl = asl;
    }

    pub fn lat_mut(&mut self) -> (r: &mut A)
        ensures
            *r == old(self).spec_geode().spec_lat(),
            final(self).spec_geode().spec_lat() == *final(r),
            final(self).spec_geode().spec_lon() == old(self).spec_geode().spec_lon(),
            final(self).spec_asl() == old(self).spec_asl(),
    {
        self.geode.lat_mut()
    }

    pub fn lon_mut(&mut self) -> (r: &mut A)
        ensures
            *r == old(self).spec_geode().spec_lon(),
            final(self).spec_geode().spec_lon() == *final(r),
            final(self).spec_geode().spec_lat() == old(self).spec_geode().spec_lat(),
            final(self).spec_asl() == old(self).spec_asl(),
    {
        self.geode.lon_mut()
    }

    pub fn asl_mut(&mut self) -> (r: &mut L)
        ensures
            *r == old(self).spec_asl(),
            final(self).spec_asl() == *final(r),
            final(self).spec_geode() == old(self).spec_geode(),
    {
        &mut self.asl
    }

    pub fn geode(&self) -> (r: &Geode<A>)
        ensures
            *r == self.spec_geode(),
    {
        &self.geode
    }
}

/// A box of positions, from its south-west to its north-east corner.
#[derive(Clone, Debug)]
pub struct GeodeBB<A> {
    south_west: Geode<A>,
    north_east: Geode<A>,
}

impl<A: Copy> GeodeBB<A> {
    pub closed spec fn spec_low(self) -> Geode<A> {
        self.south_west
    }

    pub closed spec fn spec_high(self) -> Geode<A> {
        self.north_east
    }

    pub fn from_bounds(south_west: Geode<A>, north_east: Geode<A>) -> (r: Self)
        ensures
            r.spec_low() == south_west,
            r.spec_high() == north_east,
    {
        GeodeBB { south_west, north_east }
    }

    /// The ground box of a box with heights.
    pub fn from_geodetic_bb<L: Copy>(bb: &GeodeticBB<A, L>) -> (r: Self)
        ensures
            r.spec_low() == Geode::<A>::new_spec(bb.spec_south(), bb.spec_west()),
            r.spec_high() == Geode::<A>::new_spec(bb.spec_north(), bb.spec_east()),
    {
        GeodeBB {
            south_west: Geode::new(bb.south(), bb.west()),
            north_east: Geode::new(bb.north(), bb.east()),
        }
    }

    pub fn south(&self) -> (r: A)
        ensures
            r == self.spec_low().spec_lat(),
    {
        self.south_west.lat()
    }

    pub fn north(&self) -> (r: A)
        ensures
            r == self.spec_high().spec_lat(),
    {
        self.north_east.lat()
    }

    pub fn west(&self) -> (r: A)
        ensures
            r == self.spec_low().spec_lon(),
    {
        self.south_west.lon()
    }

    pub fn east(&self) -> (r: A)
        ensures
            r == self.spec_high().spec_lon(),
    {
        self.north_east.lon()
    }

    pub fn low(&self) -> (r: &Geode<A>)
        ensures
            *r == self.spec_low(),
    {
        &self.south_west
    }

    pub fn high(&self) -> (r: &Geode<A>)
        ensures
            *r == self.spec_high(),
    {
        &self.north_east
    }

    /// The four corners, counter-clockwise from south-west: south-west,
    /// north-west, north-east, south-east.
    pub fn corners(&self) -> (r: [Geode<A>; 4])
        ensures
            r[0] == self.spec_low(),
            r[1] == Geode::<A>::new_spec(self.spec_high().spec_lat(), self.spec_low().spec_lon()),
            r[2] == self.spec_high(),
            r[3] == Geode::<A>::new_spec(self.spec_low().spec_lat(), self.spec_high().spec_lon()),
    {
        [
            self.south_west,
            Geode::new(self.north(), self.west()),
            self.north_east,
            Geode::new(self.south(), self.east()),
        ]
    }
}

impl<A: Copy> Geode<A> {
    /// The position with latitude `lat` and longitude `lon`.
    pub closed spec fn new_spec(lat: A, lon: A) -> Geode<A> {
        Geode { lat, lon }
    }
}

/// Two positions with the same latitude and longitude are the same position.
pub proof fn geode_determined_by_coordinates<A: Copy>(g: Geode<A>)
    ensures
        Geode::<A>::new_spec(g.spec_lat(), g.spec_lon()) == g,
        Geode::<A>::new_spec(g.spec_lat(), g.spec_lon()).spec_lat() == g.spec_lat(),
        Geode::<A>::new_spec(g.spec_lat(), g.spec_lon()).spec_lon() == g.spec_lon(),
{
}

/// A box of positions with heights, from its low (south-west, lowest) to its
/// high (north-east, highest) corner.
#[derive(Clone, Debug)]
pub struct GeodeticBB<A, L> {
    south_west: Geodetic<A, L>,
    north_east: Geodetic<A, L>,
}

impl<A: Copy, L: Copy> GeodeticBB<A, L> {
    pub closed spec fn spec_low(self) -> Geodetic<A, L> {
        self.south_west
    }

    pub closed spec fn spec_high(self) -> Geodetic<A, L> {
        self.north_east
    }

    pub open spec fn spec_south(self) -> A {
        self.spec_low().spec_geode().spec_lat()
    }

    pub open spec fn spec_north(self) -> A {
        self.spec_high().spec_geode().spec_lat()
    }

    pub open spec fn spec_west(self) -> A {
        self.spec_low().spec_geode().spec_lon()
    }

    pub open spec fn spec_east(self) -> A {
        self.spec_high().spec_geode().spec_lon()
    }

    /// The box from `south_west` to `north_east`.
    pub fn new(south_west: Geodetic<A, L>, north_east: Geodetic<A, L>) -> (r: Self)
        ensures
            r.spec_low() == south_west,
            r.spec_high() == north_east,
    {
        GeodeticBB { south_west, north_east }
    }

    /// The ground box of this box.
    pub fn geode_bb(&self) -> (r: GeodeBB<A>)
        ensures
            r.spec_low() == Geode::<A>::new_spec(self.spec_south(), self.spec_west()),
            r.spec_high() == Geode::<A>::new_spec(self.spec_north(), self.spec_east()),
    {
        GeodeBB::from_geodetic_bb(self)
    }

    pub fn south(&self) -> (r: A)
        ensures
            r == self.spec_south(),
    {
        self.south_west.lat()
    }

    pub fn north(&self) -> (r: A)
        ensures
            r == self.spec_north(),
    {
        self.north_east.lat()
    }

    pub fn west(&self) -> (r: A)
        ensures
            r == self.spec_west(),
    {
        self.south_west.lon()
    }

    pub fn east(&self) -> (r: A)
        ensures
            r == self.spec_east(),
    {
        self.north_east.lon()
    }

    pub fn min_asl(&self) -> (r: L)
        ensures
            r == self.spec_low().spec_asl(),
    {
        self.south_west.asl()
    }

    pub fn max_asl(&self) -> (r: L)
        ensures
            r == self.spec_high().spec_asl(),
    {
        self.north_east.asl()
    }

    pub fn low(&self) -> (r: &Geodetic<A, L>)
        ensures
            *r == self.spec_low(),
    {
        &self.south_west
    }

    pub fn high(&self) -> (r: &Geodetic<A, L>)
        ensures
            *r == self.spec_high(),
    {
        &self.north_east
    }
}

/// Dropping the heights of a box keeps its four edges.
pub proof fn ground_box_keeps_edges<A: Copy, L: Copy>(bb: GeodeticBB<A, L>, g: GeodeBB<A>)
    requires
        g.spec_low() == Geode::<A>::new_spec(bb.spec_south(), bb.spec_west()),
        g.spec_high() == Geode::<A>::new_spec(bb.spec_north(), bb.spec_east()),
    ensures
        g.spec_low().spec_lat() == bb.spec_south(),
        g.spec_low().spec_lon() == bb.spec_west(),
        g.spec_high().spec_lat() == bb.spec_north(),
        g.spec_high().spec_lon() == bb.spec_east(),
{
}

} // verus!
