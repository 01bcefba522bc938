//! Start-up options: where the height and color map data sets are served
//! from, and the name under which standard paths are kept.
use vstd::prelude::*;

verus! {

/// Default location of the color map data set.
pub const COLORS_URL: &'static str = "https://storage.googleapis.com/openfa/bmng-jan-sparse-512-lzma.cog";

/// Default location of the height map data set.
pub const HEIGHTS_URL: &'static str = "https://storage.googleapis.com/openfa/srtm-sparse-512-lzma.cog";

/// Overrides of the data set locations.
#[derive(Clone, Debug)]
pub struct GeoDbOpts {
    tiles_height_url: Option<String>,
    tiles_color_url: Option<String>,
}

impl GeoDbOpts {
    pub closed spec fn spec_height_override(self) -> Option<String> {
        self.tiles_height_url
    }

    pub closed spec fn spec_color_override(self) -> Option<String> {
        self.tiles_color_url
    }

    /// Options with the given overrides.
    pub fn new(tiles_height_url: Option<String>, tiles_color_url: Option<String>) -> (r: Self)
        ensures
            r.spec_height_override() == tiles_height_url,
            r.spec_color_override() == tiles_color_url,
    {
        GeoDbOpts { tiles_height_url, tiles_color_url }
    }

    /// The height map override, if any.
    pub fn height_override(&self) -> (r: Option<String>)
        ensures
            r == self.spec_height_override(),
    {
        self.tiles_height_url.clone()
    }

    /// The color map override, if any.
    pub fn color_override(&self) -> (r: Option<String>)
        ensures
            r == self.spec_color_override(),
    {
        self.tiles_color_url.clone()
    }

    /// Where to load the color map from: the override, else the default.
    pub fn tiles_color_url(&self) -> (r: &str)
        ensures
            r@ == match self.spec_color_override() {
                Some(url) => url@,
                None => COLORS_URL@,
            },
    {
        if let Some(url) = &self.tiles_color_url {
            url.as_str()
        } else {
            COLORS_URL
        }
    }

    /// Where to load the height map from: the override, else the default.
    pub fn tiles_height_url(&self) -> (r: &str)
        ensures
            r@ == match self.spec_height_override() {
                Some(url) => url@,
                None => HEIGHTS_URL@,
            },
    {
        if let Some(url) = &self.tiles_height_url {
            url.as_str()
        } else {
            HEIGHTS_URL
        }
    }
}

impl Default for GeoDbOpts {
    fn default() -> (r: Self)
        ensures
            r.spec_height_override() is None,
            r.spec_color_override() is None,
    {
        GeoDbOpts { tiles_height_url: None, tiles_color_url: None }
    }
}

/// The database as a plugin of the application, with overrides of the
/// data set locations.
#[derive(Clone, Debug)]
pub struct GeoDbPlugin {
    tiles_height_url: Option<String>,
    tiles_color_url: Option<String>,
}

impl GeoDbPlugin {
    pub closed spec fn spec_height_override(self) -> Option<String> {
        self.tiles_height_url
    }

    pub closed spec fn spec_color_override(self) -> Option<String> {
        self.tiles_color_url
    }

    /// A plugin with the given overrides.
    pub fn new(tiles_height_url: Option<String>, tiles_color_url: Option<String>) -> (r: Self)
        ensures
            r.spec_height_override() == tiles_height_url,
            r.spec_color_override() == tiles_color_url,
    {
        GeoDbPlugin { tiles_height_url, tiles_color_url }
    }

    /// The height map override, if any.
    pub fn height_override(&self) -> (r: Option<String>)
        ensures
            r == self.spec_height_override(),
    {
        self.tiles_height_url.clone()
    }

    /// The color map override, if any.
    pub fn color_override(&self) -> (r: Option<String>)
        ensures
            r == self.spec_color_override(),
    {
        self.tiles_color_url.clone()
    }

    /// Where to load the color map from: the override, else the default.
    pub fn tiles_color_url(&self) -> (r: &str)
        ensures
            r@ == match self.spec_color_override() {
                Some(url) => url@,
                None => COLORS_URL@,
            },
    {
        if let Some(url) = &self.tiles_color_url {
            url.as_str()
        } else {
            COLORS_URL
        }
    }

    /// Where to load the height map from: the override, else the default.
    pub fn tiles_height_url(&self) -> (r: &str)
        ensures
            r@ == match self.spec_height_override() {
                Some(url) => url@,
                None => HEIGHTS_URL@,
            },
    {
        if let Some(url) = &self.tiles_height_url {
            url.as_str()
        } else {
            HEIGHTS_URL
        }
    }
}

impl Default for GeoDbPlugin {
    fn default() -> (r: Self)
        ensures
            r.spec_height_override() is None,
            r.spec_color_override() is None,
    {
        GeoDbPlugin { tiles_height_url: None, tiles_color_url: None }
    }
}

/// Options of the standard paths: the application name they are kept under.
#[derive(Debug)]
pub struct StdPathsOpts {
    _name: String,
}

impl StdPathsOpts {
    pub closed spec fn spec_name(self) -> Seq<char> {
        self._name@
    }

    pub fn new(name: &str) -> (r: Self)
        ensures
            r.spec_name() == name@,
    {
        StdPathsOpts { _name: name.to_owned() }
    }

    /// The application name.
    pub fn name(&self) -> (r: &str)
        ensures
            r@ == self.spec_name(),
    {
        self._name.as_str()
    }
}

/// Options of the standard paths plugin of desktop builds.
#[derive(Debug)]
pub struct StdPathsPlugin {
    name: String,
}

impl StdPathsPlugin {
    pub closed spec fn spec_name(self) -> Seq<char> {
        self.name@
    }

    pub fn new(name: &str) -> (r: Self)
        ensures
            r.spec_name() == name@,
    {
        StdPathsPlugin { name: name.to_owned() }
    }

    /// The application name.
    pub fn name(&self) -> (r: &str)
        ensures
            r@ == self.spec_name(),
    {
        self.name.as_str()
    }
}

} // verus!
