# geodb

The core of a terrain database for a flight simulator. Terrain heights and
colors come from two cloud-optimised GeoTIFF data sets (BigTIFF files with LZMA
compressed 512 by 512 tiles and a pyramid of overview levels), read from disk
or over HTTP range requests through a local cache. The library in `src/` is
verified with Verus; `app/` holds the input/output and floating-point code
around it.

`src/`:

- `le`, `tiff`: little-endian fields, TIFF field types and tags, the file
  header and directory entries.
- `cog`, `header`: reading the image file directories, the tags every level
  must carry, the layout of a level's tile index, the GeoTIFF key directory and
  the chain of overview directories.
- `levels`, `names`: overview levels and the choice of level for a depth or a
  precision; tile names and their keys.
- `index`, `startup`: the tile index of a level, and assembling the indices of
  all levels once they have been read.
- `geotiff`, `db`: start-up state, the tiles covering a range, grids of samples
  and their triangulation, and the decisions taken each frame.
- `lru`: the in-memory tile cache: requests, deliveries, reading and
  flattening heights.
- `attachments`: flattened patches, foundations, ground stabilizers and
  airports.
- `geodesy`: geodetic positions and boxes, generic over the angle and length
  types.
- `text`, `options`: printed tile names, cache file names, data set locations.

`app/` reads data sets and caches them on disk, runs the background start-up
and the tile loader threads, and does the geodetic arithmetic in `f64`.
