//! Decoders for the style (tileset) and map files of a 1990s top-down city
//! driving game: the chunked container, the tiles and palettes of a style file,
//! the bit-packed block records of a map, and the expansion of the
//! column-compressed map into a dense 256 x 256 x 8 volume of cells.
pub mod block;
pub mod bytes;
pub mod chunk;
pub mod map;
pub mod style;
