//! Read and write access to the SqPack asset archive: path hashing, index and
//! data files, the repository layout, and codecs for models, textures and
//! Excel sheets.
//!
//! Everything here works on bytes and plain values that are already in memory.
//! Each function states what it returns as a contract over the byte layout.

pub mod binary;
pub mod common;
pub mod compression;
pub mod crc;
pub mod dat;
pub mod dat_records;
pub mod equipment;
pub mod exd;
pub mod exh;
pub mod exl;
pub mod gamedata;
pub mod index;
pub mod model;
pub mod model_layout;
pub mod model_pieces;
pub mod model_records;
pub mod model_regions;
pub mod model_replaced;
pub mod model_roundtrip;
pub mod model_stored;
pub mod model_vertex;
pub mod model_vertex_declarations;
pub mod model_writable;
pub mod model_write;
pub mod patch;
pub mod race;
pub mod records;
pub mod repository;
pub mod sqpack;
pub mod tex;
pub mod text;
