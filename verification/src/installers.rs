pub mod block;
pub mod codec;
pub mod compression;
pub mod crc32;
pub mod inno;
pub mod inno_header;
pub mod inno_loader;
pub mod inno_version;
pub mod msi;
pub mod nsis;
pub mod reader;
