//! Inspects Windows application installer files and extracts structured
//! metadata — installer kind, target architecture, locale, product codes,
//! elevation requirements, install scope and default install location —
//! without ever executing the installer.

pub mod file_analyser;
pub mod graphql;
pub mod installers;
pub mod manifest;
pub mod markdown;
pub mod release_notes;
pub mod strutil;
