//! Serialization engine for spreadsheet packages: typed attribute values,
//! element nodes with their XML parse / write contracts, and the assembler
//! that lays out the parts of the archive with consistent identifiers.
pub mod archive;
pub mod attr;
pub mod content;
pub mod decimal;
pub mod document;
pub mod effect_list;
pub mod error;
pub mod no_multi_level_labels;
pub mod package;
pub mod reader;
pub mod shared_strings;
pub mod xml;
