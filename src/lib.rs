//! Parsing of thermal-network model files: a file is cut into blocks at each
//! `HEADER` marker, and the records of each block are read by the parser of
//! its section.

pub mod blocks;
pub mod node;
pub mod options_data;
pub mod sections;
pub mod text;

pub use blocks::split_blocks;
pub use node::{classify_node, CapacitanceSign, NodeError, NodeType};
pub use options_data::{parse_options_data, OptionsData, OptionsError};
pub use sections::{section_header, SectionError, SectionHeader, SectionKind};
