pub mod empty;
pub mod parse_section;
pub mod sections;
pub mod select;
