pub mod item_accumulator;
pub mod line_analysis;
pub mod line_analyzer;
pub mod line_type;
pub mod nextest;
pub mod patterns;
pub mod python;
pub mod swift;
pub mod analyzer;
pub mod biome;
pub mod cpp;
pub mod eslint;
pub mod go;
pub mod nextest_json;
pub mod standard;
