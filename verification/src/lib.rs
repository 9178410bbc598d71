//! A directory-listing library: a natural/version-aware name comparator, a
//! shell-style glob matcher, an icon and color classifier with a fixed
//! priority chain, terminal-width-aware layouts that measure visible width
//! only, and the renderers that a listing tool drives them with.
pub mod cli;
pub mod compare;
pub mod entry;
pub mod foreign;
pub mod format;
pub mod glob;
pub mod grid;
pub mod icons;
pub mod output;
pub mod text;
