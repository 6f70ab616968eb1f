//! Verified core of three comic sources: batcave, webtoons and xcomic.
pub mod batcave;
pub mod model;
pub mod numbers;
pub mod sorting;
pub mod text;
pub mod webtoons;
pub mod xcomic;
