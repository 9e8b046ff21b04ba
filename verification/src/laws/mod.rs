//! What the operations of the viewer are for, stated of their results.
pub mod basics;
pub mod elements;
pub mod marks;
pub mod moves;
pub mod pictures;
pub mod places;
pub mod screens;
pub mod searches;
pub mod selected;
pub mod sources;
pub mod tables;
pub mod words;
