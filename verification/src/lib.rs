//! A terminal Markdown viewer: rendering, navigation, search and image layout.
pub mod app;
pub mod chars;
pub mod code;
pub mod coherence;
pub mod highlight;
pub mod html;
pub mod image_work;
pub mod inline_image;
pub mod keys;
pub mod laws;
pub mod layout;
pub mod loading;
pub mod markdown;
pub mod motion;
pub mod navigation;
pub mod numbers;
pub mod page;
pub mod pattern;
pub mod renderer;
pub mod screen;
pub mod search;
pub mod selection;
pub mod source;
pub mod style;
pub mod syntax;
pub mod table;
pub mod text;
pub mod variant;
pub mod width;
