//! The canvas side of a manga drawing application: what a press, a drag and
//! a release mean, and the state that they change.

pub mod app;
pub mod balloons;
pub mod canvas_input;
pub mod canvas_move;
pub mod canvas_up;
pub mod comps;
pub mod diag;
pub mod doc;
pub mod engine;
pub mod export_stamp;
pub mod figure;
pub mod file_object;
pub mod file_object_watch;
pub mod fill_repair;
pub mod floats;
pub mod frames;
pub mod geom;
pub mod gradient;
pub mod kpp_import;
pub mod layer_defaults;
pub mod layout;
pub mod modes;
pub mod object_tool;
pub mod panels;
pub mod rulers;
pub mod smart_shape;
pub mod tabs;
pub mod text;
pub mod transform;
