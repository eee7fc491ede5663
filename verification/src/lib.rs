//! Frame editing, capture geometry, playback and interface-text logic for a
//! screen-to-GIF recorder, with contracts checked by Verus.

pub mod raster;
pub mod editor;
pub mod text;
pub mod capture;
pub mod editor_screen;
pub mod strings;
pub mod crop_tool;
pub mod text_tool;
pub mod encoder;
pub mod recording_indicator;
pub mod flow;
pub mod project_screen;
pub mod processing;
