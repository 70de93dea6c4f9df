//! Editing logic of the Sphere MIDI piano roll and of the plug-in editor
//! windows around it.
//!
//! Everything here is a function of plain values. Times are whole ticks, screen
//! positions are whole micro-pixels (see [`fixed`]); windows, timelines and
//! painters are outside and exchange these values with the library.

pub mod articulation;
pub mod body;
pub mod canvas;
pub mod cc_curve;
pub mod cc_paint;
pub mod cc_points;
pub mod commands;
pub mod content_host;
pub mod drag;
pub mod editor_backend;
pub mod editor_chrome;
pub mod fixed;
pub mod gesture;
pub mod grid;
pub mod grid_render;
pub mod hit;
pub mod id_set;
pub mod inspector;
pub mod labels;
pub mod lane_edits;
pub mod lane_image;
pub mod lane_motion;
pub mod lane_press;
pub mod lanes;
pub mod midi;
pub mod marquee;
pub mod motion;
pub mod note_blocks;
pub mod note_edits;
pub mod order;
pub mod pitch;
pub mod press;
pub mod preview;
pub mod rect;
pub mod release;
pub mod roll;
pub mod roll_edit;
pub mod scale;
pub mod scope;
pub mod selection_edits;
pub mod session;
pub mod status;
pub mod text;
pub mod toolbar;
pub mod velocity;
pub mod velocity_lane;
pub mod velocity_ops;
pub mod viewport;
pub mod wheel;
pub mod zoom;
