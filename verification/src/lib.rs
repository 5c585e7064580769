//! TaleNode: the data model of branching dialogue graphs, snapshot undo history,
//! sub-graph flattening, the exporters (XML, Yarn, CSV, HTML, JSON), and the
//! editor's decisions: templates, search and replace, sub-graph navigation,
//! collaboration operations, keyboard shortcuts and the handling of what the
//! translation, speech and writing services answer.

pub mod ident;
pub mod text;
pub mod locale;
pub mod model;
pub mod copy;
pub mod graph;
pub mod history;
pub mod csv;
pub mod locale_export;
pub mod readable;
pub mod bark_export;
pub mod voice_export;
pub mod flatten;
pub mod xml_export;
pub mod yarn_export;
pub mod json;
pub mod html_template;
pub mod html_export;
pub mod exported;
pub mod settings;
pub mod collab;
pub mod templates;
pub mod ui;
pub mod analytics;
pub mod json_export;
pub mod cli;
pub mod same;
pub mod search;
pub mod navigation;
pub mod sync;
pub mod plugin;
pub mod insertion;
pub mod assist;
pub mod shortcuts;
pub mod find_bar;
pub mod sync_wires;
pub mod wiring;
