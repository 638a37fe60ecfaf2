//! Editing core of a viewer for `.rif` register files.
pub mod text;
pub mod number;
pub mod model;
pub mod lines;
pub mod syntax;
pub mod counter;
pub mod condition;
pub mod bridge;
pub mod printed;
pub mod edits;
pub mod search;
pub mod source;
pub mod vals;
pub mod field_update;
pub mod reg_update;
pub mod names;
pub mod stage_field;
pub mod stage_reg;
pub mod stage_ovr;
pub mod stage_rif;
pub mod laws;
pub mod action;
pub mod compiled;
pub mod field_editor;
pub mod enum_editor;
pub mod reg_editor;
pub mod intr_desc_editor;
pub mod rename;
pub mod apply;
pub mod viewer;
pub mod plan;
pub mod save_rif;
pub mod save_reg;
pub mod save_page;
pub mod file_io;
pub mod kept;
pub mod held;
pub mod planned;
pub mod written;
pub mod law_place;
pub mod law_field;
pub mod law_rif;
pub mod law_lines;
pub mod law_text;
pub mod law_reg;
pub mod law_inst;
pub mod law_ovr;
pub mod law_source;
pub mod law_plan;
pub mod law_editor;
pub mod law_regedit;
pub mod labels;
pub mod views;
pub mod session;
pub mod law_viewer;
pub mod law_pending;
pub mod law_print;
pub mod law_use;
pub mod law_counter;
