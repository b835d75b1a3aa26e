//! A compact binary instruction format for a small scalar and UI-declaration
//! machine: its decoder, a text assembler that emits it, a scalar interpreter,
//! and a builder for trees of UI element descriptors.

pub mod assembler;
pub mod decoder;
pub mod gui;
pub mod handlers;
pub mod interaction;
pub mod interp;
pub mod program;
pub mod roundtrip;
pub mod text;

pub use assembler::{parse_properties, parse_text_file};
pub use decoder::{parse_kbj_file, DecodeError};
pub use gui::{build_forest, GuiElement, UiBuilder};
pub use handlers::{Dispatch, HandlerRegistry};
pub use interaction::{
    button_clicked, execute_program_gui, input_changed, render_element, HandlerCall,
    InteractionEvent, InteractionKind, NodeCoGuiApp, Widget,
};
pub use interp::{execute_program, Event, ScalarInterpreter};
pub use program::{Instruction, Program, Property};
