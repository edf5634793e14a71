//! Module schema compiler and verb dispatch runtime.
//!
//! The compiler reads the declarations of module sources (`source`), extracts the
//! functions marked as verbs and resolves the data types that they reach (`parser`),
//! builds each module's schema (`schema`) and writes it in a binary format (`codec`,
//! over the field layer in `wire`), and lists the cases of the dispatch routine
//! (`generator`). The runtime routes calls to handlers and shapes call envelopes
//! (`runtime`), and decides what a runner's registration loop does next
//! (`registration`). `plugin` derives schemas from SQL queries; `timeline`,
//! `provisioner` and `publish` hold messages of the surrounding protocol.

pub mod codec;
pub mod generator;
pub mod parser;
pub mod plugin;
pub mod provisioner;
pub mod publish;
pub mod registration;
pub mod runtime;
pub mod schema;
pub mod source;
pub mod text;
pub mod timeline;
pub mod wire;
