//! A branching dialogue script: narration lines and choice groups, linked by
//! positions, each annotated with tag names that typed tags are read from.

pub mod chat;
pub mod choices;
pub mod line;
pub mod tag;

pub use chat::{Chat, ChatContent, ChatPosition};
pub use choices::Choice;
pub use line::Line;
pub use tag::{Tag, Tagged};
