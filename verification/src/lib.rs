//! Simple web polls: questions parsed from plain text, rendered as HTML
//! forms and SQL statements, with surveys kept in an in-memory store.

pub mod laws;
pub mod make_id;
pub mod response;
pub mod store;
pub mod survey;
pub mod text;

pub use make_id::new_id;
pub use response::SResponse;
pub use store::SurveyStore;
pub use survey::{make_questions, Question, Survey};
