//! Counter resolution core for a document compiler.
//!
//! Document content registers counting events (page turns, heading steps,
//! custom named counters) as inert update elements. Once the document's
//! final order is known, the engine derives, per counter, the full ordered
//! sequence of counter states, memoizes it per document snapshot, and
//! answers `at`, `final` and `both` queries against it.

pub mod content;
pub mod counter;
pub mod document;
pub mod engine;
pub mod error;
pub mod key;
pub mod laws;
pub mod sequence;
pub mod state;

pub use content::{Content, DisplayElem, Formatted, Numbering, Styles, UpdateElem};
pub use counter::{counter, Args, Counter, MethodValue};
pub use engine::Engine;
pub use document::{Counting, DocElem, ElemBody, Location, Snapshot};
pub use error::CounterError;
pub use key::{CounterKey, ElemFunc, Label, Selector};
pub use sequence::Stop;
pub use state::{CounterState, CounterUpdate, Transform};
