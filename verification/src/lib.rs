//! `oh_check`: the checker core of a directory of interfaces. Declared
//! liveness probes over the manifest corpus, the check gradient («never
//! deep-checked» is not «checked, passed»), the append-only history's
//! reading, badge aggregation, security.txt evaluation, the card drift
//! state machine, strict RFC 3339 time, and what a run reports.

pub mod text;
pub mod time;
pub mod sectxt;
pub mod gradient;
pub mod badge;
pub mod model;
pub mod origin;
pub mod probes;
pub mod drift;
pub mod report;
