//! The document model of a small HTTP request editor: requests,
//! environments of key/value rows, and the single selected panel.

mod decimal;
mod document;
mod method;
mod model;
mod positions;

pub use decimal::{decimal, digit_char, numbered};
pub use document::{
    default_view, empty_row, lemma_parts_round_trip, new_environment_view, new_request_view,
    parts_view, selection_in_range, with_headers, with_values, DocView, RequestieApp,
};
pub use method::{lemma_method_name_injective, method_name, HttpMethod};
pub use model::{
    environments_view, pair_view, pairs_view, requests_view, Environment, EnvironmentView, Pair,
    PanelSelection, Request, RequestView,
};
pub use positions::{listed, listed_from, marks_ascending, without_positions};
