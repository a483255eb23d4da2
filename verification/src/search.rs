//! Search: from the text of a query to the hits that are shown.

pub mod compile;
pub mod highlight;
pub mod query;
