//! Bookkeeping and matching rules of a vanity-address search: pattern lists
//! kept in a line-oriented text form, the prefix/suffix matcher with optional
//! payment-address gating, the search state that shrinks as patterns are
//! satisfied, and throughput reporting.
pub mod candidate;
pub mod matcher;
pub mod patterns;
pub mod rate;
pub mod search;
pub mod text;
