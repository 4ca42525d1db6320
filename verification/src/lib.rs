//! A data-access core for relationally stored entities.
//!
//! - [`null`]: the tri-state field, and its form on the wire.
//! - [`entity`], [`schema`], [`attrs`]: records of such fields, and what is
//!   known of each field.
//! - [`row`], [`naming`]: entities read from the rows of a result, and the
//!   names of their columns.
//! - [`wire`], [`json`]: entities and values as JSON.
//! - [`codec`], [`projection`], [`sanitize`]: ciphered fields, the views of
//!   an entity that responses and forms show, and the tidying of form
//!   texts.
//! - [`page`], [`query`], [`filter`], [`order`]: page requests, and their
//!   filters and orders compiled to predicates with bound values.
//! - [`text`], [`number`], [`enums`]: text, numerals and variant names.

pub mod attrs;
pub mod codec;
pub mod entity;
pub mod enums;
pub mod filter;
pub mod json;
pub mod naming;
pub mod null;
pub mod number;
pub mod order;
pub mod page;
pub mod projection;
pub mod query;
pub mod row;
pub mod sanitize;
pub mod schema;
pub mod text;
pub mod wire;
