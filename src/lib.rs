//! Decoder for the classic self-describing scientific-data container format
//! (signature "CDF", versions 1 and 2).
pub mod consts;
pub mod data;
pub mod error;
pub mod grammar;
pub mod primitives;
pub mod laws;
pub mod reader;

pub use data::{Float32, Float64, NCData, NCDataIter, NCType, NCValue};
pub use error::{ErrorCategory, ErrorKind, ParseError};
pub use reader::{
    NCAttribute, NCAttributeContainer, NCDimension, NCFile, NCVariable, NCVariableContainer,
};
