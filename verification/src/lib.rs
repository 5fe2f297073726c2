//! The static context in which the parts of an XSLT stylesheet are compiled
//! (in-scope namespaces, known variables, the standard attributes in effect,
//! the namespaces that literal result elements declare), and the unary
//! arithmetic operators of XPath.

pub mod ast;
pub mod atomic;
pub mod collections;
pub mod context;
pub mod decimal;
pub mod integer;
pub mod lexical;
pub mod op_unary;
pub mod strings;

pub use ast::{
    DefaultMode, DefaultValidation, ExcludeResultPrefix, ExcludeResultPrefixes, Name, Prefix,
    Standard, StaticStandard, Uri,
};
pub use atomic::{Atomic, Error, IntegerType};
pub use collections::{StringMap, StringSet};
pub use context::{Context, Namespaces, ParserContext};
pub use decimal::Decimal;
pub use integer::Integer;
pub use lexical::{double_lexical, DoubleLexical};
pub use op_unary::{cast_untyped_arithmetic, unary_minus, unary_plus};
