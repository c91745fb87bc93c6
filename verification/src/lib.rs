//! Formatting arguments for a document formatter: type-erased values that
//! are written, in order, into a formatter's intermediate representation.

pub mod arguments;
pub mod builders;
pub mod formatter;
pub mod format_element;
pub mod type_member;

pub use arguments::{Argument, Arguments};
pub use builders::{group_elements, space_token, token, GroupElements, Space, StaticToken};
pub use formatter::{AsFormat, Format, FormatError, FormatRef, FormatResult, Formatted, FormatState, Formatter, VecBuffer};
pub use format_element::{Document, Element, FormatElement, Group, List, Token};
pub use type_member::{FormatTsAnyTypeMember, TsAnyTypeMember};
