//! What holds of every declaration: where parentheses stand and how many
//! there are, where `const` stands, how an empty parameter list is written,
//! that the declaration of a type can be read back as the type, and what
//! the text of a declaration is.

pub mod balance;
pub mod constness;
pub mod flat;
pub mod nesting;
pub mod parentheses;
pub mod reading;
pub mod shape;
pub mod void;
