//! Formatter preferences and the codes the interpreter knows them by.

use vstd::prelude::*;

verus! {

/// Preferred style for string literals.
#[derive(Debug, Clone, Copy, PartialEq, Eq, Structural)]
pub enum StringStyle {
    /// Prefer double quotes (")
    Double,
    /// Prefer single quotes (')
    Single,
    /// Do not change string literals
    Leave,
}

impl StringStyle {
    /// The code of this style: the letter `d`, `s` or `l`.
    pub open spec fn code(self) -> int {
        match self {
            StringStyle::Double => 'd' as int,
            StringStyle::Single => 's' as int,
            StringStyle::Leave => 'l' as int,
        }
    }

    /// The style as the integer that the interpreter's formatter expects.
    pub fn as_i32(&self) -> (code: i32)
        ensures
            code == self.code(),
            code == 100 || code == 115 || code == 108,
    {
        match self {
            StringStyle::Double => 'd' as i32,
            StringStyle::Single => 's' as i32,
            StringStyle::Leave => 'l' as i32,
        }
    }
}

/// Preferred style for comments.
#[derive(Debug, Clone, Copy, PartialEq, Eq, Structural)]
pub enum CommentStyle {
    /// Prefer hash (#)
    Hash,
    /// Prefer slash (//)
    Slash,
    /// Do not change comments
    Leave,
}

impl CommentStyle {
    /// The code of this style: the letter `h`, `s` or `l`.
    pub open spec fn code(self) -> int {
        match self {
            CommentStyle::Hash => 'h' as int,
            CommentStyle::Slash => 's' as int,
            CommentStyle::Leave => 'l' as int,
        }
    }

    /// The style as the integer that the interpreter's formatter expects.
    pub fn as_i32(&self) -> (code: i32)
        ensures
            code == self.code(),
            code == 104 || code == 115 || code == 108,
    {
        match self {
            CommentStyle::Hash => 'h' as i32,
            CommentStyle::Slash => 's' as i32,
            CommentStyle::Leave => 'l' as i32,
        }
    }
}

} // verus!
