//! Errors of the tree parser, each carrying a byte offset into the input.

use vstd::prelude::*;

verus! {

/// A failure of the structural pre-scan or of the checks that precede it.
///
/// Every variant carries the position of the offending byte in the original
/// input so a caller can render a precise diagnostic.
#[derive(Debug, Clone, Copy, PartialEq, Eq, Structural)]
pub enum ParseTreeError {
    /// A character outside the allowed descriptor character set.
    InvalidCharacter {
        /// The offending character.
        ch: char,
        /// Its position.
        pos: usize,
    },
    /// An opening delimiter of one family was closed by the other family.
    MismatchedParens {
        /// The opening delimiter.
        open_ch: char,
        /// Position of the opening delimiter.
        open_pos: usize,
        /// The closing delimiter.
        close_ch: char,
        /// Position of the closing delimiter.
        close_pos: usize,
    },
    /// An opening delimiter that is never closed.
    UnmatchedOpenParen {
        /// The unclosed opening delimiter.
        ch: char,
        /// Its position.
        pos: usize,
    },
    /// A closing delimiter with no matching opener.
    UnmatchedCloseParen {
        /// The stray closing delimiter.
        ch: char,
        /// Its position.
        pos: usize,
    },
    /// After a closing delimiter inside a nested expression, the next byte
    /// must be a comma or another closing delimiter.
    ExpectedParenOrComma {
        /// The unexpected byte.
        ch: char,
        /// Its position.
        pos: usize,
    },
    /// Extra bytes after the top-level expression was closed.
    TrailingCharacter {
        /// The first extra byte.
        ch: char,
        /// Its position.
        pos: usize,
    },
    /// The nesting depth measured by the pre-scan exceeds the fixed maximum.
    MaxRecursionDepthExceeded {
        /// The measured maximum depth.
        actual: usize,
        /// The allowed maximum.
        maximum: u32,
    },
}

/// Why a parsed tree node could not be read as a threshold.
#[derive(Debug, Clone, PartialEq, Eq)]
pub enum ParseThresholdError {
    /// The node has no children at all, so there is no `k`.
    NoChildren,
    /// The first child, which should hold `k`, has children of its own.
    KNotTerminal,
    /// The first child's name does not parse as a canonical number; carries
    /// a description of the offending token.
    ParseK(String),
    /// `k` and the element count do not form a valid threshold.
    Threshold(crate::ThresholdError),
}

} // verus!
