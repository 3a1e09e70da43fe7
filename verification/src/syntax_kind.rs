//! The kinds of tokens and nodes of the lossless syntax tree.
use vstd::prelude::*;

verus! {

#[derive(Debug, Clone, Copy, PartialEq, Eq, PartialOrd, Ord, Hash, Structural)]
#[allow(non_camel_case_types)]
pub enum SyntaxKind {
    EQ,
    PLUS,
    // Number (any number acceptable by vim script)
    NUMBER,
    // Identifier, e.g. `l:a`
    IDENT,
    LET_KW,
    // The whole let statement.
    LET_STMT,
    // Variable to assign to (on the left side of the operator).
    LET_VAR,
    IDENT_EXPR,
    // Space or tab
    WHITESPACE,
    // We use this because in vimscript new lines are important (end of statement).
    NEW_LINE,
    EOF,
    ERROR,
    ROOT,
    __LAST,
}

impl SyntaxKind {
    /// The number of a kind: its place in the list of kinds, from 0.
    pub open spec fn number(self) -> u16 {
        match self {
            SyntaxKind::EQ => 0,
            SyntaxKind::PLUS => 1,
            SyntaxKind::NUMBER => 2,
            SyntaxKind::IDENT => 3,
            SyntaxKind::LET_KW => 4,
            SyntaxKind::LET_STMT => 5,
            SyntaxKind::LET_VAR => 6,
            SyntaxKind::IDENT_EXPR => 7,
            SyntaxKind::WHITESPACE => 8,
            SyntaxKind::NEW_LINE => 9,
            SyntaxKind::EOF => 10,
            SyntaxKind::ERROR => 11,
            SyntaxKind::ROOT => 12,
            SyntaxKind::__LAST => 13,
        }
    }

    /// The kind of a number, which is not greater than that of the last kind.
    pub fn from_raw(d: u16) -> (r: SyntaxKind)
        requires
            d <= SyntaxKind::__LAST.number(),
        ensures
            r.number() == d,
    {
        if d == 0 {
            SyntaxKind::EQ
        } else if d == 1 {
            SyntaxKind::PLUS
        } else if d == 2 {
            SyntaxKind::NUMBER
        } else if d == 3 {
            SyntaxKind::IDENT
        } else if d == 4 {
            SyntaxKind::LET_KW
        } else if d == 5 {
            SyntaxKind::LET_STMT
        } else if d == 6 {
            SyntaxKind::LET_VAR
        } else if d == 7 {
            SyntaxKind::IDENT_EXPR
        } else if d == 8 {
            SyntaxKind::WHITESPACE
        } else if d == 9 {
            SyntaxKind::NEW_LINE
        } else if d == 10 {
            SyntaxKind::EOF
        } else if d == 11 {
            SyntaxKind::ERROR
        } else if d == 12 {
            SyntaxKind::ROOT
        } else {
            SyntaxKind::__LAST
        }
    }

    /// The number of a kind.
    pub fn to_raw(self) -> (r: u16)
        ensures
            r == self.number(),
    {
        match self {
            SyntaxKind::EQ => 0,
            SyntaxKind::PLUS => 1,
            SyntaxKind::NUMBER => 2,
            SyntaxKind::IDENT => 3,
            SyntaxKind::LET_KW => 4,
            SyntaxKind::LET_STMT => 5,
            SyntaxKind::LET_VAR => 6,
            SyntaxKind::IDENT_EXPR => 7,
            SyntaxKind::WHITESPACE => 8,
            SyntaxKind::NEW_LINE => 9,
            SyntaxKind::EOF => 10,
            SyntaxKind::ERROR => 11,
            SyntaxKind::ROOT => 12,
            SyntaxKind::__LAST => 13,
        }
    }

    /// A kind is the kind of its number.
    pub proof fn number_is_one_to_one(a: SyntaxKind, b: SyntaxKind)
        ensures
            a.number() == b.number() ==> a == b,
    {
    }
}

} // verus!
