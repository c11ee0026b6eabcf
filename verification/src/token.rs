//! Tokens of the postfix notation: one token per input character.
use vstd::prelude::*;
use vstd::std_specs::convert::FromSpec;
use vstd::std_specs::convert::FromSpecImpl;

verus! {

/// A token type that a lexer can produce: every character maps to a token,
/// and one distinguished token marks the end of the input.
pub trait Token: From<char> + Sized {
    /// What `eof` returns.
    spec fn eof_spec() -> Self;

    /// The conversion from a character is the one `from_spec` states.
    proof fn from_char_is_specified()
        ensures
            <Self as FromSpec<char>>::obeys_from_spec(),
    ;

    /// The token that marks the end of the input.
    fn eof() -> (t: Self)
        ensures
            t == Self::eof_spec(),
    ;
}

/// Tokens of a ground formula: the two constants and the six connectives.
#[derive(Debug, Clone, Copy, PartialEq, Eq, Structural)]
pub enum BoolToken {
    False,
    True,
    Negation,
    And,
    Or,
    Xor,
    Cond,
    Eq,
    EOF,
    Illegal,
}

impl Token for BoolToken {
    open spec fn eof_spec() -> Self {
        BoolToken::EOF
    }

    proof fn from_char_is_specified() {
    }

    fn eof() -> (t: Self) {
        BoolToken::EOF
    }
}

impl From<char> for BoolToken {
    fn from(value: char) -> (t: Self) {
        match value {
            '0' => BoolToken::False,
            '1' => BoolToken::True,
            '!' => BoolToken::Negation,
            '&' => BoolToken::And,
            '|' => BoolToken::Or,
            '^' => BoolToken::Xor,
            '>' => BoolToken::Cond,
            '=' => BoolToken::Eq,
            _ => BoolToken::Illegal,
        }
    }
}

impl FromSpecImpl<char> for BoolToken {
    open spec fn obeys_from_spec() -> bool {
        true
    }

    open spec fn from_spec(value: char) -> Self {
        BoolToken::of_char(value)
    }
}

impl BoolToken {
    /// The token that the character `value` stands for.
    pub open spec fn of_char(value: char) -> Self {
        match value {
            '0' => BoolToken::False,
            '1' => BoolToken::True,
            '!' => BoolToken::Negation,
            '&' => BoolToken::And,
            '|' => BoolToken::Or,
            '^' => BoolToken::Xor,
            '>' => BoolToken::Cond,
            '=' => BoolToken::Eq,
            _ => BoolToken::Illegal,
        }
    }
}

/// Tokens of a symbolic formula: a variable letter or one of the six connectives.
#[derive(Debug, Clone, Copy, PartialEq, Eq, Structural)]
pub enum CharToken {
    Value(char),
    Negation,
    And,
    Or,
    Xor,
    Cond,
    Eq,
    EOF,
    Illegal,
}

impl Token for CharToken {
    open spec fn eof_spec() -> Self {
        CharToken::EOF
    }

    proof fn from_char_is_specified() {
    }

    fn eof() -> (t: Self) {
        CharToken::EOF
    }
}

impl From<char> for CharToken {
    fn from(value: char) -> (t: Self) {
        match value {
            'A'..='Z' => CharToken::Value(value),
            '!' => CharToken::Negation,
            '&' => CharToken::And,
            '|' => CharToken::Or,
            '^' => CharToken::Xor,
            '>' => CharToken::Cond,
            '=' => CharToken::Eq,
            _ => CharToken::Illegal,
        }
    }
}

impl FromSpecImpl<char> for CharToken {
    open spec fn obeys_from_spec() -> bool {
        true
    }

    open spec fn from_spec(value: char) -> Self {
        CharToken::of_char(value)
    }
}

impl CharToken {
    /// The token that the character `value` stands for.
    pub open spec fn of_char(value: char) -> Self {
        if 'A' <= value <= 'Z' {
            CharToken::Value(value)
        } else {
            match value {
                '!' => CharToken::Negation,
                '&' => CharToken::And,
                '|' => CharToken::Or,
                '^' => CharToken::Xor,
                '>' => CharToken::Cond,
                '=' => CharToken::Eq,
                _ => CharToken::Illegal,
            }
        }
    }
}

} // verus!
