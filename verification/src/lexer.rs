//! The lexer: a character sequence read as tokens, one per character.
use crate::text::chars_of;
use crate::token::Token;
use vstd::prelude::*;
use vstd::std_specs::convert::FromSpec;

verus! {

/// The token that a lexer over `rest` hands out next.
pub open spec fn first_token<T: Token>(rest: Seq<char>) -> T {
    if rest.len() > 0 {
        T::from_spec(rest[0])
    } else {
        T::eof_spec()
    }
}

/// What is left of `rest` once its first token has been handed out.
pub open spec fn after_first(rest: Seq<char>) -> Seq<char> {
    if rest.len() > 0 {
        rest.drop_first()
    } else {
        rest
    }
}

/// A source of characters read as tokens of the type `T`.
pub trait LexerTrait<T: Token> {
    /// The characters not yet consumed.
    spec fn remaining(&self) -> Seq<char>;

    /// Takes the next character, if one is left.
    fn next_char(&mut self) -> (c: Option<char>)
        ensures
            old(self).remaining().len() == 0 ==> c is None,
            old(self).remaining().len() > 0 ==> c == Some(old(self).remaining()[0]),
            final(self).remaining() == after_first(old(self).remaining()),
    ;

    /// Takes the token of the next character, or the end token where no
    /// character is left.
    fn next_token(&mut self) -> (t: T)
        ensures
            t == first_token::<T>(old(self).remaining()),
            final(self).remaining() == after_first(old(self).remaining()),
    {
        proof {
            T::from_char_is_specified();
        }
        if let Some(value) = self.next_char() {
            T::from(value)
        } else {
            T::eof()
        }
    }
}

/// A lexer over the characters of a text.
pub struct Lexer {
    chars: Vec<char>,
    pos: usize,
}

impl View for Lexer {
    type V = Seq<char>;

    closed spec fn view(&self) -> Seq<char> {
        self.chars@.skip(self.pos as int)
    }
}

impl Lexer {
    #[verifier::type_invariant]
    spec fn in_bounds(&self) -> bool {
        self.pos <= self.chars.len()
    }

    /// A lexer that has all of `input` before it.
    pub fn new(input: &str) -> (lexer: Self)
        ensures
            lexer@ == input@,
    {
        let chars = chars_of(input);
        Self { chars, pos: 0 }
    }
}

impl<T: Token> LexerTrait<T> for Lexer {
    open spec fn remaining(&self) -> Seq<char> {
        self@
    }

    fn next_char(&mut self) -> (c: Option<char>) {
        proof {
            use_type_invariant(&*self);
        }
        if self.pos < self.chars.len() {
            let c = self.chars[self.pos];
            self.pos = self.pos + 1;
            Some(c)
        } else {
            None
        }
    }
}

} // verus!
