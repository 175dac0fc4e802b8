//! The `second` command: a single keyword at the head of the input.

use vstd::prelude::*;
use vstd::string::*;

verus! {

/// A lexical token of a command line.
#[derive(Clone, Debug, PartialEq, Eq)]
pub enum Token {
    Dot,
    Comma,
    Semi,
    Exclamation,
    Question,
    Colon,
    EndOfLine,
    ParenLeft,
    ParenRight,
    Quote(String),
    Word(String),
}

/// Why the input could not be split into tokens at some place.
#[derive(Clone, Copy, Debug, PartialEq, Eq, Structural)]
pub enum Error {
    UnterminatedString,
    QuoteInWord,
    RawString,
}

/// A stream of lexed input: at each place a token, or the error that the
/// lexer met there, and the place of the next item to hand out.
pub struct Tokenizer {
    pub items: Vec<Result<Token, Error>>,
    pub position: usize,
}

/// What a peek sees: the item at the tokenizer's place, if there is one.
pub open spec fn upcoming(input: Tokenizer) -> Option<Result<Token, Error>> {
    if input.position < input.items@.len() {
        Some(input.items@[input.position as int])
    } else {
        None
    }
}

/// Whether `word` is one of the two keywords of the command.
pub open spec fn is_second_keyword(word: Seq<char>) -> bool {
    word == "second"@ || word == "seconded"@
}

/// What parsing gives for the item that a peek sees: the lexer's error; the
/// command for one of its keywords; nothing for anything else.
pub open spec fn parsed(next: Option<Result<Token, Error>>) -> Result<Option<SecondCommand>, Error> {
    match next {
        Some(Err(e)) => Err(e),
        Some(Ok(Token::Word(w))) => if is_second_keyword(w@) {
            Ok(Some(SecondCommand))
        } else {
            Ok(None)
        },
        _ => Ok(None),
    }
}

impl Tokenizer {
    /// A tokenizer at the start of `items`.
    pub fn new(items: Vec<Result<Token, Error>>) -> (t: Tokenizer)
        ensures
            t.items == items,
            t.position == 0,
    {
        Tokenizer { items, position: 0 }
    }

    /// The next item, without moving past it.
    pub fn peek_token(&self) -> (r: Result<Option<&Token>, Error>)
        ensures
            match upcoming(*self) {
                Some(Ok(t)) => r == Ok::<Option<&Token>, Error>(Some(&t)),
                Some(Err(e)) => r == Err::<Option<&Token>, Error>(e),
                None => r == Ok::<Option<&Token>, Error>(None),
            },
    {
        if self.position < self.items.len() {
            match &self.items[self.position] {
                Ok(t) => Ok(Some(t)),
                Err(e) => Err(*e),
            }
        } else {
            Ok(None)
        }
    }
}

/// The command that seconds a proposal.
#[derive(Clone, Copy, Debug, PartialEq, Eq, Structural)]
pub struct SecondCommand;

impl SecondCommand {
    /// Recognises the command at the head of `input`, which stays where it is.
    pub fn parse(input: &mut Tokenizer) -> (r: Result<Option<SecondCommand>, Error>)
        ensures
            r == parsed(upcoming(*old(input))),
            *final(input) == *old(input),
    {
        match input.peek_token() {
            Err(e) => Err(e),
            Ok(Some(Token::Word(w))) => {
                if *w == String::from_str("second") || *w == String::from_str("seconded") {
                    Ok(Some(SecondCommand))
                } else {
                    Ok(None)
                }
            },
            Ok(_) => Ok(None),
        }
    }
}

} // verus!
