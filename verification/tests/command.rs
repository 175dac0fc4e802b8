use ping_engine::command::{Error, SecondCommand, Token, Tokenizer};

#[test]
fn second_keywords_are_recognised() {
    let mut input = Tokenizer::new(vec![Ok(Token::Word("second".to_string()))]);
    assert_eq!(SecondCommand::parse(&mut input), Ok(Some(SecondCommand)));
    let mut input = Tokenizer::new(vec![Ok(Token::Word("seconded".to_string())), Ok(Token::Dot)]);
    assert_eq!(SecondCommand::parse(&mut input), Ok(Some(SecondCommand)));
    assert_eq!(input.position, 0);
}

#[test]
fn other_input_is_not_the_command() {
    let mut input = Tokenizer::new(vec![Ok(Token::Word("third".to_string()))]);
    assert_eq!(SecondCommand::parse(&mut input), Ok(None));
    let mut input = Tokenizer::new(vec![Ok(Token::Quote("second".to_string()))]);
    assert_eq!(SecondCommand::parse(&mut input), Ok(None));
    let mut input = Tokenizer::new(Vec::new());
    assert_eq!(SecondCommand::parse(&mut input), Ok(None));
    let mut input = Tokenizer::new(vec![Ok(Token::Dot), Ok(Token::Word("second".to_string()))]);
    assert_eq!(SecondCommand::parse(&mut input), Ok(None));
}

#[test]
fn lexer_error_is_passed_on() {
    let mut input = Tokenizer::new(vec![Err(Error::QuoteInWord)]);
    assert_eq!(SecondCommand::parse(&mut input), Err(Error::QuoteInWord));
    let mut input = Tokenizer::new(vec![Err(Error::UnterminatedString)]);
    assert_eq!(SecondCommand::parse(&mut input), Err(Error::UnterminatedString));
    let mut input = Tokenizer::new(vec![Err(Error::RawString)]);
    assert_eq!(SecondCommand::parse(&mut input), Err(Error::RawString));
}

#[test]
fn parse_looks_at_the_current_position_only() {
    let mut input = Tokenizer {
        items: vec![Ok(Token::Word("second".to_string())), Ok(Token::Comma)],
        position: 1,
    };
    assert_eq!(SecondCommand::parse(&mut input), Ok(None));
    input.position = 2;
    assert_eq!(SecondCommand::parse(&mut input), Ok(None));
}
