use luthor::token::{Category, Token};
use luthor::tokenizer::{new, StateFunction, Tokenizer};

/// The states of a lexer that splits a text into words and runs of spaces.
#[derive(Clone, Copy, Debug, PartialEq)]
enum Words {
    Start,
    InWord,
    InSpace,
}

impl StateFunction for Words {
    fn step(self, tokenizer: &mut Tokenizer) -> Option<Self> {
        match (self, tokenizer.current_char()) {
            (Words::Start, None) => None,
            (Words::Start, Some(' ')) => Some(Words::InSpace),
            (Words::Start, Some(_)) => Some(Words::InWord),
            (Words::InWord, Some(c)) if c != ' ' => {
                tokenizer.advance();
                Some(Words::InWord)
            }
            (Words::InWord, _) => {
                tokenizer.tokenize(Category::Identifier);
                Some(Words::Start)
            }
            (Words::InSpace, Some(' ')) => {
                tokenizer.advance();
                Some(Words::InSpace)
            }
            (Words::InSpace, _) => {
                tokenizer.tokenize(Category::Whitespace);
                Some(Words::Start)
            }
        }
    }
}

/// A state that passes over two scalar values and stops without emitting.
struct Careless;

impl StateFunction for Careless {
    fn step(self, tokenizer: &mut Tokenizer) -> Option<Self> {
        tokenizer.tokenize_next(1, Category::Keyword);
        tokenizer.advance();
        tokenizer.advance();
        None
    }
}

fn run<S: StateFunction>(initial: S, tokenizer: &mut Tokenizer) {
    let mut state = Some(initial);
    while let Some(current) = state {
        state = current.step(tokenizer);
    }
}

fn token(lexeme: &str, category: Category) -> Token {
    Token { lexeme: lexeme.to_string(), category }
}

#[test]
fn states_run_until_one_returns_none() {
    let mut tokenizer = new("été  à la mer");
    run(Words::Start, &mut tokenizer);
    assert_eq!(
        tokenizer.tokens(),
        vec![
            token("été", Category::Identifier),
            token("  ", Category::Whitespace),
            token("à", Category::Identifier),
            token(" ", Category::Whitespace),
            token("la", Category::Identifier),
            token(" ", Category::Whitespace),
            token("mer", Category::Identifier),
        ]
    );
    assert_eq!(tokenizer.has_more_data(), false);
    assert_eq!(tokenizer.token_start(), tokenizer.char_count());
}

#[test]
fn a_single_step_names_the_next_state() {
    let mut tokenizer = new(" x");
    assert_eq!(Words::Start.step(&mut tokenizer), Some(Words::InSpace));
    assert_eq!(Words::InSpace.step(&mut tokenizer), Some(Words::InSpace));
    assert_eq!(tokenizer.token_position(), 1);
    assert_eq!(Words::InSpace.step(&mut tokenizer), Some(Words::Start));
    assert_eq!(tokenizer.tokens(), vec![token(" ", Category::Whitespace)]);
    let mut empty = new("");
    assert_eq!(Words::Start.step(&mut empty), None);
}

#[test]
fn pending_text_of_the_last_state_is_in_no_token() {
    let mut tokenizer = new("abcdef");
    run(Careless, &mut tokenizer);
    assert_eq!(tokenizer.tokens(), vec![token("a", Category::Keyword)]);
    assert_eq!(tokenizer.token_start(), 1);
    assert_eq!(tokenizer.token_position(), 3);
}
