use vstd::prelude::*;

verus! {

/// The label a lexer attaches to a token. The engine gives no meaning to the
/// variants; it only uses `Text` for input that a lexer has passed over
/// without classifying it.
#[derive(Clone, Copy, Debug, PartialEq, Eq, Structural)]
pub enum Category {
    Whitespace,
    Identifier,
    Keyword,
    Brace,
    Bracket,
    Parenthesis,
    Operator,
    Integer,
    Float,
    String,
    Boolean,
    Text,
    Comment,
    Function,
    Method,
    Call,
    Literal,
    Key,
}

/// The mathematical value of a [`Token`]: its scalar values and its label.
pub struct TokenView {
    pub lexeme: Seq<char>,
    pub category: Category,
}

/// A classified piece of the source text.
#[derive(Debug)]
pub struct Token {
    /// The scalar values that the token covers, exactly as they stand in the
    /// text.
    pub lexeme: String,
    /// The label that the lexer gave them.
    pub category: Category,
}

impl View for Token {
    type V = TokenView;

    open spec fn view(&self) -> TokenView {
        TokenView { lexeme: self.lexeme@, category: self.category }
    }
}

/// The values of a list of tokens, in the same order.
pub open spec fn token_views(tokens: Seq<Token>) -> Seq<TokenView> {
    tokens.map_values(|token: Token| token@)
}

impl Clone for Token {
    fn clone(&self) -> (res: Self)
        ensures
            res == *self,
    {
        Token { lexeme: self.lexeme.clone(), category: self.category }
    }
}

/// Two tokens are equal when they cover the same scalar values under the
/// same category.
impl PartialEq for Token {
    fn eq(&self, other: &Self) -> (res: bool) {
        self.lexeme == other.lexeme && self.category == other.category
    }
}

impl vstd::std_specs::cmp::PartialEqSpecImpl for Token {
    open spec fn obeys_eq_spec() -> bool {
        true
    }

    open spec fn eq_spec(&self, other: &Self) -> bool {
        self.lexeme@ == other.lexeme@ && self.category == other.category
    }
}

} // verus!
