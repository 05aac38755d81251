//! The mathematical model of a scan: the text, the two cursor indices and the
//! tokens emitted so far, with the scanning steps as functions on that state
//! and the laws that relate them.

use vstd::prelude::*;
use crate::token::{Category, TokenView};

verus! {

/// The scalar values of a list of tokens, one token after the other.
pub open spec fn lexemes(tokens: Seq<TokenView>) -> Seq<char>
    decreases tokens.len(),
{
    if tokens.len() == 0 {
        Seq::empty()
    } else {
        lexemes(tokens.drop_last()) + tokens.last().lexeme
    }
}

/// The state of a scan. All indices count Unicode scalar values of `text`,
/// never bytes.
pub struct TokenizerView {
    /// The source text.
    pub text: Seq<char>,
    /// Index of the first scalar value that belongs to no token yet.
    pub token_start: nat,
    /// Index of the next scalar value to examine.
    pub token_position: nat,
    /// The tokens emitted so far, in the order of the source.
    pub tokens: Seq<TokenView>,
}

impl TokenizerView {
    /// The state before anything has been examined.
    pub open spec fn initial(text: Seq<char>) -> Self {
        TokenizerView { text, token_start: 0, token_position: 0, tokens: Seq::empty() }
    }

    /// What holds of every state that a scan can reach: the indices are
    /// ordered and inside the text, no token is empty, and the tokens are
    /// exactly the text before `token_start`, cut into pieces.
    pub open spec fn wf(self) -> bool {
        &&& self.token_start <= self.token_position <= self.text.len()
        &&& forall|i: int| 0 <= i < self.tokens.len() ==> (#[trigger] self.tokens[i]).lexeme.len() > 0
        &&& lexemes(self.tokens) == self.text.subrange(0, self.token_start as int)
    }

    /// The number of scalar values in the text.
    pub open spec fn char_count(self) -> nat {
        self.text.len()
    }

    /// The number of scalar values from the cursor to the end of the text.
    pub open spec fn remaining(self) -> nat {
        (self.text.len() - self.token_position) as nat
    }

    /// The scalar values that were passed over since the last token.
    pub open spec fn pending(self) -> Seq<char> {
        self.text.subrange(self.token_start as int, self.token_position as int)
    }

    /// Whether the cursor stands on a scalar value, and not at the end.
    pub open spec fn has_more_data(self) -> bool {
        self.token_position < self.text.len()
    }

    /// The scalar value under the cursor, if there is one.
    pub open spec fn current_char(self) -> Option<char> {
        if self.has_more_data() {
            Some(self.text[self.token_position as int])
        } else {
            None
        }
    }

    /// Whether a scan that was in state `earlier` can be in this state later:
    /// the text is the same, neither index has moved back, and the tokens of
    /// `earlier` are still there, as the first ones.
    pub open spec fn follows(self, earlier: Self) -> bool {
        &&& self.text == earlier.text
        &&& earlier.token_start <= self.token_start
        &&& earlier.token_position <= self.token_position
        &&& earlier.tokens.is_prefix_of(self.tokens)
    }

    /// What emitting the scalar values in `[from, to)` adds to the token
    /// list: one token under `category`, or nothing where the range is empty.
    pub open spec fn span(self, from: nat, to: nat, category: Category) -> Seq<TokenView> {
        if from < to {
            seq![TokenView { lexeme: self.text.subrange(from as int, to as int), category }]
        } else {
            Seq::empty()
        }
    }

    /// The cursor moves by one scalar value, or stays at the end of the text.
    pub open spec fn advance(self) -> Self {
        if self.has_more_data() {
            TokenizerView { token_position: self.token_position + 1, ..self }
        } else {
            self
        }
    }

    /// `advance`, `n` times in a row.
    pub open spec fn advance_n(self, n: nat) -> Self
        decreases n,
    {
        if n == 0 {
            self
        } else {
            self.advance().advance_n((n - 1) as nat)
        }
    }

    /// The cursor moves by `amount` scalar values, or to the end of the text
    /// where fewer remain.
    pub open spec fn skip(self, amount: nat) -> Self {
        TokenizerView {
            token_position: self.token_position + vstd::math::min(
                amount as int,
                self.remaining() as int,
            ) as nat,
            ..self
        }
    }

    /// The pending scalar values become one token under `category`; where
    /// nothing is pending, no token is added.
    pub open spec fn tokenize(self, category: Category) -> Self {
        TokenizerView {
            token_start: self.token_position,
            tokens: self.tokens + self.span(self.token_start, self.token_position, category),
            ..self
        }
    }

    /// The pending scalar values become a `Text` token, and the next `amount`
    /// scalar values, or as many as remain, a token under `category`. An
    /// empty range adds no token.
    pub open spec fn tokenize_next(self, amount: nat, category: Category) -> Self {
        let end: nat = self.skip(amount).token_position;
        TokenizerView {
            text: self.text,
            token_start: end,
            token_position: end,
            tokens: self.tokens + self.span(self.token_start, self.token_position, Category::Text)
                + self.span(self.token_position, end, category),
        }
    }
}

/// Adding a token adds its scalar values at the end.
pub proof fn lemma_lexemes_push(tokens: Seq<TokenView>, token: TokenView)
    ensures
        lexemes(tokens.push(token)) == lexemes(tokens) + token.lexeme,
{
    assert(tokens.push(token).drop_last() == tokens);
}

/// The initial state of every text is well formed.
pub proof fn lemma_initial_wf(text: Seq<char>)
    ensures
        TokenizerView::initial(text).wf(),
{
    assert(lexemes(Seq::<TokenView>::empty()) == text.subrange(0, 0));
}

/// `advance` keeps a state well formed.
pub proof fn lemma_advance_wf(s: TokenizerView)
    requires
        s.wf(),
    ensures
        s.advance().wf(),
{
}

/// `skip` keeps a state well formed.
pub proof fn lemma_skip_wf(s: TokenizerView, amount: nat)
    requires
        s.wf(),
    ensures
        s.skip(amount).wf(),
{
}

/// `tokenize` keeps a state well formed, and leaves nothing pending.
pub proof fn lemma_tokenize_wf(s: TokenizerView, category: Category)
    requires
        s.wf(),
    ensures
        s.tokenize(category).wf(),
        s.tokenize(category).token_start == s.tokenize(category).token_position,
{
    let r = s.tokenize(category);
    if s.token_start < s.token_position {
        let token = TokenView { lexeme: s.pending(), category };
        assert(r.tokens == s.tokens.push(token));
        lemma_lexemes_push(s.tokens, token);
        assert(s.text.subrange(0, s.token_start as int) + s.pending() == s.text.subrange(
            0,
            s.token_position as int,
        ));
    } else {
        assert(r.tokens == s.tokens);
    }
}

/// `tokenize_next` is `tokenize` under `Text`, then `skip`, then `tokenize`
/// under the category asked for.
pub proof fn lemma_tokenize_next_steps(s: TokenizerView, amount: nat, category: Category)
    requires
        s.wf(),
    ensures
        s.tokenize_next(amount, category) == s.tokenize(Category::Text).skip(amount).tokenize(
            category,
        ),
{
    let r = s.tokenize(Category::Text).skip(amount).tokenize(category);
    assert(s.tokenize_next(amount, category).tokens == r.tokens);
}

/// `tokenize_next` keeps a state well formed, and leaves nothing pending.
pub proof fn lemma_tokenize_next_wf(s: TokenizerView, amount: nat, category: Category)
    requires
        s.wf(),
    ensures
        s.tokenize_next(amount, category).wf(),
        s.tokenize_next(amount, category).token_start == s.tokenize_next(
            amount,
            category,
        ).token_position,
{
    lemma_tokenize_next_steps(s, amount, category);
    lemma_tokenize_wf(s, Category::Text);
    lemma_skip_wf(s.tokenize(Category::Text), amount);
    lemma_tokenize_wf(s.tokenize(Category::Text).skip(amount), category);
}

/// No step changes the text, moves an index back, or touches a token that
/// is already there.
pub proof fn lemma_steps_follow(s: TokenizerView, amount: nat, category: Category)
    requires
        s.wf(),
    ensures
        s.advance().follows(s),
        s.skip(amount).follows(s),
        s.tokenize(category).follows(s),
        s.tokenize_next(amount, category).follows(s),
{
}

/// `follows` is reflexive and transitive, so it holds across any number of
/// steps.
pub proof fn lemma_follows_chain(a: TokenizerView, b: TokenizerView, c: TokenizerView)
    ensures
        a.follows(a),
        b.follows(a) && c.follows(b) ==> c.follows(a),
{
}

/// Advancing `n` times moves the cursor by `n` scalar values, or to the end
/// of the text where fewer remain, and changes nothing else.
pub proof fn lemma_advance_n_is_skip(s: TokenizerView, n: nat)
    requires
        s.token_position <= s.text.len(),
    ensures
        s.advance_n(n) == s.skip(n),
    decreases n,
{
    if n > 0 {
        lemma_advance_n_is_skip(s.advance(), (n - 1) as nat);
    }
}

/// `n` calls of `advance` add `n` scalar values to the pending ones, or as
/// many as remain in the text where that is fewer.
pub proof fn lemma_advance_n_pending(s: TokenizerView, n: nat)
    requires
        s.wf(),
    ensures
        s.advance_n(n).wf(),
        s.advance_n(n).pending().len() == s.pending().len() + vstd::math::min(
            n as int,
            s.remaining() as int,
        ),
{
    lemma_advance_n_is_skip(s, n);
}

/// Where `n` calls of `advance`, `n` at least 1, leave exactly `n` scalar
/// values pending, `tokenize` then adds exactly one token, whose lexeme is
/// those `n` scalar values, and `token_start` catches up with the cursor.
/// That is the case whenever nothing was pending before the calls and each
/// of them had a scalar value to pass over.
pub proof fn lemma_advance_n_then_tokenize(s: TokenizerView, n: nat, category: Category)
    requires
        s.wf(),
        n >= 1,
        s.advance_n(n).pending().len() == n,
    ensures
        ({
            let r = s.advance_n(n).tokenize(category);
            &&& r.tokens == s.tokens.push(
                TokenView { lexeme: s.advance_n(n).pending(), category },
            )
            &&& r.tokens.last().lexeme.len() == n
            &&& r.token_start == r.token_position == s.advance_n(n).token_position
            &&& r.text == s.text
        }),
        s.token_start == s.token_position && n <= s.remaining() ==> s.advance_n(n).pending()
            == s.text.subrange(s.token_position as int, (s.token_position + n) as int),
{
    lemma_advance_n_is_skip(s, n);
    lemma_advance_n_pending(s, n);
    let r = s.advance_n(n).tokenize(category);
    assert(r.tokens == s.tokens.push(TokenView { lexeme: s.advance_n(n).pending(), category }));
}

/// Without an `advance` in between, a second `tokenize` changes nothing,
/// whatever its category.
pub proof fn lemma_tokenize_twice(s: TokenizerView, first: Category, second: Category)
    ensures
        s.tokenize(first).tokenize(second) == s.tokenize(first),
{
    assert(s.tokenize(first).tokenize(second).tokens == s.tokenize(first).tokens);
}

} // verus!
