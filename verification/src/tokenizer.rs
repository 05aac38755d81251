//! The scanning engine: a cursor over the Unicode scalar values of a text and
//! the list of tokens emitted so far.

use vstd::prelude::*;
use crate::model::{
    lemma_initial_wf, lemma_tokenize_next_steps, lemma_tokenize_wf, TokenizerView,
};
use crate::token::{token_views, Category, Token, TokenView};

verus! {

/// `String::push` of the standard library: the string afterwards is the
/// string before with `ch` added as its last scalar value. Verus takes this
/// on trust.
pub assume_specification[ std::string::String::push ](s: &mut std::string::String, ch: char)
    ensures
        final(s)@ == old(s)@.push(ch),
;

/// A scan over one text: the text, a cursor, and the tokens emitted so far.
///
/// Lexers for single languages and formats drive it with `advance`,
/// `current_char`, `tokenize` and `tokenize_next`. Every index counts Unicode
/// scalar values, so a character of several bytes is one unit. What the
/// fields hold is `self@`, and `self@.wf()` holds of every tokenizer at all
/// times.
pub struct Tokenizer {
    data: String,
    chars: Vec<char>,
    char_count: usize,
    token_position: usize,
    emitted: Emitted,
}

/// The tokens made so far and the index at which the next one starts. The
/// tokens are the text before that index, so the two change together and
/// are kept as one value.
struct Emitted {
    tokens: Vec<Token>,
    token_start: usize,
}

/// One state of a lexer that is written as a state machine.
///
/// A state works on the tokenizer through its scanning primitives and then
/// names the state to run next, or `None` when the scan is complete. The
/// lexer's own loop runs the states one after the other. Nothing is emitted
/// on a state's behalf: what it leaves pending when it returns `None` is in
/// no token.
pub trait StateFunction: Sized {
    /// Runs this state on the tokenizer and returns the state that follows,
    /// or `None` to end the scan.
    fn step(self, tokenizer: &mut Tokenizer) -> (next: Option<Self>);
}

impl View for Tokenizer {
    type V = TokenizerView;

    closed spec fn view(&self) -> TokenizerView {
        TokenizerView {
            text: self.data@,
            token_start: self.emitted.token_start as nat,
            token_position: self.token_position as nat,
            tokens: token_views(self.emitted.tokens@),
        }
    }
}

/// Decodes a text into its scalar values.
fn scalars(data: &str) -> (chars: Vec<char>)
    ensures
        chars@ == data@,
{
    let mut chars: Vec<char> = Vec::new();
    for c in it: data.chars()
        invariant
            it.seq() == data@,
            chars@ == data@.take(it.index()),
    {
        chars.push(c);
    }
    chars
}

/// Collects the scalar values in `[from, to)` into a string.
fn lexeme_of(chars: &Vec<char>, from: usize, to: usize) -> (lexeme: String)
    requires
        from <= to <= chars.len(),
    ensures
        lexeme@ == chars@.subrange(from as int, to as int),
{
    let mut lexeme = String::new();
    let mut i: usize = from;
    while i < to
        invariant
            from <= i <= to <= chars.len(),
            lexeme@ == chars@.subrange(from as int, i as int),
        decreases to - i,
    {
        lexeme.push(chars[i]);
        i += 1;
    }
    lexeme
}

/// Starts a scan of `data`: the cursor is on its first scalar value and no
/// token has been emitted.
pub fn new(data: &str) -> (tokenizer: Tokenizer)
    ensures
        tokenizer@ == TokenizerView::initial(data@),
        tokenizer@.char_count() == data@.len(),
        tokenizer@.wf(),
{
    let chars = scalars(data);
    let char_count: usize = chars.len();
    let emitted = Emitted { tokens: Vec::new(), token_start: 0 };
    proof {
        lemma_initial_wf(data@);
        assert(token_views(emitted.tokens@) == Seq::<TokenView>::empty());
    }
    Tokenizer { data: data.to_owned(), chars, char_count, token_position: 0, emitted }
}

impl Tokenizer {
    /// The decoded scalar values and their count agree with the text, and
    /// the state is well formed.
    #[verifier::type_invariant]
    spec fn inv(&self) -> bool {
        &&& self.chars@ == self.data@
        &&& self.char_count == self.chars.len()
        &&& self@.wf()
    }

    /// The text that is scanned.
    pub fn data(&self) -> (data: &str)
        ensures
            data@ == self@.text,
            self@.wf(),
    {
        proof {
            use_type_invariant(self);
        }
        self.data.as_str()
    }

    /// The number of Unicode scalar values in the text.
    pub fn char_count(&self) -> (count: usize)
        ensures
            count == self@.char_count(),
            self@.wf(),
    {
        proof {
            use_type_invariant(self);
        }
        self.char_count
    }

    /// The index of the first scalar value that is in no token yet.
    pub fn token_start(&self) -> (start: usize)
        ensures
            start == self@.token_start,
            self@.wf(),
    {
        proof {
            use_type_invariant(self);
        }
        self.emitted.token_start
    }

    /// The index of the scalar value under the cursor.
    pub fn token_position(&self) -> (position: usize)
        ensures
            position == self@.token_position,
            self@.wf(),
    {
        proof {
            use_type_invariant(self);
        }
        self.token_position
    }

    /// A copy of the tokens emitted so far, in the order of the text.
    pub fn tokens(&self) -> (tokens: Vec<Token>)
        ensures
            token_views(tokens@) == self@.tokens,
            self@.wf(),
    {
        proof {
            use_type_invariant(self);
        }
        self.emitted.tokens.clone()
    }

    /// Moves the cursor to the next scalar value. At the end of the text it
    /// stays where it is.
    pub fn advance(&mut self)
        ensures
            final(self)@ == old(self)@.advance(),
            final(self)@.wf(),
            final(self)@.follows(old(self)@),
            !old(self)@.has_more_data() ==> final(self)@ == old(self)@,
    {
        proof {
            use_type_invariant(&*self);
        }
        if self.has_more_data() {
            self.token_position += 1;
        }
    }

    /// Whether the cursor is on a scalar value, and not at the end of the
    /// text.
    pub fn has_more_data(&self) -> (more: bool)
        ensures
            more == self@.has_more_data(),
            self@.wf(),
    {
        proof {
            use_type_invariant(self);
        }
        self.token_position < self.char_count
    }

    /// The scalar value under the cursor, or `None` at the end of the text.
    pub fn current_char(&self) -> (current: Option<char>)
        ensures
            current == self@.current_char(),
            self@.wf(),
    {
        proof {
            use_type_invariant(self);
        }
        if self.has_more_data() {
            Some(self.chars[self.token_position])
        } else {
            None
        }
    }

    /// Emits what the cursor has passed over since the last token as one
    /// token under `category`. Where it has passed over nothing, no token is
    /// emitted and nothing changes.
    pub fn tokenize(&mut self, category: Category)
        ensures
            final(self)@ == old(self)@.tokenize(category),
            final(self)@.wf(),
            final(self)@.follows(old(self)@),
            old(self)@.token_start == old(self)@.token_position ==> final(self)@ == old(self)@,
    {
        let ghost before = self@;
        proof {
            use_type_invariant(&*self);
            lemma_tokenize_wf(before, category);
        }
        if self.emitted.token_start != self.token_position {
            let token = Token {
                lexeme: lexeme_of(&self.chars, self.emitted.token_start, self.token_position),
                category,
            };
            // `Vec::push` may unwind, so it cannot work on a field of a value
            // with a type invariant. The emitted part is taken out, extended
            // and put back; meanwhile an empty list with start 0 stands in
            // for it, which the invariant admits as well.
            let mut emitted = Emitted { tokens: Vec::new(), token_start: 0 };
            proof {
                lemma_initial_wf(self.data@);
            }
            core::mem::swap(&mut self.emitted, &mut emitted);
            emitted.tokens.push(token);
            emitted.token_start = self.token_position;
            proof {
                assert(token_views(emitted.tokens@) == before.tokenize(category).tokens);
            }
            core::mem::swap(&mut self.emitted, &mut emitted);
        }
    }

    /// Emits what the cursor has passed over as a `Text` token, then moves
    /// the cursor over the next `amount` scalar values, or over all that
    /// remain where that is fewer, and emits those under `category`. Neither
    /// token is emitted where its range is empty.
    pub fn tokenize_next(&mut self, amount: usize, category: Category)
        ensures
            final(self)@ == old(self)@.tokenize_next(amount as nat, category),
            final(self)@.wf(),
            final(self)@.follows(old(self)@),
            final(self)@.token_position == old(self)@.token_position + vstd::math::min(
                amount as int,
                old(self)@.remaining() as int,
            ),
    {
        proof {
            use_type_invariant(&*self);
            lemma_tokenize_next_steps(self@, amount as nat, category);
        }
        self.tokenize(Category::Text);
        proof {
            use_type_invariant(&*self);
        }
        let remaining: usize = self.char_count - self.token_position;
        if amount < remaining {
            self.token_position += amount;
        } else {
            self.token_position = self.char_count;
        }
        self.tokenize(category);
    }
}

} // verus!
