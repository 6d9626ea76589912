use crate::text::{copy_range, text};
use vstd::prelude::*;
use vstd::slice::slice_subrange;
use vstd::string::*;

verus! {

/// What a token is to a specification: its parts and its position.
pub struct TokenView {
    pub parts: Seq<Seq<u8>>,
    pub pos: usize,
}

/// One statement of the source: a mnemonic and its parameters, which the
/// source writes joined by `.`, and the statement's position in the source.
#[derive(Debug, PartialEq, Eq)]
pub struct Token {
    parts: Vec<Vec<u8>>,
    pos: usize,
}

impl View for Token {
    type V = TokenView;

    closed spec fn view(&self) -> TokenView {
        TokenView { parts: parts_view(self.parts@), pos: self.pos }
    }
}

/// The byte strings that a sequence of vectors holds.
pub open spec fn parts_view(parts: Seq<Vec<u8>>) -> Seq<Seq<u8>> {
    Seq::new(parts.len(), |i: int| parts[i]@)
}

/// The pieces of `s` between its separators, left to right and empty ones
/// included, when the pieces before `start` are `done` and the bytes from
/// `start` up to `i` hold no separator.
pub open spec fn split_from(s: Seq<u8>, sep: u8, i: int, start: int, done: Seq<Seq<u8>>) -> Seq<
    Seq<u8>,
>
    decreases s.len() - i,
{
    if i >= s.len() {
        done.push(s.subrange(start, s.len() as int))
    } else if s[i] == sep {
        split_from(s, sep, i + 1, i + 1, done.push(s.subrange(start, i)))
    } else {
        split_from(s, sep, i + 1, start, done)
    }
}

/// The pieces of `s` between its `.` bytes: one more piece than there are
/// dots, so at least one, and an empty piece wherever two dots meet or a dot
/// stands at either end.
pub open spec fn split_parts(s: Seq<u8>) -> Seq<Seq<u8>> {
    split_from(s, 46, 0, 0, Seq::empty())
}

/// Every way of splitting leaves at least one piece.
pub proof fn lemma_split_nonempty(s: Seq<u8>, sep: u8, i: int, start: int, done: Seq<Seq<u8>>)
    requires
        0 <= i <= s.len(),
    ensures
        split_from(s, sep, i, start, done).len() > done.len(),
    decreases s.len() - i,
{
    if i < s.len() {
        if s[i] == sep {
            lemma_split_nonempty(s, sep, i + 1, i + 1, done.push(s.subrange(start, i)));
        } else {
            lemma_split_nonempty(s, sep, i + 1, start, done);
        }
    }
}

/// Pieces put together again with `sep` between each two.
pub open spec fn join(pieces: Seq<Seq<u8>>, sep: u8) -> Seq<u8>
    decreases pieces.len(),
{
    if pieces.len() == 0 {
        Seq::empty()
    } else if pieces.len() == 1 {
        pieces[0]
    } else {
        join(pieces.drop_last(), sep) + seq![sep] + pieces.last()
    }
}

/// No byte of `s` is `sep`.
pub open spec fn free_of(s: Seq<u8>, sep: u8) -> bool {
    forall|j: int| 0 <= j < s.len() ==> s[j] != sep
}

/// Splitting goes on as it began: if the pieces `done`, joined and followed
/// by a separator, are the text before `start`, and no separator stands in
/// them or from `start` up to `i`, then all pieces joined are the text, and
/// no separator stands in any.
pub proof fn lemma_split_from_joins(s: Seq<u8>, sep: u8, i: int, start: int, done: Seq<Seq<u8>>)
    requires
        0 <= start <= i <= s.len(),
        free_of(s.subrange(start, i), sep),
        done.len() == 0 ==> start == 0,
        done.len() > 0 ==> join(done, sep) + seq![sep] == s.take(start),
        forall|k: int| 0 <= k < done.len() ==> free_of(#[trigger] done[k], sep),
    ensures
        join(split_from(s, sep, i, start, done), sep) == s,
        forall|k: int|
            0 <= k < split_from(s, sep, i, start, done).len() ==> free_of(
                #[trigger] split_from(s, sep, i, start, done)[k],
                sep,
            ),
    decreases s.len() - i,
{
    if i >= s.len() {
        let piece = s.subrange(start, s.len() as int);
        let all = done.push(piece);
        assert(all.drop_last() =~= done);
        if done.len() == 0 {
            assert(piece =~= s);
        } else {
            assert(s.take(start) + piece =~= s);
        }
        assert forall|k: int| 0 <= k < all.len() implies free_of(#[trigger] all[k], sep) by {
            if k < done.len() {
                assert(all[k] == done[k]);
            }
        }
    } else if s[i] == sep {
        let piece = s.subrange(start, i);
        let all = done.push(piece);
        assert(all.drop_last() =~= done);
        if done.len() == 0 {
            assert(piece + seq![sep] =~= s.take(i + 1));
        } else {
            assert(s.take(start) + piece + seq![sep] =~= s.take(i + 1));
        }
        assert forall|k: int| 0 <= k < all.len() implies free_of(#[trigger] all[k], sep) by {
            if k < done.len() {
                assert(all[k] == done[k]);
            }
        }
        assert(s.subrange(i + 1, i + 1) =~= Seq::<u8>::empty());
        lemma_split_from_joins(s, sep, i + 1, i + 1, all);
    } else {
        let longer = s.subrange(start, i + 1);
        assert forall|j: int| 0 <= j < longer.len() implies #[trigger] longer[j] != sep by {
            if j < i - start {
                assert(s.subrange(start, i)[j] == s[start + j]);
            }
        }
        lemma_split_from_joins(s, sep, i + 1, start, done);
    }
}

/// The parts of a statement, joined by dots, are the statement, and no part
/// holds a dot.
pub proof fn lemma_split_parts(s: Seq<u8>)
    ensures
        join(split_parts(s), 46) == s,
        forall|k: int| 0 <= k < split_parts(s).len() ==> free_of(#[trigger] split_parts(s)[k], 46),
{
    assert(s.subrange(0, 0) =~= Seq::<u8>::empty());
    lemma_split_from_joins(s, 46, 0, 0, Seq::empty());
}

impl Token {
    /// The token that the statement `text` at position `pos` makes.
    pub fn new(text: &str, pos: usize) -> (t: Token)
        ensures
            t@ == (TokenView { parts: split_parts(text.spec_bytes()), pos }),
            t@.parts.len() >= 1,
    {
        Token::from_bytes(text.as_bytes(), pos)
    }

    /// The token that the statement `text` at position `pos` makes.
    pub fn from_bytes(text: &[u8], pos: usize) -> (t: Token)
        ensures
            t@ == (TokenView { parts: split_parts(text@), pos }),
            t@.parts.len() >= 1,
    {
        let mut parts: Vec<Vec<u8>> = Vec::new();
        let mut start: usize = 0;
        let mut i: usize = 0;
        assert(parts_view(parts@) =~= Seq::<Seq<u8>>::empty());
        while i < text.len()
            invariant
                start <= i <= text.len(),
                split_parts(text@) == split_from(text@, 46, i as int, start as int, parts_view(parts@)),
            decreases text.len() - i,
        {
            if text[i] == 46 {
                let piece = copy_range(text, start, i);
                let ghost before = parts_view(parts@);
                parts.push(piece);
                assert(parts_view(parts@) =~= before.push(text@.subrange(start as int, i as int)));
                start = i + 1;
            }
            i += 1;
        }
        let piece = copy_range(text, start, text.len());
        let ghost before = parts_view(parts@);
        parts.push(piece);
        assert(parts_view(parts@) =~= before.push(text@.subrange(start as int, text@.len() as int)));
        proof {
            lemma_split_nonempty(text@, 46, 0, 0, Seq::empty());
        }
        Token { parts, pos }
    }

    /// The token with the given parts at position `pos`.
    pub fn from_parts(parts: Vec<Vec<u8>>, pos: usize) -> (t: Token)
        ensures
            t@ == (TokenView { parts: parts_view(parts@), pos }),
    {
        Token { parts, pos }
    }

    /// The position of the statement in the source.
    pub fn pos(&self) -> (r: usize)
        ensures
            r == self@.pos,
    {
        self.pos
    }

    /// The number of parts, the mnemonic included.
    pub fn num_parts(&self) -> (r: usize)
        ensures
            r == self@.parts.len(),
    {
        self.parts.len()
    }

    /// The parts, the mnemonic first.
    pub fn parts(&self) -> (r: &Vec<Vec<u8>>)
        ensures
            parts_view(r@) == self@.parts,
    {
        &self.parts
    }

    /// Whether the mnemonic is `word`.
    pub fn named(&self, word: &str) -> (r: bool)
        ensures
            r == mnemonic_is(self@, word),
    {
        self.parts.len() > 0 && crate::text::is_word(self.parts[0].as_slice(), word)
    }

    /// The part at index `i`.
    pub fn part(&self, i: usize) -> (r: &[u8])
        requires
            i < self@.parts.len(),
        ensures
            r@ == self@.parts[i as int],
    {
        self.parts[i].as_slice()
    }
}

/// Whether the mnemonic of `op` is `word`.
pub open spec fn mnemonic_is(op: TokenView, word: &str) -> bool {
    op.parts.len() > 0 && op.parts[0] == text(word)
}

// SOURCE TEXT
// ================================================================================================

/// A byte that separates statements: a space, or one of the control bytes
/// from tab to carriage return.
pub open spec fn is_space(b: u8) -> bool {
    b == 32 || (9 <= b <= 13)
}

/// The statements of `s`, its maximal runs of bytes that are no spaces, left
/// to right, when the statements before `start` are `done` and the bytes
/// from `start` up to `i` hold no space.
pub open spec fn words_from(s: Seq<u8>, i: int, start: int, done: Seq<Seq<u8>>) -> Seq<Seq<u8>>
    decreases s.len() - i,
{
    if i >= s.len() {
        if start < s.len() {
            done.push(s.subrange(start, s.len() as int))
        } else {
            done
        }
    } else if is_space(s[i]) {
        words_from(
            s,
            i + 1,
            i + 1,
            if start < i {
                done.push(s.subrange(start, i))
            } else {
                done
            },
        )
    } else {
        words_from(s, i + 1, start, done)
    }
}

/// A statement: one or more bytes, none of them a space.
pub open spec fn is_statement(word: Seq<u8>) -> bool {
    word.len() > 0 && forall|j: int| 0 <= j < word.len() ==> !is_space(#[trigger] word[j])
}

/// Each of the words is a statement.
pub open spec fn all_statements(words: Seq<Seq<u8>>) -> bool {
    forall|k: int| 0 <= k < words.len() ==> is_statement(#[trigger] words[k])
}

/// Cutting goes on as it began: if the words `done` are statements and no
/// space stands from `start` up to `i`, then all words are statements.
pub proof fn lemma_words_from(s: Seq<u8>, i: int, start: int, done: Seq<Seq<u8>>)
    requires
        0 <= start <= i <= s.len(),
        forall|j: int| start <= j < i ==> !is_space(#[trigger] s[j]),
        all_statements(done),
    ensures
        all_statements(words_from(s, i, start, done)),
    decreases s.len() - i,
{
    if i >= s.len() {
        if start < s.len() {
            let piece = s.subrange(start, s.len() as int);
            assert forall|j: int| 0 <= j < piece.len() implies !is_space(#[trigger] piece[j]) by {
                assert(piece[j] == s[start + j]);
            }
            lemma_push_statement(done, piece);
        }
    } else if is_space(s[i]) {
        if start < i {
            let piece = s.subrange(start, i);
            assert forall|j: int| 0 <= j < piece.len() implies !is_space(#[trigger] piece[j]) by {
                assert(piece[j] == s[start + j]);
            }
            lemma_push_statement(done, piece);
            lemma_words_from(s, i + 1, i + 1, done.push(piece));
        } else {
            lemma_words_from(s, i + 1, i + 1, done);
        }
    } else {
        lemma_words_from(s, i + 1, start, done);
    }
}

proof fn lemma_push_statement(done: Seq<Seq<u8>>, piece: Seq<u8>)
    requires
        all_statements(done),
        is_statement(piece),
    ensures
        all_statements(done.push(piece)),
{
    let all = done.push(piece);
    assert forall|k: int| 0 <= k < all.len() implies is_statement(#[trigger] all[k]) by {
        if k < done.len() {
            assert(all[k] == done[k]);
        }
    }
}

/// Every statement of a source is one or more bytes, none of them a space.
pub proof fn lemma_statements(s: Seq<u8>)
    ensures
        all_statements(words_from(s, 0, 0, Seq::empty())),
{
    lemma_words_from(s, 0, 0, Seq::empty());
}

/// The tokens that statements make, each at its place in their order.
pub open spec fn tokens_of(words: Seq<Seq<u8>>) -> Seq<TokenView> {
    Seq::new(words.len(), |i: int| TokenView { parts: split_parts(words[i]), pos: i as usize })
}

/// The tokens of a source text.
pub open spec fn spec_tokenize(s: Seq<u8>) -> Seq<TokenView> {
    tokens_of(words_from(s, 0, 0, Seq::empty()))
}

/// The models of a sequence of tokens.
pub open spec fn tokens_view(tokens: Seq<Token>) -> Seq<TokenView> {
    Seq::new(tokens.len(), |i: int| tokens[i]@)
}

/// Tokens that are those of some words stay so when the token of one more
/// word is put behind them.
proof fn lemma_push_token(tokens: Seq<Token>, token: Token, done: Seq<Seq<u8>>, word: Seq<u8>)
    requires
        tokens_view(tokens) == tokens_of(done),
        tokens.len() == done.len(),
        token@.parts == split_parts(word),
        token@.pos == done.len(),
    ensures
        tokens_view(tokens.push(token)) == tokens_of(done.push(word)),
{
    let longer = tokens.push(token);
    let words = done.push(word);
    assert forall|k: int| 0 <= k < longer.len() implies tokens_view(longer)[k] == tokens_of(
        words,
    )[k] by {
        if k < tokens.len() {
            assert(tokens_view(tokens)[k] == tokens_of(done)[k]);
            assert(longer[k] == tokens[k] && words[k] == done[k]);
            assert(tokens_view(longer)[k] == tokens[k]@);
            assert(tokens_view(tokens)[k] == tokens[k]@);
            assert(tokens_of(words)[k] == tokens_of(done)[k]);
        } else {
            assert(longer[k] == token && words[k] == word);
            assert(tokens_view(longer)[k] =~= tokens_of(words)[k]);
        }
    }
    assert(tokens_view(longer) =~= tokens_of(words));
}

fn space(b: u8) -> (r: bool)
    ensures
        r == is_space(b),
{
    b == 32 || (9 <= b && b <= 13)
}

/// Splits a source text into its tokens.
pub fn tokenize(source: &[u8]) -> (tokens: Vec<Token>)
    ensures
        tokens_view(tokens@) == spec_tokenize(source@),
{
    let mut tokens: Vec<Token> = Vec::new();
    let ghost mut done: Seq<Seq<u8>> = Seq::empty();
    let mut start: usize = 0;
    let mut i: usize = 0;
    assert(tokens_view(tokens@) =~= tokens_of(done));
    while i < source.len()
        invariant
            start <= i <= source@.len(),
            spec_tokenize(source@) == tokens_of(words_from(source@, i as int, start as int, done)),
            tokens_view(tokens@) == tokens_of(done),
            tokens@.len() == done.len(),
        decreases source@.len() - i,
    {
        if space(source[i]) {
            if start < i {
                let token = Token::from_bytes(slice_subrange(source, start, i), tokens.len());
                proof {
                    lemma_push_token(tokens@, token, done, source@.subrange(start as int, i as int));
                    done = done.push(source@.subrange(start as int, i as int));
                }
                tokens.push(token);
            }
            start = i + 1;
        }
        i += 1;
    }
    if start < source.len() {
        let token = Token::from_bytes(slice_subrange(source, start, source.len()), tokens.len());
        proof {
            lemma_push_token(
                tokens@,
                token,
                done,
                source@.subrange(start as int, source@.len() as int),
            );
            done = done.push(source@.subrange(start as int, source@.len() as int));
        }
        tokens.push(token);
    }
    tokens
}

} // verus!
