//! Token streams as the generator sees them.
//!
//! The streams themselves are `proc_macro2` values, which Verus cannot look
//! into. What a stream holds is described by a mathematical model,
//! [`Tree`], and the operations of `proc_macro2` that the generator relies
//! on are wrapped here, each with a contract over that model. These
//! contracts are not proved: they say what `proc_macro2` does, as its source
//! shows it with the `proc-macro` feature off. All other code of the crate
//! is proved against them.

use proc_macro2::{Group, Ident, Literal, Punct, Span, TokenStream, TokenTree};
use vstd::prelude::*;

verus! {

/// The brackets around a group.
#[derive(Clone, Copy, Debug, PartialEq, Eq, Structural)]
pub enum Delimiter {
    /// `( ... )`
    Parenthesis,
    /// `{ ... }`
    Brace,
    /// `[ ... ]`
    Bracket,
    /// No visible brackets.
    Invisible,
}

/// Whether a punctuation character is followed by a gap.
#[derive(Clone, Copy, Debug, PartialEq, Eq, Structural)]
pub enum Spacing {
    /// The next token stands apart, as after `+` in `+ 1`.
    Alone,
    /// The next token follows at once, as after `>` in `>=`.
    Joint,
}

/// What one token tree says, apart from where it stood in the source.
pub enum Tree {
    /// A bracketed sequence of trees.
    Group { delimiter: Delimiter, inner: Seq<Tree> },
    /// A word, spelled as it prints.
    Ident { name: Seq<char> },
    /// One punctuation character.
    Punct { ch: char, spacing: Spacing },
    /// A literal, spelled as it prints.
    Literal { text: Seq<char> },
}

/// The part of a tree that the scanners look at.
pub enum Kind {
    /// A group and what it holds, whatever its brackets.
    Group { inner: Seq<Tree> },
    /// A word and its spelling.
    Ident { name: Seq<char> },
    /// A punctuation character, whatever follows it.
    Punct { ch: char },
    /// A literal, whatever it spells.
    Literal,
}

impl Tree {
    /// What a scanner sees of the tree.
    pub open spec fn kind(self) -> Kind {
        match self {
            Tree::Group { inner, .. } => Kind::Group { inner },
            Tree::Ident { name } => Kind::Ident { name },
            Tree::Punct { ch, .. } => Kind::Punct { ch },
            Tree::Literal { .. } => Kind::Literal,
        }
    }
}

impl Kind {
    /// Whether the token is the punctuation `,`.
    pub open spec fn is_comma(self) -> bool {
        self == (Kind::Punct { ch: ',' })
    }
}

/// The kinds of a sequence of trees, one for one.
pub open spec fn kinds_of(trees: Seq<Tree>) -> Seq<Kind> {
    Seq::new(trees.len(), |i: int| trees[i].kind())
}

/// The word `name` as a tree.
pub open spec fn word(name: &str) -> Tree {
    Tree::Ident { name: name@ }
}

/// The punctuation `ch` as a tree, followed by a gap.
pub open spec fn mark(ch: char) -> Tree {
    Tree::Punct { ch, spacing: Spacing::Alone }
}

/// The punctuation `ch` as a tree, glued to the token after it.
pub open spec fn glued(ch: char) -> Tree {
    Tree::Punct { ch, spacing: Spacing::Joint }
}

/// The number `text` as a tree.
pub open spec fn number(text: &str) -> Tree {
    Tree::Literal { text: text@ }
}

/// `( inner )` as a tree.
pub open spec fn parens(inner: Seq<Tree>) -> Tree {
    Tree::Group { delimiter: Delimiter::Parenthesis, inner }
}

/// `{ inner }` as a tree.
pub open spec fn braces(inner: Seq<Tree>) -> Tree {
    Tree::Group { delimiter: Delimiter::Brace, inner }
}

/// The characters that `proc_macro2` accepts as punctuation.
pub open spec fn is_punctuation(ch: char) -> bool {
    ch == '!' || ch == '#' || ch == '$' || ch == '%' || ch == '&' || ch == '\'' || ch == '*'
        || ch == '+' || ch == ',' || ch == '-' || ch == '.' || ch == '/' || ch == ':' || ch == ';'
        || ch == '<' || ch == '=' || ch == '>' || ch == '?' || ch == '@' || ch == '^' || ch == '|'
        || ch == '~'
}

/// `a` to `z` and `A` to `Z`.
pub open spec fn is_ascii_letter(ch: char) -> bool {
    ('a' <= ch && ch <= 'z') || ('A' <= ch && ch <= 'Z')
}

/// `0` to `9`.
pub open spec fn is_ascii_digit(ch: char) -> bool {
    '0' <= ch && ch <= '9'
}

/// Words made of ASCII letters, digits and `_` that begin with a letter:
/// every one of them is an identifier.
pub open spec fn is_plain_word(name: Seq<char>) -> bool {
    &&& name.len() > 0
    &&& is_ascii_letter(name[0])
    &&& forall|i: int|
        0 <= i < name.len() ==> is_ascii_letter(#[trigger] name[i]) || is_ascii_digit(name[i])
            || name[i] == '_'
}

/// Numbers of the form digit, point, digit: every one of them is a literal.
pub open spec fn is_plain_number(text: Seq<char>) -> bool {
    &&& text.len() == 3
    &&& is_ascii_digit(text[0])
    &&& text[1] == '.'
    &&& is_ascii_digit(text[2])
}

#[verifier::external_type_specification]
#[verifier::external_body]
pub struct ExTokenStream(TokenStream);

#[verifier::external_type_specification]
#[verifier::external_body]
pub struct ExSpan(Span);

/// The token trees that a stream holds, in order.
pub uninterp spec fn stream_trees(stream: TokenStream) -> Seq<Tree>;

/// The source location of each token tree of a stream, in order.
pub uninterp spec fn stream_spans(stream: TokenStream) -> Seq<Span>;

/// The text that `proc_macro2` prints for a sequence of trees.
pub uninterp spec fn rendered(trees: Seq<Tree>) -> Seq<char>;

/// The spelling of the string literal whose value is `text`.
pub uninterp spec fn quoted(text: Seq<char>) -> Seq<char>;

/// One token of a stream, as far as the scanners look at it, and where it
/// stood in the source.
#[derive(Debug)]
pub enum Token {
    /// A group and the stream between its brackets.
    Group { stream: TokenStream, span: Span },
    /// A word and its spelling.
    Ident { name: String, span: Span },
    /// A punctuation character.
    Punct { ch: char, span: Span },
    /// A literal.
    Literal { span: Span },
}

impl View for Token {
    type V = Kind;

    open spec fn view(&self) -> Kind {
        match self {
            Token::Group { stream, .. } => Kind::Group { inner: stream_trees(*stream) },
            Token::Ident { name, .. } => Kind::Ident { name: name@ },
            Token::Punct { ch, .. } => Kind::Punct { ch: *ch },
            Token::Literal { .. } => Kind::Literal,
        }
    }
}

impl Token {
    /// The location that the token carries.
    pub open spec fn location(self) -> Span {
        match self {
            Token::Group { span, .. } => span,
            Token::Ident { span, .. } => span,
            Token::Punct { span, .. } => span,
            Token::Literal { span } => span,
        }
    }

    /// Where the token stood in the source.
    pub fn span(&self) -> (span: Span)
        ensures
            span == self.location(),
    {
        match self {
            Token::Group { span, .. } => *span,
            Token::Ident { span, .. } => *span,
            Token::Punct { span, .. } => *span,
            Token::Literal { span } => *span,
        }
    }
}

/// The kinds of a sequence of tokens, one for one.
pub open spec fn kinds(tokens: Seq<Token>) -> Seq<Kind> {
    Seq::new(tokens.len(), |i: int| tokens[i]@)
}

/// The locations of a sequence of tokens, one for one.
pub open spec fn locations(tokens: Seq<Token>) -> Seq<Span> {
    Seq::new(tokens.len(), |i: int| tokens[i].location())
}

/// Iterates over a `TokenStream` (`into_iter`) and reads each tree through
/// its getters: `Group::stream`, `Ident::to_string`, `Punct::as_char`, and
/// `span` of each. Claims that the tokens handed out show, one for one, the
/// kinds and the locations of the trees of the stream.
#[verifier::external_body]
pub(crate) fn tokens_of(stream: &TokenStream) -> (tokens: Vec<Token>)
    ensures
        kinds(tokens@) == kinds_of(stream_trees(*stream)),
        locations(tokens@) == stream_spans(*stream),
{
    stream.clone().into_iter().map(|tree| match tree {
        TokenTree::Group(g) => Token::Group { stream: g.stream(), span: g.span() },
        TokenTree::Ident(i) => Token::Ident { name: i.to_string(), span: i.span() },
        TokenTree::Punct(p) => Token::Punct { ch: p.as_char(), span: p.span() },
        TokenTree::Literal(l) => Token::Literal { span: l.span() },
    }).collect()
}

/// Iterates over a `TokenStream` (`into_iter`) and makes each tree a stream
/// of its own (`TokenStream::from`). Claims that the streams handed out
/// hold, one for one, the trees of the stream.
#[verifier::external_body]
pub(crate) fn trees_of(stream: &TokenStream) -> (trees: Vec<TokenStream>)
    ensures
        trees@.len() == stream_trees(*stream).len(),
        forall|i: int|
            0 <= i < trees@.len() ==> stream_trees(#[trigger] trees@[i]) == seq![
                stream_trees(*stream)[i],
            ],
{
    stream.clone().into_iter().map(TokenStream::from).collect()
}

/// `TokenStream::new`. Claims that the new stream holds no tree.
#[verifier::external_body]
pub(crate) fn empty_stream() -> (stream: TokenStream)
    ensures
        stream_trees(stream) == Seq::<Tree>::empty(),
{
    TokenStream::new()
}

/// Extends a `TokenStream` by a copy of another (`Extend::extend`). Claims
/// that the trees of the second follow those of the first.
#[verifier::external_body]
pub(crate) fn append(tokens: &mut TokenStream, part: &TokenStream)
    ensures
        stream_trees(*final(tokens)) == stream_trees(*old(tokens)) + stream_trees(*part),
{
    tokens.extend([part.clone()]);
}

/// Extends a `TokenStream` by `Ident::new(name, Span::call_site())`, which
/// panics unless `name` is an identifier. Claims that one word, spelled
/// `name`, is added at the end.
#[verifier::external_body]
pub(crate) fn push_word(tokens: &mut TokenStream, name: &str)
    requires
        is_plain_word(name@),
    ensures
        stream_trees(*final(tokens)) == stream_trees(*old(tokens)).push(word(name)),
{
    tokens.extend([Ident::new(name, Span::call_site())]);
}

/// Extends a `TokenStream` by `Punct::new(ch, spacing)`, which panics
/// unless `ch` is punctuation. Claims that this one character is added at
/// the end, with this spacing.
#[verifier::external_body]
pub(crate) fn push_punct(tokens: &mut TokenStream, ch: char, spacing: Spacing)
    requires
        is_punctuation(ch),
    ensures
        stream_trees(*final(tokens)) == stream_trees(*old(tokens)).push(
            Tree::Punct { ch, spacing },
        ),
{
    let spacing = match spacing {
        Spacing::Alone => proc_macro2::Spacing::Alone,
        Spacing::Joint => proc_macro2::Spacing::Joint,
    };
    tokens.extend([Punct::new(ch, spacing)]);
}

/// Extends a `TokenStream` by the `Literal` that `text` parses to
/// (`Literal::from_str`). Claims that a number of this plain form parses,
/// and that one literal, spelled `text`, is added at the end.
#[verifier::external_body]
pub(crate) fn push_number(tokens: &mut TokenStream, text: &str)
    requires
        is_plain_number(text@),
    ensures
        stream_trees(*final(tokens)) == stream_trees(*old(tokens)).push(number(text)),
{
    tokens.extend(text.parse::<Literal>());
}

/// Extends a `TokenStream` by `Literal::string(text)`. Claims that one
/// literal is added at the end, spelled as that function spells `text`.
#[verifier::external_body]
pub(crate) fn push_string(tokens: &mut TokenStream, text: &str)
    ensures
        stream_trees(*final(tokens)) == stream_trees(*old(tokens)).push(
            Tree::Literal { text: quoted(text@) },
        ),
{
    tokens.extend([Literal::string(text)]);
}

/// Extends a `TokenStream` by `Group::new(delimiter, inner)`. Claims that
/// one group is added at the end, with these brackets around the trees of
/// `inner`.
#[verifier::external_body]
pub(crate) fn push_group(tokens: &mut TokenStream, delimiter: Delimiter, inner: TokenStream)
    ensures
        stream_trees(*final(tokens)) == stream_trees(*old(tokens)).push(
            Tree::Group { delimiter, inner: stream_trees(inner) },
        ),
{
    let brackets = match delimiter {
        Delimiter::Parenthesis => proc_macro2::Delimiter::Parenthesis,
        Delimiter::Brace => proc_macro2::Delimiter::Brace,
        Delimiter::Bracket => proc_macro2::Delimiter::Bracket,
        Delimiter::Invisible => proc_macro2::Delimiter::None,
    };
    tokens.extend([Group::new(brackets, inner)]);
}

/// `TokenStream::to_string`. Claims that the text depends on the trees of
/// the stream alone, not on where they stood in the source.
#[verifier::external_body]
pub(crate) fn render(stream: &TokenStream) -> (text: String)
    ensures
        text@ == rendered(stream_trees(*stream)),
{
    stream.to_string()
}

/// `Span::call_site`: the location that stands for the whole invocation.
/// Nothing is claimed of it.
#[verifier::external_body]
pub(crate) fn call_site() -> Span {
    Span::call_site()
}

/// A stream of the trees of `stream` from `from` up to `to`.
pub(crate) fn part_of(stream: &TokenStream, from: usize, to: usize) -> (part: TokenStream)
    requires
        from <= to <= stream_trees(*stream).len(),
    ensures
        stream_trees(part) == stream_trees(*stream).subrange(from as int, to as int),
{
    let trees = trees_of(stream);
    let mut part = empty_stream();
    let mut i: usize = from;
    while i < to
        invariant
            from <= i <= to <= trees.len(),
            trees@.len() == stream_trees(*stream).len(),
            forall|i: int|
                0 <= i < trees@.len() ==> stream_trees(#[trigger] trees@[i]) == seq![
                    stream_trees(*stream)[i],
                ],
            stream_trees(part) == stream_trees(*stream).subrange(from as int, i as int),
        decreases to - i,
    {
        append(&mut part, &trees[i]);
        i += 1;
    }
    part
}

} // verus!
