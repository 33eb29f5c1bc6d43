//! The generator: attributes, breakpoints, and the expression built from
//! them.

use crate::attributes::{
    attributes_lie_within, attributes_of, scan_attributes, Attributes, Curve, Settings,
};
use crate::breakpoints::{breakpoints_from, scan_breakpoints, Point};
use crate::builder::{express, expression, one_word};
use crate::tokens::{
    empty_stream, kinds, kinds_of, part_of, push_string, quoted, render, rendered, stream_spans,
    stream_trees, tokens_of, word, Kind, Tree,
};
use proc_macro2::{Span, TokenStream};
use vstd::prelude::*;

verus! {

/// A message for the user and the place it is about.
#[derive(Debug)]
pub struct SpannedError {
    pub string: String,
    pub span: Span,
}

/// Why an invocation is turned down. `at` counts the tokens of the
/// invocation from 0.
pub enum Failure {
    /// The word at `at` is no attribute.
    UnknownAttribute { name: Seq<char>, at: int },
    /// No identifier follows an `@`; `at` is the token found in its place,
    /// or the `@` itself where it is the last token.
    MissingRenameTarget { at: int },
    /// The group at `at` holds no comma.
    MalformedGroup { at: int },
    /// The token at `at` is neither a comma nor a group.
    UnexpectedToken { at: int },
    /// No group was given.
    EmptyBreakpointList,
    /// The cardinal spline was asked for.
    UnsupportedCurve,
}

impl Failure {
    /// The text shown to the user.
    pub open spec fn message(self) -> Seq<char> {
        match self {
            Failure::UnknownAttribute { name, .. } => "Unknown attribute "@ + name + "."@,
            Failure::MissingRenameTarget { .. } => "Expected x variable."@,
            Failure::MalformedGroup { .. } => "Expected 2 values separated by comma."@,
            Failure::UnexpectedToken { .. } => "Expected () or []."@,
            Failure::EmptyBreakpointList => "Expected at least one item."@,
            Failure::UnsupportedCurve => "Cardinal spline is currently not supported!"@,
        }
    }

    /// The token that the failure points at, where it points at one.
    pub open spec fn at(self) -> Option<int> {
        match self {
            Failure::UnknownAttribute { at, .. } => Some(at),
            Failure::MissingRenameTarget { at } => Some(at),
            Failure::MalformedGroup { at } => Some(at),
            Failure::UnexpectedToken { at } => Some(at),
            Failure::EmptyBreakpointList => None,
            Failure::UnsupportedCurve => None,
        }
    }
}

impl SpannedError {
    /// The error carries the message of `failure` and, where the failure
    /// points at a token, the location of that token.
    pub open spec fn reports(self, failure: Failure, spans: Seq<Span>) -> bool {
        &&& self.string@ == failure.message()
        &&& failure.at() matches Some(at) ==> self.span == spans[at]
    }
}

/// The identifier that names the variable: the one that the settings point
/// at, or `x`.
pub open spec fn variable_name(trees: Seq<Tree>, settings: Settings) -> Seq<Tree> {
    match settings.variable {
        Some(at) => seq![trees[at]],
        None => seq![word("x")],
    }
}

/// The result in the form that the settings ask for: the expression
/// itself, or one string literal that holds its text.
pub open spec fn finished(settings: Settings, expression: Seq<Tree>) -> Seq<Tree> {
    if settings.stringify {
        seq![Tree::Literal { text: quoted(rendered(expression)) }]
    } else {
        expression
    }
}

/// What an invocation is compiled to: the attributes are read, then the
/// breakpoints, then the expression is built and put in its final form.
/// The first stage that fails decides the failure.
pub open spec fn generated(trees: Seq<Tree>) -> Result<Seq<Tree>, Failure> {
    match attributes_of(kinds_of(trees)) {
        Err(failure) => Err(failure),
        Ok((settings, next)) => match breakpoints_from(kinds_of(trees), next, Seq::empty()) {
            Err(failure) => Err(failure),
            Ok(points) => match expression(settings, variable_name(trees, settings), points) {
                Err(failure) => Err(failure),
                Ok(curve) => Ok(finished(settings, curve)),
            },
        },
    }
}

/// `r` is a right answer to the invocation that holds `trees` at `spans`:
/// the generated expression, or an error that reports the failure.
pub open spec fn answers(
    r: Result<TokenStream, SpannedError>,
    trees: Seq<Tree>,
    spans: Seq<Span>,
) -> bool {
    match generated(trees) {
        Ok(expression) => r matches Ok(out) && stream_trees(out) == expression,
        Err(failure) => r matches Err(e) && e.reports(failure, spans),
    }
}

/// Running the generator twice on one invocation gives the same outcome:
/// two expressions with the same trees, which print as the same text, or
/// two errors with the same message, about the same token where the
/// failure points at one.
pub proof fn ramp_is_deterministic(
    token_stream: TokenStream,
    first: Result<TokenStream, SpannedError>,
    second: Result<TokenStream, SpannedError>,
)
    requires
        answers(first, stream_trees(token_stream), stream_spans(token_stream)),
        answers(second, stream_trees(token_stream), stream_spans(token_stream)),
    ensures
        match (first, second) {
            (Ok(a), Ok(b)) => stream_trees(a) == stream_trees(b) && rendered(stream_trees(a))
                == rendered(stream_trees(b)),
            (Err(a), Err(b)) => a.string@ == b.string@ && match generated(
                stream_trees(token_stream),
            ) {
                Err(failure) => failure.at() is Some ==> a.span == b.span,
                Ok(_) => false,
            },
            _ => false,
        },
{
}

/// Where no token is a group, the breakpoints read are those read before.
proof fn no_group_no_breakpoint(tokens: Seq<Kind>, at: int, so_far: Seq<Point>)
    requires
        forall|i: int| 0 <= i < tokens.len() ==> !(#[trigger] tokens[i] is Group),
    ensures
        breakpoints_from(tokens, at, so_far) matches Ok(list) ==> list == so_far,
    decreases tokens.len() - at,
{
    if 0 <= at < tokens.len() {
        no_group_no_breakpoint(tokens, at + 1, so_far);
    }
}

/// An invocation without a group is never compiled.
pub proof fn no_group_is_turned_down(trees: Seq<Tree>)
    requires
        forall|i: int| 0 <= i < trees.len() ==> !(#[trigger] trees[i] is Group),
    ensures
        generated(trees) is Err,
{
    let tokens = kinds_of(trees);
    assert(forall|i: int| 0 <= i < tokens.len() ==> !(#[trigger] tokens[i] is Group));
    if let Ok((_, next)) = attributes_of(tokens) {
        no_group_no_breakpoint(tokens, next, Seq::empty());
    }
}

/// An invocation without a group, all of whose tokens are in their place,
/// is turned down for its empty list of breakpoints.
pub proof fn no_group_is_empty_list(trees: Seq<Tree>)
    requires
        forall|i: int| 0 <= i < trees.len() ==> !(#[trigger] trees[i] is Group),
        attributes_of(kinds_of(trees)) matches Ok((_, next)) && breakpoints_from(
            kinds_of(trees),
            next,
            Seq::empty(),
        ) is Ok,
    ensures
        generated(trees) == Err::<Seq<Tree>, Failure>(Failure::EmptyBreakpointList),
{
    let tokens = kinds_of(trees);
    assert(forall|i: int| 0 <= i < tokens.len() ==> !(#[trigger] tokens[i] is Group));
    if let Ok((_, next)) = attributes_of(tokens) {
        no_group_no_breakpoint(tokens, next, Seq::empty());
    }
}

/// An invocation is compiled exactly when its attributes and its
/// breakpoints are in order, there is a breakpoint, and the curve is not
/// the cardinal spline.
pub proof fn compiled_exactly_when(trees: Seq<Tree>)
    ensures
        generated(trees) is Ok <==> (attributes_of(kinds_of(trees)) matches Ok((settings, next))
            && ({
            &&& settings.curve != Curve::Cardinal
            &&& breakpoints_from(kinds_of(trees), next, Seq::empty()) matches Ok(points)
            &&& points.len() > 0
        })),
{
}

/// An invocation that settles on the cardinal spline and gives at least
/// one breakpoint is turned down for its curve, whatever it names the
/// variable, whichever language and form it asks for, clamped or not, and
/// whatever its breakpoints hold.
pub proof fn cardinal_is_unsupported(trees: Seq<Tree>)
    requires
        attributes_of(kinds_of(trees)) matches Ok((settings, next)) && ({
            &&& settings.curve == Curve::Cardinal
            &&& breakpoints_from(kinds_of(trees), next, Seq::empty()) matches Ok(points)
            &&& points.len() > 0
        }),
    ensures
        generated(trees) == Err::<Seq<Tree>, Failure>(Failure::UnsupportedCurve),
{
}

/// Puts the expression in the form that the attributes ask for.
pub fn finish(attributes: &Attributes, expression: TokenStream) -> (out: TokenStream)
    ensures
        stream_trees(out) == finished(attributes@, stream_trees(expression)),
{
    if attributes.stringify {
        let text = render(&expression);
        let mut out = empty_stream();
        push_string(&mut out, text.as_str());
        out
    } else {
        expression
    }
}

/// Compiles an invocation into the expression of its curve.
///
/// The outcome is a function of the tokens alone: the same invocation gives
/// the same expression, token for token, or the same message about the
/// same token.
pub fn ramp(token_stream: TokenStream) -> (r: Result<TokenStream, SpannedError>)
    ensures
        answers(r, stream_trees(token_stream), stream_spans(token_stream)),
{
    let tokens = tokens_of(&token_stream);
    let ghost trees = stream_trees(token_stream);
    proof {
        attributes_lie_within(kinds(tokens@));
    }
    let (attributes, next) = match scan_attributes(&tokens) {
        Ok(found) => found,
        Err(e) => {
            return Err(e);
        },
    };
    let buffer = match scan_breakpoints(&tokens, next) {
        Ok(buffer) => buffer,
        Err(e) => {
            return Err(e);
        },
    };
    let name = match attributes.variable {
        Some(at) => {
            let name = part_of(&token_stream, at, at + 1);
            assert(stream_trees(name) =~= seq![trees[at as int]]);
            name
        },
        None => {
            proof {
                reveal_strlit("x");
            }
            one_word("x")
        },
    };
    match express(&attributes, name, buffer) {
        Ok(expression) => Ok(finish(&attributes, expression)),
        Err(e) => Err(e),
    }
}

} // verus!
