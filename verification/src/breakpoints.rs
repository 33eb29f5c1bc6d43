//! The breakpoints of an invocation: the groups after the attributes, each
//! split at its first comma into a position and a value.

use crate::parse::{Failure, SpannedError};
use crate::tokens::{
    kinds, kinds_of, locations, part_of, stream_trees, tokens_of, Kind, Token, Tree,
};
use proc_macro2::{Span, TokenStream};
use vstd::prelude::*;

verus! {

/// One point that the curve passes through. Neither expression is looked
/// into.
#[derive(Debug)]
pub struct Breakpoint {
    pub position: TokenStream,
    pub value: TokenStream,
}

/// The trees of a [`Breakpoint`].
pub struct Point {
    pub position: Seq<Tree>,
    pub value: Seq<Tree>,
}

impl View for Breakpoint {
    type V = Point;

    open spec fn view(&self) -> Point {
        Point { position: stream_trees(self.position), value: stream_trees(self.value) }
    }
}

/// The points of a sequence of breakpoints, one for one.
pub open spec fn points(breakpoints: Seq<Breakpoint>) -> Seq<Point> {
    Seq::new(breakpoints.len(), |i: int| breakpoints[i]@)
}

/// The token at `k` is a comma and none before it is.
pub open spec fn comma_first_at(tokens: Seq<Kind>, k: int) -> bool {
    &&& 0 <= k < tokens.len()
    &&& tokens[k].is_comma()
    &&& forall|j: int| 0 <= j < k ==> !(#[trigger] tokens[j]).is_comma()
}

/// Where the first comma stands among `tokens`. Commas inside a group are
/// no tokens of this sequence.
pub open spec fn first_comma(tokens: Seq<Kind>) -> Option<int> {
    if exists|k: int| comma_first_at(tokens, k) {
        Some(choose|k: int| comma_first_at(tokens, k))
    } else {
        None
    }
}

/// Where a comma stands with none before it, there is the first comma.
pub proof fn first_comma_is_unique(tokens: Seq<Kind>, k: int)
    requires
        comma_first_at(tokens, k),
    ensures
        first_comma(tokens) == Some(k),
{
}

/// Looks for the first comma among `tokens`.
pub fn find_comma(tokens: &Vec<Token>) -> (found: Option<usize>)
    ensures
        match first_comma(kinds(tokens@)) {
            Some(k) => found == Some(k as usize) && k < tokens.len(),
            None => found is None,
        },
{
    let mut i: usize = 0;
    while i < tokens.len()
        invariant
            i <= tokens.len(),
            forall|j: int| 0 <= j < i ==> !(#[trigger] kinds(tokens@)[j]).is_comma(),
        decreases tokens.len() - i,
    {
        let comma = match &tokens[i] {
            Token::Punct { ch, .. } => *ch == ',',
            _ => false,
        };
        if comma {
            proof {
                first_comma_is_unique(kinds(tokens@), i as int);
            }
            return Some(i);
        }
        i += 1;
    }
    None
}

/// The two halves of the inside of a group: what stands before its first
/// comma and what stands after it, further commas included.
pub open spec fn split_pair(trees: Seq<Tree>) -> Option<Point> {
    match first_comma(kinds_of(trees)) {
        Some(k) => Some(
            Point {
                position: trees.subrange(0, k),
                value: trees.subrange(k + 1, trees.len() as int),
            },
        ),
        None => None,
    }
}

/// A group splits where it holds a comma, and only there. The halves and
/// the comma between them make up the group again, and the first half
/// holds no comma: the split is at the first one, however many follow.
pub proof fn split_pair_is_at_first_comma(trees: Seq<Tree>)
    ensures
        split_pair(trees) is Some <==> exists|k: int|
            0 <= k < trees.len() && (#[trigger] trees[k].kind()).is_comma(),
        split_pair(trees) matches Some(point) ==> {
            &&& trees == point.position + seq![trees[point.position.len() as int]] + point.value
            &&& trees[point.position.len() as int].kind().is_comma()
            &&& forall|j: int|
                0 <= j < point.position.len() ==> !(#[trigger] point.position[j].kind()).is_comma()
        },
{
    let tokens = kinds_of(trees);
    if exists|k: int| 0 <= k < trees.len() && (#[trigger] trees[k].kind()).is_comma() {
        let k = choose|k: int| 0 <= k < trees.len() && (#[trigger] trees[k].kind()).is_comma();
        first_comma_exists(tokens, k);
    }
    if let Some(point) = split_pair(trees) {
        assert forall|j: int| 0 <= j < point.position.len() implies !(
        #[trigger] point.position[j].kind()).is_comma() by {
            assert(tokens[j] == trees[j].kind());
        }
    }
}

/// A sequence with a comma has a first comma.
proof fn first_comma_exists(tokens: Seq<Kind>, k: int)
    requires
        0 <= k < tokens.len(),
        tokens[k].is_comma(),
    ensures
        exists|j: int| comma_first_at(tokens, j),
    decreases k,
{
    if exists|j: int| 0 <= j < k && tokens[j].is_comma() {
        let j = choose|j: int| 0 <= j < k && tokens[j].is_comma();
        first_comma_exists(tokens, j);
    } else {
        assert(comma_first_at(tokens, k));
    }
}

/// Splits the inside of a group, found at `span`, at its first comma.
pub fn split2(stream: &TokenStream, span: Span) -> (r: Result<Breakpoint, SpannedError>)
    ensures
        match split_pair(stream_trees(*stream)) {
            Some(point) => r matches Ok(breakpoint) && breakpoint@ == point,
            None => r matches Err(e) && e.reports(Failure::MalformedGroup { at: 0 }, seq![span]),
        },
{
    let tokens = tokens_of(stream);
    match find_comma(&tokens) {
        Some(k) => {
            let position = part_of(stream, 0, k);
            let value = part_of(stream, k + 1, tokens.len());
            Ok(Breakpoint { position, value })
        },
        None => Err(
            SpannedError {
                string: String::from_str("Expected 2 values separated by comma."),
                span,
            },
        ),
    }
}

/// The breakpoints read from the token at `at` on, after those read before
/// it. Commas are passed over; every other token must be a group that
/// splits in two.
pub open spec fn breakpoints_from(tokens: Seq<Kind>, at: int, so_far: Seq<Point>) -> Result<
    Seq<Point>,
    Failure,
>
    decreases tokens.len() - at,
{
    if at < 0 || at >= tokens.len() {
        Ok(so_far)
    } else {
        match tokens[at] {
            Kind::Punct { ch } => {
                if ch == ',' {
                    breakpoints_from(tokens, at + 1, so_far)
                } else {
                    Err(Failure::UnexpectedToken { at })
                }
            },
            Kind::Group { inner } => match split_pair(inner) {
                Some(point) => breakpoints_from(tokens, at + 1, so_far.push(point)),
                None => Err(Failure::MalformedGroup { at }),
            },
            _ => Err(Failure::UnexpectedToken { at }),
        }
    }
}

/// Reads the breakpoints of an invocation, which begin at `start`.
pub fn scan_breakpoints(tokens: &Vec<Token>, start: usize) -> (r: Result<
    Vec<Breakpoint>,
    SpannedError,
>)
    ensures
        match breakpoints_from(kinds(tokens@), start as int, Seq::empty()) {
            Ok(list) => r matches Ok(breakpoints) && points(breakpoints@) == list,
            Err(failure) => r matches Err(e) && e.reports(failure, locations(tokens@)),
        },
{
    let mut buffer: Vec<Breakpoint> = Vec::new();
    let mut i: usize = start;
    assert(points(buffer@) =~= Seq::empty());
    while i < tokens.len()
        invariant
            breakpoints_from(kinds(tokens@), start as int, Seq::empty()) == breakpoints_from(
                kinds(tokens@),
                i as int,
                points(buffer@),
            ),
        decreases tokens.len() - i,
    {
        match &tokens[i] {
            Token::Punct { ch, span } => {
                if *ch != ',' {
                    return Err(unexpected_token(*span));
                }
            },
            Token::Group { stream, span } => match split2(stream, *span) {
                Ok(breakpoint) => {
                    assert(points(buffer@.push(breakpoint)) == points(buffer@).push(breakpoint@));
                    buffer.push(breakpoint);
                },
                Err(e) => {
                    return Err(e);
                },
            },
            other => {
                return Err(unexpected_token(other.span()));
            },
        }
        i += 1;
    }
    Ok(buffer)
}

fn unexpected_token(span: Span) -> (e: SpannedError)
    ensures
        e.reports(Failure::UnexpectedToken { at: 0 }, seq![span]),
{
    SpannedError { string: String::from_str("Expected () or []."), span }
}

} // verus!
