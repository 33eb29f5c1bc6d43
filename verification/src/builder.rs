//! The expression that stands for the curve, built from the breakpoints
//! segment by segment.

use crate::attributes::{Attributes, Curve, Grammar, Settings};
use crate::breakpoints::{points, Breakpoint, Point};
use crate::parse::{Failure, SpannedError};
use crate::tokens::{
    append, braces, call_site, empty_stream, glued, is_plain_word, mark, number, parens,
    push_group, push_number, push_punct, push_word, stream_trees, word, Delimiter, Spacing, Tree,
};
use proc_macro2::TokenStream;
use vstd::prelude::*;
use vstd::slice::slice_subrange;

verus! {

/// The formula for one segment of the curve.
#[derive(Clone, Copy, Debug, PartialEq, Eq, Structural)]
pub enum Formula {
    /// A straight line from breakpoint to breakpoint.
    Linear,
    /// The value of the left breakpoint.
    Steps,
    /// A smooth step from breakpoint to breakpoint.
    Ease,
}

impl Curve {
    pub open spec fn formula_of(&self) -> Option<Formula> {
        match self {
            Curve::Linear => Some(Formula::Linear),
            Curve::Steps => Some(Formula::Steps),
            Curve::Ease => Some(Formula::Ease),
            Curve::Cardinal => None,
        }
    }

    /// The formula of the curve; the cardinal spline has none.
    #[verifier::when_used_as_spec(formula_of)]
    pub fn formula(&self) -> (formula: Option<Formula>)
        ensures
            formula == self.formula_of(),
    {
        match self {
            Curve::Linear => Some(Formula::Linear),
            Curve::Steps => Some(Formula::Steps),
            Curve::Ease => Some(Formula::Ease),
            Curve::Cardinal => None,
        }
    }
}

/// `a - b`
pub open spec fn difference(a: Seq<Tree>, b: Seq<Tree>) -> Seq<Tree> {
    a + seq![mark('-')] + b
}

/// `a, b`
pub open spec fn listed(a: Seq<Tree>, b: Seq<Tree>) -> Seq<Tree> {
    a + seq![mark(',')] + b
}

/// `x >= bound`
pub open spec fn reached(x: Seq<Tree>, bound: Seq<Tree>) -> Seq<Tree> {
    x + seq![glued('>'), mark('=')] + bound
}

/// `(x - x1) / (x2 - x1) * (y2 - y1) + y1`, from `(x1, y1)` to `(x2, y2)`.
pub open spec fn linear(x: Seq<Tree>, from: Point, to: Point) -> Seq<Tree> {
    seq![
        parens(difference(x, from.position)),
        mark('/'),
        parens(difference(to.position, from.position)),
        mark('*'),
        parens(difference(to.value, from.value)),
        mark('+'),
    ] + from.value
}

/// `(smoothstep(x1, x2, x) * (y2 - y1) + y1)`, from `(x1, y1)` to `(x2, y2)`.
pub open spec fn eased(x: Seq<Tree>, from: Point, to: Point) -> Seq<Tree> {
    seq![
        parens(
            seq![
                word("smoothstep"),
                parens(listed(listed(from.position, to.position), x)),
                mark('*'),
                parens(difference(to.value, from.value)),
                mark('+'),
            ] + from.value,
        ),
    ]
}

/// The curve between two neighbouring breakpoints, as an expression in `x`.
pub open spec fn segment(formula: Formula, x: Seq<Tree>, from: Point, to: Point) -> Seq<Tree> {
    match formula {
        Formula::Linear => linear(x, from, to),
        Formula::Steps => from.value,
        Formula::Ease => eased(x, from, to),
    }
}

/// `above` where `x` has reached `bound`, `below` elsewhere: an `if` in
/// Rust, a `select` in WGSL.
pub open spec fn choice(
    grammar: Grammar,
    x: Seq<Tree>,
    bound: Seq<Tree>,
    below: Seq<Tree>,
    above: Seq<Tree>,
) -> Seq<Tree> {
    match grammar {
        Grammar::Generic => seq![word("if")] + reached(x, bound) + seq![
            braces(above),
            word("else"),
            braces(below),
        ],
        Grammar::Shader => seq![
            word("select"),
            parens(listed(listed(below, above), reached(x, bound))),
        ],
    }
}

/// The curve through `points` as one expression in `x`. One point gives its
/// value; two give their segment; more give the first segment below the
/// second position and the curve through the rest from there on. No point
/// gives nothing.
pub open spec fn chain(grammar: Grammar, formula: Formula, x: Seq<Tree>, points: Seq<Point>) -> Seq<
    Tree,
>
    decreases points.len(),
{
    if points.len() == 0 {
        Seq::empty()
    } else if points.len() == 1 {
        points[0].value
    } else if points.len() == 2 {
        segment(formula, x, points[0], points[1])
    } else {
        choice(
            grammar,
            x,
            points[1].position,
            segment(formula, x, points[0], points[1]),
            chain(grammar, formula, x, points.skip(1)),
        )
    }
}

fn copy_of(stream: &TokenStream) -> (out: TokenStream)
    ensures
        stream_trees(out) == stream_trees(*stream),
{
    let mut out = empty_stream();
    append(&mut out, stream);
    out
}

fn push_difference(out: &mut TokenStream, a: &TokenStream, b: &TokenStream)
    ensures
        stream_trees(*final(out)) == stream_trees(*old(out)).push(
            parens(difference(stream_trees(*a), stream_trees(*b))),
        ),
{
    let mut inner = empty_stream();
    append(&mut inner, a);
    push_punct(&mut inner, '-', Spacing::Alone);
    append(&mut inner, b);
    assert(stream_trees(inner) =~= difference(stream_trees(*a), stream_trees(*b)));
    push_group(out, Delimiter::Parenthesis, inner);
}

fn push_reached(out: &mut TokenStream, x: &TokenStream, bound: &TokenStream)
    ensures
        stream_trees(*final(out)) == stream_trees(*old(out)) + reached(
            stream_trees(*x),
            stream_trees(*bound),
        ),
{
    append(out, x);
    push_punct(out, '>', Spacing::Joint);
    push_punct(out, '=', Spacing::Alone);
    append(out, bound);
}

fn linear_segment(x: &TokenStream, from: &Breakpoint, to: &Breakpoint) -> (out: TokenStream)
    ensures
        stream_trees(out) == linear(stream_trees(*x), from@, to@),
{
    let mut out = empty_stream();
    push_difference(&mut out, x, &from.position);
    push_punct(&mut out, '/', Spacing::Alone);
    push_difference(&mut out, &to.position, &from.position);
    push_punct(&mut out, '*', Spacing::Alone);
    push_difference(&mut out, &to.value, &from.value);
    push_punct(&mut out, '+', Spacing::Alone);
    append(&mut out, &from.value);
    out
}

fn eased_segment(x: &TokenStream, from: &Breakpoint, to: &Breakpoint) -> (out: TokenStream)
    ensures
        stream_trees(out) == eased(stream_trees(*x), from@, to@),
{
    let mut arguments = empty_stream();
    append(&mut arguments, &from.position);
    push_punct(&mut arguments, ',', Spacing::Alone);
    append(&mut arguments, &to.position);
    push_punct(&mut arguments, ',', Spacing::Alone);
    append(&mut arguments, x);
    assert(stream_trees(arguments) =~= listed(
        listed(from@.position, to@.position),
        stream_trees(*x),
    ));
    let mut inner = empty_stream();
    proof {
        reveal_strlit("smoothstep");
    }
    push_word(&mut inner, "smoothstep");
    push_group(&mut inner, Delimiter::Parenthesis, arguments);
    push_punct(&mut inner, '*', Spacing::Alone);
    push_difference(&mut inner, &to.value, &from.value);
    push_punct(&mut inner, '+', Spacing::Alone);
    append(&mut inner, &from.value);
    assert(stream_trees(inner) =~= seq![
        word("smoothstep"),
        parens(listed(listed(from@.position, to@.position), stream_trees(*x))),
        mark('*'),
        parens(difference(to@.value, from@.value)),
        mark('+'),
    ] + from@.value);
    let mut out = empty_stream();
    push_group(&mut out, Delimiter::Parenthesis, inner);
    out
}

/// Writes the curve between two neighbouring breakpoints.
pub fn segment_of(formula: Formula, x: &TokenStream, from: &Breakpoint, to: &Breakpoint) -> (out:
    TokenStream)
    ensures
        stream_trees(out) == segment(formula, stream_trees(*x), from@, to@),
{
    match formula {
        Formula::Linear => linear_segment(x, from, to),
        Formula::Steps => copy_of(&from.value),
        Formula::Ease => eased_segment(x, from, to),
    }
}

fn choose_between(
    grammar: Grammar,
    x: &TokenStream,
    bound: &TokenStream,
    below: TokenStream,
    above: TokenStream,
) -> (out: TokenStream)
    ensures
        stream_trees(out) == choice(
            grammar,
            stream_trees(*x),
            stream_trees(*bound),
            stream_trees(below),
            stream_trees(above),
        ),
{
    let mut out = empty_stream();
    match grammar {
        Grammar::Generic => {
            proof {
                reveal_strlit("if");
                reveal_strlit("else");
            }
            push_word(&mut out, "if");
            push_reached(&mut out, x, bound);
            push_group(&mut out, Delimiter::Brace, above);
            push_word(&mut out, "else");
            push_group(&mut out, Delimiter::Brace, below);
        },
        Grammar::Shader => {
            let mut arguments = empty_stream();
            append(&mut arguments, &below);
            push_punct(&mut arguments, ',', Spacing::Alone);
            append(&mut arguments, &above);
            push_punct(&mut arguments, ',', Spacing::Alone);
            push_reached(&mut arguments, x, bound);
            assert(stream_trees(arguments) =~= listed(
                listed(stream_trees(below), stream_trees(above)),
                reached(stream_trees(*x), stream_trees(*bound)),
            ));
            proof {
                reveal_strlit("select");
            }
            push_word(&mut out, "select");
            push_group(&mut out, Delimiter::Parenthesis, arguments);
        },
    }
    out
}

fn no_breakpoint() -> (e: SpannedError)
    ensures
        e.string@ == Failure::EmptyBreakpointList.message(),
{
    SpannedError { string: String::from_str("Expected at least one item."), span: call_site() }
}

/// Writes the curve through the breakpoints of `buf` as one expression in
/// `x`. There is nothing to write for an empty list.
pub fn parse_buf(grammar: Grammar, x: &TokenStream, buf: &[Breakpoint], formula: Formula) -> (r:
    Result<TokenStream, SpannedError>)
    ensures
        match r {
            Ok(out) => buf@.len() > 0 && stream_trees(out) == chain(
                grammar,
                formula,
                stream_trees(*x),
                points(buf@),
            ),
            Err(e) => buf@.len() == 0 && e.string@ == Failure::EmptyBreakpointList.message(),
        },
    decreases buf@.len(),
{
    if buf.len() == 0 {
        Err(no_breakpoint())
    } else if buf.len() == 1 {
        Ok(copy_of(&buf[0].value))
    } else if buf.len() == 2 {
        Ok(segment_of(formula, x, &buf[0], &buf[1]))
    } else {
        let this = segment_of(formula, x, &buf[0], &buf[1]);
        let tail = slice_subrange(buf, 1, buf.len());
        assert(points(tail@) =~= points(buf@).skip(1));
        match parse_buf(grammar, x, tail, formula) {
            Ok(rest) => Ok(choose_between(grammar, x, &buf[1].position, this, rest)),
            Err(e) => Err(e),
        }
    }
}

/// The variable as the segments read it: held between `low` and `high`
/// where clamping is asked for and the curve does not stay there by itself.
pub open spec fn bound_variable(
    settings: Settings,
    name: Seq<Tree>,
    low: Seq<Tree>,
    high: Seq<Tree>,
) -> Seq<Tree> {
    if !settings.clamp_input || settings.curve.saturates() {
        name
    } else {
        match settings.grammar {
            Grammar::Generic => name + seq![mark('.'), word("clamp"), parens(listed(low, high))],
            Grammar::Shader => seq![word("clamp"), parens(listed(name, listed(low, high)))],
        }
    }
}

/// Writes the variable as the segments read it.
pub fn bind_variable(
    attributes: &Attributes,
    name: TokenStream,
    low: &TokenStream,
    high: &TokenStream,
) -> (x: TokenStream)
    ensures
        stream_trees(x) == bound_variable(
            attributes@,
            stream_trees(name),
            stream_trees(*low),
            stream_trees(*high),
        ),
{
    if !attributes.clamp_input || attributes.curve.clamped() {
        return name;
    }
    let ghost limits = listed(stream_trees(*low), stream_trees(*high));
    proof {
        reveal_strlit("clamp");
    }
    let mut arguments = empty_stream();
    let mut x = empty_stream();
    match attributes.grammar {
        Grammar::Generic => {
            append(&mut arguments, low);
            push_punct(&mut arguments, ',', Spacing::Alone);
            append(&mut arguments, high);
            assert(stream_trees(arguments) =~= limits);
            append(&mut x, &name);
            push_punct(&mut x, '.', Spacing::Alone);
            push_word(&mut x, "clamp");
            push_group(&mut x, Delimiter::Parenthesis, arguments);
        },
        Grammar::Shader => {
            append(&mut arguments, &name);
            push_punct(&mut arguments, ',', Spacing::Alone);
            append(&mut arguments, low);
            push_punct(&mut arguments, ',', Spacing::Alone);
            append(&mut arguments, high);
            assert(stream_trees(arguments) =~= listed(stream_trees(name), limits));
            push_word(&mut x, "clamp");
            push_group(&mut x, Delimiter::Parenthesis, arguments);
        },
    }
    x
}

/// `name: f32`
pub open spec fn parameter(name: &str) -> Seq<Tree> {
    seq![word(name), mark(':'), word("f32")]
}

/// `let t = ((x - l) / (r - l)).clamp(0.0, 1.0); t * t * (3.0 - 2.0 * t)`
pub open spec fn smoothstep_body() -> Seq<Tree> {
    seq![
        word("let"),
        word("t"),
        mark('='),
        parens(
            seq![
                parens(difference(seq![word("x")], seq![word("l")])),
                mark('/'),
                parens(difference(seq![word("r")], seq![word("l")])),
            ],
        ),
        mark('.'),
        word("clamp"),
        parens(listed(seq![number("0.0")], seq![number("1.0")])),
        mark(';'),
        word("t"),
        mark('*'),
        word("t"),
        mark('*'),
        parens(seq![number("3.0"), mark('-'), number("2.0"), mark('*'), word("t")]),
    ]
}

/// `let smoothstep = |l: f32, r: f32, x: f32| { ... };`, the smooth step
/// from `l` to `r` for Rust, which has none of its own.
pub open spec fn smoothstep_definition() -> Seq<Tree> {
    seq![word("let"), word("smoothstep"), mark('='), mark('|')] + parameter("l") + seq![mark(',')]
        + parameter("r") + seq![mark(',')] + parameter("x") + seq![
        mark('|'),
        braces(smoothstep_body()),
        mark(';'),
    ]
}

pub(crate) fn one_word(name: &str) -> (out: TokenStream)
    requires
        is_plain_word(name@),
    ensures
        stream_trees(out) == seq![word(name)],
{
    let mut out = empty_stream();
    push_word(&mut out, name);
    out
}

fn push_parameter(out: &mut TokenStream, name: &str)
    requires
        is_plain_word(name@),
    ensures
        stream_trees(*final(out)) == stream_trees(*old(out)) + parameter(name),
{
    proof {
        reveal_strlit("f32");
    }
    push_word(out, name);
    push_punct(out, ':', Spacing::Alone);
    push_word(out, "f32");
}

fn write_smoothstep_body() -> (out: TokenStream)
    ensures
        stream_trees(out) == smoothstep_body(),
{
    proof {
        reveal_strlit("let");
        reveal_strlit("t");
        reveal_strlit("x");
        reveal_strlit("l");
        reveal_strlit("r");
        reveal_strlit("clamp");
        reveal_strlit("0.0");
        reveal_strlit("1.0");
        reveal_strlit("2.0");
        reveal_strlit("3.0");
    }
    let x = one_word("x");
    let l = one_word("l");
    let r = one_word("r");
    let mut ratio = empty_stream();
    push_difference(&mut ratio, &x, &l);
    push_punct(&mut ratio, '/', Spacing::Alone);
    push_difference(&mut ratio, &r, &l);
    assert(stream_trees(ratio) =~= seq![
        parens(difference(seq![word("x")], seq![word("l")])),
        mark('/'),
        parens(difference(seq![word("r")], seq![word("l")])),
    ]);
    let mut limits = empty_stream();
    push_number(&mut limits, "0.0");
    push_punct(&mut limits, ',', Spacing::Alone);
    push_number(&mut limits, "1.0");
    assert(stream_trees(limits) =~= listed(seq![number("0.0")], seq![number("1.0")]));
    let mut cubic = empty_stream();
    push_number(&mut cubic, "3.0");
    push_punct(&mut cubic, '-', Spacing::Alone);
    push_number(&mut cubic, "2.0");
    push_punct(&mut cubic, '*', Spacing::Alone);
    push_word(&mut cubic, "t");
    assert(stream_trees(cubic) =~= seq![
        number("3.0"),
        mark('-'),
        number("2.0"),
        mark('*'),
        word("t"),
    ]);
    let mut out = empty_stream();
    push_word(&mut out, "let");
    push_word(&mut out, "t");
    push_punct(&mut out, '=', Spacing::Alone);
    push_group(&mut out, Delimiter::Parenthesis, ratio);
    push_punct(&mut out, '.', Spacing::Alone);
    push_word(&mut out, "clamp");
    push_group(&mut out, Delimiter::Parenthesis, limits);
    push_punct(&mut out, ';', Spacing::Alone);
    push_word(&mut out, "t");
    push_punct(&mut out, '*', Spacing::Alone);
    push_word(&mut out, "t");
    push_punct(&mut out, '*', Spacing::Alone);
    push_group(&mut out, Delimiter::Parenthesis, cubic);
    out
}

fn write_smoothstep_definition() -> (out: TokenStream)
    ensures
        stream_trees(out) == smoothstep_definition(),
{
    proof {
        reveal_strlit("let");
        reveal_strlit("smoothstep");
        reveal_strlit("x");
        reveal_strlit("l");
        reveal_strlit("r");
    }
    let body = write_smoothstep_body();
    let mut out = empty_stream();
    push_word(&mut out, "let");
    push_word(&mut out, "smoothstep");
    push_punct(&mut out, '=', Spacing::Alone);
    push_punct(&mut out, '|', Spacing::Alone);
    push_parameter(&mut out, "l");
    push_punct(&mut out, ',', Spacing::Alone);
    push_parameter(&mut out, "r");
    push_punct(&mut out, ',', Spacing::Alone);
    push_parameter(&mut out, "x");
    push_punct(&mut out, '|', Spacing::Alone);
    push_group(&mut out, Delimiter::Brace, body);
    push_punct(&mut out, ';', Spacing::Alone);
    out
}

/// The breakpoint that closes a list for [`Formula::Steps`]: with it
/// behind the last breakpoint, the last value is the segment from there on.
pub open spec fn sentinel() -> Point {
    Point { position: Seq::empty(), value: Seq::empty() }
}

/// The curve through `points` by `formula`, as one expression in `x` that
/// stands by itself: the steps are closed by the last value, and the eased
/// curve for Rust brings its smooth step with it.
pub open spec fn curve(grammar: Grammar, formula: Formula, x: Seq<Tree>, points: Seq<Point>) -> Seq<
    Tree,
> {
    match formula {
        Formula::Linear => chain(grammar, formula, x, points),
        Formula::Steps => chain(grammar, formula, x, points.push(sentinel())),
        Formula::Ease => match grammar {
            Grammar::Generic => seq![
                braces(smoothstep_definition() + chain(grammar, formula, x, points)),
            ],
            Grammar::Shader => chain(grammar, formula, x, points),
        },
    }
}

/// The expression for the curve through `points` in the variable `name`,
/// as the settings ask for it. There is none without a breakpoint, and none
/// for the cardinal spline.
pub open spec fn expression(settings: Settings, name: Seq<Tree>, points: Seq<Point>) -> Result<
    Seq<Tree>,
    Failure,
> {
    if points.len() == 0 {
        Err(Failure::EmptyBreakpointList)
    } else {
        match settings.curve.formula_of() {
            Some(formula) => Ok(
                curve(
                    settings.grammar,
                    formula,
                    bound_variable(
                        settings,
                        name,
                        points.first().position,
                        points.last().position,
                    ),
                    points,
                ),
            ),
            None => Err(Failure::UnsupportedCurve),
        }
    }
}

/// The cardinal spline has no expression, whatever else is asked for and
/// whatever the breakpoints hold, as long as there is one.
pub proof fn cardinal_has_no_expression(settings: Settings, name: Seq<Tree>, points: Seq<Point>)
    requires
        settings.curve == Curve::Cardinal,
        points.len() > 0,
    ensures
        expression(settings, name, points) == Err::<Seq<Tree>, Failure>(Failure::UnsupportedCurve),
{
}

fn unsupported_curve() -> (e: SpannedError)
    ensures
        e.string@ == Failure::UnsupportedCurve.message(),
{
    SpannedError {
        string: String::from_str("Cardinal spline is currently not supported!"),
        span: call_site(),
    }
}

fn with_smoothstep(chain: TokenStream) -> (out: TokenStream)
    ensures
        stream_trees(out) == seq![braces(smoothstep_definition() + stream_trees(chain))],
{
    let mut inner = write_smoothstep_definition();
    append(&mut inner, &chain);
    let mut out = empty_stream();
    push_group(&mut out, Delimiter::Brace, inner);
    out
}

/// Writes the expression for the curve through the breakpoints of `buffer`
/// in the variable `name`.
pub fn express(attributes: &Attributes, name: TokenStream, buffer: Vec<Breakpoint>) -> (r: Result<
    TokenStream,
    SpannedError,
>)
    ensures
        match expression(attributes@, stream_trees(name), points(buffer@)) {
            Ok(trees) => r matches Ok(out) && stream_trees(out) == trees,
            Err(failure) => r matches Err(e) && e.string@ == failure.message(),
        },
{
    if buffer.len() == 0 {
        return Err(no_breakpoint());
    }
    let formula = match attributes.curve.formula() {
        Some(formula) => formula,
        None => {
            return Err(unsupported_curve());
        },
    };
    let low = &buffer[0].position;
    let high = &buffer[buffer.len() - 1].position;
    let x = bind_variable(attributes, name, low, high);
    let mut buffer = buffer;
    if formula == Formula::Steps {
        let ghost before = buffer@;
        buffer.push(Breakpoint { position: empty_stream(), value: empty_stream() });
        assert(points(buffer@) =~= points(before).push(sentinel()));
    }
    match parse_buf(attributes.grammar, &x, buffer.as_slice(), formula) {
        Ok(chain) => {
            if formula == Formula::Ease && attributes.grammar == Grammar::Generic {
                Ok(with_smoothstep(chain))
            } else {
                Ok(chain)
            }
        },
        Err(e) => Err(e),
    }
}

} // verus!
