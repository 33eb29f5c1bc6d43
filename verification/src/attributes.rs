//! The attributes at the head of an invocation: the words that choose the
//! curve, the output language and the form of the result, and the `@` that
//! renames the variable.

use crate::parse::{Failure, SpannedError};
use crate::tokens::{kinds, locations, Kind, Token};
use proc_macro2::Span;
use vstd::prelude::*;

verus! {

/// How the curve runs between two neighbouring breakpoints.
#[derive(Clone, Copy, Debug, PartialEq, Eq, Structural)]
pub enum Curve {
    Linear,
    Steps,
    Ease,
    Cardinal,
}

impl Curve {
    pub open spec fn saturates(&self) -> bool {
        *self == Curve::Steps || *self == Curve::Ease
    }

    /// Whether the curve stays at the first and the last value outside the
    /// breakpoints by itself.
    #[verifier::when_used_as_spec(saturates)]
    pub fn clamped(&self) -> (b: bool)
        ensures
            b == self.saturates(),
    {
        matches!(self, Curve::Steps | Curve::Ease)
    }
}

/// The language of the generated expression.
#[derive(Clone, Copy, Debug, PartialEq, Eq, Structural)]
pub enum Grammar {
    /// Rust: `if` expressions and method calls.
    Generic,
    /// WGSL: `select` and free functions.
    Shader,
}

/// One attribute word.
#[derive(Clone, Copy, Debug, PartialEq, Eq, Structural)]
pub enum Flag {
    Wgsl,
    Steps,
    Ease,
    Cardinal,
    Str,
    Clamp,
}

/// The attribute that `name` spells, if any.
pub open spec fn flag_named(name: Seq<char>) -> Option<Flag> {
    if name == "wgsl"@ {
        Some(Flag::Wgsl)
    } else if name == "step"@ || name == "steps"@ {
        Some(Flag::Steps)
    } else if name == "ease"@ {
        Some(Flag::Ease)
    } else if name == "cardinal"@ {
        Some(Flag::Cardinal)
    } else if name == "str"@ {
        Some(Flag::Str)
    } else if name == "clamp"@ {
        Some(Flag::Clamp)
    } else {
        None
    }
}

fn spells(name: &String, word: &str) -> (b: bool)
    ensures
        b == (name@ == word@),
{
    let expected = String::from_str(word);
    *name == expected
}

impl Flag {
    pub fn named(name: &String) -> (flag: Option<Flag>)
        ensures
            flag == flag_named(name@),
    {
        if spells(name, "wgsl") {
            Some(Flag::Wgsl)
        } else if spells(name, "step") || spells(name, "steps") {
            Some(Flag::Steps)
        } else if spells(name, "ease") {
            Some(Flag::Ease)
        } else if spells(name, "cardinal") {
            Some(Flag::Cardinal)
        } else if spells(name, "str") {
            Some(Flag::Str)
        } else if spells(name, "clamp") {
            Some(Flag::Clamp)
        } else {
            None
        }
    }
}

/// What the attributes of an invocation ask for.
#[derive(Clone, Copy, Debug, PartialEq, Eq)]
pub struct Attributes {
    /// The token that names the variable, counted from 0; `x` where none
    /// does.
    pub variable: Option<usize>,
    pub grammar: Grammar,
    pub stringify: bool,
    pub clamp_input: bool,
    pub curve: Curve,
}

/// [`Attributes`] with the position of the variable as a mathematical
/// integer.
pub struct Settings {
    pub variable: Option<int>,
    pub grammar: Grammar,
    pub stringify: bool,
    pub clamp_input: bool,
    pub curve: Curve,
}

impl Settings {
    /// What holds where no attribute is given.
    pub open spec fn initial() -> Settings {
        Settings {
            variable: None,
            grammar: Grammar::Generic,
            stringify: false,
            clamp_input: false,
            curve: Curve::Linear,
        }
    }

    /// The settings after `flag`: the one field that the flag stands for is
    /// set, whatever it was.
    pub open spec fn with(self, flag: Flag) -> Settings {
        match flag {
            Flag::Wgsl => Settings { grammar: Grammar::Shader, ..self },
            Flag::Steps => Settings { curve: Curve::Steps, ..self },
            Flag::Ease => Settings { curve: Curve::Ease, ..self },
            Flag::Cardinal => Settings { curve: Curve::Cardinal, ..self },
            Flag::Str => Settings { stringify: true, ..self },
            Flag::Clamp => Settings { clamp_input: true, ..self },
        }
    }

    /// The settings after `@` and the identifier at `at`.
    pub open spec fn renamed(self, at: int) -> Settings {
        Settings { variable: Some(at), ..self }
    }
}

/// An attribute given twice counts once.
pub proof fn flag_is_idempotent(settings: Settings, flag: Flag)
    ensures
        settings.with(flag).with(flag) == settings.with(flag),
{
}

/// Of two attributes the later one decides the curve, where it names one.
pub proof fn later_curve_wins(settings: Settings, earlier: Flag, later: Flag)
    requires
        later == Flag::Steps || later == Flag::Ease || later == Flag::Cardinal,
    ensures
        settings.with(earlier).with(later).curve == settings.with(later).curve,
{
}

impl View for Attributes {
    type V = Settings;

    open spec fn view(&self) -> Settings {
        Settings {
            variable: match self.variable {
                Some(at) => Some(at as int),
                None => None,
            },
            grammar: self.grammar,
            stringify: self.stringify,
            clamp_input: self.clamp_input,
            curve: self.curve,
        }
    }
}

impl Attributes {
    pub fn new() -> (attributes: Attributes)
        ensures
            attributes@ == Settings::initial(),
    {
        Attributes {
            variable: None,
            grammar: Grammar::Generic,
            stringify: false,
            clamp_input: false,
            curve: Curve::Linear,
        }
    }

    pub fn with(self, flag: Flag) -> (attributes: Attributes)
        ensures
            attributes@ == self@.with(flag),
    {
        let mut attributes = self;
        match flag {
            Flag::Wgsl => attributes.grammar = Grammar::Shader,
            Flag::Steps => attributes.curve = Curve::Steps,
            Flag::Ease => attributes.curve = Curve::Ease,
            Flag::Cardinal => attributes.curve = Curve::Cardinal,
            Flag::Str => attributes.stringify = true,
            Flag::Clamp => attributes.clamp_input = true,
        }
        attributes
    }
}

/// The attributes read from the token at `at` on, given those read before
/// it, and the first token that is no part of them. Commas are passed over,
/// `@` takes the identifier after it as the variable, and any other
/// identifier must be an attribute word.
pub open spec fn attributes_from(tokens: Seq<Kind>, at: int, so_far: Settings) -> Result<
    (Settings, int),
    Failure,
>
    decreases tokens.len() - at,
{
    if at < 0 || at >= tokens.len() {
        Ok((so_far, at))
    } else {
        match tokens[at] {
            Kind::Punct { ch } => {
                if ch == ',' {
                    attributes_from(tokens, at + 1, so_far)
                } else if ch == '@' {
                    if at + 1 >= tokens.len() {
                        Err(Failure::MissingRenameTarget { at })
                    } else if tokens[at + 1] is Ident {
                        attributes_from(tokens, at + 2, so_far.renamed(at + 1))
                    } else {
                        Err(Failure::MissingRenameTarget { at: at + 1 })
                    }
                } else {
                    Ok((so_far, at))
                }
            },
            Kind::Ident { name } => match flag_named(name) {
                Some(flag) => attributes_from(tokens, at + 1, so_far.with(flag)),
                None => Err(Failure::UnknownAttribute { name, at }),
            },
            _ => Ok((so_far, at)),
        }
    }
}

/// The attributes at the head of an invocation.
pub open spec fn attributes_of(tokens: Seq<Kind>) -> Result<(Settings, int), Failure> {
    attributes_from(tokens, 0, Settings::initial())
}

/// The attributes end within the tokens, and the variable, where the
/// attributes name one, is an identifier among them.
pub proof fn attributes_lie_within(tokens: Seq<Kind>)
    ensures
        match attributes_of(tokens) {
            Ok((settings, next)) => 0 <= next <= tokens.len() && match settings.variable {
                Some(at) => 0 <= at < next && tokens[at] is Ident,
                None => true,
            },
            Err(_) => true,
        },
{
    attributes_stay_within(tokens, 0, Settings::initial());
}

proof fn attributes_stay_within(tokens: Seq<Kind>, at: int, so_far: Settings)
    requires
        0 <= at <= tokens.len(),
        match so_far.variable {
            Some(before) => 0 <= before < at && tokens[before] is Ident,
            None => true,
        },
    ensures
        match attributes_from(tokens, at, so_far) {
            Ok((settings, next)) => at <= next <= tokens.len() && match settings.variable {
                Some(at) => 0 <= at < next && tokens[at] is Ident,
                None => true,
            },
            Err(_) => true,
        },
    decreases tokens.len() - at,
{
    if at < tokens.len() {
        match tokens[at] {
            Kind::Punct { ch } => {
                if ch == ',' {
                    attributes_stay_within(tokens, at + 1, so_far);
                } else if ch == '@' && at + 1 < tokens.len() && tokens[at + 1] is Ident {
                    attributes_stay_within(tokens, at + 2, so_far.renamed(at + 1));
                }
            },
            Kind::Ident { name } => {
                if let Some(flag) = flag_named(name) {
                    attributes_stay_within(tokens, at + 1, so_far.with(flag));
                }
            },
            _ => {},
        }
    }
}

fn missing_rename_target(span: Span) -> (e: SpannedError)
    ensures
        e.reports(Failure::MissingRenameTarget { at: 0 }, seq![span]),
{
    SpannedError { string: String::from_str("Expected x variable."), span }
}

fn unknown_attribute(name: &String, span: Span) -> (e: SpannedError)
    ensures
        e.reports(Failure::UnknownAttribute { name: name@, at: 0 }, seq![span]),
{
    let string = String::from_str("Unknown attribute ").concat(name.as_str()).concat(".");
    SpannedError { string, span }
}

/// Reads the attributes at the head of an invocation, and says where they
/// end.
pub fn scan_attributes(tokens: &Vec<Token>) -> (r: Result<(Attributes, usize), SpannedError>)
    ensures
        match attributes_of(kinds(tokens@)) {
            Ok((settings, next)) => r matches Ok((attributes, end)) && attributes@ == settings
                && end == next,
            Err(failure) => r matches Err(e) && e.reports(failure, locations(tokens@)),
        },
{
    let mut attributes = Attributes::new();
    let mut i: usize = 0;
    while i < tokens.len()
        invariant
            i <= tokens.len(),
            attributes_of(kinds(tokens@)) == attributes_from(kinds(tokens@), i as int, attributes@),
        decreases tokens.len() - i,
    {
        match &tokens[i] {
            Token::Punct { ch, span } => {
                if *ch == ',' {
                    i += 1;
                } else if *ch == '@' {
                    if i + 1 >= tokens.len() {
                        return Err(missing_rename_target(*span));
                    }
                    match &tokens[i + 1] {
                        Token::Ident { .. } => {
                            attributes.variable = Some(i + 1);
                            i += 2;
                        },
                        other => {
                            return Err(missing_rename_target(other.span()));
                        },
                    }
                } else {
                    return Ok((attributes, i));
                }
            },
            Token::Ident { name, span } => match Flag::named(name) {
                Some(flag) => {
                    attributes = attributes.with(flag);
                    i += 1;
                },
                None => {
                    return Err(unknown_attribute(name, *span));
                },
            },
            _ => {
                return Ok((attributes, i));
            },
        }
    }
    Ok((attributes, i))
}

} // verus!
