//! Marks and texts for the cells of a table.

use vstd::prelude::*;
use vstd::string::*;

verus! {

/// The mark of a side that has a key.
pub const CHECKMARK: &'static str = "\u{2713}";

/// The mark of a side that misses a key.
pub const MULTIPLY: &'static str = "\u{00D7}";

/// The colours that the marks are shown in.
#[derive(Debug, Clone, Copy, PartialEq, Eq, Structural)]
pub enum Color {
    Green,
    Red,
}

/// The model of a [`ColoredString`].
pub struct ColoredView {
    pub input: Seq<char>,
    pub fgcolor: Color,
}

/// A text and the colour it is shown in.
#[derive(Debug, Clone, PartialEq)]
pub struct ColoredString {
    pub input: String,
    pub fgcolor: Color,
}

impl View for ColoredString {
    type V = ColoredView;

    open spec fn view(&self) -> ColoredView {
        ColoredView { input: self.input@, fgcolor: self.fgcolor }
    }
}

impl ColoredString {
    pub fn new(input: &str, fgcolor: Color) -> (made: ColoredString)
        ensures
            made@ == (ColoredView { input: input@, fgcolor }),
    {
        ColoredString { input: input.to_owned(), fgcolor }
    }

    /// The text as it is written to a terminal: within the escape sequences
    /// of its colour where the process writes colours, else as it is.
    pub fn to_string(&self) -> (shown: String)
        ensures
            shown@ == self@.input || shown@ == colored_text(self@),
    {
        paint(self)
    }
}

/// The text as colored writes it where it writes colours: behind the escape
/// sequence of its colour and before the one that resets the colour, with the
/// colour set anew behind every reset within the text.
pub uninterp spec fn colored_text(text: ColoredView) -> Seq<char>;

/// Calls colored's `Colorize::color` on the text and its `Display` on what
/// comes back. colored decides by the process's environment, by its output
/// being a terminal and by an override that the process may have set whether
/// it writes colours. Where it does not, the result is the text as it is;
/// where it does, it is the text that `colored_text` names.
#[verifier::external_body]
fn paint(text: &ColoredString) -> (shown: String)
    ensures
        shown@ == text@.input || shown@ == colored_text(text@),
{
    let colored = match text.fgcolor {
        Color::Green => colored::Colorize::color(text.input.as_str(), colored::Color::Green),
        Color::Red => colored::Colorize::color(text.input.as_str(), colored::Color::Red),
    };
    colored.to_string()
}

/// What serde_json makes of a text that it can read as JSON: the same value
/// written out again on several indented lines. `None` where it cannot read
/// the text.
pub uninterp spec fn pretty_json_text(json_str: Seq<char>) -> Option<Seq<char>>;

/// Calls serde_json's `from_str` for a `Value` and, on what it read, its
/// `to_string_pretty`. The result is `None` where either fails, else the
/// text that `pretty_json_text` names.
#[verifier::external_body]
fn pretty_json(json_str: &str) -> (pretty: Option<String>)
    ensures
        pretty is Some == pretty_json_text(json_str@) is Some,
        pretty is Some ==> pretty->Some_0@ == pretty_json_text(json_str@)->Some_0,
{
    match serde_json::from_str::<serde_json::Value>(json_str) {
        Ok(value) => serde_json::to_string_pretty(&value).ok(),
        Err(_) => None,
    }
}

/// A text as it is shown in a cell: laid out as JSON where it is JSON, else
/// unchanged.
pub open spec fn sanitized(json_str: Seq<char>) -> Seq<char> {
    match pretty_json_text(json_str) {
        Some(pretty) => pretty,
        None => json_str,
    }
}

/// The text laid out, where there is one; else the text as it was given.
pub fn pretty_or_unchanged(pretty: Option<String>, json_str: &str) -> (text: String)
    ensures
        text@ == match pretty {
            Some(laid_out) => laid_out@,
            None => json_str@,
        },
{
    match pretty {
        Some(laid_out) => laid_out,
        None => json_str.to_owned(),
    }
}

/// Lays a text out as JSON where it is JSON, and returns it unchanged where
/// it is not.
pub fn sanitize_json_str(json_str: &str) -> (text: String)
    ensures
        text@ == sanitized(json_str@),
{
    pretty_or_unchanged(pretty_json(json_str), json_str)
}

} // verus!
