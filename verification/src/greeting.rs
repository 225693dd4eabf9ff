//! Greeting messages in three styles.

use vstd::prelude::*;
use vstd::string::StringExecFns;

verus! {

/// The style of a greeting.
#[derive(Debug, Clone, Copy, PartialEq, Eq, Structural)]
pub enum GreetingStyle {
    /// "Good day, Name."
    Formal,
    /// "Hey, Name!"
    Casual,
    /// "HELLO NAME!!!"
    Enthusiastic,
}

/// The text in upper case, as `str::to_uppercase` gives it.
pub uninterp spec fn uppercase(text: Seq<char>) -> Seq<char>;

/// `str::to_uppercase`: the text in upper case.
#[verifier::external_body]
fn to_uppercase(text: &str) -> (upper: String)
    ensures
        upper@ == uppercase(text@),
{
    text.to_uppercase()
}

/// A greeting: the name between the words of the style.
pub open spec fn framed(before: &str, name: Seq<char>, after: &str) -> Seq<char> {
    before@ + name + after@
}

/// The greeting for a name in a style; the enthusiastic style takes the name
/// as it is to be shown, in upper case.
pub open spec fn greeting(name: Seq<char>, style: GreetingStyle) -> Seq<char> {
    match style {
        GreetingStyle::Formal => framed("Good day, ", name, "."),
        GreetingStyle::Casual => framed("Hey, ", name, "!"),
        GreetingStyle::Enthusiastic => framed("HELLO ", uppercase(name), "!!!"),
    }
}

/// The name between two texts.
pub fn frame(before: &str, name: &str, after: &str) -> (text: String)
    ensures
        text@ == framed(before, name@, after),
{
    let mut text = String::from_str(before);
    text.append(name);
    text.append(after);
    text
}

/// Creates a greeting for the name in the given style.
pub fn create_greeting(name: &str, style: GreetingStyle) -> (text: String)
    ensures
        text@ == greeting(name@, style),
{
    match style {
        GreetingStyle::Formal => frame("Good day, ", name, "."),
        GreetingStyle::Casual => frame("Hey, ", name, "!"),
        GreetingStyle::Enthusiastic => {
            let upper = to_uppercase(name);
            frame("HELLO ", upper.as_str(), "!!!")
        },
    }
}

} // verus!
