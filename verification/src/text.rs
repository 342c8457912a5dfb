//! The words that a frame shows.

use vstd::prelude::*;
use vstd::string::*;
use crate::session::Prompt;

verus! {

/// `String::push` of std: the character is appended at the end.
#[verifier::external_body]
pub(crate) fn push_char(text: &mut String, c: char)
    ensures
        final(text)@ == old(text)@.push(c),
{
    text.push(c);
}

/// The character of a decimal digit.
pub open spec fn digit(d: nat) -> char
    recommends
        d < 10,
{
    ((48 + d) as u8) as char
}

/// A number in decimal, without leading zeros.
pub open spec fn decimal(n: nat) -> Seq<char>
    decreases n,
{
    if n < 10 {
        seq![digit(n)]
    } else {
        decimal(n / 10).push(digit(n % 10))
    }
}

/// Appends a number in decimal.
pub fn append_decimal(text: &mut String, n: u64)
    ensures
        final(text)@ == old(text)@ + decimal(n as nat),
    decreases n,
{
    if n >= 10 {
        append_decimal(text, n / 10);
    }
    let last: u8 = 48u8 + (n % 10) as u8;
    push_char(text, last as char);
    assert(text@ =~= old(text)@ + decimal(n as nat));
}

impl Prompt {
    /// The line as it is shown, with a blank at either end.
    pub open spec fn wording(&self) -> Seq<char> {
        match *self {
            Prompt::Controls => " Use arrow keys for navigation || Escape to quit. "@,
            Prompt::Score(score) => " Score: "@ + decimal(score as nat) + " "@,
            Prompt::Start => " Space to start || Escape to quit. "@,
        }
    }

    /// The line as a string.
    pub fn text(&self) -> (line: String)
        ensures
            line@ == self.wording(),
    {
        match *self {
            Prompt::Controls => String::from_str(
                " Use arrow keys for navigation || Escape to quit. ",
            ),
            Prompt::Score(score) => {
                let mut line = String::from_str(" Score: ");
                append_decimal(&mut line, score);
                line.append(" ");
                line
            },
            Prompt::Start => String::from_str(" Space to start || Escape to quit. "),
        }
    }
}

} // verus!
