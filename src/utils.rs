//! Markdown escaping and the library's error type.
use vstd::prelude::*;
use vstd::string::*;
use crate::text::{chars_of, push_char};

verus! {

/// Characters that must be preceded by a backslash in a MarkdownV2 message.
pub open spec fn is_md_special(c: char) -> bool {
    c == '\\' || c == '*' || c == '_' || c == '`' || c == '{' || c == '}' || c == '['
        || c == ']' || c == '(' || c == ')' || c == '#' || c == '+' || c == '-' || c == '.'
        || c == '!' || c == '|'
}

/// One character as it appears in escaped text.
pub open spec fn md_escaped_char(c: char) -> Seq<char> {
    if is_md_special(c) {
        seq!['\\', c]
    } else {
        seq![c]
    }
}

/// `s` with a backslash put before each special character.
pub open spec fn md_escaped(s: Seq<char>) -> Seq<char>
    decreases s.len(),
{
    if s.len() == 0 {
        Seq::empty()
    } else {
        md_escaped(s.drop_last()) + md_escaped_char(s.last())
    }
}

fn is_special_char(c: char) -> (r: bool)
    ensures
        r == is_md_special(c),
{
    c == '\\' || c == '*' || c == '_' || c == '`' || c == '{' || c == '}' || c == '['
        || c == ']' || c == '(' || c == ')' || c == '#' || c == '+' || c == '-' || c == '.'
        || c == '!' || c == '|'
}

/// Escapes every MarkdownV2 special character of `s` with a backslash.
pub fn md_escape(s: &String) -> (r: String)
    ensures
        r@ == md_escaped(s@),
{
    let chars = chars_of(s.as_str());
    let mut out = String::new();
    let mut i: usize = 0;
    while i < chars.len()
        invariant
            i <= chars@.len(),
            chars@ == s@,
            out@ == md_escaped(chars@.take(i as int)),
        decreases chars@.len() - i,
    {
        let c = chars[i];
        if is_special_char(c) {
            push_char(&mut out, '\\');
        }
        push_char(&mut out, c);
        assert(chars@.take(i + 1).drop_last() =~= chars@.take(i as int));
        assert(chars@.take(i + 1).last() == c);
        i = i + 1;
    }
    assert(chars@.take(chars@.len() as int) =~= chars@);
    out
}

/// Errors of the extraction step.
#[derive(Debug, Clone, PartialEq, Eq)]
pub enum TBotError {
    /// A mandatory field of an item could not be found; holds the field's name.
    BookFieldNotFound(String),
}

impl TBotError {
    /// The name of the missing field.
    pub fn description(&self) -> (r: String)
        ensures
            match self {
                TBotError::BookFieldNotFound(s) => r@ == s@,
            },
    {
        match self {
            TBotError::BookFieldNotFound(s) => s.clone(),
        }
    }

    /// A readable message for the error.
    pub fn message(&self) -> (r: String)
        ensures
            match self {
                TBotError::BookFieldNotFound(s) => r@ == "Book field not found: "@ + s@,
            },
    {
        match self {
            TBotError::BookFieldNotFound(s) => {
                let mut m = String::from_str("Book field not found: ");
                m.append(s.as_str());
                m
            },
        }
    }
}

} // verus!
