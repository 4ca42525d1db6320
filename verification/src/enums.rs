//! Enumerations by name: the text that stands for each variant, and the
//! variant that a text stands for.
//!
//! A variant is written as its name in snake case and upper case, and read
//! back whatever the case of the text.

use crate::text::{lowercase, lowercased};
use vstd::prelude::*;

verus! {

/// What `change_case::snake_case` makes of a text.
pub uninterp spec fn snake_named(text: Seq<char>) -> Seq<char>;

/// What `str::to_uppercase` makes of a text.
pub uninterp spec fn uppercased(text: Seq<char>) -> Seq<char>;

/// `change_case::snake_case`: the text in snake case, a function of the text
/// alone.
#[verifier::external_body]
fn snake_name(text: &str) -> (r: String)
    ensures
        r@ == snake_named(text@),
{
    change_case::snake_case(text)
}

/// `str::to_uppercase`: the uppercase equivalent of the text, a function of
/// the text alone.
#[verifier::external_body]
fn uppercase(text: &str) -> (r: String)
    ensures
        r@ == uppercased(text@),
{
    text.to_uppercase()
}

/// An enumeration: the names of its variants, in order, and the variant
/// that an unknown text falls back to, if there is one.
#[derive(Debug, PartialEq, Eq)]
pub struct Variants {
    pub names: Vec<String>,
    pub fallback: Option<usize>,
}

/// The text that a variant is read from: its name in snake case.
pub open spec fn read_name(variant: Seq<char>) -> Seq<char> {
    snake_named(variant)
}

/// The text that a variant is written as: its name in snake case and upper
/// case.
pub open spec fn written_name(variant: Seq<char>) -> Seq<char> {
    uppercased(snake_named(variant))
}

/// The first variant among the first `upto` whose name `text` stands for,
/// whatever the case of `text`.
pub open spec fn named_below(names: Seq<String>, text: Seq<char>, upto: int) -> Option<int>
    decreases upto,
{
    if upto <= 0 {
        None
    } else {
        match named_below(names, text, upto - 1) {
            Some(i) => Some(i),
            None => if read_name(names[upto - 1]@) == lowercased(text) {
                Some(upto - 1)
            } else {
                None
            },
        }
    }
}

/// The first variant whose name `text` stands for.
pub open spec fn named(names: Seq<String>, text: Seq<char>) -> Option<int> {
    named_below(names, text, names.len() as int)
}

impl Variants {
    /// The text that variant `index` is written as; `None` where there is
    /// no such variant.
    pub fn write(&self, index: usize) -> (r: Option<String>)
        ensures
            match r {
                Some(t) => index < self.names@.len() && t@ == written_name(
                    self.names@[index as int]@,
                ),
                None => index >= self.names@.len(),
            },
    {
        if index < self.names.len() {
            let snake = snake_name(self.names[index].as_str());
            Some(uppercase(snake.as_str()))
        } else {
            None
        }
    }

    /// The variant that `text` stands for, whatever its case: the first one
    /// whose name in snake case is `text` in lower case. `None` for any
    /// other text.
    pub fn read(&self, text: &str) -> (r: Option<usize>)
        ensures
            match r {
                Some(i) => named(self.names@, text@) == Some(i as int),
                None => named(self.names@, text@) is None,
            },
    {
        let wanted = lowercase(text);
        let mut i: usize = 0;
        while i < self.names.len()
            invariant
                i <= self.names.len(),
                wanted@ == lowercased(text@),
                named_below(self.names@, text@, i as int) is None,
            decreases self.names.len() - i,
        {
            if snake_name(self.names[i].as_str()) == wanted {
                proof {
                    lemma_named_from(self.names@, text@, i as int + 1, self.names@.len() as int);
                }
                return Some(i);
            }
            i += 1;
        }
        None
    }

    /// The variant that `text` is converted to: the one it stands for, or
    /// the fallback of the enumeration, where it has one, for any other
    /// text.
    pub fn convert(&self, text: &str) -> (r: Option<usize>)
        ensures
            r == match named(self.names@, text@) {
                Some(i) => Some(i as usize),
                None => match self.fallback {
                    Some(i) => if i < self.names@.len() {
                        Some(i)
                    } else {
                        None
                    },
                    None => None,
                },
            },
    {
        match self.read(text) {
            Some(i) => Some(i),
            None => match self.fallback {
                Some(i) => if i < self.names.len() {
                    Some(i)
                } else {
                    None
                },
                None => None,
            },
        }
    }
}

/// A variant found among the first names is the one found among more of
/// them.
proof fn lemma_named_from(names: Seq<String>, text: Seq<char>, found: int, upto: int)
    requires
        0 < found <= upto <= names.len(),
        named_below(names, text, found) is Some,
    ensures
        named_below(names, text, upto) == named_below(names, text, found),
    decreases upto - found,
{
    if found < upto {
        lemma_named_from(names, text, found, upto - 1);
    }
}

} // verus!
