//! Themes: how the shell's prompt looks.

use crate::strings::{replaced, str_replace};
use vstd::prelude::*;

verus! {

/// A named set of display settings.
#[derive(Clone, Debug)]
pub struct Theme {
    pub name: String,
    pub prompt: Option<Prompt>,
}

/// How the prompt is laid out.
#[derive(Clone, Debug)]
pub struct Prompt {
    /// The text that ends the prompt.
    pub format: Option<String>,
    /// The text written after each item.
    pub item_separator: Option<String>,
    /// The text of an item; `%s` stands for the working directory.
    pub item_format: Option<String>,
}

/// The item and the rest of the default prompt that `theme` lays out for the
/// working directory `cwd`, when it sets all three prompt fields: the item
/// format with each `%s` replaced by the directory, and then the item
/// separator, the prompt format and a space.
pub open spec fn prompt_pieces_of(theme: Theme, cwd: Seq<char>) -> Option<(Seq<char>, Seq<char>)> {
    match theme.prompt {
        Some(p) => match (p.item_format, p.item_separator, p.format) {
            (Some(item), Some(sep), Some(format)) => Some(
                (replaced(item@, "%s"@, cwd), sep@ + format@ + " "@),
            ),
            _ => None,
        },
        None => None,
    }
}

impl Theme {
    /// The item and the rest of the default prompt for the working directory
    /// `cwd`; `None` when the theme leaves one of the prompt fields unset.
    pub fn prompt_pieces(&self, cwd: &str) -> (r: Option<(String, String)>)
        ensures
            match r {
                Some((item, rest)) => prompt_pieces_of(*self, cwd@) == Some((item@, rest@)),
                None => prompt_pieces_of(*self, cwd@) is None,
            },
    {
        match &self.prompt {
            Some(p) => match (&p.item_format, &p.item_separator, &p.format) {
                (Some(item), Some(sep), Some(format)) => {
                    proof {
                        reveal_strlit("%s");
                    }
                    let item = str_replace(item.as_str(), "%s", cwd);
                    let mut rest = String::from_str(sep.as_str());
                    rest.append(format.as_str());
                    rest.append(" ");
                    Some((item, rest))
                },
                _ => None,
            },
            None => None,
        }
    }
}

} // verus!
