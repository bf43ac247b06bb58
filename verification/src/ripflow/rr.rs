//! Definition and structures for the runtime representation (RR) of a program.
//!
//! The RR acts as an abstract syntax tree as well, since the language is
//! entirely expression-based.

use std::sync::Arc;
use vstd::prelude::*;

verus! {

/// Abstract representation of an expression.
///
/// Contains a variant for each different expression type.
#[derive(Debug)]
pub enum Expr {
    /// The "empty" value. This is equivalent to a unit type or "null" in some languages.
    Nil,
    /// A string value.
    String(RString),
    /// A list of values.
    List(RList),
    /// A function call.
    Call {
        /// The function to invoke. Could be a binding name or a block.
        function: Box<Expr>,
        /// A list of arguments to pass to the function.
        args: RList,
    },
    /// A function block, containing a list of expressions to execute.
    Block(RList),
}

/// A string value.
///
/// Since strings are copied and tossed around quite a bit, the string is
/// reference counted to reduce memory and copying.
#[derive(Debug)]
pub struct RString(Arc<String>);

/// A list of values.
#[derive(Debug)]
pub struct RList(Vec<Expr>);

/// `c` is a copy of `e` at the top: the same variant, the same string, and
/// lists of the same length.
pub open spec fn copies(c: Expr, e: Expr) -> bool {
    match (c, e) {
        (Expr::Nil, Expr::Nil) => true,
        (Expr::String(a), Expr::String(b)) => a@ == b@,
        (Expr::List(a), Expr::List(b)) => a@.len() == b@.len(),
        (Expr::Call { args: a, .. }, Expr::Call { args: b, .. }) => a@.len() == b@.len(),
        (Expr::Block(a), Expr::Block(b)) => a@.len() == b@.len(),
        _ => false,
    }
}

impl Clone for RString {
    fn clone(&self) -> (s: RString)
        ensures
            s@ == self@,
    {
        RString(Arc::clone(&self.0))
    }
}

impl Clone for Expr {
    fn clone(&self) -> (e: Expr)
        ensures
            copies(e, *self),
            truthy(e) == truthy(*self),
    {
        clone_expr(self)
    }
}

impl Clone for RList {
    fn clone(&self) -> (l: RList)
        ensures
            l@.len() == self@.len(),
    {
        clone_list(self)
    }
}

/// A copy of an expression; the copy shares its strings with the expression.
fn clone_expr(e: &Expr) -> (c: Expr)
    ensures
        copies(c, *e),
    decreases e,
{
    match e {
        Expr::Nil => Expr::Nil,
        Expr::String(s) => Expr::String(s.clone()),
        Expr::List(l) => Expr::List(clone_list(l)),
        Expr::Call { function, args } => Expr::Call {
            function: Box::new(clone_expr(function)),
            args: clone_list(args),
        },
        Expr::Block(l) => Expr::Block(clone_list(l)),
    }
}

/// A copy of a list, item by item.
fn clone_list(l: &RList) -> (c: RList)
    ensures
        c@.len() == l@.len(),
    decreases l,
{
    let mut items: Vec<Expr> = Vec::new();
    let mut i: usize = 0;
    while i < l.0.len()
        invariant
            i <= l.0.len(),
            items@.len() == i,
        decreases l.0.len() - i,
    {
        proof {
            assert(decreases_to!(l => l.0));
            vstd::std_specs::vec::axiom_vec_index_decreases(l.0, i as int);
        }
        items.push(clone_expr(&l.0[i]));
        i += 1;
    }
    RList(items)
}

impl View for RString {
    type V = Seq<char>;

    closed spec fn view(&self) -> Seq<char> {
        self.0@
    }
}

impl View for RList {
    type V = Seq<Expr>;

    closed spec fn view(&self) -> Seq<Expr> {
        self.0@
    }
}

/// Whether an expression is truthy: nil, the empty string and the empty list
/// are falsey, and all other values are truthy.
pub open spec fn truthy(e: Expr) -> bool {
    match e {
        Expr::Nil => false,
        Expr::String(s) => s@.len() > 0,
        Expr::List(l) => l@.len() > 0,
        _ => true,
    }
}

impl Expr {
    /// Determine if this expression is considered a truthy value.
    ///
    /// Nil, the empty string, and the empty list are considered falsey, and all
    /// other values are considered truthy.
    pub fn is_truthy(&self) -> (r: bool)
        ensures
            r == truthy(*self),
    {
        match self {
            Expr::Nil => false,
            Expr::String(value) => {
                proof {
                    crate::strings::lemma_encode_empty(value@);
                }
                crate::strings::string_byte_len(&value.0) > 0
            },
            Expr::List(items) => items.0.len() > 0,
            _ => true,
        }
    }

    /// The string held by a string expression.
    pub fn as_string(&self) -> (r: Option<&RString>)
        ensures
            match *self {
                Expr::String(s) => r == Some(&s),
                _ => r is None,
            },
    {
        match self {
            Expr::String(s) => Some(s),
            _ => None,
        }
    }

    /// The list held by a list expression.
    pub fn as_list(&self) -> (r: Option<&RList>)
        ensures
            match *self {
                Expr::List(l) => r == Some(&l),
                _ => r is None,
            },
    {
        match self {
            Expr::List(l) => Some(l),
            _ => None,
        }
    }
}

impl RString {
    /// The text of the string.
    pub fn as_str(&self) -> (r: &str)
        ensures
            r@ == self@,
    {
        self.0.as_str()
    }
}

impl RList {
    /// The number of values in the list.
    pub fn len(&self) -> (n: usize)
        ensures
            n == self@.len(),
    {
        self.0.len()
    }
}

impl vstd::std_specs::convert::FromSpecImpl<String> for RString {
    open spec fn obeys_from_spec() -> bool {
        false
    }

    closed spec fn from_spec(value: String) -> Self {
        RString(Arc::new(value))
    }
}

impl From<String> for RString {
    fn from(value: String) -> (r: RString)
        ensures
            r@ == value@,
    {
        RString(Arc::new(value))
    }
}

impl<'a> vstd::std_specs::convert::FromSpecImpl<&'a str> for RString {
    open spec fn obeys_from_spec() -> bool {
        false
    }

    closed spec fn from_spec(value: &'a str) -> Self {
        vstd::pervasive::arbitrary()
    }
}

impl<'a> From<&'a str> for RString {
    fn from(value: &'a str) -> (r: RString)
        ensures
            r@ == value@,
    {
        RString(Arc::new(String::from_str(value)))
    }
}

impl vstd::std_specs::convert::FromSpecImpl<Vec<Expr>> for RList {
    open spec fn obeys_from_spec() -> bool {
        false
    }

    closed spec fn from_spec(items: Vec<Expr>) -> Self {
        RList(items)
    }
}

impl From<Vec<Expr>> for RList {
    fn from(items: Vec<Expr>) -> (r: RList)
        ensures
            r@ == items@,
    {
        RList(items)
    }
}

impl vstd::std_specs::convert::FromSpecImpl<RString> for Expr {
    open spec fn obeys_from_spec() -> bool {
        true
    }

    open spec fn from_spec(value: RString) -> Self {
        Expr::String(value)
    }
}

impl From<RString> for Expr {
    fn from(value: RString) -> (e: Expr) {
        Expr::String(value)
    }
}

impl vstd::std_specs::convert::FromSpecImpl<String> for Expr {
    open spec fn obeys_from_spec() -> bool {
        false
    }

    closed spec fn from_spec(value: String) -> Self {
        Expr::String(RString(Arc::new(value)))
    }
}

impl From<String> for Expr {
    fn from(value: String) -> (e: Expr)
        ensures
            e matches Expr::String(s) && s@ == value@,
    {
        Expr::String(RString::from(value))
    }
}

impl<'a> vstd::std_specs::convert::FromSpecImpl<&'a str> for Expr {
    open spec fn obeys_from_spec() -> bool {
        false
    }

    closed spec fn from_spec(value: &'a str) -> Self {
        vstd::pervasive::arbitrary()
    }
}

impl<'a> From<&'a str> for Expr {
    fn from(value: &'a str) -> (e: Expr)
        ensures
            e matches Expr::String(s) && s@ == value@,
    {
        Expr::String(RString::from(value))
    }
}

} // verus!
