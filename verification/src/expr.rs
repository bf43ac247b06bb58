//! In-memory representation of expression trees.
//!
//! Everything is represented as expressions, both source code and data. An
//! expression tree is used as an AST when a script is parsed. The same
//! expression tree becomes the memory model for a running script later,
//! which functions operate on.

use std::sync::Arc;
use vstd::prelude::*;

verus! {

/// Abstract representation of an expression.
#[derive(Debug)]
pub enum Expression {
    /// An empty value. This is equivalent to a unit type or "null" in some languages.
    Nil,
    /// A single value. Values are always represented as strings.
    Atom(String),
    /// An ordered list of expressions.
    List(Vec<Expression>),
    /// A lambda function.
    ///
    /// Lambdas are not put into an expression tree at parse time. Instead,
    /// they are created at runtime using the `lambda` builtin function.
    Lambda(Arc<Function>),
}

/// Structure of a function definition.
///
/// User functions consist of an argument list, and a body. The body is an
/// expression, which gets executed on every invocation. The argument list is
/// a list of names that are used inside the body.
#[derive(Debug)]
pub struct Function {
    pub params: Vec<String>,
    pub body: Expression,
}

impl Clone for Expression {
    fn clone(&self) -> (c: Self)
        ensures
            copy_of(c, *self),
    {
        clone_value(self)
    }
}

impl Clone for Function {
    fn clone(&self) -> (f: Self)
        ensures
            f.body.shown() == self.body.shown(),
    {
        Function { params: self.params.clone(), body: clone_value(&self.body) }
    }
}

/// A copy of an expression; the copy shares its lambdas' functions with the
/// expression.
fn clone_value(e: &Expression) -> (c: Expression)
    ensures
        copy_of(c, *e),
    decreases e,
{
    match e {
        Expression::Nil => Expression::Nil,
        Expression::Atom(s) => Expression::Atom(s.clone()),
        Expression::List(items) => Expression::List(clone_values(items)),
        Expression::Lambda(f) => Expression::Lambda(Arc::clone(f)),
    }
}

/// A copy of a list of expressions, item by item.
fn clone_values(items: &Vec<Expression>) -> (c: Vec<Expression>)
    ensures
        c@.len() == items@.len(),
        shown_items(c@) == shown_items(items@),
    decreases items,
{
    let mut copy: Vec<Expression> = Vec::new();
    let mut i: usize = 0;
    while i < items.len()
        invariant
            i <= items.len(),
            copy@.len() == i,
            forall|j: int| 0 <= j < i ==> (#[trigger] copy@[j]).shown() == items@[j].shown(),
        decreases items.len() - i,
    {
        proof {
            vstd::std_specs::vec::axiom_vec_index_decreases(*items, i as int);
        }
        copy.push(clone_value(&items[i]));
        i += 1;
    }
    proof {
        assert(shown_items(copy@) =~= shown_items(items@));
    }
    copy
}

/// The lowercase form of a string, as `str::to_lowercase` computes it.
pub uninterp spec fn lowercase(s: Seq<char>) -> Seq<char>;

/// Wraps `str::to_lowercase`: the string with every character mapped to its
/// Unicode lowercase form. The result is named, not described: the mapping
/// is the standard library's. A result longer than `isize::MAX` bytes would
/// make the standard library panic; nothing here rules that out.
#[verifier::external_body]
fn str_to_lowercase(s: &str) -> (r: String)
    ensures
        r@ == lowercase(s@),
{
    s.to_lowercase()
}

/// The items of a list shown between parentheses, with a space between each
/// two.
fn list_text(items: &Vec<Expression>) -> (s: String)
    ensures
        s@ == "("@ + join_spaced(shown_items(items@)) + ")"@,
    decreases items,
{
    let ghost parts = shown_items(items@);
    let mut text = String::from_str("(");
    let mut i: usize = 0;
    while i < items.len()
        invariant
            i <= items.len(),
            parts.len() == items.len(),
            forall|j: int| 0 <= j < items.len() ==> parts[j] == #[trigger] items@[j].shown(),
            text@ == "("@ + join_spaced(parts.take(i as int)),
        decreases items.len() - i,
    {
        proof {
            vstd::std_specs::vec::axiom_vec_index_decreases(*items, i as int);
        }
        let item = items[i].to_text();
        if i > 0 {
            text.append(" ");
        }
        text.append(item.as_str());
        proof {
            let t = parts.take(i + 1);
            assert(t.drop_last() =~= parts.take(i as int));
            if i == 0 {
                assert(join_spaced(t) == t[0]);
            }
        }
        i += 1;
    }
    text.append(")");
    proof {
        assert(parts.take(items.len() as int) =~= parts);
    }
    text
}

/// The text of the atom for a truth value.
pub open spec fn truth_text(b: bool) -> Seq<char> {
    if b {
        "true"@
    } else {
        "false"@
    }
}

/// `c` is a copy of `e`: it is shown the same, is nil and has a value
/// alike, is of the same kind, and is `e` itself unless `e` is a list.
pub open spec fn copy_of(c: Expression, e: Expression) -> bool {
    &&& c.shown() == e.shown()
    &&& c.nil() == e.nil()
    &&& c.value() == e.value()
    &&& !(e is List) ==> c == e
    &&& (e is List <==> c is List)
}

/// Whether an atom with the given value is truthy, given its lowercase form:
/// `0`, the empty string and any casing of `false` are falsey.
pub open spec fn atom_truthy(value: Seq<char>, lowered: Seq<char>) -> bool {
    !(value == "0"@ || value.len() == 0 || lowered == "false"@)
}

/// The parts joined with a space between each two.
pub open spec fn join_spaced(parts: Seq<Seq<char>>) -> Seq<char>
    decreases parts.len(),
{
    if parts.len() == 0 {
        Seq::<char>::empty()
    } else if parts.len() == 1 {
        parts[0]
    } else {
        join_spaced(parts.drop_last()) + " "@ + parts.last()
    }
}

/// How each expression of a sequence is shown.
pub open spec fn shown_items(items: Seq<Expression>) -> Seq<Seq<char>>
    decreases items,
{
    Seq::new(
        items.len(),
        |i: int|
            if 0 <= i < items.len() {
                items[i].shown()
            } else {
                Seq::<char>::empty()
            },
    )
}

impl Expression {
    /// Whether this is nil or the empty list.
    pub open spec fn nil(self) -> bool {
        match self {
            Expression::Nil => true,
            Expression::List(items) => items@.len() == 0,
            _ => false,
        }
    }

    /// The value of an atom.
    pub open spec fn value(self) -> Option<Seq<char>> {
        match self {
            Expression::Atom(s) => Some(s@),
            _ => None,
        }
    }

    /// How an expression is shown: nil as `()`, an atom as its value, a list
    /// as its items shown between parentheses with a space between each
    /// two, and a lambda as `#lambda#`.
    pub open spec fn shown(self) -> Seq<char>
        decreases self,
    {
        match self {
            Expression::Nil => "()"@,
            Expression::Atom(s) => s@,
            Expression::List(items) => {
                proof {
                    vstd::std_specs::vec::axiom_vec_decreases_to_view(items);
                }
                "("@ + join_spaced(shown_items(items@)) + ")"@
            },
            Expression::Lambda(_) => "#lambda#"@,
        }
    }

    /// Whether the expression counts as true: nil, the empty list and the
    /// atoms `0`, empty and any casing of `false` do not.
    pub open spec fn truthy(self) -> bool {
        match self {
            Expression::Nil => false,
            Expression::Atom(v) => atom_truthy(v@, lowercase(v@)),
            Expression::List(items) => items@.len() > 0,
            Expression::Lambda(_) => true,
        }
    }

    /// The atom `true` or `false`.
    pub fn truth(b: bool) -> (e: Self)
        ensures
            e is Atom,
            e.value() == Some(truth_text(b)),
    {
        if b {
            Expression::Atom(String::from_str("true"))
        } else {
            Expression::Atom(String::from_str("false"))
        }
    }

    /// Create a new atom.
    pub fn atom(value: String) -> (e: Self)
        ensures
            e.value() == Some(value@),
    {
        Expression::Atom(value)
    }

    /// Create a new lambda function.
    pub fn create_lambda(params: Vec<String>, body: Expression) -> (e: Self)
        ensures
            e matches Expression::Lambda(f) && f.params@ == params@ && f.body == body,
    {
        Expression::Lambda(Arc::new(Function { params, body }))
    }

    /// Determine if this expression is equivalent to Nil, or ().
    pub fn is_nil(&self) -> (r: bool)
        ensures
            r == self.nil(),
    {
        match self {
            Expression::Nil => true,
            Expression::List(items) => items.len() == 0,
            _ => false,
        }
    }

    /// Determine if this expression is considered a truthy value: nil, the
    /// empty list and falsey atoms are not.
    pub fn is_truthy(&self) -> (r: bool)
        ensures
            r == self.truthy(),
    {
        match self {
            Expression::Nil => false,
            Expression::Atom(value) => {
                let lowered = str_to_lowercase(value.as_str());
                is_truthy_atom(value.as_str(), lowered.as_str())
            },
            Expression::List(items) => items.len() > 0,
            Expression::Lambda(_) => true,
        }
    }

    /// If this is an atom expression, get its value.
    pub fn as_value(&self) -> (r: Option<&str>)
        ensures
            match r {
                Some(s) => self.value() == Some(s@),
                None => self.value() is None,
            },
    {
        if let Expression::Atom(s) = self {
            Some(s.as_str())
        } else {
            None
        }
    }

    /// If this is a non-empty list, return a reference to its contents.
    pub fn as_items(&self) -> (r: Option<&[Expression]>)
        ensures
            match *self {
                Expression::List(items) => if items@.len() > 0 {
                    r matches Some(s) && s@ == items@
                } else {
                    r is None
                },
                _ => r is None,
            },
    {
        match self {
            Expression::List(items) => if items.len() > 0 {
                Some(items.as_slice())
            } else {
                None
            },
            _ => None,
        }
    }

    /// If this is a lambda, get its function definition.
    pub fn as_lambda(&self) -> (r: Option<Arc<Function>>)
        ensures
            match *self {
                Expression::Lambda(f) => r matches Some(g) && *g == *f,
                _ => r is None,
            },
    {
        match self {
            Expression::Lambda(function) => Some(Arc::clone(function)),
            _ => None,
        }
    }

    /// Attempt to decompose the expression into its items if it is a
    /// non-empty list; otherwise the expression is handed back.
    pub fn into_items(self) -> (r: Result<Vec<Expression>, Self>)
        ensures
            match self {
                Expression::List(items) => if items@.len() > 0 {
                    r matches Ok(v) && v@ == items@
                } else {
                    r == Err::<Vec<Expression>, Self>(self)
                },
                _ => r == Err::<Vec<Expression>, Self>(self),
            },
    {
        match self {
            Expression::List(items) => if items.len() > 0 {
                Ok(items)
            } else {
                Err(Expression::List(items))
            },
            other => Err(other),
        }
    }

    /// The expression as text: nil as `()`, an atom as its value, a list as
    /// its items between parentheses with a space between each two, and a
    /// lambda as `#lambda#`.
    pub fn to_text(&self) -> (s: String)
        ensures
            s@ == self.shown(),
        decreases self,
    {
        match self {
            Expression::Nil => String::from_str("()"),
            Expression::Atom(s) => s.clone(),
            Expression::List(items) => list_text(items),
            Expression::Lambda(_) => String::from_str("#lambda#"),
        }
    }
}

/// Whether an atom with the given value is truthy, given the value's
/// lowercase form.
pub fn is_truthy_atom(value: &str, lowered: &str) -> (r: bool)
    ensures
        r == atom_truthy(value@, lowered@),
{
    proof {
        reveal_strlit("0");
        reveal_strlit("false");
    }
    !(str_eq(value, "0") || value.is_empty() || str_eq(lowered, "false"))
}

/// Whether two strings hold the same characters.
pub(crate) fn str_eq(a: &str, b: &str) -> (r: bool)
    ensures
        r == (a@ == b@),
{
    let n = a.unicode_len();
    if n != b.unicode_len() {
        return false;
    }
    let mut i: usize = 0;
    while i < n
        invariant
            i <= n,
            n == a@.len(),
            n == b@.len(),
            forall|j: int| 0 <= j < i ==> a@[j] == b@[j],
        decreases n - i,
    {
        if a.get_char(i) != b.get_char(i) {
            return false;
        }
        i += 1;
    }
    proof {
        assert(a@ =~= b@);
    }
    true
}

impl vstd::std_specs::cmp::PartialEqSpecImpl for Expression {
    open spec fn obeys_eq_spec() -> bool {
        true
    }

    open spec fn eq_spec(&self, other: &Expression) -> bool {
        (self.nil() && other.nil()) || self.value() == other.value()
    }
}

impl PartialEq for Expression {
    /// Two expressions are equal when both are nil or the empty list, or
    /// when they have the same atom value, or when neither is an atom.
    fn eq(&self, rhs: &Self) -> (r: bool) {
        if self.is_nil() && rhs.is_nil() {
            return true;
        }
        match (self, rhs) {
            (Expression::Atom(a), Expression::Atom(b)) => str_eq(a.as_str(), b.as_str()),
            (Expression::Atom(_), _) => false,
            (_, Expression::Atom(_)) => false,
            _ => true,
        }
    }
}

} // verus!
