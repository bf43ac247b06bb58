//! The grammar of S-expression scripts, shared by both script parsers, and the
//! character reader they are built on.
//!
//! The grammar is stated over the characters not read yet. Every result
//! reports how many characters it consumes, so that positions in the input
//! can be computed for errors.

use crate::parser::{Expression, ParseErrorKind};
use crate::ripflow::scanner::StringSource;
use crate::strings::{lemma_encode_concat, lemma_encode_one, lemma_encode_take_step, string_push, utf8_of};
use vstd::prelude::*;

verus! {

/// An expression tree as a mathematical value.
pub enum SExpr {
    List(Seq<SExpr>),
    Atom(Seq<char>),
    Nil,
}

/// The trees of a sequence of expressions.
pub open spec fn list_sexprs(items: Seq<Expression>) -> Seq<SExpr> {
    Seq::new(items.len(), |i: int| items[i].sexpr())
}

/// The outcome of parsing a prefix of the input: a value and the number of
/// characters consumed, an error and the number of characters consumed
/// before it was found, or a reader that never returns.
pub enum Parsed<T> {
    Done(T, nat),
    Failed(ParseErrorKind, nat),
    Hangs,
}

/// `p` with `n` more characters consumed before it.
pub open spec fn shifted<T>(p: Parsed<T>, n: nat) -> Parsed<T> {
    match p {
        Parsed::Done(v, k) => Parsed::Done(v, k + n),
        Parsed::Failed(e, k) => Parsed::Failed(e, k + n),
        Parsed::Hangs => Parsed::Hangs,
    }
}

/// `p` with `n` more characters consumed before it, and `first` read there.
pub open spec fn prepended<T>(first: Seq<T>, p: Parsed<Seq<T>>, n: nat) -> Parsed<Seq<T>> {
    match p {
        Parsed::Done(v, k) => Parsed::Done(first + v, k + n),
        Parsed::Failed(e, k) => Parsed::Failed(e, k + n),
        Parsed::Hangs => Parsed::Hangs,
    }
}

/// Unicode white space, as `char::is_whitespace` defines it.
pub open spec fn is_whitespace(c: char) -> bool {
    let v = c as u32;
    ||| v == 0x20
    ||| 0x09 <= v <= 0x0d
    ||| v == 0x85
    ||| v == 0xa0
    ||| v == 0x1680
    ||| 0x2000 <= v <= 0x200a
    ||| v == 0x2028
    ||| v == 0x2029
    ||| v == 0x202f
    ||| v == 0x205f
    ||| v == 0x3000
}

/// Whether `c` is white space.
pub fn is_whitespace_char(c: char) -> (r: bool)
    ensures
        r == is_whitespace(c),
{
    let v = c as u32;
    v == 0x20 || (0x09 <= v && v <= 0x0d) || v == 0x85 || v == 0xa0 || v == 0x1680 || (0x2000
        <= v && v <= 0x200a) || v == 0x2028 || v == 0x2029 || v == 0x202f || v == 0x205f || v
        == 0x3000
}

/// The characters with Unicode's White_Space property, which is what
/// `char::is_whitespace` tests for.
pub open spec fn white_space_property() -> Seq<char> {
    seq![
        '\u{9}',
        '\u{a}',
        '\u{b}',
        '\u{c}',
        '\u{d}',
        ' ',
        '\u{85}',
        '\u{a0}',
        '\u{1680}',
        '\u{2000}',
        '\u{2001}',
        '\u{2002}',
        '\u{2003}',
        '\u{2004}',
        '\u{2005}',
        '\u{2006}',
        '\u{2007}',
        '\u{2008}',
        '\u{2009}',
        '\u{200a}',
        '\u{2028}',
        '\u{2029}',
        '\u{202f}',
        '\u{205f}',
        '\u{3000}',
    ]
}

/// The white space of the grammar is exactly the characters with the
/// White_Space property.
pub proof fn lemma_white_space_table(c: char)
    ensures
        is_whitespace(c) <==> white_space_property().contains(c),
{
    let t = white_space_property();
    assert(t[0] == '\u{9}');
    assert(t[1] == '\u{a}');
    assert(t[2] == '\u{b}');
    assert(t[3] == '\u{c}');
    assert(t[4] == '\u{d}');
    assert(t[5] == ' ');
    assert(t[6] == '\u{85}');
    assert(t[7] == '\u{a0}');
    assert(t[8] == '\u{1680}');
    assert(t[9] == '\u{2000}');
    assert(t[10] == '\u{2001}');
    assert(t[11] == '\u{2002}');
    assert(t[12] == '\u{2003}');
    assert(t[13] == '\u{2004}');
    assert(t[14] == '\u{2005}');
    assert(t[15] == '\u{2006}');
    assert(t[16] == '\u{2007}');
    assert(t[17] == '\u{2008}');
    assert(t[18] == '\u{2009}');
    assert(t[19] == '\u{200a}');
    assert(t[20] == '\u{2028}');
    assert(t[21] == '\u{2029}');
    assert(t[22] == '\u{202f}');
    assert(t[23] == '\u{205f}');
    assert(t[24] == '\u{3000}');
    if t.contains(c) {
        let i = choose|i: int| 0 <= i < t.len() && t[i] == c;
        assert(0 <= i < 25);
    }
    if is_whitespace(c) {
        if c == '\u{9}' {
            assert(t[0] == c);
        } else if c == '\u{a}' {
            assert(t[1] == c);
        } else if c == '\u{b}' {
            assert(t[2] == c);
        } else if c == '\u{c}' {
            assert(t[3] == c);
        } else if c == '\u{d}' {
            assert(t[4] == c);
        } else if c == ' ' {
            assert(t[5] == c);
        } else if c == '\u{85}' {
            assert(t[6] == c);
        } else if c == '\u{a0}' {
            assert(t[7] == c);
        } else if c == '\u{1680}' {
            assert(t[8] == c);
        } else if c == '\u{2000}' {
            assert(t[9] == c);
        } else if c == '\u{2001}' {
            assert(t[10] == c);
        } else if c == '\u{2002}' {
            assert(t[11] == c);
        } else if c == '\u{2003}' {
            assert(t[12] == c);
        } else if c == '\u{2004}' {
            assert(t[13] == c);
        } else if c == '\u{2005}' {
            assert(t[14] == c);
        } else if c == '\u{2006}' {
            assert(t[15] == c);
        } else if c == '\u{2007}' {
            assert(t[16] == c);
        } else if c == '\u{2008}' {
            assert(t[17] == c);
        } else if c == '\u{2009}' {
            assert(t[18] == c);
        } else if c == '\u{200a}' {
            assert(t[19] == c);
        } else if c == '\u{2028}' {
            assert(t[20] == c);
        } else if c == '\u{2029}' {
            assert(t[21] == c);
        } else if c == '\u{202f}' {
            assert(t[22] == c);
        } else if c == '\u{205f}' {
            assert(t[23] == c);
        } else if c == '\u{3000}' {
            assert(t[24] == c);
        }
    }
}

/// White space separates the items of a script: a symbol ends at any
/// character with the White_Space property, such a character is skipped
/// between items, and any other character that is no parenthesis, quote or
/// backslash continues a symbol.
pub proof fn lemma_white_space_separates(c: char, rest: Seq<char>, hash: bool)
    ensures
        white_space_property().contains(c) ==> symbol_tail(seq![c] + rest) == (
            Seq::<char>::empty(),
            0nat,
        ),
        white_space_property().contains(c) ==> skip_ws(seq![c] + rest, hash) == match skip_ws(
            rest,
            hash,
        ) {
            Some(m) => Some(m + 1),
            None => None::<nat>,
        },
        !white_space_property().contains(c) && c != '(' && c != ')' && c != '"' && c != '\''
            && c != '\\' ==> symbol_tail(seq![c] + rest) == (
            seq![c] + symbol_tail(rest).0,
            symbol_tail(rest).1 + 1,
        ),
        !white_space_property().contains(c) && c != ';' && !(hash && c == '#') ==> skip_ws(
            seq![c] + rest,
            hash,
        ) == Some(0nat),
{
    lemma_white_space_table(c);
    let s = seq![c] + rest;
    assert(s[0] == c);
    assert(s.drop_first() =~= rest);
}

/// The character that an escape sequence `\c` stands for.
pub open spec fn escaped(c: char) -> char {
    if c == 'n' {
        '\n'
    } else if c == 'r' {
        '\r'
    } else if c == 't' {
        '\t'
    } else {
        c
    }
}

/// An escape never encodes to more bytes than the character it stands for.
proof fn lemma_escaped_width(c: char)
    ensures
        utf8_of(seq![escaped(c)]).len() <= utf8_of(seq![c]).len(),
{
    lemma_encode_one(c);
    lemma_encode_one(escaped(c));
    vstd::utf8::char_is_scalar(c);
    vstd::utf8::char_is_scalar(escaped(c));
}

/// Appending a character adds its bytes.
proof fn lemma_push_width(s: Seq<char>, c: char)
    ensures
        utf8_of(s.push(c)).len() == utf8_of(s).len() + utf8_of(seq![c]).len(),
{
    assert(s.push(c) =~= s + seq![c]);
    lemma_encode_concat(s, seq![c]);
}

/// Get the value corresponding to a given escape character.
pub fn translate_escape(c: char) -> (r: char)
    ensures
        r == escaped(c),
{
    match c {
        'n' => '\n',
        'r' => '\r',
        't' => '\t',
        _ => c,  // interpret all other chars as their literal
    }
}

/// Characters that end a symbol.
pub open spec fn is_delimiter(c: char) -> bool {
    c == '(' || c == ')' || c == '"' || c == '\''
}

/// Characters that start a comment: `;`, and `#` where `hash` is set.
pub open spec fn is_comment_start(c: char, hash: bool) -> bool {
    c == ';' || (hash && c == '#')
}

/// The number of characters up to and including the first newline, or all of
/// them when there is none.
pub open spec fn line_len(t: Seq<char>) -> nat
    decreases t.len(),
{
    if t.len() == 0 {
        0
    } else if t[0] == '\n' {
        1
    } else {
        1 + line_len(t.drop_first())
    }
}

/// Whether `t` holds a newline.
pub open spec fn ends_line(t: Seq<char>) -> bool
    decreases t.len(),
{
    if t.len() == 0 {
        false
    } else if t[0] == '\n' {
        true
    } else {
        ends_line(t.drop_first())
    }
}

/// The number of characters of white space and comments at the start of `s`.
///
/// Where `hash` is set, `#` starts a comment too and a comment may end at the
/// end of the input; otherwise a comment without a newline never ends.
pub open spec fn skip_ws(s: Seq<char>, hash: bool) -> Option<nat>
    decreases s.len(),
{
    if s.len() == 0 {
        Some(0)
    } else if is_comment_start(s[0], hash) {
        let k = 1 + line_len(s.drop_first());
        if !hash && !ends_line(s.drop_first()) {
            None
        } else if k <= s.len() {
            match skip_ws(s.skip(k as int), hash) {
                Some(m) => Some(k + m),
                None => None,
            }
        } else {
            None
        }
    } else if is_whitespace(s[0]) {
        match skip_ws(s.drop_first(), hash) {
            Some(m) => Some(m + 1),
            None => None,
        }
    } else {
        Some(0)
    }
}

/// The rest of a symbol after its first character: its text and the number
/// of characters consumed.
pub open spec fn symbol_tail(s: Seq<char>) -> (Seq<char>, nat)
    decreases s.len(),
{
    if s.len() == 0 || is_delimiter(s[0]) || is_whitespace(s[0]) {
        (seq![], 0)
    } else if s[0] == '\\' {
        if s.len() == 1 {
            (seq!['\\'], 1)
        } else {
            let r = symbol_tail(s.skip(2));
            (seq![escaped(s[1])] + r.0, r.1 + 2)
        }
    } else {
        let r = symbol_tail(s.drop_first());
        (seq![s[0]] + r.0, r.1 + 1)
    }
}

/// The rest of a string literal after its opening delimiter `d`, through the
/// closing delimiter.
pub open spec fn string_tail(s: Seq<char>, d: char) -> Parsed<Seq<char>>
    decreases s.len(),
{
    if s.len() == 0 {
        Parsed::Failed(ParseErrorKind::UnclosedString, 0)
    } else if s[0] == '\\' {
        if s.len() == 1 {
            Parsed::Failed(ParseErrorKind::UnclosedString, 1)
        } else {
            prepended(seq![escaped(s[1])], string_tail(s.skip(2), d), 2)
        }
    } else if s[0] == d {
        Parsed::Done(seq![], 1)
    } else {
        prepended(seq![s[0]], string_tail(s.drop_first(), d), 1)
    }
}

/// One expression at the start of `s`, which is not empty and does not start
/// with white space.
pub open spec fn parse_expr(s: Seq<char>, hash: bool) -> Parsed<SExpr>
    decreases s.len(), 0nat,
{
    if s.len() == 0 {
        Parsed::Hangs
    } else if s[0] == '(' {
        match list_items(s.drop_first(), hash) {
            Parsed::Done(v, k) => Parsed::Done(SExpr::List(v), k + 1),
            Parsed::Failed(e, k) => Parsed::Failed(e, k + 1),
            Parsed::Hangs => Parsed::Hangs,
        }
    } else if s[0] == ')' {
        Parsed::Failed(ParseErrorKind::TrailingParenthesis, 0)
    } else if s[0] == '"' || s[0] == '\'' {
        match string_tail(s.drop_first(), s[0]) {
            Parsed::Done(t, k) => Parsed::Done(SExpr::Atom(t), k + 1),
            Parsed::Failed(e, k) => Parsed::Failed(e, k + 1),
            Parsed::Hangs => Parsed::Hangs,
        }
    } else {
        let r = symbol_tail(s.drop_first());
        Parsed::Done(SExpr::Atom(seq![s[0]] + r.0), r.1 + 1)
    }
}

/// The items of a list after its opening parenthesis, through the closing one.
pub open spec fn list_items(s: Seq<char>, hash: bool) -> Parsed<Seq<SExpr>>
    decreases s.len(), 1nat,
{
    match skip_ws(s, hash) {
        None => Parsed::Hangs,
        Some(k) => if k > s.len() {
            Parsed::Hangs
        } else {
            let t = s.skip(k as int);
            if t.len() == 0 {
                Parsed::Failed(ParseErrorKind::UnclosedList, k)
            } else if t[0] == ')' {
                Parsed::Done(seq![], k + 1)
            } else {
                match parse_expr(t, hash) {
                    Parsed::Done(e, j) => if 0 < j <= t.len() {
                        prepended(seq![e], list_items(t.skip(j as int), hash), k + j)
                    } else {
                        Parsed::Hangs
                    },
                    Parsed::Failed(x, j) => Parsed::Failed(x, k + j),
                    Parsed::Hangs => Parsed::Hangs,
                }
            }
        },
    }
}

/// The expressions of a whole program.
pub open spec fn program_items(s: Seq<char>, hash: bool) -> Parsed<Seq<SExpr>>
    decreases s.len(),
{
    match skip_ws(s, hash) {
        None => Parsed::Hangs,
        Some(k) => if k > s.len() {
            Parsed::Hangs
        } else {
            let t = s.skip(k as int);
            if t.len() == 0 {
                Parsed::Done(seq![], k)
            } else {
                match parse_expr(t, hash) {
                    Parsed::Done(e, j) => if 0 < j <= t.len() {
                        prepended(seq![e], program_items(t.skip(j as int), hash), k + j)
                    } else {
                        Parsed::Hangs
                    },
                    Parsed::Failed(x, j) => Parsed::Failed(x, k + j),
                    Parsed::Hangs => Parsed::Hangs,
                }
            }
        },
    }
}

/// The line and column after reading `t` from the start of the input: a
/// newline moves to column 1 of the next line, any other character one column
/// to the right.
pub open spec fn position_after(t: Seq<char>) -> (int, int)
    decreases t.len(),
{
    if t.len() == 0 {
        (1, 1)
    } else {
        let p = position_after(t.drop_last());
        if t.last() == '\n' {
            (p.0 + 1, 1)
        } else {
            (p.0, p.1 + 1)
        }
    }
}

pub proof fn lemma_position_bounds(t: Seq<char>)
    ensures
        1 <= position_after(t).0 <= 1 + t.len(),
        1 <= position_after(t).1 <= 1 + t.len(),
    decreases t.len(),
{
    if t.len() > 0 {
        lemma_position_bounds(t.drop_last());
    }
}

pub proof fn lemma_line_len(t: Seq<char>)
    ensures
        line_len(t) <= t.len(),
        ends_line(t) ==> line_len(t) >= 1,
    decreases t.len(),
{
    if t.len() > 0 && t[0] != '\n' {
        lemma_line_len(t.drop_first());
    }
}

/// Unfolding of `symbol_tail` by one character.
pub proof fn lemma_symbol_step(r: Seq<char>)
    ensures
        r.len() == 0 ==> symbol_tail(r) == (Seq::<char>::empty(), 0nat),
        r.len() > 0 && (is_delimiter(r[0]) || is_whitespace(r[0])) ==> symbol_tail(r) == (
            Seq::<char>::empty(),
            0nat,
        ),
        r.len() > 0 && !(is_delimiter(r[0]) || is_whitespace(r[0])) && r[0] != '\\'
            ==> symbol_tail(r) == (seq![r[0]] + symbol_tail(r.drop_first()).0, symbol_tail(
            r.drop_first(),
        ).1 + 1),
        r.len() == 1 && !(is_delimiter(r[0]) || is_whitespace(r[0])) && r[0] == '\\'
            ==> symbol_tail(r) == (seq!['\\'], 1nat),
        r.len() >= 2 && !(is_delimiter(r[0]) || is_whitespace(r[0])) && r[0] == '\\'
            ==> symbol_tail(r) == (seq![escaped(r[1])] + symbol_tail(r.skip(2)).0, symbol_tail(
            r.skip(2),
        ).1 + 2),
{
}

/// Unfolding of `string_tail` by one character.
pub proof fn lemma_string_step(r: Seq<char>, d: char)
    requires
        d != '\\',
    ensures
        r.len() == 0 ==> string_tail(r, d) == Parsed::<Seq<char>>::Failed(
            ParseErrorKind::UnclosedString,
            0,
        ),
        r.len() == 1 && r[0] == '\\' ==> string_tail(r, d) == Parsed::<Seq<char>>::Failed(
            ParseErrorKind::UnclosedString,
            1,
        ),
        r.len() >= 2 && r[0] == '\\' ==> string_tail(r, d) == prepended(
            seq![escaped(r[1])],
            string_tail(r.skip(2), d),
            2,
        ),
        r.len() > 0 && r[0] == d ==> string_tail(r, d) == Parsed::<Seq<char>>::Done(
            Seq::<char>::empty(),
            1,
        ),
        r.len() > 0 && r[0] != d && r[0] != '\\' ==> string_tail(r, d) == prepended(
            seq![r[0]],
            string_tail(r.drop_first(), d),
            1,
        ),
{
}

/// Prepending in two steps is prepending once.
pub proof fn lemma_prepended_twice<T>(a: Seq<T>, b: Seq<T>, p: Parsed<Seq<T>>, n: nat, m: nat)
    ensures
        prepended(a, prepended(b, p, n), m) == prepended(a + b, p, n + m),
{
    match p {
        Parsed::Done(v, k) => {
            assert(a + (b + v) =~= (a + b) + v);
        },
        _ => {},
    }
}

/// Nothing prepended.
pub proof fn lemma_prepended_none<T>(p: Parsed<Seq<T>>)
    ensures
        prepended(Seq::<T>::empty(), p, 0) == p,
{
    match p {
        Parsed::Done(v, k) => {
            assert(Seq::<T>::empty() + v =~= v);
        },
        _ => {},
    }
}

/// Unfolding of `list_items` after the white space at its start.
pub proof fn lemma_list_unfold(r: Seq<char>, hash: bool, k: nat)
    requires
        skip_ws(r, hash) == Some(k),
        k <= r.len(),
    ensures
        r.skip(k as int).len() == 0 ==> list_items(r, hash) == Parsed::<Seq<SExpr>>::Failed(
            ParseErrorKind::UnclosedList,
            k,
        ),
        r.skip(k as int).len() > 0 && r.skip(k as int)[0] == ')' ==> list_items(r, hash)
            == Parsed::<Seq<SExpr>>::Done(Seq::<SExpr>::empty(), k + 1),
        r.skip(k as int).len() > 0 && r.skip(k as int)[0] != ')' ==> list_items(r, hash) == match parse_expr(
            r.skip(k as int),
            hash,
        ) {
            Parsed::Done(e, j) => if 0 < j <= r.skip(k as int).len() {
                prepended(seq![e], list_items(r.skip(k as int).skip(j as int), hash), k + j)
            } else {
                Parsed::Hangs
            },
            Parsed::Failed(x, j) => Parsed::Failed(x, k + j),
            Parsed::Hangs => Parsed::Hangs,
        },
{
}

/// Unfolding of `program_items` after the white space at its start.
pub proof fn lemma_program_unfold(r: Seq<char>, hash: bool, k: nat)
    requires
        skip_ws(r, hash) == Some(k),
        k <= r.len(),
    ensures
        r.skip(k as int).len() == 0 ==> program_items(r, hash) == Parsed::<Seq<SExpr>>::Done(
            Seq::<SExpr>::empty(),
            k,
        ),
        r.skip(k as int).len() > 0 ==> program_items(r, hash) == match parse_expr(
            r.skip(k as int),
            hash,
        ) {
            Parsed::Done(e, j) => if 0 < j <= r.skip(k as int).len() {
                prepended(seq![e], program_items(r.skip(k as int).skip(j as int), hash), k + j)
            } else {
                Parsed::Hangs
            },
            Parsed::Failed(x, j) => Parsed::Failed(x, k + j),
            Parsed::Hangs => Parsed::Hangs,
        },
{
}

/// White space is never longer than the input, and with `#` comments it
/// always ends.
pub proof fn lemma_skip_ws_bound(s: Seq<char>, hash: bool)
    ensures
        skip_ws(s, hash) matches Some(k) ==> k <= s.len(),
        hash ==> skip_ws(s, hash) is Some,
    decreases s.len(),
{
    if s.len() > 0 {
        if is_comment_start(s[0], hash) {
            lemma_line_len(s.drop_first());
            let k = 1 + line_len(s.drop_first());
            lemma_skip_ws_bound(s.skip(k as int), hash);
        } else if is_whitespace(s[0]) {
            lemma_skip_ws_bound(s.drop_first(), hash);
        }
    }
}

/// A symbol never reads past the end of the input.
pub proof fn lemma_symbol_bound(s: Seq<char>)
    ensures
        symbol_tail(s).1 <= s.len(),
    decreases s.len(),
{
    if s.len() > 0 && !(is_delimiter(s[0]) || is_whitespace(s[0])) {
        if s[0] == '\\' {
            if s.len() > 1 {
                lemma_symbol_bound(s.skip(2));
            }
        } else {
            lemma_symbol_bound(s.drop_first());
        }
    }
}

/// A string literal ends or fails within the input.
pub proof fn lemma_string_bound(s: Seq<char>, d: char)
    requires
        d != '\\',
    ensures
        !(string_tail(s, d) is Hangs),
        string_tail(s, d) matches Parsed::Done(_, k) ==> 1 <= k <= s.len(),
        string_tail(s, d) matches Parsed::Failed(_, k) ==> k <= s.len(),
    decreases s.len(),
{
    if s.len() > 0 {
        if s[0] == '\\' {
            if s.len() > 1 {
                lemma_string_bound(s.skip(2), d);
            }
        } else if s[0] != d {
            lemma_string_bound(s.drop_first(), d);
        }
    }
}

/// With `#` comments an expression never hangs, and it consumes at least one
/// character and no more than there are.
pub proof fn lemma_expr_bound(s: Seq<char>)
    requires
        s.len() > 0,
    ensures
        !(parse_expr(s, true) is Hangs),
        parse_expr(s, true) matches Parsed::Done(_, k) ==> 1 <= k <= s.len(),
        parse_expr(s, true) matches Parsed::Failed(_, k) ==> k <= s.len(),
    decreases s.len(), 0nat,
{
    if s[0] == '(' {
        lemma_list_bound(s.drop_first());
    } else if s[0] == ')' {
    } else if s[0] == '"' || s[0] == '\'' {
        lemma_string_bound(s.drop_first(), s[0]);
    } else {
        lemma_symbol_bound(s.drop_first());
    }
}

/// With `#` comments the items of a list never hang, and they consume no more
/// characters than there are.
pub proof fn lemma_list_bound(s: Seq<char>)
    ensures
        !(list_items(s, true) is Hangs),
        list_items(s, true) matches Parsed::Done(_, k) ==> k <= s.len(),
        list_items(s, true) matches Parsed::Failed(_, k) ==> k <= s.len(),
    decreases s.len(), 1nat,
{
    lemma_skip_ws_bound(s, true);
    let k = skip_ws(s, true)->Some_0;
    let t = s.skip(k as int);
    if t.len() > 0 && t[0] != ')' {
        lemma_expr_bound(t);
        if let Parsed::Done(e, j) = parse_expr(t, true) {
            lemma_list_bound(t.skip(j as int));
        }
    }
}

/// With `#` comments a program never hangs, and it consumes no more
/// characters than there are.
pub proof fn lemma_program_bound(s: Seq<char>)
    ensures
        !(program_items(s, true) is Hangs),
        program_items(s, true) matches Parsed::Done(_, k) ==> k <= s.len(),
        program_items(s, true) matches Parsed::Failed(_, k) ==> k <= s.len(),
    decreases s.len(),
{
    lemma_skip_ws_bound(s, true);
    let k = skip_ws(s, true)->Some_0;
    let t = s.skip(k as int);
    if t.len() > 0 {
        lemma_expr_bound(t);
        if let Parsed::Done(e, j) = parse_expr(t, true) {
            lemma_program_bound(t.skip(j as int));
        }
    }
}

/// Reads characters from a source one at a time with one character of
/// lookahead, tracking the line and column.
pub struct Reader {
    source: StringSource,
    next_char: Option<char>,
    line: u32,
    column: u32,
    // The whole input, and the number of characters consumed from it.
    input: Ghost<Seq<char>>,
    consumed: Ghost<nat>,
}

impl Reader {
    /// The characters not consumed yet.
    pub closed spec fn rest(&self) -> Seq<char> {
        match self.next_char {
            Some(c) => seq![c] + self.source.rest(),
            None => self.source.rest(),
        }
    }

    /// The whole input.
    pub closed spec fn input(&self) -> Seq<char> {
        self.input@
    }

    /// The number of characters consumed.
    pub closed spec fn consumed(&self) -> nat {
        self.consumed@
    }

    /// The character peeked at and not consumed yet, if any.
    pub closed spec fn peeked(&self) -> Option<char> {
        self.next_char
    }

    /// The current line.
    pub closed spec fn line_spec(&self) -> u32 {
        self.line
    }

    /// The current column.
    pub closed spec fn column_spec(&self) -> u32 {
        self.column
    }

    pub closed spec fn wf(&self) -> bool {
        &&& self.consumed@ <= self.input@.len()
        &&& self.input@.len() < u32::MAX
        &&& utf8_of(self.input@).len() <= isize::MAX
        &&& self.rest() == self.input@.skip(self.consumed@ as int)
        &&& self.line as int == position_after(self.input@.take(self.consumed@ as int)).0
        &&& self.column as int == position_after(self.input@.take(self.consumed@ as int)).1
    }

    /// A reader at the start of the characters of `source`.
    pub fn new(source: StringSource) -> (r: Self)
        requires
            source.rest().len() < u32::MAX,
        ensures
            r.wf(),
            r.input() == source.rest(),
            r.consumed() == 0,
            r.rest() == source.rest(),
    {
        let ghost input = source.rest();
        proof {
            use_type_invariant(&source);
            source.lemma_rest_fits();
        }
        let r = Reader {
            source,
            next_char: None,
            line: 1,
            column: 1,
            input: Ghost(input),
            consumed: Ghost(0),
        };
        proof {
            assert(input.skip(0) =~= input);
            assert(input.take(0) =~= Seq::<char>::empty());
        }
        r
    }

    /// The current line.
    pub fn line(&self) -> (l: u32)
        ensures
            l == self.line_spec(),
    {
        self.line
    }

    /// The current column.
    pub fn column(&self) -> (c: u32)
        ensures
            c == self.column_spec(),
    {
        self.column
    }

    /// The line and column of a well-formed reader are those after the
    /// characters it consumed.
    pub proof fn lemma_position(&self)
        requires
            self.wf(),
        ensures
            self.line_spec() == position_after(self.input().take(self.consumed() as int)).0,
            self.column_spec() == position_after(self.input().take(self.consumed() as int)).1,
            self.rest() == self.input().skip(self.consumed() as int),
            self.consumed() + self.rest().len() == self.input().len(),
    {
    }

    /// Peek ahead one character.
    pub fn peek(&mut self) -> (c: Option<char>)
        requires
            old(self).wf(),
        ensures
            final(self).wf(),
            final(self).input() == old(self).input(),
            final(self).consumed() == old(self).consumed(),
            final(self).rest() == old(self).rest(),
            final(self).peeked() == c,
            old(self).rest().len() == 0 ==> c is None,
            old(self).rest().len() > 0 ==> c == Some(old(self).rest()[0]),
    {
        if self.next_char.is_none() {
            self.next_char = self.source.read();
            proof {
                if old(self).rest().len() > 0 {
                    assert(self.rest() =~= old(self).rest());
                }
            }
        }
        self.next_char
    }

    /// Get the next character of input.
    pub fn next(&mut self) -> (c: Option<char>)
        requires
            old(self).wf(),
        ensures
            final(self).wf(),
            final(self).input() == old(self).input(),
            old(self).rest().len() == 0 ==> c is None && final(self).rest() == old(self).rest()
                && final(self).consumed() == old(self).consumed(),
            old(self).rest().len() > 0 ==> c == Some(old(self).rest()[0]) && final(self).rest()
                == old(self).rest().drop_first() && final(self).consumed() == old(self).consumed()
                + 1,
    {
        let ghost input = self.input@;
        let ghost k = self.consumed@ as int;
        match self.peek() {
            Some(c) => {
                proof {
                    assert(input.take(k + 1).drop_last() =~= input.take(k));
                    assert(input.take(k + 1).last() == c);
                    lemma_position_bounds(input.take(k));
                }
                if c == '\n' {
                    self.line = self.line + 1;
                    self.column = 1;
                } else {
                    self.column = self.column + 1;
                }
                self.consumed = Ghost(self.consumed@ + 1);
                proof {
                    assert(self.rest() == seq![c] + self.source.rest());
                    assert(self.source.rest() =~= self.rest().drop_first());
                    assert(input.skip(k).drop_first() =~= input.skip(k + 1));
                }
            },
            None => {},
        }
        self.next_char.take()
    }
    /// Skip a comment: the comment character and everything through the end
    /// of its line.
    fn skip_comment(&mut self, hash: bool)
        requires
            old(self).wf(),
            old(self).rest().len() > 0,
            is_comment_start(old(self).rest()[0], hash),
            !hash ==> ends_line(old(self).rest().drop_first()),
        ensures
            final(self).wf(),
            final(self).input() == old(self).input(),
            final(self).consumed() == old(self).consumed() + 1 + line_len(
                old(self).rest().drop_first(),
            ),
    {
        let ghost target = self.consumed@ + 1 + line_len(self.rest().drop_first());
        self.next();
        if hash {
            loop
                invariant_except_break
                    self.consumed() + line_len(self.rest()) == target,
                invariant
                    self.wf(),
                    self.input() == old(self).input(),
                ensures
                    self.consumed() == target,
                decreases self.rest().len(),
            {
                let ghost r1 = self.rest();
                match self.next() {
                    None | Some('\n') => break,
                    _ => continue,
                }
            }
        } else {
            loop
                invariant_except_break
                    self.consumed() + line_len(self.rest()) == target,
                    ends_line(self.rest()),
                invariant
                    self.wf(),
                    self.input() == old(self).input(),
                ensures
                    self.consumed() == target,
                decreases self.rest().len(),
            {
                let ghost r1 = self.rest();
                match self.next() {
                    Some('\n') => break,
                    _ => {},
                }
            }
        }
    }

    /// Consume and skip over any whitespace and comments.
    pub fn skip_whitespace(&mut self, hash: bool)
        requires
            old(self).wf(),
            skip_ws(old(self).rest(), hash) is Some,
        ensures
            final(self).wf(),
            final(self).input() == old(self).input(),
            final(self).consumed() >= old(self).consumed(),
            skip_ws(old(self).rest(), hash) == Some(
                (final(self).consumed() - old(self).consumed()) as nat,
            ),
    {
        let ghost c0 = self.consumed@;
        let ghost rest0 = self.rest();
        loop
            invariant
                self.wf(),
                self.input() == old(self).input(),
                c0 == old(self).consumed(),
                rest0 == old(self).rest(),
                self.consumed() >= c0,
                skip_ws(self.rest(), hash) matches Some(m) && skip_ws(rest0, hash) == Some(
                    (self.consumed() - c0 + m) as nat,
                ),
            ensures
                skip_ws(self.rest(), hash) == Some(0nat),
            decreases self.rest().len(),
        {
            let ghost r = self.rest();
            proof {
                self.lemma_position();
            }
            match self.peek() {
                Some(c) if c == ';' || (hash && c == '#') => {
                    proof {
                        lemma_line_len(r.drop_first());
                    }
                    self.skip_comment(hash);
                    proof {
                        self.lemma_position();
                        let k = 1 + line_len(r.drop_first());
                        assert(self.rest() =~= r.skip(k as int));
                    }
                },
                Some(c) if is_whitespace_char(c) => {
                    self.next();
                },
                _ => {
                    proof {
                        assert(skip_ws(r, hash) == Some(0nat));
                    }
                    break;
                },
            }
        }
    }

    /// Read a symbol: its first character as it is, then every character up to
    /// a delimiter or white space, with `\` escaping the character after it.
    pub fn parse_symbol(&mut self) -> (e: Expression)
        requires
            old(self).wf(),
            old(self).rest().len() > 0,
        ensures
            final(self).wf(),
            final(self).input() == old(self).input(),
            e.sexpr() == SExpr::Atom(
                seq![old(self).rest()[0]] + symbol_tail(old(self).rest().drop_first()).0,
            ),
            final(self).consumed() == old(self).consumed() + 1 + symbol_tail(
                old(self).rest().drop_first(),
            ).1,
    {
        let ghost tail0 = self.rest().drop_first();
        let ghost first_seq = seq![self.rest()[0]];
        let ghost c1 = self.consumed@ + 1;
        let ghost input = self.input@;
        let ghost base = utf8_of(input.take(self.consumed@ as int)).len();
        let mut string = String::new();

        // Read the first character of the symbol.
        let first = self.next();
        proof {
            lemma_encode_take_step(input, c1 - 1);
            lemma_push_width(string@, first.unwrap());
            assert(string@ =~= Seq::<char>::empty());
        }
        string_push(&mut string, first.unwrap());

        // Read any remaining characters that are part of the symbol.
        loop
            invariant
                self.wf(),
                self.input() == old(self).input(),
                input == old(self).input(),
                base == utf8_of(input.take(old(self).consumed() as int)).len(),
                utf8_of(string@).len() + base <= utf8_of(input.take(self.consumed() as int)).len(),
                tail0 == old(self).rest().drop_first(),
                first_seq == seq![old(self).rest()[0]],
                c1 == old(self).consumed() + 1,
                string@ + symbol_tail(self.rest()).0 == first_seq + symbol_tail(tail0).0,
                self.consumed() + symbol_tail(self.rest()).1 == c1 + symbol_tail(tail0).1,
            ensures
                symbol_tail(self.rest()) == (Seq::<char>::empty(), 0nat),
            decreases self.rest().len(),
        {
            let ghost r = self.rest();
            let ghost s0 = string@;
            let ghost k = self.consumed() as int;
            proof {
                lemma_symbol_step(r);
            }
            match self.peek() {
                Some(c) => {
                    if c == '(' || c == ')' || c == '"' || c == '\'' || is_whitespace_char(c) {
                        break;
                    }
                    self.next();
                    let pushed = if c == '\\' {
                        match self.next() {
                            Some(e) => translate_escape(e),
                            None => '\\',
                        }
                    } else {
                        c
                    };
                    proof {
                        lemma_encode_take_step(input, k);
                        if c == '\\' && r.len() >= 2 {
                            lemma_encode_take_step(input, k + 1);
                            lemma_escaped_width(input[k + 1]);
                        }
                        lemma_push_width(s0, pushed);
                    }
                    string_push(&mut string, pushed);
                    proof {
                        assert(string@ =~= s0 + seq![pushed]);
                        if c == '\\' && r.len() >= 2 {
                            assert(self.rest() =~= r.skip(2));
                            assert(s0 + seq![escaped(r[1])] + symbol_tail(r.skip(2)).0 =~= s0 + (
                            seq![escaped(r[1])] + symbol_tail(r.skip(2)).0));
                        } else if c == '\\' {
                            assert(self.rest() =~= Seq::<char>::empty());
                            lemma_symbol_step(self.rest());
                            assert(s0 + seq!['\\'] + Seq::<char>::empty() =~= s0 + seq!['\\']);
                        } else {
                            assert(s0 + seq![c] + symbol_tail(r.drop_first()).0 =~= s0 + (seq![c]
                                + symbol_tail(r.drop_first()).0));
                        }
                    }
                },
                None => break,
            }
        }
        proof {
            lemma_symbol_step(self.rest());
            assert(string@ + Seq::<char>::empty() =~= string@);
        }
        Expression::Atom(string)
    }

    /// Read a string literal, from its opening delimiter through the closing
    /// one, with `\` escaping the character after it.
    pub fn parse_string(&mut self) -> (r: Result<Expression, ParseErrorKind>)
        requires
            old(self).wf(),
            old(self).rest().len() > 0,
            old(self).rest()[0] == '"' || old(self).rest()[0] == '\'',
        ensures
            final(self).wf(),
            final(self).input() == old(self).input(),
            match string_tail(old(self).rest().drop_first(), old(self).rest()[0]) {
                Parsed::Done(t, k) => r matches Ok(e) && e.sexpr() == SExpr::Atom(t)
                    && final(self).consumed() == old(self).consumed() + 1 + k,
                Parsed::Failed(x, k) => r == Err::<Expression, ParseErrorKind>(x)
                    && final(self).consumed() == old(self).consumed() + 1 + k,
                Parsed::Hangs => false,
            },
    {
        let ghost tail0 = self.rest().drop_first();
        let ghost c1 = self.consumed@ + 1;
        let ghost input = self.input@;
        let ghost base = utf8_of(input.take(self.consumed@ as int)).len();
        let delimiter = self.next().unwrap();
        let mut string = String::new();
        proof {
            assert(self.rest() =~= tail0);
            lemma_prepended_none(string_tail(tail0, delimiter));
            lemma_encode_take_step(input, c1 - 1);
            assert(string@ =~= Seq::<char>::empty());
        }

        loop
            invariant_except_break
                string_tail(tail0, delimiter) == prepended(
                    string@,
                    string_tail(self.rest(), delimiter),
                    (self.consumed() - c1) as nat,
                ),
            invariant
                self.wf(),
                self.input() == old(self).input(),
                input == old(self).input(),
                base == utf8_of(input.take(old(self).consumed() as int)).len(),
                utf8_of(string@).len() + base <= utf8_of(input.take(self.consumed() as int)).len(),
                self.consumed() >= c1,
                delimiter != '\\',
                delimiter == old(self).rest()[0],
                old(self).rest().len() > 0,
                tail0 == old(self).rest().drop_first(),
                c1 == old(self).consumed() + 1,
            ensures
                string_tail(tail0, delimiter) == Parsed::Done(
                    string@,
                    (self.consumed() - c1) as nat,
                ),
            decreases self.rest().len(),
        {
            let ghost r = self.rest();
            let ghost s0 = string@;
            let ghost d0 = (self.consumed() - c1) as nat;
            let ghost k = self.consumed() as int;
            proof {
                lemma_string_step(r, delimiter);
            }
            match self.next() {
                Some('\\') => {
                    let pushed = match self.next() {
                        Some(e) => translate_escape(e),
                        None => '\\',
                    };
                    proof {
                        lemma_encode_take_step(input, k);
                        if r.len() >= 2 {
                            lemma_encode_take_step(input, k + 1);
                            lemma_escaped_width(input[k + 1]);
                        }
                        lemma_push_width(s0, pushed);
                    }
                    string_push(&mut string, pushed);
                    proof {
                        assert(string@ =~= s0 + seq![pushed]);
                        if r.len() >= 2 {
                            assert(self.rest() =~= r.skip(2));
                            lemma_prepended_twice(s0, seq![escaped(r[1])], string_tail(r.skip(2), delimiter), 2, d0);
                        } else {
                            assert(self.rest() =~= Seq::<char>::empty());
                            lemma_string_step(self.rest(), delimiter);
                        }
                    }
                },
                Some(c) if c == delimiter => {
                    proof {
                        lemma_encode_take_step(input, k);
                        assert(s0 + Seq::<char>::empty() =~= s0);
                    }
                    break;
                },
                Some(c) => {
                    proof {
                        lemma_encode_take_step(input, k);
                        lemma_push_width(s0, c);
                    }
                    string_push(&mut string, c);
                    proof {
                        assert(string@ =~= s0 + seq![c]);
                        lemma_prepended_twice(s0, seq![c], string_tail(r.drop_first(), delimiter), 1, d0);
                    }
                },
                None => return Err(ParseErrorKind::UnclosedString),
            }
        }
        Ok(Expression::Atom(string))
    }

    /// Read one expression.
    pub fn parse_expr(&mut self, hash: bool) -> (r: Result<Expression, ParseErrorKind>)
        requires
            old(self).wf(),
            old(self).rest().len() > 0,
            !(parse_expr(old(self).rest(), hash) is Hangs),
        ensures
            final(self).wf(),
            final(self).input() == old(self).input(),
            match parse_expr(old(self).rest(), hash) {
                Parsed::Done(v, k) => r matches Ok(e) && e.sexpr() == v && final(self).consumed()
                    == old(self).consumed() + k,
                Parsed::Failed(x, k) => r == Err::<Expression, ParseErrorKind>(x)
                    && final(self).consumed() == old(self).consumed() + k,
                Parsed::Hangs => false,
            },
        decreases old(self).rest().len(), 1nat,
    {
        match self.peek() {
            Some('(') => self.parse_list(hash),
            Some(')') => Err(ParseErrorKind::TrailingParenthesis),
            Some('"') | Some('\'') => self.parse_string(),
            Some(_) => Ok(self.parse_symbol()),
            None => Err(ParseErrorKind::UnclosedList),
        }
    }

    /// Read a list, from its opening parenthesis through the closing one.
    #[verifier::rlimit(40)]
    pub fn parse_list(&mut self, hash: bool) -> (r: Result<Expression, ParseErrorKind>)
        requires
            old(self).wf(),
            old(self).rest().len() > 0,
            old(self).rest()[0] == '(',
            !(list_items(old(self).rest().drop_first(), hash) is Hangs),
        ensures
            final(self).wf(),
            final(self).input() == old(self).input(),
            match list_items(old(self).rest().drop_first(), hash) {
                Parsed::Done(v, k) => r matches Ok(e) && e.sexpr() == SExpr::List(v)
                    && final(self).consumed() == old(self).consumed() + 1 + k,
                Parsed::Failed(x, k) => r == Err::<Expression, ParseErrorKind>(x)
                    && final(self).consumed() == old(self).consumed() + 1 + k,
                Parsed::Hangs => false,
            },
        decreases old(self).rest().len(), 0nat,
    {
        let ghost tail0 = self.rest().drop_first();
        let ghost c1 = self.consumed@ + 1;
        let ghost n0 = self.rest().len();
        self.next();
        let mut items: Vec<Expression> = Vec::new();
        proof {
            assert(self.rest() =~= tail0);
            assert(list_sexprs(items@) =~= Seq::<SExpr>::empty());
            lemma_prepended_none(list_items(tail0, hash));
        }

        loop
            invariant_except_break
                self.rest().len() < n0,
                list_items(tail0, hash) == prepended(
                    list_sexprs(items@),
                    list_items(self.rest(), hash),
                    (self.consumed() - c1) as nat,
                ),
                !(list_items(self.rest(), hash) is Hangs),
            invariant
                self.wf(),
                self.input() == old(self).input(),
                self.consumed() >= c1,
                n0 == old(self).rest().len(),
                c1 == old(self).consumed() + 1,
                tail0 == old(self).rest().drop_first(),
            ensures
                list_items(tail0, hash) == Parsed::Done(
                    list_sexprs(items@),
                    (self.consumed() - c1) as nat,
                ),
            decreases self.rest().len(),
        {
            let ghost r0 = self.rest();
            let ghost d0 = (self.consumed() - c1) as nat;
            let ghost items0 = list_sexprs(items@);
            self.skip_whitespace(hash);
            let ghost k = (self.consumed() - c1 - d0) as nat;
            proof {
                self.lemma_position();
                assert(self.rest() =~= r0.skip(k as int));
                lemma_list_unfold(r0, hash, k);
            }
            match self.peek() {
                Some(')') => {
                    self.next();
                    proof {
                        assert(items0 + Seq::<SExpr>::empty() =~= items0);
                    }
                    break;
                },
                Some(_) => {
                    let ghost t = self.rest();
                    let ghost ct = self.consumed();
                    let e = match self.parse_expr(hash) {
                        Ok(e) => e,
                        Err(x) => return Err(x),
                    };
                    let ghost j = (self.consumed() - ct) as nat;
                    proof {
                        self.lemma_position();
                        assert(self.rest() =~= t.skip(j as int));
                    }
                    items.push(e);
                    proof {
                        assert(list_sexprs(items@) =~= items0 + seq![e.sexpr()]);
                        lemma_prepended_twice(items0, seq![e.sexpr()], list_items(self.rest(), hash), k + j, d0);
                    }
                },
                None => {
                    return Err(ParseErrorKind::UnclosedList);
                },
            }
        }
        let e = Expression::List(items);
        proof {
            assert(e.sexpr()->List_0 =~= list_sexprs(items@));
        }
        Ok(e)
    }

    /// Read the expressions of a whole program.
    #[verifier::rlimit(40)]
    pub fn parse_items(&mut self, hash: bool) -> (r: Result<Vec<Expression>, ParseErrorKind>)
        requires
            old(self).wf(),
            !(program_items(old(self).rest(), hash) is Hangs),
        ensures
            final(self).wf(),
            final(self).input() == old(self).input(),
            match program_items(old(self).rest(), hash) {
                Parsed::Done(v, k) => r matches Ok(items) && list_sexprs(items@) == v
                    && final(self).consumed() == old(self).consumed() + k,
                Parsed::Failed(x, k) => r == Err::<Vec<Expression>, ParseErrorKind>(x)
                    && final(self).consumed() == old(self).consumed() + k,
                Parsed::Hangs => false,
            },
    {
        let ghost rest0 = self.rest();
        let ghost c0 = self.consumed@;
        let mut items: Vec<Expression> = Vec::new();
        proof {
            assert(list_sexprs(items@) =~= Seq::<SExpr>::empty());
            lemma_prepended_none(program_items(rest0, hash));
        }

        loop
            invariant_except_break
                program_items(rest0, hash) == prepended(
                    list_sexprs(items@),
                    program_items(self.rest(), hash),
                    (self.consumed() - c0) as nat,
                ),
                !(program_items(self.rest(), hash) is Hangs),
            invariant
                self.wf(),
                self.input() == old(self).input(),
                self.consumed() >= c0,
                c0 == old(self).consumed(),
                rest0 == old(self).rest(),
            ensures
                program_items(rest0, hash) == Parsed::Done(
                    list_sexprs(items@),
                    (self.consumed() - c0) as nat,
                ),
            decreases self.rest().len(),
        {
            let ghost r0 = self.rest();
            let ghost d0 = (self.consumed() - c0) as nat;
            let ghost items0 = list_sexprs(items@);
            self.skip_whitespace(hash);
            let ghost k = (self.consumed() - c0 - d0) as nat;
            proof {
                self.lemma_position();
                assert(self.rest() =~= r0.skip(k as int));
                lemma_program_unfold(r0, hash, k);
            }
            if self.peek().is_some() {
                let ghost t = self.rest();
                let ghost ct = self.consumed();
                let e = match self.parse_expr(hash) {
                    Ok(e) => e,
                    Err(x) => return Err(x),
                };
                let ghost j = (self.consumed() - ct) as nat;
                proof {
                    self.lemma_position();
                    assert(self.rest() =~= t.skip(j as int));
                }
                items.push(e);
                proof {
                    assert(list_sexprs(items@) =~= items0 + seq![e.sexpr()]);
                    lemma_prepended_twice(items0, seq![e.sexpr()], program_items(self.rest(), hash), k + j, d0);
                }
            } else {
                proof {
                    assert(items0 + Seq::<SExpr>::empty() =~= items0);
                }
                break;
            }
        }
        Ok(items)
    }
}

} // verus!
