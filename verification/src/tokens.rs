//! Token trees: the input of the parsers, as plain values.

use vstd::prelude::*;
use vstd::string::StringExecFns;
use crate::outside::push_char;

verus! {

/// The delimiter of a group of tokens. (Groups without delimiters are read
/// as the tokens they hold.)
#[derive(PartialEq, Eq, Structural)]
pub enum Delimiter {
    Parenthesis,
    Brace,
    Bracket,
}

/// A token tree.
pub enum Tok {
    /// An identifier or a keyword, by its text, and where it stands in the
    /// source.
    Ident(String, proc_macro2::Span),
    /// A punctuation character, and whether the next token is joined to it
    /// (as in the two characters of `&&`).
    Punct(char, bool),
    /// A literal, by its text.
    Literal(String),
    /// A delimited group: the delimiter, the tokens inside, and their source
    /// text.
    Group(Delimiter, Vec<Tok>, String),
}

/// Why a definition does not parse.
#[derive(Debug)]
pub enum ParseError {
    /// Something other than this punctuation where it belongs.
    ExpectedPunct(char),
    /// Something other than an identifier token where an identifier belongs.
    ExpectedIdent,
    /// An identifier token that syn does not take for an identifier (a
    /// keyword), with syn's message.
    RefusedIdent(String),
    /// Something other than `true` or `false` where a boolean belongs.
    ExpectedBool,
    /// A `#` without `[...]` after it.
    ExpectedBrackets,
    /// Brackets whose content is not that of an attribute, with syn's message
    /// where syn was asked.
    InvalidAttribute(Option<String>),
    /// Parentheses whose content is not a type.
    InvalidType,
    /// A key of the definition other than `transitions`, `name`,
    /// `states_attr`, `events_attr` and `entry_exit_async`.
    UnknownKeyword(String),
    /// Tokens left where the definition, or a group in it, should end.
    UnexpectedToken,
    /// The wildcard `_` beside other input states.
    WildcardWithOthers,
    /// The wildcard `_` marked as the starting state.
    WildcardStart,
}

/// The text that follows the keyword in the message for an unknown key.
pub open spec fn unknown_key_tail() -> Seq<char> {
    ". Support keywords: [\"name\", \
                                \"transitions\", \
                                \"states_attr\", \
                                \"events_attr\", \
                                \"entry_exit_async\"
                                ]"@
}

/// The message of a parse error.
pub open spec fn message_of(e: ParseError) -> Seq<char> {
    match e {
        ParseError::ExpectedPunct(c) => "expected `"@ + seq![c] + "`"@,
        ParseError::ExpectedIdent => "expected identifier"@,
        ParseError::RefusedIdent(m) => m@,
        ParseError::ExpectedBool => "expected boolean literal"@,
        ParseError::ExpectedBrackets => "expected square brackets"@,
        ParseError::InvalidAttribute(Some(m)) => m@,
        ParseError::InvalidAttribute(None) => "expected attribute arguments"@,
        ParseError::InvalidType => "expected a type"@,
        ParseError::UnknownKeyword(k) => "Unknown keyword "@ + k@ + unknown_key_tail(),
        ParseError::UnexpectedToken => "unexpected token"@,
        ParseError::WildcardWithOthers => "Wildcards already include all states, so should not be used with input state patterns."@,
        ParseError::WildcardStart => "Wildcards can't be used as the starting state."@,
    }
}

impl ParseError {
    /// The message of this error.
    pub fn message(&self) -> (r: String)
        ensures
            r@ == message_of(*self),
    {
        match self {
            ParseError::ExpectedPunct(c) => {
                let mut m = "expected `".to_string();
                push_char(&mut m, *c);
                m.append("`");
                m
            },
            ParseError::ExpectedIdent => "expected identifier".to_string(),
            ParseError::RefusedIdent(m) => m.clone(),
            ParseError::ExpectedBool => "expected boolean literal".to_string(),
            ParseError::ExpectedBrackets => "expected square brackets".to_string(),
            ParseError::InvalidAttribute(Some(m)) => m.clone(),
            ParseError::InvalidAttribute(None) => "expected attribute arguments".to_string(),
            ParseError::InvalidType => "expected a type".to_string(),
            ParseError::UnknownKeyword(k) => {
                let mut m = "Unknown keyword ".to_string();
                m.append(k.as_str());
                m.append(". Support keywords: [\"name\", \
                                \"transitions\", \
                                \"states_attr\", \
                                \"events_attr\", \
                                \"entry_exit_async\"
                                ]");
                m
            },
            ParseError::UnexpectedToken => "unexpected token".to_string(),
            ParseError::WildcardWithOthers => "Wildcards already include all states, so should not be used with input state patterns.".to_string(),
            ParseError::WildcardStart => "Wildcards can't be used as the starting state.".to_string(),
        }
    }
}

/// Whether token `p` of `t` is the punctuation character `c`.
pub open spec fn is_punct(t: Seq<Tok>, p: int, c: char) -> bool {
    &&& 0 <= p < t.len()
    &&& t[p] matches Tok::Punct(x, _) && x == c
}

/// Whether token `p` of `t` is `c`, joined to the next token.
pub open spec fn is_joint_punct(t: Seq<Tok>, p: int, c: char) -> bool {
    &&& 0 <= p < t.len()
    &&& t[p] matches Tok::Punct(x, j) && x == c && j
}

/// Whether token `p` of `t` is a group with delimiter `d`.
pub open spec fn is_group(t: Seq<Tok>, p: int, d: Delimiter) -> bool {
    &&& 0 <= p < t.len()
    &&& t[p] matches Tok::Group(x, _, _) && x == d
}

/// Whether token `p` of `t` is an identifier that reads `w`.
pub open spec fn is_word(t: Seq<Tok>, p: int, w: Seq<char>) -> bool {
    &&& 0 <= p < t.len()
    &&& t[p] matches Tok::Ident(s, _) && s@ == w
}

/// Decides `is_punct`.
pub fn punct_at(t: &Vec<Tok>, p: usize, c: char) -> (r: bool)
    ensures
        r == is_punct(t@, p as int, c),
{
    if p < t.len() {
        match &t[p] {
            Tok::Punct(x, _) => *x == c,
            _ => false,
        }
    } else {
        false
    }
}

/// Decides `is_joint_punct`.
pub fn joint_punct_at(t: &Vec<Tok>, p: usize, c: char) -> (r: bool)
    ensures
        r == is_joint_punct(t@, p as int, c),
{
    if p < t.len() {
        match &t[p] {
            Tok::Punct(x, j) => *x == c && *j,
            _ => false,
        }
    } else {
        false
    }
}

/// Decides `is_group`.
pub fn group_at(t: &Vec<Tok>, p: usize, d: Delimiter) -> (r: bool)
    ensures
        r == is_group(t@, p as int, d),
{
    if p < t.len() {
        match &t[p] {
            Tok::Group(x, _, _) => *x == d,
            _ => false,
        }
    } else {
        false
    }
}

/// Whether `s` reads `w`.
pub fn reads(s: &String, w: &str) -> (r: bool)
    ensures
        r == (s@ == w@),
{
    let k = w.to_string();
    *s == k
}

/// Decides `is_word`.
pub fn word_at(t: &Vec<Tok>, p: usize, w: &str) -> (r: bool)
    ensures
        r == is_word(t@, p as int, w@),
{
    if p < t.len() {
        match &t[p] {
            Tok::Ident(s, _) => reads(s, w),
            _ => false,
        }
    } else {
        false
    }
}

} // verus!
