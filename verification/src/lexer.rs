//! The lexer: one left-to-right pass over the source text that produces a
//! flat stream of tokens and tracks 1-based line numbers.
//!
//! The function [`spec_lex_from`] is the mathematical statement of the
//! whole lexing rule set; [`Token::lex`] is proved to return exactly the
//! tokens that it describes.

use vstd::prelude::*;

use crate::cursor::Cursor;
use crate::text::{chars_string, copy_range, is_digit, str_chars};
use crate::token::{
    KeyWords, Operators, OperatorsView, Token, TokenType, TokenTypeView, TokenView,
};

verus! {

/// Build a token view.
pub open spec fn tokv(kind: TokenTypeView, text: Seq<char>, line: nat) -> TokenView {
    TokenView { kind, text, line }
}

/// The views of a sequence of tokens.
pub open spec fn tokens_view(s: Seq<Token>) -> Seq<TokenView> {
    Seq::new(s.len(), |i: int| s[i]@)
}

/// Whether `c` starts an identifier.
pub open spec fn is_letter(c: char) -> bool {
    ('A' <= c && c <= 'Z') || ('a' <= c && c <= 'z')
}

/// The characters that end an identifier and are pushed back to be lexed
/// on their own.
pub open spec fn is_ident_stop(c: char) -> bool {
    ||| c == '('
    ||| c == ')'
    ||| c == '{'
    ||| c == '}'
    ||| c == '['
    ||| c == ']'
    ||| c == '.'
    ||| c == ','
    ||| c == '='
    ||| c == '\n'
    ||| c == ';'
}

/// The first position at or after `from` holding character `c`, or the
/// length of `s` if there is none.
pub open spec fn find_char(s: Seq<char>, from: int, c: char) -> int
    decreases s.len() - from,
{
    if from < 0 || from >= s.len() {
        s.len() as int
    } else if s[from] == c {
        from
    } else {
        find_char(s, from + 1, c)
    }
}

/// The first position at or after `from` holding a non-digit, or the
/// length of `s` if there is none.
pub open spec fn digit_run_end(s: Seq<char>, from: int) -> int
    decreases s.len() - from,
{
    if from < 0 || from >= s.len() {
        s.len() as int
    } else if !is_digit(s[from]) {
        from
    } else {
        digit_run_end(s, from + 1)
    }
}

/// The first position at or after `from` holding a space or an identifier
/// stop character, or the length of `s` if there is none.
pub open spec fn ident_end(s: Seq<char>, from: int) -> int
    decreases s.len() - from,
{
    if from < 0 || from >= s.len() {
        s.len() as int
    } else if s[from] == ' ' || is_ident_stop(s[from]) {
        from
    } else {
        ident_end(s, from + 1)
    }
}

pub proof fn lemma_find_char_bounds(s: Seq<char>, from: int, c: char)
    requires
        0 <= from,
    ensures
        from <= find_char(s, from, c) <= s.len() || find_char(s, from, c) == s.len(),
        find_char(s, from, c) <= s.len(),
        from <= find_char(s, from, c) || from > s.len(),
    decreases s.len() - from,
{
    if from < s.len() && s[from] != c {
        lemma_find_char_bounds(s, from + 1, c);
    }
}

pub proof fn lemma_digit_run_end_bounds(s: Seq<char>, from: int)
    requires
        0 <= from,
    ensures
        digit_run_end(s, from) <= s.len(),
        from <= digit_run_end(s, from) || from > s.len(),
    decreases s.len() - from,
{
    if from < s.len() && is_digit(s[from]) {
        lemma_digit_run_end_bounds(s, from + 1);
    }
}

pub proof fn lemma_ident_end_bounds(s: Seq<char>, from: int)
    requires
        0 <= from,
    ensures
        ident_end(s, from) <= s.len(),
        from <= ident_end(s, from) || from > s.len(),
    decreases s.len() - from,
{
    if from < s.len() && !(s[from] == ' ' || is_ident_stop(s[from])) {
        lemma_ident_end_bounds(s, from + 1);
    }
}

/// The keyword denoted by `text`, if any. `true` and `false` both denote
/// the boolean keyword.
pub open spec fn keyword_of(text: Seq<char>) -> Option<KeyWords> {
    if text == "let"@ {
        Some(KeyWords::Let)
    } else if text == "fn"@ {
        Some(KeyWords::Fn)
    } else if text == "if"@ {
        Some(KeyWords::If)
    } else if text == "else"@ {
        Some(KeyWords::Else)
    } else if text == "while"@ {
        Some(KeyWords::While)
    } else if text == "for"@ {
        Some(KeyWords::For)
    } else if text == "number"@ {
        Some(KeyWords::Number)
    } else if text == "string"@ {
        Some(KeyWords::String)
    } else if text == "return"@ {
        Some(KeyWords::Return)
    } else if text == "use"@ {
        Some(KeyWords::Use)
    } else if text == "const"@ {
        Some(KeyWords::Const)
    } else if text == "true"@ || text == "false"@ {
        Some(KeyWords::Bool)
    } else {
        None
    }
}

/// The kind of the token emitted for a scanned word: its keyword if it is
/// one, an identifier otherwise.
pub open spec fn word_kind(text: Seq<char>) -> TokenTypeView {
    match keyword_of(text) {
        Some(kw) => TokenTypeView::Keyword(kw),
        None => TokenTypeView::Identifier,
    }
}

/// The tokens that lexing `s` from position `pos` on, at line `line`,
/// produces. This is the whole lexing rule set:
/// - a newline is skipped and bumps the line counter; space and tab are
///   skipped;
/// - single-character punctuation is emitted directly;
/// - `=`, `<` and `>` look one character ahead for `=`; the lookahead can
///   only see a character that is not the last one of the input; `=` falls
///   back to a plain `Eq` on any other lookahead, while `<` and `>` emit
///   an invalid-operator token carrying the offending character unless it
///   is a space;
/// - `/` followed by `/` consumes through the end of the line (the
///   newline included) as a comment token; a lone `/` is a slash token;
/// - a digit starts a number token holding the maximal digit run; a run
///   cut off by the end of the input is an invalid token;
/// - `"` starts a string token holding everything up to the closing
///   quote, which is an invalid token if the input ends first;
/// - a letter starts a word, ended by a space (consumed) or a stop
///   character (left for the main loop); a word cut off by the end of the
///   input is an invalid token; words are looked up in the keyword table;
/// - anything else is an invalid token.
pub open spec fn spec_lex_from(s: Seq<char>, pos: int, line: nat) -> Seq<TokenView>
    decreases s.len() - pos,
    when pos >= 0
    via spec_lex_from_dec
{
    if pos < 0 || pos >= s.len() {
        Seq::empty()
    } else {
        let c = s[pos];
        if c == '\n' {
            spec_lex_from(s, pos + 1, line + 1)
        } else if c == ' ' || c == '\t' {
            spec_lex_from(s, pos + 1, line)
        } else if c == ',' {
            seq![tokv(TokenTypeView::Comma, ","@, line)] + spec_lex_from(s, pos + 1, line)
        } else if c == '+' {
            seq![tokv(TokenTypeView::Plus, "+"@, line)] + spec_lex_from(s, pos + 1, line)
        } else if c == '-' {
            seq![tokv(TokenTypeView::Min, "-"@, line)] + spec_lex_from(s, pos + 1, line)
        } else if c == '.' {
            seq![tokv(TokenTypeView::Dot, "."@, line)] + spec_lex_from(s, pos + 1, line)
        } else if c == '}' {
            seq![tokv(TokenTypeView::CloseCurlyBracket, "}"@, line)] + spec_lex_from(
                s,
                pos + 1,
                line,
            )
        } else if c == '{' {
            seq![tokv(TokenTypeView::OpenCurlyBracket, "{"@, line)] + spec_lex_from(
                s,
                pos + 1,
                line,
            )
        } else if c == '(' {
            seq![tokv(TokenTypeView::OpenBrace, "("@, line)] + spec_lex_from(s, pos + 1, line)
        } else if c == ')' {
            seq![tokv(TokenTypeView::CloseBrace, ")"@, line)] + spec_lex_from(s, pos + 1, line)
        } else if c == ':' {
            seq![tokv(TokenTypeView::Colon, ":"@, line)] + spec_lex_from(s, pos + 1, line)
        } else if c == '[' {
            seq![tokv(TokenTypeView::OpenBracket, "["@, line)] + spec_lex_from(s, pos + 1, line)
        } else if c == ']' {
            seq![tokv(TokenTypeView::CloseBracket, "]"@, line)] + spec_lex_from(s, pos + 1, line)
        } else if c == ';' {
            seq![tokv(TokenTypeView::SemiColon, ";"@, line)] + spec_lex_from(s, pos + 1, line)
        } else if c == '/' {
            if pos + 2 >= s.len() || s[pos + 1] != '/' {
                seq![tokv(TokenTypeView::Slash, "/"@, line)] + spec_lex_from(s, pos + 1, line)
            } else {
                let nl = find_char(s, pos + 2, '\n');
                if nl < s.len() {
                    seq![tokv(TokenTypeView::Comment, s.subrange(pos + 2, nl), line)]
                        + spec_lex_from(s, nl + 1, line)
                } else {
                    seq![tokv(TokenTypeView::Comment, s.subrange(pos + 2, s.len() as int), line)]
                }
            }
        } else if c == '=' {
            if pos + 2 >= s.len() {
                seq![tokv(TokenTypeView::Operator(OperatorsView::Eq), "="@, line)]
                    + spec_lex_from(s, pos + 1, line)
            } else if s[pos + 1] == '=' {
                seq![tokv(TokenTypeView::Operator(OperatorsView::EqEq), "=="@, line)]
                    + spec_lex_from(s, pos + 2, line)
            } else {
                seq![tokv(TokenTypeView::Operator(OperatorsView::Eq), "="@, line)]
                    + spec_lex_from(s, pos + 1, line)
            }
        } else if c == '<' {
            if pos + 2 >= s.len() {
                seq![tokv(TokenTypeView::Operator(OperatorsView::Less), "<"@, line)]
                    + spec_lex_from(s, pos + 1, line)
            } else if s[pos + 1] == '=' {
                seq![tokv(TokenTypeView::Operator(OperatorsView::LessEq), "<="@, line)]
                    + spec_lex_from(s, pos + 2, line)
            } else if s[pos + 1] == ' ' {
                seq![tokv(TokenTypeView::Operator(OperatorsView::Less), "<"@, line)]
                    + spec_lex_from(s, pos + 1, line)
            } else {
                seq![
                    tokv(
                        TokenTypeView::Operator(OperatorsView::Invalid(seq![s[pos + 1]])),
                        "Invalid less operator"@,
                        line,
                    ),
                ] + spec_lex_from(s, pos + 1, line)
            }
        } else if c == '>' {
            if pos + 2 >= s.len() {
                seq![tokv(TokenTypeView::Operator(OperatorsView::More), ">"@, line)]
                    + spec_lex_from(s, pos + 1, line)
            } else if s[pos + 1] == '=' {
                seq![tokv(TokenTypeView::Operator(OperatorsView::MoreEq), ">="@, line)]
                    + spec_lex_from(s, pos + 2, line)
            } else if s[pos + 1] == ' ' {
                seq![tokv(TokenTypeView::Operator(OperatorsView::More), ">"@, line)]
                    + spec_lex_from(s, pos + 1, line)
            } else {
                seq![
                    tokv(
                        TokenTypeView::Operator(OperatorsView::Invalid(seq![s[pos + 1]])),
                        "Invalid more operator"@,
                        line,
                    ),
                ] + spec_lex_from(s, pos + 1, line)
            }
        } else if is_digit(c) {
            let end = digit_run_end(s, pos + 1);
            if end < s.len() {
                seq![tokv(TokenTypeView::Number, s.subrange(pos, end), line)] + spec_lex_from(
                    s,
                    end,
                    line,
                )
            } else {
                seq![tokv(TokenTypeView::Invalid, "Found a non ending number"@, line)]
            }
        } else if c == '"' {
            let q = find_char(s, pos + 1, '"');
            if q < s.len() {
                seq![tokv(TokenTypeView::String, s.subrange(pos + 1, q), line)] + spec_lex_from(
                    s,
                    q + 1,
                    line,
                )
            } else {
                seq![
                    tokv(TokenTypeView::Invalid, "Found a string without a closing quote"@, line),
                ]
            }
        } else if is_letter(c) {
            let e = ident_end(s, pos + 1);
            if e >= s.len() {
                seq![tokv(TokenTypeView::Invalid, "Found a non ending identifier"@, line)]
            } else {
                let text = s.subrange(pos, e);
                let next = if s[e] == ' ' {
                    e + 1
                } else {
                    e
                };
                seq![tokv(word_kind(text), text, line)] + spec_lex_from(s, next, line)
            }
        } else {
            seq![tokv(TokenTypeView::Invalid, "Invalid token"@, line)] + spec_lex_from(
                s,
                pos + 1,
                line,
            )
        }
    }
}

#[via_fn]
proof fn spec_lex_from_dec(s: Seq<char>, pos: int, line: nat) {
    if 0 <= pos < s.len() {
        lemma_find_char_bounds(s, pos + 2, '\n');
        lemma_find_char_bounds(s, pos + 1, '"');
        lemma_digit_run_end_bounds(s, pos + 1);
        lemma_ident_end_bounds(s, pos + 1);
    }
}

impl Cursor {
    /// Lex the rest of an `=`: a following `=` (which the lookahead can
    /// only see before the last character) makes `==`; anything else
    /// falls back to a plain `=`.
    pub fn eq_token(&mut self, l: usize) -> (t: Token)
        ensures
            final(self).chars == old(self).chars,
            final(self).previous == old(self).previous,
            old(self).position + 1 >= old(self).chars@.len() ==> t@ == tokv(
                TokenTypeView::Operator(OperatorsView::Eq),
                "="@,
                l as nat,
            ) && final(self).position == old(self).position,
            old(self).position + 1 < old(self).chars@.len() ==> {
                if old(self).chars@[old(self).position as int] == '=' {
                    t@ == tokv(TokenTypeView::Operator(OperatorsView::EqEq), "=="@, l as nat)
                        && final(self).position == old(self).position + 1
                } else {
                    t@ == tokv(TokenTypeView::Operator(OperatorsView::Eq), "="@, l as nat)
                        && final(self).position == old(self).position
                }
            },
    {
        let len = self.chars.len();
        if self.position >= len {
            Token::new(TokenType::Operator(Operators::Eq), "=", l)
        } else if self.position + 1 >= len {
            Token::new(TokenType::Operator(Operators::Eq), "=", l)
        } else if self.chars[self.position] == '=' {
            self.position = self.position + 1;
            Token::new(TokenType::Operator(Operators::EqEq), "==", l)
        } else {
            Token::new(TokenType::Operator(Operators::Eq), "=", l)
        }
    }

    /// Lex the rest of a `<`: `=` makes `<=`, a space a plain `<`, and
    /// anything else an invalid-operator token carrying that character.
    pub fn less_token(&mut self, l: usize) -> (t: Token)
        ensures
            final(self).chars == old(self).chars,
            final(self).previous == old(self).previous,
            old(self).position + 1 >= old(self).chars@.len() ==> t@ == tokv(
                TokenTypeView::Operator(OperatorsView::Less),
                "<"@,
                l as nat,
            ) && final(self).position == old(self).position,
            old(self).position + 1 < old(self).chars@.len() ==> {
                let d = old(self).chars@[old(self).position as int];
                if d == '=' {
                    t@ == tokv(TokenTypeView::Operator(OperatorsView::LessEq), "<="@, l as nat)
                        && final(self).position == old(self).position + 1
                } else if d == ' ' {
                    t@ == tokv(TokenTypeView::Operator(OperatorsView::Less), "<"@, l as nat)
                        && final(self).position == old(self).position
                } else {
                    t@ == tokv(
                        TokenTypeView::Operator(OperatorsView::Invalid(seq![d])),
                        "Invalid less operator"@,
                        l as nat,
                    ) && final(self).position == old(self).position
                }
            },
    {
        let len = self.chars.len();
        if self.position >= len {
            Token::new(TokenType::Operator(Operators::Less), "<", l)
        } else if self.position + 1 >= len {
            Token::new(TokenType::Operator(Operators::Less), "<", l)
        } else if self.chars[self.position] == '=' {
            self.position = self.position + 1;
            Token::new(TokenType::Operator(Operators::LessEq), "<=", l)
        } else if self.chars[self.position] == ' ' {
            Token::new(TokenType::Operator(Operators::Less), "<", l)
        } else {
            let mut cs: Vec<char> = Vec::new();
            cs.push(self.chars[self.position]);
            assert(cs@ =~= seq![self.chars@[self.position as int]]);
            Token::new(TokenType::Operator(Operators::Invalid(cs)), "Invalid less operator", l)
        }
    }

    /// Lex the rest of a `>`: `=` makes `>=`, a space a plain `>`, and
    /// anything else an invalid-operator token carrying that character.
    pub fn more_token(&mut self, l: usize) -> (t: Token)
        ensures
            final(self).chars == old(self).chars,
            final(self).previous == old(self).previous,
            old(self).position + 1 >= old(self).chars@.len() ==> t@ == tokv(
                TokenTypeView::Operator(OperatorsView::More),
                ">"@,
                l as nat,
            ) && final(self).position == old(self).position,
            old(self).position + 1 < old(self).chars@.len() ==> {
                let d = old(self).chars@[old(self).position as int];
                if d == '=' {
                    t@ == tokv(TokenTypeView::Operator(OperatorsView::MoreEq), ">="@, l as nat)
                        && final(self).position == old(self).position + 1
                } else if d == ' ' {
                    t@ == tokv(TokenTypeView::Operator(OperatorsView::More), ">"@, l as nat)
                        && final(self).position == old(self).position
                } else {
                    t@ == tokv(
                        TokenTypeView::Operator(OperatorsView::Invalid(seq![d])),
                        "Invalid more operator"@,
                        l as nat,
                    ) && final(self).position == old(self).position
                }
            },
    {
        let len = self.chars.len();
        if self.position >= len {
            Token::new(TokenType::Operator(Operators::More), ">", l)
        } else if self.position + 1 >= len {
            Token::new(TokenType::Operator(Operators::More), ">", l)
        } else if self.chars[self.position] == '=' {
            self.position = self.position + 1;
            Token::new(TokenType::Operator(Operators::MoreEq), ">=", l)
        } else if self.chars[self.position] == ' ' {
            Token::new(TokenType::Operator(Operators::More), ">", l)
        } else {
            let mut cs: Vec<char> = Vec::new();
            cs.push(self.chars[self.position]);
            assert(cs@ =~= seq![self.chars@[self.position as int]]);
            Token::new(TokenType::Operator(Operators::Invalid(cs)), "Invalid more operator", l)
        }
    }

    /// Lex a string literal after its opening quote: everything up to the
    /// closing quote, with the quotes stripped; an invalid token if the
    /// input ends before a closing quote.
    pub fn string_token(&mut self, l: usize) -> (t: Token)
        requires
            old(self).position <= old(self).chars@.len(),
        ensures
            final(self).chars == old(self).chars,
            final(self).previous == old(self).previous,
            old(self).position <= final(self).position <= old(self).chars@.len(),
            ({
                let s = old(self).chars@;
                let q = find_char(s, old(self).position as int, '"');
                if q < s.len() {
                    t@ == tokv(
                        TokenTypeView::String,
                        s.subrange(old(self).position as int, q),
                        l as nat,
                    ) && final(self).position == q + 1
                } else {
                    t@ == tokv(
                        TokenTypeView::Invalid,
                        "Found a string without a closing quote"@,
                        l as nat,
                    ) && final(self).position == s.len()
                }
            }),
    {
        let ghost s = self.chars@;
        let n = self.chars.len();
        assert(s.len() == n);
        let start = self.position;
        let mut i = self.position;
        while i < self.chars.len() && self.chars[i] != '"'
            invariant
                start <= i <= self.chars@.len(),
                self.chars@ == s,
                self.chars@.len() <= usize::MAX,
                find_char(s, start as int, '"') == find_char(s, i as int, '"'),
            decreases self.chars@.len() - i,
        {
            assert(find_char(s, i as int, '"') == find_char(s, i + 1 as int, '"'));
            i = i + 1;
        }
        if i < self.chars.len() {
            assert(find_char(s, i as int, '"') == i);
            let text = copy_range(&self.chars, start, i);
            self.position = i + 1;
            let st = chars_string(&text);
            Token::new(TokenType::String, st.as_str(), l)
        } else {
            assert(find_char(s, i as int, '"') == s.len());
            self.position = i;
            Token::new(TokenType::Invalid, "Found a string without a closing quote", l)
        }
    }

    /// Lex the rest of a `/`: a second slash (which the lookahead can only
    /// see before the last character) makes a comment running through the
    /// end of the line, the newline consumed with it; otherwise a plain
    /// slash token.
    pub fn comment_token(&mut self, l: usize) -> (t: Token)
        requires
            old(self).position <= old(self).chars@.len(),
        ensures
            final(self).chars == old(self).chars,
            final(self).previous == old(self).previous,
            old(self).position <= final(self).position,
            ({
                let s = old(self).chars@;
                let p = old(self).position as int;
                if p + 1 >= s.len() || s[p] != '/' {
                    t@ == tokv(TokenTypeView::Slash, "/"@, l as nat) && final(self).position == p
                } else {
                    let nl = find_char(s, p + 1, '\n');
                    if nl < s.len() {
                        t@ == tokv(TokenTypeView::Comment, s.subrange(p + 1, nl), l as nat)
                            && final(self).position == nl + 1
                    } else {
                        t@ == tokv(
                            TokenTypeView::Comment,
                            s.subrange(p + 1, s.len() as int),
                            l as nat,
                        ) && final(self).position == s.len()
                    }
                }
            }),
    {
        let ghost s = self.chars@;
        let len = self.chars.len();
        if self.position >= len || self.position + 1 >= len {
            return Token::new(TokenType::Slash, "/", l);
        }
        if self.chars[self.position] != '/' {
            return Token::new(TokenType::Slash, "/", l);
        }
        let start = self.position + 1;
        let mut i = start;
        while i < self.chars.len() && self.chars[i] != '\n'
            invariant
                start <= i <= self.chars@.len(),
                self.chars@ == s,
                self.chars@.len() <= usize::MAX,
                find_char(s, start as int, '\n') == find_char(s, i as int, '\n'),
            decreases self.chars@.len() - i,
        {
            assert(find_char(s, i as int, '\n') == find_char(s, i + 1 as int, '\n'));
            i = i + 1;
        }
        let text = copy_range(&self.chars, start, i);
        let st = chars_string(&text);
        if i < self.chars.len() {
            assert(find_char(s, i as int, '\n') == i);
            self.position = i + 1;
        } else {
            assert(find_char(s, i as int, '\n') == s.len());
            self.position = i;
        }
        Token::new(TokenType::Comment, st.as_str(), l)
    }

    /// Lex the rest of a number whose first digit was just consumed: the
    /// maximal run of following digits. A run cut off by the end of the
    /// input is an invalid token.
    pub fn number_token(&mut self, l: usize) -> (t: Token)
        requires
            old(self).position <= old(self).chars@.len(),
            old(self).previous is Some,
        ensures
            final(self).chars == old(self).chars,
            final(self).previous == old(self).previous,
            old(self).position <= final(self).position <= old(self).chars@.len(),
            ({
                let s = old(self).chars@;
                let p = old(self).position as int;
                let d = old(self).previous->0;
                let end = digit_run_end(s, p);
                if end < s.len() {
                    t@ == tokv(TokenTypeView::Number, seq![d] + s.subrange(p, end), l as nat)
                        && final(self).position == end
                } else {
                    t@ == tokv(TokenTypeView::Invalid, "Found a non ending number"@, l as nat)
                        && final(self).position == s.len()
                }
            }),
    {
        let ghost s = self.chars@;
        let n = self.chars.len();
        assert(s.len() == n);
        let start = self.position;
        let mut i = self.position;
        while i < self.chars.len() && self.chars[i] >= '0' && self.chars[i] <= '9'
            invariant
                start <= i <= self.chars@.len(),
                self.chars@ == s,
                self.chars@.len() <= usize::MAX,
                digit_run_end(s, start as int) == digit_run_end(s, i as int),
            decreases self.chars@.len() - i,
        {
            assert(digit_run_end(s, i as int) == digit_run_end(s, i + 1 as int));
            i = i + 1;
        }
        if i < self.chars.len() {
            assert(digit_run_end(s, i as int) == i);
            let prev = match self.previous {
                Some(c) => c,
                None => {
                    assert(false);
                    '0'
                },
            };
            let mut text: Vec<char> = Vec::new();
            text.push(prev);
            let mut rest = copy_range(&self.chars, start, i);
            text.append(&mut rest);
            assert(text@ =~= seq![prev] + s.subrange(start as int, i as int));
            self.position = i;
            let st = chars_string(&text);
            Token::new(TokenType::Number, st.as_str(), l)
        } else {
            assert(digit_run_end(s, i as int) == s.len());
            self.position = i;
            Token::new(TokenType::Invalid, "Found a non ending number", l)
        }
    }

    /// Lex the rest of a word whose first letter was just consumed:
    /// everything up to a space (consumed) or a stop character (pushed
    /// back), then looked up in the keyword table. A word cut off by the
    /// end of the input is an invalid token.
    pub fn identifier_token(&mut self, l: usize) -> (t: Token)
        requires
            old(self).position <= old(self).chars@.len(),
            old(self).previous is Some,
        ensures
            final(self).chars == old(self).chars,
            final(self).previous == old(self).previous,
            old(self).position <= final(self).position <= old(self).chars@.len(),
            ({
                let s = old(self).chars@;
                let p = old(self).position as int;
                let d = old(self).previous->0;
                let e = ident_end(s, p);
                if e >= s.len() {
                    t@ == tokv(TokenTypeView::Invalid, "Found a non ending identifier"@, l as nat)
                        && final(self).position == s.len()
                } else {
                    let text = seq![d] + s.subrange(p, e);
                    t@ == tokv(word_kind(text), text, l as nat) && final(self).position == (
                    if s[e] == ' ' {
                        e + 1
                    } else {
                        e
                    })
                }
            }),
    {
        let ghost s = self.chars@;
        let n = self.chars.len();
        assert(s.len() == n);
        let start = self.position;
        let mut i = self.position;
        while i < self.chars.len() && !(self.chars[i] == ' ' || Self::is_stop(self.chars[i]))
            invariant
                start <= i <= self.chars@.len(),
                self.chars@ == s,
                self.chars@.len() <= usize::MAX,
                ident_end(s, start as int) == ident_end(s, i as int),
            decreases self.chars@.len() - i,
        {
            assert(ident_end(s, i as int) == ident_end(s, i + 1 as int));
            i = i + 1;
        }
        if i >= self.chars.len() {
            assert(ident_end(s, i as int) == s.len());
            self.position = i;
            return Token::new(TokenType::Invalid, "Found a non ending identifier", l);
        }
        assert(ident_end(s, i as int) == i);
        let prev = match self.previous {
            Some(c) => c,
            None => {
                assert(false);
                'a'
            },
        };
        let mut text: Vec<char> = Vec::new();
        text.push(prev);
        let mut rest = copy_range(&self.chars, start, i);
        text.append(&mut rest);
        assert(text@ =~= seq![prev] + s.subrange(start as int, i as int));
        if self.chars[i] == ' ' {
            self.position = i + 1;
        } else {
            self.position = i;
        }
        let st = chars_string(&text);
        match Token::keyword_token(st.as_str(), l) {
            Some(t) => t,
            None => Token::new(TokenType::Identifier, st.as_str(), l),
        }
    }

    /// Whether `c` ends an identifier and is lexed on its own.
    pub fn is_stop(c: char) -> (r: bool)
        ensures
            r == is_ident_stop(c),
    {
        c == '(' || c == ')' || c == '{' || c == '}' || c == '[' || c == ']' || c == '.' || c == ','
            || c == '=' || c == '\n' || c == ';'
    }
}

impl Token {
    /// The keyword token denoted by `t`, if `t` is a keyword.
    pub fn keyword_token(t: &str, l: usize) -> (r: Option<Token>)
        ensures
            match keyword_of(t@) {
                Some(kw) => r is Some && r->0@ == tokv(
                    TokenTypeView::Keyword(kw),
                    t@,
                    l as nat,
                ),
                None => r is None,
            },
    {
        let v = str_chars(t);
        if Self::word_is(&v, "let") {
            Some(Token::new(TokenType::Keyword(KeyWords::Let), t, l))
        } else if Self::word_is(&v, "fn") {
            Some(Token::new(TokenType::Keyword(KeyWords::Fn), t, l))
        } else if Self::word_is(&v, "if") {
            Some(Token::new(TokenType::Keyword(KeyWords::If), t, l))
        } else if Self::word_is(&v, "else") {
            Some(Token::new(TokenType::Keyword(KeyWords::Else), t, l))
        } else if Self::word_is(&v, "while") {
            Some(Token::new(TokenType::Keyword(KeyWords::While), t, l))
        } else if Self::word_is(&v, "for") {
            Some(Token::new(TokenType::Keyword(KeyWords::For), t, l))
        } else if Self::word_is(&v, "number") {
            Some(Token::new(TokenType::Keyword(KeyWords::Number), t, l))
        } else if Self::word_is(&v, "string") {
            Some(Token::new(TokenType::Keyword(KeyWords::String), t, l))
        } else if Self::word_is(&v, "return") {
            Some(Token::new(TokenType::Keyword(KeyWords::Return), t, l))
        } else if Self::word_is(&v, "use") {
            Some(Token::new(TokenType::Keyword(KeyWords::Use), t, l))
        } else if Self::word_is(&v, "const") {
            Some(Token::new(TokenType::Keyword(KeyWords::Const), t, l))
        } else if Self::word_is(&v, "true") || Self::word_is(&v, "false") {
            Some(Token::new(TokenType::Keyword(KeyWords::Bool), t, l))
        } else {
            None
        }
    }

    /// Whether the characters of `v` spell the word `w`.
    fn word_is(v: &Vec<char>, w: &str) -> (r: bool)
        ensures
            r == (v@ == w@),
    {
        let wv = str_chars(w);
        crate::text::chars_eq(v, &wv)
    }

    /// Lex the whole of `input` into tokens, tracking 1-based line
    /// numbers. The result is exactly what [`spec_lex_from`] describes.
    pub fn lex(input: String) -> (r: Vec<Token>)
        requires
            input@.len() < usize::MAX,
        ensures
            tokens_view(r@) == spec_lex_from(input@, 0, 1),
    {
        let ghost s = input@;
        let mut vec: Vec<Token> = Vec::new();
        let mut cursor = Cursor::new(input);
        let mut line: usize = 1;
        while cursor.position < cursor.chars.len()
            invariant
                cursor.chars@ == s,
                s.len() < usize::MAX,
                cursor.position <= s.len(),
                1 <= line,
                line <= cursor.position + 1,
                spec_lex_from(s, 0, 1) == tokens_view(vec@) + spec_lex_from(
                    s,
                    cursor.position as int,
                    line as nat,
                ),
            decreases s.len() - cursor.position,
        {
            let ghost p0 = cursor.position as int;
            let ghost l0 = line as nat;
            let c = match cursor.next() {
                Some(c) => c,
                None => {
                    assert(false);
                    ' '
                },
            };
            assert(c == s[p0]);
            match c {
                '\n' => {
                    line = line + 1;
                    assert(spec_lex_from(s, p0, l0) == spec_lex_from(s, p0 + 1, l0 + 1));
                },
                ' ' | '\t' => {
                    assert(spec_lex_from(s, p0, l0) == spec_lex_from(s, p0 + 1, l0));
                },
                ',' => {
                    let t = Token::new(TokenType::Comma, ",", line);
                    Self::emit(&mut vec, t, Ghost(s), Ghost(p0), Ghost(l0), Ghost(p0 + 1), Ghost(l0));
                },
                '+' => {
                    let t = Token::new(TokenType::Plus, "+", line);
                    Self::emit(&mut vec, t, Ghost(s), Ghost(p0), Ghost(l0), Ghost(p0 + 1), Ghost(l0));
                },
                '-' => {
                    let t = Token::new(TokenType::Min, "-", line);
                    Self::emit(&mut vec, t, Ghost(s), Ghost(p0), Ghost(l0), Ghost(p0 + 1), Ghost(l0));
                },
                '.' => {
                    let t = Token::new(TokenType::Dot, ".", line);
                    Self::emit(&mut vec, t, Ghost(s), Ghost(p0), Ghost(l0), Ghost(p0 + 1), Ghost(l0));
                },
                '}' => {
                    let t = Token::new(TokenType::CloseCurlyBracket, "}", line);
                    Self::emit(&mut vec, t, Ghost(s), Ghost(p0), Ghost(l0), Ghost(p0 + 1), Ghost(l0));
                },
                '{' => {
                    let t = Token::new(TokenType::OpenCurlyBracket, "{", line);
                    Self::emit(&mut vec, t, Ghost(s), Ghost(p0), Ghost(l0), Ghost(p0 + 1), Ghost(l0));
                },
                '(' => {
                    let t = Token::new(TokenType::OpenBrace, "(", line);
                    Self::emit(&mut vec, t, Ghost(s), Ghost(p0), Ghost(l0), Ghost(p0 + 1), Ghost(l0));
                },
                ')' => {
                    let t = Token::new(TokenType::CloseBrace, ")", line);
                    Self::emit(&mut vec, t, Ghost(s), Ghost(p0), Ghost(l0), Ghost(p0 + 1), Ghost(l0));
                },
                ':' => {
                    let t = Token::new(TokenType::Colon, ":", line);
                    Self::emit(&mut vec, t, Ghost(s), Ghost(p0), Ghost(l0), Ghost(p0 + 1), Ghost(l0));
                },
                '[' => {
                    let t = Token::new(TokenType::OpenBracket, "[", line);
                    Self::emit(&mut vec, t, Ghost(s), Ghost(p0), Ghost(l0), Ghost(p0 + 1), Ghost(l0));
                },
                ']' => {
                    let t = Token::new(TokenType::CloseBracket, "]", line);
                    Self::emit(&mut vec, t, Ghost(s), Ghost(p0), Ghost(l0), Ghost(p0 + 1), Ghost(l0));
                },
                ';' => {
                    let t = Token::new(TokenType::SemiColon, ";", line);
                    Self::emit(&mut vec, t, Ghost(s), Ghost(p0), Ghost(l0), Ghost(p0 + 1), Ghost(l0));
                },
                '/' => {
                    let t = cursor.comment_token(line);
                    proof {
                        lemma_find_char_bounds(s, p0 + 2, '\n');
                    }
                    Self::emit(&mut vec, t, Ghost(s), Ghost(p0), Ghost(l0), Ghost(cursor.position as int), Ghost(l0));
                },
                '=' => {
                    let t = cursor.eq_token(line);
                    Self::emit(&mut vec, t, Ghost(s), Ghost(p0), Ghost(l0), Ghost(cursor.position as int), Ghost(l0));
                },
                '>' => {
                    let t = cursor.more_token(line);
                    Self::emit(&mut vec, t, Ghost(s), Ghost(p0), Ghost(l0), Ghost(cursor.position as int), Ghost(l0));
                },
                '<' => {
                    let t = cursor.less_token(line);
                    Self::emit(&mut vec, t, Ghost(s), Ghost(p0), Ghost(l0), Ghost(cursor.position as int), Ghost(l0));
                },
                '0'..='9' => {
                    let t = cursor.number_token(line);
                    proof {
                        lemma_digit_run_end_bounds(s, p0 + 1);
                        assert(seq![s[p0]] + s.subrange(p0 + 1, digit_run_end(s, p0 + 1))
                            =~= s.subrange(p0, digit_run_end(s, p0 + 1)));
                    }
                    Self::emit(&mut vec, t, Ghost(s), Ghost(p0), Ghost(l0), Ghost(cursor.position as int), Ghost(l0));
                },
                '"' => {
                    let t = cursor.string_token(line);
                    proof {
                        lemma_find_char_bounds(s, p0 + 1, '"');
                    }
                    Self::emit(&mut vec, t, Ghost(s), Ghost(p0), Ghost(l0), Ghost(cursor.position as int), Ghost(l0));
                },
                'A'..='Z' | 'a'..='z' => {
                    let t = cursor.identifier_token(line);
                    proof {
                        lemma_ident_end_bounds(s, p0 + 1);
                        assert(seq![s[p0]] + s.subrange(p0 + 1, ident_end(s, p0 + 1)) =~= s.subrange(
                            p0,
                            ident_end(s, p0 + 1),
                        ));
                    }
                    Self::emit(&mut vec, t, Ghost(s), Ghost(p0), Ghost(l0), Ghost(cursor.position as int), Ghost(l0));
                },
                _ => {
                    let t = Token::new(TokenType::Invalid, "Invalid token", line);
                    Self::emit(&mut vec, t, Ghost(s), Ghost(p0), Ghost(l0), Ghost(p0 + 1), Ghost(l0));
                },
            }
        }
        assert(spec_lex_from(s, cursor.position as int, line as nat) == Seq::<
            TokenView,
        >::empty());
        assert(tokens_view(vec@) =~= spec_lex_from(s, 0, 1));
        vec
    }

    /// Append a token to the stream, carrying the main loop's invariant
    /// forward: the emitted token is the next one that the specification
    /// produces.
    fn emit(
        vec: &mut Vec<Token>,
        t: Token,
        Ghost(s): Ghost<Seq<char>>,
        Ghost(p0): Ghost<int>,
        Ghost(l0): Ghost<nat>,
        Ghost(p1): Ghost<int>,
        Ghost(l1): Ghost<nat>,
    )
        requires
            spec_lex_from(s, 0, 1) == tokens_view(old(vec)@) + spec_lex_from(s, p0, l0),
            spec_lex_from(s, p0, l0) == seq![t@] + spec_lex_from(s, p1, l1),
        ensures
            final(vec)@ == old(vec)@.push(t),
            spec_lex_from(s, 0, 1) == tokens_view(final(vec)@) + spec_lex_from(s, p1, l1),
    {
        vec.push(t);
        assert(tokens_view(old(vec)@.push(t)) =~= tokens_view(old(vec)@).push(t@));
        assert(tokens_view(old(vec)@) + (seq![t@] + spec_lex_from(s, p1, l1)) =~= tokens_view(
            old(vec)@.push(t),
        ) + spec_lex_from(s, p1, l1));
    }
}

} // verus!
