//! The character-level scanner: a tokenizer over a character buffer and a
//! configurable ordered list of matchers, each specified by `match_at`.

use vstd::prelude::*;

verus! {

use crate::error::LexError;
use crate::strutil::push_char;
use crate::token::{Token, TokenType};
use crate::value::strs_view;
use vstd::string::StringExecFns;

broadcast use vstd::std_specs::vec::group_vec_axioms;

/// A matcher: one rule for recognizing a token at a position. `Constant`
/// matches the longest of its fixed texts (the first among equals); with the
/// whole-word flag it refuses a match followed by an identifier character.
#[derive(Debug, PartialEq)]
pub enum Matcher {
    Whitespace,
    FloatLiteral,
    IntLiteral,
    StringLiteral,
    Constant(TokenType, Vec<String>, bool),
    Identifier,
}

pub open spec fn is_space(c: char) -> bool {
    c == ' ' || c == '\t' || c == '\r' || c == '\n'
}

pub open spec fn is_digit(c: char) -> bool {
    '0' <= c && c <= '9'
}

pub open spec fn is_ident_start(c: char) -> bool {
    ('a' <= c && c <= 'z') || ('A' <= c && c <= 'Z') || c == '_'
}

pub open spec fn is_ident_char(c: char) -> bool {
    is_ident_start(c) || is_digit(c)
}

/// The length of the run of whitespace starting at `pos`.
pub open spec fn space_run(s: Seq<char>, pos: int) -> int
    decreases s.len() - pos,
{
    if 0 <= pos < s.len() && is_space(s[pos]) {
        1 + space_run(s, pos + 1)
    } else {
        0
    }
}

/// The length of the run of digits starting at `pos`.
pub open spec fn digit_run(s: Seq<char>, pos: int) -> int
    decreases s.len() - pos,
{
    if 0 <= pos < s.len() && is_digit(s[pos]) {
        1 + digit_run(s, pos + 1)
    } else {
        0
    }
}

/// The length of the run of identifier characters starting at `pos`.
pub open spec fn ident_run(s: Seq<char>, pos: int) -> int
    decreases s.len() - pos,
{
    if 0 <= pos < s.len() && is_ident_char(s[pos]) {
        1 + ident_run(s, pos + 1)
    } else {
        0
    }
}

/// The position of the next double quote at or after `pos`, if any.
pub open spec fn close_quote(s: Seq<char>, pos: int) -> Option<int>
    decreases s.len() - pos,
{
    if pos < 0 || pos >= s.len() {
        None
    } else if s[pos] == '"' {
        Some(pos)
    } else {
        close_quote(s, pos + 1)
    }
}

/// Whether constant `c` matches at `pos`: it is the text there, and under
/// the whole-word rule no identifier character follows it.
pub open spec fn const_matches(c: Seq<char>, s: Seq<char>, pos: int, whole: bool) -> bool {
    &&& c.len() > 0
    &&& pos + c.len() <= s.len()
    &&& s.subrange(pos, pos + c.len()) == c
    &&& (whole ==> (pos + c.len() == s.len() || !is_ident_char(s[pos + c.len()])))
}

/// The longest constant of `cs` matching at `pos`; the first among equals.
pub open spec fn best_const(cs: Seq<Seq<char>>, s: Seq<char>, pos: int, whole: bool) -> Option<
    Seq<char>,
>
    decreases cs.len(),
{
    if cs.len() == 0 {
        None
    } else {
        let rest = best_const(cs.drop_first(), s, pos, whole);
        if const_matches(cs[0], s, pos, whole) {
            match rest {
                Some(b) => if b.len() > cs[0].len() {
                    Some(b)
                } else {
                    Some(cs[0])
                },
                None => Some(cs[0]),
            }
        } else {
            rest
        }
    }
}

/// What a matcher recognizes at a position: the token kind, its text, and
/// the position right after it.
pub open spec fn match_at(m: Matcher, s: Seq<char>, pos: int) -> Option<
    (TokenType, Seq<char>, int),
> {
    match m {
        Matcher::Whitespace => {
            let k = space_run(s, pos);
            if k > 0 {
                Some((TokenType::Whitespace, s.subrange(pos, pos + k), pos + k))
            } else {
                None
            }
        },
        Matcher::IntLiteral => {
            let k = digit_run(s, pos);
            if k > 0 {
                Some((TokenType::IntLiteral, s.subrange(pos, pos + k), pos + k))
            } else {
                None
            }
        },
        Matcher::FloatLiteral => {
            let k = digit_run(s, pos);
            let k2 = digit_run(s, pos + k + 1);
            if k > 0 && pos + k < s.len() && s[pos + k] == '.' && k2 > 0 {
                Some((TokenType::FloatLiteral, s.subrange(pos, pos + k + 1 + k2), pos + k + 1 + k2))
            } else {
                None
            }
        },
        Matcher::StringLiteral => {
            if 0 <= pos < s.len() && s[pos] == '"' {
                match close_quote(s, pos + 1) {
                    Some(j) => Some((TokenType::StringLiteral, s.subrange(pos + 1, j), j + 1)),
                    None => None,
                }
            } else {
                None
            }
        },
        Matcher::Constant(tt, cs, whole) => {
            match best_const(strs_view(cs@), s, pos, whole) {
                Some(c) => Some((tt, c, pos + c.len())),
                None => None,
            }
        },
        Matcher::Identifier => {
            if 0 <= pos < s.len() && is_ident_start(s[pos]) {
                let k = ident_run(s, pos);
                Some((TokenType::Identifier, s.subrange(pos, pos + k), pos + k))
            } else {
                None
            }
        },
    }
}

/// The first matcher of the list that accepts at `pos`, with its result.
pub open spec fn first_match(ms: Seq<Matcher>, s: Seq<char>, pos: int) -> Option<
    (TokenType, Seq<char>, int),
>
    decreases ms.len(),
{
    if ms.len() == 0 {
        None
    } else {
        match match_at(ms[0], s, pos) {
            Some(r) => Some(r),
            None => first_match(ms.drop_first(), s, pos),
        }
    }
}

/// The character cursor the matchers run over.
pub struct Tokenizer {
    pub chars: Vec<char>,
    pub pos: usize,
}

impl Tokenizer {
    /// A tokenizer at the start of a character buffer.
    pub fn new(chars: Vec<char>) -> (t: Tokenizer)
        ensures
            t.chars == chars,
            t.pos == 0,
    {
        Tokenizer { chars, pos: 0 }
    }
}

/// Copies `s[from..to]` into a fresh string.
fn slice_to_string(s: &Vec<char>, from: usize, to: usize) -> (r: String)
    requires
        from <= to <= s@.len(),
    ensures
        r@ == s@.subrange(from as int, to as int),
{
    let mut r = String::new();
    let mut i = from;
    while i < to
        invariant
            from <= i <= to <= s@.len(),
            r@ =~= s@.subrange(from as int, i as int),
        decreases to - i,
    {
        push_char(&mut r, s[i]);
        proof {
            assert(r@ =~= s@.subrange(from as int, i as int + 1));
        }
        i = i + 1;
    }
    r
}

/// The length of the whitespace run at `pos`, executably.
fn space_run_exec(s: &Vec<char>, pos: usize) -> (r: usize)
    requires
        pos <= s@.len(),
    ensures
        r == space_run(s@, pos as int),
        pos + r <= s@.len(),
    decreases s@.len() - pos,
{
    if pos < s.len() {
        let c = s[pos];
        if c == ' ' || c == '\t' || c == '\r' || c == '\n' {
            return 1 + space_run_exec(s, pos + 1);
        }
    }
    0
}

/// The length of the digit run at `pos`, executably.
fn digit_run_exec(s: &Vec<char>, pos: usize) -> (r: usize)
    requires
        pos <= s@.len(),
    ensures
        r == digit_run(s@, pos as int),
        pos + r <= s@.len(),
    decreases s@.len() - pos,
{
    if pos < s.len() {
        let c = s[pos];
        if '0' <= c && c <= '9' {
            return 1 + digit_run_exec(s, pos + 1);
        }
    }
    0
}

/// The length of the identifier-character run at `pos`, executably.
fn ident_run_exec(s: &Vec<char>, pos: usize) -> (r: usize)
    requires
        pos <= s@.len(),
    ensures
        r == ident_run(s@, pos as int),
        pos + r <= s@.len(),
    decreases s@.len() - pos,
{
    if pos < s.len() {
        let c = s[pos];
        if is_ident_char_exec(c) {
            return 1 + ident_run_exec(s, pos + 1);
        }
    }
    0
}

/// Decides `is_ident_char`.
fn is_ident_char_exec(c: char) -> (r: bool)
    ensures
        r == is_ident_char(c),
{
    ('a' <= c && c <= 'z') || ('A' <= c && c <= 'Z') || c == '_' || ('0' <= c && c <= '9')
}

/// The next double quote at or after `pos`, executably.
fn close_quote_exec(s: &Vec<char>, pos: usize) -> (r: Option<usize>)
    requires
        pos <= s@.len(),
    ensures
        match r {
            Some(j) => close_quote(s@, pos as int) == Some(j as int) && pos <= j < s@.len(),
            None => close_quote(s@, pos as int) is None,
        },
    decreases s@.len() - pos,
{
    if pos >= s.len() {
        None
    } else if s[pos] == '"' {
        Some(pos)
    } else {
        match close_quote_exec(s, pos + 1) {
            Some(j) => Some(j),
            None => None,
        }
    }
}

/// Whether constant `c` matches at `pos`, executably.
fn const_matches_exec(c: &String, s: &Vec<char>, pos: usize, whole: bool) -> (r: bool)
    requires
        pos <= s@.len(),
    ensures
        r == const_matches(c@, s@, pos as int, whole),
{
    let cs = c.as_str();
    let clen = cs.unicode_len();
    if clen == 0 {
        return false;
    }
    if clen > s.len() - pos {
        return false;
    }
    let mut i: usize = 0;
    while i < clen
        invariant
            i <= clen,
            clen == c@.len(),
            pos + clen <= s@.len() <= usize::MAX,
            cs@ == c@,
            forall|j: int| 0 <= j < i ==> s@[pos + j] == c@[j],
        decreases clen - i,
    {
        if s[pos + i] != cs.get_char(i) {
            proof {
                assert(s@.subrange(pos as int, pos + c@.len())[i as int] != c@[i as int]);
            }
            return false;
        }
        i = i + 1;
    }
    proof {
        assert(s@.subrange(pos as int, pos + c@.len()) =~= c@);
    }
    if whole {
        if pos + clen < s.len() {
            if is_ident_char_exec(s[pos + clen]) {
                return false;
            }
        }
    }
    true
}

/// The longest matching constant of `cs` at `pos`, executably: its index.
fn best_const_exec(cs: &Vec<String>, s: &Vec<char>, pos: usize, whole: bool) -> (r: Option<usize>)
    requires
        pos <= s@.len(),
    ensures
        match r {
            Some(i) => i < cs@.len() && best_const(strs_view(cs@), s@, pos as int, whole) == Some(
                cs@[i as int]@,
            ),
            None => best_const(strs_view(cs@), s@, pos as int, whole) is None,
        },
    decreases cs@.len(),
{
    if cs.len() == 0 {
        return None;
    }
    let head_ok = const_matches_exec(&cs[0], s, pos, whole);
    let mut tail: Vec<String> = Vec::new();
    let mut i: usize = 1;
    while i < cs.len()
        invariant
            1 <= i <= cs@.len(),
            tail@.len() == i - 1,
            forall|j: int| 0 <= j < i - 1 ==> tail@[j] == cs@[j + 1],
        decreases cs@.len() - i,
    {
        tail.push(cs[i].clone());
        i = i + 1;
    }
    proof {
        assert(strs_view(tail@) =~= strs_view(cs@).drop_first());
    }
    let rest = best_const_exec(&tail, s, pos, whole);
    if head_ok {
        match rest {
            Some(ri) => {
                if tail[ri].as_str().unicode_len() > cs[0].as_str().unicode_len() {
                    Some(ri + 1)
                } else {
                    Some(0)
                }
            },
            None => Some(0),
        }
    } else {
        match rest {
            Some(ri) => Some(ri + 1),
            None => None,
        }
    }
}

impl Tokenizer {
    /// Tries one matcher at the cursor. On a match the cursor moves past the
    /// token; otherwise it stays put.
    pub fn try_match_token(&mut self, m: &Matcher) -> (r: Option<Token>)
        requires
            old(self).pos <= old(self).chars@.len(),
        ensures
            final(self).chars == old(self).chars,
            match r {
                Some(t) => {
                    &&& match_at(*m, old(self).chars@, old(self).pos as int) matches Some(mr)
                        && t.token_type == mr.0 && t.content@ == mr.1 && final(self).pos as int
                        == mr.2 && t.position == old(self).pos
                    &&& final(self).pos <= final(self).chars@.len()
                },
                None => match_at(*m, old(self).chars@, old(self).pos as int) is None
                    && final(self).pos == old(self).pos,
            },
    {
        let pos = self.pos;
        let total = self.chars.len();
        match m {
            Matcher::Whitespace => {
                let k = space_run_exec(&self.chars, pos);
                if k > 0 {
                    let content = slice_to_string(&self.chars, pos, pos + k);
                    self.pos = pos + k;
                    Some(Token::new(TokenType::Whitespace, content, pos))
                } else {
                    None
                }
            },
            Matcher::IntLiteral => {
                let k = digit_run_exec(&self.chars, pos);
                if k > 0 {
                    let content = slice_to_string(&self.chars, pos, pos + k);
                    self.pos = pos + k;
                    Some(Token::new(TokenType::IntLiteral, content, pos))
                } else {
                    None
                }
            },
            Matcher::FloatLiteral => {
                let k = digit_run_exec(&self.chars, pos);
                if k > 0 && pos + k < total && self.chars[pos + k] == '.' {
                    let k2 = digit_run_exec(&self.chars, pos + k + 1);
                    if k2 > 0 {
                        let end = pos + k + 1 + k2;
                        let content = slice_to_string(&self.chars, pos, end);
                        self.pos = end;
                        return Some(Token::new(TokenType::FloatLiteral, content, pos));
                    }
                    return None;
                }
                None
            },
            Matcher::StringLiteral => {
                if pos < self.chars.len() && self.chars[pos] == '"' {
                    match close_quote_exec(&self.chars, pos + 1) {
                        Some(j) => {
                            let content = slice_to_string(&self.chars, pos + 1, j);
                            self.pos = j + 1;
                            Some(Token::new(TokenType::StringLiteral, content, pos))
                        },
                        None => None,
                    }
                } else {
                    None
                }
            },
            Matcher::Constant(tt, cs, whole) => {
                match best_const_exec(cs, &self.chars, pos, *whole) {
                    Some(i) => {
                        let content = cs[i].clone();
                        let clen = content.as_str().unicode_len();
                        proof {
                            assert(const_matches(content@, self.chars@, pos as int, *whole))
                                by {
                                lemma_best_const_matches(
                                    strs_view(cs@),
                                    self.chars@,
                                    pos as int,
                                    *whole,
                                );
                            }
                        }
                        self.pos = pos + clen;
                        Some(Token::new(*tt, content, pos))
                    },
                    None => None,
                }
            },
            Matcher::Identifier => {
                if pos < self.chars.len() && is_ident_start_exec(self.chars[pos]) {
                    let k = ident_run_exec(&self.chars, pos);
                    proof {
                        lemma_runs_bounded(self.chars@, pos as int + 1);
                        assert(k > 0);
                    }
                    let content = slice_to_string(&self.chars, pos, pos + k);
                    self.pos = pos + k;
                    Some(Token::new(TokenType::Identifier, content, pos))
                } else {
                    None
                }
            },
        }
    }
}

/// Decides `is_ident_start`.
fn is_ident_start_exec(c: char) -> (r: bool)
    ensures
        r == is_ident_start(c),
{
    ('a' <= c && c <= 'z') || ('A' <= c && c <= 'Z') || c == '_'
}

/// A matched constant really is the text at the position.
proof fn lemma_best_const_matches(cs: Seq<Seq<char>>, s: Seq<char>, pos: int, whole: bool)
    ensures
        best_const(cs, s, pos, whole) matches Some(c) ==> const_matches(c, s, pos, whole),
    decreases cs.len(),
{
    if cs.len() > 0 {
        lemma_best_const_matches(cs.drop_first(), s, pos, whole);
    }
}

/// The scanner: a tokenizer plus the ordered matcher list it consults.
pub struct Lexer {
    pub tokenizer: Tokenizer,
    pub matchers: Vec<Matcher>,
}

impl Lexer {
    /// A lexer over a tokenizer, with no matchers yet.
    pub fn new(tokenizer: Tokenizer) -> (l: Lexer)
        ensures
            l.tokenizer == tokenizer,
            l.matchers@ == Seq::<Matcher>::empty(),
    {
        Lexer { tokenizer, matchers: Vec::new() }
    }

    /// The matcher list.
    pub fn matchers(&self) -> (r: &Vec<Matcher>)
        ensures
            r == &self.matchers,
    {
        &self.matchers
    }

    /// The matcher list, for configuration.
    pub fn matchers_mut(&mut self) -> (r: &mut Vec<Matcher>)
        ensures
            *r == old(self).matchers,
            final(self).matchers == *final(r),
            final(self).tokenizer == old(self).tokenizer,
    {
        &mut self.matchers
    }

    /// Tries the matchers in order at the cursor; at the end of the input it
    /// yields the `EOF` sentinel. `None` means no matcher accepts here.
    pub fn match_token(&mut self) -> (r: Option<Token>)
        requires
            old(self).tokenizer.pos <= old(self).tokenizer.chars@.len(),
        ensures
            final(self).tokenizer.chars == old(self).tokenizer.chars,
            final(self).matchers == old(self).matchers,
            final(self).tokenizer.pos <= final(self).tokenizer.chars@.len(),
            ({
                let fm = first_match(
                    old(self).matchers@,
                    old(self).tokenizer.chars@,
                    old(self).tokenizer.pos as int,
                );
                match r {
                    Some(t) => {
                        if old(self).tokenizer.pos == old(self).tokenizer.chars@.len() {
                            t.token_type == TokenType::EOF && t.content@ == Seq::<char>::empty()
                                && t.position == old(self).tokenizer.pos
                                && final(self).tokenizer.pos == old(self).tokenizer.pos
                        } else {
                            fm matches Some(mr) && t.token_type == mr.0 && t.content@ == mr.1
                                && final(self).tokenizer.pos as int == mr.2
                                && t.position == old(self).tokenizer.pos
                        }
                    },
                    None => old(self).tokenizer.pos < old(self).tokenizer.chars@.len() && fm
                        is None && final(self).tokenizer.pos == old(self).tokenizer.pos,
                }
            }),
    {
        if self.tokenizer.pos >= self.tokenizer.chars.len() {
            return Some(Token::new(TokenType::EOF, String::new(), self.tokenizer.pos));
        }
        let mut i: usize = 0;
        proof {
            assert(old(self).matchers@.skip(0) =~= old(self).matchers@);
        }
        while i < self.matchers.len()
            invariant
                i <= self.matchers@.len(),
                self.tokenizer.pos <= self.tokenizer.chars@.len(),
                self.tokenizer.pos == old(self).tokenizer.pos,
                self.tokenizer.chars == old(self).tokenizer.chars,
                self.matchers == old(self).matchers,
                old(self).tokenizer.pos < old(self).tokenizer.chars@.len(),
                first_match(
                    old(self).matchers@,
                    old(self).tokenizer.chars@,
                    old(self).tokenizer.pos as int,
                ) == first_match(
                    old(self).matchers@.skip(i as int),
                    old(self).tokenizer.chars@,
                    old(self).tokenizer.pos as int,
                ),
            decreases self.matchers@.len() - i,
        {
            let ghost pre = *self;
            let m = &self.matchers[i];
            proof {
                assert(old(self).matchers@.skip(i as int)[0] == old(self).matchers@[i as int]);
                assert(old(self).matchers@.skip(i as int).drop_first()
                    =~= old(self).matchers@.skip(i as int + 1));
            }
            // borrow the matcher out of self while the tokenizer moves
            let mm = clone_matcher(m);
            let ghost msk = old(self).matchers@.skip(i as int);
            match self.tokenizer.try_match_token(&mm) {
                Some(t) => {
                    proof {
                        assert(match_at(mm, old(self).tokenizer.chars@, old(self).tokenizer.pos as int)
                            == match_at(msk[0], old(self).tokenizer.chars@, old(self).tokenizer.pos as int));
                        assert(first_match(msk, old(self).tokenizer.chars@, old(self).tokenizer.pos as int)
                            == match_at(msk[0], old(self).tokenizer.chars@, old(self).tokenizer.pos as int));
                    }
                    return Some(t);
                },
                None => {
                    proof {
                        assert(match_at(mm, old(self).tokenizer.chars@, old(self).tokenizer.pos as int)
                            == match_at(msk[0], old(self).tokenizer.chars@, old(self).tokenizer.pos as int));
                    }
                },
            }
            i = i + 1;
        }
        None
    }
}

/// Clones a matcher, keeping its meaning.
fn clone_matcher(m: &Matcher) -> (r: Matcher)
    ensures
        forall|s: Seq<char>, pos: int| match_at(r, s, pos) == match_at(*m, s, pos),
{
    match m {
        Matcher::Whitespace => Matcher::Whitespace,
        Matcher::FloatLiteral => Matcher::FloatLiteral,
        Matcher::IntLiteral => Matcher::IntLiteral,
        Matcher::StringLiteral => Matcher::StringLiteral,
        Matcher::Constant(tt, cs, w) => {
            let r = Matcher::Constant(*tt, crate::value::clone_strings(cs), *w);
            proof {
                assert(forall|s: Seq<char>, pos: int| match_at(r, s, pos) == match_at(*m, s, pos));
            }
            r
        },
        Matcher::Identifier => Matcher::Identifier,
    }
}

/// A whitespace, digit or identifier run never runs past the input.
proof fn lemma_runs_bounded(s: Seq<char>, pos: int)
    requires
        0 <= pos <= s.len(),
    ensures
        0 <= space_run(s, pos) && pos + space_run(s, pos) <= s.len(),
        0 <= digit_run(s, pos) && pos + digit_run(s, pos) <= s.len(),
        0 <= ident_run(s, pos) && pos + ident_run(s, pos) <= s.len(),
    decreases s.len() - pos,
{
    if pos < s.len() {
        lemma_runs_bounded(s, pos + 1);
    }
}

/// A found closing quote lies within the input.
proof fn lemma_close_quote_bounded(s: Seq<char>, pos: int)
    requires
        0 <= pos,
    ensures
        close_quote(s, pos) matches Some(j) ==> pos <= j < s.len(),
    decreases s.len() - pos,
{
    if pos < s.len() && s[pos] != '"' {
        lemma_close_quote_bounded(s, pos + 1);
    }
}

/// A successful match moves the position strictly forward, and never past
/// the end of the input.
proof fn lemma_match_at_advances(m: Matcher, s: Seq<char>, pos: int)
    requires
        0 <= pos <= s.len(),
    ensures
        match_at(m, s, pos) matches Some(mr) ==> pos < mr.2 <= s.len(),
{
    lemma_runs_bounded(s, pos);
    match m {
        Matcher::Whitespace => {
            assert(match_at(m, s, pos) matches Some(mr) ==> pos < mr.2 <= s.len());
        },
        Matcher::IntLiteral => {
            assert(match_at(m, s, pos) matches Some(mr) ==> pos < mr.2 <= s.len());
        },
        Matcher::Identifier => {
            if pos < s.len() {
                lemma_runs_bounded(s, pos + 1);
            }
            assert(match_at(m, s, pos) matches Some(mr) ==> pos < mr.2 <= s.len());
        },
        Matcher::StringLiteral => {
            lemma_close_quote_bounded(s, pos + 1);
            assert(match_at(m, s, pos) matches Some(mr) ==> pos < mr.2 <= s.len());
        },
        Matcher::FloatLiteral => {
            let k = digit_run(s, pos);
            if pos + k < s.len() {
                lemma_runs_bounded(s, pos + k + 1);
            }
            assert(match_at(m, s, pos) matches Some(mr) ==> pos < mr.2 <= s.len());
        },
        Matcher::Constant(tt, cs, whole) => {
            lemma_best_const_matches(strs_view(cs@), s, pos, whole);
            assert(match_at(m, s, pos) matches Some(mr) ==> pos < mr.2 <= s.len());
        },
    }
}

/// The first successful match moves the position strictly forward.
proof fn lemma_first_match_advances(ms: Seq<Matcher>, s: Seq<char>, pos: int)
    requires
        0 <= pos <= s.len(),
    ensures
        first_match(ms, s, pos) matches Some(mr) ==> pos < mr.2 <= s.len(),
    decreases ms.len(),
{
    if ms.len() > 0 {
        lemma_match_at_advances(ms[0], s, pos);
        lemma_first_match_advances(ms.drop_first(), s, pos);
    }
}

/// The view of a scanned token list: kind, text and starting position of
/// each token.
pub open spec fn toks_view(ts: Seq<Token>) -> Seq<(TokenType, Seq<char>, int)> {
    Seq::new(ts.len(), |i: int| (ts[i].token_type, ts[i].content@, ts[i].position as int))
}

/// The token list the matchers derive from `pos` on: the first matching
/// rule decides each token, whitespace is dropped, the `EOF` sentinel ends
/// the scan, and a position no matcher accepts is the error. A match that
/// would not advance ends the scan too; `lemma_first_match_advances` shows
/// there is none.
pub open spec fn scan_spec(ms: Seq<Matcher>, s: Seq<char>, pos: int) -> Result<
    Seq<(TokenType, Seq<char>, int)>,
    int,
>
    decreases s.len() - pos,
{
    if pos >= s.len() {
        Ok(seq![(TokenType::EOF, Seq::<char>::empty(), pos)])
    } else {
        match first_match(ms, s, pos) {
            None => Err(pos),
            Some(m) => if m.2 <= pos || m.2 > s.len() {
                Err(pos)
            } else if m.0 == TokenType::EOF {
                Ok(seq![(m.0, m.1, pos)])
            } else if m.0 == TokenType::Whitespace {
                scan_spec(ms, s, m.2)
            } else {
                match scan_spec(ms, s, m.2) {
                    Err(e) => Err(e),
                    Ok(rest) => Ok(seq![(m.0, m.1, pos)] + rest),
                }
            },
        }
    }
}

/// Prepends already-scanned tokens to the outcome of the rest of the scan.
pub open spec fn scan_prepend(
    done: Seq<(TokenType, Seq<char>, int)>,
    cont: Result<Seq<(TokenType, Seq<char>, int)>, int>,
) -> Result<Seq<(TokenType, Seq<char>, int)>, int> {
    match cont {
        Ok(rest) => Ok(done + rest),
        Err(e) => Err(e),
    }
}

/// Scans the whole input, exactly as `scan_spec` derives it: whitespace
/// tokens are dropped, the `EOF` sentinel is kept as the final token, and a
/// character no matcher accepts is an error carrying its position.
pub fn tokenize(l: &mut Lexer) -> (r: Result<Vec<Token>, LexError>)
    requires
        old(l).tokenizer.pos <= old(l).tokenizer.chars@.len(),
    ensures
        match r {
            Ok(ts) => ts@.len() > 0 && ts@.last().token_type == TokenType::EOF && forall|i: int|
                0 <= i < ts@.len() - 1 ==> #[trigger] ts@[i].token_type != TokenType::Whitespace,
            Err(e) => true,
        },
        ({
            let r0 = scan_spec(
                old(l).matchers@,
                old(l).tokenizer.chars@,
                old(l).tokenizer.pos as int,
            );
            match r {
                Ok(ts) => r0 == Ok::<Seq<(TokenType, Seq<char>, int)>, int>(toks_view(ts@)),
                Err(e) => r0 == Err::<Seq<(TokenType, Seq<char>, int)>, int>(e.position as int),
            }
        }),
{
    let ghost ms0 = l.matchers@;
    let ghost cs0 = l.tokenizer.chars@;
    let ghost q0 = l.tokenizer.pos as int;
    let mut out: Vec<Token> = Vec::new();
    proof {
        assert(toks_view(out@) =~= Seq::<(TokenType, Seq<char>, int)>::empty());
    }
    loop
        invariant
            l.tokenizer.pos <= l.tokenizer.chars@.len(),
            l.matchers == old(l).matchers,
            l.tokenizer.chars == old(l).tokenizer.chars,
            ms0 == l.matchers@,
            cs0 == l.tokenizer.chars@,
            q0 == old(l).tokenizer.pos as int,
            scan_spec(ms0, cs0, q0) == scan_prepend(
                toks_view(out@),
                scan_spec(ms0, cs0, l.tokenizer.pos as int),
            ),
            forall|i: int|
                0 <= i < out@.len() ==> #[trigger] out@[i].token_type != TokenType::Whitespace,
        decreases l.tokenizer.chars@.len() - l.tokenizer.pos,
    {
        let ghost p0 = l.tokenizer.pos as int;
        let ghost tv = toks_view(out@);
        let at_end = l.tokenizer.pos >= l.tokenizer.chars.len();
        match l.match_token() {
            None => {
                proof {
                    assert(scan_spec(ms0, cs0, p0) == Err::<
                        Seq<(TokenType, Seq<char>, int)>,
                        int,
                    >(p0));
                }
                return Err(LexError { position: l.tokenizer.pos });
            },
            Some(t) => {
                if at_end {
                    out.push(t);
                    proof {
                        assert(scan_spec(ms0, cs0, p0) == Ok::<
                            Seq<(TokenType, Seq<char>, int)>,
                            int,
                        >(seq![(TokenType::EOF, Seq::<char>::empty(), p0)]));
                        assert(toks_view(out@) =~= tv + seq![
                            (TokenType::EOF, Seq::<char>::empty(), p0),
                        ]);
                    }
                    return Ok(out);
                }
                proof {
                    lemma_first_match_advances(ms0, cs0, p0);
                }
                if !matches!(t.token_type, TokenType::Whitespace) {
                    if matches!(t.token_type, TokenType::EOF) {
                        out.push(t);
                        proof {
                            let m = first_match(ms0, cs0, p0)->Some_0;
                            assert(scan_spec(ms0, cs0, p0) == Ok::<
                                Seq<(TokenType, Seq<char>, int)>,
                                int,
                            >(seq![(m.0, m.1, p0)]));
                            assert(toks_view(out@) =~= tv + seq![(m.0, m.1, p0)]);
                        }
                        return Ok(out);
                    }
                    out.push(t);
                    proof {
                        let m = first_match(ms0, cs0, p0)->Some_0;
                        assert(scan_spec(ms0, cs0, p0) == scan_prepend(
                            seq![(m.0, m.1, p0)],
                            scan_spec(ms0, cs0, l.tokenizer.pos as int),
                        ));
                        assert(toks_view(out@) =~= tv.push((m.0, m.1, p0)));
                        match scan_spec(ms0, cs0, l.tokenizer.pos as int) {
                            Ok(rest) => {
                                assert(tv + (seq![(m.0, m.1, p0)] + rest) =~= toks_view(out@)
                                    + rest);
                            },
                            Err(e) => {},
                        }
                    }
                } else {
                    proof {
                        assert(scan_spec(ms0, cs0, p0) == scan_spec(
                            ms0,
                            cs0,
                            l.tokenizer.pos as int,
                        ));
                    }
                }
            },
        }
    }
}

/// The standard matcher configuration of the language, in order: whitespace
/// first, then float before int, strings, the boolean and keyword words,
/// identifiers, operators (longest first among equals), and symbols.
pub fn lexer(data: Vec<char>) -> (l: Lexer)
    ensures
        l.tokenizer.chars == data,
        l.tokenizer.pos == 0,
        l.matchers@.len() == 9,
        l.matchers@[0] == Matcher::Whitespace,
        l.matchers@[1] == Matcher::FloatLiteral,
        l.matchers@[2] == Matcher::IntLiteral,
        l.matchers@[3] == Matcher::StringLiteral,
        l.matchers@[4] matches Matcher::Constant(tt, cs, w) && tt == TokenType::BoolLiteral && w
            == true && strs_view(cs@) == seq!["tru"@, "fal"@],
        l.matchers@[5] matches Matcher::Constant(tt, cs, w) && tt == TokenType::Keyword && w == true
            && strs_view(cs@) == seq!["var"@, "f"@, "if"@, "else"@],
        l.matchers@[6] == Matcher::Identifier,
        l.matchers@[7] matches Matcher::Constant(tt, cs, w) && tt == TokenType::Operator && w
            == false && strs_view(cs@) == seq![
            "+"@,
            "-"@,
            "*"@,
            "/"@,
            "=="@,
            "="@,
            "<"@,
            ">"@,
            ">="@,
            "<="@,
            "!="@,
        ],
        l.matchers@[8] matches Matcher::Constant(tt, cs, w) && tt == TokenType::Symbol && w
            == false && strs_view(cs@) == seq![
            "("@,
            ")"@,
            "["@,
            "]"@,
            ","@,
            "."@,
            ":"@,
            "!"@,
            "{"@,
            "}"@,
            "~"@,
        ],
{
    let tokenizer = Tokenizer::new(data);
    let mut l = Lexer::new(tokenizer);

    let mut booleans: Vec<String> = Vec::new();
    booleans.push(String::from_str("tru"));
    booleans.push(String::from_str("fal"));
    proof {
        assert(strs_view(booleans@) =~= seq!["tru"@, "fal"@]);
    }

    let mut keywords: Vec<String> = Vec::new();
    keywords.push(String::from_str("var"));
    keywords.push(String::from_str("f"));
    keywords.push(String::from_str("if"));
    keywords.push(String::from_str("else"));
    proof {
        assert(strs_view(keywords@) =~= seq!["var"@, "f"@, "if"@, "else"@]);
    }

    let mut operators: Vec<String> = Vec::new();
    operators.push(String::from_str("+"));
    operators.push(String::from_str("-"));
    operators.push(String::from_str("*"));
    operators.push(String::from_str("/"));
    operators.push(String::from_str("=="));
    operators.push(String::from_str("="));
    operators.push(String::from_str("<"));
    operators.push(String::from_str(">"));
    operators.push(String::from_str(">="));
    operators.push(String::from_str("<="));
    operators.push(String::from_str("!="));
    proof {
        assert(strs_view(operators@) =~= seq![
            "+"@,
            "-"@,
            "*"@,
            "/"@,
            "=="@,
            "="@,
            "<"@,
            ">"@,
            ">="@,
            "<="@,
            "!="@,
        ]);
    }

    let mut symbols: Vec<String> = Vec::new();
    symbols.push(String::from_str("("));
    symbols.push(String::from_str(")"));
    symbols.push(String::from_str("["));
    symbols.push(String::from_str("]"));
    symbols.push(String::from_str(","));
    symbols.push(String::from_str("."));
    symbols.push(String::from_str(":"));
    symbols.push(String::from_str("!"));
    symbols.push(String::from_str("{"));
    symbols.push(String::from_str("}"));
    symbols.push(String::from_str("~"));
    proof {
        assert(strs_view(symbols@) =~= seq![
            "("@,
            ")"@,
            "["@,
            "]"@,
            ","@,
            "."@,
            ":"@,
            "!"@,
            "{"@,
            "}"@,
            "~"@,
        ]);
    }

    l.matchers_mut().push(Matcher::Whitespace);
    l.matchers_mut().push(Matcher::FloatLiteral);
    l.matchers_mut().push(Matcher::IntLiteral);
    l.matchers_mut().push(Matcher::StringLiteral);
    l.matchers_mut().push(Matcher::Constant(TokenType::BoolLiteral, booleans, true));
    l.matchers_mut().push(Matcher::Constant(TokenType::Keyword, keywords, true));
    l.matchers_mut().push(Matcher::Identifier);
    l.matchers_mut().push(Matcher::Constant(TokenType::Operator, operators, false));
    l.matchers_mut().push(Matcher::Constant(TokenType::Symbol, symbols, false));
    l
}

} // verus!
