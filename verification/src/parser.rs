//! The lexer: source text is split into raw tokens.
//!
//! A token is a run of characters between delimiters (space, comma, tab and
//! the two line ends), or what stands between two double quotes or two single
//! quotes, or a comment from `;` to the end of its line. Quotes are not part
//! of their token; the `;` of a comment is. Empty tokens are dropped.
//!
//! A text that ends inside quotes is refused. The lexer then stands at the
//! quote that nothing closes, with the tokens before it read, so that the
//! place of the fault and what led to it can be told.

use vstd::prelude::*;
use crate::text::{chars_of, push_char, texts_of};

verus! {

/// Why a source text is refused.
#[derive(Debug, Clone, Copy, PartialEq, Eq, Structural)]
pub enum ParserError {
    /// The text ends inside a quoted token.
    EOF,
    /// Not a character. Reserved; the lexer does not report it.
    NAC,
}

/// The kinds of token, told apart by the character that opens them.
#[derive(Debug, Clone, Copy, PartialEq, Eq, Structural)]
pub enum Span {
    /// Between double quotes.
    Text,
    /// Between single quotes.
    Character,
    /// From `;` to the end of the line.
    Comment,
    /// Anything else, up to a delimiter.
    Raw,
}

impl Span {
    /// The kind of token that `c` opens.
    pub open spec fn opened_by(c: char) -> Span {
        if c == '"' {
            Span::Text
        } else if c == '\'' {
            Span::Character
        } else if c == ';' {
            Span::Comment
        } else {
            Span::Raw
        }
    }

    /// Whether the token stands between quotes.
    pub open spec fn is_quoted(self) -> bool {
        self == Span::Text || self == Span::Character
    }

    /// Whether `c` closes a token of this kind.
    pub open spec fn closed_by(self, c: char) -> bool {
        match self {
            Span::Text => c == '"',
            Span::Character => c == '\'',
            Span::Comment => c == '\n' || c == '\r',
            Span::Raw => c == ' ' || c == ',' || c == '\n' || c == '\r' || c == '\t',
        }
    }

    /// The number of characters at the start of `s` before the first one
    /// that closes a token of this kind; all of them, if none does.
    pub open spec fn reach(self, s: Seq<char>) -> nat
        decreases s.len(),
    {
        if s.len() == 0 || self.closed_by(s[0]) {
            0
        } else {
            1 + self.reach(s.skip(1))
        }
    }

    fn opens(c: char) -> (r: Span)
        ensures
            r == Span::opened_by(c),
    {
        if c == '"' {
            Span::Text
        } else if c == '\'' {
            Span::Character
        } else if c == ';' {
            Span::Comment
        } else {
            Span::Raw
        }
    }

    fn closes(self, c: char) -> (r: bool)
        ensures
            r == self.closed_by(c),
    {
        match self {
            Span::Text => c == '"',
            Span::Character => c == '\'',
            Span::Comment => c == '\n' || c == '\r',
            Span::Raw => c == ' ' || c == ',' || c == '\n' || c == '\r' || c == '\t',
        }
    }
}

/// A token never reaches beyond the text.
pub proof fn lemma_reach_bound(span: Span, s: Seq<char>)
    ensures
        span.reach(s) <= s.len(),
    decreases s.len(),
{
    if s.len() > 0 && !span.closed_by(s[0]) {
        lemma_reach_bound(span, s.skip(1));
    }
}

/// The content of the first token of a text that is not empty, and the text
/// behind that token and the character that closes it. A quoted token that
/// no quote closes is an error.
pub open spec fn first_token(s: Seq<char>) -> Result<(Seq<char>, Seq<char>), ParserError> {
    let span = Span::opened_by(s[0]);
    let body = if span.is_quoted() {
        s.skip(1)
    } else {
        s
    };
    let n = span.reach(body) as int;
    if n < body.len() {
        Ok((body.take(n), body.skip(n + 1)))
    } else if span.is_quoted() {
        Err(ParserError::EOF)
    } else {
        Ok((body, Seq::empty()))
    }
}

/// The tokens at the start of a text up to the first quoted token that
/// nothing closes, and the text from there on, which is empty when every
/// token could be read.
pub open spec fn scan(s: Seq<char>) -> (Seq<Seq<char>>, Seq<char>)
    decreases s.len(),
{
    if s.len() == 0 {
        (Seq::empty(), s)
    } else {
        match first_token(s) {
            Err(_) => (Seq::empty(), s),
            Ok((token, rest)) => {
                proof {
                    lemma_first_token_shortens(s);
                }
                let (others, left) = scan(rest);
                if token.len() == 0 {
                    (others, left)
                } else {
                    (seq![token] + others, left)
                }
            },
        }
    }
}

/// The tokens of a text, or the reason for which it is refused.
pub open spec fn lex(s: Seq<char>) -> Result<Seq<Seq<char>>, ParserError> {
    if scan(s).1.len() == 0 {
        Ok(scan(s).0)
    } else {
        Err(ParserError::EOF)
    }
}

/// What is behind the first token is shorter than the text.
pub proof fn lemma_first_token_shortens(s: Seq<char>)
    requires
        s.len() > 0,
    ensures
        first_token(s) matches Ok((_, rest)) ==> rest.len() < s.len(),
{
    let span = Span::opened_by(s[0]);
    let body = if span.is_quoted() {
        s.skip(1)
    } else {
        s
    };
    lemma_reach_bound(span, body);
}

/// No token is empty.
pub proof fn lemma_tokens_are_not_empty(s: Seq<char>)
    ensures
        forall|i: int| 0 <= i < scan(s).0.len() ==> (#[trigger] scan(s).0[i]).len() > 0,
    decreases s.len(),
{
    if s.len() > 0 {
        match first_token(s) {
            Ok((token, rest)) => {
                lemma_first_token_shortens(s);
                lemma_tokens_are_not_empty(rest);
                let others = scan(rest).0;
                assert forall|i: int| 0 <= i < scan(s).0.len() implies (#[trigger] scan(
                    s,
                ).0[i]).len() > 0 by {
                    if token.len() > 0 && i > 0 {
                        assert(scan(s).0[i] == others[i - 1]);
                    }
                }
            },
            Err(_) => {},
        }
    }
}

/// The lexer: the text that is still to be read, and the tokens read so far.
pub struct Parser {
    stream: Vec<char>,
    pub tokens: Vec<String>,
}

impl Parser {
    /// The text that is still to be read.
    pub closed spec fn remaining(&self) -> Seq<char> {
        self.stream@.reverse()
    }

    /// The tokens read so far.
    pub closed spec fn lexed(&self) -> Seq<Seq<char>> {
        texts_of(self.tokens@)
    }

    /// A lexer at the start of the given text.
    pub fn init(string: String) -> (r: Parser)
        ensures
            r.remaining() == string@,
            r.lexed() == Seq::<Seq<char>>::empty(),
    {
        let chars = chars_of(string.as_str());
        let mut stream: Vec<char> = Vec::new();
        let mut i: usize = chars.len();
        while i > 0
            invariant
                i <= chars.len(),
                stream.len() == chars.len() - i,
                forall|j: int| 0 <= j < stream.len() ==> stream@[j] == chars@[chars.len() - 1 - j],
            decreases i,
        {
            i -= 1;
            stream.push(chars[i]);
        }
        let r = Parser { stream, tokens: Vec::new() };
        assert(r.remaining() =~= string@);
        assert(r.lexed() =~= Seq::<Seq<char>>::empty());
        r
    }

    /// The tokens read so far.
    pub fn tokens(&self) -> (r: &Vec<String>)
        ensures
            texts_of(r@) == self.lexed(),
    {
        &self.tokens
    }

    /// The number of characters that are still to be read. After a refusal
    /// it tells where the quote stands that nothing closes.
    pub fn unread(&self) -> (r: usize)
        ensures
            r == self.remaining().len(),
    {
        self.stream.len()
    }

    /// The next character, which stays in the text.
    fn read(&self) -> (r: Result<char, ParserError>)
        ensures
            match r {
                Ok(c) => self.remaining().len() > 0 && c == self.remaining()[0],
                Err(e) => self.remaining().len() == 0 && e == ParserError::EOF,
            },
    {
        if self.stream.len() == 0 {
            return Err(ParserError::EOF);
        }
        Ok(self.stream[self.stream.len() - 1])
    }

    /// The next character, which is taken from the text.
    fn consume_char(&mut self) -> (r: Result<char, ParserError>)
        ensures
            final(self).lexed() == old(self).lexed(),
            match r {
                Ok(c) => old(self).remaining().len() > 0 && c == old(self).remaining()[0]
                    && final(self).remaining() == old(self).remaining().skip(1),
                Err(e) => old(self).remaining().len() == 0 && e == ParserError::EOF
                    && final(self).remaining() == old(self).remaining(),
            },
    {
        match self.stream.pop() {
            Some(c) => {
                assert(self.remaining() =~= old(self).remaining().skip(1));
                Ok(c)
            },
            None => Err(ParserError::EOF),
        }
    }

    /// Takes the characters of a token up to the one that closes it, which
    /// is taken too. The flag tells whether there was one.
    fn read_until(&mut self, span: Span) -> (r: (String, bool))
        ensures
            final(self).lexed() == old(self).lexed(),
            ({
                let s = old(self).remaining();
                let n = span.reach(s) as int;
                &&& r.0@ == s.take(n)
                &&& r.1 == (n < s.len())
                &&& final(self).remaining() == if r.1 {
                    s.skip(n + 1)
                } else {
                    s.skip(n)
                }
            }),
    {
        let ghost s = self.remaining();
        let mut text = String::new();
        proof {
            assert(s.skip(0) =~= s);
            assert(s.take(0) =~= Seq::<char>::empty());
        }
        loop
            invariant
                self.lexed() == old(self).lexed(),
                s == old(self).remaining(),
                text@.len() <= s.len(),
                text@ == s.take(text@.len() as int),
                self.remaining() == s.skip(text@.len() as int),
                span.reach(s) == text@.len() + span.reach(self.remaining()),
                self.remaining().len() == self.stream.len(),
            decreases self.stream.len(),
        {
            let ghost seen = text@.len() as int;
            match self.consume_char() {
                Ok(c) => {
                    assert(c == s[seen]);
                    assert(self.remaining() =~= s.skip(seen + 1));
                    if span.closes(c) {
                        return (text, true);
                    }
                    push_char(&mut text, c);
                    assert(text@ =~= s.take(seen + 1));
                },
                Err(_) => {
                    return (text, false);
                },
            }
        }
    }

    /// Puts a quote and the text that was read behind it back in front of
    /// what is still to be read.
    fn put_back(&mut self, quote: char, text: &String)
        ensures
            final(self).lexed() == old(self).lexed(),
            final(self).remaining() == seq![quote] + text@ + old(self).remaining(),
    {
        let chars = chars_of(text.as_str());
        let ghost rest = self.remaining();
        let mut k: usize = chars.len();
        assert(chars@.skip(k as int) + rest =~= rest);
        while k > 0
            invariant
                k <= chars.len(),
                self.lexed() == old(self).lexed(),
                self.remaining() == chars@.skip(k as int) + rest,
            decreases k,
        {
            k -= 1;
            let ghost before = self.remaining();
            self.stream.push(chars[k]);
            assert(self.remaining() =~= seq![chars@[k as int]] + before);
            assert(self.remaining() =~= chars@.skip(k as int) + rest);
        }
        let ghost before = self.remaining();
        self.stream.push(quote);
        assert(self.remaining() =~= seq![quote] + before);
        assert(chars@.skip(0) =~= chars@);
        assert(self.remaining() =~= seq![quote] + text@ + rest);
    }

    /// Reads a quoted token, the first quote of which is next. If nothing
    /// closes it, the lexer is left where it was.
    fn read_quoted(&mut self, span: Span) -> (r: Result<String, ParserError>)
        requires
            old(self).remaining().len() > 0,
            Span::opened_by(old(self).remaining()[0]) == span,
            span.is_quoted(),
        ensures
            final(self).lexed() == old(self).lexed(),
            match first_token(old(self).remaining()) {
                Ok((token, rest)) => r matches Ok(t) && t@ == token && final(self).remaining()
                    == rest,
                Err(e) => r matches Err(f) && f == e && final(self).remaining() == old(
                    self,
                ).remaining(),
            },
    {
        let ghost s = self.remaining();
        let quote: char = match self.consume_char() {
            Ok(c) => c,
            Err(e) => {
                return Err(e);
            },
        };
        let (text, closed) = self.read_until(span);
        if closed {
            Ok(text)
        } else {
            proof {
                lemma_reach_bound(span, s.skip(1));
                assert(s.skip(1).take(s.len() - 1) =~= s.skip(1));
                assert(s.skip(1).skip(s.len() - 1) =~= Seq::<char>::empty());
            }
            self.put_back(quote, &text);
            assert(self.remaining() =~= s);
            Err(ParserError::EOF)
        }
    }

    /// Reads a token between double quotes, the first of which is next.
    fn read_string(&mut self) -> (r: Result<String, ParserError>)
        requires
            old(self).remaining().len() > 0,
            Span::opened_by(old(self).remaining()[0]) == Span::Text,
        ensures
            final(self).lexed() == old(self).lexed(),
            match first_token(old(self).remaining()) {
                Ok((token, rest)) => r matches Ok(t) && t@ == token && final(self).remaining()
                    == rest,
                Err(e) => r matches Err(f) && f == e && final(self).remaining() == old(
                    self,
                ).remaining(),
            },
    {
        self.read_quoted(Span::Text)
    }

    /// Reads a token between single quotes, the first of which is next.
    fn read_char(&mut self) -> (r: Result<String, ParserError>)
        requires
            old(self).remaining().len() > 0,
            Span::opened_by(old(self).remaining()[0]) == Span::Character,
        ensures
            final(self).lexed() == old(self).lexed(),
            match first_token(old(self).remaining()) {
                Ok((token, rest)) => r matches Ok(t) && t@ == token && final(self).remaining()
                    == rest,
                Err(e) => r matches Err(f) && f == e && final(self).remaining() == old(
                    self,
                ).remaining(),
            },
    {
        self.read_quoted(Span::Character)
    }

    /// Reads a comment, the `;` of which is next.
    fn read_comment(&mut self) -> (r: String)
        requires
            old(self).remaining().len() > 0,
            Span::opened_by(old(self).remaining()[0]) == Span::Comment,
        ensures
            final(self).lexed() == old(self).lexed(),
            first_token(old(self).remaining()) == Ok::<(Seq<char>, Seq<char>), ParserError>(
                (r@, final(self).remaining()),
            ),
    {
        let ghost s = self.remaining();
        let (text, closed) = self.read_until(Span::Comment);
        proof {
            lemma_reach_bound(Span::Comment, s);
            if !closed {
                assert(s.take(s.len() as int) =~= s);
                assert(s.skip(s.len() as int) =~= Seq::<char>::empty());
            }
        }
        text
    }

    /// Reads a token that is neither quoted nor a comment.
    fn read_raw(&mut self) -> (r: String)
        requires
            old(self).remaining().len() > 0,
            Span::opened_by(old(self).remaining()[0]) == Span::Raw,
        ensures
            final(self).lexed() == old(self).lexed(),
            first_token(old(self).remaining()) == Ok::<(Seq<char>, Seq<char>), ParserError>(
                (r@, final(self).remaining()),
            ),
    {
        let ghost s = self.remaining();
        let (text, closed) = self.read_until(Span::Raw);
        proof {
            lemma_reach_bound(Span::Raw, s);
            if !closed {
                assert(s.take(s.len() as int) =~= s);
                assert(s.skip(s.len() as int) =~= Seq::<char>::empty());
            }
        }
        text
    }

    /// Reads the next token; `None` stands for an empty one.
    fn next(&mut self) -> (r: Result<Option<String>, ParserError>)
        requires
            old(self).remaining().len() > 0,
        ensures
            final(self).lexed() == old(self).lexed(),
            match first_token(old(self).remaining()) {
                Ok((token, rest)) => final(self).remaining() == rest && match r {
                    Ok(Some(t)) => t@ == token && token.len() > 0,
                    Ok(None) => token.len() == 0,
                    Err(_) => false,
                },
                Err(e) => r matches Err(f) && f == e && final(self).remaining() == old(
                    self,
                ).remaining(),
            },
    {
        let c: char = match self.read() {
            Ok(c) => c,
            Err(e) => {
                return Err(e);
            },
        };
        let token: String = match Span::opens(c) {
            Span::Text => match self.read_string() {
                Ok(t) => t,
                Err(e) => {
                    return Err(e);
                },
            },
            Span::Character => match self.read_char() {
                Ok(t) => t,
                Err(e) => {
                    return Err(e);
                },
            },
            Span::Comment => self.read_comment(),
            Span::Raw => self.read_raw(),
        };
        if token.as_str().is_empty() {
            Ok(None)
        } else {
            Ok(Some(token))
        }
    }

    /// Splits what is left of the text into tokens and adds them to the
    /// tokens read so far. A text that ends inside a quoted token is refused:
    /// the tokens before that token are read, and the lexer stands at the
    /// quote that nothing closes.
    pub fn parse(&mut self) -> (r: Result<&Vec<String>, ParserError>)
        ensures
            final(self).lexed() == old(self).lexed() + scan(old(self).remaining()).0,
            final(self).remaining() == scan(old(self).remaining()).1,
            match lex(old(self).remaining()) {
                Ok(tokens) => r matches Ok(all) && texts_of(all@) == old(self).lexed() + tokens,
                Err(e) => r matches Err(f) && f == e,
            },
    {
        let ghost start = self.remaining();
        let ghost before = self.lexed();
        let ghost mut found: Seq<Seq<char>> = Seq::empty();
        assert(before + found =~= before);
        assert(found + scan(start).0 =~= scan(start).0);
        while self.stream.len() > 0
            invariant
                start == old(self).remaining(),
                before == old(self).lexed(),
                self.remaining().len() == self.stream.len(),
                self.lexed() == before + found,
                scan(start).0 == found + scan(self.remaining()).0,
                scan(start).1 == scan(self.remaining()).1,
            decreases self.stream.len(),
        {
            let ghost s = self.remaining();
            proof {
                lemma_first_token_shortens(s);
            }
            match self.next() {
                Ok(Some(token)) => {
                    let ghost lexed = self.lexed();
                    self.tokens.push(token);
                    proof {
                        assert(self.lexed() =~= lexed.push(token@));
                        let one = seq![token@];
                        assert(before + (found + one) =~= (before + found).push(token@));
                        assert(found + (one + scan(self.remaining()).0) =~= (found + one) + scan(
                            self.remaining(),
                        ).0);
                        found = found + one;
                    }
                },
                Ok(None) => {},
                Err(e) => {
                    proof {
                        assert(scan(s) == (Seq::<Seq<char>>::empty(), s));
                        assert(found + Seq::<Seq<char>>::empty() =~= found);
                    }
                    return Err(e);
                },
            }
        }
        proof {
            assert(found + Seq::<Seq<char>>::empty() =~= found);
        }
        Ok(&self.tokens)
    }
}

} // verus!
