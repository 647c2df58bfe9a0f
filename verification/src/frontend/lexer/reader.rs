//! The reader: a cursor over the characters of the program text.

use vstd::prelude::*;
use crate::chars::{
    chars_of, unicode_numeric, lemma_run_end, name_char, name_chars, run_end,
};
use crate::number::{canonical, Number};

verus! {

/// The class of blanks inside a line: space, tab and carriage return.
pub open spec fn blanks() -> spec_fn(char) -> bool {
    |c: char| c == ' ' || c == '\t' || c == '\r'
}

/// The class of every character but the line feed.
pub open spec fn within_line() -> spec_fn(char) -> bool {
    |c: char| c != '\n'
}

/// The class of characters that a numeric literal is made of.
pub open spec fn number_chars() -> spec_fn(char) -> bool {
    |c: char| unicode_numeric(c) || c == '.'
}

/// What a backslash followed by `c` stands for inside a string literal. An
/// escape that is not known stands for itself, backslash included.
pub open spec fn unescaped(c: char) -> Seq<char> {
    if c == 'n' {
        seq!['\n']
    } else if c == 't' {
        seq!['\t']
    } else if c == 'r' {
        seq!['\r']
    } else if c == '"' || c == '\'' || c == '\\' {
        seq![c]
    } else {
        seq!['\\', c]
    }
}

/// The rest of a string literal that `quote` closes, read from index `i` of
/// `s`: the text it stands for, and the index behind it. The literal ends
/// behind its closing quote, or at the end of `s` where none comes.
pub open spec fn string_body(s: Seq<char>, i: int, quote: char) -> (Seq<char>, int)
    decreases s.len() - i,
{
    if i < 0 || i >= s.len() {
        (Seq::empty(), i)
    } else if s[i] == quote {
        (Seq::empty(), i + 1)
    } else if s[i] == '\\' {
        if i + 1 < s.len() {
            let rest = string_body(s, i + 2, quote);
            (unescaped(s[i + 1]) + rest.0, rest.1)
        } else {
            (Seq::empty(), i + 1)
        }
    } else {
        let rest = string_body(s, i + 1, quote);
        (seq![s[i]] + rest.0, rest.1)
    }
}

/// A string literal ends behind where it starts, and inside the text.
pub proof fn lemma_string_body_end(s: Seq<char>, i: int, quote: char)
    requires
        0 <= i <= s.len(),
    ensures
        i <= string_body(s, i, quote).1 <= s.len(),
        i < s.len() ==> i < string_body(s, i, quote).1,
    decreases s.len() - i,
{
    if i < s.len() && s[i] != quote {
        if s[i] == '\\' {
            if i + 1 < s.len() {
                lemma_string_body_end(s, i + 2, quote);
            }
        } else {
            lemma_string_body_end(s, i + 1, quote);
        }
    }
}

/// A cursor over the characters of a text.
pub struct Reader {
    /// The characters of the text.
    pub input: Vec<char>,
    /// The index of the cursor in the text.
    pub position: usize,
    /// The character under the cursor, or `None` at the end of the text.
    pub current: Option<char>,
}

impl Reader {
    /// The characters of the text.
    pub open spec fn source(&self) -> Seq<char> {
        self.input@
    }

    /// The index of the cursor in the text.
    pub open spec fn offset(&self) -> int {
        self.position as int
    }

    /// The cursor is inside the text or at its end, and `current` is the
    /// character under it.
    pub open spec fn wf(&self) -> bool {
        &&& 0 <= self.offset() <= self.source().len()
        &&& self.current == if self.offset() < self.source().len() {
            Some(self.source()[self.offset()])
        } else {
            None
        }
    }

    /// The same text, with the cursor at `offset`.
    pub open spec fn moved_to(&self, before: &Reader, offset: int) -> bool {
        &&& self.wf()
        &&& self.source() == before.source()
        &&& self.offset() == offset
    }

    /// A reader at the start of `input`.
    pub fn new(input: &str) -> (r: Reader)
        ensures
            r.wf(),
            r.source() == input@,
            r.offset() == 0,
    {
        let chars = chars_of(input);
        let current = if chars.len() > 0 {
            Some(chars[0])
        } else {
            None
        };
        Reader { input: chars, position: 0, current }
    }

    /// Moves the cursor one character on; at the end of the text it stays.
    pub fn advance(&mut self)
        requires
            old(self).wf(),
        ensures
            final(self).moved_to(
                old(self),
                if old(self).offset() < old(self).source().len() {
                    old(self).offset() + 1
                } else {
                    old(self).offset()
                },
            ),
    {
        if self.position < self.input.len() {
            self.position += 1;
        }
        self.current = if self.position < self.input.len() {
            Some(self.input[self.position])
        } else {
            None
        };
    }

    /// Moves the cursor over spaces, tabs and carriage returns. A line feed
    /// stops it.
    pub fn skip_whitespace(&mut self)
        requires
            old(self).wf(),
        ensures
            final(self).moved_to(old(self), run_end(old(self).source(), old(self).offset(), blanks())),
    {
        loop
            invariant
                self.wf(),
                self.source() == old(self).source(),
                run_end(self.source(), self.offset(), blanks()) == run_end(
                    old(self).source(),
                    old(self).offset(),
                    blanks(),
                ),
            ensures
                self.offset() == run_end(self.source(), self.offset(), blanks()),
            decreases self.source().len() - self.offset(),
        {
            match self.current {
                Some(ch) if ch == ' ' || ch == '\t' || ch == '\r' => {
                    self.advance();
                },
                _ => {
                    break ;
                },
            }
        }
    }

    /// On a `#`, moves the cursor to the end of the line: onto the line feed,
    /// or to the end of the text. Elsewhere it does nothing.
    pub fn skip_comment(&mut self)
        requires
            old(self).wf(),
        ensures
            final(self).moved_to(
                old(self),
                if old(self).current == Some('#') {
                    run_end(old(self).source(), old(self).offset(), within_line())
                } else {
                    old(self).offset()
                },
            ),
    {
        if self.current == Some('#') {
            loop
                invariant
                    self.wf(),
                    self.source() == old(self).source(),
                    run_end(self.source(), self.offset(), within_line()) == run_end(
                        old(self).source(),
                        old(self).offset(),
                        within_line(),
                    ),
                ensures
                    self.offset() == run_end(self.source(), self.offset(), within_line()),
                decreases self.source().len() - self.offset(),
            {
                match self.current {
                    Some(ch) if ch != '\n' => {
                        self.advance();
                    },
                    _ => {
                        break ;
                    },
                }
            }
        }
    }

    /// Reads a string literal. The character under the cursor is taken as
    /// the opening quote, and the same character closes the literal. The
    /// escapes `\n`, `\t`, `\r`, `\"`, `\'` and `\\` are resolved; any other
    /// keeps its backslash. Where the text ends before the closing quote, the
    /// literal ends with it.
    pub fn read_string(&mut self) -> (text: String)
        requires
            old(self).wf(),
            old(self).current is Some,
        ensures
            text@ == string_body(
                old(self).source(),
                old(self).offset() + 1,
                old(self).current->0,
            ).0,
            final(self).moved_to(
                old(self),
                string_body(old(self).source(), old(self).offset() + 1, old(self).current->0).1,
            ),
    {
        let quote_char = match self.current {
            Some(ch) => ch,
            None => ' ',
        };
        let mut result = String::new();
        self.advance();
        let ghost start = self.offset();
        assert(result@ + string_body(self.source(), start, quote_char).0 =~= string_body(
            self.source(),
            start,
            quote_char,
        ).0);
        loop
            invariant_except_break
                result@ + string_body(self.source(), self.offset(), quote_char).0 == string_body(
                    self.source(),
                    start,
                    quote_char,
                ).0,
                string_body(self.source(), self.offset(), quote_char).1 == string_body(
                    self.source(),
                    start,
                    quote_char,
                ).1,
            invariant
                self.wf(),
                self.source() == old(self).source(),
            ensures
                result@ == string_body(self.source(), start, quote_char).0,
                self.offset() == string_body(self.source(), start, quote_char).1,
            decreases self.source().len() - self.offset(),
        {
            let ghost here = self.offset();
            let ghost before = result@;
            match self.current {
                None => {
                    assert(result@ + Seq::<char>::empty() =~= result@);
                    break ;
                },
                Some(ch) => {
                    if ch == quote_char {
                        self.advance();
                        assert(result@ + Seq::<char>::empty() =~= result@);
                        break ;
                    } else if ch == '\\' {
                        self.advance();
                        match self.current {
                            Some(escaped) => {
                                if escaped == 'n' {
                                    result.push('\n');
                                } else if escaped == 't' {
                                    result.push('\t');
                                } else if escaped == 'r' {
                                    result.push('\r');
                                } else if escaped == '"' {
                                    result.push('"');
                                } else if escaped == '\'' {
                                    result.push('\'');
                                } else if escaped == '\\' {
                                    result.push('\\');
                                } else {
                                    result.push('\\');
                                    result.push(escaped);
                                }
                                assert(result@ =~= before + unescaped(escaped));
                                self.advance();
                                assert(result@ + string_body(
                                    self.source(),
                                    self.offset(),
                                    quote_char,
                                ).0 =~= before + string_body(self.source(), here, quote_char).0);
                            },
                            None => {
                                assert(result@ + Seq::<char>::empty() =~= result@);
                                break ;
                            },
                        }
                    } else {
                        result.push(ch);
                        self.advance();
                        assert(result@ + string_body(self.source(), self.offset(), quote_char).0
                            =~= before + string_body(self.source(), here, quote_char).0);
                    }
                },
            }
        }
        result
    }

    /// Reads a numeric literal: the run of numeric characters and points
    /// under the cursor. A run that is no plain decimal stands for zero.
    pub fn read_number(&mut self) -> (n: Number)
        requires
            old(self).wf(),
        ensures
            final(self).moved_to(
                old(self),
                run_end(old(self).source(), old(self).offset(), number_chars()),
            ),
            n@ == canonical(
                old(self).source().subrange(
                    old(self).offset(),
                    run_end(old(self).source(), old(self).offset(), number_chars()),
                ),
            ),
    {
        let mut num_str = String::new();
        let ghost start = self.offset();
        assert(num_str@ =~= self.source().subrange(start, start));
        loop
            invariant
                self.wf(),
                self.source() == old(self).source(),
                0 <= start <= self.offset(),
                num_str@ == self.source().subrange(start, self.offset()),
                run_end(self.source(), self.offset(), number_chars()) == run_end(
                    self.source(),
                    start,
                    number_chars(),
                ),
            ensures
                self.offset() == run_end(self.source(), start, number_chars()),
            decreases self.source().len() - self.offset(),
        {
            match self.current {
                Some(ch) if ch.is_numeric() || ch == '.' => {
                    num_str.push(ch);
                    self.advance();
                    assert(num_str@ =~= self.source().subrange(start, self.offset()));
                },
                _ => {
                    break ;
                },
            }
        }
        Number::parse(num_str.as_str())
    }

    /// Reads a name: the run of letters, digits and underscores under the
    /// cursor.
    pub fn read_identifier(&mut self) -> (ident: String)
        requires
            old(self).wf(),
        ensures
            final(self).moved_to(
                old(self),
                run_end(old(self).source(), old(self).offset(), name_chars()),
            ),
            ident@ == old(self).source().subrange(
                old(self).offset(),
                run_end(old(self).source(), old(self).offset(), name_chars()),
            ),
    {
        let mut ident = String::new();
        let ghost start = self.offset();
        assert(ident@ =~= self.source().subrange(start, start));
        loop
            invariant
                self.wf(),
                self.source() == old(self).source(),
                0 <= start <= self.offset(),
                ident@ == self.source().subrange(start, self.offset()),
                run_end(self.source(), self.offset(), name_chars()) == run_end(
                    self.source(),
                    start,
                    name_chars(),
                ),
            ensures
                self.offset() == run_end(self.source(), start, name_chars()),
            decreases self.source().len() - self.offset(),
        {
            match self.current {
                Some(ch) if name_char(ch) => {
                    ident.push(ch);
                    self.advance();
                    assert(ident@ =~= self.source().subrange(start, self.offset()));
                },
                _ => {
                    break ;
                },
            }
        }
        ident
    }
}

} // verus!
