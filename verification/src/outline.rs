//! The outline of a SQL text: what stands outside brackets, quotes and
//! comments, and with it the keyword that follows a list of table expressions.

use vstd::prelude::*;
use crate::text::{ascii_upper, chars_of, opt_text, same};

verus! {

/// What the scan of a SQL text is inside of.
#[derive(Debug, Clone, Copy, PartialEq, Eq)]
pub enum Mode {
    /// Plain text.
    Plain,
    /// Quoted text, up to this character.
    Quoted(char),
    /// Plain text, behind a `-` that may open a comment.
    Dash,
    /// Plain text, behind a `/` that may open a comment.
    Slash,
    /// A comment up to the end of the line.
    Line,
    /// A comment up to `*/`.
    Block,
    /// Such a comment, behind a `*` in it.
    Star,
}

/// How far the scan of a SQL text has come.
#[verifier::ext_equal]
pub ghost struct Outline {
    pub mode: Mode,
    /// The brackets that are open.
    pub depth: nat,
    /// The word in progress outside all brackets, in upper case.
    pub word: Seq<char>,
    /// The last token outside all brackets is a bracketed group.
    pub behind_group: bool,
    /// The first word other than `AS` that follows a bracketed group.
    pub keyword: Option<Seq<char>>,
}

/// The character can stand in a keyword or a bare name.
pub open spec fn is_word_char(c: char) -> bool {
    ||| 'a' <= c <= 'z'
    ||| 'A' <= c <= 'Z'
    ||| '0' <= c <= '9'
    ||| c == '_'
    ||| c == '$'
    ||| c as int >= 128
}

/// The character parts the tokens of a SQL text.
pub open spec fn is_blank(c: char) -> bool {
    c == ' ' || c == '\t' || c == '\n' || c == '\r' || c as int == 12
}

/// The character that ends a quoted text opened by this one.
pub open spec fn closing_quote(c: char) -> Option<char> {
    if c == '\'' || c == '"' || c == '`' {
        Some(c)
    } else if c == '[' {
        Some(']')
    } else {
        None
    }
}

/// The scan of a text starts in plain text, outside all brackets.
pub open spec fn fresh() -> Outline {
    Outline {
        mode: Mode::Plain,
        depth: 0,
        word: Seq::empty(),
        behind_group: false,
        keyword: None,
    }
}

/// The word in progress, if there is one, is over.
pub open spec fn word_over(outline: Outline) -> Outline {
    if outline.word.len() == 0 {
        outline
    } else {
        Outline {
            word: Seq::empty(),
            behind_group: false,
            keyword: if outline.behind_group && outline.keyword is None && outline.word != "AS"@ {
                Some(outline.word)
            } else {
                outline.keyword
            },
            ..outline
        }
    }
}

/// A token other than a word or a group stands here.
pub open spec fn other_token(outline: Outline) -> Outline {
    Outline { behind_group: outline.behind_group && outline.depth > 0, ..outline }
}

/// The scan of plain text goes on by one character.
pub open spec fn plain_step(outline: Outline, c: char) -> Outline {
    if is_word_char(c) {
        if outline.depth == 0 {
            Outline { word: outline.word.push(ascii_upper(c)), ..outline }
        } else {
            outline
        }
    } else {
        let over = word_over(outline);
        if is_blank(c) {
            over
        } else if c == '-' {
            Outline { mode: Mode::Dash, ..over }
        } else if c == '/' {
            Outline { mode: Mode::Slash, ..over }
        } else if c == '(' {
            Outline { depth: over.depth + 1, ..over }
        } else if c == ')' && over.depth > 0 {
            Outline { depth: (over.depth - 1) as nat, behind_group: over.depth == 1, ..over }
        } else {
            let other = other_token(over);
            match closing_quote(c) {
                Some(closing) => Outline { mode: Mode::Quoted(closing), ..other },
                None => other,
            }
        }
    }
}

/// The scan goes on by one character.
pub open spec fn step(outline: Outline, c: char) -> Outline {
    match outline.mode {
        Mode::Plain => plain_step(outline, c),
        Mode::Quoted(closing) => if c == closing {
            Outline { mode: Mode::Plain, ..outline }
        } else {
            outline
        },
        Mode::Dash => if c == '-' {
            Outline { mode: Mode::Line, ..outline }
        } else {
            plain_step(other_token(Outline { mode: Mode::Plain, ..outline }), c)
        },
        Mode::Slash => if c == '*' {
            Outline { mode: Mode::Block, ..outline }
        } else {
            plain_step(other_token(Outline { mode: Mode::Plain, ..outline }), c)
        },
        Mode::Line => if c == '\n' {
            Outline { mode: Mode::Plain, ..outline }
        } else {
            outline
        },
        Mode::Block => if c == '*' {
            Outline { mode: Mode::Star, ..outline }
        } else {
            outline
        },
        Mode::Star => if c == '/' {
            Outline { mode: Mode::Plain, ..outline }
        } else if c == '*' {
            outline
        } else {
            Outline { mode: Mode::Block, ..outline }
        },
    }
}

/// The scan of a text.
pub open spec fn scanned(sql: Seq<char>) -> Outline {
    sql.fold_left(fresh(), |outline: Outline, c: char| step(outline, c))
}

/// The keyword behind the table expressions of a `WITH` statement, in upper
/// case: the first word outside all brackets, quotes and comments that follows
/// a bracketed group and is not the `AS` between a table's columns and its
/// body.
pub open spec fn main_keyword(sql: Seq<char>) -> Option<Seq<char>> {
    word_over(scanned(sql)).keyword
}

// ---------------------------------------------------------------- code

/// How far the scan of a SQL text has come.
struct Scan {
    mode: Mode,
    depth: usize,
    word: String,
    behind_group: bool,
    keyword: Option<String>,
}

impl View for Scan {
    type V = Outline;

    closed spec fn view(&self) -> Outline {
        Outline {
            mode: self.mode,
            depth: self.depth as nat,
            word: self.word@,
            behind_group: self.behind_group,
            keyword: opt_text(self.keyword),
        }
    }
}

/// The letter in upper case; other characters stay.
fn raise(c: char) -> (raised: char)
    ensures
        raised == ascii_upper(c),
{
    if 'a' <= c && c <= 'z' {
        ((c as u8) - 32) as char
    } else {
        c
    }
}

/// Can the character stand in a keyword or a bare name?
fn word_char(c: char) -> (yes: bool)
    ensures
        yes == is_word_char(c),
{
    ('a' <= c && c <= 'z') || ('A' <= c && c <= 'Z') || ('0' <= c && c <= '9') || c == '_' || c
        == '$' || c as u32 >= 128
}

impl Scan {
    /// End the word in progress.
    fn end_word(&mut self)
        ensures
            final(self)@ == word_over(old(self)@),
    {
        proof {
            reveal_strlit("");
            assert(self.word@.len() == 0 ==> self.word@ =~= ""@);
        }
        if same(&self.word, "") {
            return;
        }
        let mut word = String::new();
        std::mem::swap(&mut word, &mut self.word);
        if self.behind_group && self.keyword.is_none() && !same(&word, "AS") {
            self.keyword = Some(word);
        }
        self.behind_group = false;
        assert(self@ =~= word_over(old(self)@));
    }

    /// Note a token other than a word or a group.
    fn note_other(&mut self)
        ensures
            final(self)@ == other_token(old(self)@),
    {
        if self.depth == 0 {
            self.behind_group = false;
        }
    }

    /// Go on by one character of plain text.
    fn plain(&mut self, c: char)
        requires
            old(self).depth < usize::MAX,
        ensures
            final(self)@ == plain_step(old(self)@, c),
            final(self).depth <= old(self).depth + 1,
    {
        if word_char(c) {
            if self.depth == 0 {
                self.word.push(raise(c));
            }
            return;
        }
        self.end_word();
        if c == ' ' || c == '\t' || c == '\n' || c == '\r' || c as u32 == 12 {
        } else if c == '-' {
            self.mode = Mode::Dash;
        } else if c == '/' {
            self.mode = Mode::Slash;
        } else if c == '(' {
            self.depth = self.depth + 1;
        } else if c == ')' && self.depth > 0 {
            self.behind_group = self.depth == 1;
            self.depth = self.depth - 1;
        } else {
            self.note_other();
            if c == '\'' || c == '"' || c == '`' {
                self.mode = Mode::Quoted(c);
            } else if c == '[' {
                self.mode = Mode::Quoted(']');
            }
        }
    }

    /// Go on by one character.
    fn advance(&mut self, c: char)
        requires
            old(self).depth < usize::MAX,
        ensures
            final(self)@ == step(old(self)@, c),
            final(self).depth <= old(self).depth + 1,
    {
        match self.mode {
            Mode::Plain => {
                self.plain(c);
            },
            Mode::Quoted(closing) => {
                if c == closing {
                    self.mode = Mode::Plain;
                }
            },
            Mode::Dash => {
                if c == '-' {
                    self.mode = Mode::Line;
                } else {
                    self.mode = Mode::Plain;
                    self.note_other();
                    self.plain(c);
                }
            },
            Mode::Slash => {
                if c == '*' {
                    self.mode = Mode::Block;
                } else {
                    self.mode = Mode::Plain;
                    self.note_other();
                    self.plain(c);
                }
            },
            Mode::Line => {
                if c == '\n' {
                    self.mode = Mode::Plain;
                }
            },
            Mode::Block => {
                if c == '*' {
                    self.mode = Mode::Star;
                }
            },
            Mode::Star => {
                if c == '/' {
                    self.mode = Mode::Plain;
                } else if c != '*' {
                    self.mode = Mode::Block;
                }
            },
        }
    }
}

/// The keyword behind the table expressions of a `WITH` statement.
pub fn keyword_behind_tables(sql: &str) -> (keyword: Option<String>)
    ensures
        opt_text(keyword) == main_keyword(sql@),
{
    let chars = chars_of(sql);
    let mut scan = Scan {
        mode: Mode::Plain,
        depth: 0,
        word: String::new(),
        behind_group: false,
        keyword: None,
    };
    assert(scan@ =~= fresh());
    let ghost go = |outline: Outline, c: char| step(outline, c);
    let mut i: usize = 0;
    while i < chars.len()
        invariant
            i <= chars.len(),
            chars@ == sql@,
            scan.depth <= i,
            go == (|outline: Outline, c: char| step(outline, c)),
            scan@ == sql@.take(i as int).fold_left(fresh(), go),
        decreases chars.len() - i,
    {
        proof {
            let longer = sql@.take(i + 1);
            assert(longer.drop_last() =~= sql@.take(i as int));
            assert(longer.last() == chars@[i as int]);
        }
        scan.advance(chars[i]);
        i = i + 1;
    }
    assert(sql@.take(i as int) =~= sql@);
    scan.end_word();
    scan.keyword
}

} // verus!
