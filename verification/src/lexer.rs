//! The lexer of the GRUB script language: it cuts the text of a script into
//! words, separators and braces.
//!
//! Words are separated by blanks. A line feed or a semicolon ends a
//! statement. `#` at the start of a word opens a comment that runs to the
//! end of the line, and a backslash before a line feed joins two lines.
//! Within single quotes every character stands for itself; within double
//! quotes `$` introduces a variable and a backslash protects `$`, `"` and
//! the backslash itself; outside quotes a backslash protects the character
//! behind it. A word is kept as its pieces, characters and references to
//! variables, because what a variable holds is known only when the word is
//! used.

use crate::text::{chars_of, find_from, lemma_find_from, string_of};
use vstd::prelude::*;

verus! {

/// A piece of a word, in mathematical form: a character that stands for
/// itself, or the name of a variable.
pub enum PieceModel {
    Lit(char),
    Var(Seq<char>),
}

/// A piece of a word.
#[derive(Debug, PartialEq, Eq)]
pub enum Piece {
    Lit(char),
    Var(String),
}

impl View for Piece {
    type V = PieceModel;

    open spec fn view(&self) -> PieceModel {
        match self {
            Piece::Lit(c) => PieceModel::Lit(*c),
            Piece::Var(name) => PieceModel::Var(name@),
        }
    }
}

/// The views of the pieces of a word.
pub open spec fn pieces_view(pieces: Seq<Piece>) -> Seq<PieceModel> {
    pieces.map_values(|p: Piece| p@)
}

/// What a token is, in mathematical form.
pub enum TokenModel {
    Word(Seq<PieceModel>),
    /// The end of a statement: a line feed or a semicolon.
    Separator,
    /// `{`
    Open,
    /// `}`
    Close,
}

/// What a token is.
#[derive(Debug, PartialEq, Eq)]
pub enum Token {
    Word(Vec<Piece>),
    Separator,
    Open,
    Close,
}

impl View for Token {
    type V = TokenModel;

    open spec fn view(&self) -> TokenModel {
        match self {
            Token::Word(pieces) => TokenModel::Word(pieces_view(pieces@)),
            Token::Separator => TokenModel::Separator,
            Token::Open => TokenModel::Open,
            Token::Close => TokenModel::Close,
        }
    }
}

/// A token with its place in the text, in mathematical form.
pub struct LexemeModel {
    pub token: TokenModel,
    /// The index of its first character.
    pub start: int,
    /// The index behind its last character.
    pub end: int,
}

/// A token with its place in the text, counted in characters.
#[derive(Debug, PartialEq, Eq)]
pub struct Lexeme {
    pub token: Token,
    pub start: usize,
    pub end: usize,
}

impl View for Lexeme {
    type V = LexemeModel;

    open spec fn view(&self) -> LexemeModel {
        LexemeModel { token: self.token@, start: self.start as int, end: self.end as int }
    }
}

/// The views of a list of tokens.
pub open spec fn lexemes_view(lexemes: Seq<Lexeme>) -> Seq<LexemeModel> {
    lexemes.map_values(|l: Lexeme| l@)
}

/// Why a text is no script.
#[derive(Clone, Copy, Debug, PartialEq, Eq)]
pub enum LexError {
    /// A quote is not closed, or a `${` has no `}`.
    Unterminated,
}

/// A blank: it separates words and stands for nothing else.
pub open spec fn is_blank(c: char) -> bool {
    c == ' ' || c == '\t' || c == '\r'
}

/// A character that can start the name of a variable.
pub open spec fn is_name_start(c: char) -> bool {
    ('a' <= c <= 'z') || ('A' <= c <= 'Z') || c == '_'
}

/// A character that can stand in the name of a variable.
pub open spec fn is_name_char(c: char) -> bool {
    is_name_start(c) || ('0' <= c <= '9')
}

/// A character that is the name of a variable by itself.
pub open spec fn is_special(c: char) -> bool {
    c == '?' || c == '@' || c == '*' || c == '#'
}

/// The first index at or after `i` that holds no character of a name if
/// `digits` is not set, or no digit if it is.
pub open spec fn run_end(s: Seq<char>, i: int, digits: bool) -> int
    decreases s.len() - i,
{
    if i < 0 || i >= s.len() {
        s.len() as int
    } else if (digits && !('0' <= s[i] <= '9')) || (!digits && !is_name_char(s[i])) {
        i
    } else {
        run_end(s, i + 1, digits)
    }
}

/// `run_end` stays within the text.
pub proof fn lemma_run_end(s: Seq<char>, i: int, digits: bool)
    requires
        0 <= i <= s.len(),
    ensures
        i <= run_end(s, i, digits) <= s.len(),
    decreases s.len() - i,
{
    if i < s.len() && !((digits && !('0' <= s[i] <= '9')) || (!digits && !is_name_char(s[i]))) {
        lemma_run_end(s, i + 1, digits);
    }
}

/// What stands at a `$` at index `i`: the piece that it makes and the index
/// behind it. `${NAME}` and `$NAME` name a variable, and so do `$` with a
/// number and `$?`, `$@`, `$*`, `$#`; any other `$` stands for itself.
/// There is none if a `${` is not closed.
pub open spec fn variable(s: Seq<char>, i: int) -> Option<(PieceModel, int)> {
    if i + 1 >= s.len() {
        Some((PieceModel::Lit('$'), i + 1))
    } else if s[i + 1] == '{' {
        let k = find_from(s, '}', i + 2);
        if i + 2 <= k < s.len() {
            Some((PieceModel::Var(s.subrange(i + 2, k)), k + 1))
        } else {
            None
        }
    } else if is_name_start(s[i + 1]) {
        let k = run_end(s, i + 1, false);
        Some((PieceModel::Var(s.subrange(i + 1, k)), k))
    } else if '0' <= s[i + 1] <= '9' {
        let k = run_end(s, i + 1, true);
        Some((PieceModel::Var(s.subrange(i + 1, k)), k))
    } else if is_special(s[i + 1]) {
        Some((PieceModel::Var(seq![s[i + 1]]), i + 2))
    } else {
        Some((PieceModel::Lit('$'), i + 1))
    }
}

/// How the characters of a word are read.
#[derive(Clone, Copy, Debug, PartialEq, Eq)]
pub enum Mode {
    /// Outside quotes.
    Bare,
    /// Within single quotes.
    Single,
    /// Within double quotes.
    Double,
}

/// The rest of a word with a piece put before it.
pub open spec fn piece_then(piece: PieceModel, rest: Option<(Seq<PieceModel>, int)>) -> Option<
    (Seq<PieceModel>, int),
> {
    match rest {
        Some((pieces, end)) => Some((seq![piece] + pieces, end)),
        None => None,
    }
}

/// The pieces of the rest of a word from index `i` on, read in the given
/// mode, and the index at which the word ends. There is none if the text
/// ends within quotes.
pub open spec fn word_rest(s: Seq<char>, i: int, mode: Mode) -> Option<(Seq<PieceModel>, int)>
    decreases s.len() - i,
{
    if i < 0 || i >= s.len() {
        if mode == Mode::Bare {
            Some((Seq::empty(), s.len() as int))
        } else {
            None
        }
    } else {
        let c = s[i];
        match mode {
            Mode::Single => if c == '\'' {
                word_rest(s, i + 1, Mode::Bare)
            } else {
                piece_then(PieceModel::Lit(c), word_rest(s, i + 1, Mode::Single))
            },
            Mode::Double => if c == '"' {
                word_rest(s, i + 1, Mode::Bare)
            } else if c == '\\' {
                if i + 1 >= s.len() {
                    None
                } else if s[i + 1] == '\n' {
                    word_rest(s, i + 2, Mode::Double)
                } else if s[i + 1] == '$' || s[i + 1] == '"' || s[i + 1] == '\\' {
                    piece_then(PieceModel::Lit(s[i + 1]), word_rest(s, i + 2, Mode::Double))
                } else {
                    piece_then(PieceModel::Lit('\\'), word_rest(s, i + 1, Mode::Double))
                }
            } else if c == '$' {
                match variable(s, i) {
                    Some((piece, next)) => if i < next <= s.len() {
                        piece_then(piece, word_rest(s, next, Mode::Double))
                    } else {
                        None
                    },
                    None => None,
                }
            } else {
                piece_then(PieceModel::Lit(c), word_rest(s, i + 1, Mode::Double))
            },
            Mode::Bare => if is_blank(c) || c == '\n' || c == ';' {
                Some((Seq::empty(), i))
            } else if c == '\'' {
                word_rest(s, i + 1, Mode::Single)
            } else if c == '"' {
                word_rest(s, i + 1, Mode::Double)
            } else if c == '\\' {
                if i + 1 >= s.len() {
                    Some((Seq::empty(), s.len() as int))
                } else if s[i + 1] == '\n' {
                    word_rest(s, i + 2, Mode::Bare)
                } else {
                    piece_then(PieceModel::Lit(s[i + 1]), word_rest(s, i + 2, Mode::Bare))
                }
            } else if c == '$' {
                match variable(s, i) {
                    Some((piece, next)) => if i < next <= s.len() {
                        piece_then(piece, word_rest(s, next, Mode::Bare))
                    } else {
                        None
                    },
                    None => None,
                }
            } else {
                piece_then(PieceModel::Lit(c), word_rest(s, i + 1, Mode::Bare))
            },
        }
    }
}

/// The rest of the tokens with a token put before them.
pub open spec fn token_then(token: LexemeModel, rest: Option<Seq<LexemeModel>>) -> Option<
    Seq<LexemeModel>,
> {
    match rest {
        Some(tokens) => Some(seq![token] + tokens),
        None => None,
    }
}

/// The tokens of a text from index `i` on. There are none if a quote or a
/// `${` is left open.
pub open spec fn lex_from(s: Seq<char>, i: int) -> Option<Seq<LexemeModel>>
    decreases s.len() - i,
{
    if i < 0 || i >= s.len() {
        Some(Seq::empty())
    } else {
        let c = s[i];
        if is_blank(c) {
            lex_from(s, i + 1)
        } else if c == '\n' || c == ';' {
            token_then(
                LexemeModel { token: TokenModel::Separator, start: i, end: i + 1 },
                lex_from(s, i + 1),
            )
        } else if c == '#' {
            let k = find_from(s, '\n', i + 1);
            if i < k <= s.len() {
                lex_from(s, k)
            } else {
                Some(Seq::empty())
            }
        } else if c == '{' {
            token_then(
                LexemeModel { token: TokenModel::Open, start: i, end: i + 1 },
                lex_from(s, i + 1),
            )
        } else if c == '}' {
            token_then(
                LexemeModel { token: TokenModel::Close, start: i, end: i + 1 },
                lex_from(s, i + 1),
            )
        } else if c == '\\' && i + 1 < s.len() && s[i + 1] == '\n' {
            lex_from(s, i + 2)
        } else {
            match word_rest(s, i, Mode::Bare) {
                Some((pieces, end)) => if i < end <= s.len() {
                    token_then(
                        LexemeModel { token: TokenModel::Word(pieces), start: i, end },
                        lex_from(s, end),
                    )
                } else {
                    None
                },
                None => None,
            }
        }
    }
}

/// The tokens of a script.
pub open spec fn lexed(source: Seq<char>) -> Option<Seq<LexemeModel>> {
    lex_from(source, 0)
}

/// What is read so far, followed by what is still to be read.
pub open spec fn pieces_so_far(
    done: Seq<PieceModel>,
    rest: Option<(Seq<PieceModel>, int)>,
) -> Option<(Seq<PieceModel>, int)> {
    match rest {
        Some((pieces, end)) => Some((done + pieces, end)),
        None => None,
    }
}

/// What is read so far, followed by what is still to be read.
pub open spec fn tokens_so_far(done: Seq<LexemeModel>, rest: Option<Seq<LexemeModel>>) -> Option<
    Seq<LexemeModel>,
> {
    match rest {
        Some(tokens) => Some(done + tokens),
        None => None,
    }
}

/// Executable form of [`is_blank`].
pub fn is_blank_char(c: char) -> (r: bool)
    ensures
        r == is_blank(c),
{
    c == ' ' || c == '\t' || c == '\r'
}

/// Executable form of [`is_name_start`].
pub fn is_name_start_char(c: char) -> (r: bool)
    ensures
        r == is_name_start(c),
{
    ('a' <= c && c <= 'z') || ('A' <= c && c <= 'Z') || c == '_'
}

/// Executable form of [`is_name_char`].
pub fn is_name_character(c: char) -> (r: bool)
    ensures
        r == is_name_char(c),
{
    is_name_start_char(c) || ('0' <= c && c <= '9')
}

/// Executable form of [`run_end`].
fn scan_run(v: &Vec<char>, i: usize, digits: bool) -> (k: usize)
    requires
        i <= v.len(),
    ensures
        i <= k <= v.len(),
        k == run_end(v@, i as int, digits),
{
    let mut k: usize = i;
    while k < v.len() && ((digits && '0' <= v[k] && v[k] <= '9') || (!digits && is_name_character(
        v[k],
    )))
        invariant
            i <= k <= v.len(),
            run_end(v@, i as int, digits) == run_end(v@, k as int, digits),
        decreases v.len() - k,
    {
        k += 1;
    }
    k
}

/// Executable form of [`variable`].
fn read_variable(v: &Vec<char>, i: usize) -> (r: Option<(Piece, usize)>)
    requires
        i < v.len(),
        v@[i as int] == '$',
    ensures
        match variable(v@, i as int) {
            Some((piece, next)) => r matches Some(found) && found.0@ == piece && found.1 == next
                && i < next <= v.len(),
            None => r is None,
        },
{
    let n = v.len();
    if i + 1 >= n {
        return Some((Piece::Lit('$'), i + 1));
    }
    let c = v[i + 1];
    if c == '{' {
        let k = crate::text::find_char(v, i + 2, n, '}');
        proof {
            lemma_find_from(v@, '}', i + 2);
            crate::text::lemma_find_from_is(v@, '}', i + 2, k as int);
        }
        if k < n {
            Some((Piece::Var(string_of(v, i + 2, k)), k + 1))
        } else {
            None
        }
    } else if is_name_start_char(c) {
        let k = scan_run(v, i + 1, false);
        assert(k > i + 1) by {
            assert(is_name_char(v@[i + 1]));
            lemma_run_end(v@, i + 2, false);
            assert(run_end(v@, i + 1, false) == run_end(v@, i + 2, false));
        }
        Some((Piece::Var(string_of(v, i + 1, k)), k))
    } else if '0' <= c && c <= '9' {
        let k = scan_run(v, i + 1, true);
        assert(k > i + 1) by {
            lemma_run_end(v@, i + 2, true);
            assert(run_end(v@, i + 1, true) == run_end(v@, i + 2, true));
        }
        Some((Piece::Var(string_of(v, i + 1, k)), k))
    } else if c == '?' || c == '@' || c == '*' || c == '#' {
        let name = string_of(v, i + 1, i + 2);
        proof {
            assert(name@ =~= seq![c]);
        }
        Some((Piece::Var(name), i + 2))
    } else {
        Some((Piece::Lit('$'), i + 1))
    }
}

/// To put an element at the end of what stands before is to put it at the
/// start of what follows.
pub proof fn lemma_push_then<T>(before: Seq<T>, x: T, after: Seq<T>)
    ensures
        before + (seq![x] + after) == before.push(x) + after,
{
    assert(before + (seq![x] + after) =~= before.push(x) + after);
}

/// The view of a word with one more piece.
pub proof fn lemma_pieces_push(pieces: Seq<Piece>, piece: Piece)
    ensures
        pieces_view(pieces.push(piece)) == pieces_view(pieces).push(piece@),
{
    assert(pieces_view(pieces.push(piece)) =~= pieces_view(pieces).push(piece@));
}

/// What reading one step of a word comes to.
enum Scan {
    /// The word ends at this index.
    Done(usize),
    /// The text ends within quotes.
    Fail,
    /// The word goes on at the given index in the given mode, after the
    /// given piece if there is one.
    Next(Option<Piece>, usize, Mode),
}

/// Reads one step of a word at index `k` in the given mode.
fn read_step(v: &Vec<char>, k: usize, mode: Mode) -> (r: Scan)
    requires
        k <= v.len(),
    ensures
        match r {
            Scan::Done(end) => word_rest(v@, k as int, mode) == Some(
                (Seq::<PieceModel>::empty(), end as int),
            ) && k <= end <= v.len(),
            Scan::Fail => word_rest(v@, k as int, mode) is None,
            Scan::Next(Some(piece), next, then) => word_rest(v@, k as int, mode) == piece_then(
                piece@,
                word_rest(v@, next as int, then),
            ) && k < next <= v.len(),
            Scan::Next(None, next, then) => word_rest(v@, k as int, mode) == word_rest(
                v@,
                next as int,
                then,
            ) && k < next <= v.len(),
        },
{
    let n = v.len();
    if k >= n {
        return match mode {
            Mode::Bare => Scan::Done(n),
            _ => Scan::Fail,
        };
    }
    let c = v[k];
    match mode {
        Mode::Single => {
            if c == '\'' {
                Scan::Next(None, k + 1, Mode::Bare)
            } else {
                Scan::Next(Some(Piece::Lit(c)), k + 1, Mode::Single)
            }
        },
        Mode::Double => {
            if c == '"' {
                Scan::Next(None, k + 1, Mode::Bare)
            } else if c == '\\' {
                if k + 1 >= n {
                    Scan::Fail
                } else {
                    let d = v[k + 1];
                    if d == '\n' {
                        Scan::Next(None, k + 2, Mode::Double)
                    } else if d == '$' || d == '"' || d == '\\' {
                        Scan::Next(Some(Piece::Lit(d)), k + 2, Mode::Double)
                    } else {
                        Scan::Next(Some(Piece::Lit('\\')), k + 1, Mode::Double)
                    }
                }
            } else if c == '$' {
                match read_variable(v, k) {
                    None => Scan::Fail,
                    Some((p, j)) => Scan::Next(Some(p), j, Mode::Double),
                }
            } else {
                Scan::Next(Some(Piece::Lit(c)), k + 1, Mode::Double)
            }
        },
        Mode::Bare => {
            if is_blank_char(c) || c == '\n' || c == ';' {
                Scan::Done(k)
            } else if c == '\'' {
                Scan::Next(None, k + 1, Mode::Single)
            } else if c == '"' {
                Scan::Next(None, k + 1, Mode::Double)
            } else if c == '\\' {
                if k + 1 >= n {
                    Scan::Done(n)
                } else {
                    let d = v[k + 1];
                    if d == '\n' {
                        Scan::Next(None, k + 2, Mode::Bare)
                    } else {
                        Scan::Next(Some(Piece::Lit(d)), k + 2, Mode::Bare)
                    }
                }
            } else if c == '$' {
                match read_variable(v, k) {
                    None => Scan::Fail,
                    Some((p, j)) => Scan::Next(Some(p), j, Mode::Bare),
                }
            } else {
                Scan::Next(Some(Piece::Lit(c)), k + 1, Mode::Bare)
            }
        },
    }
}

/// Reads the word that starts at index `i`: its pieces, and the index at
/// which it ends.
fn read_word(v: &Vec<char>, i: usize) -> (r: Option<(Vec<Piece>, usize)>)
    requires
        i <= v.len(),
    ensures
        match word_rest(v@, i as int, Mode::Bare) {
            Some((pieces, end)) => r matches Some(found) && pieces_view(found.0@) == pieces
                && found.1 == end && i <= end <= v.len(),
            None => r is None,
        },
{
    let n = v.len();
    let mut pieces: Vec<Piece> = Vec::new();
    let mut mode = Mode::Bare;
    let mut k: usize = i;
    proof {
        assert(pieces_view(pieces@) =~= Seq::<PieceModel>::empty());
        match word_rest(v@, i as int, Mode::Bare) {
            Some((more, end)) => {
                assert(Seq::<PieceModel>::empty() + more =~= more);
            },
            None => {},
        }
    }
    loop
        invariant
            i <= k <= n,
            n == v.len(),
            word_rest(v@, i as int, Mode::Bare) == pieces_so_far(
                pieces_view(pieces@),
                word_rest(v@, k as int, mode),
            ),
        decreases n - k,
    {
        let ghost before = pieces_view(pieces@);
        match read_step(v, k, mode) {
            Scan::Done(end) => {
                proof {
                    assert(before + Seq::<PieceModel>::empty() =~= before);
                }
                return Some((pieces, end));
            },
            Scan::Fail => {
                return None;
            },
            Scan::Next(Some(p), next, then) => {
                proof {
                    match word_rest(v@, next as int, then) {
                        Some((more, end)) => {
                            lemma_push_then(before, p@, more);
                        },
                        None => {},
                    }
                    lemma_pieces_push(pieces@, p);
                }
                pieces.push(p);
                k = next;
                mode = then;
            },
            Scan::Next(None, next, then) => {
                k = next;
                mode = then;
            },
        }
    }
}

/// Cuts the text of a script into tokens.
pub fn tokenize(source: &str) -> (r: Result<Vec<Lexeme>, LexError>)
    ensures
        match lexed(source@) {
            Some(tokens) => r matches Ok(found) && lexemes_view(found@) == tokens,
            None => r matches Err(LexError::Unterminated),
        },
{
    let v = chars_of(source);
    tokenize_chars(&v)
}

/// Cuts the characters of a script into tokens.
pub fn tokenize_chars(v: &Vec<char>) -> (r: Result<Vec<Lexeme>, LexError>)
    ensures
        match lexed(v@) {
            Some(tokens) => r matches Ok(found) && lexemes_view(found@) == tokens,
            None => r matches Err(LexError::Unterminated),
        },
{
    let n = v.len();
    let mut tokens: Vec<Lexeme> = Vec::new();
    let mut i: usize = 0;
    proof {
        assert(lexemes_view(tokens@) =~= Seq::<LexemeModel>::empty());
        let rest = lex_from(v@, 0);
        if rest is Some {
            assert(Seq::<LexemeModel>::empty() + rest->Some_0 =~= rest->Some_0);
        }
    }
    while i < n
        invariant
            i <= n,
            n == v.len(),
            lexed(v@) == tokens_so_far(lexemes_view(tokens@), lex_from(v@, i as int)),
        decreases n - i,
    {
        let ghost before = lexemes_view(tokens@);
        let c = v[i];
        let mut found: Option<Lexeme> = None;
        let mut next: usize = i + 1;
        if is_blank_char(c) {
        } else if c == '\n' || c == ';' {
            found = Some(Lexeme { token: Token::Separator, start: i, end: i + 1 });
        } else if c == '#' {
            next = crate::text::find_char(v, i + 1, n, '\n');
            proof {
                crate::text::lemma_find_from_is(v@, '\n', i + 1, next as int);
            }
        } else if c == '{' {
            found = Some(Lexeme { token: Token::Open, start: i, end: i + 1 });
        } else if c == '}' {
            found = Some(Lexeme { token: Token::Close, start: i, end: i + 1 });
        } else if c == '\\' && i + 1 < n && v[i + 1] == '\n' {
            next = i + 2;
        } else {
            match read_word(v, i) {
                None => {
                    return Err(LexError::Unterminated);
                },
                Some((pieces, end)) => {
                    proof {
                        lemma_word_advances(v@, i as int);
                    }
                    found = Some(Lexeme { token: Token::Word(pieces), start: i, end });
                    next = end;
                },
            }
        }
        match found {
            Some(lexeme) => {
                let ghost model = lexeme@;
                proof {
                    let rest = lex_from(v@, next as int);
                    assert(lex_from(v@, i as int) == token_then(model, rest));
                    match rest {
                        Some(more) => {
                            assert(before + (seq![model] + more) =~= before.push(model) + more);
                        },
                        None => {},
                    }
                }
                tokens.push(lexeme);
                proof {
                    assert(lexemes_view(tokens@) =~= before.push(model));
                }
            },
            None => {
                proof {
                    assert(lex_from(v@, i as int) == lex_from(v@, next as int));
                }
            },
        }
        i = next;
    }
    proof {
        assert(lexemes_view(tokens@) + Seq::<LexemeModel>::empty() =~= lexemes_view(tokens@));
    }
    Ok(tokens)
}

/// A word that starts with a character that neither separates words nor
/// joins lines takes at least that character.
pub proof fn lemma_word_advances(s: Seq<char>, i: int)
    requires
        0 <= i < s.len(),
        !is_blank(s[i]),
        s[i] != '\n',
        s[i] != ';',
        !(s[i] == '\\' && i + 1 < s.len() && s[i + 1] == '\n'),
    ensures
        word_rest(s, i, Mode::Bare) matches Some((_, end)) ==> i < end <= s.len(),
{
    let c = s[i];
    if c == '\'' {
        lemma_word_ends(s, i + 1, Mode::Single);
    } else if c == '"' {
        lemma_word_ends(s, i + 1, Mode::Double);
    } else if c == '\\' {
        if i + 1 < s.len() {
            lemma_word_ends(s, i + 2, Mode::Bare);
        }
    } else if c == '$' {
        match variable(s, i) {
            Some((piece, next)) => {
                if i < next <= s.len() {
                    lemma_word_ends(s, next, Mode::Bare);
                }
            },
            None => {},
        }
    } else {
        lemma_word_ends(s, i + 1, Mode::Bare);
    }
}

/// A word ends at or behind the index from which it is read.
pub proof fn lemma_word_ends(s: Seq<char>, i: int, mode: Mode)
    requires
        0 <= i <= s.len(),
    ensures
        word_rest(s, i, mode) matches Some((_, end)) ==> i <= end <= s.len(),
    decreases s.len() - i,
{
    if i < s.len() {
        let c = s[i];
        match mode {
            Mode::Single => {
                if c == '\'' {
                    lemma_word_ends(s, i + 1, Mode::Bare);
                } else {
                    lemma_word_ends(s, i + 1, Mode::Single);
                }
            },
            Mode::Double => {
                if c == '"' {
                    lemma_word_ends(s, i + 1, Mode::Bare);
                } else if c == '\\' {
                    if i + 1 < s.len() {
                        if s[i + 1] == '\n' || s[i + 1] == '$' || s[i + 1] == '"' || s[i + 1]
                            == '\\' {
                            lemma_word_ends(s, i + 2, Mode::Double);
                        } else {
                            lemma_word_ends(s, i + 1, Mode::Double);
                        }
                    }
                } else if c == '$' {
                    match variable(s, i) {
                        Some((piece, next)) => {
                            if i < next <= s.len() {
                                lemma_word_ends(s, next, Mode::Double);
                            }
                        },
                        None => {},
                    }
                } else {
                    lemma_word_ends(s, i + 1, Mode::Double);
                }
            },
            Mode::Bare => {
                if is_blank(c) || c == '\n' || c == ';' {
                } else if c == '\'' {
                    lemma_word_ends(s, i + 1, Mode::Single);
                } else if c == '"' {
                    lemma_word_ends(s, i + 1, Mode::Double);
                } else if c == '\\' {
                    if i + 1 < s.len() {
                        lemma_word_ends(s, i + 2, Mode::Bare);
                    }
                } else if c == '$' {
                    match variable(s, i) {
                        Some((piece, next)) => {
                            if i < next <= s.len() {
                                lemma_word_ends(s, next, Mode::Bare);
                            }
                        },
                        None => {},
                    }
                } else {
                    lemma_word_ends(s, i + 1, Mode::Bare);
                }
            },
        }
    }
}

} // verus!
