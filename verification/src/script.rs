//! The statements of a GRUB script, read off its tokens: where a statement
//! ends, which keyword it starts with, what its words expand to, and where
//! the block that it opens is closed.

use crate::lexer::{
    lexemes_view, pieces_view, Lexeme, LexemeModel, Piece, PieceModel, Token, TokenModel,
};
use crate::predicate::{all_digits, digits_value, is_digit, is_digit_char};
use crate::text::chars_of;
use vstd::prelude::*;
use vstd::string::*;

verus! {

/// The words that structure a script.
#[derive(Clone, Copy, Debug, PartialEq, Eq)]
pub enum Keyword {
    If,
    Then,
    Elif,
    Else,
    Fi,
    While,
    For,
    In,
    Do,
    Done,
    Function,
    MenuEntry,
    SubMenu,
}

/// The characters that a word spells, if it holds no variable.
pub open spec fn spelling(pieces: Seq<PieceModel>) -> Option<Seq<char>>
    decreases pieces.len(),
{
    if pieces.len() == 0 {
        Some(Seq::empty())
    } else {
        match (spelling(pieces.drop_last()), pieces.last()) {
            (Some(front), PieceModel::Lit(c)) => Some(front.push(c)),
            _ => None,
        }
    }
}

/// The keyword that a text is, if it is one.
pub open spec fn keyword_named(text: Seq<char>) -> Option<Keyword> {
    if text == "if"@ {
        Some(Keyword::If)
    } else if text == "then"@ {
        Some(Keyword::Then)
    } else if text == "elif"@ {
        Some(Keyword::Elif)
    } else if text == "else"@ {
        Some(Keyword::Else)
    } else if text == "fi"@ {
        Some(Keyword::Fi)
    } else if text == "while"@ {
        Some(Keyword::While)
    } else if text == "for"@ {
        Some(Keyword::For)
    } else if text == "in"@ {
        Some(Keyword::In)
    } else if text == "do"@ {
        Some(Keyword::Do)
    } else if text == "done"@ {
        Some(Keyword::Done)
    } else if text == "function"@ {
        Some(Keyword::Function)
    } else if text == "menuentry"@ {
        Some(Keyword::MenuEntry)
    } else if text == "submenu"@ {
        Some(Keyword::SubMenu)
    } else {
        None
    }
}

/// The keyword that a token is: a word without variables that spells one.
pub open spec fn keyword_of(token: TokenModel) -> Option<Keyword> {
    match token {
        TokenModel::Word(pieces) => match spelling(pieces) {
            Some(text) => keyword_named(text),
            None => None,
        },
        _ => None,
    }
}

/// The keyword at an index of the tokens, if there is one.
pub open spec fn keyword_at(tokens: Seq<LexemeModel>, i: int) -> Option<Keyword> {
    if 0 <= i < tokens.len() {
        keyword_of(tokens[i].token)
    } else {
        None
    }
}

/// The first index at or after `i` that holds no word: where the
/// statement that runs through `i` ends.
pub open spec fn statement_end(tokens: Seq<LexemeModel>, i: int) -> int
    decreases tokens.len() - i,
{
    if i < 0 || i >= tokens.len() {
        tokens.len() as int
    } else if !(tokens[i].token is Word) {
        i
    } else {
        statement_end(tokens, i + 1)
    }
}

/// The first index at or after `i` that holds no separator.
pub open spec fn after_separators(tokens: Seq<LexemeModel>, i: int) -> int
    decreases tokens.len() - i,
{
    if i < 0 || i >= tokens.len() {
        tokens.len() as int
    } else if !(tokens[i].token is Separator) {
        i
    } else {
        after_separators(tokens, i + 1)
    }
}

/// What a variable stands for: a number names the argument of the function
/// that runs, counted from 1; any other name names a variable of the
/// environment. What is missing stands for the empty text.
pub open spec fn value_of(
    env: Map<Seq<char>, Seq<char>>,
    args: Seq<Seq<char>>,
    name: Seq<char>,
) -> Seq<char> {
    if name.len() > 0 && all_digits(name) {
        if 1 <= digits_value(name) <= args.len() {
            args[digits_value(name) - 1]
        } else {
            Seq::empty()
        }
    } else if env.contains_key(name) {
        env[name]
    } else {
        Seq::empty()
    }
}

/// What a piece of a word stands for.
pub open spec fn piece_text(
    env: Map<Seq<char>, Seq<char>>,
    args: Seq<Seq<char>>,
    piece: PieceModel,
) -> Seq<char> {
    match piece {
        PieceModel::Lit(c) => seq![c],
        PieceModel::Var(name) => value_of(env, args, name),
    }
}

/// What a word expands to: what its pieces stand for, one after the other.
pub open spec fn expanded(
    env: Map<Seq<char>, Seq<char>>,
    args: Seq<Seq<char>>,
    pieces: Seq<PieceModel>,
) -> Seq<char>
    decreases pieces.len(),
{
    if pieces.len() == 0 {
        Seq::empty()
    } else {
        expanded(env, args, pieces.drop_last()) + piece_text(env, args, pieces.last())
    }
}

/// What a token expands to; only words expand to anything.
pub open spec fn token_text(
    env: Map<Seq<char>, Seq<char>>,
    args: Seq<Seq<char>>,
    token: TokenModel,
) -> Seq<char> {
    match token {
        TokenModel::Word(pieces) => expanded(env, args, pieces),
        _ => Seq::empty(),
    }
}

/// What the tokens from `from` up to `to` expand to, word by word.
pub open spec fn expanded_words(
    env: Map<Seq<char>, Seq<char>>,
    args: Seq<Seq<char>>,
    tokens: Seq<LexemeModel>,
    from: int,
    to: int,
) -> Seq<Seq<char>>
    decreases to - from,
{
    if from >= to || from < 0 || to > tokens.len() {
        Seq::empty()
    } else {
        expanded_words(env, args, tokens, from, to - 1).push(
            token_text(env, args, tokens[to - 1].token),
        )
    }
}

/// How a token changes the depth of nesting: `if`, `while`, `for` and `{`
/// open a block, `fi`, `done` and `}` close one.
pub open spec fn nesting(token: TokenModel) -> int {
    match token {
        TokenModel::Open => 1,
        TokenModel::Close => -1,
        _ => match keyword_of(token) {
            Some(Keyword::If) | Some(Keyword::While) | Some(Keyword::For) => 1,
            Some(Keyword::Fi) | Some(Keyword::Done) => -1,
            _ => 0,
        },
    }
}

/// Whether a word at an index starts a statement: it is the first token,
/// or it follows a token that is no word, or it follows `then`, `do` or
/// `else`.
pub open spec fn starts_statement(tokens: Seq<LexemeModel>, i: int) -> bool {
    0 <= i < tokens.len() && (i == 0 || !(tokens[i - 1].token is Word) || keyword_at(tokens, i - 1)
        == Some(Keyword::Then) || keyword_at(tokens, i - 1) == Some(Keyword::Do) || keyword_at(
        tokens,
        i - 1,
    ) == Some(Keyword::Else))
}

/// How the token at an index changes the depth of nesting. Keywords count
/// only where they start a statement.
pub open spec fn nesting_at(tokens: Seq<LexemeModel>, i: int) -> int {
    if 0 <= i < tokens.len() {
        if tokens[i].token is Word && !starts_statement(tokens, i) {
            0
        } else {
            nesting(tokens[i].token)
        }
    } else {
        0
    }
}

/// What a search for the end of a block stops at.
#[derive(Clone, Copy, Debug, PartialEq, Eq)]
pub enum Stop {
    /// `elif`, `else` or `fi`: the end of a branch of an `if`.
    Branch,
    /// `fi`: the end of an `if`.
    Fi,
    /// `done`: the end of a loop.
    Done,
    /// `}`: the end of a block in braces.
    Close,
}

/// Whether the token at an index is what a search stops at.
pub open spec fn stops(tokens: Seq<LexemeModel>, i: int, stop: Stop) -> bool {
    0 <= i < tokens.len() && match stop {
        Stop::Close => tokens[i].token is Close,
        Stop::Branch => starts_statement(tokens, i) && (keyword_at(tokens, i) == Some(
            Keyword::Elif,
        ) || keyword_at(tokens, i) == Some(Keyword::Else) || keyword_at(tokens, i) == Some(
            Keyword::Fi,
        )),
        Stop::Fi => starts_statement(tokens, i) && keyword_at(tokens, i) == Some(Keyword::Fi),
        Stop::Done => starts_statement(tokens, i) && keyword_at(tokens, i) == Some(Keyword::Done),
    }
}

/// The index, from `i` on, of the token that ends the block that is open
/// at `i`, given how many blocks were opened since: the first token at
/// depth 0 that the search stops at. It is the number of tokens if the
/// block is not closed.
pub open spec fn block_end(tokens: Seq<LexemeModel>, i: int, depth: int, stop: Stop) -> int
    decreases tokens.len() - i,
{
    if i < 0 || i >= tokens.len() {
        tokens.len() as int
    } else if depth <= 0 && stops(tokens, i, stop) {
        i
    } else {
        block_end(tokens, i + 1, depth + nesting_at(tokens, i), stop)
    }
}

/// Whether a word spells the given text.
pub fn spells(pieces: &Vec<Piece>, text: &str) -> (r: bool)
    ensures
        r == (spelling(pieces_view(pieces@)) == Some(text@)),
{
    let t = chars_of(text);
    let ghost word = pieces_view(pieces@);
    let mut i: usize = 0;
    proof {
        assert(word.take(0) =~= Seq::<PieceModel>::empty());
    }
    while i < pieces.len()
        invariant
            i <= pieces.len(),
            t@ == text@,
            i <= t.len(),
            word == pieces_view(pieces@),
            spelling(word.take(i as int)) == Some(t@.take(i as int)),
        decreases pieces.len() - i,
    {
        proof {
            assert(word.take(i + 1).drop_last() =~= word.take(i as int));
            assert(word.take(i + 1).last() == pieces@[i as int]@);
            lemma_spelling_prefix(word, i + 1);
        }
        match &pieces[i] {
            Piece::Lit(c) => {
                if i >= t.len() || t[i] != *c {
                    proof {
                        lemma_spelling_len(word);
                        if spelling(word) == Some(text@) {
                            lemma_spelling_len(word.take(i + 1));
                            assert(spelling(word.take(i + 1))->Some_0 == text@.take(i + 1));
                            assert(text@.take(i + 1)[i as int] == text@[i as int]);
                            assert(spelling(word.take(i + 1))->Some_0[i as int] == *c);
                        }
                    }
                    return false;
                }
                proof {
                    assert(t@.take(i + 1) =~= t@.take(i as int).push(*c));
                }
            },
            Piece::Var(_) => {
                return false;
            },
        }
        i += 1;
    }
    proof {
        assert(word.take(pieces.len() as int) =~= word);
        lemma_spelling_len(word);
        if i == t.len() {
            assert(t@.take(i as int) =~= t@);
        }
    }
    i == t.len()
}

/// A word that spells something has as many pieces as it spells characters.
pub proof fn lemma_spelling_len(pieces: Seq<PieceModel>)
    ensures
        spelling(pieces) matches Some(text) ==> text.len() == pieces.len(),
    decreases pieces.len(),
{
    if pieces.len() > 0 {
        lemma_spelling_len(pieces.drop_last());
    }
}

/// If a word spells a text, each of its prefixes spells the prefix of the
/// same length; a prefix that spells nothing lets the word spell nothing.
pub proof fn lemma_spelling_prefix(pieces: Seq<PieceModel>, k: int)
    requires
        0 <= k <= pieces.len(),
    ensures
        match spelling(pieces) {
            Some(text) => text.len() == pieces.len() && spelling(pieces.take(k)) == Some(
                text.take(k),
            ),
            None => true,
        },
        spelling(pieces.take(k)) is None ==> spelling(pieces) is None,
    decreases pieces.len(),
{
    lemma_spelling_len(pieces);
    if k == pieces.len() {
        assert(pieces.take(k) =~= pieces);
        match spelling(pieces) {
            Some(text) => {
                assert(text.take(k) =~= text);
            },
            None => {},
        }
    } else {
        lemma_spelling_prefix(pieces.drop_last(), k);
        assert(pieces.drop_last().take(k) =~= pieces.take(k));
        match spelling(pieces) {
            Some(text) => {
                let front = spelling(pieces.drop_last())->Some_0;
                assert(text == front.push(pieces.last()->Lit_0));
                assert(front.take(k) =~= text.take(k));
            },
            None => {},
        }
    }
}

/// The keyword that a token is, in executable form.
pub fn keyword(token: &Token) -> (r: Option<Keyword>)
    ensures
        r == keyword_of(token@),
{
    match token {
        Token::Word(pieces) => {
            if spells(pieces, "if") {
                Some(Keyword::If)
            } else if spells(pieces, "then") {
                Some(Keyword::Then)
            } else if spells(pieces, "elif") {
                Some(Keyword::Elif)
            } else if spells(pieces, "else") {
                Some(Keyword::Else)
            } else if spells(pieces, "fi") {
                Some(Keyword::Fi)
            } else if spells(pieces, "while") {
                Some(Keyword::While)
            } else if spells(pieces, "for") {
                Some(Keyword::For)
            } else if spells(pieces, "in") {
                Some(Keyword::In)
            } else if spells(pieces, "do") {
                Some(Keyword::Do)
            } else if spells(pieces, "done") {
                Some(Keyword::Done)
            } else if spells(pieces, "function") {
                Some(Keyword::Function)
            } else if spells(pieces, "menuentry") {
                Some(Keyword::MenuEntry)
            } else if spells(pieces, "submenu") {
                Some(Keyword::SubMenu)
            } else {
                None
            }
        },
        _ => None,
    }
}

/// Whether the token at an index is the given keyword.
pub fn is_keyword(tokens: &Vec<Lexeme>, i: usize, word: Keyword) -> (r: bool)
    ensures
        r == (keyword_at(lexemes_view(tokens@), i as int) == Some(word)),
{
    if i >= tokens.len() {
        return false;
    }
    match keyword(&tokens[i].token) {
        None => false,
        Some(found) => match (found, word) {
            (Keyword::If, Keyword::If) => true,
            (Keyword::Then, Keyword::Then) => true,
            (Keyword::Elif, Keyword::Elif) => true,
            (Keyword::Else, Keyword::Else) => true,
            (Keyword::Fi, Keyword::Fi) => true,
            (Keyword::While, Keyword::While) => true,
            (Keyword::For, Keyword::For) => true,
            (Keyword::In, Keyword::In) => true,
            (Keyword::Do, Keyword::Do) => true,
            (Keyword::Done, Keyword::Done) => true,
            (Keyword::Function, Keyword::Function) => true,
            (Keyword::MenuEntry, Keyword::MenuEntry) => true,
            (Keyword::SubMenu, Keyword::SubMenu) => true,
            _ => false,
        },
    }
}

/// Whether a token is a word.
pub fn is_word(token: &Token) -> (r: bool)
    ensures
        r == (token@ is Word),
{
    match token {
        Token::Word(_) => true,
        _ => false,
    }
}

/// Whether a token is a separator.
pub fn is_separator(token: &Token) -> (r: bool)
    ensures
        r == (token@ is Separator),
{
    match token {
        Token::Separator => true,
        _ => false,
    }
}

/// Executable form of [`statement_end`].
pub(crate) fn end_of_statement(tokens: &Vec<Lexeme>, i: usize) -> (k: usize)
    requires
        i <= tokens.len(),
    ensures
        i <= k <= tokens.len(),
        k == statement_end(lexemes_view(tokens@), i as int),
        forall|j: int| i <= j < k ==> (#[trigger] lexemes_view(tokens@)[j]).token is Word,
{
    let mut k: usize = i;
    while k < tokens.len() && is_word(&tokens[k].token)
        invariant
            i <= k <= tokens.len(),
            statement_end(lexemes_view(tokens@), i as int) == statement_end(
                lexemes_view(tokens@),
                k as int,
            ),
            forall|j: int| i <= j < k ==> (#[trigger] lexemes_view(tokens@)[j]).token is Word,
        decreases tokens.len() - k,
    {
        k += 1;
    }
    k
}

/// Executable form of [`after_separators`].
pub(crate) fn skip_separators(tokens: &Vec<Lexeme>, i: usize) -> (k: usize)
    requires
        i <= tokens.len(),
    ensures
        i <= k <= tokens.len(),
        k == after_separators(lexemes_view(tokens@), i as int),
{
    let mut k: usize = i;
    while k < tokens.len() && is_separator(&tokens[k].token)
        invariant
            i <= k <= tokens.len(),
            after_separators(lexemes_view(tokens@), i as int) == after_separators(
                lexemes_view(tokens@),
                k as int,
            ),
        decreases tokens.len() - k,
    {
        k += 1;
    }
    k
}

/// Executable form of [`starts_statement`].
pub fn at_statement_start(tokens: &Vec<Lexeme>, i: usize) -> (r: bool)
    ensures
        r == starts_statement(lexemes_view(tokens@), i as int),
{
    if i >= tokens.len() {
        false
    } else if i == 0 {
        true
    } else {
        !is_word(&tokens[i - 1].token) || is_keyword(tokens, i - 1, Keyword::Then) || is_keyword(
            tokens,
            i - 1,
            Keyword::Do,
        ) || is_keyword(tokens, i - 1, Keyword::Else)
    }
}

/// Executable form of [`nesting_at`].
fn nesting_of(tokens: &Vec<Lexeme>, i: usize) -> (d: i8)
    requires
        i < tokens.len(),
    ensures
        d == nesting_at(lexemes_view(tokens@), i as int),
        -1 <= d <= 1,
{
    match &tokens[i].token {
        Token::Open => 1,
        Token::Close => -1,
        Token::Separator => 0,
        Token::Word(_) => {
            if !at_statement_start(tokens, i) {
                0
            } else {
                match keyword(&tokens[i].token) {
                    Some(Keyword::If) | Some(Keyword::While) | Some(Keyword::For) => 1,
                    Some(Keyword::Fi) | Some(Keyword::Done) => -1,
                    _ => 0,
                }
            }
        },
    }
}

/// Executable form of [`stops`].
fn stops_at(tokens: &Vec<Lexeme>, i: usize, stop: Stop) -> (r: bool)
    requires
        i < tokens.len(),
    ensures
        r == stops(lexemes_view(tokens@), i as int, stop),
{
    match stop {
        Stop::Close => match &tokens[i].token {
            Token::Close => true,
            _ => false,
        },
        Stop::Branch => at_statement_start(tokens, i) && (is_keyword(tokens, i, Keyword::Elif)
            || is_keyword(tokens, i, Keyword::Else) || is_keyword(tokens, i, Keyword::Fi)),
        Stop::Fi => at_statement_start(tokens, i) && is_keyword(tokens, i, Keyword::Fi),
        Stop::Done => at_statement_start(tokens, i) && is_keyword(tokens, i, Keyword::Done),
    }
}

/// Finds the token that ends the block that is open at index `i`.
pub(crate) fn find_block_end(tokens: &Vec<Lexeme>, i: usize, stop: Stop) -> (k: usize)
    requires
        i <= tokens.len(),
    ensures
        i <= k <= tokens.len(),
        k == block_end(lexemes_view(tokens@), i as int, 0, stop),
        k < tokens.len() ==> stops(lexemes_view(tokens@), k as int, stop),
{
    let mut k: usize = i;
    let mut depth: i128 = 0;
    while k < tokens.len()
        invariant
            i <= k <= tokens.len(),
            -(k - i) <= depth <= k - i,
            block_end(lexemes_view(tokens@), i as int, 0, stop) == block_end(
                lexemes_view(tokens@),
                k as int,
                depth as int,
                stop,
            ),
        decreases tokens.len() - k,
    {
        if depth <= 0 && stops_at(tokens, k, stop) {
            return k;
        }
        depth = depth + nesting_of(tokens, k) as i128;
        k += 1;
    }
    k
}

/// Whether a text is made of digits only.
fn only_digits(n: &Vec<char>) -> (r: bool)
    ensures
        r == all_digits(n@),
{
    let mut i: usize = 0;
    while i < n.len()
        invariant
            i <= n.len(),
            forall|j: int| 0 <= j < i ==> is_digit(#[trigger] n@[j]),
        decreases n.len() - i,
    {
        if !is_digit_char(n[i]) {
            assert(!is_digit(n@[i as int]));
            return false;
        }
        i += 1;
    }
    true
}

/// The number that digits denote, if it is at most `limit`.
fn small_number(n: &Vec<char>, limit: usize) -> (r: Option<usize>)
    requires
        all_digits(n@),
    ensures
        match r {
            Some(value) => value == digits_value(n@) && value <= limit,
            None => digits_value(n@) > limit,
        },
{
    let mut value: usize = 0;
    let mut k: usize = 0;
    proof {
        assert(n@.take(0) =~= Seq::<char>::empty());
    }
    while k < n.len()
        invariant
            k <= n.len(),
            all_digits(n@),
            value == digits_value(n@.take(k as int)),
            value <= limit,
        decreases n.len() - k,
    {
        let c = n[k];
        assert(is_digit(n@[k as int]));
        let d: usize = (c as u32 - '0' as u32) as usize;
        proof {
            let t = n@.take(k + 1);
            assert(t.drop_last() =~= n@.take(k as int));
            assert(t.last() == c);
            crate::predicate::lemma_digits_value_grows(n@, k + 1);
        }
        if d > limit || value > (limit - d) / 10 {
            return None;
        }
        value = value * 10 + d;
        k += 1;
    }
    proof {
        assert(n@.take(n.len() as int) =~= n@);
    }
    Some(value)
}

/// The text that a variable stands for, in executable form.
pub fn lookup(env: &crate::environment::TinybootGrubEnvironment, args: &Vec<String>, name: &str) -> (r:
    String)
    ensures
        r@ == value_of(env@, args.deep_view(), name@),
{
    let n = chars_of(name);
    if n.len() > 0 && only_digits(&n) {
        match small_number(&n, args.len()) {
            Some(index) => {
                if index >= 1 {
                    proof {
                        assert(args.deep_view()[index - 1] == args@[index - 1]@);
                    }
                    args[index - 1].clone()
                } else {
                    String::new()
                }
            },
            None => String::new(),
        }
    } else {
        match env.get_env(name) {
            Some(value) => value.clone(),
            None => String::new(),
        }
    }
}

/// Expands a word.
pub fn expand(
    env: &crate::environment::TinybootGrubEnvironment,
    args: &Vec<String>,
    pieces: &Vec<Piece>,
) -> (r: String)
    ensures
        r@ == expanded(env@, args.deep_view(), pieces_view(pieces@)),
{
    let mut r = String::new();
    let ghost word = pieces_view(pieces@);
    let mut i: usize = 0;
    proof {
        assert(word.take(0) =~= Seq::<PieceModel>::empty());
    }
    while i < pieces.len()
        invariant
            i <= pieces.len(),
            word == pieces_view(pieces@),
            r@ == expanded(env@, args.deep_view(), word.take(i as int)),
        decreases pieces.len() - i,
    {
        proof {
            assert(word.take(i + 1).drop_last() =~= word.take(i as int));
            assert(word.take(i + 1).last() == pieces@[i as int]@);
        }
        match &pieces[i] {
            Piece::Lit(c) => {
                crate::text::push_char(&mut r, *c);
                proof {
                    assert(r@ =~= expanded(env@, args.deep_view(), word.take(i as int)) + seq![*c]);
                }
            },
            Piece::Var(name) => {
                let value = lookup(env, args, name.as_str());
                r.append(value.as_str());
            },
        }
        i += 1;
    }
    proof {
        assert(word.take(pieces.len() as int) =~= word);
    }
    r
}

/// Expands the words among the tokens from `from` up to `to`, each token
/// to one text.
pub(crate) fn expand_words(
    env: &crate::environment::TinybootGrubEnvironment,
    args: &Vec<String>,
    tokens: &Vec<Lexeme>,
    from: usize,
    to: usize,
) -> (r: Vec<String>)
    requires
        from <= to <= tokens.len(),
    ensures
        r.deep_view() == expanded_words(
            env@,
            args.deep_view(),
            lexemes_view(tokens@),
            from as int,
            to as int,
        ),
{
    let mut r: Vec<String> = Vec::new();
    let mut i: usize = from;
    proof {
        assert(r.deep_view() =~= Seq::<Seq<char>>::empty());
    }
    while i < to
        invariant
            from <= i <= to <= tokens.len(),
            r.deep_view() == expanded_words(
                env@,
                args.deep_view(),
                lexemes_view(tokens@),
                from as int,
                i as int,
            ),
        decreases to - i,
    {
        let ghost before = r.deep_view();
        let text = match &tokens[i].token {
            Token::Word(pieces) => expand(env, args, pieces),
            _ => String::new(),
        };
        r.push(text);
        proof {
            assert(r.deep_view() =~= before.push(text@));
        }
        i += 1;
    }
    r
}

} // verus!
