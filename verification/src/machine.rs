//! The evaluator of GRUB scripts as a machine, in mathematical form: its
//! state, and what one step does to it.
//!
//! The machine walks over the tokens of a script. A stack remembers the
//! blocks that it is in. A command that needs the system stops the machine
//! until the exit code of the command is handed back.

use crate::commands::{after_step, stepped, Stepped};
use crate::lexer::{LexemeModel, PieceModel, TokenModel};
use crate::menu::{EntryShape, ItemShape};
use crate::script::{
    after_separators, block_end, expanded, expanded_words, keyword_at, spelling, statement_end,
    Keyword, Stop,
};
use vstd::prelude::*;

verus! {

/// A function that the script has defined: its name and the tokens of its
/// body, from `start` up to `end`.
pub struct FunctionModel {
    pub name: Seq<char>,
    pub start: int,
    pub end: int,
}

/// A block that the machine is in.
pub enum FrameModel {
    /// A branch of an `if` that was taken.
    Branch,
    /// A branch of an `if` that was not taken; the next is to be tried.
    Untaken,
    /// The body of a `while` whose keyword stands at the index.
    While(int),
    /// The body of a `for`: the variable, the values, the index of the
    /// value that comes next, and the index of the first token of the body.
    For(Seq<char>, Seq<Seq<char>>, int, int),
    /// The body of a function: the index to return to, the index at which
    /// the body ends, and the arguments of the call.
    Call(int, int, Seq<Seq<char>>),
    /// The body of a submenu.
    SubMenu,
    /// The body of a submenu within a submenu; its entries go to the outer
    /// one.
    Nested,
}

/// What the command that runs belongs to.
#[derive(Clone, Copy, Debug, PartialEq, Eq)]
pub enum After {
    /// A statement of its own.
    Statement,
    /// The condition of an `if` or `elif`.
    If,
    /// The condition of the `while` whose keyword stands at the index.
    While(usize),
}

/// Why a script cannot go on.
#[derive(Clone, Copy, Debug, PartialEq, Eq)]
pub enum ScriptError {
    /// A keyword or a brace stands where none is expected.
    Unexpected,
    /// A block is not closed, or a keyword that has to follow is missing.
    Incomplete,
    /// The machine waits for the exit code of a command.
    Waiting,
    /// The machine does not wait for anything.
    NotWaiting,
}

/// The state of the machine.
pub struct Machine {
    pub tokens: Seq<LexemeModel>,
    pub text: Seq<char>,
    /// The index of the token that comes next.
    pub pc: int,
    pub env: Map<Seq<char>, Seq<char>>,
    /// The top-level entries collected so far.
    pub menu: Seq<EntryShape>,
    /// The submenu that is being filled.
    pub submenu: Option<EntryShape>,
    pub functions: Seq<FunctionModel>,
    pub stack: Seq<FrameModel>,
    /// What the machine waits for: what the command belongs to, and the
    /// index at which its statement ends.
    pub waiting: Option<(After, int)>,
}

/// What a step comes to.
pub enum Outcome {
    /// The script goes on.
    Running,
    /// The script has ended.
    Finished,
    /// A command needs the system: what it asks for, and its arguments
    /// with its name in front.
    Pending(Stepped, Seq<Seq<char>>),
    /// The script cannot go on.
    Failed(ScriptError),
}

/// The arguments of the call of the function that runs; none outside
/// functions.
pub open spec fn call_args(stack: Seq<FrameModel>) -> Seq<Seq<char>>
    decreases stack.len(),
{
    if stack.len() == 0 {
        Seq::empty()
    } else {
        match stack.last() {
            FrameModel::Call(_, _, args) => args,
            _ => call_args(stack.drop_last()),
        }
    }
}

/// What the tokens from `from` up to `to` expand to in a state.
pub open spec fn words(m: Machine, from: int, to: int) -> Seq<Seq<char>> {
    expanded_words(m.env, call_args(m.stack), m.tokens, from, to)
}

/// Whether a character can stand in the name of a variable that is
/// assigned.
pub open spec fn is_name_piece(piece: PieceModel) -> bool {
    match piece {
        PieceModel::Lit(c) => crate::lexer::is_name_char(c),
        PieceModel::Var(_) => false,
    }
}

/// The index of the `=` of an assignment in a word, from `i` on: the word
/// starts with one or more characters of a name, and `=` follows them.
/// There is none if the word is no assignment.
pub open spec fn assignment_at(pieces: Seq<PieceModel>, i: int) -> Option<int>
    decreases pieces.len() - i,
{
    if i < 0 || i >= pieces.len() {
        None
    } else if pieces[i] == PieceModel::Lit('=') {
        if i > 0 {
            Some(i)
        } else {
            None
        }
    } else if is_name_piece(pieces[i]) {
        assignment_at(pieces, i + 1)
    } else {
        None
    }
}

/// The title and the id that the words behind `menuentry` or `submenu`
/// give, read from index `i` on: the first word that is no option is the
/// title; `--id` is followed by the id; `--class`, `--users` and `--hotkey`
/// are followed by a value that is passed over, and so is every other word
/// that starts with `--`.
pub open spec fn header_from(
    words: Seq<Seq<char>>,
    i: int,
    id: Option<Seq<char>>,
    title: Option<Seq<char>>,
) -> (Option<Seq<char>>, Option<Seq<char>>)
    decreases words.len() - i,
{
    if i < 0 || i >= words.len() {
        (id, title)
    } else if words[i] == "--id"@ {
        if i + 1 < words.len() {
            header_from(words, i + 2, Some(words[i + 1]), title)
        } else {
            (id, title)
        }
    } else if words[i] == "--class"@ || words[i] == "--users"@ || words[i] == "--hotkey"@ {
        if i + 1 < words.len() {
            header_from(words, i + 2, id, title)
        } else {
            (id, title)
        }
    } else if words[i].len() >= 2 && words[i][0] == '-' && words[i][1] == '-' {
        header_from(words, i + 1, id, title)
    } else if title is None {
        header_from(words, i + 1, id, Some(words[i]))
    } else {
        header_from(words, i + 1, id, title)
    }
}

/// The entry that a header describes, with the given script.
pub open spec fn headed(words: Seq<Seq<char>>, consequence: Option<Seq<char>>) -> ItemShape {
    let (id, title) = header_from(words, 0, None, None);
    ItemShape {
        id,
        title: match title {
            Some(t) => t,
            None => Seq::empty(),
        },
        consequence,
    }
}

/// The state with an entry added: to the submenu that is being filled, or
/// else to the menu.
pub open spec fn with_entry(m: Machine, item: ItemShape) -> Machine {
    match m.submenu {
        Some(sub) => Machine {
            submenu: Some(
                EntryShape {
                    under: Some(
                        match sub.under {
                            Some(items) => items.push(item),
                            None => seq![item],
                        },
                    ),
                    ..sub
                },
            ),
            ..m
        },
        None => Machine { menu: m.menu.push(EntryShape { item, under: None }), ..m },
    }
}

/// The index of the function with the given name that was defined last,
/// searched from index `i` down; -1 if there is none.
pub open spec fn function_named(functions: Seq<FunctionModel>, name: Seq<char>, i: int) -> int
    decreases i,
{
    if i <= 0 || i > functions.len() {
        -1
    } else if functions[i - 1].name == name {
        i - 1
    } else {
        function_named(functions, name, i - 1)
    }
}

/// The state that cannot go on.
pub open spec fn failed(m: Machine, error: ScriptError) -> (Machine, Outcome) {
    (m, Outcome::Failed(error))
}

/// The state that goes on at the given index.
pub open spec fn goes_on(m: Machine, pc: int) -> (Machine, Outcome) {
    (Machine { pc, ..m }, Outcome::Running)
}

/// What follows a command that has ended with the given exit code. A
/// statement of its own is done. After the condition of an `if`, `then`
/// has to follow: with exit code 0 the branch is entered, else the machine
/// moves to the `elif`, `else` or `fi` that ends the branch. After the
/// condition of a `while`, `do` has to follow: with exit code 0 the body is
/// entered, else the machine moves behind the `done` of the loop.
pub open spec fn resumed(m: Machine, after: After, end: int, code: u8) -> (Machine, Outcome) {
    let at = after_separators(m.tokens, end);
    match after {
        After::Statement => goes_on(m, end),
        After::If => if keyword_at(m.tokens, at) != Some(Keyword::Then) {
            failed(m, ScriptError::Incomplete)
        } else if code == 0 {
            goes_on(Machine { stack: m.stack.push(FrameModel::Branch), ..m }, at + 1)
        } else {
            let b = block_end(m.tokens, at + 1, 0, Stop::Branch);
            if 0 <= b < m.tokens.len() {
                goes_on(Machine { stack: m.stack.push(FrameModel::Untaken), ..m }, b)
            } else {
                failed(m, ScriptError::Incomplete)
            }
        },
        After::While(start) => if keyword_at(m.tokens, at) != Some(Keyword::Do) {
            failed(m, ScriptError::Incomplete)
        } else if code == 0 {
            goes_on(
                Machine { stack: m.stack.push(FrameModel::While(start as int)), ..m },
                at + 1,
            )
        } else {
            let d = block_end(m.tokens, at + 1, 0, Stop::Done);
            if 0 <= d < m.tokens.len() {
                goes_on(m, d + 1)
            } else {
                failed(m, ScriptError::Incomplete)
            }
        },
    }
}

/// The arguments with which a command is run: `[` stands for `test`, and
/// the `]` that closes it is taken off; without that `]` the arguments are
/// no command.
pub open spec fn command_args(args: Seq<Seq<char>>) -> Option<Seq<Seq<char>>> {
    if args.len() > 0 && args[0] == "["@ {
        if args.len() >= 2 && args.last() == "]"@ {
            Some(seq!["test"@] + args.subrange(1, args.len() - 1))
        } else {
            None
        }
    } else {
        Some(args)
    }
}

/// The state after a command was run, as far as that goes without the
/// system. `[` without `]` is malformed.
pub open spec fn commanded(m: Machine, args: Seq<Seq<char>>, after: After, end: int) -> (
    Machine,
    Outcome,
) {
    if args.len() == 0 {
        resumed(m, after, end, 0)
    } else {
        match command_args(args) {
            None => resumed(
                Machine { env: m.env.insert("?"@, crate::commands::code_text(2)), ..m },
                after,
                end,
                2,
            ),
            Some(given) => match stepped(m.env, given) {
                Stepped::Ended(code, _) => resumed(
                    Machine { env: after_step(m.env, given), ..m },
                    after,
                    end,
                    code,
                ),
                other => (
                    Machine { waiting: Some((after, end)), ..m },
                    Outcome::Pending(other, given),
                ),
            },
        }
    }
}

/// What a statement that starts with no keyword does: an assignment sets a
/// variable; the name of a function calls it; anything else is a command.
pub open spec fn plain(m: Machine) -> (Machine, Outcome) {
    let end = statement_end(m.tokens, m.pc);
    let pieces = m.tokens[m.pc].token->Word_0;
    let args = call_args(m.stack);
    match assignment_at(pieces, 0) {
        Some(k) => match spelling(pieces.take(k)) {
            Some(name) => goes_on(
                Machine {
                    env: m.env.insert(name, expanded(m.env, args, pieces.skip(k + 1))),
                    ..m
                },
                end,
            ),
            None => failed(m, ScriptError::Unexpected),
        },
        None => {
            let given = words(m, m.pc, end);
            let f = if given.len() > 0 {
                function_named(m.functions, given[0], m.functions.len() as int)
            } else {
                -1
            };
            if 0 <= f < m.functions.len() {
                goes_on(
                    Machine {
                        stack: m.stack.push(
                            FrameModel::Call(end, m.functions[f].end, given.skip(1)),
                        ),
                        ..m
                    },
                    m.functions[f].start,
                )
            } else {
                commanded(m, given, After::Statement, end)
            }
        },
    }
}

/// What `elif`, `else` and `fi` do. They end the branch of an `if`. If the
/// branch was taken, the machine moves behind the `fi`. If it was not,
/// `elif` tries its condition, `else` enters its branch, and `fi` ends the
/// `if`.
pub open spec fn branch_end(m: Machine, word: Keyword) -> (Machine, Outcome) {
    let end = statement_end(m.tokens, m.pc);
    if m.stack.len() == 0 {
        failed(m, ScriptError::Unexpected)
    } else {
        let below = Machine { stack: m.stack.drop_last(), ..m };
        match m.stack.last() {
            FrameModel::Branch => if word == Keyword::Fi {
                goes_on(below, m.pc + 1)
            } else {
                let f = block_end(m.tokens, m.pc + 1, 0, Stop::Fi);
                if 0 <= f < m.tokens.len() {
                    goes_on(below, f + 1)
                } else {
                    failed(m, ScriptError::Incomplete)
                }
            },
            FrameModel::Untaken => if word == Keyword::Fi {
                goes_on(below, m.pc + 1)
            } else if word == Keyword::Else {
                goes_on(
                    Machine { stack: m.stack.drop_last().push(FrameModel::Branch), ..m },
                    m.pc + 1,
                )
            } else {
                commanded(below, words(below, m.pc + 1, end), After::If, end)
            },
            _ => failed(m, ScriptError::Unexpected),
        }
    }
}

/// What `done` does: a `while` tries its condition again; a `for` goes on
/// with its next value, or ends if there is none.
pub open spec fn loop_end(m: Machine) -> (Machine, Outcome) {
    if m.stack.len() == 0 {
        failed(m, ScriptError::Unexpected)
    } else {
        match m.stack.last() {
            FrameModel::While(start) => goes_on(Machine { stack: m.stack.drop_last(), ..m }, start),
            FrameModel::For(name, values, next, body) => if 0 <= next < values.len() {
                goes_on(
                    Machine {
                        env: m.env.insert(name, values[next]),
                        stack: m.stack.drop_last().push(
                            FrameModel::For(name, values, next + 1, body),
                        ),
                        ..m
                    },
                    body,
                )
            } else {
                goes_on(Machine { stack: m.stack.drop_last(), ..m }, m.pc + 1)
            },
            _ => failed(m, ScriptError::Unexpected),
        }
    }
}

/// What `for` does: `for NAME in VALUES`, a separator and `do` are read;
/// with no value the loop is passed over, else the variable is set to the
/// first value and the body is entered.
pub open spec fn for_start(m: Machine) -> (Machine, Outcome) {
    let end = statement_end(m.tokens, m.pc);
    let at = after_separators(m.tokens, end);
    if end < m.pc + 3 || keyword_at(m.tokens, m.pc + 2) != Some(Keyword::In) || keyword_at(
        m.tokens,
        at,
    ) != Some(Keyword::Do) {
        failed(m, ScriptError::Incomplete)
    } else {
        let name = words(m, m.pc + 1, m.pc + 2)[0];
        let values = words(m, m.pc + 3, end);
        if values.len() == 0 {
            let d = block_end(m.tokens, at + 1, 0, Stop::Done);
            if 0 <= d < m.tokens.len() {
                goes_on(m, d + 1)
            } else {
                failed(m, ScriptError::Incomplete)
            }
        } else {
            goes_on(
                Machine {
                    env: m.env.insert(name, values[0]),
                    stack: m.stack.push(FrameModel::For(name, values, 1, at + 1)),
                    ..m
                },
                at + 1,
            )
        }
    }
}

/// What `function` does: `function NAME {` is read, the body up to the
/// `}` that closes it is remembered under the name, and the machine moves
/// behind it.
pub open spec fn function_start(m: Machine) -> (Machine, Outcome) {
    let end = statement_end(m.tokens, m.pc);
    if end != m.pc + 2 || end >= m.tokens.len() || !(m.tokens[end].token is Open) {
        failed(m, ScriptError::Incomplete)
    } else {
        let close = block_end(m.tokens, end + 1, 0, Stop::Close);
        if 0 <= close < m.tokens.len() {
            goes_on(
                Machine {
                    functions: m.functions.push(
                        FunctionModel {
                            name: words(m, m.pc + 1, m.pc + 2)[0],
                            start: end + 1,
                            end: close,
                        },
                    ),
                    ..m
                },
                close + 1,
            )
        } else {
            failed(m, ScriptError::Incomplete)
        }
    }
}

/// What `menuentry` does: the header is read, the text between the braces
/// is kept as the script of the entry, the entry is added to the menu, and
/// the machine moves behind the `}`.
pub open spec fn entry_start(m: Machine) -> (Machine, Outcome) {
    let end = statement_end(m.tokens, m.pc);
    if end >= m.tokens.len() || !(m.tokens[end].token is Open) {
        failed(m, ScriptError::Incomplete)
    } else {
        let close = block_end(m.tokens, end + 1, 0, Stop::Close);
        if 0 <= close < m.tokens.len() && m.tokens[end].end <= m.tokens[close].start
            <= m.text.len() {
            goes_on(
                with_entry(
                    m,
                    headed(
                        words(m, m.pc + 1, end),
                        Some(m.text.subrange(m.tokens[end].end as int, m.tokens[close].start as int)),
                    ),
                ),
                close + 1,
            )
        } else {
            failed(m, ScriptError::Incomplete)
        }
    }
}

/// What `submenu` does: the header is read and the body is entered. The
/// entries of the body are collected under the submenu; those of a submenu
/// within a submenu go to the outer one.
pub open spec fn submenu_start(m: Machine) -> (Machine, Outcome) {
    let end = statement_end(m.tokens, m.pc);
    if end >= m.tokens.len() || !(m.tokens[end].token is Open) {
        failed(m, ScriptError::Incomplete)
    } else if m.submenu is Some {
        goes_on(Machine { stack: m.stack.push(FrameModel::Nested), ..m }, end + 1)
    } else {
        goes_on(
            Machine {
                submenu: Some(
                    EntryShape {
                        item: headed(words(m, m.pc + 1, end), None),
                        under: Some(Seq::empty()),
                    },
                ),
                stack: m.stack.push(FrameModel::SubMenu),
                ..m
            },
            end + 1,
        )
    }
}

/// What `}` does: it ends the body of a submenu, which is then added to
/// the menu.
pub open spec fn block_close(m: Machine) -> (Machine, Outcome) {
    if m.stack.len() == 0 {
        failed(m, ScriptError::Unexpected)
    } else {
        match m.stack.last() {
            FrameModel::Nested => goes_on(Machine { stack: m.stack.drop_last(), ..m }, m.pc + 1),
            FrameModel::SubMenu => match m.submenu {
                Some(sub) => goes_on(
                    Machine {
                        menu: m.menu.push(sub),
                        submenu: None,
                        stack: m.stack.drop_last(),
                        ..m
                    },
                    m.pc + 1,
                ),
                None => failed(m, ScriptError::Unexpected),
            },
            _ => failed(m, ScriptError::Unexpected),
        }
    }
}

/// What the word at the index of the machine does.
pub open spec fn statement(m: Machine) -> (Machine, Outcome) {
    let end = statement_end(m.tokens, m.pc);
    match keyword_at(m.tokens, m.pc) {
        None => plain(m),
        Some(Keyword::If) => commanded(m, words(m, m.pc + 1, end), After::If, end),
        Some(Keyword::While) => commanded(
            m,
            words(m, m.pc + 1, end),
            After::While(m.pc as usize),
            end,
        ),
        Some(Keyword::Elif) => branch_end(m, Keyword::Elif),
        Some(Keyword::Else) => branch_end(m, Keyword::Else),
        Some(Keyword::Fi) => branch_end(m, Keyword::Fi),
        Some(Keyword::Done) => loop_end(m),
        Some(Keyword::For) => for_start(m),
        Some(Keyword::Function) => function_start(m),
        Some(Keyword::MenuEntry) => entry_start(m),
        Some(Keyword::SubMenu) => submenu_start(m),
        Some(Keyword::Then) => failed(m, ScriptError::Unexpected),
        Some(Keyword::In) => failed(m, ScriptError::Unexpected),
        Some(Keyword::Do) => failed(m, ScriptError::Unexpected),
    }
}

/// Whether the machine stands at the end of the body of the function that
/// it is in.
pub open spec fn at_return(m: Machine) -> bool {
    m.stack.len() > 0 && match m.stack.last() {
        FrameModel::Call(_, end, _) => m.pc == end,
        _ => false,
    }
}

/// One step of the machine.
///
/// A machine that waits for a command does not move. At the end of the
/// body of a function it returns to the call. At the end of the tokens the
/// script has ended, unless a block is still open. A separator is passed
/// over, `}` closes a submenu, and a word starts a statement.
pub open spec fn step(m: Machine) -> (Machine, Outcome) {
    if m.waiting is Some {
        failed(m, ScriptError::Waiting)
    } else if at_return(m) {
        goes_on(Machine { stack: m.stack.drop_last(), ..m }, m.stack.last()->Call_0)
    } else if m.pc < 0 || m.pc >= m.tokens.len() {
        if m.stack.len() == 0 && m.submenu is None {
            (m, Outcome::Finished)
        } else {
            failed(m, ScriptError::Incomplete)
        }
    } else {
        match m.tokens[m.pc].token {
            TokenModel::Separator => goes_on(m, m.pc + 1),
            TokenModel::Open => failed(m, ScriptError::Unexpected),
            TokenModel::Close => block_close(m),
            TokenModel::Word(_) => statement(m),
        }
    }
}

/// The machine after at most `fuel` steps: it runs until a step comes to
/// anything but `Running`, or until the steps are used up.
pub open spec fn ran(m: Machine, fuel: nat) -> (Machine, Outcome)
    decreases fuel,
{
    if fuel == 0 {
        (m, Outcome::Running)
    } else {
        match step(m).1 {
            Outcome::Running => ran(step(m).0, (fuel - 1) as nat),
            _ => step(m),
        }
    }
}

/// The machine after the exit code of the command that it waits for was
/// handed back. The variables are those that the command has left.
pub open spec fn answered(m: Machine, env: Map<Seq<char>, Seq<char>>, code: u8) -> (
    Machine,
    Outcome,
) {
    match m.waiting {
        Some((after, end)) => resumed(Machine { waiting: None, env, ..m }, after, end, code),
        None => failed(m, ScriptError::NotWaiting),
    }
}

/// The machine at the start of a script.
pub open spec fn started(
    text: Seq<char>,
    tokens: Seq<LexemeModel>,
    env: Map<Seq<char>, Seq<char>>,
) -> Machine {
    Machine {
        tokens,
        text,
        pc: 0,
        env,
        menu: Seq::empty(),
        submenu: None,
        functions: Seq::empty(),
        stack: Seq::empty(),
        waiting: None,
    }
}

} // verus!
