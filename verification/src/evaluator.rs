//! The evaluator of GRUB scripts: it runs the configuration of a device
//! against an environment and collects the entries of its menu.
//!
//! The evaluator touches no file and no device. It runs step by step; a
//! command that needs the system stops it, and it goes on when the answer
//! of the system is handed back.

use crate::commands::{step_stands_for, CommandStep};
use crate::environment::TinybootGrubEnvironment;
use crate::error::GrubEnvironmentError;
use crate::lexer::{
    lexemes_view, pieces_view, tokenize_chars, LexError, Lexeme, Piece, PieceModel, Token,
};
use crate::machine::{
    answered, assignment_at, call_args, header_from, started, After, FrameModel, FunctionModel,
    Machine, Outcome, ScriptError,
};
use crate::menu::{
    entry_shape, item_shape, items_shape, menu_shape, shape_text, EntryShape, GrubEntry,
    ItemShape,
};
use crate::script::{
    end_of_statement, expand_words, expanded, find_block_end, is_keyword, keyword,
    skip_separators, spelling, Keyword, Stop,
};
use crate::text::{chars_of, push_char, same_text, string_of};
use vstd::prelude::*;
use vstd::string::*;

verus! {

/// A function that the script has defined.
pub struct Function {
    pub name: String,
    /// The index of the first token of its body.
    pub start: usize,
    /// The index of the `}` that closes its body.
    pub end: usize,
}

impl View for Function {
    type V = FunctionModel;

    open spec fn view(&self) -> FunctionModel {
        FunctionModel { name: self.name@, start: self.start as int, end: self.end as int }
    }
}

/// A block that the evaluator is in.
pub enum Frame {
    Branch,
    Untaken,
    While(usize),
    For(String, Vec<String>, usize, usize),
    Call(usize, usize, Vec<String>),
    SubMenu,
    Nested,
}

impl View for Frame {
    type V = FrameModel;

    open spec fn view(&self) -> FrameModel {
        match self {
            Frame::Branch => FrameModel::Branch,
            Frame::Untaken => FrameModel::Untaken,
            Frame::While(start) => FrameModel::While(*start as int),
            Frame::For(name, values, next, body) => FrameModel::For(
                name@,
                values.deep_view(),
                *next as int,
                *body as int,
            ),
            Frame::Call(back, end, args) => FrameModel::Call(
                *back as int,
                *end as int,
                args.deep_view(),
            ),
            Frame::SubMenu => FrameModel::SubMenu,
            Frame::Nested => FrameModel::Nested,
        }
    }
}

/// The views of the frames of a stack.
pub open spec fn stack_view(stack: Seq<Frame>) -> Seq<FrameModel> {
    stack.map_values(|f: Frame| f@)
}

/// The views of a list of functions.
pub open spec fn functions_view(functions: Seq<Function>) -> Seq<FunctionModel> {
    functions.map_values(|f: Function| f@)
}

/// What a step of the evaluator comes to.
#[derive(Debug, PartialEq, Eq)]
pub enum Progress {
    /// The script goes on.
    Running,
    /// The script has ended.
    Finished,
    /// A command needs the system: what it asks for, and its arguments
    /// with its name in front.
    Pending(CommandStep, Vec<String>),
    /// The script cannot go on.
    Failed(ScriptError),
}

/// Whether what a step came to stands for an outcome of the machine.
pub open spec fn progress_stands_for(progress: Progress, outcome: Outcome) -> bool {
    match outcome {
        Outcome::Running => progress is Running,
        Outcome::Finished => progress is Finished,
        Outcome::Pending(asked, args) => progress matches Progress::Pending(step, given)
            && step_stands_for(step, asked) && given.deep_view() == args,
        Outcome::Failed(error) => progress matches Progress::Failed(e) && e == error,
    }
}

/// Whether two steps of an evaluator came to the same: the same state of
/// the script, or the same question to the system with the same arguments.
pub open spec fn same_progress(a: Progress, b: Progress) -> bool {
    match a {
        Progress::Running => b is Running,
        Progress::Finished => b is Finished,
        Progress::Pending(step, args) => b matches Progress::Pending(asked, given)
            && crate::commands::same_step(step, asked) && given.deep_view() == args.deep_view(),
        Progress::Failed(error) => b matches Progress::Failed(e) && e == error,
    }
}

/// The evaluator of one script.
pub struct GrubEvaluator {
    text: Vec<char>,
    tokens: Vec<Lexeme>,
    pc: usize,
    env: TinybootGrubEnvironment,
    menu: Vec<GrubEntry>,
    submenu: Option<GrubEntry>,
    functions: Vec<Function>,
    stack: Vec<Frame>,
    waiting: Option<(After, usize)>,
}

impl View for GrubEvaluator {
    type V = Machine;

    closed spec fn view(&self) -> Machine {
        Machine {
            tokens: lexemes_view(self.tokens@),
            text: self.text@,
            pc: self.pc as int,
            env: self.env@,
            menu: menu_shape(self.menu@),
            submenu: match self.submenu {
                Some(sub) => Some(entry_shape(sub)),
                None => None,
            },
            functions: functions_view(self.functions@),
            stack: stack_view(self.stack@),
            waiting: match self.waiting {
                Some((after, end)) => Some((after, end as int)),
                None => None,
            },
        }
    }
}

/// Whether a result is the evaluator at the start of a script, with the
/// variables that the script runs against. A script that leaves a quote
/// open has no evaluator.
pub open spec fn evaluator_of(
    source: Seq<char>,
    env: Map<Seq<char>, Seq<char>>,
    r: Result<GrubEvaluator, LexError>,
) -> bool {
    match crate::lexer::lexed(source) {
        Some(tokens) => r matches Ok(evaluator) && evaluator@ == started(source, tokens, env),
        None => r matches Err(LexError::Unterminated),
    }
}

/// The characters that the first `k` pieces of a word spell.
fn spell(pieces: &Vec<Piece>, k: usize) -> (r: Option<String>)
    requires
        k <= pieces.len(),
    ensures
        match spelling(pieces_view(pieces@).take(k as int)) {
            Some(text) => r matches Some(found) && found@ == text,
            None => r is None,
        },
{
    let mut text = String::new();
    let ghost word = pieces_view(pieces@).take(k as int);
    let mut i: usize = 0;
    proof {
        assert(word.take(0) =~= Seq::<PieceModel>::empty());
    }
    while i < k
        invariant
            i <= k <= pieces.len(),
            word == pieces_view(pieces@).take(k as int),
            spelling(word.take(i as int)) == Some(text@),
        decreases k - i,
    {
        proof {
            assert(word.take(i + 1).drop_last() =~= word.take(i as int));
            assert(word.take(i + 1).last() == pieces@[i as int]@);
            crate::script::lemma_spelling_prefix(word, i + 1);
        }
        match &pieces[i] {
            Piece::Lit(c) => {
                push_char(&mut text, *c);
            },
            Piece::Var(_) => {
                return None;
            },
        }
        i += 1;
    }
    proof {
        assert(word.take(k as int) =~= word);
    }
    Some(text)
}

/// Expands the pieces of a word from index `from` on.
fn expand_rest(
    env: &TinybootGrubEnvironment,
    args: &Vec<String>,
    pieces: &Vec<Piece>,
    from: usize,
) -> (r: String)
    requires
        from <= pieces.len(),
    ensures
        r@ == expanded(env@, args.deep_view(), pieces_view(pieces@).skip(from as int)),
{
    let mut r = String::new();
    let mut i: usize = from;
    let ghost rest = pieces_view(pieces@).skip(from as int);
    proof {
        assert(rest.take(0) =~= Seq::<PieceModel>::empty());
    }
    while i < pieces.len()
        invariant
            from <= i <= pieces.len(),
            rest == pieces_view(pieces@).skip(from as int),
            r@ == expanded(env@, args.deep_view(), rest.take(i - from)),
        decreases pieces.len() - i,
    {
        proof {
            assert(rest.take(i - from + 1).drop_last() =~= rest.take(i - from));
            assert(rest.take(i - from + 1).last() == pieces@[i as int]@);
        }
        match &pieces[i] {
            Piece::Lit(c) => {
                let ghost before = r@;
                push_char(&mut r, *c);
                proof {
                    assert(r@ =~= before + seq![*c]);
                }
            },
            Piece::Var(name) => {
                let value = crate::script::lookup(env, args, name.as_str());
                r.append(value.as_str());
            },
        }
        i += 1;
    }
    proof {
        assert(rest.take(pieces.len() - from) =~= rest);
    }
    r
}

/// Executable form of [`assignment_at`].
fn find_assignment(pieces: &Vec<Piece>) -> (r: Option<usize>)
    ensures
        match assignment_at(pieces_view(pieces@), 0) {
            Some(k) => r == Some(k as usize) && 0 < k < pieces.len(),
            None => r is None,
        },
{
    let mut i: usize = 0;
    while i < pieces.len()
        invariant
            i <= pieces.len(),
            assignment_at(pieces_view(pieces@), 0) == assignment_at(
                pieces_view(pieces@),
                i as int,
            ),
        decreases pieces.len() - i,
    {
        match &pieces[i] {
            Piece::Lit(c) => {
                if *c == '=' {
                    return if i > 0 {
                        Some(i)
                    } else {
                        None
                    };
                }
                if !crate::lexer::is_name_character(*c) {
                    return None;
                }
            },
            Piece::Var(_) => {
                return None;
            },
        }
        i += 1;
    }
    None
}

/// A copy of a list of texts.
fn copy_texts(texts: &Vec<String>, from: usize, to: usize) -> (r: Vec<String>)
    requires
        from <= to <= texts.len(),
    ensures
        r.deep_view() == texts.deep_view().subrange(from as int, to as int),
{
    let mut r: Vec<String> = Vec::new();
    let mut i: usize = from;
    proof {
        assert(r.deep_view() =~= texts.deep_view().subrange(from as int, from as int));
    }
    while i < to
        invariant
            from <= i <= to <= texts.len(),
            r.deep_view() == texts.deep_view().subrange(from as int, i as int),
        decreases to - i,
    {
        let ghost before = r.deep_view();
        let text = texts[i].clone();
        r.push(text);
        proof {
            assert(r.deep_view() =~= before.push(text@));
            assert(texts.deep_view()[i as int] == text@);
            assert(r.deep_view() =~= texts.deep_view().subrange(from as int, i + 1));
        }
        i += 1;
    }
    r
}

/// Reads the title and the id off the words of a header.
fn read_header(words: &Vec<String>) -> (r: (Option<String>, Option<String>))
    ensures
        shape_text(r.0) == header_from(words.deep_view(), 0, None, None).0,
        shape_text(r.1) == header_from(words.deep_view(), 0, None, None).1,
{
    let mut id: Option<String> = None;
    let mut title: Option<String> = None;
    let mut i: usize = 0;
    let ghost all = words.deep_view();
    loop
        invariant
            i <= words.len() + 1,
            all == words.deep_view(),
            header_from(all, 0, None, None) == header_from(
                all,
                i as int,
                shape_text(id),
                shape_text(title),
            ),
        decreases words.len() + 1 - i,
    {
        if i >= words.len() {
            return (id, title);
        }
        assert(all[i as int] == words@[i as int]@);
        let word = words[i].as_str();
        let w = chars_of(word);
        if same_text(word, "--id") {
            if i + 1 < words.len() {
                assert(all[i + 1] == words@[i + 1]@);
                id = Some(words[i + 1].clone());
                i += 2;
            } else {
                return (id, title);
            }
        } else if same_text(word, "--class") || same_text(word, "--users") || same_text(
            word,
            "--hotkey",
        ) {
            if i + 1 < words.len() {
                i += 2;
            } else {
                return (id, title);
            }
        } else if w.len() >= 2 && w[0] == '-' && w[1] == '-' {
            i += 1;
        } else if title.is_none() {
            title = Some(words[i].clone());
            i += 1;
        } else {
            i += 1;
        }
    }
}

/// The entry that a header describes, with the given script.
fn entry_from(words: &Vec<String>, consequence: Option<String>, menu: bool) -> (entry: GrubEntry)
    ensures
        item_shape(entry) == crate::machine::headed(
            words.deep_view(),
            shape_text(consequence),
        ),
        menu ==> (entry.menuentries matches Some(under) && under@.len() == 0),
        !menu ==> entry.menuentries is None,
{
    let (id, title) = read_header(words);
    let title = match title {
        Some(t) => t,
        None => String::new(),
    };
    GrubEntry {
        id,
        title,
        consequence,
        menuentries: if menu {
            Some(Vec::new())
        } else {
            None
        },
    }
}

impl GrubEvaluator {
    /// The evaluator at the start of a script, with the environment that
    /// the script runs against. Fails if the script leaves a quote open.
    pub fn new_from_source(source: &str, env: TinybootGrubEnvironment) -> (r: Result<
        Self,
        LexError,
    >)
        ensures
            evaluator_of(source@, env@, r),
    {
        let text = chars_of(source);
        match tokenize_chars(&text) {
            Err(e) => Err(e),
            Ok(tokens) => {
                let evaluator = GrubEvaluator {
                    text,
                    tokens,
                    pc: 0,
                    env,
                    menu: Vec::new(),
                    submenu: None,
                    functions: Vec::new(),
                    stack: Vec::new(),
                    waiting: None,
                };
                proof {
                    assert(menu_shape(evaluator.menu@) =~= Seq::<EntryShape>::empty());
                    assert(functions_view(evaluator.functions@) =~= Seq::<FunctionModel>::empty());
                    assert(stack_view(evaluator.stack@) =~= Seq::<FrameModel>::empty());
                }
                Ok(evaluator)
            },
        }
    }

    /// The variables of the script.
    pub fn env(&self) -> (r: &TinybootGrubEnvironment)
        ensures
            r@ == self@.env,
    {
        &self.env
    }

    /// The top-level entries collected so far.
    pub fn menu(&self) -> (r: &Vec<GrubEntry>)
        ensures
            menu_shape(r@) == self@.menu,
    {
        &self.menu
    }

    /// Takes the evaluator apart: the menu and the variables that the
    /// script has left.
    pub fn into_parts(self) -> (r: (Vec<GrubEntry>, TinybootGrubEnvironment))
        ensures
            menu_shape(r.0@) == self@.menu,
            r.1@ == self@.env,
    {
        (self.menu, self.env)
    }

    /// The arguments of the call of the function that runs.
    fn current_args(&self) -> (args: Vec<String>)
        ensures
            args.deep_view() == call_args(self@.stack),
    {
        let mut i: usize = self.stack.len();
        let ghost all = stack_view(self.stack@);
        proof {
            assert(all.take(i as int) =~= all);
        }
        while i > 0
            invariant
                i <= self.stack.len(),
                all == stack_view(self.stack@),
                call_args(all) == call_args(all.take(i as int)),
            decreases i,
        {
            proof {
                assert(all.take(i as int).last() == self.stack@[i - 1]@);
                assert(all.take(i as int).drop_last() =~= all.take(i - 1));
            }
            match &self.stack[i - 1] {
                Frame::Call(_, _, args) => {
                    let copy = copy_texts(args, 0, args.len());
                    proof {
                        assert(args.deep_view().subrange(0, args.len() as int)
                            =~= args.deep_view());
                    }
                    return copy;
                },
                _ => {},
            }
            i -= 1;
        }
        let none: Vec<String> = Vec::new();
        proof {
            assert(all.take(0) =~= Seq::<FrameModel>::empty());
            assert(none.deep_view() =~= Seq::<Seq<char>>::empty());
        }
        none
    }

    /// What the tokens from `from` up to `to` expand to.
    fn words(&self, from: usize, to: usize) -> (r: Vec<String>)
        ensures
            r.deep_view() == crate::machine::words(self@, from as int, to as int),
    {
        let args = self.current_args();
        if from <= to && to <= self.tokens.len() {
            expand_words(&self.env, &args, &self.tokens, from, to)
        } else {
            let none: Vec<String> = Vec::new();
            proof {
                assert(none.deep_view() =~= Seq::<Seq<char>>::empty());
            }
            none
        }
    }

    /// Puts a frame on the stack.
    fn push_frame(&mut self, frame: Frame)
        ensures
            final(self)@ == (Machine { stack: old(self)@.stack.push(frame@), ..old(self)@ }),
    {
        let ghost before = stack_view(self.stack@);
        self.stack.push(frame);
        proof {
            assert(stack_view(self.stack@) =~= before.push(frame@));
        }
    }

    /// Takes the top frame off the stack.
    fn pop_frame(&mut self) -> (frame: Frame)
        requires
            old(self)@.stack.len() > 0,
        ensures
            frame@ == old(self)@.stack.last(),
            final(self)@ == (Machine { stack: old(self)@.stack.drop_last(), ..old(self)@ }),
    {
        let ghost before = stack_view(self.stack@);
        let frame = self.stack.pop().unwrap();
        proof {
            assert(stack_view(self.stack@) =~= before.drop_last());
        }
        frame
    }

    /// Goes on after a command has ended with the given exit code.
    fn resume(&mut self, after: After, end: usize, code: u8) -> (r: Progress)
        requires
            end <= old(self)@.tokens.len(),
        ensures
            final(self)@ == crate::machine::resumed(old(self)@, after, end as int, code).0,
            progress_stands_for(
                r,
                crate::machine::resumed(old(self)@, after, end as int, code).1,
            ),
    {
        let at = skip_separators(&self.tokens, end);
        match after {
            After::Statement => {
                self.pc = end;
                Progress::Running
            },
            After::If => {
                if !is_keyword(&self.tokens, at, Keyword::Then) {
                    return Progress::Failed(ScriptError::Incomplete);
                }
                if code == 0 {
                    self.push_frame(Frame::Branch);
                    self.pc = at + 1;
                    Progress::Running
                } else {
                    let b = find_block_end(&self.tokens, at + 1, Stop::Branch);
                    if b < self.tokens.len() {
                        self.push_frame(Frame::Untaken);
                        self.pc = b;
                        Progress::Running
                    } else {
                        Progress::Failed(ScriptError::Incomplete)
                    }
                }
            },
            After::While(start) => {
                if !is_keyword(&self.tokens, at, Keyword::Do) {
                    return Progress::Failed(ScriptError::Incomplete);
                }
                if code == 0 {
                    self.push_frame(Frame::While(start));
                    self.pc = at + 1;
                    Progress::Running
                } else {
                    let d = find_block_end(&self.tokens, at + 1, Stop::Done);
                    if d < self.tokens.len() {
                        self.pc = d + 1;
                        Progress::Running
                    } else {
                        Progress::Failed(ScriptError::Incomplete)
                    }
                }
            },
        }
    }

    /// Records a result as the end of a command, and goes on.
    fn end_command(
        &mut self,
        result: &Result<(), GrubEnvironmentError>,
        after: After,
        end: usize,
    ) -> (r: Progress)
        requires
            end <= old(self)@.tokens.len(),
        ensures
            ({
                let code = crate::error::exit_code_of(*result);
                let m = Machine {
                    env: old(self)@.env.insert("?"@, crate::commands::code_text(code)),
                    ..old(self)@
                };
                final(self)@ == crate::machine::resumed(m, after, end as int, code).0
                    && progress_stands_for(
                    r,
                    crate::machine::resumed(m, after, end as int, code).1,
                )
            }),
    {
        let code = self.env.complete(result);
        self.resume(after, end, code)
    }

    /// Runs a command as far as that goes without the system.
    fn command(&mut self, args: Vec<String>, after: After, end: usize) -> (r: Progress)
        requires
            end <= old(self)@.tokens.len(),
        ensures
            final(self)@ == crate::machine::commanded(
                old(self)@,
                args.deep_view(),
                after,
                end as int,
            ).0,
            progress_stands_for(
                r,
                crate::machine::commanded(old(self)@, args.deep_view(), after, end as int).1,
            ),
    {
        let ghost all = args.deep_view();
        if args.len() == 0 {
            return self.resume(after, end, 0);
        }
        assert(all[0] == args@[0]@);
        let bracket = same_text(args[0].as_str(), "[");
        if bracket {
            assert(all.last() == args@[args.len() - 1]@);
            if !(args.len() >= 2 && same_text(args[args.len() - 1].as_str(), "]")) {
                let result: Result<(), GrubEnvironmentError> = Err(
                    GrubEnvironmentError::InvalidArgs,
                );
                return self.end_command(&result, after, end);
            }
        }
        let name = if bracket {
            "test".to_string()
        } else {
            args[0].clone()
        };
        let rest = if bracket {
            copy_texts(&args, 1, args.len() - 1)
        } else {
            copy_texts(&args, 1, args.len())
        };
        let ghost given = seq![name@] + rest.deep_view();
        proof {
            if !bracket {
                assert(given =~= all);
            }
            assert(crate::machine::command_args(all) == Some(given));
        }
        let mut handed: Vec<String> = Vec::new();
        handed.push(name.clone());
        let mut rest_copy = copy_texts(&rest, 0, rest.len());
        handed.append(&mut rest_copy);
        proof {
            assert(rest.deep_view().subrange(0, rest.len() as int) =~= rest.deep_view());
            assert(handed.deep_view() =~= given);
        }
        match self.env.run_command(name, rest) {
            CommandStep::Exit(code) => self.resume(after, end, code),
            other => {
                self.waiting = Some((after, end));
                Progress::Pending(other, handed)
            },
        }
    }

    /// The index of the function with the given name that was defined
    /// last.
    fn find_function(&self, name: &str) -> (r: Option<usize>)
        ensures
            match r {
                Some(f) => f == crate::machine::function_named(
                    self@.functions,
                    name@,
                    self@.functions.len() as int,
                ) && f < self.functions.len(),
                None => crate::machine::function_named(
                    self@.functions,
                    name@,
                    self@.functions.len() as int,
                ) == -1,
            },
    {
        let ghost all = functions_view(self.functions@);
        let mut i: usize = self.functions.len();
        while i > 0
            invariant
                i <= self.functions.len(),
                all == functions_view(self.functions@),
                crate::machine::function_named(all, name@, all.len() as int)
                    == crate::machine::function_named(all, name@, i as int),
            decreases i,
        {
            assert(all[i - 1] == self.functions@[i - 1]@);
            if same_text(self.functions[i - 1].name.as_str(), name) {
                return Some(i - 1);
            }
            i -= 1;
        }
        None
    }

    /// Adds an entry to the submenu that is being filled, or else to the
    /// menu.
    fn add_entry(&mut self, entry: GrubEntry)
        requires
            entry.menuentries is None,
        ensures
            final(self)@ == crate::machine::with_entry(old(self)@, item_shape(entry)),
    {
        let mut sub: Option<GrubEntry> = None;
        core::mem::swap(&mut sub, &mut self.submenu);
        match sub {
            Some(held) => {
                let GrubEntry { id, title, consequence, menuentries } = held;
                let mut under = match menuentries {
                    Some(items) => items,
                    None => Vec::new(),
                };
                let ghost before = items_shape(under@);
                under.push(entry);
                proof {
                    assert(items_shape(under@) =~= before.push(
                        item_shape(entry),
                    ));
                    if menuentries is None {
                        assert(before =~= Seq::<ItemShape>::empty());
                        assert(before.push(item_shape(entry)) =~= seq![item_shape(entry)]);
                    }
                }
                self.submenu = Some(GrubEntry { id, title, consequence, menuentries: Some(under) });
            },
            None => {
                let ghost before = menu_shape(self.menu@);
                self.menu.push(entry);
                proof {
                    assert(menu_shape(self.menu@) =~= before.push(entry_shape(entry)));
                }
            },
        }
    }

    /// A statement that starts with no keyword.
    fn plain(&mut self) -> (r: Progress)
        requires
            old(self).pc < old(self).tokens.len(),
            lexemes_view(old(self).tokens@)[old(self).pc as int].token is Word,
        ensures
            final(self)@ == crate::machine::plain(old(self)@).0,
            progress_stands_for(r, crate::machine::plain(old(self)@).1),
    {
        let end = end_of_statement(&self.tokens, self.pc);
        let args = self.current_args();
        let assignment = match &self.tokens[self.pc].token {
            Token::Word(pieces) => match find_assignment(pieces) {
                Some(k) => match spell(pieces, k) {
                    Some(name) => Some(Some((name, expand_rest(&self.env, &args, pieces, k + 1)))),
                    None => Some(None),
                },
                None => None,
            },
            _ => None,
        };
        match assignment {
            Some(Some((name, value))) => {
                self.env.set_env(name, Some(value));
                self.pc = end;
                Progress::Running
            },
            Some(None) => Progress::Failed(ScriptError::Unexpected),
            None => {
                let given = self.words(self.pc, end);
                let found = if given.len() > 0 {
                    assert(given.deep_view()[0] == given@[0]@);
                    self.find_function(given[0].as_str())
                } else {
                    None
                };
                match found {
                    Some(f) => {
                        let start = self.functions[f].start;
                        let close = self.functions[f].end;
                        assert(functions_view(self.functions@)[f as int] == self.functions@[f as int]@);
                        let rest = copy_texts(&given, 1, given.len());
                        proof {
                            assert(given.deep_view().subrange(1, given.len() as int)
                                =~= given.deep_view().skip(1));
                        }
                        self.push_frame(Frame::Call(end, close, rest));
                        self.pc = start;
                        Progress::Running
                    },
                    None => self.command(given, After::Statement, end),
                }
            },
        }
    }

    /// `elif`, `else` or `fi`.
    fn branch_end(&mut self, word: Keyword) -> (r: Progress)
        requires
            old(self).pc < old(self).tokens.len(),
            word == Keyword::Elif || word == Keyword::Else || word == Keyword::Fi,
        ensures
            final(self)@ == crate::machine::branch_end(old(self)@, word).0,
            progress_stands_for(r, crate::machine::branch_end(old(self)@, word).1),
    {
        let end = end_of_statement(&self.tokens, self.pc);
        if self.stack.len() == 0 {
            return Progress::Failed(ScriptError::Unexpected);
        }
        let last = self.stack.len() - 1;
        assert(stack_view(self.stack@).last() == self.stack@[last as int]@);
        let taken = match &self.stack[last] {
            Frame::Branch => true,
            Frame::Untaken => false,
            _ => {
                return Progress::Failed(ScriptError::Unexpected);
            },
        };
        let is_fi = match word {
            Keyword::Fi => true,
            _ => false,
        };
        let is_else = match word {
            Keyword::Else => true,
            _ => false,
        };
        if is_fi {
            self.pop_frame();
            self.pc = self.pc + 1;
            Progress::Running
        } else if taken {
            let f = find_block_end(&self.tokens, self.pc + 1, Stop::Fi);
            if f < self.tokens.len() {
                self.pop_frame();
                self.pc = f + 1;
                Progress::Running
            } else {
                Progress::Failed(ScriptError::Incomplete)
            }
        } else if is_else {
            self.pop_frame();
            self.push_frame(Frame::Branch);
            self.pc = self.pc + 1;
            Progress::Running
        } else {
            self.pop_frame();
            let given = self.words(self.pc + 1, end);
            self.command(given, After::If, end)
        }
    }

    /// `done`.
    fn loop_end(&mut self) -> (r: Progress)
        requires
            old(self).pc < old(self).tokens.len(),
        ensures
            final(self)@ == crate::machine::loop_end(old(self)@).0,
            progress_stands_for(r, crate::machine::loop_end(old(self)@).1),
    {
        if self.stack.len() == 0 {
            return Progress::Failed(ScriptError::Unexpected);
        }
        let last = self.stack.len() - 1;
        assert(stack_view(self.stack@).last() == self.stack@[last as int]@);
        match &self.stack[last] {
            Frame::While(_) => {},
            Frame::For(_, _, _, _) => {},
            _ => {
                return Progress::Failed(ScriptError::Unexpected);
            },
        }
        match self.pop_frame() {
            Frame::While(start) => {
                self.pc = start;
                Progress::Running
            },
            Frame::For(name, values, next, body) => {
                if next < values.len() {
                    assert(values.deep_view()[next as int] == values@[next as int]@);
                    let value = values[next].clone();
                    self.env.set_env(name.clone(), Some(value));
                    self.push_frame(Frame::For(name, values, next + 1, body));
                    self.pc = body;
                } else {
                    self.pc = self.pc + 1;
                }
                Progress::Running
            },
            _ => Progress::Failed(ScriptError::Unexpected),
        }
    }

    /// `for`.
    fn for_start(&mut self) -> (r: Progress)
        requires
            old(self).pc < old(self).tokens.len(),
        ensures
            final(self)@ == crate::machine::for_start(old(self)@).0,
            progress_stands_for(r, crate::machine::for_start(old(self)@).1),
    {
        let end = end_of_statement(&self.tokens, self.pc);
        let at = skip_separators(&self.tokens, end);
        if end - self.pc < 3 || !is_keyword(&self.tokens, self.pc + 2, Keyword::In) || !is_keyword(
            &self.tokens,
            at,
            Keyword::Do,
        ) {
            return Progress::Failed(ScriptError::Incomplete);
        }
        let mut names = self.words(self.pc + 1, self.pc + 2);
        let values = self.words(self.pc + 3, end);
        proof {
            let m = self@;
            let a = call_args(m.stack);
            assert(crate::script::expanded_words(m.env, a, m.tokens, m.pc + 1, m.pc + 2).len()
                == 1) by {
                assert(crate::script::expanded_words(m.env, a, m.tokens, m.pc + 1, m.pc + 1)
                    =~= Seq::<Seq<char>>::empty());
            }
        }
        assert(names.deep_view()[0] == names@[0]@);
        let name = names.swap_remove(0);
        if values.len() == 0 {
            let d = find_block_end(&self.tokens, at + 1, Stop::Done);
            if d < self.tokens.len() {
                self.pc = d + 1;
                Progress::Running
            } else {
                Progress::Failed(ScriptError::Incomplete)
            }
        } else {
            assert(values.deep_view()[0] == values@[0]@);
            let first = values[0].clone();
            self.env.set_env(name.clone(), Some(first));
            self.push_frame(Frame::For(name, values, 1, at + 1));
            self.pc = at + 1;
            Progress::Running
        }
    }

    /// `function`.
    fn function_start(&mut self) -> (r: Progress)
        requires
            old(self).pc < old(self).tokens.len(),
        ensures
            final(self)@ == crate::machine::function_start(old(self)@).0,
            progress_stands_for(r, crate::machine::function_start(old(self)@).1),
    {
        let end = end_of_statement(&self.tokens, self.pc);
        if end - self.pc != 2 || end >= self.tokens.len() {
            return Progress::Failed(ScriptError::Incomplete);
        }
        match &self.tokens[end].token {
            Token::Open => {},
            _ => {
                return Progress::Failed(ScriptError::Incomplete);
            },
        }
        let close = find_block_end(&self.tokens, end + 1, Stop::Close);
        if close >= self.tokens.len() {
            return Progress::Failed(ScriptError::Incomplete);
        }
        let mut names = self.words(self.pc + 1, self.pc + 2);
        proof {
            let m = self@;
            let a = call_args(m.stack);
            assert(crate::script::expanded_words(m.env, a, m.tokens, m.pc + 1, m.pc + 2).len()
                == 1) by {
                assert(crate::script::expanded_words(m.env, a, m.tokens, m.pc + 1, m.pc + 1)
                    =~= Seq::<Seq<char>>::empty());
            }
        }
        assert(names.deep_view()[0] == names@[0]@);
        let name = names.swap_remove(0);
        let function = Function { name, start: end + 1, end: close };
        let ghost before = functions_view(self.functions@);
        self.functions.push(function);
        proof {
            assert(functions_view(self.functions@) =~= before.push(function@));
        }
        self.pc = close + 1;
        Progress::Running
    }

    /// `menuentry`.
    fn entry_start(&mut self) -> (r: Progress)
        requires
            old(self).pc < old(self).tokens.len(),
        ensures
            final(self)@ == crate::machine::entry_start(old(self)@).0,
            progress_stands_for(r, crate::machine::entry_start(old(self)@).1),
    {
        let end = end_of_statement(&self.tokens, self.pc);
        if end >= self.tokens.len() {
            return Progress::Failed(ScriptError::Incomplete);
        }
        match &self.tokens[end].token {
            Token::Open => {},
            _ => {
                return Progress::Failed(ScriptError::Incomplete);
            },
        }
        let close = find_block_end(&self.tokens, end + 1, Stop::Close);
        if close >= self.tokens.len() {
            return Progress::Failed(ScriptError::Incomplete);
        }
        let from = self.tokens[end].end;
        let to = self.tokens[close].start;
        if !(from <= to && to <= self.text.len()) {
            return Progress::Failed(ScriptError::Incomplete);
        }
        let header = self.words(self.pc + 1, end);
        let body = string_of(&self.text, from, to);
        let entry = entry_from(&header, Some(body), false);
        self.add_entry(entry);
        self.pc = close + 1;
        Progress::Running
    }

    /// `submenu`.
    fn submenu_start(&mut self) -> (r: Progress)
        requires
            old(self).pc < old(self).tokens.len(),
        ensures
            final(self)@ == crate::machine::submenu_start(old(self)@).0,
            progress_stands_for(r, crate::machine::submenu_start(old(self)@).1),
    {
        let end = end_of_statement(&self.tokens, self.pc);
        if end >= self.tokens.len() {
            return Progress::Failed(ScriptError::Incomplete);
        }
        match &self.tokens[end].token {
            Token::Open => {},
            _ => {
                return Progress::Failed(ScriptError::Incomplete);
            },
        }
        if self.submenu.is_some() {
            self.push_frame(Frame::Nested);
            self.pc = end + 1;
            return Progress::Running;
        }
        let header = self.words(self.pc + 1, end);
        let entry = entry_from(&header, None, true);
        proof {
            assert(items_shape(entry.menuentries->Some_0@)
                =~= Seq::<ItemShape>::empty());
        }
        self.submenu = Some(entry);
        self.push_frame(Frame::SubMenu);
        self.pc = end + 1;
        Progress::Running
    }

    /// `}`.
    fn block_close(&mut self) -> (r: Progress)
        requires
            old(self).pc < old(self).tokens.len(),
        ensures
            final(self)@ == crate::machine::block_close(old(self)@).0,
            progress_stands_for(r, crate::machine::block_close(old(self)@).1),
    {
        if self.stack.len() == 0 {
            return Progress::Failed(ScriptError::Unexpected);
        }
        let last = self.stack.len() - 1;
        assert(stack_view(self.stack@).last() == self.stack@[last as int]@);
        let nested = match &self.stack[last] {
            Frame::Nested => true,
            Frame::SubMenu => false,
            _ => {
                return Progress::Failed(ScriptError::Unexpected);
            },
        };
        if nested {
            self.pop_frame();
            self.pc = self.pc + 1;
            return Progress::Running;
        }
        if self.submenu.is_none() {
            return Progress::Failed(ScriptError::Unexpected);
        }
        let mut sub: Option<GrubEntry> = None;
        core::mem::swap(&mut sub, &mut self.submenu);
        match sub {
            Some(held) => {
                let ghost before = menu_shape(self.menu@);
                self.menu.push(held);
                proof {
                    assert(menu_shape(self.menu@) =~= before.push(entry_shape(held)));
                }
            },
            None => {},
        }
        self.pop_frame();
        self.pc = self.pc + 1;
        Progress::Running
    }

    /// The statement that the word at the index of the evaluator starts.
    fn statement(&mut self) -> (r: Progress)
        requires
            old(self).pc < old(self).tokens.len(),
            lexemes_view(old(self).tokens@)[old(self).pc as int].token is Word,
        ensures
            final(self)@ == crate::machine::statement(old(self)@).0,
            progress_stands_for(r, crate::machine::statement(old(self)@).1),
    {
        let end = end_of_statement(&self.tokens, self.pc);
        match keyword(&self.tokens[self.pc].token) {
            None => self.plain(),
            Some(Keyword::If) => {
                let given = self.words(self.pc + 1, end);
                self.command(given, After::If, end)
            },
            Some(Keyword::While) => {
                let given = self.words(self.pc + 1, end);
                let start = self.pc;
                self.command(given, After::While(start), end)
            },
            Some(Keyword::Elif) => self.branch_end(Keyword::Elif),
            Some(Keyword::Else) => self.branch_end(Keyword::Else),
            Some(Keyword::Fi) => self.branch_end(Keyword::Fi),
            Some(Keyword::Done) => self.loop_end(),
            Some(Keyword::For) => self.for_start(),
            Some(Keyword::Function) => self.function_start(),
            Some(Keyword::MenuEntry) => self.entry_start(),
            Some(Keyword::SubMenu) => self.submenu_start(),
            Some(Keyword::Then) => Progress::Failed(ScriptError::Unexpected),
            Some(Keyword::In) => Progress::Failed(ScriptError::Unexpected),
            Some(Keyword::Do) => Progress::Failed(ScriptError::Unexpected),
        }
    }

    /// Runs one step of the script.
    ///
    /// A separator is passed over, a statement is run, a block is entered
    /// or left. A command that needs the system stops the evaluator: the
    /// step says what the command asks for, and the evaluator goes on when
    /// the answer is handed to [`Self::answer`].
    pub fn step(&mut self) -> (r: Progress)
        ensures
            final(self)@ == crate::machine::step(old(self)@).0,
            progress_stands_for(r, crate::machine::step(old(self)@).1),
    {
        if self.waiting.is_some() {
            return Progress::Failed(ScriptError::Waiting);
        }
        if self.stack.len() > 0 {
            let last = self.stack.len() - 1;
            assert(stack_view(self.stack@).last() == self.stack@[last as int]@);
            let back = match &self.stack[last] {
                Frame::Call(back, end, _) => if self.pc == *end {
                    Some(*back)
                } else {
                    None
                },
                _ => None,
            };
            match back {
                Some(pc) => {
                    self.pop_frame();
                    self.pc = pc;
                    return Progress::Running;
                },
                None => {},
            }
        }
        if self.pc >= self.tokens.len() {
            return if self.stack.len() == 0 && self.submenu.is_none() {
                Progress::Finished
            } else {
                Progress::Failed(ScriptError::Incomplete)
            };
        }
        let kind: u8 = match &self.tokens[self.pc].token {
            Token::Separator => 0,
            Token::Open => 1,
            Token::Close => 2,
            Token::Word(_) => 3,
        };
        if kind == 0 {
            self.pc = self.pc + 1;
            Progress::Running
        } else if kind == 1 {
            Progress::Failed(ScriptError::Unexpected)
        } else if kind == 2 {
            self.block_close()
        } else {
            self.statement()
        }
    }

    /// Runs the script until it ends, fails or needs the system, but for at
    /// most `fuel` steps. Returns `Running` if the steps are used up.
    pub fn run(&mut self, fuel: u64) -> (r: Progress)
        ensures
            final(self)@ == crate::machine::ran(old(self)@, fuel as nat).0,
            progress_stands_for(r, crate::machine::ran(old(self)@, fuel as nat).1),
            final(self)@.tokens == old(self)@.tokens,
            final(self)@.text == old(self)@.text,
    {
        let mut left = fuel;
        while left > 0
            invariant
                self@.tokens == old(self)@.tokens,
                self@.text == old(self)@.text,
                crate::machine::ran(old(self)@, fuel as nat) == crate::machine::ran(
                    self@,
                    left as nat,
                ),
            decreases left,
        {
            proof {
                lemma_step_keeps_script(self@);
            }
            match self.step() {
                Progress::Running => {},
                other => {
                    return other;
                },
            }
            left -= 1;
        }
        Progress::Running
    }

    /// Hands the result of the command that the evaluator waits for back,
    /// with the variables that the command has left, and goes on. The exit
    /// code that stands for the result is stored in `?`.
    pub fn answer(
        &mut self,
        env: TinybootGrubEnvironment,
        result: &Result<(), GrubEnvironmentError>,
    ) -> (r: Progress)
        ensures
            ({
                let code = crate::error::exit_code_of(*result);
                let left = env@.insert("?"@, crate::commands::code_text(code));
                final(self)@ == answered(old(self)@, left, code).0 && progress_stands_for(
                    r,
                    answered(old(self)@, left, code).1,
                )
            }),
    {
        match self.waiting {
            None => Progress::Failed(ScriptError::NotWaiting),
            Some((after, end)) => {
                if end > self.tokens.len() {
                    return self.answer_far(env, result, after, end);
                }
                self.waiting = None;
                self.env = env;
                self.end_command(result, after, end)
            },
        }
    }

    /// The same for a statement that ends behind the tokens, which no step
    /// leaves behind.
    fn answer_far(
        &mut self,
        env: TinybootGrubEnvironment,
        result: &Result<(), GrubEnvironmentError>,
        after: After,
        end: usize,
    ) -> (r: Progress)
        requires
            old(self).waiting == Some((after, end)),
            end > old(self).tokens.len(),
        ensures
            ({
                let code = crate::error::exit_code_of(*result);
                let left = env@.insert("?"@, crate::commands::code_text(code));
                final(self)@ == answered(old(self)@, left, code).0 && progress_stands_for(
                    r,
                    answered(old(self)@, left, code).1,
                )
            }),
    {
        self.waiting = None;
        self.env = env;
        let code = self.env.complete(result);
        match after {
            After::Statement => {
                self.pc = end;
                Progress::Running
            },
            _ => Progress::Failed(ScriptError::Incomplete),
        }
    }

    /// The evaluator of the script of an entry, started on a copy of the
    /// given variables.
    pub fn for_entry(entry: &GrubEntry, env: &TinybootGrubEnvironment) -> (r: Result<
        GrubEvaluator,
        crate::bootloader::BootLoaderError,
    >)
        ensures
            crate::bootloader::entry_evaluator(item_shape(*entry), env@, r),
    {
        match &entry.consequence {
            None => Err(crate::bootloader::BootLoaderError::BootEntryNotFound),
            Some(script) => match GrubEvaluator::new_from_source(script.as_str(), env.duplicate()) {
                Ok(evaluator) => Ok(evaluator),
                Err(_) => Err(
                    crate::bootloader::BootLoaderError::Evaluation(
                        crate::bootloader::UNTERMINATED.to_string(),
                    ),
                ),
            },
        }
    }

    /// The evaluator of the script of an entry. It runs against a copy of
    /// the variables, so that what the entry does is not seen by others.
    pub fn eval_boot_entry(&self, entry: &GrubEntry) -> (r: Result<
        GrubEvaluator,
        crate::bootloader::BootLoaderError,
    >)
        ensures
            crate::bootloader::entry_evaluator(item_shape(*entry), self@.env, r),
    {
        GrubEvaluator::for_entry(entry, &self.env)
    }
}

/// Reading a script is deterministic: read twice, with equal variables, one
/// text gives two evaluators in the same state, or fails twice in the same
/// way.
pub proof fn lemma_reading_is_deterministic(
    source: Seq<char>,
    env: Map<Seq<char>, Seq<char>>,
    first: Result<GrubEvaluator, LexError>,
    second: Result<GrubEvaluator, LexError>,
)
    requires
        evaluator_of(source, env, first),
        evaluator_of(source, env, second),
    ensures
        match first {
            Ok(a) => second matches Ok(b) && a@ == b@,
            Err(e) => second matches Err(f) && e == f,
        },
{
}

/// Running a script is deterministic: two evaluators in the same state
/// that run for the same number of steps are in the same state afterwards,
/// with the same menu and the same variables, and have come to the same.
pub proof fn lemma_running_is_deterministic(
    first: GrubEvaluator,
    second: GrubEvaluator,
    fuel: nat,
    first_after: GrubEvaluator,
    first_came_to: Progress,
    second_after: GrubEvaluator,
    second_came_to: Progress,
)
    requires
        first@ == second@,
        first_after@ == crate::machine::ran(first@, fuel).0,
        progress_stands_for(first_came_to, crate::machine::ran(first@, fuel).1),
        second_after@ == crate::machine::ran(second@, fuel).0,
        progress_stands_for(second_came_to, crate::machine::ran(second@, fuel).1),
    ensures
        first_after@ == second_after@,
        first_after@.menu == second_after@.menu,
        first_after@.env == second_after@.env,
        same_progress(first_came_to, second_came_to),
{
}

/// Answering is deterministic: two evaluators in the same state that wait
/// for a command and are handed the same variables and the same exit code
/// are in the same state afterwards and have come to the same.
pub proof fn lemma_answering_is_deterministic(
    first: GrubEvaluator,
    second: GrubEvaluator,
    env: Map<Seq<char>, Seq<char>>,
    code: u8,
    first_after: GrubEvaluator,
    first_came_to: Progress,
    second_after: GrubEvaluator,
    second_came_to: Progress,
)
    requires
        first@ == second@,
        first_after@ == answered(first@, env, code).0,
        progress_stands_for(first_came_to, answered(first@, env, code).1),
        second_after@ == answered(second@, env, code).0,
        progress_stands_for(second_came_to, answered(second@, env, code).1),
    ensures
        first_after@ == second_after@,
        same_progress(first_came_to, second_came_to),
{
}

/// A step changes neither the tokens nor the text of the script.
pub proof fn lemma_step_keeps_script(m: Machine)
    ensures
        crate::machine::step(m).0.tokens == m.tokens,
        crate::machine::step(m).0.text == m.text,
{
}

} // verus!
