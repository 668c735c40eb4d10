use tinyboot::bootloader::{BootInfo, BootLoaderError, GrubBootLoader};
use tinyboot::commands::CommandStep;
use tinyboot::device::{FsType, ProbedDevice};
use tinyboot::envblock::grub_environment_block as build_block;
use tinyboot::environment::TinybootGrubEnvironment;
use tinyboot::error::GrubEnvironmentError;
use tinyboot::evaluator::{GrubEvaluator, Progress};
use tinyboot::lexer::{tokenize, LexError, Lexeme, Piece, Token};
use tinyboot::machine::ScriptError;
use tinyboot::menu::{flatten_entries, GrubEntry, MenuEntry};
use tinyboot::predicate::FileStatus;
use tinyboot::script::{expand, lookup};

fn s(text: &str) -> String {
    text.to_string()
}

fn lit(text: &str) -> Vec<Piece> {
    text.chars().map(Piece::Lit).collect()
}

fn kinds(source: &str) -> Vec<Token> {
    tokenize(source).unwrap().into_iter().map(|l| l.token).collect()
}

/// What the system holds in a test: files, the devices and the mount table.
struct System {
    files: Vec<(String, Result<String, String>)>,
    devices: Vec<ProbedDevice>,
    mounts: String,
    written: Vec<(String, String)>,
    mounted: Vec<String>,
}

impl System {
    fn new() -> System {
        System {
            files: vec![],
            devices: vec![],
            mounts: String::new(),
            written: vec![],
            mounted: vec![],
        }
    }

    fn read(&self, path: &str) -> Result<String, String> {
        self.files
            .iter()
            .find(|(p, _)| p == path)
            .map(|(_, c)| c.clone())
            .unwrap_or(Err(s("No such file or directory")))
    }

    fn status(&self, path: &str) -> Result<FileStatus, String> {
        Ok(match self.read(path) {
            Ok(contents) => FileStatus {
                exists: true,
                directory: false,
                size: contents.len() as u64,
                modified: 1,
            },
            Err(_) => FileStatus {
                exists: false,
                directory: false,
                size: 0,
                modified: 0,
            },
        })
    }

    fn devices(&self) -> Vec<ProbedDevice> {
        self.devices
            .iter()
            .map(|d| ProbedDevice {
                path: d.path.clone(),
                fs_type: match &d.fs_type {
                    Some(FsType::Ext4(a, b)) => Some(FsType::Ext4(a.clone(), b.clone())),
                    Some(FsType::Fat32(a, b, c)) => {
                        Some(FsType::Fat32(a.clone(), b.clone(), c.clone()))
                    }
                    Some(FsType::Fat16(a, b, c)) => {
                        Some(FsType::Fat16(a.clone(), b.clone(), c.clone()))
                    }
                    None => None,
                },
            })
            .collect()
    }
}

/// Runs an evaluator to its end, answering for the system.
fn run(ev: &mut GrubEvaluator, system: &mut System) -> Progress {
    let mut steps = 0;
    loop {
        steps += 1;
        assert!(steps < 100_000, "the script does not end");
        match ev.step() {
            Progress::Running => {}
            Progress::Pending(CommandStep::Stat(paths), args) => {
                let files: Vec<Result<FileStatus, String>> =
                    paths.iter().map(|p| system.status(p)).collect();
                let result = ev.env().run_test(args, &files);
                let env = ev.env().duplicate();
                assert_eq!(ev.answer(env, &result), Progress::Running);
            }
            Progress::Pending(CommandStep::Load(path), args) => {
                let mut env = ev.env().duplicate();
                let result = env.run_load_env(args, system.read(&path));
                assert_eq!(ev.answer(env, &result), Progress::Running);
            }
            Progress::Pending(CommandStep::Save(path), args) => {
                let env = ev.env().duplicate();
                let result = match env.run_save_env(args, system.read(&path)) {
                    Ok(block) => {
                        system.written.push((path, block));
                        Ok(())
                    }
                    Err(e) => Err(e),
                };
                assert_eq!(ev.answer(env, &result), Progress::Running);
            }
            Progress::Pending(CommandStep::Search, args) => {
                let mut env = ev.env().duplicate();
                let plan = TinybootGrubEnvironment::search_plan(
                    args,
                    Ok(system.devices()),
                    Ok(system.mounts.clone()),
                );
                let result = match plan {
                    Ok(plan) => {
                        if let Some(request) = &plan.mount {
                            system.mounted.push(request.target.clone());
                        }
                        env.run_search(plan, Ok(()))
                    }
                    Err(e) => Err(e),
                };
                assert_eq!(ev.answer(env, &result), Progress::Running);
            }
            other => return other,
        }
    }
}

fn evaluate(source: &str, system: &mut System) -> (Progress, GrubEvaluator) {
    let env = GrubBootLoader::environment("/mnt/dev-sda1", 0);
    let mut ev = GrubEvaluator::new_from_source(source, env).unwrap();
    let progress = run(&mut ev, system);
    (progress, ev)
}

fn variable(ev: &GrubEvaluator, name: &str) -> Option<String> {
    ev.env().get_env(name).cloned()
}

#[test]
fn lexer_words_and_separators() {
    assert_eq!(
        tokenize("set  a=b;c\n"),
        Ok(vec![
            Lexeme { token: Token::Word(lit("set")), start: 0, end: 3 },
            Lexeme { token: Token::Word(lit("a=b")), start: 5, end: 8 },
            Lexeme { token: Token::Separator, start: 8, end: 9 },
            Lexeme { token: Token::Word(lit("c")), start: 9, end: 10 },
            Lexeme { token: Token::Separator, start: 10, end: 11 },
        ])
    );
    assert_eq!(kinds(""), vec![]);
    assert_eq!(kinds("  \t \r"), vec![]);
    assert_eq!(
        kinds("a { b }"),
        vec![
            Token::Word(lit("a")),
            Token::Open,
            Token::Word(lit("b")),
            Token::Close,
        ]
    );
    assert_eq!(
        kinds("a # comment ; {\nb"),
        vec![Token::Word(lit("a")), Token::Separator, Token::Word(lit("b"))]
    );
    assert_eq!(kinds("a#b"), vec![Token::Word(lit("a#b"))]);
    assert_eq!(
        kinds("a \\\n b\\\nc"),
        vec![Token::Word(lit("a")), Token::Word(lit("bc"))]
    );
}

#[test]
fn lexer_quotes_and_escapes() {
    assert_eq!(kinds("'a b' \"c d\""), vec![Token::Word(lit("a b")), Token::Word(lit("c d"))]);
    assert_eq!(kinds("''"), vec![Token::Word(vec![])]);
    assert_eq!(kinds("a''\"\"b"), vec![Token::Word(lit("ab"))]);
    assert_eq!(kinds("'$a\\n'"), vec![Token::Word(lit("$a\\n"))]);
    assert_eq!(kinds("\"\\$a \\\" \\\\ \\n\""), vec![Token::Word(lit("$a \" \\ \\n"))]);
    assert_eq!(kinds("a\\ b \\$c \\;"), vec![
        Token::Word(lit("a b")),
        Token::Word(lit("$c")),
        Token::Word(lit(";")),
    ]);
    assert_eq!(kinds("a;'b;c'"), vec![
        Token::Word(lit("a")),
        Token::Separator,
        Token::Word(lit("b;c")),
    ]);
    assert_eq!(tokenize("'open"), Err(LexError::Unterminated));
    assert_eq!(tokenize("a \"open"), Err(LexError::Unterminated));
    assert_eq!(tokenize("\"open\\"), Err(LexError::Unterminated));
    assert_eq!(tokenize("${open"), Err(LexError::Unterminated));
    assert_eq!(kinds("trailing\\"), vec![Token::Word(lit("trailing"))]);
}

#[test]
fn lexer_variables() {
    let var = |name: &str| Piece::Var(s(name));
    assert_eq!(kinds("$a"), vec![Token::Word(vec![var("a")])]);
    assert_eq!(
        kinds("x${a_1}y$b-c"),
        vec![Token::Word(vec![
            Piece::Lit('x'),
            var("a_1"),
            Piece::Lit('y'),
            var("b"),
            Piece::Lit('-'),
            Piece::Lit('c'),
        ])]
    );
    assert_eq!(
        kinds("\"$a b\" $? $12a $"),
        vec![
            Token::Word(vec![var("a"), Piece::Lit(' '), Piece::Lit('b')]),
            Token::Word(vec![var("?")]),
            Token::Word(vec![var("12"), Piece::Lit('a')]),
            Token::Word(lit("$")),
        ]
    );
    assert_eq!(kinds("$-"), vec![Token::Word(lit("$-"))]);
    assert_eq!(kinds("${}"), vec![Token::Word(vec![var("")])]);
}

#[test]
fn words_are_expanded() {
    let mut env = TinybootGrubEnvironment::new("/boot/grub");
    env.set_env(s("root"), Some(s("hd0")));
    let args = vec![s("first"), s("second")];
    assert_eq!(lookup(&env, &args, "root"), s("hd0"));
    assert_eq!(lookup(&env, &args, "missing"), s(""));
    assert_eq!(lookup(&env, &args, "1"), s("first"));
    assert_eq!(lookup(&env, &args, "02"), s("second"));
    assert_eq!(lookup(&env, &args, "3"), s(""));
    assert_eq!(lookup(&env, &args, "0"), s(""));
    assert_eq!(lookup(&env, &args, "99999999999999999999999999"), s(""));
    assert_eq!(lookup(&env, &args, "?"), s("0"));
    let word = match kinds("($root)/$1-${missing}x").pop().unwrap() {
        Token::Word(pieces) => pieces,
        other => panic!("{:?}", other),
    };
    assert_eq!(expand(&env, &args, &word), s("(hd0)/first-x"));
}

const CONFIG: &str = r#"# generated
set default="0"
timeout=3
if [ -s $prefix/grubenv ]; then
  load_env
fi
function load_video {
  insmod all_video
  set video=$1
}
load_video efi
menuentry 'NixOS' --class nixos --id 'nixos-default' {
  load_video
  search --set=drive1 --fs-uuid BB22-99EC
  linux ($drive1)/kernels/bzImage init=/nix/store/init loglevel=4
  initrd ($drive1)/kernels/initrd
}
submenu "Advanced options" --id advanced {
  menuentry "Old generation" {
    linux /old root=$root
  }
  submenu nested { menuentry deep { linux /deep; } }
}
menuentry plain { true }
"#;

fn sample_system() -> System {
    let mut system = System::new();
    system.files.push((
        s("/mnt/dev-sda1/boot/grub/grubenv"),
        Ok(build_block(vec![(s("saved_entry"), s("nixos-default")), (s("root"), s("hd1"))]).unwrap()),
    ));
    system.devices.push(ProbedDevice {
        path: s("/dev/sdb1"),
        fs_type: Some(FsType::Fat32(s("mkfs.fat"), s("BB22-99EC"), s("ESP"))),
    });
    system
}

#[test]
fn configuration_is_evaluated() {
    let mut system = sample_system();
    let (progress, ev) = evaluate(CONFIG, &mut system);
    assert_eq!(progress, Progress::Finished);
    assert_eq!(variable(&ev, "default"), Some(s("0")));
    assert_eq!(variable(&ev, "timeout"), Some(s("3")));
    assert_eq!(variable(&ev, "saved_entry"), Some(s("nixos-default")));
    assert_eq!(variable(&ev, "root"), Some(s("hd1")));
    assert_eq!(variable(&ev, "video"), Some(s("efi")));
    assert_eq!(variable(&ev, "linux"), None);
    assert_eq!(variable(&ev, "?"), Some(s("0")));
    let menu = ev.menu();
    assert_eq!(menu.len(), 3);
    assert_eq!(menu[0].id, Some(s("nixos-default")));
    assert_eq!(menu[0].title, s("NixOS"));
    assert!(menu[0].menuentries.is_none());
    assert_eq!(
        menu[0].consequence,
        Some(s("\n  load_video\n  search --set=drive1 --fs-uuid BB22-99EC\n  linux ($drive1)/kernels/bzImage init=/nix/store/init loglevel=4\n  initrd ($drive1)/kernels/initrd\n"))
    );
    assert_eq!(menu[1].id, Some(s("advanced")));
    assert_eq!(menu[1].title, s("Advanced options"));
    assert_eq!(menu[1].consequence, None);
    let under = menu[1].menuentries.as_ref().unwrap();
    assert_eq!(under.len(), 2);
    assert_eq!(under[0].title, s("Old generation"));
    assert_eq!(under[0].id, None);
    assert_eq!(under[1].title, s("deep"));
    assert_eq!(under[1].consequence, Some(s(" linux /deep; ")));
    assert_eq!(menu[2].title, s("plain"));
    assert!(system.mounted.is_empty());
}

#[test]
fn boot_entry_is_evaluated_on_a_copy() {
    let mut system = sample_system();
    let (progress, ev) = evaluate(CONFIG, &mut system);
    assert_eq!(progress, Progress::Finished);
    let info = |ev: &GrubEvaluator, entry: &GrubEntry, system: &mut System| {
        let mut sub = ev.eval_boot_entry(entry).unwrap();
        assert_eq!(run(&mut sub, system), Progress::Finished);
        GrubBootLoader::boot_info(sub.env())
    };
    let expected = Ok(BootInfo {
        linux: s("/mnt/dev-sdb1/kernels/bzImage"),
        initrd: Some(s("/mnt/dev-sdb1/kernels/initrd")),
        cmdline: s("init=/nix/store/init loglevel=4"),
    });
    assert_eq!(info(&ev, &ev.menu()[0], &mut system), expected);
    assert_eq!(system.mounted, vec![s("/mnt/dev-sdb1")]);
    assert_eq!(variable(&ev, "linux"), None);
    assert_eq!(variable(&ev, "drive1"), None);
    assert_eq!(info(&ev, &ev.menu()[0], &mut system), expected);
    let under = ev.menu()[1].menuentries.as_ref().unwrap();
    assert_eq!(
        info(&ev, &under[0], &mut system),
        Ok(BootInfo {
            linux: s("/old"),
            initrd: None,
            cmdline: s("root=hd1"),
        })
    );
    assert_eq!(
        info(&ev, &ev.menu()[2], &mut system),
        Err(BootLoaderError::BootEntryIncomplete)
    );
    assert!(matches!(
        ev.eval_boot_entry(&ev.menu()[1]),
        Err(BootLoaderError::BootEntryNotFound)
    ));
}

#[test]
fn evaluated_configuration_makes_a_boot_loader() {
    let mut system = sample_system();
    let (progress, ev) = evaluate(CONFIG, &mut system);
    assert_eq!(progress, Progress::Finished);
    let (menu, env) = ev.into_parts();
    let loader = GrubBootLoader::new("/mnt/dev-sda1", menu, env);
    assert_eq!(loader.timeout(), 3);
    let shown = loader.menu_entries().unwrap();
    assert_eq!(
        shown,
        vec![
            MenuEntry::BootEntry((s("nixos-default"), s("NixOS"))),
            MenuEntry::SubMenu((
                s("advanced"),
                s("Advanced options"),
                vec![(s("Old generation"), s("Old generation")), (s("deep"), s("deep"))]
            )),
            MenuEntry::BootEntry((s("plain"), s("plain"))),
        ]
    );
    assert_eq!(flatten_entries(shown).len(), 4);
    assert_eq!(loader.boot_entry(None).unwrap().title, s("NixOS"));
    assert_eq!(loader.boot_entry(Some(s("deep"))).unwrap().title, s("deep"));
}

#[test]
fn conditions_choose_the_branch() {
    let script = |value: &str| {
        format!(
            "x={}\nif [ $x = a ]; then r=first\nelif [ $x = b ]; then r=second\nelif false; then r=never\nelse r=last; fi\nafter=yes",
            value
        )
    };
    for (value, expected) in [("a", "first"), ("b", "second"), ("c", "last")] {
        let (progress, ev) = evaluate(&script(value), &mut System::new());
        assert_eq!(progress, Progress::Finished, "{}", value);
        assert_eq!(variable(&ev, "r"), Some(s(expected)));
        assert_eq!(variable(&ev, "after"), Some(s("yes")));
    }
    let nested = "if true; then if false; then r=1; else r=2; fi; s=3; fi; if false; then if true; then r=4; fi; else t=5; fi";
    let (progress, ev) = evaluate(nested, &mut System::new());
    assert_eq!(progress, Progress::Finished);
    assert_eq!(variable(&ev, "r"), Some(s("2")));
    assert_eq!(variable(&ev, "s"), Some(s("3")));
    assert_eq!(variable(&ev, "t"), Some(s("5")));
    let (progress, ev) = evaluate("if false; then r=1; fi\nq=$?", &mut System::new());
    assert_eq!(progress, Progress::Finished);
    assert_eq!(variable(&ev, "r"), None);
    assert_eq!(variable(&ev, "q"), Some(s("1")));
}

#[test]
fn loops_run_their_bodies() {
    let (progress, ev) = evaluate(
        "all=\nfor x in a \"b c\" $missing d; do all=\"$all<$x>\"; done\nlast=$x",
        &mut System::new(),
    );
    assert_eq!(progress, Progress::Finished);
    assert_eq!(variable(&ev, "all"), Some(s("<a><b c><><d>")));
    assert_eq!(variable(&ev, "last"), Some(s("d")));
    let (progress, ev) = evaluate("for x in ; do r=1; done; s=2", &mut System::new());
    assert_eq!(progress, Progress::Finished);
    assert_eq!(variable(&ev, "r"), None);
    assert_eq!(variable(&ev, "s"), Some(s("2")));
    let (progress, ev) = evaluate(
        "n=x\nwhile [ $n != xxxx ]; do n=\"x$n\"; if [ $n = xxx ]; then seen=yes; fi; done\nend=$n",
        &mut System::new(),
    );
    assert_eq!(progress, Progress::Finished);
    assert_eq!(variable(&ev, "end"), Some(s("xxxx")));
    assert_eq!(variable(&ev, "seen"), Some(s("yes")));
    let env = TinybootGrubEnvironment::new("/");
    let mut forever = GrubEvaluator::new_from_source("while true; do a=b; done", env).unwrap();
    assert_eq!(forever.run(1000), Progress::Running);
}

#[test]
fn functions_take_arguments() {
    let (progress, ev) = evaluate(
        "function greet { out=\"$1-$2-$3\"; inner $2; }\nfunction inner { deep=$1; }\ngreet a b\nthen=$1",
        &mut System::new(),
    );
    assert_eq!(progress, Progress::Finished);
    assert_eq!(variable(&ev, "out"), Some(s("a-b-")));
    assert_eq!(variable(&ev, "deep"), Some(s("b")));
    assert_eq!(variable(&ev, "then"), Some(s("")));
    let (progress, ev) = evaluate(
        "function f { v=1; }\nfunction f { v=2; }\nf",
        &mut System::new(),
    );
    assert_eq!(progress, Progress::Finished);
    assert_eq!(variable(&ev, "v"), Some(s("2")));
}

#[test]
fn exit_codes_are_kept() {
    let codes = |source: &str| {
        let (progress, ev) = evaluate(source, &mut System::new());
        assert_eq!(progress, Progress::Finished, "{}", source);
        variable(&ev, "?").unwrap()
    };
    assert_eq!(codes(""), "0");
    assert_eq!(codes("true"), "0");
    assert_eq!(codes("false"), "1");
    assert_eq!(codes("unknown_command with args"), "0");
    assert_eq!(codes("test a = b"), "1");
    assert_eq!(codes("[ a = a ]"), "0");
    assert_eq!(codes("[ a = a"), "2");
    assert_eq!(codes("test"), "2");
    assert_eq!(codes("set novalue"), "2");
    assert_eq!(codes("load_env"), "2");
    assert_eq!(codes("false; true"), "0");
    assert_eq!(codes("true; false"), "1");
    assert_eq!(codes("if false; then a=b; fi"), "1");
}

#[test]
fn false_does_not_succeed() {
    let (progress, ev) = evaluate("if false; then r=then; else r=else; fi", &mut System::new());
    assert_eq!(progress, Progress::Finished);
    assert_eq!(variable(&ev, "r"), Some(s("else")));
    let (progress, ev) = evaluate("r=0; while false; do r=1; done", &mut System::new());
    assert_eq!(progress, Progress::Finished);
    assert_eq!(variable(&ev, "r"), Some(s("0")));
}

#[test]
fn evaluation_is_deterministic() {
    let once = || {
        let mut system = sample_system();
        let (progress, ev) = evaluate(CONFIG, &mut system);
        assert_eq!(progress, Progress::Finished);
        let (menu, env) = ev.into_parts();
        let loader = GrubBootLoader::new("/mnt/dev-sda1", menu, env);
        let infos: Vec<Result<BootInfo, BootLoaderError>> = loader
            .boot_choices()
            .into_iter()
            .map(|entry| {
                let mut sub = loader.eval_boot_entry(entry)?;
                match run(&mut sub, &mut system) {
                    Progress::Finished => GrubBootLoader::boot_info(sub.env()),
                    other => Err(BootLoaderError::Evaluation(format!("{:?}", other))),
                }
            })
            .collect();
        (loader.menu_entries(), loader.timeout(), loader.default_choice(), infos)
    };
    let first = once();
    assert_eq!(first.3.len(), 4);
    assert!(first.3[0].is_ok());
    assert_eq!(first.3[3], Err(BootLoaderError::BootEntryIncomplete));
    assert_eq!(first, once());
}

#[test]
fn malformed_scripts_fail() {
    let fails = |source: &str| evaluate(source, &mut System::new()).0;
    assert_eq!(fails("fi"), Progress::Failed(ScriptError::Unexpected));
    assert_eq!(fails("else"), Progress::Failed(ScriptError::Unexpected));
    assert_eq!(fails("done"), Progress::Failed(ScriptError::Unexpected));
    assert_eq!(fails("then"), Progress::Failed(ScriptError::Unexpected));
    assert_eq!(fails("}"), Progress::Failed(ScriptError::Unexpected));
    assert_eq!(fails("{"), Progress::Failed(ScriptError::Unexpected));
    assert_eq!(fails("if true; echo"), Progress::Failed(ScriptError::Incomplete));
    assert_eq!(fails("if true; then a=b"), Progress::Failed(ScriptError::Incomplete));
    assert_eq!(fails("if false; then a=b"), Progress::Failed(ScriptError::Incomplete));
    assert_eq!(fails("while false; do a=b"), Progress::Failed(ScriptError::Incomplete));
    assert_eq!(fails("for x; do a=b; done"), Progress::Failed(ScriptError::Incomplete));
    assert_eq!(fails("menuentry a"), Progress::Failed(ScriptError::Incomplete));
    assert_eq!(fails("menuentry a {"), Progress::Failed(ScriptError::Incomplete));
    assert_eq!(fails("submenu a { menuentry b { } "), Progress::Failed(ScriptError::Incomplete));
    assert_eq!(fails("function f"), Progress::Failed(ScriptError::Incomplete));
    let env = TinybootGrubEnvironment::new("/");
    assert!(matches!(
        GrubEvaluator::new_from_source("menuentry 'a", env),
        Err(LexError::Unterminated)
    ));
}

#[test]
fn waiting_and_answering() {
    let env = GrubBootLoader::environment("/mnt/x", 1);
    let mut ev =
        GrubEvaluator::new_from_source("if test -f /boot/k; then r=yes; fi", env).unwrap();
    let step = ev.step();
    assert_eq!(
        step,
        Progress::Pending(
            CommandStep::Stat(vec![s("/boot/k")]),
            vec![s("test"), s("-f"), s("/boot/k")]
        )
    );
    assert_eq!(ev.step(), Progress::Failed(ScriptError::Waiting));
    let env = ev.env().duplicate();
    assert_eq!(ev.answer(env, &Ok(())), Progress::Running);
    let env = ev.env().duplicate();
    assert_eq!(
        ev.answer(env, &Err(GrubEnvironmentError::False)),
        Progress::Failed(ScriptError::NotWaiting)
    );
    assert_eq!(ev.run(100), Progress::Finished);
    assert_eq!(variable(&ev, "r"), Some(s("yes")));
    assert_eq!(variable(&ev, "?"), Some(s("0")));
}

#[test]
fn save_env_is_handed_to_the_system() {
    let mut system = sample_system();
    let (progress, ev) = evaluate("saved_entry=2\nsave_env saved_entry\n", &mut system);
    assert_eq!(progress, Progress::Finished);
    assert_eq!(variable(&ev, "?"), Some(s("0")));
    assert_eq!(system.written.len(), 1);
    assert_eq!(system.written[0].0, s("/mnt/dev-sda1/boot/grub/grubenv"));
    assert_eq!(system.written[0].1.len(), 1024);
    assert!(system.written[0].1.contains("!!!\nsaved_entry=2\nroot=hd1\n#"));
    assert_eq!(system.written[0].1.matches("saved_entry=").count(), 1);
}

#[test]
fn entry_with_an_open_quote_cannot_be_evaluated() {
    let env = TinybootGrubEnvironment::new("/");
    let ev = GrubEvaluator::new_from_source("", env).unwrap();
    let entry = GrubEntry {
        id: None,
        title: s("broken"),
        consequence: Some(s("linux 'open")),
        menuentries: None,
    };
    assert!(matches!(
        ev.eval_boot_entry(&entry),
        Err(BootLoaderError::Evaluation(_))
    ));
    let loader = GrubBootLoader::new("/", vec![entry], TinybootGrubEnvironment::new("/"));
    match loader.eval_boot(None) {
        Err(BootLoaderError::Evaluation(said)) => assert_eq!(said, s("unterminated quote")),
        _ => panic!("an evaluator was started"),
    }
}

#[test]
fn boot_loader_starts_the_evaluator_of_an_entry() {
    let mut system = sample_system();
    let (progress, ev) = evaluate(CONFIG, &mut system);
    assert_eq!(progress, Progress::Finished);
    let (menu, env) = ev.into_parts();
    let loader = GrubBootLoader::new("/mnt/dev-sda1", menu, env);
    let mut sub = loader.eval_boot(Some(s("Old generation"))).unwrap();
    assert_eq!(sub.env().get_env("timeout"), loader.env().get_env("timeout"));
    assert_eq!(run(&mut sub, &mut system), Progress::Finished);
    assert_eq!(
        GrubBootLoader::boot_info(sub.env()),
        Ok(BootInfo {
            linux: s("/old"),
            initrd: None,
            cmdline: s("root=hd1"),
        })
    );
    assert_eq!(loader.env().get_env("linux"), None);
    let mut default = loader.eval_boot(None).unwrap();
    assert_eq!(run(&mut default, &mut system), Progress::Finished);
    assert_eq!(
        GrubBootLoader::boot_info(default.env()).unwrap().linux,
        s("/mnt/dev-sdb1/kernels/bzImage")
    );
    assert!(matches!(
        loader.eval_boot(Some(s("advanced"))),
        Err(BootLoaderError::BootEntryNotFound)
    ));
    assert!(matches!(
        loader.eval_boot_entry(&loader.boot_choices()[0]),
        Ok(_)
    ));
}
