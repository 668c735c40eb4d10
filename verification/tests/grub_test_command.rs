use tinyboot::commands::CommandStep;
use tinyboot::environment::TinybootGrubEnvironment;
use tinyboot::error::{exit_code, GrubEnvironmentError};
use tinyboot::predicate::{parse_integer, parse_usize, test_operands, FileStatus};

fn status_of(path: &str) -> Result<FileStatus, String> {
    match std::path::Path::new(path).metadata() {
        Ok(meta) => Ok(FileStatus {
            exists: true,
            directory: meta.is_dir(),
            size: meta.len(),
            modified: meta
                .modified()
                .ok()
                .and_then(|t| t.duration_since(std::time::UNIX_EPOCH).ok())
                .map(|d| d.as_secs())
                .unwrap_or(0),
        }),
        Err(e) if e.kind() == std::io::ErrorKind::NotFound => Ok(FileStatus {
            exists: false,
            directory: false,
            size: 0,
            modified: 0,
        }),
        Err(e) => Err(e.to_string()),
    }
}

fn run(g: &TinybootGrubEnvironment, args: &[&str]) -> Result<(), GrubEnvironmentError> {
    let args: Vec<String> = args.iter().map(|a| a.to_string()).collect();
    let files: Vec<Result<FileStatus, String>> =
        test_operands(&args).iter().map(|p| status_of(p)).collect();
    g.run_test(args, &files)
}

fn code(g: &TinybootGrubEnvironment, args: &[&str]) -> u8 {
    exit_code(&run(g, args))
}

fn present(directory: bool, size: u64, modified: u64) -> Result<FileStatus, String> {
    Ok(FileStatus {
        exists: true,
        directory,
        size,
        modified,
    })
}

#[test]
fn grub_run_test() {
    let g = TinybootGrubEnvironment::new("/dev/null");
    assert!(run(&g, &["test", "-d", "/dev"]).is_ok(),);
    assert!(run(&g, &["test", "-f", "/dev"]).err().unwrap() == GrubEnvironmentError::False,);
    assert!(run(&g, &["test", "-e", "/dev"]).is_ok(),);
    assert!(run(&g, &["test", "-n", "foo"]).is_ok(),);
    assert!(run(&g, &["test", "-z", "foo"]).err().unwrap() == GrubEnvironmentError::False,);
    assert!(run(&g, &["test", "-z", ""]).is_ok(),);
    assert!(run(&g, &["test", "foo1", "-pgt", "bar0"]).is_ok(),);
}

#[test]
fn test_command_matrix_exit_codes() {
    let g = TinybootGrubEnvironment::new("/dev/null");
    assert_eq!(code(&g, &["test", "-d", "/dev"]), 0);
    assert_eq!(code(&g, &["test", "-f", "/dev"]), 1);
    assert_eq!(code(&g, &["test", "-e", "/dev"]), 0);
    assert_eq!(code(&g, &["test", "-n", "foo"]), 0);
    assert_eq!(code(&g, &["test", "-z", "foo"]), 1);
    assert_eq!(code(&g, &["test", "-z", ""]), 0);
    assert_eq!(code(&g, &["test", "foo1", "-pgt", "bar0"]), 0);
    assert_eq!(code(&g, &["test", "5", "-eq", "abc"]), 2);
}

#[test]
fn test_wrong_number_of_arguments_is_malformed() {
    let g = TinybootGrubEnvironment::new("/dev/null");
    assert_eq!(g.run_test(vec![], &vec![]), Err(GrubEnvironmentError::InvalidArgs));
    assert_eq!(run(&g, &["test"]), Err(GrubEnvironmentError::InvalidArgs));
    assert_eq!(
        run(&g, &["test", "a", "=", "a", "b"]),
        Err(GrubEnvironmentError::InvalidArgs)
    );
    assert_eq!(code(&g, &["test"]), 2);
    assert_eq!(code(&g, &["test", "1", "2", "3", "4"]), 2);
    assert_eq!(code(&g, &["test", "1", "2", "3", "4", "5", "6"]), 2);
}

#[test]
fn test_single_operand_is_nonempty_check() {
    let g = TinybootGrubEnvironment::new("/");
    assert_eq!(run(&g, &["test", "x"]), Ok(()));
    assert_eq!(run(&g, &["test", ""]), Err(GrubEnvironmentError::False));
}

#[test]
fn test_unknown_flag_and_operator_are_malformed() {
    let g = TinybootGrubEnvironment::new("/");
    assert_eq!(run(&g, &["test", "-q", "x"]), Err(GrubEnvironmentError::InvalidArgs));
    assert_eq!(run(&g, &["test", "!", "x"]), Err(GrubEnvironmentError::InvalidArgs));
    assert_eq!(
        run(&g, &["test", "a", "-a", "b"]),
        Err(GrubEnvironmentError::InvalidArgs)
    );
    assert_eq!(
        run(&g, &["test", "(", "a", ")"]),
        Err(GrubEnvironmentError::InvalidArgs)
    );
}

#[test]
fn test_string_comparisons() {
    let g = TinybootGrubEnvironment::new("/");
    assert_eq!(run(&g, &["test", "abc", "=", "abc"]), Ok(()));
    assert_eq!(run(&g, &["test", "abc", "==", "abd"]), Err(GrubEnvironmentError::False));
    assert_eq!(run(&g, &["test", "abc", "!=", "abd"]), Ok(()));
    assert_eq!(run(&g, &["test", "abc", "<", "abd"]), Ok(()));
    assert_eq!(run(&g, &["test", "abc", "<", "abc"]), Err(GrubEnvironmentError::False));
    assert_eq!(run(&g, &["test", "abc", "<=", "abc"]), Ok(()));
    assert_eq!(run(&g, &["test", "ab", "<", "abc"]), Ok(()));
    assert_eq!(run(&g, &["test", "b", ">", "abc"]), Ok(()));
    assert_eq!(run(&g, &["test", "abc", ">=", "abd"]), Err(GrubEnvironmentError::False));
    assert_eq!(run(&g, &["test", "", "<", ""]), Err(GrubEnvironmentError::False));
}

#[test]
fn test_integer_comparisons() {
    let g = TinybootGrubEnvironment::new("/");
    assert_eq!(run(&g, &["test", "5", "-eq", "5"]), Ok(()));
    assert_eq!(run(&g, &["test", "5", "-eq", "+5"]), Ok(()));
    assert_eq!(run(&g, &["test", "5", "-ne", "5"]), Err(GrubEnvironmentError::False));
    assert_eq!(run(&g, &["test", "-3", "-lt", "2"]), Ok(()));
    assert_eq!(run(&g, &["test", "10", "-le", "9"]), Err(GrubEnvironmentError::False));
    assert_eq!(run(&g, &["test", "10", "-gt", "9"]), Ok(()));
    assert_eq!(run(&g, &["test", "9", "-ge", "9"]), Ok(()));
    assert_eq!(run(&g, &["test", "", "-eq", "0"]), Err(GrubEnvironmentError::ParseInt));
    assert_eq!(run(&g, &["test", "1x", "-eq", "1"]), Err(GrubEnvironmentError::ParseInt));
    assert_eq!(
        run(&g, &["test", "9223372036854775808", "-eq", "1"]),
        Err(GrubEnvironmentError::ParseInt)
    );
    assert_eq!(
        run(&g, &["test", "-9223372036854775808", "-lt", "9223372036854775807"]),
        Ok(())
    );
}

#[test]
fn parse_integer_agrees_with_the_standard_parser() {
    for text in [
        "0", "7", "+7", "-7", "007", "", "+", "-", " 1", "1 ", "1_0", "9223372036854775807",
        "9223372036854775808", "-9223372036854775808", "-9223372036854775809", "12a", "--1",
    ] {
        assert_eq!(parse_integer(text), text.parse::<i64>().ok(), "{:?}", text);
    }
}

#[test]
fn parse_usize_agrees_with_the_standard_parser() {
    for text in [
        "0", "7", "+7", "-7", "-0", "007", "", "+", "-", " 1", "1 ", "1_0", "++1",
        "18446744073709551615", "18446744073709551616", "9223372036854775808",
        "99999999999999999999999999", "12a", "a",
    ] {
        assert_eq!(parse_usize(text), text.parse::<usize>().ok(), "{:?}", text);
    }
    assert_eq!(parse_usize("+12"), Some(12));
    assert_eq!(parse_usize("-1"), None);
}

#[test]
fn test_prefixed_integer_comparisons() {
    let g = TinybootGrubEnvironment::new("/");
    assert_eq!(run(&g, &["test", "foo1", "-pgt", "bar0"]), Ok(()));
    assert_eq!(run(&g, &["test", "foo1", "-plt", "bar0"]), Err(GrubEnvironmentError::False));
    assert_eq!(run(&g, &["test", "vmlinuz-5", "-plt", "vmlinuz-12"]), Ok(()));
    assert_eq!(run(&g, &["test", "2", "-pgt", "1"]), Ok(()));
    assert_eq!(run(&g, &["test", "ab1", "-pgt", "abcd2"]), Err(GrubEnvironmentError::ParseInt));
    assert_eq!(run(&g, &["test", "foo", "-pgt", "bar"]), Err(GrubEnvironmentError::ParseInt));
}

#[test]
fn test_file_predicates_on_given_status() {
    let g = TinybootGrubEnvironment::new("/");
    let args = |a: &[&str]| a.iter().map(|s| s.to_string()).collect::<Vec<String>>();
    let missing = Ok(FileStatus {
        exists: false,
        directory: false,
        size: 0,
        modified: 0,
    });
    assert_eq!(g.run_test(args(&["test", "-s", "f"]), &vec![present(false, 3, 1)]), Ok(()));
    assert_eq!(
        g.run_test(args(&["test", "-s", "f"]), &vec![present(false, 0, 1)]),
        Err(GrubEnvironmentError::False)
    );
    assert_eq!(g.run_test(args(&["test", "-f", "f"]), &vec![present(false, 0, 1)]), Ok(()));
    assert_eq!(
        g.run_test(args(&["test", "-e", "f"]), &vec![missing.clone()]),
        Err(GrubEnvironmentError::False)
    );
    assert_eq!(
        g.run_test(args(&["test", "-d", "f"]), &vec![missing.clone()]),
        Err(GrubEnvironmentError::False)
    );
    assert_eq!(
        g.run_test(args(&["test", "a", "-nt", "b"]), &vec![present(false, 1, 20), present(false, 1, 10)]),
        Ok(())
    );
    assert_eq!(
        g.run_test(args(&["test", "a", "-ot", "b"]), &vec![present(false, 1, 20), present(false, 1, 10)]),
        Err(GrubEnvironmentError::False)
    );
    assert_eq!(
        g.run_test(args(&["test", "a", "-ot", "b"]), &vec![present(false, 1, 5), present(false, 1, 10)]),
        Ok(())
    );
    assert_eq!(
        g.run_test(args(&["test", "a", "-nt", "b"]), &vec![present(false, 1, 20), missing]),
        Err(GrubEnvironmentError::False)
    );
    assert_eq!(
        g.run_test(args(&["test", "-e", "f"]), &vec![Err("denied".to_string())]),
        Err(GrubEnvironmentError::Io("denied".to_string()))
    );
    assert!(matches!(
        g.run_test(args(&["test", "-e", "f"]), &vec![]),
        Err(GrubEnvironmentError::Io(_))
    ));
}

#[test]
fn test_operands_names_the_files() {
    let args = |a: &[&str]| a.iter().map(|s| s.to_string()).collect::<Vec<String>>();
    assert_eq!(test_operands(&args(&["test", "-d", "/dev"])), vec!["/dev".to_string()]);
    assert_eq!(
        test_operands(&args(&["test", "a", "-nt", "b"])),
        vec!["a".to_string(), "b".to_string()]
    );
    assert!(test_operands(&args(&["test", "-n", "/dev"])).is_empty());
    assert!(test_operands(&args(&["test", "a", "=", "b"])).is_empty());
}

#[test]
fn run_command_dispatches_by_name() {
    let mut g = TinybootGrubEnvironment::new("/mnt/dev-sda1/boot/grub");
    let s = |a: &str| a.to_string();
    assert_eq!(g.run_command(s("true"), vec![]), CommandStep::Exit(0));
    assert_eq!(g.get_env("?"), Some(&s("0")));
    assert_eq!(g.run_command(s("false"), vec![]), CommandStep::Exit(1));
    assert_eq!(g.get_env("?"), Some(&s("1")));
    assert_eq!(g.run_command(s("false"), vec![s("with"), s("args")]), CommandStep::Exit(1));
    assert_eq!(g.run_command(s("False"), vec![]), CommandStep::Exit(0));
    assert_eq!(g.get_env("?"), Some(&s("0")));
    assert_eq!(g.run_command(s("test"), vec![s("a"), s("="), s("b")]), CommandStep::Exit(1));
    assert_eq!(g.get_env("?"), Some(&s("1")));
    assert_eq!(g.run_command(s("test"), vec![]), CommandStep::Exit(2));
    assert_eq!(g.get_env("?"), Some(&s("2")));
    assert_eq!(
        g.run_command(s("test"), vec![s("1"), s("2"), s("3"), s("4")]),
        CommandStep::Exit(2)
    );
    assert_eq!(
        g.run_command(s("test"), vec![s("-f"), s("/boot/vmlinuz")]),
        CommandStep::Stat(vec![s("/boot/vmlinuz")])
    );
    assert_eq!(g.get_env("?"), Some(&s("2")));
    assert_eq!(g.run_command(s("set"), vec![s("root=hd0")]), CommandStep::Exit(0));
    assert_eq!(g.get_env("root"), Some(&s("hd0")));
    assert_eq!(g.get_env("?"), Some(&s("0")));
    assert_eq!(g.run_command(s("set"), vec![s("root")]), CommandStep::Exit(2));
    assert_eq!(g.run_command(s("insmod"), vec![s("ext2")]), CommandStep::Exit(0));
    assert_eq!(
        g.run_command(s("linux"), vec![s("(hd0)/vmlinuz"), s("ro"), s("quiet")]),
        CommandStep::Exit(0)
    );
    assert_eq!(g.get_env("linux"), Some(&s("hd0/vmlinuz")));
    assert_eq!(g.get_env("linux_cmdline"), Some(&s("ro quiet")));
    assert_eq!(g.run_command(s("initrd"), vec![]), CommandStep::Exit(2));
    assert_eq!(
        g.run_command(s("load_env"), vec![]),
        CommandStep::Load(s("/mnt/dev-sda1/boot/grub/grubenv"))
    );
    assert_eq!(
        g.run_command(s("load_env"), vec![s("--file"), s("/abs/env")]),
        CommandStep::Load(s("/abs/env"))
    );
    assert_eq!(g.run_command(s("save_env"), vec![]), CommandStep::Exit(2));
    assert_eq!(
        g.run_command(s("save_env"), vec![s("root")]),
        CommandStep::Save(s("/mnt/dev-sda1/boot/grub/grubenv"))
    );
    assert_eq!(
        g.run_command(s("search"), vec![s("--set=root"), s("--fs-uuid"), s("1234")]),
        CommandStep::Search
    );
    assert_eq!(g.run_command(s("search"), vec![s("--fs-uuid"), s("1234")]), CommandStep::Exit(2));
    assert_eq!(
        g.run_command(s("search"), vec![s("--set=root"), s("1234")]),
        CommandStep::Exit(2)
    );
}

#[test]
fn exit_codes_of_results() {
    assert_eq!(exit_code(&Ok(())), 0);
    assert_eq!(exit_code(&Err(GrubEnvironmentError::NotImplemented)), 0);
    assert_eq!(exit_code(&Err(GrubEnvironmentError::False)), 1);
    assert_eq!(exit_code(&Err(GrubEnvironmentError::EnvironmentBlock)), 2);
    assert_eq!(exit_code(&Err(GrubEnvironmentError::InvalidArgs)), 2);
    assert_eq!(exit_code(&Err(GrubEnvironmentError::Io("x".to_string()))), 2);
    assert_eq!(exit_code(&Err(GrubEnvironmentError::MissingEnvironmentVariable)), 2);
    assert_eq!(exit_code(&Err(GrubEnvironmentError::Nix("x".to_string()))), 2);
    assert_eq!(exit_code(&Err(GrubEnvironmentError::ParseInt)), 2);
}
