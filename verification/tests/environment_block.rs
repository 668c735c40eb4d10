use tinyboot::envblock::{grub_environment_block as build_block, load_env};

fn expected_block() -> String {
    let mut block = String::from(
        "# GRUB Environment Block\n# WARNING: Do not edit this file by tools other than grub-editenv!!!\n",
    );
    block.push_str("foo=bar\nbar=baz\n");
    while block.len() < 1024 {
        block.push('#');
    }
    block
}

#[test]
fn grub_environment_block() {
    let testdata_env_block = expected_block();

    let expected = vec![
        ("foo".to_string(), "bar".to_string()),
        ("bar".to_string(), "baz".to_string()),
    ];

    let block = build_block(expected.clone()).unwrap();
    assert_eq!(block, testdata_env_block);

    let env = load_env(testdata_env_block.as_str(), vec![]);
    assert_eq!(env, expected);
}

#[test]
fn environment_block_is_1024_bytes() {
    let block = build_block(vec![]).unwrap();
    assert_eq!(block.len(), 1024);
    assert!(block.starts_with(
        "# GRUB Environment Block\n# WARNING: Do not edit this file by tools other than grub-editenv!!!\n#"
    ));
    assert!(load_env(block.as_str(), vec![]).is_empty());
    let wide = build_block(vec![("k".to_string(), "\u{e9}\u{20ac}".to_string())]).unwrap();
    assert_eq!(wide.len(), 1024);
    assert_eq!(
        load_env(wide.as_str(), vec![]),
        vec![("k".to_string(), "\u{e9}\u{20ac}".to_string())]
    );
}

#[test]
fn environment_block_that_is_full_or_too_large() {
    let header = 25 + 69;
    let fits = "v".repeat(1024 - header - 3);
    let block = build_block(vec![("k".to_string(), fits.clone())]).unwrap();
    assert_eq!(block.len(), 1024);
    assert!(block.ends_with("v\n"));
    assert_eq!(load_env(block.as_str(), vec![]), vec![("k".to_string(), fits.clone())]);
    let too_large = fits + "v";
    assert_eq!(
        build_block(vec![("k".to_string(), too_large)]),
        Err("environment block too large".to_string())
    );
}

#[test]
fn load_env_reads_lines_like_the_standard_library() {
    let text = "# comment\na=1\r\n\nno equals\nb=2=3\n#c=4\n=5\nd=\nlast=6";
    let expected: Vec<(String, String)> = text
        .lines()
        .filter(|line| !line.starts_with('#'))
        .filter_map(|line| line.split_once('='))
        .map(|(k, v)| (k.to_string(), v.to_string()))
        .collect();
    assert_eq!(load_env(text, vec![]), expected);
    assert_eq!(
        load_env(text, vec![]),
        vec![
            ("a".to_string(), "1".to_string()),
            ("b".to_string(), "2=3".to_string()),
            ("".to_string(), "5".to_string()),
            ("d".to_string(), "".to_string()),
            ("last".to_string(), "6".to_string()),
        ]
    );
    assert_eq!(load_env("a=1\r", vec![]), vec![("a".to_string(), "1\r".to_string())]);
}

#[test]
fn load_env_with_whitelist() {
    let text = "a=1\nb=2\nc=3\na=4\n";
    assert_eq!(
        load_env(text, vec!["a".to_string(), "c".to_string()]),
        vec![
            ("a".to_string(), "1".to_string()),
            ("c".to_string(), "3".to_string()),
            ("a".to_string(), "4".to_string()),
        ]
    );
    assert!(load_env(text, vec!["z".to_string()]).is_empty());
}

#[test]
fn environment_block_round_trip() {
    let env = vec![
        ("saved_entry".to_string(), "0".to_string()),
        ("next_entry".to_string(), "".to_string()),
        ("".to_string(), "anonymous".to_string()),
        ("with\rreturn".to_string(), "a=b\rc".to_string()),
    ];
    let block = build_block(env.clone()).unwrap();
    assert_eq!(block.len(), 1024);
    assert_eq!(load_env(block.as_str(), vec![]), env);
}

#[test]
fn environment_block_does_not_keep_what_cannot_be_stored() {
    let block = build_block(vec![("a=b".to_string(), "c".to_string())]).unwrap();
    assert_eq!(
        load_env(block.as_str(), vec![]),
        vec![("a".to_string(), "b=c".to_string())]
    );
    let comment = build_block(vec![("#a".to_string(), "c".to_string())]).unwrap();
    assert!(load_env(comment.as_str(), vec![]).is_empty());
}
