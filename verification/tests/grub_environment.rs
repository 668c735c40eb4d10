use tinyboot::args::{LoadEnvArgs, SaveEnvArgs, SearchArgs};
use tinyboot::commands::{path_join, MountRequest, SearchPlan};
use tinyboot::device::{mountpoint_for, FsType, ProbedDevice};
use tinyboot::environment::{without_parens, TinybootGrubEnvironment};
use tinyboot::envblock::{grub_environment_block as build_block, load_env};
use tinyboot::error::GrubEnvironmentError;
use tinyboot::mountinfo::mountinfo_from_source;

fn s(text: &str) -> String {
    text.to_string()
}

fn strings(args: &[&str]) -> Vec<String> {
    args.iter().map(|a| a.to_string()).collect()
}

#[test]
fn search_args() {
    let args = SearchArgs::try_parse_from(strings(&[
        "search",
        "--set=drive1",
        "--fs-uuid",
        "BB22-99EC",
    ]))
    .unwrap();
    assert_eq!(
        args,
        SearchArgs {
            file: false,
            label: false,
            fs_uuid: true,
            no_floppy: false,
            set: "drive1".to_string(),
            name: "BB22-99EC".to_string(),
        }
    );
}

#[test]
fn mountinfo() {
    let mountinfo_source = r#"1 1 0:2 / / rw - rootfs rootfs rw
11 1 0:10 / /proc rw,relatime - proc proc rw
12 1 0:11 / /sys rw,relatime - sysfs sysfs rw
13 1 0:12 / /tmp rw,relatime - tmpfs tmpfs rw
14 1 0:13 / /dev/pts rw,relatime - devpts devpts rw,mode=600,ptmxmode=000
15 1 254:1 / /mnt/dev-vda1 ro,relatime - ext4 /dev/vda1 ro
"#;

    assert!(mountinfo_from_source(mountinfo_source, "/dev/vda1").unwrap() == *"/mnt/dev-vda1");
}

#[test]
fn mountinfo_of_a_device_that_is_not_mounted() {
    let source = "15 1 254:1 / /mnt/dev-vda1 ro,relatime - ext4 /dev/vda1 ro\n";
    assert_eq!(mountinfo_from_source(source, "/dev/vda2"), None);
    assert_eq!(mountinfo_from_source("", "/dev/vda1"), None);
    assert_eq!(mountinfo_from_source("a b c d /x f g h", "h"), None);
    assert_eq!(
        mountinfo_from_source("a b c d /x f g h /dev/y\r\n\t1  2 3 4   /z 6 7 8 /dev/y", "/dev/y"),
        Some(s("/x"))
    );
}

#[test]
fn search_args_forms() {
    let parse = |a: &[&str]| SearchArgs::try_parse_from(strings(a));
    let by_label = SearchArgs {
        file: false,
        label: true,
        fs_uuid: false,
        no_floppy: true,
        set: s("root"),
        name: s("boot"),
    };
    assert_eq!(parse(&["search", "--no-floppy", "-l", "--set", "root", "boot"]), Ok(SearchArgs {
        file: false,
        label: true,
        fs_uuid: false,
        no_floppy: true,
        set: s("root"),
        name: s("boot"),
    }));
    assert_eq!(parse(&["search", "boot", "--label", "--set=root", "--no-floppy"]), Ok(by_label));
    assert_eq!(
        parse(&["search", "-f", "--set=a=b", "--", "--odd"]),
        Ok(SearchArgs {
            file: true,
            label: false,
            fs_uuid: false,
            no_floppy: false,
            set: s("a=b"),
            name: s("--odd"),
        })
    );
    assert_eq!(
        parse(&["search", "--set=root", "name"]),
        Ok(SearchArgs {
            file: false,
            label: false,
            fs_uuid: false,
            no_floppy: false,
            set: s("root"),
            name: s("name"),
        })
    );
    let invalid = Err(GrubEnvironmentError::InvalidArgs);
    assert_eq!(parse(&[]), invalid);
    assert_eq!(parse(&["search"]), invalid);
    assert_eq!(parse(&["search", "--set=root"]), invalid);
    assert_eq!(parse(&["search", "name"]), invalid);
    assert_eq!(parse(&["search", "--set"]), invalid);
    assert_eq!(parse(&["search", "--set", "--label", "x"]), invalid);
    assert_eq!(parse(&["search", "--set=r", "-f", "-u", "x"]), invalid);
    assert_eq!(parse(&["search", "--set=r", "--file", "--label", "x"]), invalid);
    assert_eq!(parse(&["search", "--set=r", "--file", "--file", "x"]), invalid);
    assert_eq!(parse(&["search", "--set=r", "--set=q", "x"]), invalid);
    assert_eq!(parse(&["search", "--set=r", "x", "y"]), invalid);
    assert_eq!(parse(&["search", "--set=r", "--bogus", "x"]), invalid);
    assert_eq!(parse(&["search", "--set=r", "-x", "x"]), invalid);
    assert_eq!(parse(&["search", "--set=r", "--file=yes", "x"]), invalid);
}

#[test]
fn load_and_save_env_args() {
    assert_eq!(
        LoadEnvArgs::try_parse_from(strings(&["load_env"])),
        Ok(LoadEnvArgs {
            file: s("grubenv"),
            skip_sig: false,
            whitelisted_variables: vec![],
        })
    );
    assert_eq!(
        LoadEnvArgs::try_parse_from(strings(&["load_env", "--file", "e", "--skip-sig", "a", "b"])),
        Ok(LoadEnvArgs {
            file: s("e"),
            skip_sig: true,
            whitelisted_variables: strings(&["a", "b"]),
        })
    );
    assert_eq!(
        LoadEnvArgs::try_parse_from(strings(&["load_env", "-x"])),
        Err(GrubEnvironmentError::InvalidArgs)
    );
    assert_eq!(
        SaveEnvArgs::try_parse_from(strings(&["save_env", "--file=e", "a"])),
        Ok(SaveEnvArgs {
            file: s("e"),
            variables: strings(&["a"]),
        })
    );
    assert_eq!(
        SaveEnvArgs::try_parse_from(strings(&["save_env", "--skip-sig", "a"])),
        Err(GrubEnvironmentError::InvalidArgs)
    );
    assert_eq!(
        SaveEnvArgs::try_parse_from(strings(&["save_env", "--file=a", "--file=b"])),
        Err(GrubEnvironmentError::InvalidArgs)
    );
}

#[test]
fn new_environment_holds_the_reserved_variables() {
    let g = TinybootGrubEnvironment::new("/mnt/dev-sda1/boot/grub");
    assert_eq!(g.get_env("?"), Some(&s("0")));
    assert_eq!(g.get_env("prefix"), Some(&s("/mnt/dev-sda1/boot/grub")));
    assert_eq!(g.get_env("grub_platform"), Some(&s("tinyboot")));
    assert_eq!(g.get_env("default"), None);
    assert_eq!(g.get_env("timeout"), None);
}

#[test]
fn set_env_and_get_env() {
    let mut g = TinybootGrubEnvironment::new("/");
    g.set_env(s("a"), Some(s("1")));
    g.set_env(s("b"), Some(s("2")));
    g.set_env(s("a"), Some(s("3")));
    assert_eq!(g.get_env("a"), Some(&s("3")));
    assert_eq!(g.get_env("b"), Some(&s("2")));
    g.set_env(s("a"), None);
    assert_eq!(g.get_env("a"), None);
    assert_eq!(g.get_env("b"), Some(&s("2")));
    g.set_env(s("missing"), None);
    assert_eq!(g.get_env("missing"), None);
    let mut copy = g.duplicate();
    copy.set_env(s("b"), Some(s("9")));
    assert_eq!(g.get_env("b"), Some(&s("2")));
    assert_eq!(copy.get_env("b"), Some(&s("9")));
}

#[test]
fn run_set_assigns_and_clears() {
    let mut g = TinybootGrubEnvironment::new("/");
    assert_eq!(g.run_set(strings(&["set", "k=v=w"])), Ok(()));
    assert_eq!(g.get_env("k"), Some(&s("v=w")));
    assert_eq!(g.run_set(strings(&["set", "k="])), Ok(()));
    assert_eq!(g.get_env("k"), None);
    assert_eq!(g.run_set(strings(&["set", "k"])), Err(GrubEnvironmentError::InvalidArgs));
    assert_eq!(g.run_set(strings(&["set"])), Err(GrubEnvironmentError::InvalidArgs));
    assert_eq!(g.run_set(strings(&[])), Err(GrubEnvironmentError::InvalidArgs));
}

#[test]
fn run_linux_and_initrd() {
    let mut g = TinybootGrubEnvironment::new("/");
    assert_eq!(
        g.run_linux(strings(&["linux", "(hd0,1)/vmlinuz", "root=/dev/sda1", "ro"])),
        Ok(())
    );
    assert_eq!(g.get_env("linux"), Some(&s("hd0,1/vmlinuz")));
    assert_eq!(g.get_env("linux_cmdline"), Some(&s("root=/dev/sda1 ro")));
    assert_eq!(g.run_linux(strings(&["linux", "/k"])), Ok(()));
    assert_eq!(g.get_env("linux_cmdline"), Some(&s("")));
    assert_eq!(g.run_linux(strings(&["linux"])), Err(GrubEnvironmentError::InvalidArgs));
    assert_eq!(g.run_initrd(strings(&["initrd", "(hd0)/initrd.img", "ignored"])), Ok(()));
    assert_eq!(g.get_env("initrd"), Some(&s("hd0/initrd.img")));
    assert_eq!(g.run_initrd(strings(&["initrd"])), Err(GrubEnvironmentError::InvalidArgs));
    assert_eq!(g.run_initrd(strings(&[])), Err(GrubEnvironmentError::InvalidArgs));
    assert_eq!(without_parens("((a)(b))c"), s("abc"));
}

#[test]
fn paths_are_joined_like_directories() {
    assert_eq!(path_join("/mnt/x", "grubenv"), s("/mnt/x/grubenv"));
    assert_eq!(path_join("/mnt/x/", "grubenv"), s("/mnt/x/grubenv"));
    assert_eq!(path_join("/mnt/x", "/abs"), s("/abs"));
    assert_eq!(path_join("", "rel"), s("rel"));
    assert_eq!(path_join("/mnt/x", ""), s("/mnt/x/"));
    for (base, path) in [("/a", "b"), ("/a/", "b"), ("/a", "/b"), ("", "b"), ("a", ""), ("", "")] {
        let joined = std::path::Path::new(base).join(path);
        assert_eq!(path_join(base, path), joined.to_str().unwrap());
    }
}

#[test]
fn run_load_env_merges_the_block() {
    let mut g = TinybootGrubEnvironment::new("/boot/grub");
    g.set_env(s("keep"), Some(s("1")));
    g.set_env(s("saved_entry"), Some(s("old")));
    let block = build_block(vec![(s("saved_entry"), s("new")), (s("other"), s("x"))]).unwrap();
    assert_eq!(g.load_env_file(strings(&["load_env"])), Ok(s("/boot/grub/grubenv")));
    assert_eq!(g.run_load_env(strings(&["load_env"]), Ok(block.clone())), Ok(()));
    assert_eq!(g.get_env("saved_entry"), Some(&s("new")));
    assert_eq!(g.get_env("other"), Some(&s("x")));
    assert_eq!(g.get_env("keep"), Some(&s("1")));

    let mut h = TinybootGrubEnvironment::new("/boot/grub");
    assert_eq!(h.run_load_env(strings(&["load_env", "other"]), Ok(block.clone())), Ok(()));
    assert_eq!(h.get_env("saved_entry"), None);
    assert_eq!(h.get_env("other"), Some(&s("x")));
    assert_eq!(
        h.run_load_env(strings(&["load_env"]), Err(s("no such file"))),
        Err(GrubEnvironmentError::Io(s("no such file")))
    );
    assert_eq!(
        h.run_load_env(strings(&["load_env", "--bogus"]), Ok(block.clone())),
        Err(GrubEnvironmentError::InvalidArgs)
    );
    h.set_env(s("prefix"), None);
    assert_eq!(
        h.run_load_env(strings(&["load_env"]), Ok(block)),
        Err(GrubEnvironmentError::MissingEnvironmentVariable)
    );
    assert_eq!(
        h.load_env_file(strings(&["load_env"])),
        Err(GrubEnvironmentError::MissingEnvironmentVariable)
    );
}

#[test]
fn saved_variables_overwrite_those_of_the_file() {
    let mut g = TinybootGrubEnvironment::new("/boot/grub");
    g.set_env(s("a"), Some(s("2")));
    g.set_env(s("c"), Some(s("3")));
    let pairs = |p: &[(&str, &str)]| -> Vec<(String, String)> {
        p.iter().map(|(k, v)| (s(k), s(v))).collect()
    };
    assert_eq!(
        g.save(&pairs(&[("a", "1")]), &strings(&["a"])),
        pairs(&[("a", "2")])
    );
    assert_eq!(
        g.save(&pairs(&[("x", "0"), ("a", "1"), ("y", "9"), ("a", "5")]), &strings(&["a"])),
        pairs(&[("x", "0"), ("a", "2"), ("y", "9")])
    );
    assert_eq!(
        g.save(&pairs(&[("x", "0"), ("x", "1")]), &strings(&["c", "a", "c", "unset"])),
        pairs(&[("x", "0"), ("x", "1"), ("c", "3"), ("a", "2")])
    );
    assert_eq!(
        g.save(&pairs(&[("unset", "kept")]), &strings(&["unset"])),
        pairs(&[("unset", "kept")])
    );
    assert_eq!(g.save(&pairs(&[]), &strings(&[])), pairs(&[]));
}

#[test]
fn run_save_env_rewrites_the_block() {
    let mut g = TinybootGrubEnvironment::new("/boot/grub");
    g.set_env(s("saved_entry"), Some(s("2")));
    let existing = build_block(vec![(s("a"), s("b"))]).unwrap();
    let written = g
        .run_save_env(strings(&["save_env", "saved_entry", "unset"]), Ok(existing.clone()))
        .unwrap();
    assert_eq!(written.len(), 1024);
    assert_eq!(
        load_env(written.as_str(), vec![]),
        vec![(s("a"), s("b")), (s("saved_entry"), s("2"))]
    );
    let held = build_block(vec![
        (s("saved_entry"), s("1")),
        (s("a"), s("b")),
        (s("saved_entry"), s("0")),
    ])
    .unwrap();
    let written = g
        .run_save_env(strings(&["save_env", "saved_entry", "saved_entry"]), Ok(held))
        .unwrap();
    assert_eq!(
        load_env(written.as_str(), vec![]),
        vec![(s("saved_entry"), s("2")), (s("a"), s("b"))]
    );
    assert_eq!(
        g.save_env_file(strings(&["save_env", "--file", "env", "x"])),
        Ok(s("/boot/grub/env"))
    );
    assert_eq!(
        g.run_save_env(strings(&["save_env"]), Ok(existing.clone())),
        Err(GrubEnvironmentError::InvalidArgs)
    );
    assert_eq!(g.save_env_file(strings(&["save_env"])), Err(GrubEnvironmentError::InvalidArgs));
    assert_eq!(
        g.run_save_env(strings(&["save_env", "x"]), Err(s("gone"))),
        Err(GrubEnvironmentError::Io(s("gone")))
    );
    g.set_env(s("big"), Some("x".repeat(1024)));
    assert_eq!(
        g.run_save_env(strings(&["save_env", "big"]), Ok(existing)),
        Err(GrubEnvironmentError::EnvironmentBlock)
    );
}

fn two_devices() -> Vec<ProbedDevice> {
    vec![
        ProbedDevice {
            path: s("/dev/sda1"),
            fs_type: Some(FsType::Ext4(
                s("11111111-1111-1111-1111-111111111111"),
                s("root"),
            )),
        },
        ProbedDevice {
            path: s("/dev/sdb1"),
            fs_type: Some(FsType::Ext4(
                s("22222222-2222-2222-2222-222222222222"),
                s("data"),
            )),
        },
        ProbedDevice {
            path: s("/dev/sdc1"),
            fs_type: Some(FsType::Fat32(s("mkfs.fat"), s("BB22-99EC"), s("ESP"))),
        },
        ProbedDevice {
            path: s("/dev/sdd"),
            fs_type: None,
        },
    ]
}

#[test]
fn search_by_fs_uuid() {
    let args = strings(&[
        "search",
        "--fs-uuid",
        "--set=root",
        "22222222-2222-2222-2222-222222222222",
    ]);
    let plan = TinybootGrubEnvironment::search_plan(
        args.clone(),
        Ok(two_devices()),
        Ok(s("15 1 254:1 / /mnt/dev-sda1 ro,relatime - ext4 /dev/sda1 ro\n")),
    )
    .unwrap();
    assert_eq!(
        plan,
        SearchPlan {
            var: s("root"),
            mountpoint: s("/mnt/dev-sdb1"),
            mount: Some(MountRequest {
                source: s("/dev/sdb1"),
                target: s("/mnt/dev-sdb1"),
                fstype: s("ext4"),
            }),
        }
    );
    let mut g = TinybootGrubEnvironment::new("/");
    assert_eq!(g.run_search(plan, Ok(())), Ok(()));
    assert_eq!(g.get_env("root"), Some(&s("/mnt/dev-sdb1")));

    let mounted = TinybootGrubEnvironment::search_plan(
        args.clone(),
        Ok(two_devices()),
        Ok(s("15 1 254:1 / /media/data ro,relatime - ext4 /dev/sdb1 ro\n")),
    )
    .unwrap();
    assert_eq!(
        mounted,
        SearchPlan {
            var: s("root"),
            mountpoint: s("/media/data"),
            mount: None,
        }
    );
    let mut h = TinybootGrubEnvironment::new("/");
    assert_eq!(h.run_search(mounted, Err(s("not looked at"))), Ok(()));
    assert_eq!(h.get_env("root"), Some(&s("/media/data")));

    let failed = TinybootGrubEnvironment::search_plan(args, Ok(two_devices()), Err(s("no table")))
        .unwrap();
    let mut k = TinybootGrubEnvironment::new("/");
    assert_eq!(
        k.run_search(failed, Err(s("EBUSY"))),
        Err(GrubEnvironmentError::Nix(s("EBUSY")))
    );
    assert_eq!(k.get_env("root"), None);
}

#[test]
fn search_by_label_file_and_failures() {
    let plan = |a: &[&str], devices| {
        TinybootGrubEnvironment::search_plan(strings(a), devices, Ok(String::new()))
    };
    let found = plan(&["search", "--label", "--set=esp", "ESP"], Ok(two_devices())).unwrap();
    assert_eq!(found.mountpoint, s("/mnt/dev-sdc1"));
    assert_eq!(found.mount.unwrap().fstype, s("vfat"));
    let by_serial = plan(&["search", "-u", "--set=esp", "BB22-99EC"], Ok(two_devices())).unwrap();
    assert_eq!(by_serial.mountpoint, s("/mnt/dev-sdc1"));
    let by_file = plan(&["search", "--file", "--set=d", "/dev/sda1"], Ok(two_devices())).unwrap();
    assert_eq!(by_file.mountpoint, s("/mnt/dev-sda1"));
    assert!(matches!(
        plan(&["search", "--file", "--set=d", "/dev/sdd"], Ok(two_devices())),
        Err(GrubEnvironmentError::Io(_))
    ));
    assert!(matches!(
        plan(&["search", "--label", "--set=d", "nothing"], Ok(two_devices())),
        Err(GrubEnvironmentError::Io(_))
    ));
    assert!(matches!(
        plan(&["search", "--label", "--set=d", "ESP"], Err(s("sysfs"))),
        Err(GrubEnvironmentError::Io(_))
    ));
    assert_eq!(
        plan(&["search", "--set=d", "ESP"], Ok(two_devices())),
        Err(GrubEnvironmentError::InvalidArgs)
    );
    assert_eq!(
        plan(&["search", "--label", "ESP"], Ok(two_devices())),
        Err(GrubEnvironmentError::InvalidArgs)
    );
}

#[test]
fn mountpoints_are_named_after_devices() {
    assert_eq!(mountpoint_for("/dev/sda1"), s("/mnt/dev-sda1"));
    assert_eq!(mountpoint_for("/dev/mapper/vg-root"), s("/mnt/dev-mapper-vg-root"));
    assert_eq!(mountpoint_for("//dev/x"), s("/mnt/dev-x"));
    assert_eq!(mountpoint_for("dev/x/"), s("/mnt/dev-x-"));
    assert_eq!(mountpoint_for(""), s("/mnt/"));
}
