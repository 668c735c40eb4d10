use tinyboot::bootloader::{offered_entries, BootInfo, BootLoaderError, GrubBootLoader};
use tinyboot::message::LinuxBootEntry;
use tinyboot::environment::TinybootGrubEnvironment;
use tinyboot::error::GrubEnvironmentError;
use tinyboot::klog::filter_kernel_log;
use tinyboot::menu::{flatten_entries, GrubEntry, MenuEntry};
use tinyboot::probe::{candidates, detect_fs_type, BlockNode, ProbeError};
use tinyboot::device::FsType;
use tinyboot::prompt::{
    selected_action, with_fixed_entries, Echo, Key, MenuAction, Prompt, PromptError, PromptStep,
};
use tinyboot::syslinux::{parse_syslinux, Label, SyslinuxBootLoader, SyslinuxConfig};

fn s(text: &str) -> String {
    text.to_string()
}

fn boot(id: Option<&str>, title: &str) -> GrubEntry {
    GrubEntry {
        id: id.map(s),
        title: s(title),
        consequence: Some(format!("linux /{}", title)),
        menuentries: None,
    }
}

fn submenu(id: Option<&str>, title: &str, under: Vec<GrubEntry>) -> GrubEntry {
    GrubEntry {
        id: id.map(s),
        title: s(title),
        consequence: None,
        menuentries: Some(under),
    }
}

fn loader(menu: Vec<GrubEntry>, vars: &[(&str, &str)]) -> GrubBootLoader {
    let mut env = GrubBootLoader::environment("/mnt/dev-sda1", 0);
    for (k, v) in vars {
        env.set_env(s(k), Some(s(v)));
    }
    GrubBootLoader::new("/mnt/dev-sda1", menu, env)
}

fn sample_menu() -> Vec<GrubEntry> {
    vec![
        boot(Some("first"), "First"),
        submenu(
            Some("advanced"),
            "Advanced options",
            vec![
                boot(Some("old"), "Old kernel"),
                submenu(None, "nested", vec![boot(None, "deep")]),
                boot(None, "Recovery"),
            ],
        ),
        GrubEntry {
            id: None,
            title: s("neither"),
            consequence: None,
            menuentries: None,
        },
        boot(None, "Last"),
    ]
}

#[test]
fn menu_flattening() {
    let l = loader(
        vec![submenu(
            Some("sub"),
            "Submenu",
            vec![boot(Some("a"), "A"), boot(None, "B")],
        )],
        &[],
    );
    let menu = l.menu_entries().unwrap();
    assert_eq!(
        menu,
        vec![MenuEntry::SubMenu((
            s("sub"),
            s("Submenu"),
            vec![(s("a"), s("A")), (s("B"), s("B"))]
        ))]
    );
    assert_eq!(flatten_entries(menu), vec![(s("a"), s("A")), (s("B"), s("B"))]);
}

#[test]
fn menu_entries_of_a_mixed_menu() {
    let l = loader(sample_menu(), &[]);
    let menu = l.menu_entries().unwrap();
    assert_eq!(
        menu,
        vec![
            MenuEntry::BootEntry((s("first"), s("First"))),
            MenuEntry::SubMenu((
                s("advanced"),
                s("Advanced options"),
                vec![(s("old"), s("Old kernel")), (s("Recovery"), s("Recovery"))]
            )),
            MenuEntry::BootEntry((s("Last"), s("Last"))),
        ]
    );
    assert_eq!(
        flatten_entries(menu),
        vec![
            (s("first"), s("First")),
            (s("old"), s("Old kernel")),
            (s("Recovery"), s("Recovery")),
            (s("Last"), s("Last")),
        ]
    );
    assert_eq!(flatten_entries(vec![]), vec![]);
}

#[test]
fn boot_entry_by_name_and_by_default() {
    let title = |l: &GrubBootLoader, id: Option<&str>| {
        l.boot_entry(id.map(s)).map(|e| e.title.clone())
    };
    let l = loader(sample_menu(), &[]);
    assert_eq!(title(&l, Some("old")), Ok(s("Old kernel")));
    assert_eq!(title(&l, Some("Recovery")), Ok(s("Recovery")));
    assert_eq!(title(&l, Some("Last")), Ok(s("Last")));
    assert_eq!(title(&l, Some("advanced")), Err(BootLoaderError::BootEntryNotFound));
    assert_eq!(title(&l, Some("nested")), Err(BootLoaderError::BootEntryNotFound));
    assert_eq!(title(&l, Some("nowhere")), Err(BootLoaderError::BootEntryNotFound));
    assert_eq!(title(&l, None), Ok(s("First")));
    assert_eq!(title(&loader(sample_menu(), &[("default", "1")]), None), Ok(s("Old kernel")));
    assert_eq!(title(&loader(sample_menu(), &[("default", "3")]), None), Ok(s("Recovery")));
    assert_eq!(
        title(&loader(sample_menu(), &[("default", "2")]), None),
        Err(BootLoaderError::BootEntryNotFound)
    );
    assert_eq!(
        title(&loader(sample_menu(), &[("default", "99")]), None),
        Err(BootLoaderError::BootEntryNotFound)
    );
    assert_eq!(title(&loader(sample_menu(), &[("default", "Last")]), None), Ok(s("Last")));
    assert_eq!(title(&loader(sample_menu(), &[("default", "gone")]), None), Ok(s("First")));
    assert_eq!(title(&loader(sample_menu(), &[("default", "-1")]), None), Ok(s("First")));
    assert_eq!(title(&loader(sample_menu(), &[("default", "-0")]), None), Ok(s("First")));
    assert_eq!(title(&loader(sample_menu(), &[("default", "+1")]), None), Ok(s("Old kernel")));
    assert_eq!(title(&loader(sample_menu(), &[("default", "005")]), None), Ok(s("Last")));
    assert_eq!(
        title(&loader(sample_menu(), &[("default", "99999999999999999999999")]), None),
        Ok(s("First"))
    );
    assert_eq!(
        title(&loader(sample_menu(), &[("default", "9223372036854775808")]), None),
        Err(BootLoaderError::BootEntryNotFound)
    );
    let signed = || {
        vec![
            boot(Some("zero"), "Zero"),
            boot(Some("-1"), "Minus one"),
            boot(Some("-0"), "Minus zero"),
            boot(Some("1"), "One"),
        ]
    };
    assert_eq!(title(&loader(signed(), &[("default", "-1")]), None), Ok(s("Minus one")));
    assert_eq!(title(&loader(signed(), &[("default", "-0")]), None), Ok(s("Minus zero")));
    assert_eq!(title(&loader(signed(), &[("default", "1")]), None), Ok(s("Minus one")));
    assert_eq!(title(&loader(signed(), &[("default", "3")]), None), Ok(s("One")));
    assert_eq!(title(&loader(signed(), &[("default", "-2")]), None), Ok(s("Zero")));
    assert_eq!(
        title(&loader(vec![], &[]), None),
        Err(BootLoaderError::BootEntryNotFound)
    );
}

#[test]
fn choices_and_default_choice() {
    let l = loader(sample_menu(), &[]);
    let titles: Vec<String> = l.boot_choices().iter().map(|e| e.title.clone()).collect();
    assert_eq!(
        titles,
        vec![s("First"), s("Old kernel"), s("nested"), s("Recovery"), s("neither"), s("Last")]
    );
    assert_eq!(l.default_choice(), Some(0));
    assert_eq!(loader(sample_menu(), &[("default", "3")]).default_choice(), Some(3));
    assert_eq!(loader(sample_menu(), &[("default", "2")]).default_choice(), None);
    assert_eq!(loader(sample_menu(), &[("default", "Last")]).default_choice(), Some(5));
    assert_eq!(loader(sample_menu(), &[("default", "-1")]).default_choice(), Some(0));
    assert_eq!(loader(vec![], &[]).default_choice(), None);
    assert!(loader(vec![], &[]).boot_choices().is_empty());
}

#[test]
fn entries_that_a_grub_device_offers() {
    let l = loader(sample_menu(), &[("default", "3")]);
    let choices = l.boot_choices();
    let info = |linux: &str, initrd: Option<&str>, cmdline: &str| {
        Some(BootInfo {
            linux: s(linux),
            initrd: initrd.map(s),
            cmdline: s(cmdline),
        })
    };
    let infos = vec![
        info("/mnt/first", Some("/mnt/initrd"), "quiet"),
        None,
        None,
        info("/mnt/recovery", None, ""),
        None,
        info("/mnt/last", None, "single"),
    ];
    let offered = offered_entries(&choices, &infos, l.default_choice());
    assert_eq!(
        offered,
        vec![
            LinuxBootEntry {
                default: false,
                display: s("First"),
                linux: s("/mnt/first"),
                initrd: Some(s("/mnt/initrd")),
                cmdline: Some(s("quiet")),
            },
            LinuxBootEntry {
                default: true,
                display: s("Recovery"),
                linux: s("/mnt/recovery"),
                initrd: None,
                cmdline: Some(s("")),
            },
            LinuxBootEntry {
                default: false,
                display: s("Last"),
                linux: s("/mnt/last"),
                initrd: None,
                cmdline: Some(s("single")),
            },
        ]
    );
    let none = offered_entries(&choices, &infos, None);
    assert!(none.iter().all(|e| !e.default));
    assert_eq!(none.len(), 3);
    assert_eq!(offered_entries(&choices, &vec![], Some(0)), vec![]);
    let short = vec![info("/k", None, "")];
    assert_eq!(offered_entries(&choices, &short, Some(1)).len(), 1);
    assert!(!offered_entries(&choices, &short, Some(1))[0].default);
    assert!(offered_entries(&choices, &short, Some(0))[0].default);
}

#[test]
fn grub_timeout_and_prefix() {
    assert_eq!(loader(vec![], &[]).timeout(), 5);
    assert_eq!(loader(vec![], &[("timeout", "3")]).timeout(), 3);
    assert_eq!(loader(vec![], &[("timeout", "0")]).timeout(), 0);
    assert_eq!(loader(vec![], &[("timeout", "-1")]).timeout(), 5);
    assert_eq!(loader(vec![], &[("timeout", "soon")]).timeout(), 5);
    let l = loader(vec![], &[]);
    assert_eq!(l.mountpoint(), "/mnt/dev-sda1");
    assert_eq!(l.env().get_env("prefix"), Some(&s("/mnt/dev-sda1/boot/grub")));
    assert_eq!(
        GrubBootLoader::environment("/mnt/x", 1).get_env("prefix"),
        Some(&s("/mnt/x/grub"))
    );
    assert_eq!(GrubBootLoader::locate(true, true), Ok(0));
    assert_eq!(GrubBootLoader::locate(false, true), Ok(1));
    assert_eq!(GrubBootLoader::locate(false, false), Err(BootLoaderError::BootConfigNotFound));
    assert_eq!(GrubBootLoader::config_file(0), "boot/grub/grub.cfg");
    assert_eq!(GrubBootLoader::config_file(1), "grub/grub.cfg");
}

#[test]
fn boot_info_after_evaluation() {
    let mut env = TinybootGrubEnvironment::new("/");
    assert_eq!(GrubBootLoader::boot_info(&env), Err(BootLoaderError::BootEntryIncomplete));
    env.run_initrd(vec![s("initrd"), s("/initrd")]).unwrap();
    assert_eq!(GrubBootLoader::boot_info(&env), Err(BootLoaderError::BootEntryIncomplete));
    env.run_linux(vec![s("linux"), s("/vmlinuz"), s("ro")]).unwrap();
    assert_eq!(
        GrubBootLoader::boot_info(&env),
        Ok(BootInfo {
            linux: s("/vmlinuz"),
            initrd: Some(s("/initrd")),
            cmdline: s("ro"),
        })
    );
    let mut bare = TinybootGrubEnvironment::new("/");
    bare.set_env(s("linux"), Some(s("/k")));
    assert_eq!(
        GrubBootLoader::boot_info(&bare),
        Ok(BootInfo {
            linux: s("/k"),
            initrd: None,
            cmdline: s(""),
        })
    );
}

#[test]
fn error_conversions() {
    assert_eq!(
        GrubEnvironmentError::from(nix::errno::Errno::EBUSY),
        GrubEnvironmentError::Nix(nix::errno::Errno::EBUSY.to_string())
    );
    let io = std::io::Error::new(std::io::ErrorKind::Other, "broken");
    assert_eq!(GrubEnvironmentError::from(io), GrubEnvironmentError::Io(s("broken")));
}

const EXTLINUX: &str = "# generated\nDEFAULT nixos-2\nMENU TITLE boot menu\nTIMEOUT 35\nprompt 0\n\nLABEL nixos-1\n  MENU LABEL NixOS - generation 1\n  LINUX ../nixos/1-bzImage\n  INITRD ../nixos/1-initrd\n  APPEND init=/nix/store/1/init   loglevel=4  \r\n\nlabel nixos-2\n\tmenu label NixOS - generation 2\n\tlinux /boot/2-bzImage\n\nLABEL broken\n  APPEND nothing\nLABEL plain\n  LINUX vmlinuz\n  FDT ignored.dtb";

#[test]
fn syslinux_configuration() {
    let cfg = parse_syslinux(EXTLINUX);
    assert_eq!(
        cfg,
        SyslinuxConfig {
            default: Some(s("nixos-2")),
            timeout: Some(35),
            labels: vec![
                Label {
                    name: s("nixos-1"),
                    title: Some(s("NixOS - generation 1")),
                    linux: Some(s("../nixos/1-bzImage")),
                    initrd: Some(s("../nixos/1-initrd")),
                    append: Some(s("init=/nix/store/1/init   loglevel=4")),
                },
                Label {
                    name: s("nixos-2"),
                    title: Some(s("NixOS - generation 2")),
                    linux: Some(s("/boot/2-bzImage")),
                    initrd: None,
                    append: None,
                },
                Label {
                    name: s("broken"),
                    title: None,
                    linux: None,
                    initrd: None,
                    append: Some(s("nothing")),
                },
                Label {
                    name: s("plain"),
                    title: None,
                    linux: Some(s("vmlinuz")),
                    initrd: None,
                    append: None,
                },
            ],
        }
    );
    assert_eq!(
        parse_syslinux("LINUX orphan\nTIMEOUT soon\nTIMEOUT -5\n"),
        SyslinuxConfig {
            default: None,
            timeout: None,
            labels: vec![],
        }
    );
}

#[test]
fn syslinux_boot_loader() {
    let l = SyslinuxBootLoader::new("/mnt/dev-sdb1", 0, EXTLINUX);
    assert_eq!(l.timeout(), 3);
    assert_eq!(l.mountpoint(), "/mnt/dev-sdb1");
    assert_eq!(
        l.menu_entries(),
        Ok(vec![
            MenuEntry::BootEntry((s("nixos-1"), s("NixOS - generation 1"))),
            MenuEntry::BootEntry((s("nixos-2"), s("NixOS - generation 2"))),
            MenuEntry::BootEntry((s("plain"), s("plain"))),
        ])
    );
    assert_eq!(
        l.boot_info(None),
        Ok(BootInfo {
            linux: s("/mnt/dev-sdb1/boot/2-bzImage"),
            initrd: None,
            cmdline: s(""),
        })
    );
    assert_eq!(
        l.boot_info(Some(s("nixos-1"))),
        Ok(BootInfo {
            linux: s("/mnt/dev-sdb1/extlinux/../nixos/1-bzImage"),
            initrd: Some(s("/mnt/dev-sdb1/extlinux/../nixos/1-initrd")),
            cmdline: s("init=/nix/store/1/init   loglevel=4"),
        })
    );
    assert_eq!(
        l.boot_entries(),
        vec![
            LinuxBootEntry {
                default: false,
                display: s("NixOS - generation 1"),
                linux: s("/mnt/dev-sdb1/extlinux/../nixos/1-bzImage"),
                initrd: Some(s("/mnt/dev-sdb1/extlinux/../nixos/1-initrd")),
                cmdline: Some(s("init=/nix/store/1/init   loglevel=4")),
            },
            LinuxBootEntry {
                default: true,
                display: s("NixOS - generation 2"),
                linux: s("/mnt/dev-sdb1/boot/2-bzImage"),
                initrd: None,
                cmdline: None,
            },
            LinuxBootEntry {
                default: false,
                display: s("plain"),
                linux: s("/mnt/dev-sdb1/extlinux/vmlinuz"),
                initrd: None,
                cmdline: None,
            },
        ]
    );
    assert!(SyslinuxBootLoader::new("/mnt/x", 1, "DEFAULT a\n").boot_entries().is_empty());
    let unnamed = SyslinuxBootLoader::new("/mnt/x", 1, "DEFAULT gone\nLABEL a\nLINUX k\nLABEL b\nLINUX l\n");
    let flags: Vec<bool> = unnamed.boot_entries().iter().map(|e| e.default).collect();
    assert_eq!(flags, vec![true, false]);
    assert_eq!(l.boot_info(Some(s("broken"))), Err(BootLoaderError::BootEntryNotFound));
    assert_eq!(l.boot_info(Some(s("absent"))), Err(BootLoaderError::BootEntryNotFound));
    let other = SyslinuxBootLoader::new("/mnt/x", 1, "LABEL a\nLINUX k\nLABEL b\nLINUX l\n");
    assert_eq!(other.timeout(), 0);
    assert_eq!(other.boot_info(None).unwrap().linux, s("/mnt/x/syslinux/k"));
    assert_eq!(
        SyslinuxBootLoader::new("/mnt/x", 1, "").boot_info(None),
        Err(BootLoaderError::BootEntryNotFound)
    );
    assert_eq!(SyslinuxBootLoader::locate(false, true), Ok(1));
    assert_eq!(SyslinuxBootLoader::locate(true, false), Ok(0));
    assert_eq!(
        SyslinuxBootLoader::locate(false, false),
        Err(BootLoaderError::BootConfigNotFound)
    );
    assert_eq!(SyslinuxBootLoader::config_file(0), "extlinux/extlinux.conf");
    assert_eq!(SyslinuxBootLoader::config_file(1), "syslinux/syslinux.cfg");
}

fn ext4_image(label: &[u8]) -> Vec<u8> {
    let mut bytes = vec![0u8; 2048];
    bytes[1024 + 56] = 0x53;
    bytes[1024 + 57] = 0xEF;
    for i in 0..16 {
        bytes[1024 + 104 + i] = (0x10 * (i as u8 % 16)) | (15 - i as u8);
    }
    bytes[1024 + 120..1024 + 120 + label.len()].copy_from_slice(label);
    bytes
}

fn fat_image(fat32: bool) -> Vec<u8> {
    let mut bytes = vec![0u8; 512];
    bytes[3..11].copy_from_slice(b"mkfs.fat");
    bytes[11] = 0x00;
    bytes[12] = 0x02;
    bytes[510] = 0x55;
    bytes[511] = 0xAA;
    let at = if fat32 {
        bytes[32] = 0x00;
        bytes[35] = 0x01;
        67
    } else {
        bytes[17] = 0x00;
        bytes[18] = 0x02;
        bytes[19] = 0x00;
        bytes[20] = 0x80;
        39
    };
    bytes[at..at + 4].copy_from_slice(&[0xEC, 0x99, 0x22, 0xBB]);
    bytes[at + 4..at + 15].copy_from_slice(b"ESP        ");
    bytes
}

#[test]
fn probe_ext4() {
    assert_eq!(
        detect_fs_type(&ext4_image(b"nixos")),
        Ok(FsType::Ext4(s("0f1e2d3c-4b5a-6978-8796-a5b4c3d2e1f0"), s("nixos")))
    );
    assert_eq!(
        detect_fs_type(&ext4_image(b"sixteen_bytes_ok")),
        Ok(FsType::Ext4(s("0f1e2d3c-4b5a-6978-8796-a5b4c3d2e1f0"), s("sixteen_bytes_ok")))
    );
    assert_eq!(
        detect_fs_type(&ext4_image(b"")),
        Ok(FsType::Ext4(s("0f1e2d3c-4b5a-6978-8796-a5b4c3d2e1f0"), s("")))
    );
    let mut short = ext4_image(b"x");
    short.truncate(1024 + 135);
    assert_eq!(detect_fs_type(&short), Err(ProbeError::NotRecognized));
    let mut wrong = ext4_image(b"x");
    wrong[1024 + 57] = 0xEE;
    assert_eq!(detect_fs_type(&wrong), Err(ProbeError::NotRecognized));
}

#[test]
fn probe_fat() {
    assert_eq!(
        detect_fs_type(&fat_image(true)),
        Ok(FsType::Fat32(s("mkfs.fat"), s("BB22-99EC"), s("ESP")))
    );
    assert_eq!(
        detect_fs_type(&fat_image(false)),
        Ok(FsType::Fat16(s("mkfs.fat"), s("BB22-99EC"), s("ESP")))
    );
    let mut unsigned = fat_image(true);
    unsigned[511] = 0;
    assert_eq!(detect_fs_type(&unsigned), Err(ProbeError::NotRecognized));
    let mut odd_sector = fat_image(true);
    odd_sector[12] = 0x03;
    assert_eq!(detect_fs_type(&odd_sector), Err(ProbeError::NotRecognized));
    let mut empty = fat_image(true);
    empty[35] = 0;
    assert_eq!(detect_fs_type(&empty), Err(ProbeError::NotRecognized));
    assert_eq!(detect_fs_type(&vec![]), Err(ProbeError::NotRecognized));
    assert_eq!(detect_fs_type(&vec![0u8; 4096]), Err(ProbeError::NotRecognized));
}

#[test]
fn block_device_candidates() {
    let node = |path: &str, has_partitions, is_loop, has_backing_file, size| BlockNode {
        path: s(path),
        has_partitions,
        is_loop,
        has_backing_file,
        size,
    };
    let nodes = vec![
        node("/dev/sda", true, false, false, 1000),
        node("/dev/sda1", false, false, false, 500),
        node("/dev/loop0", false, true, false, 8),
        node("/dev/loop1", false, true, true, 8),
        node("/dev/sdb", false, false, false, 0),
        node("/dev/sdc", false, false, false, 1),
    ];
    assert_eq!(candidates(&nodes), vec![s("/dev/sda1"), s("/dev/loop1"), s("/dev/sdc")]);
    assert!(candidates(&vec![]).is_empty());
}

#[test]
fn kernel_log_is_filtered_by_level() {
    let buffer = b"<6>info line\n<3>error line\n<7>debug line\n<4>\n<0>x\nshort\n<5>notice".to_vec();
    assert_eq!(
        String::from_utf8(filter_kernel_log(5, &buffer)).unwrap(),
        "error line\nx\nnotice"
    );
    assert_eq!(
        String::from_utf8(filter_kernel_log(200, &buffer)).unwrap(),
        "info line\nerror line\ndebug line\nx\nnotice"
    );
    assert_eq!(String::from_utf8(filter_kernel_log(0, &buffer)).unwrap(), "x");
    assert_eq!(filter_kernel_log(7, &b"".to_vec()), b"".to_vec());
    assert_eq!(filter_kernel_log(7, &b"<9>too high\n<!>odd\n".to_vec()), b"".to_vec());
    assert_eq!(filter_kernel_log(7, &b"<1>a\n".to_vec()), b"a".to_vec());
}

#[test]
fn console_menu_keys() {
    let mut p = Prompt::new();
    assert!(p.on_tick(5, 5));
    assert!(!p.on_tick(4, 5));
    assert_eq!(p.on_key(Key::Other, 5), PromptStep::Continue(Echo::Nothing));
    assert!(!p.on_tick(100, 5));
    assert_eq!(p.on_key(Key::Char('1'), 5), PromptStep::Continue(Echo::Print('1')));
    assert_eq!(p.on_key(Key::Char('2'), 5), PromptStep::Continue(Echo::Print('2')));
    assert_eq!(p.on_key(Key::Backspace, 5), PromptStep::Continue(Echo::EraseOne));
    assert_eq!(p.on_key(Key::Char('\n'), 5), PromptStep::Chosen(0));
    assert_eq!(p.on_key(Key::Char('0'), 5), PromptStep::Continue(Echo::Print('0')));
    assert_eq!(p.on_key(Key::Char('\n'), 500), PromptStep::Chosen(9));
    assert_eq!(p.on_key(Key::Char('\n'), 9), PromptStep::Abort(PromptError::NoSuchEntry));
    assert_eq!(p.on_key(Key::Ctrl('u'), 9), PromptStep::Continue(Echo::EraseLine(2)));
    assert_eq!(p.on_key(Key::Char('\n'), 9), PromptStep::Abort(PromptError::Exit));
    assert_eq!(p.on_key(Key::Backspace, 9), PromptStep::Continue(Echo::EraseOne));
    assert_eq!(p.on_key(Key::Char('0'), 9), PromptStep::Continue(Echo::Print('0')));
    assert_eq!(p.on_key(Key::Char('\n'), 9), PromptStep::Abort(PromptError::NoSuchEntry));
    assert_eq!(p.on_key(Key::Char('x'), 9), PromptStep::Abort(PromptError::NotNumeric));
    assert_eq!(p.on_key(Key::Ctrl('c'), 9), PromptStep::Abort(PromptError::Exit));
    assert_eq!(p.on_key(Key::Ctrl('g'), 9), PromptStep::Abort(PromptError::Exit));
    assert_eq!(p.on_key(Key::Ctrl('x'), 9), PromptStep::Continue(Echo::Nothing));
    let mut big = Prompt::new();
    for _ in 0..30 {
        assert_eq!(big.on_key(Key::Char('9'), 9), PromptStep::Continue(Echo::Print('9')));
    }
    assert_eq!(big.on_key(Key::Char('\n'), 9), PromptStep::Abort(PromptError::NotANumber));
}

#[test]
fn console_menu_entries_and_actions() {
    assert_eq!(
        with_fixed_entries(vec![(s("a"), s("A"))]),
        vec![
            (s("a"), s("A")),
            (s("reboot"), s("Reboot")),
            (s("poweroff"), s("Poweroff")),
            (s("shell"), s("Exit to shell")),
        ]
    );
    assert_eq!(selected_action(None), MenuAction::Boot);
    assert_eq!(selected_action(Some("a")), MenuAction::Boot);
    assert_eq!(selected_action(Some("shell")), MenuAction::Shell);
    assert_eq!(selected_action(Some("poweroff")), MenuAction::Poweroff);
    assert_eq!(selected_action(Some("reboot")), MenuAction::Reboot);
}
