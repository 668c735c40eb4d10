use tinyboot::install::{
    efi_name, entry_contents, entry_file_name, entry_pattern, generation_of, push_decimal,
    Generation,
};

fn s(text: &str) -> String {
    text.to_string()
}

#[test]
fn numbers_are_written_in_decimal() {
    for n in [0u32, 7, 10, 99, 100, 4096, 1_000_000, u32::MAX] {
        let mut text = s("n=");
        push_decimal(&mut text, n);
        assert_eq!(text, format!("n={}", n));
    }
}

#[test]
fn boot_entry_text() {
    let generation = Generation {
        label: s("NixOS 23.05 (Linux 6.1)"),
        linux: s("EFI/nixos/abc-linux-6.1-bzImage"),
        initrd: Some(s("EFI/nixos/def-initrd-initrd")),
        init: s("/nix/store/xyz/init"),
        kernel_params: vec![s("loglevel=4"), s("quiet")],
    };
    assert_eq!(
        entry_contents(&generation, None, Some("0123abcd\n")),
        "title NixOS\nversion NixOS 23.05 (Linux 6.1)\nlinux /EFI/nixos/abc-linux-6.1-bzImage\ninitrd /EFI/nixos/def-initrd-initrd\noptions init=/nix/store/xyz/init loglevel=4 quiet\nmachine-id 0123abcd\n"
    );
    let bare = Generation {
        label: s("L"),
        linux: s("k"),
        initrd: None,
        init: s("/init"),
        kernel_params: vec![],
    };
    assert_eq!(
        entry_contents(&bare, Some("safe"), None),
        "title NixOS (safe)\nversion L\nlinux /k\n\noptions init=/init \n\n"
    );
}

#[test]
fn boot_entry_file_names() {
    assert_eq!(entry_file_name(12, None, 3), "nixos-generation-12+3.conf");
    assert_eq!(
        entry_file_name(7, Some("safe"), 0),
        "nixos-generation-7-specialisation-safe+0.conf"
    );
    assert_eq!(
        entry_pattern("/boot/loader/entries", 12),
        "/boot/loader/entries/nixos-generation-12*.conf"
    );
}

#[test]
fn kernels_are_named_after_their_store_path() {
    assert_eq!(
        efi_name("/nix/store/abc-linux-6.1/bzImage"),
        Some(s("EFI/nixos/abc-linux-6.1-bzImage"))
    );
    assert_eq!(efi_name("dir/file"), Some(s("EFI/nixos/dir-file")));
    assert_eq!(efi_name("/a//b/"), Some(s("EFI/nixos/a-b")));
    assert_eq!(efi_name("/file"), None);
    assert_eq!(efi_name("file"), None);
    assert_eq!(efi_name(""), None);
    assert_eq!(efi_name("/a/.."), None);
    assert_eq!(efi_name("/./b"), None);
    for path in ["/nix/store/abc-linux-6.1/bzImage", "x/y", "/a/b/c.d"] {
        let p = std::path::Path::new(path);
        let expected = format!(
            "EFI/nixos/{}-{}",
            p.parent().unwrap().file_name().unwrap().to_str().unwrap(),
            p.file_name().unwrap().to_str().unwrap()
        );
        assert_eq!(efi_name(path), Some(expected));
    }
}

#[test]
fn generation_numbers_of_profile_links() {
    assert_eq!(generation_of("system-12-link"), Some(12));
    assert_eq!(generation_of("system-0-link"), Some(0));
    assert_eq!(generation_of("system-4294967295-link"), Some(u32::MAX));
    assert_eq!(generation_of("system-4294967296-link"), None);
    assert_eq!(generation_of("system--link"), None);
    assert_eq!(generation_of("system-1"), None);
    assert_eq!(generation_of("system"), None);
    assert_eq!(generation_of("per-user-3-link"), None);
    assert_eq!(generation_of("system-+3-link"), None);
    assert_eq!(generation_of("system-x-link"), None);
}
