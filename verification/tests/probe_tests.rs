use atlasfetch::probe::{
    android_gpu, apt_count, drm_gpu, byte_prefix_of, byte_suffix_of, card_cuts_char, card_gpu, partition_blocks_checked, uevent_cuts_char, de_from_comm, de_from_env, detect_font, dmi_name, fb_resolution,
    first_mode, first_prefixed_line, first_word_or, font_setting, gsettings_font, is_connector, is_gpu_card,
    is_pid_name, kb_value, line_count, listed_count, meminfo_kb, packages_line, parse_u32, parse_u64,
    partition_blocks, pci_vendor, physical_size, shell_name, uevent_gpu, wezterm_font, wm_from_comm, wm_from_env,
    xresources_font, AndroidGpuFiles, CardFiles, FontFile, FontSources, UeventGpu,
};

fn no_fonts() -> FontSources {
    FontSources {
        kitty: None,
        alacritty_yaml: None,
        alacritty_toml: None,
        wezterm: None,
        ghostty: None,
        foot: None,
        xresources: None,
        xdefaults: None,
        gsettings: None,
        konsole: None,
        env: vec![String::new(), String::new(), String::new()],
    }
}

fn card() -> CardFiles {
    CardFiles { uevent: None, product_name: None, model: None, class: None, vendor: None }
}

#[test]
fn prefixed_lines() {
    assert_eq!(first_prefixed_line("a=1\n  key=2\nkey=3", "key=", true), Some("2".to_string()));
    assert_eq!(first_prefixed_line("a=1\n  key=2\nkey=3", "key=", false), Some("3".to_string()));
    assert_eq!(first_prefixed_line("a=1", "key=", true), None);
}

#[test]
fn font_settings_files() {
    assert_eq!(font_setting("# x\nfont_family \"JetBrains Mono\"\n", FontFile::Kitty), Some("JetBrains Mono".to_string()));
    assert_eq!(font_setting("font:\n  normal:\n    family: \"Fira Code\"", FontFile::AlacrittyYaml), Some("Fira Code".to_string()));
    assert_eq!(font_setting("[font.normal]\nfamily = \"Hack\"", FontFile::AlacrittyToml), Some("Hack".to_string()));
    assert_eq!(font_setting("font-family = Iosevka Term", FontFile::Ghostty), Some("Iosevka Term".to_string()));
    assert_eq!(font_setting("[main]\nfont=monospace:size=11", FontFile::Foot), Some("monospace:size=11".to_string()));
    assert_eq!(font_setting("[Appearance]\nFont=Noto Mono,10", FontFile::Konsole), Some("Noto Mono,10".to_string()));
    assert_eq!(font_setting("nothing here", FontFile::Foot), None);
}

#[test]
fn wezterm_xresources_gsettings() {
    assert_eq!(wezterm_font("local c = {}\nc.font = wezterm.font(\"Cascadia Code\")"), Some("Cascadia Code".to_string()));
    assert_eq!(wezterm_font("font='Mono'"), Some("Mono".to_string()));
    assert_eq!(wezterm_font("font=\"open\nfont='x'"), Some("x".to_string()));
    assert_eq!(xresources_font("URxvt*font: xft:Terminus:size=12"), Some("xft".to_string()));
    assert_eq!(xresources_font("URxvt.font: xft:Terminus"), None);
    assert_eq!(xresources_font("XTerm.font:"), Some(String::new()));
    assert_eq!(xresources_font("*font: fixed"), Some("fixed".to_string()));
    assert_eq!(xresources_font("XTerm*faceName: x"), None);
    assert_eq!(gsettings_font("'Monospace 11'\n"), Some("Monospace 11".to_string()));
    assert_eq!(gsettings_font("@as"), None);
    assert_eq!(gsettings_font(""), None);
}

#[test]
fn font_lookup_order() {
    assert_eq!(detect_font(&no_fonts()), "");
    let mut s = no_fonts();
    s.env = vec![String::new(), "EnvFont".to_string(), "Other".to_string()];
    assert_eq!(detect_font(&s), "EnvFont");
    s.konsole = Some("Font=K".to_string());
    assert_eq!(detect_font(&s), "K");
    s.kitty = Some("no font line".to_string());
    assert_eq!(detect_font(&s), "K");
    s.foot = Some("font=F".to_string());
    assert_eq!(detect_font(&s), "F");
    s.kitty = Some("font_family Kit".to_string());
    assert_eq!(detect_font(&s), "Kit");
}

#[test]
fn byte_prefixes() {
    assert_eq!(byte_prefix_of("10de1234", 4), Some("10de".to_string()));
    assert_eq!(byte_prefix_of("ab", 4), None);
    assert_eq!(byte_prefix_of("\u{e9}12", 4), Some("\u{e9}12".to_string()));
    assert_eq!(byte_prefix_of("a\u{e9}x", 2), None);
    assert_eq!(byte_suffix_of("00008086", 4), Some("8086".to_string()));
    assert_eq!(byte_suffix_of("ab", 4), None);
    assert_eq!(byte_suffix_of("12\u{e9}", 4), Some("12\u{e9}".to_string()));
    assert_eq!(byte_suffix_of("x\u{e9}a", 2), None);
}

#[test]
fn uevent_scanning() {
    assert!(matches!(uevent_gpu("DRIVER=amdgpu\nPCI_ID=1002:73BF"), UeventGpu::Amd));
    assert!(matches!(uevent_gpu("DRIVER=nvidia"), UeventGpu::Nvidia));
    match uevent_gpu("DRIVER=i915\nMODALIAS=pci:v00008086d00003E92sv00001028sd0000085Cbc03sc00i00\n") {
        UeventGpu::Vendor(v) => assert_eq!(v, "Intel"),
        _ => panic!("expected a vendor"),
    }
    match uevent_gpu("MODALIAS=pci:v000010DEd00002504") {
        UeventGpu::Vendor(v) => assert_eq!(v, "PCI:10DE"),
        _ => panic!("expected a vendor"),
    }
    match uevent_gpu("MODALIAS=pci:v10DEd1234") {
        UeventGpu::Vendor(v) => assert_eq!(v, "PCI:10DE"),
        _ => panic!("expected a vendor"),
    }
    match uevent_gpu("MODALIAS=pci:v8086d1234") {
        UeventGpu::Vendor(v) => assert_eq!(v, "Intel"),
        _ => panic!("expected a vendor"),
    }
    assert!(matches!(uevent_gpu("DRIVER=i915"), UeventGpu::Unknown));
    assert_eq!(pci_vendor("1022"), "AMD");
    assert_eq!(pci_vendor("abcd"), "PCI:abcd");
}

#[test]
fn card_decisions() {
    assert!(is_gpu_card("card0"));
    assert!(!is_gpu_card("renderD128"));
    assert!(!is_gpu_card("card0-render"));
    let mut c = card();
    c.uevent = Some("DRIVER=amdgpu".to_string());
    assert_eq!(card_gpu(&c), Some("AMD Radeon".to_string()));
    c.product_name = Some("AMD Radeon RX 6700 XT\n".to_string());
    assert_eq!(card_gpu(&c), Some("AMD RX 6700 XT".to_string()));
    let mut n = card();
    n.uevent = Some("DRIVER=nvidia".to_string());
    assert_eq!(card_gpu(&n), Some("NVIDIA".to_string()));
    n.model = Some("NVIDIA GeForce RTX 3060\n".to_string());
    assert_eq!(card_gpu(&n), Some("NVIDIA RTX 3060".to_string()));
    let mut f = card();
    f.class = Some("0x030000\n".to_string());
    f.vendor = Some("0x8086\n".to_string());
    assert_eq!(card_gpu(&f), Some("Intel".to_string()));
    f.vendor = Some("0x1af4".to_string());
    assert_eq!(card_gpu(&f), Some("GPU (0x1af4)".to_string()));
    f.class = Some("0x020000".to_string());
    assert_eq!(card_gpu(&f), None);
}

#[test]
fn phone_gpu() {
    let none = AndroidGpuFiles {
        kgsl_model: None,
        kgsl_name: None,
        mali_model: None,
        mali_platform: None,
        gpucrypto: None,
        drm_vendor: None,
    };
    assert_eq!(android_gpu(&none), "unknown");
    let a = AndroidGpuFiles { kgsl_model: Some("  \n".to_string()), kgsl_name: Some("640\n".to_string()), ..none };
    assert_eq!(android_gpu(&a), "Adreno 640");
    let m = AndroidGpuFiles {
        kgsl_model: None,
        kgsl_name: None,
        mali_model: None,
        mali_platform: Some(None),
        gpucrypto: None,
        drm_vendor: Some("0x5143".to_string()),
    };
    assert_eq!(android_gpu(&m), "ARM Mali");
    let d = AndroidGpuFiles { mali_platform: None, ..m };
    assert_eq!(android_gpu(&d), "Qualcomm Adreno");
    let p = AndroidGpuFiles {
        kgsl_model: None,
        kgsl_name: None,
        mali_model: None,
        mali_platform: None,
        gpucrypto: Some("gpu crypto".to_string()),
        drm_vendor: Some("0x9999".to_string()),
    };
    assert_eq!(android_gpu(&p), "PowerVR");
    let q = AndroidGpuFiles { gpucrypto: None, ..p };
    assert_eq!(android_gpu(&q), "GPU (0x9999)");
}

#[test]
fn numbers() {
    assert_eq!(parse_u64("42"), Some(42));
    assert_eq!(parse_u64("+7"), Some(7));
    assert_eq!(parse_u64(""), None);
    assert_eq!(parse_u64("+"), None);
    assert_eq!(parse_u64("1x"), None);
    assert_eq!(parse_u64("18446744073709551615"), Some(u64::MAX));
    assert_eq!(parse_u64("18446744073709551616"), None);
    assert_eq!(parse_u32("4294967296"), None);
    assert_eq!(parse_u32("1080"), Some(1080));
}

#[test]
fn package_counts() {
    assert_eq!(line_count("a\nb\nc\n"), 3);
    assert_eq!(listed_count("Name\nx\ny"), 2);
    assert_eq!(listed_count(""), 0);
    assert_eq!(apt_count("Listing...\nbash/stable 5.2\nzsh/stable 5.9\n"), 2);
    assert_eq!(packages_line(&vec![0, 12], &vec![5]), "12");
    assert_eq!(packages_line(&vec![], &vec![0, 0]), "\u{2014}");
    assert_eq!(packages_line(&vec![], &vec![1200, 0, 35]), "1235");
}

#[test]
fn display_readings() {
    assert_eq!(physical_size("Physical size: 1080x2400\n"), Some("1080x2400".to_string()));
    assert_eq!(physical_size("Override size: 1x1"), None);
    let s = |x: &str| Some(x.to_string());
    assert_eq!(fb_resolution(&s("1080,2400\n"), &None, &None), Some("1080x2400".to_string()));
    assert_eq!(fb_resolution(&s("1080"), &s("720\n"), &s("1280\n")), Some("720x1280".to_string()));
    assert_eq!(fb_resolution(&None, &s("720"), &None), None);
    assert_eq!(first_mode("\n  \n1920x1080\n1280x720"), Some("1920x1080".to_string()));
    assert_eq!(first_mode(""), None);
    assert!(is_connector("card0-HDMI-A-1"));
    assert!(!is_connector("card0"));
}

#[test]
fn session_readings() {
    let vars = |v: Vec<Option<&str>>| v.into_iter().map(|o| o.map(|s| s.to_string())).collect::<Vec<_>>();
    assert_eq!(wm_from_env(&vars(vec![Some(""), None, None, Some("/run/sway.sock"), None, None, None])), Some("Sway".to_string()));
    assert_eq!(wm_from_env(&vars(vec![Some("KDE"), None, None, None, None, None, None])), Some("KDE".to_string()));
    assert_eq!(wm_from_env(&vars(vec![None, None, None, None, None, None, None])), None);
    assert_eq!(wm_from_comm("kwin_wayland\n"), Some("KWin".to_string()));
    assert_eq!(wm_from_comm("bash"), None);
    assert_eq!(de_from_env(&Some(" ".to_string()), &Some("plasma".to_string()), true, false, false), Some("plasma".to_string()));
    assert_eq!(de_from_env(&None, &None, false, false, true), Some("KDE".to_string()));
    assert_eq!(de_from_comm("i3\n"), Some("i3".to_string()));
    assert_eq!(de_from_comm("plasmashell"), Some("KDE".to_string()));
}

#[test]
fn small_readings() {
    assert_eq!(first_word_or("0.52 0.58 0.59 1/123 4567", "?"), "0.52");
    assert_eq!(first_word_or("", "?"), "?");
    assert!(is_pid_name("1234"));
    assert!(!is_pid_name("self"));
    assert_eq!(kb_value("   16318480 kB"), 16318480);
    assert_eq!(kb_value(" x"), 0);
    assert_eq!(meminfo_kb("MemTotal: 100 kB\nMemFree: 5 kB\nMemAvailable: 40 kB\n"), (100, 40));
    assert_eq!(dmi_name("To Be Filled By O.E.M.\n"), None);
    assert_eq!(dmi_name("ThinkPad X1\n"), Some("ThinkPad X1".to_string()));
    assert_eq!(partition_blocks("major minor  #blocks  name\n\n 8 0 1000 sda\n 7 0 50 loop0\n 8 1 24 sda1\n"), 1024);
    assert_eq!(shell_name("/usr/bin/zsh"), "zsh");
    assert_eq!(shell_name("fish"), "fish");
}

#[test]
fn panicking_inputs_are_recognised() {
    assert!(uevent_cuts_char("MODALIAS=pci:vabd1"));
    assert!(uevent_cuts_char("MODALIAS=pci:v\u{e9}abcd1"));
    assert!(!uevent_cuts_char("MODALIAS=pci:va\u{e9}\u{e9}d1"));
    assert!(!uevent_cuts_char("DRIVER=nvidia\nMODALIAS=pci:vabd1"));
    assert!(!uevent_cuts_char("MODALIAS=pci:v8086d1234"));
    assert!(!uevent_cuts_char("MODALIAS=pci:vab"));
    let mut c = card();
    c.class = Some("0x030000".to_string());
    c.vendor = Some("0x1".to_string());
    assert!(card_cuts_char(&c));
    c.vendor = Some("0x10de".to_string());
    assert!(!card_cuts_char(&c));
    c.uevent = Some("MODALIAS=pci:vabd1".to_string());
    assert!(card_cuts_char(&c));
    assert_eq!(partition_blocks_checked("h\n\n 8 0 18446744073709551615 sda\n 8 1 1 sdb\n"), None);
    assert_eq!(partition_blocks_checked("h\n\n 8 0 5 sda\n"), Some(5));
    assert_eq!(partition_blocks_checked(""), Some(0));
}

#[test]
fn drm_scan_takes_first_card_with_gpu() {
    assert_eq!(drm_gpu(&vec![]), Ok(None));
    let blank = card();
    let mut nv = card();
    nv.uevent = Some("DRIVER=nvidia".to_string());
    let mut amd = card();
    amd.uevent = Some("DRIVER=amdgpu".to_string());
    assert_eq!(drm_gpu(&vec![blank, nv, amd]), Ok(Some("NVIDIA".to_string())));
    let mut bad = card();
    bad.uevent = Some("MODALIAS=pci:vabd1".to_string());
    assert_eq!(drm_gpu(&vec![card(), bad]), Err(1));
    let mut intel = card();
    intel.uevent = Some("DRIVER=i915\nMODALIAS=pci:v00008086d00003E92sv00001028sd0000085Cbc03sc00i00\n".to_string());
    let mut bad2 = card();
    bad2.uevent = Some("MODALIAS=pci:vabd1".to_string());
    assert_eq!(drm_gpu(&vec![intel, bad2]), Ok(Some("Intel".to_string())));
    assert_eq!(drm_gpu(&vec![card()]), Ok(None));
}
