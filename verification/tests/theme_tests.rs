use atlasfetch::theme::{all_themes, find_theme, flag_color_at, hex_panics, stretch_index, Color, DEFAULT_THEME};

#[test]
fn color_from_hex_accepts_both_cases_and_optional_hash() {
    assert_eq!(Color::from_hex_opt("#FF6692"), Some(Color::new(255, 102, 146)));
    assert_eq!(Color::from_hex_opt("ff6692"), Some(Color::new(255, 102, 146)));
    assert_eq!(Color::from_hex_opt("#a0B1c2"), Some(Color::new(0xa0, 0xb1, 0xc2)));
}

#[test]
fn color_from_hex_rejects_bad_input() {
    assert_eq!(Color::from_hex_opt("#12345"), None);
    assert_eq!(Color::from_hex_opt("#GG0000"), None);
    assert_eq!(Color::from_hex_opt(""), None);
    assert_eq!(Color::from_hex_opt("#1234567"), None);
}

#[test]
fn color_from_hex_falls_back_to_white() {
    assert_eq!(Color::from_hex("nothex"), Color::new(255, 255, 255));
    assert_eq!(Color::from_hex("#000000"), Color::new(0, 0, 0));
}

#[test]
fn color_hex_string_is_upper_case() {
    assert_eq!(Color::new(1, 2, 255).to_hex_string(), "#0102FF");
    assert_eq!(Color::new(0xab, 0xcd, 0xef).to_hex_string(), "#ABCDEF");
}

#[test]
fn color_hex_round_trip() {
    for c in [Color::new(0, 0, 0), Color::new(255, 255, 255), Color::new(18, 52, 86), Color::new(157, 133, 255)] {
        assert_eq!(Color::from_hex_opt(&c.to_hex_string()), Some(c));
    }
}

#[test]
fn color_escapes() {
    assert_eq!(Color::new(1, 2, 3).fg_escape(), "\x1b[38;2;1;2;3m");
    assert_eq!(Color::new(255, 0, 10).bg_escape(), "\x1b[48;2;255;0;10m");
}

#[test]
fn builtin_themes_table() {
    let themes = all_themes();
    assert_eq!(themes.len(), 27);
    assert_eq!(themes[0].name, "xenogender");
    assert_eq!(themes[0].colors[0], Color::new(0xFF, 0x66, 0x92));
    assert_eq!(themes[9].name, "intersex");
    assert_eq!(themes[9].colors, vec![Color::new(0xFF, 0xD7, 0x00), Color::new(0x79, 0x02, 0xAA)]);
    assert_eq!(themes[26].name, "classic");
    assert!(themes[26].colors.iter().all(|c| *c == Color::new(255, 255, 255)));
}

#[test]
fn find_theme_by_name() {
    let t = find_theme("nord").expect("nord is built in");
    assert_eq!(t.name, "nord");
    assert_eq!(t.colors[0], Color::new(0xbf, 0x61, 0x6a));
    assert!(find_theme("no-such-theme").is_none());
    assert!(find_theme(DEFAULT_THEME).is_some());
    assert_eq!(DEFAULT_THEME, "singularityos");
}

#[test]
fn stretch_index_values() {
    // 10 rows over 3 colours: 4, 3, 3 rows.
    let got: Vec<usize> = (0..10).map(|i| stretch_index(i, 10, 3)).collect();
    assert_eq!(got, vec![0, 0, 0, 0, 1, 1, 1, 2, 2, 2]);
    assert_eq!(stretch_index(5, 3, 7), 5);
    assert_eq!(stretch_index(9, 3, 7), 6);
    assert_eq!(stretch_index(2, 0, 5), 0);
    assert_eq!(stretch_index(3, 5, 1), 0);
}

#[test]
fn stretch_index_is_ordered_and_covers_every_colour() {
    for total in 1..30usize {
        for len in 1..8usize {
            let got: Vec<usize> = (0..total).map(|i| stretch_index(i, total, len)).collect();
            assert!(got.windows(2).all(|w| w[0] <= w[1]));
            assert!(got.iter().all(|k| *k < len));
            if total >= len {
                for k in 0..len {
                    assert!(got.contains(&k), "total {} len {} misses {}", total, len, k);
                }
            }
        }
    }
}

#[test]
fn flag_colours_for_intersex_palette() {
    let yellow = Color::new(0xFF, 0xD7, 0x00);
    let purple = Color::new(0x79, 0x02, 0xAA);
    let pal = [yellow, purple];
    assert_eq!(flag_color_at(&pal, true, false), Some(purple));
    assert_eq!(flag_color_at(&pal, false, false), Some(yellow));
    assert_eq!(flag_color_at(&pal, true, true), Some(yellow));
    assert_eq!(flag_color_at(&pal, false, true), Some(purple));
    let rev = [purple, yellow];
    assert_eq!(flag_color_at(&rev, true, false), Some(purple));
    assert_eq!(flag_color_at(&rev, false, false), Some(yellow));
}

#[test]
fn flag_colours_only_for_flag_palettes() {
    let yellow = Color::new(0xFF, 0xD7, 0x00);
    assert_eq!(flag_color_at(&[yellow, yellow], true, false), None);
    assert_eq!(flag_color_at(&[yellow], true, false), None);
    assert_eq!(flag_color_at(&[Color::new(1, 2, 3), yellow], false, false), None);
}

#[test]
fn hex_panics_marks_cut_characters() {
    assert!(!hex_panics("#FF9A98"));
    assert!(!hex_panics("abc"));
    assert!(!hex_panics("é1234"));
    assert!(hex_panics("€€"));
    assert!(hex_panics("#1é234"));
    assert!(hex_panics("ab€1"));
    assert!(!hex_panics("zz€1"));
    assert!(hex_panics("12aé1"));
    assert!(!hex_panics("12€ab"));
    assert!(!hex_panics("1234é"));
}

#[test]
fn lower_case_hex_reads_back() {
    let c = Color::new(0xAB, 0x0F, 0xE1);
    assert_eq!(Color::from_hex_opt("#ab0fe1"), Some(c));
    assert_eq!(Color::from_hex_opt(&c.to_hex_string().to_lowercase()), Some(c));
}

#[test]
fn stretch_gives_each_colour_its_share() {
    // 10 positions over 3 colours: 4, 3, 3
    let counts: Vec<usize> = (0..3).map(|k| (0..10).filter(|&i| stretch_index(i, 10, 3) == k).count()).collect();
    assert_eq!(counts, vec![4, 3, 3]);
    let counts: Vec<usize> = (0..4).map(|k| (0..4).filter(|&i| stretch_index(i, 4, 4) == k).count()).collect();
    assert_eq!(counts, vec![1, 1, 1, 1]);
    assert!((0..7).all(|i| stretch_index(i, 7, 1) == 0));
}

#[test]
fn stretch_gives_every_colour_its_share() {
    for (total, len) in [(10usize, 3usize), (7, 7), (12, 5), (5, 1)] {
        let mut counts = vec![0usize; len];
        for i in 0..total {
            counts[stretch_index(i, total, len)] += 1;
        }
        for k in 0..len {
            assert_eq!(counts[k], total / len + if k < total % len { 1 } else { 0 });
        }
    }
}

#[test]
fn preset_theme_lookup() {
    let t = find_theme("intersex").expect("intersex is built in");
    assert_eq!(t.name, "intersex");
    assert_eq!(t.colors, vec![Color::new(0xFF, 0xD7, 0x00), Color::new(0x79, 0x02, 0xAA)]);
    assert!(find_theme("Trans").is_none());
    for t in all_themes() {
        assert_eq!(find_theme(t.name).map(|f| f.name), Some(t.name));
    }
}
