use minislug::chars::{
    is_ascii_alphanumeric, is_control, is_forbidden_filename_char, is_separatorish, len_utf8,
    to_ascii_lowercase, to_ascii_uppercase,
};
use minislug::finish::{
    ascii_upper, finish, fitting_prefix, is_1_to_9_suffix, is_empty_or_dots,
    is_windows_reserved_name, replace_with, trim_end_seps_dots_spaces, trim_start_seps,
    truncate_to_bytes,
};
use minislug::options::sanitize_separator;
use minislug::scan::{
    push_all, push_ascii_alnum, push_sep, push_substitution, push_word_char, scan_char,
    scan_char_given,
};
use minislug::translit::{case_adjust, transliterate, transliterate_cased};
use minislug::{to_string, SlugOptions};

fn chars(s: &str) -> Vec<char> {
    s.chars().collect()
}

fn text(v: &Vec<char>) -> String {
    v.iter().collect()
}

#[test]
fn ascii_classes_agree_with_std() {
    for b in 0u8..=127 {
        let c = b as char;
        assert_eq!(is_ascii_alphanumeric(c), c.is_ascii_alphanumeric());
        assert_eq!(to_ascii_lowercase(c), c.to_ascii_lowercase());
        assert_eq!(to_ascii_uppercase(c), c.to_ascii_uppercase());
    }
    assert!(!is_ascii_alphanumeric('é'));
    assert_eq!(to_ascii_lowercase('É'), 'É');
    assert_eq!(to_ascii_uppercase('é'), 'é');
}

#[test]
fn control_codes_agree_with_std() {
    let mut n = 0u32;
    while n <= 0x10ffff {
        if let Some(c) = char::from_u32(n) {
            assert_eq!(is_control(c), c.is_control(), "U+{:04X}", n);
        }
        n += 1;
    }
}

#[test]
fn utf8_widths_agree_with_std() {
    let mut n = 0u32;
    while n <= 0x10ffff {
        if let Some(c) = char::from_u32(n) {
            assert_eq!(len_utf8(c), c.len_utf8(), "U+{:04X}", n);
        }
        n += 1;
    }
    assert_eq!(len_utf8('a'), 1);
    assert_eq!(len_utf8('ж'), 2);
    assert_eq!(len_utf8('€'), 3);
    assert_eq!(len_utf8('\u{10000}'), 4);
}

#[test]
fn forbidden_characters() {
    for c in "<>:\"/\\|?*\0\n\t\u{7f}\u{85}".chars() {
        assert!(is_forbidden_filename_char(c), "{:?}", c);
    }
    for c in "az09_-. +~=,;".chars() {
        assert!(!is_forbidden_filename_char(c), "{:?}", c);
    }
}

#[test]
fn separatorish_characters() {
    for c in " \t\n\u{a0}\u{2003}\u{3000}-.,;:+=".chars() {
        assert!(is_separatorish(c), "{:?}", c);
    }
    for c in "a0_~!/\u{200b}".chars() {
        assert!(!is_separatorish(c), "{:?}", c);
    }
}

#[test]
fn separator_is_sanitized() {
    assert_eq!(sanitize_separator('-'), '-');
    assert_eq!(sanitize_separator('_'), '_');
    assert_eq!(sanitize_separator('+'), '+');
    assert_eq!(sanitize_separator('~'), '~');
    assert_eq!(sanitize_separator('.'), '-');
    assert_eq!(sanitize_separator(' '), '-');
    assert_eq!(sanitize_separator('x'), '-');
}

#[test]
fn case_adjust_raises_first_letter_only() {
    assert_eq!(case_adjust("shch", true), "Shch");
    assert_eq!(case_adjust("shch", false), "shch");
    assert_eq!(case_adjust("", true), "");
    assert_eq!(case_adjust("e", true), "E");
    assert_eq!(case_adjust("1a", true), "1a");
}

#[test]
fn transliterate_cased_looks_up_the_table() {
    assert_eq!(transliterate_cased('ж', false), Some("zh".to_string()));
    assert_eq!(transliterate_cased('Ж', true), Some("Zh".to_string()));
    assert_eq!(transliterate_cased('Щ', true), Some("Shch".to_string()));
    assert_eq!(transliterate_cased('ß', true), Some("ss".to_string()));
    assert_eq!(transliterate_cased('ß', false), Some("ss".to_string()));
    assert_eq!(transliterate_cased('ь', true), Some(String::new()));
    assert_eq!(transliterate_cased('Ъ', false), Some(String::new()));
    assert_eq!(transliterate_cased('€', false), Some("e".to_string()));
    assert_eq!(transliterate_cased('∂', false), Some("o".to_string()));
    assert_eq!(transliterate_cased('∫', false), Some("s".to_string()));
    assert_eq!(transliterate_cased('β', false), Some("b".to_string()));
    assert_eq!(transliterate_cased('æ', false), Some("ae".to_string()));
    assert_eq!(transliterate_cased('Œ', true), Some("Oe".to_string()));
    assert_eq!(transliterate_cased('þ', false), Some("th".to_string()));
    assert_eq!(transliterate_cased('a', true), None);
    assert_eq!(transliterate_cased('中', false), None);
    assert_eq!(transliterate_cased('ẞ', false), None);
}

#[test]
fn transliterate_capitalizes_uppercase_unless_lowercasing() {
    assert_eq!(transliterate('Ж', false), Some("Zh".to_string()));
    assert_eq!(transliterate('ж', false), Some("zh".to_string()));
    assert_eq!(transliterate('Ж', true), Some("zh".to_string()));
    assert_eq!(transliterate('Я', false), Some("Ya".to_string()));
    assert_eq!(transliterate('É', false), Some("E".to_string()));
    assert_eq!(transliterate('é', false), Some("e".to_string()));
    assert_eq!(transliterate('Z', false), None);
    assert_eq!(transliterate('-', true), None);
}

#[test]
fn transliteration_covers_the_cyrillic_digraphs() {
    let pairs = [
        ('ж', "zh"),
        ('х', "h"),
        ('ц', "ts"),
        ('ч', "ch"),
        ('ш', "sh"),
        ('щ', "shch"),
        ('ю', "yu"),
        ('я', "ya"),
        ('є', "ye"),
        ('ї', "yi"),
    ];
    for (c, s) in pairs {
        assert_eq!(transliterate(c, true), Some(s.to_string()));
    }
}

#[test]
fn push_sep_collapses_and_skips_the_start() {
    let mut out = Vec::new();
    let mut last = true;
    push_sep(&mut out, '-', &mut last);
    assert_eq!(text(&out), "");
    assert!(last);
    out.push('a');
    last = false;
    push_sep(&mut out, '-', &mut last);
    assert_eq!(text(&out), "a-");
    assert!(last);
    push_sep(&mut out, '-', &mut last);
    assert_eq!(text(&out), "a-");
    let mut empty = Vec::new();
    let mut fresh = false;
    push_sep(&mut empty, '-', &mut fresh);
    assert!(empty.is_empty());
    assert!(!fresh);
}

#[test]
fn push_ascii_alnum_lowers_on_request() {
    let mut out = Vec::new();
    push_ascii_alnum(&mut out, 'A', true);
    push_ascii_alnum(&mut out, 'B', false);
    push_ascii_alnum(&mut out, '7', true);
    assert_eq!(text(&out), "aB7");
}

#[test]
fn push_word_char_keeps_letters_digits_and_underscore() {
    let keep = SlugOptions::default();
    let part = SlugOptions {
        keep_underscore: false,
        lowercase: false,
        ..Default::default()
    };
    let mut out = Vec::new();
    let mut last = true;
    assert!(push_word_char(&mut out, &mut last, 'Q', &keep));
    assert!(!last);
    assert!(push_word_char(&mut out, &mut last, '_', &keep));
    assert!(!push_word_char(&mut out, &mut last, '-', &keep));
    assert!(!push_word_char(&mut out, &mut last, 'é', &keep));
    assert!(!push_word_char(&mut out, &mut last, '_', &part));
    assert!(push_word_char(&mut out, &mut last, 'Q', &part));
    assert_eq!(text(&out), "q_Q");
}

#[test]
fn push_substitution_classifies_each_character() {
    let opt = SlugOptions::default();
    let mut out = chars("x");
    let mut last = false;
    assert!(push_substitution(&mut out, &mut last, "A b_c", &opt));
    assert_eq!(text(&out), "xa-b_c");
    assert!(!last);
    let mut out = chars("x");
    let mut last = false;
    assert!(!push_substitution(&mut out, &mut last, "..", &opt));
    assert_eq!(text(&out), "x-");
    assert!(last);
    let mut out = chars("x");
    let mut last = false;
    assert!(!push_substitution(&mut out, &mut last, "", &opt));
    assert_eq!(text(&out), "x");
    assert!(!last);
    let part = SlugOptions {
        keep_underscore: false,
        ..Default::default()
    };
    let mut out = chars("x");
    let mut last = false;
    assert!(push_substitution(&mut out, &mut last, "_a_", &part));
    assert_eq!(text(&out), "x-a-");
    assert!(last);
}

#[test]
fn push_all_appends_in_order() {
    let mut out = chars("ab");
    push_all(&mut out, &chars("cd"));
    push_all(&mut out, &Vec::new());
    assert_eq!(text(&out), "abcd");
}

#[test]
fn scan_char_given_follows_the_rules_in_order() {
    let opt = SlugOptions {
        allow_unicode: true,
        ..Default::default()
    };
    let none: Option<String> = None;
    let lowered = chars("yz");
    let stand_in = Some("Q q".to_string());

    // a forbidden character is a boundary, whatever else is said of it
    let mut out = chars("a");
    let mut last = false;
    scan_char_given(&mut out, &mut last, '\u{85}', &opt, true, &lowered, &stand_in);
    assert_eq!(text(&out), "a-");
    assert!(last);

    // a letter or digit beyond ASCII passes as its lowercase mapping
    let mut out = chars("a");
    let mut last = false;
    scan_char_given(&mut out, &mut last, 'Ж', &opt, true, &lowered, &stand_in);
    assert_eq!(text(&out), "ayz");
    assert!(!last);

    // or as it is
    let plain = SlugOptions {
        lowercase: false,
        ..opt
    };
    let mut out = chars("a");
    let mut last = false;
    scan_char_given(&mut out, &mut last, 'Ж', &plain, true, &lowered, &stand_in);
    assert_eq!(text(&out), "aЖ");

    // what is no letter or digit is replaced by its stand-in
    let mut out = chars("a");
    let mut last = false;
    scan_char_given(&mut out, &mut last, 'Ж', &opt, false, &lowered, &stand_in);
    assert_eq!(text(&out), "aq-q");

    // without a stand-in it is a boundary
    let mut out = chars("a");
    let mut last = false;
    scan_char_given(&mut out, &mut last, 'Ж', &opt, false, &lowered, &none);
    assert_eq!(text(&out), "a-");

    // an empty stand-in leaves no trace
    let mut out = chars("a");
    let mut last = false;
    scan_char_given(&mut out, &mut last, 'ь', &opt, false, &lowered, &Some(String::new()));
    assert_eq!(text(&out), "a");
    assert!(!last);

    // a stand-in without a word character is one boundary
    let mut out = chars("a");
    let mut last = false;
    scan_char_given(&mut out, &mut last, 'Ж', &opt, false, &lowered, &Some("!?".to_string()));
    assert_eq!(text(&out), "a-");
    assert!(last);

    // nothing passes and nothing is replaced where the options say so
    let bare = SlugOptions {
        unicode_support: false,
        transliterate: false,
        ..opt
    };
    let mut out = chars("a");
    let mut last = false;
    scan_char_given(&mut out, &mut last, 'Ж', &bare, true, &lowered, &stand_in);
    assert_eq!(text(&out), "a-");

    // an ASCII character is never taken for a letter beyond ASCII
    let mut out = chars("a");
    let mut last = false;
    scan_char_given(&mut out, &mut last, '!', &opt, true, &lowered, &none);
    assert_eq!(text(&out), "a-");
}

#[test]
fn scan_char_asks_the_tables() {
    let opt = SlugOptions {
        allow_unicode: true,
        ..Default::default()
    };
    let mut out = Vec::new();
    let mut last = true;
    for c in "Ǆ İ€".chars() {
        scan_char(&mut out, &mut last, c, &opt);
    }
    // `Ǆ` lowers to `ǆ`, `İ` to `i` and a combining dot; `€` is no letter
    assert_eq!(text(&out), "ǆ-i\u{307}e");
    let translit = SlugOptions::default();
    let mut out = Vec::new();
    let mut last = true;
    for c in "Ǆ İ€".chars() {
        scan_char(&mut out, &mut last, c, &translit);
    }
    assert_eq!(text(&out), "ie");
}

#[test]
fn trimming_the_end() {
    let mut s = chars("a-. .-");
    trim_end_seps_dots_spaces(&mut s, '-');
    assert_eq!(text(&s), "a");
    let mut s = chars("a_");
    trim_end_seps_dots_spaces(&mut s, '-');
    assert_eq!(text(&s), "a_");
    let mut s = chars(" ..");
    trim_end_seps_dots_spaces(&mut s, '~');
    assert_eq!(text(&s), "");
    let mut s = chars(".a");
    trim_end_seps_dots_spaces(&mut s, '-');
    assert_eq!(text(&s), ".a");
}

#[test]
fn trimming_the_start() {
    let mut s = chars("--a-");
    trim_start_seps(&mut s, '-');
    assert_eq!(text(&s), "a-");
    let mut s = chars(".-a");
    trim_start_seps(&mut s, '-');
    assert_eq!(text(&s), ".-a");
    let mut s = chars("++");
    trim_start_seps(&mut s, '+');
    assert_eq!(text(&s), "");
    let mut s = chars("a");
    trim_start_seps(&mut s, '-');
    assert_eq!(text(&s), "a");
}

#[test]
fn names_of_no_file() {
    assert!(is_empty_or_dots(&chars("")));
    assert!(is_empty_or_dots(&chars(".")));
    assert!(is_empty_or_dots(&chars("..")));
    assert!(!is_empty_or_dots(&chars("...")));
    assert!(!is_empty_or_dots(&chars("a")));
    assert!(!is_empty_or_dots(&chars(".a")));
    assert!(!is_empty_or_dots(&chars("a.")));
}

#[test]
fn replace_with_overwrites() {
    let mut s = chars("abc");
    replace_with(&mut s, "žluť");
    assert_eq!(text(&s), "žluť");
    replace_with(&mut s, "");
    assert_eq!(text(&s), "");
}

#[test]
fn ascii_upper_leaves_the_rest() {
    assert_eq!(text(&ascii_upper(&chars("com1-é_Z"))), "COM1-é_Z");
    assert_eq!(text(&ascii_upper(&chars(""))), "");
}

#[test]
fn one_digit_suffix() {
    assert!(is_1_to_9_suffix(&chars("COM1"), 3));
    assert!(is_1_to_9_suffix(&chars("COM9"), 3));
    assert!(!is_1_to_9_suffix(&chars("COM0"), 3));
    assert!(!is_1_to_9_suffix(&chars("COM10"), 3));
    assert!(!is_1_to_9_suffix(&chars("COM"), 3));
    assert!(!is_1_to_9_suffix(&chars("CO"), 3));
    assert!(!is_1_to_9_suffix(&chars("COMx"), 3));
    assert!(!is_1_to_9_suffix(&chars("COM١"), 3));
    assert!(is_1_to_9_suffix(&chars("5"), 0));
}

#[test]
fn device_names() {
    for name in [
        "CON", "con", "Con", "PRN", "prn", "AUX", "aux", "NUL", "nul", "COM1", "com5", "Com9",
        "LPT1", "lpt9",
    ] {
        assert!(is_windows_reserved_name(&chars(name)), "{}", name);
    }
    for name in [
        "", "CO", "CONS", "_con", "con_", "COM", "COM0", "LPT0", "COM10", "LPT10", "com", "lpt",
        "COMA", "nul1", "file", "con.", "c0n",
    ] {
        assert!(!is_windows_reserved_name(&chars(name)), "{}", name);
    }
}

#[test]
fn fitting_prefix_counts_whole_characters() {
    let s = chars("aж€\u{10000}b");
    // cumulative byte lengths: 1, 3, 6, 10, 11
    let expected = [0, 1, 1, 2, 2, 2, 3, 3, 3, 3, 4, 5, 5];
    for (max, k) in expected.iter().enumerate() {
        assert_eq!(fitting_prefix(&s, max), *k, "max {}", max);
    }
    assert_eq!(fitting_prefix(&s, usize::MAX), 5);
    assert_eq!(fitting_prefix(&Vec::new(), 0), 0);
}

#[test]
fn truncate_to_bytes_never_splits_a_character() {
    for max in 0..14 {
        let mut s = chars("aж€\u{10000}b");
        truncate_to_bytes(&mut s, max);
        let t = text(&s);
        assert!(t.len() <= max);
        assert!("aж€\u{10000}b".starts_with(&t));
        let next = "aж€\u{10000}b"[t.len()..].chars().next();
        if let Some(c) = next {
            assert!(t.len() + c.len_utf8() > max);
        }
    }
    let mut s = chars("привіт");
    truncate_to_bytes(&mut s, 5);
    assert_eq!(text(&s), "пр");
}

#[test]
fn finish_runs_the_whole_chain() {
    let opt = SlugOptions::default();
    let mut s = chars("con-");
    finish(&mut s, &opt);
    assert_eq!(text(&s), "_con");
    let mut s = chars("- .");
    finish(&mut s, &opt);
    assert_eq!(text(&s), "file");
    let mut s = chars(".a");
    finish(&mut s, &opt);
    assert_eq!(text(&s), "_.a");
    let open = SlugOptions {
        avoid_leading_dot: false,
        ..Default::default()
    };
    let mut s = chars(".a");
    finish(&mut s, &open);
    assert_eq!(text(&s), ".a");
    let short = SlugOptions {
        max_len_bytes: 4,
        ..Default::default()
    };
    let mut s = chars("abc-def");
    finish(&mut s, &short);
    assert_eq!(text(&s), "abc");
}

#[test]
fn to_string_gathers_characters() {
    assert_eq!(to_string(&chars("žlu-ť")), "žlu-ť");
    assert_eq!(to_string(&Vec::new()), "");
}
