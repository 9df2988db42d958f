use arcutils::readenv::{
    prefix_before, read_env, suffix_after, BuildConfig, ConfigKey, ParseError,
};

const KEYS: [(ConfigKey, &str); 6] = [
    (ConfigKey::OutDir, "OUT_DIR"),
    (ConfigKey::AsmFiles, "ASM_FILES"),
    (ConfigKey::LinkScript, "LINK_SCRIPT"),
    (ConfigKey::OutObj, "OUT_OBJ"),
    (ConfigKey::OutImg, "OUT_IMG"),
    (ConfigKey::LinkObj, "LINK_OBJ"),
];

fn values(config: &BuildConfig) -> Vec<String> {
    KEYS.iter().map(|(key, _)| config.get(*key).to_string()).collect()
}

/// The configuration with `key` set to `value` and nothing else set.
fn only(key: ConfigKey, value: &str) -> BuildConfig {
    let mut config = BuildConfig::new();
    config.set(key, value.to_string());
    config
}

#[test]
fn example_description_parses_to_its_six_values() {
    let config = BuildConfig::parse(
        "OUT_DIR=build/riscv64\nASM_FILES = asm/riscv64/boot.S\nLINK_SCRIPT=link/riscv64/linker.ld\n# comment\nLINK_OBJ=build/boot.o deps/libkern.a\n",
    );
    assert_eq!(config.get(ConfigKey::OutDir), "build/riscv64");
    assert_eq!(config.get(ConfigKey::AsmFiles), "asm/riscv64/boot.S");
    assert_eq!(config.get(ConfigKey::LinkScript), "link/riscv64/linker.ld");
    assert_eq!(config.get(ConfigKey::LinkObj), "build/boot.o deps/libkern.a");
    assert_eq!(config.get(ConfigKey::OutObj), "");
    assert_eq!(config.get(ConfigKey::OutImg), "");
}

#[test]
fn every_key_takes_its_value_without_the_white_space_around_it() {
    for (key, name) in KEYS {
        for text in [
            format!("{name}=value"),
            format!("{name} = value"),
            format!("  {name}\t=\t value  "),
            format!("\u{a0}{name}\u{2003}=\u{3000}value\u{2028}"),
            format!("{name}=value\r\n"),
            format!("\n\n{name} = value\n\n"),
        ] {
            assert_eq!(BuildConfig::parse(&text), only(key, "value"), "{text:?}");
        }
    }
}

#[test]
fn value_keeps_what_stands_inside_it() {
    let config = BuildConfig::parse("LINK_OBJ =  a.o   b.o = c.o  \nOUT_DIR==\n");
    assert_eq!(config.get(ConfigKey::LinkObj), "a.o   b.o = c.o");
    assert_eq!(config.get(ConfigKey::OutDir), "=");
}

#[test]
fn lines_that_set_nothing_change_nothing() {
    let with = "OUT_DIR=a\n\n# comment\nno assignment here\n=b\n   = b\nOUT_OBJ=\nOUT_OBJ =   \t\nOUT_IMG\nUNKNOWN=c\nout_dir=d\nOUT DIR=e\nOUT_DIRS=f\nASM_FILES=g\n";
    let without = "OUT_DIR=a\nASM_FILES=g\n";
    assert_eq!(BuildConfig::parse(with), BuildConfig::parse(without));
    assert_eq!(
        values(&BuildConfig::parse(with)),
        vec!["a", "g", "", "", "", ""]
    );
    for line in ["", "   ", "# comment", "OUT_DIR", "=x", " \t=x", "OUT_DIR=", "OUT_DIR= \t", "X=y"] {
        let mut config = only(ConfigKey::OutDir, "kept");
        let chars: Vec<char> = line.chars().collect();
        config.read_line(&chars);
        assert_eq!(config, only(ConfigKey::OutDir, "kept"), "{line:?}");
        assert_eq!(BuildConfig::parse(line), BuildConfig::new(), "{line:?}");
    }
}

#[test]
fn later_assignment_replaces_an_earlier_one() {
    let config = BuildConfig::parse("OUT_DIR=first\nOUT_IMG=img\nOUT_DIR=second\n");
    assert_eq!(config.get(ConfigKey::OutDir), "second");
    assert_eq!(config.get(ConfigKey::OutImg), "img");
    let config = BuildConfig::parse("OUT_DIR=first\nOUT_DIR=second\nOUT_DIR=third");
    assert_eq!(config, only(ConfigKey::OutDir, "third"));
    // a line that sets nothing does not undo an assignment
    let config = BuildConfig::parse("OUT_DIR=first\nOUT_DIR=\nOUT_DIR\n");
    assert_eq!(config, only(ConfigKey::OutDir, "first"));
}

#[test]
fn empty_description_sets_nothing() {
    for text in ["", "\n", "\n\n\n", "\r\n", "   "] {
        let config = BuildConfig::parse(text);
        assert_eq!(config, BuildConfig::new());
        assert_eq!(values(&config), vec![""; 6]);
    }
}

#[test]
fn only_a_line_feed_ends_a_line() {
    // a carriage return alone is white space inside the line
    let config = BuildConfig::parse("OUT_DIR=a\rOUT_IMG=b\n");
    assert_eq!(config, only(ConfigKey::OutDir, "a\rOUT_IMG=b"));
    let config = BuildConfig::parse("OUT_DIR=a\u{2028}OUT_IMG=b\n");
    assert_eq!(config, only(ConfigKey::OutDir, "a\u{2028}OUT_IMG=b"));
}

#[test]
fn missing_description_is_an_error() {
    assert_eq!(read_env(None), Err(ParseError::NotFound));
    assert_eq!(read_env(Some("")), Ok(BuildConfig::new()));
    assert_eq!(read_env(Some("OUT_IMG = k.elf")), Ok(only(ConfigKey::OutImg, "k.elf")));
}

#[test]
fn set_changes_one_variable() {
    let mut config = BuildConfig::new();
    for (i, (key, _)) in KEYS.iter().enumerate() {
        config.set(*key, format!("v{i}"));
    }
    assert_eq!(values(&config), vec!["v0", "v1", "v2", "v3", "v4", "v5"]);
    config.set(ConfigKey::OutObj, String::new());
    assert_eq!(values(&config), vec!["v0", "v1", "v2", "", "v4", "v5"]);
}

#[test]
fn keys_are_found_under_their_names_only() {
    for (key, name) in KEYS {
        assert_eq!(key.name(), name);
        assert_eq!(ConfigKey::from_name(name), Some(key));
        assert_eq!(ConfigKey::from_name(&name.to_lowercase()), None);
        assert_eq!(ConfigKey::from_name(&format!(" {name}")), None);
        assert_eq!(ConfigKey::from_name(&name[1..]), None);
    }
    assert_eq!(ConfigKey::from_name(""), None);
}

#[test]
fn prefix_and_suffix_split_at_the_first_separator() {
    for (line, before, after) in [
        ("a=b", "a", "b"),
        ("  a  =  b  ", "a", "b"),
        ("a=b=c", "a", "b=c"),
        ("a = b c ", "a", "b c"),
        ("=b", "", "b"),
        ("a=", "a", ""),
        ("=", "", ""),
        ("a b", "", ""),
        ("", "", ""),
        ("\u{a0}k\u{a0}=\u{a0}v\u{a0}", "k", "v"),
    ] {
        assert_eq!(prefix_before(line, '='), before, "{line:?}");
        assert_eq!(suffix_after(line, '='), after, "{line:?}");
    }
    assert_eq!(prefix_before("a:b=c", ':'), "a");
    assert_eq!(suffix_after("a:b=c", ':'), "b=c");
}

#[test]
fn prefix_and_suffix_agree_with_split_once_and_trim() {
    let alphabet = ['a', '=', ' ', '\t', 'B', '\u{2003}'];
    let mut line = String::new();
    // every text of up to five characters over the alphabet
    let mut count = 0;
    for len in 0..=5u32 {
        for code in 0..6usize.pow(len) {
            line.clear();
            let mut rest = code;
            for _ in 0..len {
                line.push(alphabet[rest % 6]);
                rest /= 6;
            }
            let expected = match line.split_once('=') {
                Some((before, after)) => (before.trim(), after.trim()),
                None => ("", ""),
            };
            assert_eq!(prefix_before(&line, '='), expected.0, "{line:?}");
            assert_eq!(suffix_after(&line, '='), expected.1, "{line:?}");
            count += 1;
        }
    }
    assert_eq!(count, 1 + 6 + 36 + 216 + 1296 + 7776);
}
