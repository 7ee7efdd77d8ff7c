use markview::preferences::{
    load_pref, save_pref, PreferenceSet, DEFAULT_SCHEME, DEFAULT_THEME, PREF_SCHEME, PREF_THEME,
};

#[test]
fn load_reads_both_known_keys() {
    let content = "theme=force-light\ncolor-scheme=Kate";
    assert_eq!(load_pref(Some(content), "theme", "default"), "force-light");
    assert_eq!(load_pref(Some(content), "color-scheme", "Adwaita-dark"), "Kate");
}

#[test]
fn load_from_missing_store_returns_default() {
    assert_eq!(load_pref(None, "theme", "default"), "default");
    assert_eq!(load_pref(None, "color-scheme", "Adwaita-dark"), "Adwaita-dark");
    assert_eq!(load_pref(None, "", ""), "");
    assert_eq!(load_pref(None, "anything at all", "fallback"), "fallback");
}

#[test]
fn load_of_absent_key_returns_default() {
    assert_eq!(load_pref(Some("theme=force-dark"), "color-scheme", "Adwaita-dark"), "Adwaita-dark");
    assert_eq!(load_pref(Some(""), "theme", "default"), "default");
}

#[test]
fn known_keys_and_defaults() {
    assert_eq!(PREF_THEME, "theme");
    assert_eq!(PREF_SCHEME, "color-scheme");
    assert_eq!(DEFAULT_THEME, "default");
    assert_eq!(DEFAULT_SCHEME, "Adwaita-dark");
}

#[test]
fn save_then_load_returns_saved_value() {
    let priors = [
        None,
        Some(""),
        Some("theme=default"),
        Some("theme=force-dark\ncolor-scheme=Kate"),
        Some("garbage without separator\n\n  theme = x  \ntheme=y\n=empty key"),
        Some("color-scheme=Cobalt\r\ntheme=force-light\r\n"),
    ];
    let pairs = [
        ("theme", "force-dark"),
        ("color-scheme", "Solarized-dark"),
        ("theme", ""),
        ("a key with spaces", "a value with spaces"),
        ("unicode-\u{e9}", "\u{4e16}\u{754c}"),
        ("k", "value=with=separators"),
    ];
    for prior in priors.iter() {
        for (key, value) in pairs.iter() {
            let stored = save_pref(*prior, key, value);
            assert_eq!(load_pref(Some(&stored), key, "some default"), *value);
        }
    }
}

#[test]
fn save_keeps_other_keys() {
    let prior = "theme=force-dark\ncolor-scheme=Kate";
    let stored = save_pref(Some(prior), "theme", "force-light");
    assert_eq!(stored, "theme=force-light\ncolor-scheme=Kate");
    assert_eq!(load_pref(Some(&stored), "color-scheme", "none"), "Kate");
}

#[test]
fn save_into_missing_store_writes_one_record() {
    assert_eq!(save_pref(None, "theme", "force-dark"), "theme=force-dark");
    assert_eq!(save_pref(Some(""), "theme", "force-dark"), "theme=force-dark");
}

#[test]
fn save_appends_new_key_at_the_end() {
    let stored = save_pref(Some("theme=default"), "color-scheme", "Kate");
    assert_eq!(stored, "theme=default\ncolor-scheme=Kate");
}

#[test]
fn save_writes_each_key_once() {
    let prior = "theme=a\ntheme=b\ncolor-scheme=Kate\ntheme=c";
    let stored = save_pref(Some(prior), "color-scheme", "Cobalt");
    assert_eq!(stored, "theme=c\ncolor-scheme=Cobalt");
}

#[test]
fn save_skips_malformed_lines() {
    let prior = "no separator here\ntheme=force-dark\n\n# comment";
    let stored = save_pref(Some(prior), "color-scheme", "Kate");
    assert_eq!(stored, "theme=force-dark\ncolor-scheme=Kate");
}

#[test]
fn last_occurrence_of_a_key_wins() {
    let content = "theme=force-dark\ntheme=force-light";
    assert_eq!(load_pref(Some(content), "theme", "default"), "force-light");
}

#[test]
fn lines_split_at_first_separator() {
    let set = PreferenceSet::parse("key=a=b=c");
    assert_eq!(set.get("key"), Some("a=b=c".to_string()));
    assert_eq!(set.len(), 1);
}

#[test]
fn both_parts_are_trimmed() {
    let set = PreferenceSet::parse("  theme \t=  force-dark  \n\tcolor-scheme=\u{a0}Kate\u{3000}");
    assert_eq!(set.get("theme"), Some("force-dark".to_string()));
    assert_eq!(set.get("color-scheme"), Some("Kate".to_string()));
    assert_eq!(set.get("  theme "), None);
}

#[test]
fn carriage_returns_at_line_ends_are_dropped() {
    let set = PreferenceSet::parse("theme=force-dark\r\ncolor-scheme=Kate\r\n");
    assert_eq!(set.get("theme"), Some("force-dark".to_string()));
    assert_eq!(set.get("color-scheme"), Some("Kate".to_string()));
    assert_eq!(set.len(), 2);
}

#[test]
fn empty_key_and_empty_value_are_records() {
    let set = PreferenceSet::parse("=value\nkey=");
    assert_eq!(set.get(""), Some("value".to_string()));
    assert_eq!(set.get("key"), Some(String::new()));
}

#[test]
fn empty_text_holds_no_records() {
    assert_eq!(PreferenceSet::parse("").len(), 0);
    assert_eq!(PreferenceSet::parse("\n\n\n").len(), 0);
    assert_eq!(PreferenceSet::new().len(), 0);
    assert_eq!(PreferenceSet::new().serialize(), "");
}

#[test]
fn set_replaces_in_place_and_appends() {
    let mut set = PreferenceSet::new();
    set.set("a", "1");
    set.set("b", "2");
    set.set("a", "3");
    assert_eq!(set.len(), 2);
    assert_eq!(set.serialize(), "a=3\nb=2");
    assert_eq!(set.get("a"), Some("3".to_string()));
    assert_eq!(set.get_or("b", "x"), "2");
    assert_eq!(set.get_or("c", "x"), "x");
}

#[test]
fn written_store_reads_back_as_it_was() {
    let mut set = PreferenceSet::new();
    set.set("theme", "force-dark");
    set.set("color-scheme", "Kate");
    set.set("third", "a=b");
    let again = PreferenceSet::parse(&set.serialize());
    assert_eq!(again.len(), 3);
    assert_eq!(again.serialize(), set.serialize());
}

#[test]
fn untrimmed_value_reads_back_trimmed() {
    let stored = save_pref(None, "key", " padded ");
    assert_eq!(stored, "key= padded ");
    assert_eq!(load_pref(Some(&stored), "key", "default"), "padded");
}

#[test]
fn parsing_agrees_with_std_on_samples() {
    let samples = [
        "theme=force-light\ncolor-scheme=Kate",
        " a = b \r\n c=d\n\ne = f = g \nnothing\n=x\ny=",
        "\u{2003}k\u{2003}=\u{2003}v\u{2003}",
        "k=v\r",
        "one=1\ntwo=2\none=3",
    ];
    for sample in samples.iter() {
        let set = PreferenceSet::parse(sample);
        let mut expected: Vec<(String, String)> = Vec::new();
        for line in sample.lines() {
            if let Some((k, v)) = line.split_once('=') {
                let (k, v) = (k.trim().to_string(), v.trim().to_string());
                match expected.iter().position(|e| e.0 == k) {
                    Some(i) => expected[i].1 = v,
                    None => expected.push((k, v)),
                }
            }
        }
        assert_eq!(set.len(), expected.len());
        for (k, v) in expected.iter() {
            assert_eq!(set.get(k), Some(v.clone()));
        }
    }
}

#[test]
fn trimmed_characters_are_the_whitespace_of_std() {
    let mut code: u32 = 0;
    while code <= 0x3100 {
        if let Some(c) = char::from_u32(code) {
            if c != '\n' {
                let content = format!("k={}x{}", c, c);
                let value = load_pref(Some(&content), "k", "");
                if c.is_whitespace() {
                    assert_eq!(value, "x");
                } else {
                    assert_eq!(value, format!("{}x{}", c, c));
                }
            }
        }
        code += 1;
    }
    for c in ['\u{feff}', '\u{e000}', '\u{1f600}', '\u{10ffff}'] {
        assert!(!c.is_whitespace());
        let content = format!("k={}x{}", c, c);
        assert_eq!(load_pref(Some(&content), "k", ""), format!("{}x{}", c, c));
    }
}
