use update_generator::script::{
    build_install_script, decode_template, encode_script, finish_script, install_entry_line,
    install_list_text, prefix_definition_line, prefix_template, rewrite_script, ScriptError,
};

/// The first line that starts with `define PREFIX=` replaced by `rep` up to
/// its line feed, written out by hand from the regular expression's rules.
fn replace_prefix_line(t: &str, rep: &str) -> String {
    let chars: Vec<char> = t.chars().collect();
    let key: Vec<char> = "define PREFIX=".chars().collect();
    for p in 0..chars.len() {
        let at_line_start = p == 0 || chars[p - 1] == '\n';
        if at_line_start && p + key.len() <= chars.len() && chars[p..p + key.len()] == key[..] {
            let mut e = p + key.len();
            while e < chars.len() && chars[e] != '\n' {
                e += 1;
            }
            let mut out: String = chars[..p].iter().collect();
            out.push_str(rep);
            out.extend(chars[e..].iter());
            return out;
        }
    }
    t.to_string()
}

fn names(v: &[&str]) -> Vec<String> {
    v.iter().map(|s| s.to_string()).collect()
}

#[test]
fn install_entry_runs_one_script() {
    assert_eq!(install_entry_line("a.sql"), "@\"&PREFIX\\a.sql\"\r\n");
}

#[test]
fn install_list_has_one_line_per_script_in_order() {
    assert_eq!(
        install_list_text(&names(&["b.sql", "a.sql"])),
        "@\"&PREFIX\\b.sql\"\r\n@\"&PREFIX\\a.sql\"\r\n"
    );
    assert_eq!(install_list_text(&vec![]), "");
}

#[test]
fn law_install_list_of_joined_lists_concrete() {
    let a = names(&["1.sql", "2.sql"]);
    let b = names(&["3.sql"]);
    let mut ab = a.clone();
    ab.extend(b.clone());
    assert_eq!(install_list_text(&ab), install_list_text(&a) + &install_list_text(&b));
}

#[test]
fn prefix_definition_quotes_the_directory() {
    assert_eq!(prefix_definition_line("C:\\upd\\1. Разное"), "define PREFIX=\"C:\\upd\\1. Разное\"");
}

#[test]
fn rewrite_replaces_the_prefix_line_and_appends_the_list() {
    let out = rewrite_script("x\ndefine PREFIX=old\ny\n", "/u/1", &names(&["a.sql"]));
    assert_eq!(out, "x\ndefine PREFIX=\"/u/1\"\ny\n@\"&PREFIX\\a.sql\"\r\n");
}

#[test]
fn rewrite_replaces_only_the_first_prefix_line() {
    let out = rewrite_script("define PREFIX=a\ndefine PREFIX=b\n", "D", &vec![]);
    assert_eq!(out, "define PREFIX=\"D\"\ndefine PREFIX=b\n");
}

#[test]
fn rewrite_swallows_the_carriage_return_of_the_prefix_line() {
    let out = rewrite_script("define PREFIX=old\r\nrest\r\n", "D", &vec![]);
    assert_eq!(out, "define PREFIX=\"D\"\nrest\r\n");
}

#[test]
fn rewrite_without_prefix_line_only_appends() {
    let out = rewrite_script("no prefix here\n", "D", &names(&["z.sql"]));
    assert_eq!(out, "no prefix here\n@\"&PREFIX\\z.sql\"\r\n");
}

#[test]
fn decode_reads_utf8_first() {
    assert_eq!(decode_template("Привет".as_bytes()), "Привет");
    assert_eq!(decode_template(b"plain"), "plain");
}

#[test]
fn decode_falls_back_to_windows_1251() {
    assert_eq!(decode_template(&[0xCF, 0xF0, 0xE8, 0xE2, 0xE5, 0xF2]), "Привет");
    assert_eq!(decode_template(&[0x41, 0xC0]), "AА");
}

#[test]
fn law_utf8_template_reads_back_concrete() {
    let text = "define PREFIX=x\r\n-- комментарий €";
    assert_eq!(decode_template(text.as_bytes()), text);
}

#[test]
fn encode_writes_windows_1251() {
    assert_eq!(encode_script("Привет"), vec![0xCF, 0xF0, 0xE8, 0xE2, 0xE5, 0xF2]);
    assert_eq!(encode_script("€"), vec![0x88]);
}

#[test]
fn encode_keeps_ascii() {
    assert_eq!(encode_script("abc\r\n"), b"abc\r\n".to_vec());
}

#[test]
fn encode_writes_unmappable_characters_as_references() {
    assert_eq!(encode_script("中"), b"&#20013;".to_vec());
}

#[test]
fn build_install_script_end_to_end() {
    let template = [b"define PREFIX=old\n".to_vec(), vec![0xCF, 0xF0, 0xE8, 0xE2, 0xE5, 0xF2, b'\n']].concat();
    let out = build_install_script(&template, "C:\\u\\1. Разное", &names(&["a.sql"])).ok().unwrap();
    let mut expected = b"define PREFIX=\"C:\\u\\1. ".to_vec();
    expected.extend([0xD0, 0xE0, 0xE7, 0xED, 0xEE, 0xE5]);
    expected.extend(b"\"\n");
    expected.extend([0xCF, 0xF0, 0xE8, 0xE2, 0xE5, 0xF2, b'\n']);
    expected.extend(b"@\"&PREFIX\\a.sql\"\r\n");
    assert_eq!(out, expected);
}

#[test]
fn build_install_script_succeeds_on_an_ordinary_template() {
    let out = build_install_script(b"define PREFIX=x\n", "D", &vec![]);
    assert!(!matches!(out, Err(ScriptError::TooLong)));
    assert_eq!(out.ok().unwrap(), b"define PREFIX=\"D\"\n".to_vec());
}

#[test]
fn prefix_line_replacement_follows_the_line_rules() {
    let templates = [
        "",
        "define PREFIX=",
        "define PREFIX=a",
        "x define PREFIX=a\n",
        "x\rdefine PREFIX=a\n",
        "x\r\ndefine PREFIX=a\r\ny\r\n",
        "define PREFIX =a\ndefine PREFIX=b\n",
        "  define PREFIX=a\n",
        "DEFINE PREFIX=a\n",
        "\n\ndefine PREFIX=\u{420}\u{430}\n",
        "define PREFIX=a\ndefine PREFIX=b",
        "zz\ndefine PREFIX=",
    ];
    for t in templates {
        for dir in ["D", "C:\\u\\1. \u{420}", ""] {
            let expected = replace_prefix_line(t, &format!("define PREFIX=\"{}\"", dir));
            assert_eq!(prefix_template(t, dir), expected, "{:?} {:?}", t, dir);
        }
    }
}

#[test]
fn prefix_template_expands_dollar_references() {
    assert_eq!(prefix_template("define PREFIX=a\n", "$$x"), "define PREFIX=\"$x\"\n");
    assert_eq!(prefix_template("define PREFIX=a\n", "$0"), "define PREFIX=\"define PREFIX=a\"\n");
}

#[test]
fn finish_script_appends_the_list() {
    assert_eq!(finish_script("head\n", &names(&["a.sql"])), "head\n@\"&PREFIX\\a.sql\"\r\n");
    assert_eq!(finish_script("", &vec![]), "");
}
