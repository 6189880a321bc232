use rshell::shell::Environment;
use rshell::table::Table;
use rshell::text::{
    chars_of, clone_texts, glue, decimal_of_code, decimal_of_count, join, join_from,
    parse_exit_code, same_text, split_at_first, string_of, string_of_range, strip_quotes,
};
use rshell::{Aliases, Shell, RSHELL_RC, RSHISTORY};

fn owned(words: &[&str]) -> Vec<String> {
    words.iter().map(|word| word.to_string()).collect()
}

#[test]
fn characters_go_to_a_vector_and_back() {
    let chars = chars_of("h\u{e9}llo");
    assert_eq!(chars, vec!['h', '\u{e9}', 'l', 'l', 'o']);
    assert_eq!(string_of(&chars), "h\u{e9}llo");
    assert_eq!(string_of_range(&chars, 1, 3), "\u{e9}l");
    assert_eq!(string_of_range(&chars, 2, 2), "");
    assert_eq!(chars_of(""), Vec::<char>::new());
}

#[test]
fn concat_and_same_text() {
    assert_eq!(glue("ab", "cd"), "abcd");
    assert_eq!(glue("", ""), "");
    assert!(same_text("abc", "abc"));
    assert!(same_text("", ""));
    assert!(!same_text("abc", "abd"));
    assert!(!same_text("abc", "ab"));
    assert!(!same_text("", "a"));
}

#[test]
fn join_puts_the_separator_between_neighbours() {
    assert_eq!(join(&owned(&["a", "b", "c"]), ", "), "a, b, c");
    assert_eq!(join(&owned(&["a"]), ", "), "a");
    assert_eq!(join(&owned(&[]), ", "), "");
    assert_eq!(join(&owned(&["", ""]), "-"), "-");
    assert_eq!(join(&owned(&["x", "y"]), ""), "xy");
    assert_eq!(join_from(&owned(&["a", "b", "c"]), 1, " "), "b c");
    assert_eq!(join_from(&owned(&["a", "b", "c"]), 3, " "), "");
    assert_eq!(join_from(&owned(&["a", "b", "c"]), 9, " "), "");
}

#[test]
fn clone_texts_copies_every_string() {
    let words = owned(&["a", "", "c d"]);
    assert_eq!(clone_texts(&words), words);
}

#[test]
fn split_at_the_first_separator() {
    assert_eq!(split_at_first("a=b=c", '='), Some(("a".to_string(), "b=c".to_string())));
    assert_eq!(split_at_first("=", '='), Some((String::new(), String::new())));
    assert_eq!(split_at_first("ab=", '='), Some(("ab".to_string(), String::new())));
    assert_eq!(split_at_first("abc", '='), None);
    assert_eq!(split_at_first("", '='), None);
}

#[test]
fn strip_quotes_takes_one_matching_pair() {
    assert_eq!(strip_quotes("\"a b\""), "a b");
    assert_eq!(strip_quotes("'a b'"), "a b");
    assert_eq!(strip_quotes("''a''"), "'a'");
    assert_eq!(strip_quotes("\"a'"), "\"a'");
    assert_eq!(strip_quotes("\""), "\"");
    assert_eq!(strip_quotes("\"\""), "");
    assert_eq!(strip_quotes("a\"b\""), "a\"b\"");
    assert_eq!(strip_quotes(""), "");
}

#[test]
fn decimal_of_numbers() {
    assert_eq!(decimal_of_code(0), "0");
    assert_eq!(decimal_of_code(7), "7");
    assert_eq!(decimal_of_code(10), "10");
    assert_eq!(decimal_of_code(-1), "-1");
    assert_eq!(decimal_of_code(130), "130");
    assert_eq!(decimal_of_code(i32::MAX), "2147483647");
    assert_eq!(decimal_of_code(i32::MIN), "-2147483648");
    assert_eq!(decimal_of_count(0), "0");
    assert_eq!(decimal_of_count(1009), "1009");
    assert_eq!(decimal_of_count(usize::MAX), usize::MAX.to_string());
    for n in [-1000, -99, -10, -9, 9, 99, 100, 101, 65535, 1000000] {
        assert_eq!(decimal_of_code(n), n.to_string());
    }
}

#[test]
fn exit_codes_are_read_as_the_standard_library_reads_them() {
    for word in [
        "0", "1", "-1", "+1", "-0", "+0", "00", "0010", "2147483647", "2147483648",
        "-2147483648", "-2147483649", "4294967296", "", "-", "+", "a", "1a", "a1", " 1", "1 ",
        "1-", "--1", "++1", "1+1", "0x1", "1e3", "١", "¹", "12345678901234567890",
        "-00000000000000000000001",
    ] {
        assert_eq!(parse_exit_code(word), word.parse::<i32>().ok());
    }
    assert_eq!(parse_exit_code("255"), Some(255));
    assert_eq!(parse_exit_code("-7"), Some(-7));
    assert_eq!(parse_exit_code("notanumber"), None);
}

#[test]
fn decimal_and_parse_agree() {
    for n in [i32::MIN, -12345, -1, 0, 1, 42, 99999, i32::MAX] {
        assert_eq!(parse_exit_code(&decimal_of_code(n)), Some(n));
    }
}

#[test]
fn aliases_get_and_set() {
    let mut aliases = Aliases::new();
    assert_eq!(aliases.len(), 0);
    assert_eq!(aliases.get("ll"), None);
    assert_eq!(aliases.set("ll".to_string(), "ls -l".to_string()), None);
    assert_eq!(aliases.get("ll"), Some(&"ls -l".to_string()));
    assert_eq!(
        aliases.set("ll".to_string(), "ls -la".to_string()),
        Some("ls -l".to_string())
    );
    assert_eq!(aliases.get("ll"), Some(&"ls -la".to_string()));
    assert_eq!(aliases.get("l"), None);
    assert_eq!(aliases.get("lll"), None);
    assert_eq!(aliases.len(), 1);
    assert_eq!(aliases.set("g".to_string(), "git".to_string()), None);
    assert_eq!(aliases.len(), 2);
    assert_eq!(aliases.key_at(0), "ll");
    assert_eq!(aliases.value_at(0), "ls -la");
    assert_eq!(aliases.key_at(1), "g");
    assert_eq!(aliases.value_at(1), "git");
    assert_eq!(Aliases::default().len(), 0);
}

#[test]
fn table_keeps_names_apart_and_in_order() {
    let mut table = Table::new();
    for (name, value) in [("b", "1"), ("a", "2"), ("", "3"), ("b", "4"), ("ab", "5")] {
        table.set(name.to_string(), value.to_string());
    }
    assert_eq!(table.len(), 4);
    let names: Vec<String> = (0..table.len()).map(|i| table.key_at(i).clone()).collect();
    let values: Vec<String> = (0..table.len()).map(|i| table.value_at(i).clone()).collect();
    assert_eq!(names, owned(&["b", "a", "", "ab"]));
    assert_eq!(values, owned(&["4", "2", "3", "5"]));
    assert_eq!(table.get("b"), Some(&"4".to_string()));
    assert_eq!(table.get(""), Some(&"3".to_string()));
    assert_eq!(table.get("c"), None);
}

#[test]
fn environment_get_and_set() {
    let mut environment = Environment::new();
    assert_eq!(environment.get("HOME"), None);
    assert_eq!(environment.set("HOME".to_string(), "/h".to_string()), None);
    assert_eq!(environment.get("HOME"), Some(&"/h".to_string()));
    assert_eq!(
        environment.set("HOME".to_string(), "/g".to_string()),
        Some("/h".to_string())
    );
    assert_eq!(environment.get("HOME"), Some(&"/g".to_string()));
    assert_eq!(environment.get("home"), None);
    assert_eq!(Environment::default().get("HOME"), None);
}

#[test]
fn a_new_shell_has_no_aliases_and_code_zero() {
    let mut environment = Environment::new();
    environment.set("A".to_string(), "1".to_string());
    let shell = Shell::new(environment);
    assert_eq!(shell.previous_exit_code, 0);
    assert_eq!(shell.aliases.len(), 0);
    assert_eq!(shell.environment.get("A"), Some(&"1".to_string()));
    assert_eq!(RSHISTORY, ".rshistory");
    assert_eq!(RSHELL_RC, ".rshellrc");
}
