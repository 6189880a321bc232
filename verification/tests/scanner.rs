use rshell::lang::scanner::Scanner;
use rshell::lang::tokens::{Token, TokenType};
use rshell::shell::Environment;
use rshell::Shell;

fn plain_shell() -> Shell {
    Shell::new(Environment::new())
}

fn shell_with_home(home: &str) -> Shell {
    let mut environment = Environment::new();
    environment.set("HOME".to_string(), home.to_string());
    Shell::new(environment)
}

fn scan_line(line: &str, shell: &Shell) -> Vec<Token> {
    Scanner::new(line).scan_tokens(shell)
}

fn kinds_of(tokens: &[Token]) -> Vec<TokenType> {
    tokens.iter().map(|token| token.kind).collect()
}

fn lexemes_of(tokens: &[Token]) -> Vec<String> {
    tokens.iter().map(|token| token.lexeme.clone()).collect()
}

#[test]
fn blank_line_scans_to_eof_alone() {
    let tokens = scan_line("  \t \n", &plain_shell());
    assert_eq!(tokens.len(), 1);
    assert_eq!(tokens[0].kind, TokenType::Eof);
    assert_eq!(tokens[0].lexeme, "");
    assert_eq!(tokens[0].location, 5);
}

#[test]
fn empty_line_scans_to_eof_alone() {
    let tokens = scan_line("", &plain_shell());
    assert_eq!(kinds_of(&tokens), vec![TokenType::Eof]);
    assert_eq!(tokens[0].location, 0);
}

#[test]
fn words_scan_to_parts_located_behind_their_last_character() {
    let tokens = scan_line("echo a b c", &plain_shell());
    assert_eq!(
        kinds_of(&tokens),
        vec![
            TokenType::Part,
            TokenType::Part,
            TokenType::Part,
            TokenType::Part,
            TokenType::Eof
        ]
    );
    assert_eq!(lexemes_of(&tokens), vec!["echo", "a", "b", "c", ""]);
    let locations: Vec<usize> = tokens.iter().map(|token| token.location).collect();
    assert_eq!(locations, vec![4, 6, 8, 10, 10]);
}

#[test]
fn operators_scan_to_their_own_tokens() {
    let tokens = scan_line("a && b & c | d || e ; { } :-", &plain_shell());
    assert_eq!(
        kinds_of(&tokens),
        vec![
            TokenType::Part,
            TokenType::AndAnd,
            TokenType::Part,
            TokenType::And,
            TokenType::Part,
            TokenType::Pipe,
            TokenType::Part,
            TokenType::OrOr,
            TokenType::Part,
            TokenType::Semicolon,
            TokenType::LeftBrace,
            TokenType::RightBrace,
            TokenType::ColonDash,
            TokenType::Eof
        ]
    );
    assert_eq!(
        lexemes_of(&tokens),
        vec!["a", "&&", "b", "&", "c", "|", "d", "||", "e", ";", "{", "}", ":-", ""]
    );
}

#[test]
fn operators_need_no_blanks_around_them() {
    let tokens = scan_line("a&&b||c", &plain_shell());
    assert_eq!(lexemes_of(&tokens), vec!["a", "&&", "b", "||", "c", ""]);
}

#[test]
fn three_ampersands_are_a_pair_and_a_single() {
    let tokens = scan_line("&&&", &plain_shell());
    assert_eq!(
        kinds_of(&tokens),
        vec![TokenType::AndAnd, TokenType::And, TokenType::Eof]
    );
}

#[test]
fn colon_without_dash_is_dropped() {
    let tokens = scan_line("a : b", &plain_shell());
    assert_eq!(lexemes_of(&tokens), vec!["a", "b", ""]);
    let tokens = scan_line(":", &plain_shell());
    assert_eq!(kinds_of(&tokens), vec![TokenType::Eof]);
}

#[test]
fn dollar_is_its_own_token() {
    let tokens = scan_line("echo $USER", &plain_shell());
    assert_eq!(
        kinds_of(&tokens),
        vec![
            TokenType::Part,
            TokenType::DollarSign,
            TokenType::Part,
            TokenType::Eof
        ]
    );
    assert_eq!(lexemes_of(&tokens), vec!["echo", "$", "USER", ""]);
}

#[test]
fn braced_expansion_scans_to_five_tokens() {
    let tokens = scan_line("${UNSET_VAR:-fallback}", &plain_shell());
    assert_eq!(
        kinds_of(&tokens),
        vec![
            TokenType::DollarSign,
            TokenType::LeftBrace,
            TokenType::Part,
            TokenType::ColonDash,
            TokenType::Part,
            TokenType::RightBrace,
            TokenType::Eof
        ]
    );
    assert_eq!(tokens[2].lexeme, "UNSET_VAR");
    assert_eq!(tokens[4].lexeme, "fallback");
}

#[test]
fn dollar_question_is_the_previous_exit_code() {
    let mut shell = plain_shell();
    shell.previous_exit_code = 130;
    let tokens = scan_line("echo $?", &shell);
    assert_eq!(kinds_of(&tokens), vec![TokenType::Part, TokenType::Part, TokenType::Eof]);
    assert_eq!(tokens[1].lexeme, "130");
    assert_eq!(tokens[1].location, 7);
}

#[test]
fn dollar_question_writes_zero_and_negative_codes() {
    let mut shell = plain_shell();
    let tokens = scan_line("$?", &shell);
    assert_eq!(tokens[0].lexeme, "0");
    shell.previous_exit_code = -2147483648;
    let tokens = scan_line("$?", &shell);
    assert_eq!(tokens[0].lexeme, "-2147483648");
    shell.previous_exit_code = 2147483647;
    let tokens = scan_line("$?", &shell);
    assert_eq!(tokens[0].lexeme, "2147483647");
}

#[test]
fn tilde_is_the_home_directory() {
    let shell = shell_with_home("/home/alice");
    let tokens = scan_line("cd ~", &shell);
    assert_eq!(lexemes_of(&tokens), vec!["cd", "/home/alice", ""]);
    assert_eq!(tokens[1].kind, TokenType::Part);
    assert_eq!(tokens[1].location, 4);
}

#[test]
fn tilde_takes_the_word_behind_it() {
    let shell = shell_with_home("/home/alice");
    let tokens = scan_line("ls ~/src/lib.rs x", &shell);
    assert_eq!(lexemes_of(&tokens), vec!["ls", "/home/alice/src/lib.rs", "x", ""]);
}

#[test]
fn tilde_leaves_what_is_no_word_to_the_next_token() {
    let shell = shell_with_home("/h");
    let tokens = scan_line("~;~ a", &shell);
    assert_eq!(
        kinds_of(&tokens),
        vec![
            TokenType::Part,
            TokenType::Semicolon,
            TokenType::Part,
            TokenType::Part,
            TokenType::Eof
        ]
    );
    assert_eq!(lexemes_of(&tokens), vec!["/h", ";", "/h", "a", ""]);
}

#[test]
fn tilde_without_home_is_empty() {
    let tokens = scan_line("~/x", &plain_shell());
    assert_eq!(lexemes_of(&tokens), vec!["/x", ""]);
    let tokens = scan_line("~", &plain_shell());
    assert_eq!(lexemes_of(&tokens), vec!["", ""]);
    assert_eq!(tokens[0].kind, TokenType::Part);
}

#[test]
fn quotes_keep_spaces_in_one_word() {
    let tokens = scan_line("echo \"a b\" c", &plain_shell());
    assert_eq!(lexemes_of(&tokens), vec!["echo", "\"a b\"", "c", ""]);
    let tokens = scan_line("echo 'a b' c", &plain_shell());
    assert_eq!(lexemes_of(&tokens), vec!["echo", "'a b'", "c", ""]);
}

#[test]
fn a_quote_inside_a_word_opens_quoting() {
    let tokens = scan_line("alias ll=\"ls -la\" x", &plain_shell());
    assert_eq!(lexemes_of(&tokens), vec!["alias", "ll=\"ls -la\"", "x", ""]);
}

#[test]
fn only_the_same_quote_closes() {
    let tokens = scan_line("\"it's a\" b", &plain_shell());
    assert_eq!(lexemes_of(&tokens), vec!["\"it's a\"", "b", ""]);
}

#[test]
fn a_word_goes_on_behind_a_closed_quote() {
    let tokens = scan_line("\"a b\"c d", &plain_shell());
    assert_eq!(lexemes_of(&tokens), vec!["\"a b\"c", "d", ""]);
}

#[test]
fn an_open_quote_ends_with_the_line() {
    let tokens = scan_line("echo \"a b", &plain_shell());
    assert_eq!(lexemes_of(&tokens), vec!["echo", "\"a b", ""]);
}

#[test]
fn a_quoted_word_ends_at_what_is_no_word_character() {
    let tokens = scan_line("\"a;b\"", &plain_shell());
    assert_eq!(
        kinds_of(&tokens),
        vec![TokenType::Part, TokenType::Semicolon, TokenType::Part, TokenType::Eof]
    );
    assert_eq!(lexemes_of(&tokens), vec!["\"a", ";", "b\"", ""]);
}

#[test]
fn word_characters_are_letters_digits_and_seven_marks() {
    let tokens = scan_line("a=b ./x-y/z_1.2", &plain_shell());
    assert_eq!(lexemes_of(&tokens), vec!["a=b", "./x-y/z_1.2", ""]);
}

#[test]
fn letters_of_any_script_go_on_a_word() {
    let tokens = scan_line("caf\u{e9} \u{4e16}\u{754c}9", &plain_shell());
    assert_eq!(lexemes_of(&tokens), vec!["caf\u{e9}", "\u{4e16}\u{754c}9", ""]);
}

#[test]
fn any_other_character_begins_a_word_but_does_not_go_on_one() {
    let tokens = scan_line("ab,cd (x)", &plain_shell());
    assert_eq!(lexemes_of(&tokens), vec!["ab", ",cd", "(x", ")", ""]);
}

#[test]
fn an_alias_is_replaced_by_its_text() {
    let mut shell = plain_shell();
    shell.aliases.set("ll".to_string(), "ls -la".to_string());
    let tokens = scan_line("ll /tmp", &shell);
    assert_eq!(lexemes_of(&tokens), vec!["ls -la", "/tmp", ""]);
    assert_eq!(tokens[0].kind, TokenType::Part);
    assert_eq!(tokens[0].location, 2);
}

#[test]
fn an_alias_is_replaced_once_and_not_again() {
    let mut shell = plain_shell();
    shell.aliases.set("a".to_string(), "b".to_string());
    shell.aliases.set("b".to_string(), "c".to_string());
    shell.aliases.set("loop".to_string(), "loop".to_string());
    let tokens = scan_line("a b loop", &shell);
    assert_eq!(lexemes_of(&tokens), vec!["b", "c", "loop", ""]);
}

#[test]
fn an_alias_must_match_the_whole_word() {
    let mut shell = plain_shell();
    shell.aliases.set("ll".to_string(), "ls -la".to_string());
    let tokens = scan_line("lll l ll.", &shell);
    assert_eq!(lexemes_of(&tokens), vec!["lll", "l", "ll.", ""]);
}

#[test]
fn the_word_behind_a_tilde_is_no_alias() {
    let mut shell = shell_with_home("/h");
    shell.aliases.set("/x".to_string(), "nope".to_string());
    let tokens = scan_line("~/x", &shell);
    assert_eq!(lexemes_of(&tokens), vec!["/h/x", ""]);
}

#[test]
fn every_stream_ends_in_the_only_eof() {
    let shell = shell_with_home("/h");
    for line in ["", " ", "a", "a && b", "~", "$?", "${", "\"", ":", "a|b;c&d"] {
        let tokens = scan_line(line, &shell);
        let eofs = tokens.iter().filter(|token| token.kind == TokenType::Eof).count();
        assert_eq!(eofs, 1);
        assert_eq!(tokens[tokens.len() - 1].kind, TokenType::Eof);
        assert_eq!(tokens[tokens.len() - 1].location, line.chars().count());
    }
}

#[test]
fn scanning_twice_gives_the_same_stream() {
    let shell = plain_shell();
    let mut scanner = Scanner::new("echo hi");
    let first = scanner.scan_tokens(&shell);
    let second = scanner.scan_tokens(&shell);
    assert_eq!(lexemes_of(&first), lexemes_of(&second));
    assert_eq!(kinds_of(&first), kinds_of(&second));
}

#[test]
fn token_names_in_diagnostics() {
    assert_eq!(TokenType::AndAnd.to_string(), "'&&'");
    assert_eq!(TokenType::And.to_string(), "'&'");
    assert_eq!(TokenType::Part.to_string(), "identifier");
    assert_eq!(TokenType::DollarSign.to_string(), "'$'");
    assert_eq!(TokenType::Pipe.to_string(), "'|'");
    assert_eq!(TokenType::OrOr.to_string(), "'||'");
    assert_eq!(TokenType::Eof.to_string(), "<eof>");
    assert_eq!(TokenType::Semicolon.to_string(), "';'");
    assert_eq!(TokenType::LeftBrace.to_string(), "'{'");
    assert_eq!(TokenType::RightBrace.to_string(), "'}'");
    assert_eq!(TokenType::ColonDash.to_string(), "':-'");
}

#[test]
fn default_token_is_eof() {
    let token = Token::default();
    assert_eq!(token.kind, TokenType::Eof);
    assert_eq!(token.lexeme, "");
    assert_eq!(token.location, 0);
    assert_eq!(TokenType::default(), TokenType::Eof);
    let made = Token::new(TokenType::Part, "x".to_string(), 7);
    let copy = made.clone();
    assert_eq!(copy.kind, TokenType::Part);
    assert_eq!(copy.lexeme, "x");
    assert_eq!(copy.location, 7);
}
