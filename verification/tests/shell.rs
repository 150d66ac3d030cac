use gotatun_throughput::shell::{remote_command, shell_quote};

#[test]
fn shell_arguments_are_single_quoted() {
    assert_eq!(shell_quote("plain"), "'plain'");
    assert_eq!(shell_quote("it's"), "'it'\\''s'");
    assert_eq!(
        remote_command("some command", &["an argument".to_owned()]),
        "'some command' 'an argument'"
    );
}

#[test]
fn quoting_keeps_every_other_character() {
    assert_eq!(shell_quote(""), "''");
    assert_eq!(shell_quote("'"), "''\\'''");
    assert_eq!(shell_quote("''"), "''\\'''\\'''");
    assert_eq!(shell_quote("a\"b$c`d\\e\nf"), "'a\"b$c`d\\e\nf'");
    assert_eq!(shell_quote("grün 黑"), "'grün 黑'");
}

#[test]
fn command_of_a_program_alone_has_one_word() {
    assert_eq!(remote_command("ls", &[]), "'ls'");
}

#[test]
fn empty_arguments_stay_words() {
    assert_eq!(
        remote_command("p", &["".to_owned(), "it's".to_owned(), "".to_owned()]),
        "'p' '' 'it'\\''s' ''"
    );
}

/// The words that a shell makes of quoted and escaped text.
fn shell_words(command: &str) -> Vec<String> {
    let mut words: Vec<String> = Vec::new();
    let mut word: Option<String> = None;
    let mut quoted = false;
    let mut escaped = false;
    for c in command.chars() {
        if escaped {
            word.get_or_insert_with(String::new).push(c);
            escaped = false;
        } else if quoted {
            if c == '\'' {
                quoted = false;
            } else {
                word.get_or_insert_with(String::new).push(c);
            }
        } else if c == ' ' {
            words.extend(word.take());
        } else if c == '\'' {
            word.get_or_insert_with(String::new);
            quoted = true;
        } else if c == '\\' {
            word.get_or_insert_with(String::new);
            escaped = true;
        } else {
            word.get_or_insert_with(String::new).push(c);
        }
    }
    assert!(!quoted && !escaped);
    words.extend(word);
    words
}

#[test]
fn shell_reads_the_words_back() {
    let args = vec![
        "a b".to_owned(),
        "".to_owned(),
        "'".to_owned(),
        "\\'\\".to_owned(),
        "$(rm -rf /); `x` & | > < * ?".to_owned(),
    ];
    let mut expected = vec!["the program".to_owned()];
    expected.extend(args.iter().cloned());
    assert_eq!(shell_words(&remote_command("the program", &args)), expected);
}
