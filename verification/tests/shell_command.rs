use rlsh::shell::command::{
    is_white_space, join, parse, parse_ls, parse_words, words, Executable, LsData, NonBuiltInData,
    Parsed,
};
use rlsh::shell::job_list::State;

fn strings(items: &[&str]) -> Vec<String> {
    items.iter().map(|s| s.to_string()).collect()
}

fn quiet(command: Executable) -> Parsed {
    Parsed { command, complaint: None }
}

fn program(
    command: &str,
    args: &[&str],
    state: State,
    cmdline: &str,
    infile: Option<&str>,
    outfile: Option<&str>,
) -> Parsed {
    quiet(Executable::NonBuiltin(NonBuiltInData {
        command: command.to_string(),
        args: strings(args),
        state,
        cmdline: cmdline.to_string(),
        infile: infile.map(|s| s.to_string()),
        outfile: outfile.map(|s| s.to_string()),
    }))
}

fn listing(files: &[&str], all: bool, long: bool, reverse: bool, sort_time: bool) -> LsData {
    LsData { files: strings(files), all, long, reverse, sort_time, outfile: None }
}

#[test]
fn words_are_cut_at_white_space() {
    assert_eq!(strings(&["ls", "-la", "src"]), words("ls -la src\n"));
    assert_eq!(strings(&["a", "b"]), words("  a \t\r\n  b"));
    assert_eq!(strings(&["one"]), words("one"));
    assert_eq!(Vec::<String>::new(), words(""));
    assert_eq!(Vec::<String>::new(), words(" \n\t "));
    assert_eq!(strings(&["a", "b", "c"]), words("a\u{a0}b\u{3000}c"));
    assert_eq!(strings(&["a\u{200b}b"]), words("a\u{200b}b"));
}

#[test]
fn white_space_is_what_the_standard_library_takes_for_it() {
    for code in 0..=0x10ffffu32 {
        if let Some(c) = char::from_u32(code) {
            assert_eq!(c.is_whitespace(), is_white_space(c));
        }
    }
}

#[test]
fn white_space_characters() {
    for c in "\t\n\x0b\x0c\r \u{85}\u{a0}\u{1680}\u{2000}\u{200a}\u{2028}\u{2029}".chars() {
        assert!(is_white_space(c));
    }
    for c in "\u{202f}\u{205f}\u{3000}".chars() {
        assert!(is_white_space(c));
    }
    for c in "\x08\x0e\x1f!a0\u{84}\u{86}\u{180e}\u{1fff}\u{200b}\u{2060}\u{feff}".chars() {
        assert!(!is_white_space(c));
    }
}

#[test]
fn words_agree_with_the_standard_split() {
    let samples = [
        "",
        " ",
        "x",
        " x",
        "x ",
        "echo hello   world &\n",
        "\u{2003}wide\u{2003}space\u{2003}",
        "tab\tseparated\x0bvertical\x0cfeed",
        "caf\u{e9} \u{1f980} crab\u{85}next",
    ];
    for sample in samples {
        let expected: Vec<String> = sample.split_whitespace().map(|s| s.to_string()).collect();
        assert_eq!(expected, words(sample));
    }
}

#[test]
fn joining_puts_one_space_between_words() {
    assert_eq!("a bc  d", join(&strings(&["a", "bc", "", "d"])));
    assert_eq!("d", join(&strings(&["d"])));
    assert_eq!(" ", join(&strings(&["", ""])));
    assert_eq!("", join(&strings(&[""])));
    assert_eq!("", join(&Vec::new()));
}

#[test]
fn empty_line_does_nothing() {
    assert_eq!(quiet(Executable::Noop), parse(""));
    assert_eq!(quiet(Executable::Noop), parse("   \n"));
    assert_eq!(quiet(Executable::Noop), parse("&\n"));
    assert_eq!(quiet(Executable::Noop), parse("> out.txt\n"));
}

#[test]
fn builtins_are_known_by_their_first_word() {
    assert_eq!(quiet(Executable::Exit), parse("exit\n"));
    assert_eq!(quiet(Executable::Exit), parse("exit now please\n"));
    assert_eq!(quiet(Executable::Jobs(None)), parse("jobs\n"));
    assert_eq!(quiet(Executable::Jobs(Some("j.txt".to_string()))), parse("jobs > j.txt\n"));
    assert_eq!(quiet(Executable::Cd(None)), parse("cd\n"));
    assert_eq!(quiet(Executable::Cd(Some("/tmp".to_string()))), parse("cd /tmp\n"));
    assert_eq!(program("exit___", &[], State::FG, "exit___\n", None, None), parse("exit___\n"));
}

#[test]
fn cd_takes_one_path() {
    assert_eq!(
        Parsed {
            command: Executable::Noop,
            complaint: Some("cd: too many arguments".to_string())
        },
        parse("cd a b\n")
    );
}

#[test]
fn programs_keep_their_line() {
    assert_eq!(
        program("echo", &["hello", "world"], State::FG, "echo hello   world\n", None, None),
        parse("echo hello   world\n")
    );
}

#[test]
fn trailing_ampersand_asks_for_the_background() {
    assert_eq!(
        program("sleep", &["10"], State::BG, "sleep 10 &\n", None, None),
        parse("sleep 10 &\n")
    );
    assert_eq!(
        program("sleep", &["&", "10"], State::FG, "sleep & 10\n", None, None),
        parse("sleep & 10\n")
    );
    assert_eq!(
        program("sleep", &["10&"], State::FG, "sleep 10&\n", None, None),
        parse("sleep 10&\n")
    );
}

#[test]
fn output_file_follows_the_angle() {
    assert_eq!(
        program("echo", &["hi"], State::FG, "echo hi > out.txt\n", None, Some("out.txt")),
        parse("echo hi > out.txt\n")
    );
    assert_eq!(
        program("echo", &["hi"], State::BG, "echo hi > out.txt more &\n", None, Some("out.txt")),
        parse("echo hi > out.txt more &\n")
    );
    assert_eq!(
        program("echo", &["hi"], State::FG, "echo hi >\n", None, None),
        parse("echo hi >\n")
    );
    assert_eq!(
        program("echo", &["hi"], State::FG, "echo hi > a > b\n", None, Some("a")),
        parse("echo hi > a > b\n")
    );
}

#[test]
fn input_file_follows_the_angle() {
    assert_eq!(
        program("sort", &["-r"], State::FG, "sort -r < data.txt\n", Some("data.txt"), None),
        parse("sort -r < data.txt\n")
    );
    assert_eq!(
        program("sort", &[], State::FG, "sort < a.txt b.txt\n", Some("a.txt"), None),
        parse("sort < a.txt b.txt\n")
    );
    assert_eq!(program("sort", &[], State::FG, "sort <\n", None, None), parse("sort <\n"));
    assert_eq!(
        program("a", &[], State::FG, "a < b < c\n", Some("b"), None),
        parse("a < b < c\n")
    );
    assert_eq!(quiet(Executable::Noop), parse("< data.txt sort\n"));
}

#[test]
fn both_files_can_be_named() {
    let line = "cat < in.txt > out.txt\n";
    assert_eq!(
        program("cat", &[], State::FG, line, Some("in.txt"), Some("out.txt")),
        parse(line)
    );
    assert_eq!(
        program("cat", &["-n"], State::FG, "cat -n > o < i\n", Some("i"), Some("o")),
        parse("cat -n > o < i\n")
    );
    let line = "wc -l < a.txt > n.txt &\n";
    assert_eq!(
        program("wc", &["-l"], State::BG, line, Some("a.txt"), Some("n.txt")),
        parse(line)
    );
}

#[test]
fn the_word_after_an_angle_is_taken_as_it_stands() {
    assert_eq!(
        program("cat", &[], State::FG, "cat < > out\n", Some(">"), Some("out")),
        parse("cat < > out\n")
    );
    assert_eq!(program("cat", &[], State::BG, "cat > &\n", None, None), parse("cat > &\n"));
}

#[test]
fn builtins_stop_at_the_first_angle() {
    assert_eq!(
        quiet(Executable::Ls(listing(&["src"], false, false, false, false))),
        parse("ls src < x -l\n")
    );
    assert_eq!(quiet(Executable::Cd(Some("/tmp".to_string()))), parse("cd /tmp > a b\n"));
    assert_eq!(quiet(Executable::Jobs(None)), parse("jobs < j.txt\n"));
}

#[test]
fn spawn_and_attack_take_the_rest_of_the_line() {
    assert_eq!(
        quiet(Executable::TempDebugSpawnEnemy("big bad  goblin".replace("  ", " "))),
        parse("spawn big bad  goblin\n")
    );
    assert_eq!(quiet(Executable::TempDebugSpawnEnemy(String::new())), parse("spawn\n"));
    assert_eq!(
        quiet(Executable::TempDebugAttackEnemy("goblin &".to_string())),
        parse("attack goblin &\n")
    );
    assert_eq!(
        quiet(Executable::TempDebugAttackEnemy("a > b".to_string())),
        parse("  attack a > b")
    );
}

#[test]
fn ls_without_words() {
    assert_eq!(
        quiet(Executable::Ls(listing(&[], false, false, false, false))),
        parse("ls\n")
    );
}

#[test]
fn ls_flags_and_files() {
    assert_eq!(
        quiet(Executable::Ls(listing(&["src", "tests"], true, true, false, false))),
        parse("ls -la src tests\n")
    );
    assert_eq!(
        quiet(Executable::Ls(listing(&["src"], true, false, true, true))),
        parse("ls --all src --reverse -t\n")
    );
    assert_eq!(
        quiet(Executable::Ls(listing(&["-", "a-b"], false, true, true, false))),
        parse("ls - -r a-b -l -l\n")
    );
    assert_eq!(
        quiet(Executable::Ls(listing(&[], true, true, true, true))),
        parse("ls -altr\n")
    );
}

#[test]
fn ls_output_file() {
    let mut data = listing(&["src"], false, true, false, false);
    data.outfile = Some("list.txt".to_string());
    assert_eq!(quiet(Executable::Ls(data)), parse("ls -l src > list.txt\n"));
}

#[test]
fn ls_names_the_flags_it_does_not_know() {
    assert_eq!(
        Parsed {
            command: Executable::Noop,
            complaint: Some("ls: could not recognize these arguments: -x --color -z".to_string()),
        },
        parse("ls -lxa src --color --all -tz\n")
    );
    assert_eq!(
        Parsed {
            command: Executable::Noop,
            complaint: Some("ls: could not recognize these arguments: --".to_string()),
        },
        parse("ls --\n")
    );
    assert_eq!(
        Parsed {
            command: Executable::Noop,
            complaint: Some("ls: could not recognize these arguments: -\u{e9}".to_string()),
        },
        parse("ls -a\u{e9}\n")
    );
}

#[test]
fn ls_words_can_be_read_on_their_own() {
    assert_eq!(
        Parsed {
            command: Executable::Ls(LsData {
                files: strings(&["", "x"]),
                all: false,
                long: false,
                reverse: true,
                sort_time: false,
                outfile: Some("o".to_string()),
            }),
            complaint: None,
        },
        parse_ls(strings(&["", "-r", "x"]), Some("o".to_string()))
    );
}

#[test]
fn cut_words_can_be_read_on_their_own() {
    assert_eq!(
        program("make", &["all"], State::BG, "typed", None, None),
        parse_words(strings(&["make", "all", "&"]), "typed".to_string())
    );
    assert_eq!(quiet(Executable::Noop), parse_words(Vec::new(), "typed".to_string()));
}
