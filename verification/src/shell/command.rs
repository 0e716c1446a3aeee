//! Command lines: from the text that the user typed to the command that the
//! shell runs.
//!
//! A line is cut into words at white space. A trailing `&` sends the command
//! to the background, `<` and `>` name files for its standard streams, and the
//! first word that is left decides whether the shell runs the command itself.

use crate::shell::job_list::State;
use vstd::prelude::*;
use vstd::string::StrSliceExecFns;
use vstd::string::StringExecFns;

verus! {

/// What `ls` was asked to do.
#[derive(Debug, PartialEq, Eq)]
pub struct LsData {
    /// The files and directories to list; none stands for the current one.
    pub files: Vec<String>,
    /// `-a`, `--all`: entries whose name starts with a dot are listed too.
    pub all: bool,
    /// `-l`: one entry on each line.
    pub long: bool,
    /// `-r`, `--reverse`: the order is turned round.
    pub reverse: bool,
    /// `-t`: entries are ordered by the time of their last change.
    pub sort_time: bool,
    /// The file that takes the listing in place of the terminal.
    pub outfile: Option<String>,
}

/// A command that the shell does not run itself, as the launcher needs it.
#[derive(Debug, PartialEq, Eq)]
pub struct NonBuiltInData {
    /// The program to run.
    pub command: String,
    /// The arguments for the program.
    pub args: Vec<String>,
    /// Whether the shell waits for the program.
    pub state: State,
    /// The line as the user typed it.
    pub cmdline: String,
    /// The file that the program reads in place of the terminal.
    pub infile: Option<String>,
    /// The file that the program writes in place of the terminal.
    pub outfile: Option<String>,
}

/// A command line, understood.
#[derive(Debug, PartialEq, Eq)]
pub enum Executable {
    /// List files.
    Ls(LsData),
    /// Change the working directory, to the home directory without a path.
    Cd(Option<String>),
    /// Leave the shell.
    Exit,
    /// List the jobs, into a file where one is named.
    Jobs(Option<String>),
    /// Do nothing.
    Noop,
    /// Put an enemy into the file of this name.
    TempDebugSpawnEnemy(String),
    /// Attack the enemy in the file of this name.
    TempDebugAttackEnemy(String),
    /// Run a program.
    NonBuiltin(NonBuiltInData),
}

/// A command, and what the user is told about the line it came from.
#[derive(Debug, PartialEq, Eq)]
pub struct Parsed {
    /// What the shell does for the line.
    pub command: Executable,
    /// Why the line is not carried out, where it is not.
    pub complaint: Option<String>,
}

/// The mathematical value of an [`LsData`].
pub struct LsDataView {
    pub files: Seq<Seq<char>>,
    pub all: bool,
    pub long: bool,
    pub reverse: bool,
    pub sort_time: bool,
    pub outfile: Option<Seq<char>>,
}

/// The mathematical value of a [`NonBuiltInData`].
pub struct NonBuiltInView {
    pub command: Seq<char>,
    pub args: Seq<Seq<char>>,
    pub state: State,
    pub cmdline: Seq<char>,
    pub infile: Option<Seq<char>>,
    pub outfile: Option<Seq<char>>,
}

/// The mathematical value of an [`Executable`].
pub enum ExecutableView {
    Ls(LsDataView),
    Cd(Option<Seq<char>>),
    Exit,
    Jobs(Option<Seq<char>>),
    Noop,
    TempDebugSpawnEnemy(Seq<char>),
    TempDebugAttackEnemy(Seq<char>),
    NonBuiltin(NonBuiltInView),
}

/// The mathematical value of a [`Parsed`].
pub struct ParsedView {
    pub command: ExecutableView,
    pub complaint: Option<Seq<char>>,
}

impl View for LsData {
    type V = LsDataView;

    open spec fn view(&self) -> LsDataView {
        LsDataView {
            files: self.files.deep_view(),
            all: self.all,
            long: self.long,
            reverse: self.reverse,
            sort_time: self.sort_time,
            outfile: self.outfile.deep_view(),
        }
    }
}

impl View for NonBuiltInData {
    type V = NonBuiltInView;

    open spec fn view(&self) -> NonBuiltInView {
        NonBuiltInView {
            command: self.command@,
            args: self.args.deep_view(),
            state: self.state,
            cmdline: self.cmdline@,
            infile: self.infile.deep_view(),
            outfile: self.outfile.deep_view(),
        }
    }
}

impl View for Executable {
    type V = ExecutableView;

    open spec fn view(&self) -> ExecutableView {
        match self {
            Executable::Ls(data) => ExecutableView::Ls(data@),
            Executable::Cd(path) => ExecutableView::Cd(path.deep_view()),
            Executable::Exit => ExecutableView::Exit,
            Executable::Jobs(path) => ExecutableView::Jobs(path.deep_view()),
            Executable::Noop => ExecutableView::Noop,
            Executable::TempDebugSpawnEnemy(name) => ExecutableView::TempDebugSpawnEnemy(name@),
            Executable::TempDebugAttackEnemy(name) => ExecutableView::TempDebugAttackEnemy(name@),
            Executable::NonBuiltin(data) => ExecutableView::NonBuiltin(data@),
        }
    }
}

impl View for Parsed {
    type V = ParsedView;

    open spec fn view(&self) -> ParsedView {
        ParsedView { command: self.command@, complaint: self.complaint.deep_view() }
    }
}

/// Whether `c` is white space: one of the characters that Unicode gives the
/// property White_Space. They are the tab, the line feed, the vertical tab,
/// the form feed and the carriage return, the space, the next line mark, the
/// no-break space, the Ogham space mark, the spaces from the en quad to the
/// hair space, the line and the paragraph separator, the narrow no-break
/// space, the medium mathematical space, and the ideographic space.
pub open spec fn white_space(c: char) -> bool {
    let n = c as u32;
    ||| 0x09 <= n <= 0x0d
    ||| n == 0x20
    ||| n == 0x85
    ||| n == 0xa0
    ||| n == 0x1680
    ||| 0x2000 <= n <= 0x200a
    ||| n == 0x2028
    ||| n == 0x2029
    ||| n == 0x202f
    ||| n == 0x205f
    ||| n == 0x3000
}

/// Whether `c` is white space.
pub fn is_white_space(c: char) -> (answer: bool)
    ensures
        answer == white_space(c),
{
    let n: u32 = c as u32;
    (0x09 <= n && n <= 0x0d) || n == 0x20 || n == 0x85 || n == 0xa0 || n == 0x1680 || (0x2000 <= n
        && n <= 0x200a) || n == 0x2028 || n == 0x2029 || n == 0x202f || n == 0x205f || n == 0x3000
}

/// `String::push` appends the character to the end of the string.
pub assume_specification[ String::push ](text: &mut String, ch: char)
    ensures
        final(text)@ == old(text)@.push(ch),
;

/// The words that are complete after `text` was read, and the word that is
/// still open at its end.
pub open spec fn scan_words(text: Seq<char>) -> (Seq<Seq<char>>, Seq<char>)
    decreases text.len(),
{
    if text.len() == 0 {
        (Seq::empty(), Seq::empty())
    } else {
        let (done, open) = scan_words(text.drop_last());
        if !white_space(text.last()) {
            (done, open.push(text.last()))
        } else if open.len() > 0 {
            (done.push(open), Seq::empty())
        } else {
            (done, open)
        }
    }
}

/// The words of `text`: its longest stretches without white space, in order.
pub open spec fn split_words(text: Seq<char>) -> Seq<Seq<char>> {
    let (done, open) = scan_words(text);
    if open.len() > 0 {
        done.push(open)
    } else {
        done
    }
}

/// `words`, with one space between each two.
pub open spec fn join_words(words: Seq<Seq<char>>) -> Seq<char>
    decreases words.len(),
{
    if words.len() == 0 {
        Seq::empty()
    } else if words.len() == 1 {
        words[0]
    } else {
        join_words(words.drop_last()) + seq![' '] + words.last()
    }
}

/// Cuts `input` into its words.
pub fn words(input: &str) -> (out: Vec<String>)
    ensures
        out.deep_view() == split_words(input@),
{
    let mut out: Vec<String> = Vec::new();
    let mut open = String::new();
    for c in it: input.chars()
        invariant
            it.seq() == input@,
            (out.deep_view(), open@) == scan_words(input@.take(it.index())),
    {
        proof {
            let before = input@.take(it.index());
            assert(input@.take(it.index() + 1).drop_last() =~= before);
        }
        if !is_white_space(c) {
            open.push(c);
        } else if !open.as_str().is_empty() {
            let ghost done = out.deep_view();
            let ghost word = open@;
            out.push(open);
            open = String::new();
            assert(out.deep_view() =~= done.push(word));
        }
    }
    assert(input@.take(input@.len() as int) =~= input@);
    if !open.as_str().is_empty() {
        let ghost done = out.deep_view();
        let ghost word = open@;
        out.push(open);
        assert(out.deep_view() =~= done.push(word));
    }
    out
}

/// Joins the words with single spaces.
pub fn join(words: &Vec<String>) -> (text: String)
    ensures
        text@ == join_words(words.deep_view()),
{
    let mut text = String::new();
    let ghost all = words.deep_view();
    let mut i: usize = 0;
    while i < words.len()
        invariant
            i <= words.len(),
            all == words.deep_view(),
            text@ == join_words(all.take(i as int)),
        decreases words.len() - i,
    {
        proof {
            let next = all.take(i + 1);
            assert(next.drop_last() =~= all.take(i as int));
            assert(next.last() == words[i as int]@);
        }
        if i > 0 {
            text.append(" ");
            proof {
                reveal_strlit(" ");
                assert(" "@ =~= seq![' ']);
            }
        }
        text.append(words[i].as_str());
        i = i + 1;
    }
    assert(all.take(words.len() as int) =~= all);
    text
}

/// Whether a word is read as flags: it starts with a dash and goes on.
pub open spec fn is_flag(word: Seq<char>) -> bool {
    word.len() > 1 && word[0] == '-'
}

/// The flags that a word stands for: the word itself where it starts with
/// two dashes, else a dash and a letter for each letter after its dash.
pub open spec fn flags_in(word: Seq<char>) -> Seq<Seq<char>> {
    if !is_flag(word) {
        Seq::empty()
    } else if word[1] == '-' {
        seq![word]
    } else {
        Seq::new((word.len() - 1) as nat, |i: int| seq!['-', word[i + 1]])
    }
}

/// The flags that the words stand for, in their order.
pub open spec fn all_flags(words: Seq<Seq<char>>) -> Seq<Seq<char>>
    decreases words.len(),
{
    if words.len() == 0 {
        Seq::empty()
    } else {
        all_flags(words.drop_last()) + flags_in(words.last())
    }
}

/// Whether `ls` knows the flag.
pub open spec fn known_flag(flag: Seq<char>) -> bool {
    ||| flag == "-a"@
    ||| flag == "--all"@
    ||| flag == "-l"@
    ||| flag == "-r"@
    ||| flag == "--reverse"@
    ||| flag == "-t"@
}

/// What `ls` with these words after it means. One flag that `ls` does not
/// know spoils the line: nothing is listed, and the complaint names every
/// such flag.
pub open spec fn interpret_ls(words: Seq<Seq<char>>, outfile: Option<Seq<char>>) -> ParsedView {
    let flags = all_flags(words);
    let unknown = flags.filter(|flag: Seq<char>| !known_flag(flag));
    if unknown.len() > 0 {
        ParsedView {
            command: ExecutableView::Noop,
            complaint: Some("ls: could not recognize these arguments: "@ + join_words(unknown)),
        }
    } else {
        ParsedView {
            command: ExecutableView::Ls(
                LsDataView {
                    files: words.filter(|word: Seq<char>| !is_flag(word)),
                    all: flags.contains("-a"@) || flags.contains("--all"@),
                    long: flags.contains("-l"@),
                    reverse: flags.contains("-r"@) || flags.contains("--reverse"@),
                    sort_time: flags.contains("-t"@),
                    outfile,
                },
            ),
            complaint: None,
        }
    }
}

/// Whether `word` is the text `literal`.
fn is_word(word: &String, literal: &str) -> (same: bool)
    ensures
        same == (word@ == literal@),
{
    let other = String::from_str(literal);
    *word == other
}

/// Whether one of `words` is the text `literal`.
fn has_word(words: &Vec<String>, literal: &str) -> (found: bool)
    ensures
        found == words.deep_view().contains(literal@),
{
    let mut i: usize = 0;
    while i < words.len()
        invariant
            i <= words.len(),
            forall|k: int| 0 <= k < i ==> words.deep_view()[k] != literal@,
        decreases words.len() - i,
    {
        if is_word(&words[i], literal) {
            assert(words.deep_view()[i as int] == literal@);
            return true;
        }
        i = i + 1;
    }
    false
}

/// Whether `ls` knows the flag.
fn is_known_flag(flag: &String) -> (known: bool)
    ensures
        known == known_flag(flag@),
{
    is_word(flag, "-a") || is_word(flag, "--all") || is_word(flag, "-l") || is_word(flag, "-r")
        || is_word(flag, "--reverse") || is_word(flag, "-t")
}

/// Appends the flags that `word` stands for to `flags`, and says whether it
/// stood for any.
fn push_flags(flags: &mut Vec<String>, word: &String) -> (flag: bool)
    ensures
        flag == is_flag(word@),
        final(flags).deep_view() == old(flags).deep_view() + flags_in(word@),
{
    let ghost before = flags.deep_view();
    let text = word.as_str();
    let length = text.unicode_len();
    if length <= 1 || text.get_char(0) != '-' {
        assert(flags.deep_view() =~= before + flags_in(word@));
        return false;
    }
    if text.get_char(1) == '-' {
        flags.push(word.clone());
        assert(flags.deep_view() =~= before + flags_in(word@));
        return true;
    }
    let mut i: usize = 1;
    while i < length
        invariant
            1 <= i <= length,
            length == word@.len(),
            text@ == word@,
            is_flag(word@),
            word@[1] != '-',
            flags.deep_view() == before + flags_in(word@).take(i - 1),
        decreases length - i,
    {
        let mut flag = String::from_str("-");
        flag.push(text.get_char(i));
        proof {
            reveal_strlit("-");
            assert(flag@ =~= seq!['-', word@[i as int]]);
        }
        let ghost so_far = flags.deep_view();
        flags.push(flag);
        assert(flags.deep_view() =~= so_far.push(flag@));
        assert(flags_in(word@).take(i as int) =~= flags_in(word@).take(i - 1).push(flag@));
        i = i + 1;
    }
    assert(flags_in(word@).take(length - 1) =~= flags_in(word@));
    true
}

/// The words that name files, and the flags that the other words stand for.
fn files_and_flags(words: &Vec<String>) -> (found: (Vec<String>, Vec<String>))
    ensures
        found.0.deep_view() == words.deep_view().filter(|word: Seq<char>| !is_flag(word)),
        found.1.deep_view() == all_flags(words.deep_view()),
{
    let ghost all = words.deep_view();
    let ghost is_file = |word: Seq<char>| !is_flag(word);
    let mut files: Vec<String> = Vec::new();
    let mut flags: Vec<String> = Vec::new();
    let mut i: usize = 0;
    while i < words.len()
        invariant
            i <= words.len(),
            all == words.deep_view(),
            is_file == |word: Seq<char>| !is_flag(word),
            files.deep_view() == all.take(i as int).filter(is_file),
            flags.deep_view() == all_flags(all.take(i as int)),
        decreases words.len() - i,
    {
        proof {
            let next = all.take(i + 1);
            assert(next.drop_last() =~= all.take(i as int));
            assert(next =~= all.take(i as int).push(all[i as int]));
            all.take(i as int).lemma_filter_push(all[i as int], is_file);
        }
        let flag = push_flags(&mut flags, &words[i]);
        if !flag {
            let ghost so_far = files.deep_view();
            files.push(words[i].clone());
            assert(files.deep_view() =~= so_far.push(all[i as int]));
        }
        i = i + 1;
    }
    assert(all.take(words.len() as int) =~= all);
    (files, flags)
}

/// The flags that `ls` does not know, in their order.
fn unknown_flags(flags: &Vec<String>) -> (unknown: Vec<String>)
    ensures
        unknown.deep_view() == flags.deep_view().filter(|flag: Seq<char>| !known_flag(flag)),
{
    let ghost is_unknown = |flag: Seq<char>| !known_flag(flag);
    let ghost given = flags.deep_view();
    let mut unknown: Vec<String> = Vec::new();
    let mut k: usize = 0;
    while k < flags.len()
        invariant
            k <= flags.len(),
            given == flags.deep_view(),
            is_unknown == |flag: Seq<char>| !known_flag(flag),
            unknown.deep_view() == given.take(k as int).filter(is_unknown),
        decreases flags.len() - k,
    {
        proof {
            assert(given.take(k + 1) =~= given.take(k as int).push(given[k as int]));
            given.take(k as int).lemma_filter_push(given[k as int], is_unknown);
        }
        if !is_known_flag(&flags[k]) {
            let ghost so_far = unknown.deep_view();
            unknown.push(flags[k].clone());
            assert(unknown.deep_view() =~= so_far.push(given[k as int]));
        }
        k = k + 1;
    }
    assert(given.take(flags.len() as int) =~= given);
    unknown
}

/// Reads the words after `ls`: flags, and the files to list.
pub fn parse_ls(words: Vec<String>, outfile: Option<String>) -> (parsed: Parsed)
    ensures
        parsed@ == interpret_ls(words.deep_view(), outfile.deep_view()),
{
    let (files, flags) = files_and_flags(&words);
    let unknown = unknown_flags(&flags);
    if unknown.len() > 0 {
        let mut complaint = String::from_str("ls: could not recognize these arguments: ");
        let listed = join(&unknown);
        complaint.append(listed.as_str());
        Parsed { command: Executable::Noop, complaint: Some(complaint) }
    } else {
        let data = LsData {
            all: has_word(&flags, "-a") || has_word(&flags, "--all"),
            long: has_word(&flags, "-l"),
            reverse: has_word(&flags, "-r") || has_word(&flags, "--reverse"),
            sort_time: has_word(&flags, "-t"),
            files,
            outfile,
        };
        Parsed { command: Executable::Ls(data), complaint: None }
    }
}

/// The index of the first of `words` from `from` on that is `target`.
pub open spec fn position(words: Seq<Seq<char>>, target: Seq<char>, from: int) -> Option<int>
    decreases words.len() - from,
{
    if from >= words.len() {
        None
    } else if words[from] == target {
        Some(from)
    } else {
        position(words, target, from + 1)
    }
}

/// A command without a complaint.
pub open spec fn quiet(command: ExecutableView) -> ParsedView {
    ParsedView { command, complaint: None }
}

/// How a line runs: in the background where its last word is `&`.
pub open spec fn run_state(words: Seq<Seq<char>>) -> State {
    if words.len() > 0 && words.last() == "&"@ {
        State::BG
    } else {
        State::FG
    }
}

/// The words without the `&` at their end.
pub open spec fn without_ampersand(words: Seq<Seq<char>>) -> Seq<Seq<char>> {
    if run_state(words) == State::BG {
        words.drop_last()
    } else {
        words
    }
}

/// Whether a word marks a redirection: it is `<` or `>`.
pub open spec fn is_mark(word: Seq<char>) -> bool {
    word == "<"@ || word == ">"@
}

/// The word that follows the first `mark` among `words`; none where there is
/// no `mark`, or where it is the last word.
pub open spec fn following(words: Seq<Seq<char>>, mark: Seq<char>) -> Option<Seq<char>> {
    match position(words, mark, 0) {
        Some(i) => if i + 1 < words.len() {
            Some(words[i + 1])
        } else {
            None
        },
        None => None,
    }
}

/// The file for standard input: the word after the first `<`.
pub open spec fn input_file(words: Seq<Seq<char>>) -> Option<Seq<char>> {
    following(words, "<"@)
}

/// The file for standard output: the word after the first `>`.
pub open spec fn output_file(words: Seq<Seq<char>>) -> Option<Seq<char>> {
    following(words, ">"@)
}

/// The index of the first of `words` from `from` on that marks a
/// redirection, or the number of the words where none does.
pub open spec fn first_mark(words: Seq<Seq<char>>, from: int) -> int
    decreases words.len() - from,
{
    if from >= words.len() {
        words.len() as int
    } else if is_mark(words[from]) {
        from
    } else {
        first_mark(words, from + 1)
    }
}

/// The words that make up the command and its arguments: those before the
/// first `<` or `>`, or all of them.
pub open spec fn command_words(words: Seq<Seq<char>>) -> Seq<Seq<char>> {
    words.take(first_mark(words, 0))
}

/// What the command `name` with the words `rest` after it means.
pub open spec fn dispatch(
    name: Seq<char>,
    rest: Seq<Seq<char>>,
    state: State,
    cmdline: Seq<char>,
    infile: Option<Seq<char>>,
    outfile: Option<Seq<char>>,
) -> ParsedView {
    if name == "ls"@ {
        interpret_ls(rest, outfile)
    } else if name == "cd"@ {
        if rest.len() > 1 {
            ParsedView {
                command: ExecutableView::Noop,
                complaint: Some("cd: too many arguments"@),
            }
        } else if rest.len() == 1 {
            quiet(ExecutableView::Cd(Some(rest[0])))
        } else {
            quiet(ExecutableView::Cd(None))
        }
    } else if name == "jobs"@ {
        quiet(ExecutableView::Jobs(outfile))
    } else if name == "exit"@ {
        quiet(ExecutableView::Exit)
    } else {
        quiet(
            ExecutableView::NonBuiltin(
                NonBuiltInView { command: name, args: rest, state, cmdline, infile, outfile },
            ),
        )
    }
}

/// What a line with these words means. `cmdline` is the line as it was typed.
///
/// `spawn` and `attack` take the rest of the line as one name. On any other
/// line a last word `&` asks for the background. Of the words before it, the
/// one after the first `<` names the input file and the one after the first
/// `>` the output file, and the words before the first `<` or `>` are the
/// command and its arguments.
pub open spec fn interpret(words: Seq<Seq<char>>, cmdline: Seq<char>) -> ParsedView {
    if words.len() > 0 && words[0] == "spawn"@ {
        quiet(ExecutableView::TempDebugSpawnEnemy(join_words(words.skip(1))))
    } else if words.len() > 0 && words[0] == "attack"@ {
        quiet(ExecutableView::TempDebugAttackEnemy(join_words(words.skip(1))))
    } else {
        let line = without_ampersand(words);
        let command = command_words(line);
        if command.len() == 0 {
            quiet(ExecutableView::Noop)
        } else {
            dispatch(
                command[0],
                command.skip(1),
                run_state(words),
                cmdline,
                input_file(line),
                output_file(line),
            )
        }
    }
}

/// The index of the first of `words` that is the text `literal`.
fn find_word(words: &Vec<String>, literal: &str) -> (found: Option<usize>)
    ensures
        match found {
            Some(i) => position(words.deep_view(), literal@, 0) == Some(i as int) && i
                < words.len(),
            None => position(words.deep_view(), literal@, 0) is None,
        },
{
    let mut i: usize = 0;
    while i < words.len()
        invariant
            i <= words.len(),
            position(words.deep_view(), literal@, 0) == position(
                words.deep_view(),
                literal@,
                i as int,
            ),
        decreases words.len() - i,
    {
        if is_word(&words[i], literal) {
            return Some(i);
        }
        i = i + 1;
    }
    None
}

/// The word that follows the first of `words` that is the text `mark`.
fn word_after(words: &Vec<String>, mark: &str) -> (word: Option<String>)
    ensures
        word.deep_view() == following(words.deep_view(), mark@),
{
    match find_word(words, mark) {
        Some(i) => if i + 1 < words.len() {
            Some(words[i + 1].clone())
        } else {
            None
        },
        None => None,
    }
}

/// The index of the first of `words` that marks a redirection, or their
/// number where none does.
fn find_mark(words: &Vec<String>) -> (at: usize)
    ensures
        at == first_mark(words.deep_view(), 0),
        at <= words.len(),
{
    let mut i: usize = 0;
    while i < words.len()
        invariant
            i <= words.len(),
            first_mark(words.deep_view(), 0) == first_mark(words.deep_view(), i as int),
        decreases words.len() - i,
    {
        if is_word(&words[i], "<") || is_word(&words[i], ">") {
            return i;
        }
        i = i + 1;
    }
    i
}

/// Reads a line that was cut into `words`. `cmdline` is the line as it was
/// typed.
pub fn parse_words(words: Vec<String>, cmdline: String) -> (parsed: Parsed)
    ensures
        parsed@ == interpret(words.deep_view(), cmdline@),
{
    let ghost all = words.deep_view();
    let mut words = words;
    if words.len() > 0 && is_word(&words[0], "spawn") {
        words.remove(0);
        assert(words.deep_view() =~= all.skip(1));
        let name = join(&words);
        return Parsed { command: Executable::TempDebugSpawnEnemy(name), complaint: None };
    }
    if words.len() > 0 && is_word(&words[0], "attack") {
        words.remove(0);
        assert(words.deep_view() =~= all.skip(1));
        let name = join(&words);
        return Parsed { command: Executable::TempDebugAttackEnemy(name), complaint: None };
    }
    let state = if words.len() > 0 && is_word(&words[words.len() - 1], "&") {
        words.pop();
        State::BG
    } else {
        State::FG
    };
    assert(words.deep_view() =~= without_ampersand(all));

    let ghost line = words.deep_view();
    let infile = word_after(&words, "<");
    let outfile = word_after(&words, ">");
    let cut = find_mark(&words);
    words.truncate(cut);
    assert(words.deep_view() =~= command_words(line));

    if words.len() == 0 {
        return Parsed { command: Executable::Noop, complaint: None };
    }
    let ghost command = words.deep_view();
    let name = words.remove(0);
    assert(words.deep_view() =~= command.skip(1));
    if is_word(&name, "ls") {
        parse_ls(words, outfile)
    } else if is_word(&name, "cd") {
        if words.len() > 1 {
            Parsed {
                command: Executable::Noop,
                complaint: Some(String::from_str("cd: too many arguments")),
            }
        } else if words.len() == 1 {
            Parsed { command: Executable::Cd(Some(words[0].clone())), complaint: None }
        } else {
            Parsed { command: Executable::Cd(None), complaint: None }
        }
    } else if is_word(&name, "jobs") {
        Parsed { command: Executable::Jobs(outfile), complaint: None }
    } else if is_word(&name, "exit") {
        Parsed { command: Executable::Exit, complaint: None }
    } else {
        Parsed {
            command: Executable::NonBuiltin(
                NonBuiltInData { command: name, args: words, state, cmdline, infile, outfile },
            ),
            complaint: None,
        }
    }
}

/// Reads a line of input.
pub fn parse(input: &str) -> (parsed: Parsed)
    ensures
        parsed@ == interpret(split_words(input@), input@),
{
    parse_words(words(input), String::from_str(input))
}

} // verus!
