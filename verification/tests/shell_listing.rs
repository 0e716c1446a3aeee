use rlsh::shell::command::LsData;
use rlsh::shell::listing::{
    closing, layout, render_entries, render_heading, shows, targets, Entry, Kind, Layout,
};
use rlsh::shell::prompt::prompt;

fn entry(name: &str, kind: Kind) -> Entry {
    Entry { name: name.to_string(), kind }
}

fn sample() -> Vec<Entry> {
    vec![
        entry(".git", Kind::Directory),
        entry("src", Kind::Directory),
        entry(".hidden", Kind::Other),
        entry("goblin", Kind::Person),
        entry("notes.txt", Kind::Other),
    ]
}

fn render_directory(title: &str, entries: &Vec<Entry>, layout: Layout) -> String {
    render_heading(title, layout) + &render_entries(entries, layout)
}

fn short() -> Layout {
    Layout { all: false, long: false, reverse: false, plain: false, several: false }
}

fn data(files: &[&str], outfile: Option<&str>) -> LsData {
    LsData {
        files: files.iter().map(|s| s.to_string()).collect(),
        all: true,
        long: false,
        reverse: true,
        sort_time: true,
        outfile: outfile.map(|s| s.to_string()),
    }
}

#[test]
fn layout_follows_the_request() {
    assert_eq!(
        Layout { all: true, long: false, reverse: true, plain: false, several: false },
        layout(&data(&[], None))
    );
    assert_eq!(
        Layout { all: true, long: false, reverse: true, plain: true, several: false },
        layout(&data(&["src"], Some("o.txt")))
    );
    assert_eq!(
        Layout { all: true, long: false, reverse: true, plain: false, several: true },
        layout(&data(&["src", "tests"], None))
    );
}

#[test]
fn targets_default_to_the_current_directory() {
    assert_eq!(vec![".".to_string()], targets(&data(&[], None)));
    assert_eq!(vec!["src".to_string()], targets(&data(&["src"], None)));
    assert_eq!(
        vec!["src".to_string(), "tests".to_string()],
        targets(&data(&["src", "tests"], None))
    );
}

#[test]
fn short_listing_in_colour() {
    assert_eq!(
        "\x1b[1;34msrc\x1b[0m  \x1b[31m\u{f183} goblin\x1b[0m  notes.txt  ",
        render_directory("here", &sample(), short())
    );
    assert_eq!("\n", closing(short()));
}

#[test]
fn listing_shows_dot_files_on_request() {
    let layout = Layout { all: true, ..short() };
    assert_eq!(
        "\x1b[1;34m.git\x1b[0m  \x1b[1;34msrc\x1b[0m  .hidden  \
         \x1b[31m\u{f183} goblin\x1b[0m  notes.txt  ",
        render_directory("here", &sample(), layout)
    );
}

#[test]
fn long_listing_puts_each_entry_on_a_line() {
    let layout = Layout { long: true, plain: true, ..short() };
    assert_eq!("src\ngoblin\nnotes.txt\n", render_directory("here", &sample(), layout));
    assert_eq!("", closing(layout));
}

#[test]
fn listing_into_a_file_is_plain() {
    let layout = Layout { plain: true, ..short() };
    assert_eq!("src  goblin  notes.txt  ", render_directory("here", &sample(), layout));
    assert_eq!("\n", closing(layout));
}

#[test]
fn reversed_listing() {
    let layout = Layout { reverse: true, plain: true, all: true, ..short() };
    assert_eq!(
        "notes.txt  goblin  .hidden  src  .git  ",
        render_directory("here", &sample(), layout)
    );
}

#[test]
fn several_directories_get_headings() {
    let layout = Layout { several: true, plain: true, ..short() };
    assert_eq!("here:\nsrc  goblin  notes.txt  \n", render_directory("here", &sample(), layout));
    assert_eq!("", closing(layout));
    let layout = Layout { several: true, plain: true, long: true, ..short() };
    assert_eq!("here:\nsrc\ngoblin\nnotes.txt\n", render_directory("here", &sample(), layout));
    assert_eq!("", closing(layout));
}

#[test]
fn empty_directory() {
    assert_eq!("", render_directory("void", &Vec::new(), short()));
    let layout = Layout { several: true, ..short() };
    assert_eq!("void:\n\n", render_directory("void", &Vec::new(), layout));
    let only_hidden = vec![entry(".a", Kind::Other), entry(".b", Kind::Directory)];
    assert_eq!("", render_directory("void", &only_hidden, short()));
}

#[test]
fn entry_without_a_name_is_shown() {
    let odd = vec![entry("", Kind::Other), entry("..", Kind::Directory)];
    let layout = Layout { plain: true, ..short() };
    assert_eq!("  ", render_directory("odd", &odd, layout));
}

#[test]
fn heading_only_where_several_are_listed() {
    assert_eq!("", render_heading("src", short()));
    assert_eq!("src:\n", render_heading("src", Layout { several: true, ..short() }));
    assert_eq!(":\n", render_heading("", Layout { several: true, long: true, ..short() }));
}

#[test]
fn dot_files_are_hidden_unless_all_are_asked_for() {
    assert!(shows("src", short()));
    assert!(shows("", short()));
    assert!(shows("a.b", short()));
    assert!(!shows(".git", short()));
    assert!(!shows(".", short()));
    assert!(shows(".git", Layout { all: true, ..short() }));
}

#[test]
fn prompt_names_user_device_and_directory() {
    assert_eq!("ana@laptop /home/ana $ ", prompt("ana", "laptop", Some("/home/ana")));
    assert_eq!("ana@laptop ? $ ", prompt("ana", "laptop", None));
    assert_eq!("@  $ ", prompt("", "", Some("")));
}
