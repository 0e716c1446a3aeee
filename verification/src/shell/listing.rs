//! The text that `ls` shows for a directory.
//!
//! The caller reads the directory, puts its entries in order and says of each
//! what kind it is. The functions here decide which entries are shown, in
//! which direction, and how each is dressed up.

use crate::shell::command::LsData;
use vstd::prelude::*;
use vstd::string::StrSliceExecFns;
use vstd::string::StringExecFns;

verus! {

/// What an entry of a directory is.
#[derive(Clone, Copy, Debug, PartialEq, Eq, Structural)]
pub enum Kind {
    /// A directory.
    Directory,
    /// A file that holds an entity of the game.
    Person,
    /// Any other file.
    Other,
}

/// One entry of a directory.
#[derive(Debug, PartialEq, Eq)]
pub struct Entry {
    pub name: String,
    pub kind: Kind,
}

/// The mathematical value of an [`Entry`].
pub struct EntryView {
    pub name: Seq<char>,
    pub kind: Kind,
}

impl View for Entry {
    type V = EntryView;

    open spec fn view(&self) -> EntryView {
        EntryView { name: self.name@, kind: self.kind }
    }
}

/// How a listing is laid out.
#[derive(Clone, Copy, Debug, PartialEq, Eq, Structural)]
pub struct Layout {
    /// Entries whose name starts with a dot are shown too.
    pub all: bool,
    /// Each entry stands on a line of its own.
    pub long: bool,
    /// The entries are shown from the last to the first.
    pub reverse: bool,
    /// The listing goes to a file, so it carries no colours.
    pub plain: bool,
    /// More than one directory is listed, so each gets a heading.
    pub several: bool,
}

/// The views of the entries.
pub open spec fn entry_views(entries: Seq<Entry>) -> Seq<EntryView> {
    entries.map_values(|entry: Entry| entry@)
}

/// The layout that `ls` was asked for.
pub open spec fn layout_of(data: LsData) -> Layout {
    Layout {
        all: data.all,
        long: data.long,
        reverse: data.reverse,
        plain: data.outfile is Some,
        several: data.files.len() > 1,
    }
}

/// Whether an entry of this name is left out.
pub open spec fn hidden(name: Seq<char>, layout: Layout) -> bool {
    !layout.all && name.len() > 0 && name[0] == '.'
}

/// What stands before the name of an entry: the colour of its kind, and for
/// a person its icon.
pub open spec fn prefix(kind: Kind, layout: Layout) -> Seq<char> {
    if layout.plain {
        Seq::empty()
    } else {
        match kind {
            Kind::Directory => "\x1b[1;34m"@,
            Kind::Person => "\x1b[31m\u{f183} "@,
            Kind::Other => Seq::empty(),
        }
    }
}

/// What stands after the name of an entry: the end of its colour.
pub open spec fn suffix(kind: Kind, layout: Layout) -> Seq<char> {
    if layout.plain || kind == Kind::Other {
        Seq::empty()
    } else {
        "\x1b[0m"@
    }
}

/// What parts one entry from the next: the end of the line in a long
/// listing, else two spaces.
pub open spec fn gap(layout: Layout) -> Seq<char> {
    if layout.long {
        "\n"@
    } else {
        "  "@
    }
}

/// The text for one entry; nothing for a hidden one.
pub open spec fn entry_text(entry: EntryView, layout: Layout) -> Seq<char> {
    if hidden(entry.name, layout) {
        Seq::empty()
    } else {
        prefix(entry.kind, layout) + entry.name + suffix(entry.kind, layout) + gap(layout)
    }
}

/// The texts of the entries, one after the other.
pub open spec fn entries_text(entries: Seq<EntryView>, layout: Layout) -> Seq<char>
    decreases entries.len(),
{
    if entries.len() == 0 {
        Seq::empty()
    } else {
        entries_text(entries.drop_last(), layout) + entry_text(entries.last(), layout)
    }
}

/// The heading of a directory, where several are listed.
pub open spec fn heading(title: Seq<char>, layout: Layout) -> Seq<char> {
    if layout.several {
        title + ":\n"@
    } else {
        Seq::empty()
    }
}

/// What follows the entries of a directory: the end of the line where
/// several directories are listed in short form.
pub open spec fn trailer(layout: Layout) -> Seq<char> {
    if layout.several && !layout.long {
        "\n"@
    } else {
        Seq::empty()
    }
}

/// The entries in the direction that was asked for.
pub open spec fn directed(entries: Seq<EntryView>, layout: Layout) -> Seq<EntryView> {
    if layout.reverse {
        entries.reverse()
    } else {
        entries
    }
}

/// The text for the entries of a directory: each entry that is shown, in the
/// direction asked for, and what follows them.
pub open spec fn listing_text(entries: Seq<EntryView>, layout: Layout) -> Seq<char> {
    entries_text(directed(entries, layout), layout) + trailer(layout)
}

/// The text after the last directory: the end of the line for one directory
/// in short form.
pub open spec fn closing_text(layout: Layout) -> Seq<char> {
    if !layout.long && !layout.several {
        "\n"@
    } else {
        Seq::empty()
    }
}

/// The files and directories to list: those that were named, or the current
/// directory where none was.
pub open spec fn targets_of(files: Seq<Seq<char>>) -> Seq<Seq<char>> {
    if files.len() == 0 {
        seq!["."@]
    } else {
        files
    }
}

/// The layout that `ls` was asked for.
pub fn layout(data: &LsData) -> (layout: Layout)
    ensures
        layout == layout_of(*data),
{
    Layout {
        all: data.all,
        long: data.long,
        reverse: data.reverse,
        plain: data.outfile.is_some(),
        several: data.files.len() > 1,
    }
}

/// The files and directories to list: those that were named, or the current
/// directory where none was.
pub fn targets(data: &LsData) -> (list: Vec<String>)
    ensures
        list.deep_view() == targets_of(data.files.deep_view()),
{
    let mut list: Vec<String> = Vec::new();
    if data.files.len() == 0 {
        list.push(String::from_str("."));
        assert(list.deep_view() =~= seq!["."@]);
        return list;
    }
    let mut i: usize = 0;
    while i < data.files.len()
        invariant
            i <= data.files.len(),
            list.deep_view() == data.files.deep_view().take(i as int),
        decreases data.files.len() - i,
    {
        let ghost so_far = list.deep_view();
        list.push(data.files[i].clone());
        assert(list.deep_view() =~= so_far.push(data.files[i as int]@));
        assert(data.files.deep_view().take(i + 1) =~= so_far.push(data.files[i as int]@));
        i = i + 1;
    }
    assert(data.files.deep_view().take(data.files.len() as int) =~= data.files.deep_view());
    list
}

/// Appends the text for one entry to `out`.
fn push_entry(out: &mut String, entry: &Entry, layout: Layout)
    ensures
        final(out)@ == old(out)@ + entry_text(entry@, layout),
{
    let name = entry.name.as_str();
    if !shows(name, layout) {
        assert(out@ =~= old(out)@ + entry_text(entry@, layout));
        return ;
    }
    if !layout.plain {
        match entry.kind {
            Kind::Directory => out.append("\x1b[1;34m"),
            Kind::Person => out.append("\x1b[31m\u{f183} "),
            Kind::Other => {},
        }
    }
    out.append(name);
    if !layout.plain {
        match entry.kind {
            Kind::Other => {},
            _ => out.append("\x1b[0m"),
        }
    }
    if layout.long {
        out.append("\n");
    } else {
        out.append("  ");
    }
    assert(out@ =~= old(out)@ + entry_text(entry@, layout));
}

/// Whether an entry of this name is shown.
pub fn shows(name: &str, layout: Layout) -> (shown: bool)
    ensures
        shown == !hidden(name@, layout),
{
    layout.all || name.is_empty() || name.get_char(0) != '.'
}

/// The heading of the directory `title`: its name and a colon where several
/// directories are listed, else nothing.
pub fn render_heading(title: &str, layout: Layout) -> (text: String)
    ensures
        text@ == heading(title@, layout),
{
    let mut text = String::new();
    if layout.several {
        text.append(title);
        text.append(":\n");
    }
    assert(text@ =~= heading(title@, layout));
    text
}

/// The text for the entries of a directory, which the caller has put in
/// order.
pub fn render_entries(entries: &Vec<Entry>, layout: Layout) -> (text: String)
    ensures
        text@ == listing_text(entry_views(entries@), layout),
{
    let ghost shown = directed(entry_views(entries@), layout);
    let mut text = String::new();
    let count = entries.len();
    let mut i: usize = 0;
    while i < count
        invariant
            i <= count,
            count == entries.len(),
            shown == directed(entry_views(entries@), layout),
            text@ == entries_text(shown.take(i as int), layout),
        decreases count - i,
    {
        let at = if layout.reverse {
            count - 1 - i
        } else {
            i
        };
        proof {
            let next = shown.take(i + 1);
            assert(next.drop_last() =~= shown.take(i as int));
            assert(next.last() == entries[at as int]@);
        }
        push_entry(&mut text, &entries[at], layout);
        i = i + 1;
    }
    assert(shown.take(count as int) =~= shown);
    if layout.several && !layout.long {
        text.append("\n");
    }
    text
}

/// The text after the last directory.
pub fn closing(layout: Layout) -> (text: &'static str)
    ensures
        text@ == closing_text(layout),
{
    if !layout.long && !layout.several {
        "\n"
    } else {
        proof {
            reveal_strlit("");
            assert(""@ =~= Seq::<char>::empty());
        }
        ""
    }
}

} // verus!
