//! The order in which `ls` shows the entries of a directory.
//!
//! The caller reads the directory and says of each entry what the order
//! depends on: its name, whether it is a directory, and when it was changed.

use vstd::multiset::Multiset;
use vstd::prelude::*;
use vstd::utf8::encode_utf8;

verus! {

/// An entry as the directory gives it.
#[derive(Debug, PartialEq, Eq)]
pub struct Found {
    pub name: String,
    pub is_dir: bool,
    /// When the entry was last changed, in nanoseconds since 1970.
    pub modified: i128,
}

/// The mathematical value of a [`Found`].
pub struct FoundView {
    pub name: Seq<char>,
    pub is_dir: bool,
    pub modified: i128,
}

impl View for Found {
    type V = FoundView;

    open spec fn view(&self) -> FoundView {
        FoundView { name: self.name@, is_dir: self.is_dir, modified: self.modified }
    }
}

/// The views of the entries.
pub open spec fn found_views(entries: Seq<Found>) -> Seq<FoundView> {
    entries.map_values(|entry: Found| entry@)
}

/// Whether `a` stands at or before `b` in a dictionary, given that the two
/// agree on their first `from` bytes.
pub open spec fn bytes_in_order(a: Seq<u8>, b: Seq<u8>, from: int) -> bool
    decreases a.len() - from,
{
    if from >= a.len() {
        true
    } else if from >= b.len() {
        false
    } else if a[from] != b[from] {
        a[from] < b[from]
    } else {
        bytes_in_order(a, b, from + 1)
    }
}

/// The time that counts for the order: that of the last change where the
/// order goes by time, else the same for every entry.
pub open spec fn time_key(entry: FoundView, by_time: bool) -> int {
    if by_time {
        entry.modified as int
    } else {
        0
    }
}

/// Whether `a` may stand before `b`: it is older, or as old and a directory
/// where `b` is none, or alike in both and its name, as bytes, stands at or
/// before that of `b` in a dictionary.
pub open spec fn in_order(a: FoundView, b: FoundView, by_time: bool) -> bool {
    if time_key(a, by_time) != time_key(b, by_time) {
        time_key(a, by_time) < time_key(b, by_time)
    } else if a.is_dir != b.is_dir {
        a.is_dir
    } else {
        bytes_in_order(encode_utf8(a.name), encode_utf8(b.name), 0)
    }
}

/// Whether every entry may stand before all that follow it.
pub open spec fn sorted(entries: Seq<FoundView>, by_time: bool) -> bool {
    forall|i: int, j: int|
        0 <= i < j < entries.len() ==> in_order(
            #[trigger] entries[i],
            #[trigger] entries[j],
            by_time,
        )
}

/// Of two byte strings one stands at or before the other.
pub proof fn lemma_bytes_total(a: Seq<u8>, b: Seq<u8>, from: int)
    requires
        0 <= from,
    ensures
        bytes_in_order(a, b, from) || bytes_in_order(b, a, from),
    decreases a.len() - from,
{
    if from < a.len() && from < b.len() && a[from] == b[from] {
        lemma_bytes_total(a, b, from + 1);
    }
}

/// What stands before a byte string stands before all that the byte string
/// stands before.
pub proof fn lemma_bytes_transitive(a: Seq<u8>, b: Seq<u8>, c: Seq<u8>, from: int)
    requires
        0 <= from,
        bytes_in_order(a, b, from),
        bytes_in_order(b, c, from),
    ensures
        bytes_in_order(a, c, from),
    decreases a.len() - from,
{
    if from < a.len() && a[from] == b[from] && b[from] == c[from] {
        lemma_bytes_transitive(a, b, c, from + 1);
    }
}

/// Of two entries one may stand before the other.
pub proof fn lemma_in_order_total(a: FoundView, b: FoundView, by_time: bool)
    ensures
        in_order(a, b, by_time) || in_order(b, a, by_time),
{
    lemma_bytes_total(encode_utf8(a.name), encode_utf8(b.name), 0);
}

/// An entry that may stand before another may stand before all that the other
/// may stand before.
pub proof fn lemma_in_order_transitive(a: FoundView, b: FoundView, c: FoundView, by_time: bool)
    requires
        in_order(a, b, by_time),
        in_order(b, c, by_time),
    ensures
        in_order(a, c, by_time),
{
    if time_key(a, by_time) == time_key(b, by_time) && time_key(b, by_time) == time_key(
        c,
        by_time,
    ) && a.is_dir == b.is_dir && b.is_dir == c.is_dir {
        lemma_bytes_transitive(encode_utf8(a.name), encode_utf8(b.name), encode_utf8(c.name), 0);
    }
}

/// A sequence without entries holds nothing.
proof fn lemma_nothing_holds_nothing(entries: Seq<FoundView>)
    requires
        entries.len() == 0,
    ensures
        entries.to_multiset() == Multiset::<FoundView>::empty(),
{
    entries.to_multiset_ensures();
    vstd::multiset::lemma_multiset_empty_len(entries.to_multiset());
}

/// Whether `a` stands at or before `b` in a dictionary.
fn bytes_come_first(a: &[u8], b: &[u8]) -> (first: bool)
    ensures
        first == bytes_in_order(a@, b@, 0),
{
    let mut i: usize = 0;
    while i < a.len()
        invariant
            i <= a.len(),
            bytes_in_order(a@, b@, 0) == bytes_in_order(a@, b@, i as int),
        decreases a.len() - i,
    {
        if i >= b.len() {
            return false;
        }
        if a[i] != b[i] {
            return a[i] < b[i];
        }
        i = i + 1;
    }
    true
}

/// Whether `a` may stand before `b`.
pub fn comes_first(a: &Found, b: &Found, by_time: bool) -> (first: bool)
    ensures
        first == in_order(a@, b@, by_time),
{
    let time_a: i128 = if by_time {
        a.modified
    } else {
        0
    };
    let time_b: i128 = if by_time {
        b.modified
    } else {
        0
    };
    if time_a != time_b {
        time_a < time_b
    } else if a.is_dir != b.is_dir {
        a.is_dir
    } else {
        bytes_come_first(a.name.as_str().as_bytes(), b.name.as_str().as_bytes())
    }
}

/// Puts the entries in order: by the time of their last change where
/// `by_time` asks for it, then directories before files, then by name.
pub fn sort_found(found: Vec<Found>, by_time: bool) -> (out: Vec<Found>)
    ensures
        sorted(found_views(out@), by_time),
        found_views(out@).to_multiset() == found_views(found@).to_multiset(),
{
    let mut rest = found;
    let mut out: Vec<Found> = Vec::new();
    proof {
        lemma_nothing_holds_nothing(found_views(out@));
    }
    while rest.len() > 0
        invariant
            sorted(found_views(out@), by_time),
            found_views(out@).to_multiset().add(found_views(rest@).to_multiset()) == found_views(
                found@,
            ).to_multiset(),
        decreases rest.len(),
    {
        let ghost placed = found_views(out@);
        let ghost waiting = found_views(rest@);
        let next = match rest.pop() {
            Some(entry) => entry,
            None => {
                return out;
            },
        };
        proof {
            assert(found_views(rest@) =~= waiting.drop_last());
            assert(waiting =~= waiting.drop_last().push(next@));
            vstd::seq_lib::to_multiset_build(waiting.drop_last(), next@);
        }
        let mut at: usize = 0;
        let mut searching = true;
        while searching && at < out.len()
            invariant
                at <= out.len(),
                placed == found_views(out@),
                forall|k: int| 0 <= k < at ==> !in_order(next@, #[trigger] placed[k], by_time),
                !searching ==> at < out.len() && in_order(next@, placed[at as int], by_time),
            decreases out.len() - at + if searching { 1int } else { 0int },
        {
            if comes_first(&next, &out[at], by_time) {
                searching = false;
            } else {
                at = at + 1;
            }
        }
        out.insert(at, next);
        proof {
            let grown = found_views(out@);
            assert(grown =~= placed.insert(at as int, next@));
            assert forall|i: int, j: int| 0 <= i < j < grown.len() implies in_order(
                #[trigger] grown[i],
                #[trigger] grown[j],
                by_time,
            ) by {
                if j == at {
                    lemma_in_order_total(next@, placed[i], by_time);
                } else if i == at {
                    if j - 1 > at {
                        lemma_in_order_transitive(
                            next@,
                            placed[at as int],
                            placed[j - 1],
                            by_time,
                        );
                    }
                } else if i < at && at < j {
                    assert(in_order(placed[i], placed[j - 1], by_time));
                } else if j < at {
                    assert(in_order(placed[i], placed[j], by_time));
                } else {
                    assert(in_order(placed[i - 1], placed[j - 1], by_time));
                }
            }
            assert(grown.remove(at as int) =~= placed);
            vstd::seq_lib::to_multiset_remove(grown, at as int);
            grown.to_multiset_ensures();
            assert(grown.contains(next@));
            assert(grown.to_multiset() =~= placed.to_multiset().insert(next@));
        }
    }
    proof {
        lemma_nothing_holds_nothing(found_views(rest@));
    }
    out
}

} // verus!
