//! The name of a snapshot directory: the tag `Back-up ` followed by the text
//! of the snapshot's time mark. Directory names are sorted into snapshots,
//! names that carry the tag but no readable mark, and foreign names.

use crate::time_mark::{
    format_time_mark, lemma_parsed_text_formats, lemma_text_parses, parse_time_mark, parsed_text,
    time_mark_text, TimeMark,
};
use vstd::prelude::*;
use vstd::string::*;

verus! {

/// The tag that every snapshot directory's name begins with.
pub open spec fn snapshot_prefix() -> Seq<char> {
    seq!['B', 'a', 'c', 'k', '-', 'u', 'p', ' ']
}

/// The name of the directory of the snapshot taken at `mark`.
pub open spec fn snapshot_name(mark: TimeMark) -> Seq<char> {
    snapshot_prefix() + time_mark_text(mark)
}

/// Whether `name` begins with the tag.
pub open spec fn has_snapshot_prefix(name: Seq<char>) -> bool {
    name.len() >= 8 && name.subrange(0, 8) == snapshot_prefix()
}

/// What a directory name under the destination root is.
#[derive(Clone, Copy, Debug, PartialEq, Eq, Structural)]
pub enum NameKind {
    /// The name does not begin with the tag.
    Foreign,
    /// The name begins with the tag, and what follows is not the text of a mark.
    Unparseable,
    /// The name of the snapshot taken at this mark.
    Snapshot(TimeMark),
}

/// What the name is: foreign without the tag, a snapshot where the text of a
/// mark follows the tag, unparseable where anything else follows it.
pub open spec fn name_kind(name: Seq<char>) -> NameKind {
    if !has_snapshot_prefix(name) {
        NameKind::Foreign
    } else {
        match parsed_text(name.subrange(8, name.len() as int)) {
            Some(mark) => NameKind::Snapshot(mark),
            None => NameKind::Unparseable,
        }
    }
}

/// A snapshot's name is recognised as the name of that snapshot.
pub proof fn lemma_snapshot_name_recognised(mark: TimeMark)
    requires
        mark.wf(),
    ensures
        name_kind(snapshot_name(mark)) == NameKind::Snapshot(mark),
{
    let name = snapshot_name(mark);
    lemma_text_parses(mark);
    assert(name.subrange(0, 8) =~= snapshot_prefix());
    assert(name.subrange(8, name.len() as int) =~= time_mark_text(mark));
}

/// Only a snapshot's own name is recognised as that snapshot: the mark read
/// from a name is well-formed, and the name is the one made from it.
pub proof fn lemma_recognised_name_is_snapshot(name: Seq<char>, mark: TimeMark)
    requires
        name_kind(name) == NameKind::Snapshot(mark),
    ensures
        mark.wf(),
        snapshot_name(mark) == name,
{
    let rest = name.subrange(8, name.len() as int);
    lemma_parsed_text_formats(rest);
    assert(name =~= name.subrange(0, 8) + rest);
}

/// Snapshots taken at different marks have different names.
pub proof fn lemma_snapshot_names_apart(first: TimeMark, second: TimeMark)
    requires
        first.wf(),
        second.wf(),
        first != second,
    ensures
        snapshot_name(first) != snapshot_name(second),
{
    lemma_snapshot_name_recognised(first);
    lemma_snapshot_name_recognised(second);
}

/// The directory name of the snapshot taken at `mark`.
pub fn snapshot_dir_name(mark: &TimeMark) -> (name: String)
    requires
        mark.wf(),
    ensures
        name@ == snapshot_name(*mark),
{
    proof {
        reveal_strlit("Back-up ");
    }
    let mut name = String::from_str("Back-up ");
    assert(name@ =~= snapshot_prefix());
    let text = format_time_mark(mark);
    name.append(text.as_str());
    name
}

/// Sorts a directory name into foreign names, tagged names without a
/// readable mark, and snapshots.
pub fn classify_name(name: &str) -> (kind: NameKind)
    ensures
        kind == name_kind(name@),
{
    let length = name.unicode_len();
    if length < 8 {
        return NameKind::Foreign;
    }
    if name.get_char(0) != 'B' || name.get_char(1) != 'a' || name.get_char(2) != 'c'
        || name.get_char(3) != 'k' || name.get_char(4) != '-' || name.get_char(5) != 'u'
        || name.get_char(6) != 'p' || name.get_char(7) != ' ' {
        assert(name@.subrange(0, 8) != snapshot_prefix()) by {
            let head = name@.subrange(0, 8);
            assert(forall|i: int| 0 <= i < 8 ==> head[i] == name@[i]);
        }
        return NameKind::Foreign;
    }
    assert(name@.subrange(0, 8) =~= snapshot_prefix());
    let rest = name.substring_char(8, length);
    match parse_time_mark(rest) {
        Some(mark) => NameKind::Snapshot(mark),
        None => NameKind::Unparseable,
    }
}

} // verus!
