use vstd::prelude::*;
use vstd::utf8::encode_utf8;
use crate::focus::{FocusList, next_selection, prev_selection};
use crate::geometry::Area;
use crate::sink::{Color, Command, Op};
use crate::stacked::{Axis, Stacked, label_stack, lemma_label_stack, shows, size_of};
use crate::widget::{Event, Label, LabelModel, Widget, chars_of};

verus! {

/// One entry of a directory listing.
#[derive(Debug, Default, Clone)]
pub struct FileEntry {
    pub path: String,
    pub is_dir: bool,
    pub focused: bool,
}

impl FileEntry {
    /// An entry for the file at `path`.
    pub fn file(path: &str) -> (r: FileEntry)
        ensures
            r.path@ == path@,
            !r.is_dir,
            !r.focused,
    {
        FileEntry { path: String::from_str(path), is_dir: false, focused: false }
    }

    /// An entry for the directory at `path`.
    pub fn dir(path: &str) -> (r: FileEntry)
        ensures
            r.path@ == path@,
            r.is_dir,
            !r.focused,
    {
        FileEntry { path: String::from_str(path), is_dir: true, focused: false }
    }
}

/// `a` comes no later than `b` in the order of their code points.
pub open spec fn name_le(a: Seq<char>, b: Seq<char>) -> bool
    decreases a.len(),
{
    if a.len() == 0 {
        true
    } else if b.len() == 0 {
        false
    } else if (a[0] as u32) != (b[0] as u32) {
        (a[0] as u32) < (b[0] as u32)
    } else {
        name_le(a.drop_first(), b.drop_first())
    }
}

/// The names in `s` stand in order.
pub open spec fn names_sorted(s: Seq<Seq<char>>) -> bool {
    forall|i: int, j: int| 0 <= i < j < s.len() ==> name_le(#[trigger] s[i], #[trigger] s[j])
}

/// The text of each string in `s`.
pub open spec fn texts(s: Seq<String>) -> Seq<Seq<char>> {
    s.map_values(|t: String| t@)
}

/// The names of the entries in `names` marked as directories (`true`) or
/// as files (`false`), in order.
pub open spec fn names_of_kind(names: Seq<(String, bool)>, dir: bool) -> Seq<Seq<char>>
    decreases names.len(),
{
    if names.len() == 0 {
        Seq::<Seq<char>>::empty()
    } else {
        let last = names.last();
        let rest = names_of_kind(names.drop_last(), dir);
        if last.1 == dir { rest.push(last.0@) } else { rest }
    }
}

/// The length of `s` in bytes, as std counts it in a `usize`.
pub open spec fn byte_len(s: Seq<char>) -> nat {
    (encode_utf8(s).len() as usize) as nat
}

/// The length in bytes of the longest name, and at least `floor`.
pub open spec fn longest_name(names: Seq<(String, bool)>, floor: nat) -> nat
    decreases names.len(),
{
    if names.len() == 0 {
        floor
    } else {
        let rest = longest_name(names.drop_last(), floor);
        let n = byte_len(names.last().0@);
        if n > rest { n } else { rest }
    }
}

/// The paths of `entries`, in order.
pub open spec fn paths(entries: Seq<FileEntry>) -> Seq<Seq<char>> {
    entries.map_values(|e: FileEntry| e.path@)
}

/// Relies on std's `sort` of a `Vec<String>`, which orders strings by their
/// bytes, and so by code point: the same names come back, in order.
#[verifier::external_body]
fn sort_names(names: &mut Vec<String>)
    ensures
        final(names)@.len() == old(names)@.len(),
        texts(final(names)@).to_multiset() == texts(old(names)@).to_multiset(),
        names_sorted(texts(final(names)@)),
{
    names.sort();
}

/// Turns the names in a directory, each marked as a directory or not, into
/// a listing: the parent directory `..` and the directories, sorted, then
/// the files, sorted; with the length in bytes of the longest name, and
/// at least 32.
pub fn directory_listing(names: Vec<(String, bool)>) -> (r: (Vec<FileEntry>, usize))
    ensures
        ({
            let dirs = seq![".."@] + names_of_kind(names@, true);
            let files = names_of_kind(names@, false);
            let entries = r.0@;
            &&& entries.len() == dirs.len() + files.len()
            &&& paths(entries.take(dirs.len() as int)).to_multiset() == dirs.to_multiset()
            &&& names_sorted(paths(entries.take(dirs.len() as int)))
            &&& paths(entries.skip(dirs.len() as int)).to_multiset() == files.to_multiset()
            &&& names_sorted(paths(entries.skip(dirs.len() as int)))
            &&& forall|k: int| 0 <= k < entries.len() ==> (#[trigger] entries[k]).is_dir == (k < dirs.len())
            &&& forall|k: int| 0 <= k < entries.len() ==> !(#[trigger] entries[k]).focused
        }),
        r.1 == longest_name(names@, 32),
{
    let mut dirs: Vec<String> = Vec::new();
    dirs.push(String::from_str(".."));
    let mut files: Vec<String> = Vec::new();
    let mut max_len: usize = 32;
    let mut i: usize = 0;
    while i < names.len()
        invariant
            i <= names@.len(),
            texts(dirs@) == seq![".."@] + names_of_kind(names@.take(i as int), true),
            texts(files@) == names_of_kind(names@.take(i as int), false),
            max_len == longest_name(names@.take(i as int), 32),
        decreases names@.len() - i,
    {
        let ghost before = names@.take(i as int);
        let ghost old_dirs = texts(dirs@);
        let ghost old_files = texts(files@);
        assert(names@.take(i + 1).drop_last() =~= before);
        assert(names@.take(i + 1).last() == names@[i as int]);
        let name = names[i].0.clone();
        let text = name.as_str();
        assert(text@ == names@[i as int].0@);
        let len = text.len();

        if len > max_len {
            max_len = len;
        }
        if names[i].1 {
            dirs.push(name);
            assert(texts(dirs@) =~= old_dirs.push(names@[i as int].0@));
            assert(texts(dirs@) =~= seq![".."@] + names_of_kind(names@.take(i + 1), true));
            assert(texts(files@) =~= names_of_kind(names@.take(i + 1), false));
        } else {
            files.push(name);
            assert(texts(files@) =~= old_files.push(names@[i as int].0@));
            assert(texts(dirs@) =~= seq![".."@] + names_of_kind(names@.take(i + 1), true));
            assert(texts(files@) =~= names_of_kind(names@.take(i + 1), false));
        }
        i = i + 1;
    }
    assert(names@.take(names@.len() as int) =~= names@);
    sort_names(&mut dirs);
    sort_names(&mut files);
    let mut entries: Vec<FileEntry> = Vec::new();
    let mut k: usize = 0;
    while k < dirs.len()
        invariant
            k <= dirs@.len(),
            entries@.len() == k,
            paths(entries@) == texts(dirs@).take(k as int),
            forall|j: int| 0 <= j < k ==> (#[trigger] entries@[j]).is_dir && !entries@[j].focused,
        decreases dirs@.len() - k,
    {
        let ghost old_paths = paths(entries@);
        entries.push(FileEntry::dir(dirs[k].as_str()));
        assert(paths(entries@) =~= old_paths.push(texts(dirs@)[k as int]));
        k = k + 1;
        assert(paths(entries@) =~= texts(dirs@).take(k as int));
    }
    let nd = dirs.len();
    let mut k: usize = 0;
    while k < files.len()
        invariant
            k <= files@.len(),
            nd == dirs@.len(),
            entries@.len() == nd + k,
            paths(entries@) == texts(dirs@) + texts(files@).take(k as int),
            forall|j: int| 0 <= j < nd + k ==> (#[trigger] entries@[j]).is_dir == (j < nd) && !entries@[j].focused,
        decreases files@.len() - k,
    {
        let ghost old_paths = paths(entries@);
        entries.push(FileEntry::file(files[k].as_str()));
        assert(paths(entries@) =~= old_paths.push(texts(files@)[k as int]));
        k = k + 1;
        assert(paths(entries@) =~= texts(dirs@) + texts(files@).take(k as int));
    }
    assert(texts(files@).take(files@.len() as int) =~= texts(files@));
    assert(paths(entries@).take(nd as int) =~= texts(dirs@));
    assert(paths(entries@).skip(nd as int) =~= texts(files@));
    assert(paths(entries@.take(nd as int)) =~= texts(dirs@));
    assert(paths(entries@.skip(nd as int)) =~= texts(files@));
    (entries, max_len)
}


/// The text of the row that shows `e`: a folder sign before a directory,
/// two spaces before a file.
pub open spec fn entry_text(e: FileEntry) -> Seq<char> {
    seq![' '] + (if e.is_dir { seq!['📁'] } else { seq![' ', ' '] }) + seq![' '] + e.path@
}

/// The row that shows entry `k` of `entries`: yellow when selected, white
/// otherwise, bold for a directory.
pub open spec fn entry_label(entries: Seq<FileEntry>, k: int, sel: Option<usize>) -> LabelModel {
    (
        entry_text(entries[k]),
        Some(if sel == Some(k as usize) { Color::Yellow } else { Color::White }),
        entries[k].is_dir,
    )
}

/// A listing of a directory, one entry per row, with a selection.
#[derive(Debug)]
pub struct FileList(pub FocusList<FileEntry>);

impl FileList {
    /// The rows the list shows, in order.
    pub open spec fn rows(&self) -> Seq<LabelModel> {
        let items = self.0.items_view();
        Seq::new(items.len(), |k: int| entry_label(items, k, self.0.selection()))
    }

    /// An empty list.
    pub fn new() -> (r: FileList)
        ensures
            r.0.items_view().len() == 0,
            r.0.selection() is None,
    {
        FileList(FocusList::new(Vec::new()))
    }

    /// Shows `entries`, with the first one selected.
    pub fn update(&mut self, entries: Vec<FileEntry>)
        ensures
            final(self).0.items_view() == entries@,
            final(self).0.selection() == (if entries@.len() > 0 { Some(0usize) } else { None }),
    {
        self.0.replace(entries);
    }

    /// The selected entry, if any.
    pub fn selected(&self) -> (r: Option<&FileEntry>)
        ensures
            match self.0.selection() {
                Some(i) => if i < self.0.items_view().len() {
                    r == Some(&self.0.items_view()[i as int])
                } else {
                    r is None
                },
                None => r is None,
            },
    {
        self.0.get()
    }
}

impl Default for FileList {
    /// An empty list.
    fn default() -> (r: FileList)
        ensures
            r.0.items_view().len() == 0,
            r.0.selection() is None,
    {
        FileList::new()
    }
}

/// The text of the row that shows `e`.
fn row_text(e: &FileEntry) -> (r: Vec<char>)
    ensures
        r@ == entry_text(*e),
{
    let mut t: Vec<char> = Vec::new();
    t.push(' ');
    if e.is_dir {
        t.push('📁');
    } else {
        t.push(' ');
        t.push(' ');
    }
    t.push(' ');
    let mut path = chars_of(e.path.as_str());
    t.append(&mut path);
    assert(t@ =~= entry_text(*e));
    t
}

impl Widget for FileList {
    /// The rows one under another from the top of the area.
    open spec fn drawn(&self, area: Area) -> Seq<Op> {
        label_stack(Axis::Y, self.rows(), area).0
    }

    open spec fn used(&self, area: Area) -> (u16, u16) {
        let s = label_stack(Axis::Y, self.rows(), area);
        size_of(Axis::Y, s.2, s.1)
    }

    /// Up and Down move the selection, taking the key when it moved; other
    /// keys are not taken.
    open spec fn handled(&self, event: Event, next: Self, consumed: bool) -> bool {
        match event {
            Event::Up => {
                &&& next.0.items_view() == self.0.items_view()
                &&& next.0.selection() == prev_selection(self.0.selection(), self.0.items_view().len())
                &&& consumed == (next.0.selection() != self.0.selection())
            },
            Event::Down => {
                &&& next.0.items_view() == self.0.items_view()
                &&& next.0.selection() == next_selection(self.0.selection(), self.0.items_view().len())
                &&& consumed == (next.0.selection() != self.0.selection())
            },
            _ => next == *self && !consumed,
        }
    }

    fn render(&self, out: &mut Vec<Command>, area: Area) -> (r: (u16, u16)) {
        let items = self.0.items();
        let selected = self.0.selected();
        let mut rows: Stacked<Label> = Stacked::y();
        let mut k: usize = 0;
        while k < items.len()
            invariant
                items@ == self.0.items_view(),
                selected == self.0.selection(),
                k <= items@.len(),
                rows.axis == Axis::Y,
                rows.entries@.len() == k,
                forall|j: int| 0 <= j < k ==> shows(#[trigger] rows.entries@[j], self.rows()[j]),
            decreases items@.len() - k,
        {
            let is_selected = match selected {
                Some(s) => s == k,
                None => false,
            };
            let fg = if is_selected { Color::Yellow } else { Color::White };
            let label = Label { text: row_text(&items[k]), fg: Some(fg), bold: items[k].is_dir };
            rows.add(label);
            k = k + 1;
        }
        proof {
            lemma_label_stack(Axis::Y, rows.entries@, self.rows(), area);
        }
        rows.render(out, area)
    }

    fn handle(&mut self, event: Event) -> (consumed: bool) {
        match event {
            Event::Up => self.0.select_prev(),
            Event::Down => self.0.select_next(),
            _ => false,
        }
    }
}

} // verus!
