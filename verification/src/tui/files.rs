//! The file picker.

use crate::tui::dialogs;
use crate::tui::dialogs::{Reaction, ReactionView};
use crate::tui::effects;
use crate::tui::effects::{Effect, EffectView};
use crate::tui::keys::{KeyCode, KeyPress};
use crate::text;
use crate::types;
use vstd::prelude::*;
use vstd::string::*;

verus! {

/// How many files are shown at once.
pub const VISIBLE_FILES: usize = 20;

/// A file or a directory.
#[derive(Debug)]
pub struct FileEntry {
    pub path: String,
    /// The last part of the path, where it has one.
    pub name: Option<String>,
    pub is_dir: bool,
}

/// What a [`FileEntry`] holds.
pub struct EntryView {
    pub path: Seq<char>,
    pub name: Option<Seq<char>>,
    pub is_dir: bool,
}

impl View for FileEntry {
    type V = EntryView;

    open spec fn view(&self) -> EntryView {
        EntryView { path: self.path@, name: types::opt_text(self.name), is_dir: self.is_dir }
    }
}

/// What the entries of a list hold.
pub open spec fn entry_views(v: Seq<FileEntry>) -> Seq<EntryView> {
    Seq::new(v.len(), |i: int| v[i]@)
}

/// What the way up, if there is one, and the entries of a directory hold.
pub open spec fn with_way_up(up: Option<FileEntry>, entries: Seq<FileEntry>) -> Seq<EntryView> {
    (match up {
        Some(e) => seq![e@],
        None => Seq::empty(),
    }) + entry_views(entries)
}

/// Whether `a` comes before `b` in the order of their characters.
pub open spec fn text_before(a: Seq<char>, b: Seq<char>) -> bool
    decreases a.len(),
{
    if b.len() == 0 {
        false
    } else if a.len() == 0 {
        true
    } else if a[0] != b[0] {
        a[0] < b[0]
    } else {
        text_before(a.drop_first(), b.drop_first())
    }
}

/// Whether a name comes before another; none comes before any.
pub open spec fn name_before(a: Option<Seq<char>>, b: Option<Seq<char>>) -> bool {
    match (a, b) {
        (None, Some(_)) => true,
        (Some(x), Some(y)) => text_before(x, y),
        _ => false,
    }
}

/// Whether an entry comes before another: directories before files, and then by
/// name.
pub open spec fn entry_before(a: EntryView, b: EntryView) -> bool {
    (a.is_dir && !b.is_dir) || (a.is_dir == b.is_dir && name_before(a.name, b.name))
}

/// Entries in order with one more put in, behind those it does not come before.
pub open spec fn inserted(s: Seq<EntryView>, e: EntryView) -> Seq<EntryView>
    decreases s.len(),
{
    if s.len() > 0 && entry_before(e, s.last()) {
        inserted(s.drop_last(), e).push(s.last())
    } else {
        s.push(e)
    }
}

/// The entries in order. Those that neither come before the other stay as they
/// were.
pub open spec fn in_order(v: Seq<EntryView>) -> Seq<EntryView>
    decreases v.len(),
{
    if v.len() == 0 {
        Seq::empty()
    } else {
        inserted(in_order(v.drop_last()), v.last())
    }
}

/// Whether no entry comes before one that stands before it.
pub open spec fn is_ordered(s: Seq<EntryView>) -> bool {
    forall|i: int, j: int| 0 <= i < j < s.len() ==> !entry_before(#[trigger] s[j], #[trigger] s[i])
}

proof fn lemma_text_order(a: Seq<char>, b: Seq<char>, c: Seq<char>)
    ensures
        text_before(a, b) && !text_before(c, b) ==> text_before(a, c),
        !(text_before(a, b) && text_before(b, a)),
    decreases a.len(),
{
    if a.len() > 0 && b.len() > 0 {
        if c.len() > 0 {
            lemma_text_order(a.drop_first(), b.drop_first(), c.drop_first());
        } else {
            lemma_text_order(a.drop_first(), b.drop_first(), c);
        }
    }
    if c.len() == 0 && b.len() > 0 {
        assert(text_before(c, b));
    }
    if text_before(a, b) && !text_before(c, b) {
        assert(c.len() > 0);
    }
}

proof fn lemma_entry_order(a: EntryView, b: EntryView, c: EntryView)
    ensures
        entry_before(a, b) && !entry_before(c, b) ==> entry_before(a, c),
        !(entry_before(a, b) && entry_before(b, a)),
{
    if let (Some(x), Some(y)) = (a.name, b.name) {
        if let Some(z) = c.name {
            lemma_text_order(x, y, z);
        } else {
            lemma_text_order(x, y, Seq::empty());
        }
    }
}

proof fn lemma_inserted(s: Seq<EntryView>, e: EntryView)
    requires
        is_ordered(s),
    ensures
        is_ordered(inserted(s, e)),
        inserted(s, e).len() == s.len() + 1,
        inserted(s, e).to_multiset() == s.to_multiset().insert(e),
        forall|i: int|
            0 <= i < inserted(s, e).len() ==> (#[trigger] inserted(s, e)[i] == e || exists|j: int|
                0 <= j < s.len() && inserted(s, e)[i] == s[j]),
    decreases s.len(),
{
    broadcast use vstd::seq_lib::group_to_multiset_ensures;

    if s.len() > 0 && entry_before(e, s.last()) {
        let head = s.drop_last();
        let rest = inserted(head, e);
        lemma_inserted(head, e);
        assert(s =~= head.push(s.last()));
        assert(head.to_multiset().insert(e).insert(s.last()) =~= head.to_multiset().insert(
            s.last(),
        ).insert(e));
        let r = rest.push(s.last());
        assert forall|i: int, j: int| 0 <= i < j < r.len() implies !entry_before(
            #[trigger] r[j],
            #[trigger] r[i],
        ) by {
            if j == r.len() - 1 {
                if r[i] == e {
                    lemma_entry_order(e, s.last(), e);
                } else {
                    assert(rest[i] == r[i]);
                    let k = choose|k: int| 0 <= k < head.len() && rest[i] == head[k];
                    assert(s[k] == head[k]);
                    assert(!entry_before(s[s.len() - 1], s[k]));
                }
            } else {
                assert(r[j] == rest[j] && r[i] == rest[i]);
            }
        }
        assert forall|i: int| 0 <= i < r.len() implies (#[trigger] r[i] == e || exists|j: int|
            0 <= j < s.len() && r[i] == s[j]) by {
            if i < rest.len() {
                assert(r[i] == rest[i]);
                if rest[i] != e {
                    let k = choose|k: int| 0 <= k < head.len() && rest[i] == head[k];
                    assert(s[k] == head[k]);
                }
            } else {
                assert(r[i] == s[s.len() - 1]);
            }
        }
    } else {
        let r = s.push(e);
        assert forall|i: int, j: int| 0 <= i < j < r.len() implies !entry_before(
            #[trigger] r[j],
            #[trigger] r[i],
        ) by {
            if j == s.len() {
                if entry_before(e, s[i]) {
                    if i < s.len() - 1 {
                        assert(!entry_before(s[s.len() - 1], s[i]));
                    }
                    lemma_entry_order(e, s[i], s.last());
                }
            } else {
                assert(r[j] == s[j] && r[i] == s[i]);
            }
        }
        assert forall|i: int| 0 <= i < r.len() implies (#[trigger] r[i] == e || exists|j: int|
            0 <= j < s.len() && r[i] == s[j]) by {
            if i < s.len() {
                assert(r[i] == s[i]);
            }
        }
    }
}

/// The files of a directory are listed with the directories first and each kind
/// by name, and every file is listed exactly as often as it is there.
pub proof fn files_are_ordered_and_all_there(v: Seq<EntryView>)
    ensures
        is_ordered(in_order(v)),
        in_order(v).to_multiset() == v.to_multiset(),
        in_order(v).len() == v.len(),
    decreases v.len(),
{
    broadcast use vstd::seq_lib::group_to_multiset_ensures;

    if v.len() > 0 {
        files_are_ordered_and_all_there(v.drop_last());
        lemma_inserted(in_order(v.drop_last()), v.last());
        assert(v =~= v.drop_last().push(v.last()));
    } else {
        assert(v =~= Seq::empty());
    }
}

fn is_text_before(a: &str, b: &str) -> (r: bool)
    ensures
        r == text_before(a@, b@),
{
    let x = text::chars_of(a);
    let y = text::chars_of(b);
    let mut i: usize = 0;
    assert(x@.skip(0) =~= x@);
    assert(y@.skip(0) =~= y@);
    loop
        invariant
            x@ == a@,
            y@ == b@,
            i <= x@.len(),
            i <= y@.len(),
            text_before(a@, b@) == text_before(x@.skip(i as int), y@.skip(i as int)),
        decreases x@.len() - i,
    {
        if i == y.len() {
            return false;
        }
        if i == x.len() {
            return true;
        }
        if x[i] != y[i] {
            return x[i] < y[i];
        }
        proof {
            assert(x@.skip(i as int).drop_first() =~= x@.skip(i as int + 1));
            assert(y@.skip(i as int).drop_first() =~= y@.skip(i as int + 1));
        }
        i = i + 1;
    }
}

fn is_entry_before(a: &FileEntry, b: &FileEntry) -> (r: bool)
    ensures
        r == entry_before(a@, b@),
{
    if a.is_dir != b.is_dir {
        return a.is_dir;
    }
    match &a.name {
        None => b.name.is_some(),
        Some(x) => match &b.name {
            None => false,
            Some(y) => is_text_before(x.as_str(), y.as_str()),
        },
    }
}

/// Puts an entry into a list that is in order.
fn put_in(v: &mut Vec<FileEntry>, e: FileEntry)
    ensures
        entry_views(final(v)@) == inserted(entry_views(old(v)@), e@),
{
    let ghost all = entry_views(v@);
    let mut p: usize = v.len();
    assert(all.take(p as int) =~= all);
    assert(inserted(all.take(p as int), e@) + all.skip(p as int) =~= inserted(all, e@));
    while p > 0 && is_entry_before(&e, &v[p - 1])
        invariant
            p <= v@.len(),
            all == entry_views(v@),
            v@ == old(v)@,
            inserted(all.take(p as int), e@) + all.skip(p as int) == inserted(all, e@),
        decreases p,
    {
        proof {
            let t = all.take(p as int);
            assert(t.last() == v@[p - 1]@);
            assert(t.drop_last() =~= all.take(p - 1));
            assert(inserted(all.take(p - 1), e@).push(t.last()) + all.skip(p as int) =~= inserted(
                all.take(p - 1),
                e@,
            ) + all.skip(p - 1));
        }
        p = p - 1;
    }
    proof {
        let t = all.take(p as int);
        if p > 0 {
            assert(t.last() == v@[p - 1]@);
        }
        assert(inserted(t, e@) =~= t.push(e@));
    }
    let ghost view = e@;
    v.insert(p, e);
    assert(entry_views(v@) =~= all.take(p as int).push(view) + all.skip(p as int));
}

/// The entries in order.
pub fn sort_entries(entries: Vec<FileEntry>) -> (r: Vec<FileEntry>)
    ensures
        entry_views(r@) == in_order(entry_views(entries@)),
{
    let ghost all = entry_views(entries@);
    let mut rest = entries;
    let mut flipped: Vec<FileEntry> = Vec::new();
    while rest.len() > 0
        invariant
            entry_views(rest@) + entry_views(flipped@).reverse() == all,
        decreases rest@.len(),
    {
        let ghost r0 = entry_views(rest@);
        let ghost f0 = entry_views(flipped@);
        if let Some(e) = rest.pop() {
            let ghost view = e@;
            flipped.push(e);
            proof {
                assert(entry_views(rest@) =~= r0.drop_last());
                assert(entry_views(flipped@) =~= f0.push(view));
                assert(r0.last() == view);
                assert(entry_views(rest@) + entry_views(flipped@).reverse() =~= r0 + f0.reverse());
            }
        }
    }
    assert(entry_views(flipped@).reverse() =~= all);
    let mut out: Vec<FileEntry> = Vec::new();
    assert(entry_views(out@) =~= in_order(all.take(0)));
    while flipped.len() > 0
        invariant
            flipped@.len() <= all.len(),
            entry_views(flipped@).reverse() == all.skip(all.len() - flipped@.len()),
            entry_views(out@) == in_order(all.take(all.len() - flipped@.len())),
        decreases flipped@.len(),
    {
        let ghost f0 = entry_views(flipped@);
        let ghost k = all.len() - flipped@.len();
        if let Some(e) = flipped.pop() {
            let ghost view = e@;
            proof {
                assert(f0.reverse()[0] == view);
                assert(all.skip(k)[0] == all[k]);
                assert(entry_views(flipped@) =~= f0.drop_last());
                assert(entry_views(flipped@).reverse() =~= f0.reverse().skip(1));
                assert(all.skip(k).skip(1) =~= all.skip(k + 1));
                assert(all.take(k + 1).drop_last() =~= all.take(k));
                assert(all.take(k + 1).last() == view);
            }
            put_in(&mut out, e);
        }
    }
    assert(all.take(all.len() as int) =~= all);
    out
}

/// The file picker.
#[derive(Debug)]
pub struct FilePicker {
    pub files: Vec<FileEntry>,
    pub selected: usize,
    pub scroll_offset: usize,
    pub current_dir: String,
}

/// What a [`FilePicker`] holds.
pub struct PickerView {
    pub files: Seq<EntryView>,
    pub selected: usize,
    pub scroll_offset: usize,
    pub current_dir: Seq<char>,
}

impl View for FilePicker {
    type V = PickerView;

    open spec fn view(&self) -> PickerView {
        PickerView {
            files: entry_views(self.files@),
            selected: self.selected,
            scroll_offset: self.scroll_offset,
            current_dir: self.current_dir@,
        }
    }
}

impl PickerView {
    /// The picker and its reaction to a key. The list scrolls so that the
    /// selected file is seen.
    pub open spec fn on_key(self, k: KeyPress) -> (PickerView, ReactionView) {
        if k.bound.cancel {
            (self, ReactionView { effects: Seq::empty(), close: true })
        } else if k.bound.up {
            let selected = dialogs::above(self.selected);
            (
                PickerView {
                    selected,
                    scroll_offset: if selected < self.scroll_offset {
                        selected
                    } else {
                        self.scroll_offset
                    },
                    ..self
                },
                dialogs::no_reaction(),
            )
        } else if k.bound.down {
            if self.selected + 1 < self.files.len() {
                let selected = (self.selected + 1) as usize;
                (
                    PickerView {
                        selected,
                        scroll_offset: if selected >= self.scroll_offset + VISIBLE_FILES {
                            (selected - VISIBLE_FILES + 1) as usize
                        } else {
                            self.scroll_offset
                        },
                        ..self
                    },
                    dialogs::no_reaction(),
                )
            } else {
                (self, dialogs::no_reaction())
            }
        } else if (k.bound.enter || k.code == KeyCode::Char(' ')) && self.selected
            < self.files.len() {
            (
                self,
                dialogs::reaction(
                    EffectView::OpenEntry { path: self.files[self.selected as int].path },
                ),
            )
        } else {
            (self, dialogs::no_reaction())
        }
    }

    /// The picker with the contents of its directory.
    pub open spec fn listed(self, files: Seq<EntryView>) -> PickerView {
        PickerView { files: in_order(files), selected: 0, scroll_offset: 0, ..self }
    }

    /// Whether the selected file is among those that are seen.
    pub open spec fn in_sight(self) -> bool {
        self.scroll_offset <= self.selected < self.scroll_offset + VISIBLE_FILES
    }
}

/// However the selection is moved, it stays in sight.
pub proof fn the_selection_stays_in_sight(p: PickerView, k: KeyPress)
    requires
        p.in_sight(),
        p.files.len() <= usize::MAX,
    ensures
        p.on_key(k).0.in_sight(),
        p.listed(p.files).in_sight(),
{
}

impl FilePicker {
    /// A picker for the directory `current_dir`.
    pub fn new(current_dir: String) -> (r: Self)
        ensures
            r@ == (PickerView {
                files: Seq::empty(),
                selected: 0,
                scroll_offset: 0,
                current_dir: current_dir@,
            }),
    {
        let r = FilePicker { files: Vec::new(), selected: 0, scroll_offset: 0, current_dir };
        assert(r@.files =~= Seq::empty());
        r
    }

    /// Takes the contents of the directory: the way up, if there is one, and the
    /// entries.
    pub fn set_files(&mut self, up: Option<FileEntry>, entries: Vec<FileEntry>)
        ensures
            final(self)@ == old(self)@.listed(with_way_up(up, entries@)),
    {
        let ghost listed = entry_views(entries@);
        let mut all = entries;
        match up {
            Some(e) => {
                let ghost view = e@;
                all.insert(0, e);
                assert(entry_views(all@) =~= seq![view] + listed);
            },
            None => {
                assert(entry_views(all@) =~= Seq::empty() + listed);
            },
        }
        self.files = sort_entries(all);
        self.selected = 0;
        self.scroll_offset = 0;
    }

    /// Takes a key.
    pub fn on_key(&mut self, k: &KeyPress) -> (r: Reaction)
        ensures
            final(self)@ == old(self)@.on_key(*k).0,
            r@ == old(self)@.on_key(*k).1,
    {
        if k.bound.cancel {
            return Reaction { effects: effects::nothing(), close: true };
        }
        if k.bound.up {
            self.selected = dialogs::move_up(self.selected);
            if self.selected < self.scroll_offset {
                self.scroll_offset = self.selected;
            }
            return dialogs::stay();
        }
        if k.bound.down {
            if self.files.len() > 0 && self.selected < self.files.len() - 1 {
                self.selected = self.selected + 1;
                if self.selected >= VISIBLE_FILES && self.selected - VISIBLE_FILES
                    >= self.scroll_offset {
                    self.scroll_offset = self.selected - VISIBLE_FILES + 1;
                }
            }
            return dialogs::stay();
        }
        if (k.bound.enter || k.code == KeyCode::Char(' ')) && self.selected < self.files.len() {
            return dialogs::do_one(
                Effect::OpenEntry { path: self.files[self.selected].path.clone() },
            );
        }
        dialogs::stay()
    }
}

} // verus!
