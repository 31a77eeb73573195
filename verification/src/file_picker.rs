//! The hierarchical file picker: directory entries under the same live
//! substring filter as the item picker, ordered case-insensitively in
//! reverse, with descent into directories and ascent to the parent. The
//! filesystem itself stays outside: whoever drives the picker lists a
//! directory and hands the entries in through `set_listing`.
use crate::filter::lemma_filter_idempotent;
use crate::filter::lemma_filter_of_matching;
use crate::filter::lemma_filter_push;
use crate::strutil::base_name;
use crate::strutil::base_name_of;
use crate::strutil::contains_substring;
use crate::strutil::is_substring;
use crate::strutil::lemma_lex_le_total;
use crate::strutil::lemma_lex_le_trans;
use crate::strutil::lex_le;
use crate::strutil::lex_le_exec;
use crate::strutil::lower_of;
use crate::strutil::lowercase;
use crate::strutil::parent_of;
use crate::strutil::parent_path;
use vstd::multiset::Multiset;
use vstd::prelude::*;
use vstd::relations::sorted_by;
use vstd::string::StrSliceExecFns;
use vstd::string::StringExecFns;

verus! {

/// One directory entry: its display name (directories suffixed with the
/// path separator), its absolute path, and whether it is a directory, as
/// the filesystem reported it when the entry was listed.
pub struct FileEntity {
    pub name: String,
    pub path: String,
    pub is_dir: bool,
}

impl Clone for FileEntity {
    fn clone(&self) -> (r: Self)
        ensures
            r == *self,
    {
        FileEntity { name: self.name.clone(), path: self.path.clone(), is_dir: self.is_dir }
    }
}

impl FileEntity {
    /// Builds an entry for `path`: the display name is the path's last
    /// component, with a separator appended for a directory.
    pub fn from_path(path: String, is_dir: bool) -> (r: FileEntity)
        ensures
            r.path == path,
            r.is_dir == is_dir,
            r.name@ == if is_dir {
                base_name_of(path@).push('/')
            } else {
                base_name_of(path@)
            },
    {
        let mut name = base_name(path.as_str());
        if is_dir {
            name.push('/');
        }
        FileEntity { name, path, is_dir }
    }
}

/// The order directory entries are listed in: case-insensitive
/// lexicographic comparison of the display names, reversed.
pub open spec fn fe_le(a: FileEntity, b: FileEntity) -> bool {
    lex_le(lower_of(b.name@), lower_of(a.name@))
}

/// The entry order relates every pair one way or the other.
pub proof fn lemma_fe_le_total(a: FileEntity, b: FileEntity)
    ensures
        fe_le(a, b) || fe_le(b, a),
{
    lemma_lex_le_total(lower_of(b.name@), lower_of(a.name@));
}

/// The entry order is transitive.
pub proof fn lemma_fe_le_trans(a: FileEntity, b: FileEntity, c: FileEntity)
    requires
        fe_le(a, b),
        fe_le(b, c),
    ensures
        fe_le(a, c),
{
    lemma_lex_le_trans(lower_of(c.name@), lower_of(b.name@), lower_of(a.name@));
}

/// Decides the entry order.
fn entity_le(a: &FileEntity, b: &FileEntity) -> (r: bool)
    ensures
        r == fe_le(*a, *b),
{
    let la = lowercase(a.name.as_str());
    let lb = lowercase(b.name.as_str());
    lex_le_exec(lb.as_str(), la.as_str())
}

/// Sorts directory entries by the entry order, keeping exactly the given
/// entries.
fn sort_entities(entries: Vec<FileEntity>) -> (r: Vec<FileEntity>)
    ensures
        sorted_by(r@, |x: FileEntity, y: FileEntity| fe_le(x, y)),
        r@.to_multiset() == entries@.to_multiset(),
{
    broadcast use vstd::seq_lib::group_to_multiset_ensures;

    let ghost leq = |x: FileEntity, y: FileEntity| fe_le(x, y);
    let ghost orig = entries@;
    let mut v = entries;
    let mut out: Vec<FileEntity> = Vec::new();
    while v.len() > 0
        invariant
            sorted_by(out@, leq),
            leq == (|x: FileEntity, y: FileEntity| fe_le(x, y)),
            out@.to_multiset().add(v@.to_multiset()) == orig.to_multiset(),
            forall|i: int, j: int|
                0 <= i < out@.len() && 0 <= j < v@.len() ==> #[trigger] leq(out@[i], v@[j]),
        decreases v@.len(),
    {
        let mut m: usize = 0;
        let mut j: usize = 1;
        proof {
            lemma_fe_le_total(v@[0], v@[0]);
        }
        while j < v.len()
            invariant
                m < j,
                j <= v@.len(),
                1 <= v@.len(),
                forall|k: int| 0 <= k < j ==> fe_le(v@[m as int], #[trigger] v@[k]),
            decreases v@.len() - j,
        {
            if entity_le(&v[j], &v[m]) {
                proof {
                    assert forall|k: int| 0 <= k < j + 1 implies fe_le(
                        v@[j as int],
                        #[trigger] v@[k],
                    ) by {
                        if k < j {
                            lemma_fe_le_trans(v@[j as int], v@[m as int], v@[k]);
                        } else {
                            lemma_fe_le_total(v@[j as int], v@[j as int]);
                        }
                    }
                }
                m = j;
            } else {
                proof {
                    lemma_fe_le_total(v@[j as int], v@[m as int]);
                }
            }
            j = j + 1;
        }
        let ghost pre_v = v@;
        let x = v.remove(m);
        proof {
            assert(sorted_by(out@.push(x), leq));
            assert(x == pre_v[m as int]);
            assert(pre_v.contains(x));
            pre_v.to_multiset_ensures();
            out@.to_multiset_ensures();
            assert(v@.to_multiset() =~= pre_v.to_multiset().remove(x));
            assert(out@.push(x).to_multiset() =~= out@.to_multiset().insert(x));
            assert(out@.push(x).to_multiset().add(v@.to_multiset()) =~= orig.to_multiset());
            assert forall|i: int, j2: int|
                0 <= i < out@.push(x).len() && 0 <= j2 < v@.len() implies #[trigger] leq(
                out@.push(x)[i],
                v@[j2],
            ) by {
                if i == out@.len() {
                    assert(v@[j2] == pre_v.remove(m as int)[j2]);
                }
            }
        }
        out.push(x);
    }
    proof {
        assert(v@.to_multiset() =~= Multiset::<FileEntity>::empty());
        assert(out@.to_multiset() =~= orig.to_multiset());
    }
    out
}

/// An entry passes the filter when the filter text is empty or occurs in
/// the entry's display name (case-sensitively).
pub open spec fn entity_matches(e: FileEntity, part: Seq<char>) -> bool {
    part.len() == 0 || is_substring(part, e.name@)
}

/// The entries that pass the filter, in listing order.
pub open spec fn filter_entities(entries: Seq<FileEntity>, part: Seq<char>) -> Seq<FileEntity> {
    entries.filter(|e: FileEntity| entity_matches(e, part))
}

/// The selection stays inside the filtered list, and parks at 0 when the
/// list is empty.
pub open spec fn fp_sel_ok(len: nat, sel: usize) -> bool {
    if len == 0 {
        sel == 0
    } else {
        (sel as nat) < len
    }
}

pub struct FilePicker {
    pub current_directory: FileEntity,
    pub active: bool,
    pub selected: usize,
    pub part: String,
    pub proposals: Vec<FileEntity>,
    pub filtered: Vec<FileEntity>,
}

impl FilePicker {
    /// The picker invariant: the filtered list is exactly the filter of the
    /// proposals by the current filter text, and the selection is in
    /// bounds.
    pub open spec fn wf(self) -> bool {
        &&& self.filtered@ == filter_entities(self.proposals@, self.part@)
        &&& fp_sel_ok(self.filtered@.len(), self.selected)
    }

    /// An inactive picker standing in `current_directory`, with no listing
    /// yet.
    pub fn new(current_directory: FileEntity) -> (p: FilePicker)
        ensures
            p.wf(),
            p.current_directory == current_directory,
            p.active == false,
            p.selected == 0,
            p.part@ == Seq::<char>::empty(),
            p.proposals@ == Seq::<FileEntity>::empty(),
            p.filtered@ == Seq::<FileEntity>::empty(),
    {
        let p = FilePicker {
            current_directory,
            selected: 0,
            active: false,
            part: String::new(),
            filtered: Vec::new(),
            proposals: Vec::new(),
        };
        proof {
            lemma_filter_of_matching(
                Seq::<FileEntity>::empty(),
                |e: FileEntity| entity_matches(e, p.part@),
            );
        }
        p
    }

    pub fn is_active(&self) -> (r: bool)
        ensures
            r == self.active,
    {
        self.active
    }

    pub fn inserted_part(&self) -> (r: &String)
        ensures
            r@ == self.part@,
    {
        &self.part
    }

    /// The absolute path of the directory the picker stands in.
    pub fn current_directory_name(&self) -> (r: &str)
        ensures
            r@ == self.current_directory.path@,
    {
        self.current_directory.path.as_str()
    }

    /// Opens the picker on its current directory: the filter and the
    /// selection reset, the stale listing is dropped, and a fresh one is
    /// awaited through `set_listing`.
    pub fn activate(&mut self)
        ensures
            final(self).wf(),
            final(self).active == true,
            final(self).current_directory == old(self).current_directory,
            final(self).part@ == Seq::<char>::empty(),
            final(self).selected == 0,
            final(self).proposals@ == Seq::<FileEntity>::empty(),
            final(self).filtered@ == Seq::<FileEntity>::empty(),
    {
        self.active = true;
        self.part = String::new();
        self.selected = 0;
        self.proposals = Vec::new();
        self.filtered = Vec::new();
        proof {
            lemma_filter_of_matching(
                Seq::<FileEntity>::empty(),
                |e: FileEntity| entity_matches(e, self.part@),
            );
        }
    }

    /// Takes the listing of the current directory: the entries, sorted by
    /// the entry order, become the proposals, and the filtered list is
    /// recomputed from them.
    pub fn set_listing(&mut self, entries: Vec<FileEntity>)
        ensures
            final(self).wf(),
            sorted_by(
                final(self).proposals@,
                |x: FileEntity, y: FileEntity| fe_le(x, y),
            ),
            final(self).proposals@.to_multiset() == entries@.to_multiset(),
            final(self).filtered@ == filter_entities(final(self).proposals@, old(self).part@),
            final(self).selected as int == if final(self).filtered@.len() == 0 || old(
                self,
            ).selected >= final(self).filtered@.len() {
                0int
            } else {
                old(self).selected as int
            },
            final(self).current_directory == old(self).current_directory,
            final(self).active == old(self).active,
            final(self).part == old(self).part,
    {
        self.proposals = sort_entities(entries);
        self.refilter();
    }

    pub fn selected_line(&self) -> (r: usize)
        ensures
            r == self.selected,
    {
        self.selected
    }

    /// How many entries the listing has, and how many pass the filter.
    pub fn selection_stats(&self) -> (r: (usize, usize))
        ensures
            r.0 == self.proposals@.len(),
            r.1 == self.filtered@.len(),
    {
        (self.proposals.len(), self.filtered.len())
    }

    /// Closes the picker and drops its listing; the selection parks at 0.
    pub fn deactivate(&mut self)
        ensures
            final(self).wf(),
            final(self).active == false,
            final(self).proposals@ == Seq::<FileEntity>::empty(),
            final(self).filtered@ == Seq::<FileEntity>::empty(),
            final(self).selected == 0,
            final(self).part == old(self).part,
            final(self).current_directory == old(self).current_directory,
    {
        self.active = false;
        self.proposals = Vec::new();
        self.filtered = Vec::new();
        self.selected = 0;
        proof {
            lemma_filter_of_matching(
                Seq::<FileEntity>::empty(),
                |e: FileEntity| entity_matches(e, self.part@),
            );
        }
    }

    /// Moves into `new_dir`: it becomes the current directory, the filter
    /// and the selection reset, and a fresh listing is awaited through
    /// `set_listing`.
    fn change_dir(&mut self, new_dir: FileEntity)
        ensures
            final(self).wf(),
            final(self).current_directory == new_dir,
            final(self).part@ == Seq::<char>::empty(),
            final(self).selected == 0,
            final(self).proposals@ == Seq::<FileEntity>::empty(),
            final(self).filtered@ == Seq::<FileEntity>::empty(),
            final(self).active == old(self).active,
    {
        self.current_directory = new_dir;
        self.part = String::new();
        self.selected = 0;
        self.proposals = Vec::new();
        self.filtered = Vec::new();
        proof {
            lemma_filter_of_matching(
                Seq::<FileEntity>::empty(),
                |e: FileEntity| entity_matches(e, self.part@),
            );
        }
    }

    /// Appends the given characters to the filter text and refilters.
    pub fn insert_character(&mut self, c: &str)
        requires
            old(self).wf(),
        ensures
            final(self).wf(),
            final(self).part@ == old(self).part@ + c@,
            final(self).filtered@ == filter_entities(old(self).proposals@, old(self).part@ + c@),
            final(self).selected as int == if final(self).filtered@.len() == 0 || old(
                self,
            ).selected >= final(self).filtered@.len() {
                0int
            } else {
                old(self).selected as int
            },
            final(self).proposals@ == old(self).proposals@,
            final(self).current_directory == old(self).current_directory,
            final(self).active == old(self).active,
    {
        self.part.append(c);
        self.refilter();
    }

    /// Recomputes the filtered list from the proposals and the filter text,
    /// resetting the selection to 0 when it no longer fits.
    fn refilter(&mut self)
        ensures
            final(self).wf(),
            final(self).filtered@ == filter_entities(old(self).proposals@, old(self).part@),
            final(self).selected as int == if final(self).filtered@.len() == 0 || old(
                self,
            ).selected >= final(self).filtered@.len() {
                0int
            } else {
                old(self).selected as int
            },
            final(self).proposals@ == old(self).proposals@,
            final(self).part == old(self).part,
            final(self).current_directory == old(self).current_directory,
            final(self).active == old(self).active,
    {
        let ghost pred = |e: FileEntity| entity_matches(e, self.part@);
        let mut out: Vec<FileEntity> = Vec::new();
        let mut i: usize = 0;
        proof {
            reveal(Seq::filter);
            assert(self.proposals@.take(0) =~= Seq::<FileEntity>::empty());
        }
        while i < self.proposals.len()
            invariant
                i <= self.proposals@.len(),
                out@ == self.proposals@.take(i as int).filter(pred),
                pred == (|e: FileEntity| entity_matches(e, self.part@)),
            decreases self.proposals@.len() - i,
        {
            let keep = self.part.as_str().is_empty() || contains_substring(
                self.proposals[i].name.as_str(),
                self.part.as_str(),
            );
            if keep {
                out.push(self.proposals[i].clone());
            }
            proof {
                lemma_filter_push(self.proposals@.take(i as int), self.proposals@[i as int], pred);
                assert(self.proposals@.take(i + 1) =~= self.proposals@.take(i as int).push(
                    self.proposals@[i as int],
                ));
            }
            i = i + 1;
        }
        proof {
            assert(self.proposals@.take(self.proposals@.len() as int) =~= self.proposals@);
        }
        self.filtered = out;
        let flen = self.filtered.len();
        if flen == 0 || self.selected >= flen {
            self.selected = 0;
        }
    }

    /// The first `size` filtered entries (or all of them, if fewer), for
    /// the renderer to draw.
    pub fn get_items(&self, size: usize) -> (r: Vec<FileEntity>)
        ensures
            r@ == self.filtered@.take(
                if size < self.filtered@.len() {
                    size as int
                } else {
                    self.filtered@.len() as int
                },
            ),
    {
        let n = self.filtered.len();
        let upto = if size < n {
            size
        } else {
            n
        };
        let mut r: Vec<FileEntity> = Vec::new();
        let mut i: usize = 0;
        while i < upto
            invariant
                i <= upto,
                upto <= self.filtered@.len(),
                r@ == self.filtered@.take(i as int),
            decreases upto - i,
        {
            r.push(self.filtered[i].clone());
            proof {
                assert(self.filtered@.take(i + 1) =~= self.filtered@.take(i as int).push(
                    self.filtered@[i as int],
                ));
            }
            i = i + 1;
        }
        r
    }

    /// Moves the selection one step toward higher indices, saturating at
    /// the last filtered entry.
    pub fn selection_up(&mut self)
        requires
            old(self).wf(),
        ensures
            final(self).wf(),
            *final(self) == (FilePicker {
                selected: if old(self).selected + 1 < old(self).filtered@.len() {
                    (old(self).selected + 1) as usize
                } else {
                    old(self).selected
                },
                ..*old(self)
            }),
    {
        if self.filtered.len() > self.selected + 1 {
            self.selected = self.selected + 1;
        }
    }

    /// Moves the selection one step toward index 0, saturating there.
    pub fn selection_down(&mut self)
        requires
            old(self).wf(),
        ensures
            final(self).wf(),
            *final(self) == (FilePicker {
                selected: if old(self).selected > 0 {
                    (old(self).selected - 1) as usize
                } else {
                    0
                },
                ..*old(self)
            }),
    {
        if self.selected > 0 {
            self.selected = self.selected - 1;
        }
    }

    /// Moves to the parent of the current directory, exactly as descending
    /// into a directory does: filter and selection reset, fresh listing
    /// awaited through `set_listing`.
    pub fn delete_segment(&mut self)
        ensures
            final(self).wf(),
            final(self).current_directory.path@ == parent_of(old(self).current_directory.path@),
            final(self).current_directory.is_dir == true,
            final(self).current_directory.name@ == base_name_of(
                parent_of(old(self).current_directory.path@),
            ).push('/'),
            final(self).part@ == Seq::<char>::empty(),
            final(self).selected == 0,
            final(self).proposals@ == Seq::<FileEntity>::empty(),
            final(self).filtered@ == Seq::<FileEntity>::empty(),
            final(self).active == old(self).active,
    {
        let new_path = parent_path(self.current_directory.path.as_str());
        let new_dir = FileEntity::from_path(new_path, true);
        self.change_dir(new_dir);
    }

    /// Removes the last filter character, if any, and refilters.
    pub fn delete_character(&mut self)
        requires
            old(self).wf(),
        ensures
            final(self).wf(),
            old(self).part@.len() == 0 ==> *final(self) == *old(self),
            old(self).part@.len() > 0 ==> {
                &&& final(self).part@ == old(self).part@.drop_last()
                &&& final(self).filtered@ == filter_entities(
                    old(self).proposals@,
                    old(self).part@.drop_last(),
                )
                &&& final(self).selected as int == if final(self).filtered@.len() == 0 || old(
                    self,
                ).selected >= final(self).filtered@.len() {
                    0int
                } else {
                    old(self).selected as int
                }
                &&& final(self).proposals@ == old(self).proposals@
                &&& final(self).current_directory == old(self).current_directory
                &&& final(self).active == old(self).active
            },
    {
        let n = self.part.as_str().unicode_len();
        if n > 0 {
            self.part = self.part.as_str().substring_char(0, n - 1).to_owned();
            proof {
                assert(self.part@ =~= old(self).part@.drop_last());
            }
            self.refilter();
        }
    }

    /// Acts on the selected entry: a file's absolute path is returned and
    /// the picker is left untouched; a directory becomes the current
    /// directory, with the filter and the selection reset and a fresh
    /// listing awaited through `set_listing`; with nothing selected,
    /// nothing happens.
    pub fn confirm_selection(&mut self) -> (r: Option<String>)
        requires
            old(self).wf(),
        ensures
            final(self).wf(),
            old(self).selected >= old(self).filtered@.len() ==> r is None && *final(self) == *old(
                self,
            ),
            old(self).selected < old(self).filtered@.len() && !old(self).filtered@[old(
                self,
            ).selected as int].is_dir ==> {
                &&& r is Some
                &&& r.unwrap()@ == old(self).filtered@[old(self).selected as int].path@
                &&& *final(self) == *old(self)
            },
            old(self).selected < old(self).filtered@.len() && old(self).filtered@[old(
                self,
            ).selected as int].is_dir ==> {
                &&& r is None
                &&& final(self).current_directory == old(self).filtered@[old(self).selected as int]
                &&& final(self).part@ == Seq::<char>::empty()
                &&& final(self).selected == 0
                &&& final(self).proposals@ == Seq::<FileEntity>::empty()
                &&& final(self).filtered@ == Seq::<FileEntity>::empty()
                &&& final(self).active == old(self).active
            },
    {
        if self.selected < self.filtered.len() {
            if self.filtered[self.selected].is_dir {
                let entry = self.filtered[self.selected].clone();
                self.change_dir(entry);
                None
            } else {
                Some(self.filtered[self.selected].path.clone())
            }
        } else {
            None
        }
    }

    /// Closes the picker without touching its listing.
    pub fn quit(&mut self)
        ensures
            *final(self) == (FilePicker { active: false, ..*old(self) }),
    {
        self.active = false;
    }
}

/// The filtered list is a function of the proposals and the filter text
/// alone: two pickers that agree on both show the same filtered list, no
/// matter through which sequence of insertions and deletions each arrived
/// at its state.
pub proof fn lemma_fp_filtered_determined(a: FilePicker, b: FilePicker)
    requires
        a.wf(),
        b.wf(),
        a.proposals@ == b.proposals@,
        a.part@ == b.part@,
    ensures
        a.filtered@ == b.filtered@,
{
}

/// Filtering is idempotent: filtering an already-filtered listing with the
/// same filter text changes nothing.
pub proof fn lemma_filter_entities_idempotent(entries: Seq<FileEntity>, part: Seq<char>)
    ensures
        filter_entities(filter_entities(entries, part), part) == filter_entities(entries, part),
{
    lemma_filter_idempotent(entries, |e: FileEntity| entity_matches(e, part));
}

/// Deleting the just-inserted filter character restores exactly the
/// filtered listing the picker showed before the insertion.
pub proof fn lemma_fp_delete_restores_filter(entries: Seq<FileEntity>, part: Seq<char>, c: char)
    ensures
        filter_entities(entries, part.push(c).drop_last()) == filter_entities(entries, part),
{
    assert(part.push(c).drop_last() =~= part);
}

/// The selection never leaves `[0, filtered.len() - 1]`: in every state the
/// picker's operations can reach, it is 0 when the filtered list is empty
/// and strictly inside the list otherwise.
pub proof fn lemma_fp_selection_in_bounds(p: FilePicker)
    requires
        p.wf(),
    ensures
        p.filtered@.len() == 0 ==> p.selected == 0,
        p.filtered@.len() > 0 ==> (p.selected as int) < p.filtered@.len(),
{
}

} // verus!
