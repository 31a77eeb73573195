//! The flat item picker: a candidate list under a live substring filter, a
//! bounded selection cursor, and a one-shot accepted slot, driven by the
//! editor's key routing.
use crate::filter::lemma_filter_idempotent;
use crate::filter::lemma_filter_of_matching;
use crate::filter::lemma_filter_push;
use crate::keys::Key;
use crate::keys::key_char;
use crate::keys::shft;
use crate::strutil::contains_substring;
use crate::strutil::is_substring;
use vstd::prelude::*;
use vstd::string::StrSliceExecFns;

verus! {

/// One selectable candidate, supplied wholesale when the picker is
/// activated and immutable afterwards.
pub struct Item {
    pub id: usize,
    pub name: String,
    pub description: Option<String>,
}

impl Item {
    /// A plain item with no description.
    pub fn new(id: usize, name: String) -> (r: Item)
        ensures
            r.id == id,
            r.name == name,
            r.description is None,
    {
        Item { id, name, description: None }
    }
}

impl Clone for Item {
    fn clone(&self) -> (r: Self)
        ensures
            r == *self,
    {
        Item {
            id: self.id,
            name: self.name.clone(),
            description: match &self.description {
                Some(d) => Some(d.clone()),
                None => None,
            },
        }
    }
}

/// An item passes the filter when the filter text is empty or occurs in the
/// item's name (case-sensitively).
pub open spec fn item_matches(it: Item, part: Seq<char>) -> bool {
    part.len() == 0 || is_substring(part, it.name@)
}

/// The candidates that pass the filter, in candidate order.
pub open spec fn filter_items(items: Seq<Item>, part: Seq<char>) -> Seq<Item> {
    items.filter(|it: Item| item_matches(it, part))
}

/// The selection stays inside the filtered list, and parks at 0 when the
/// list is empty.
pub open spec fn sel_ok(len: nat, sel: usize) -> bool {
    if len == 0 {
        sel == 0
    } else {
        (sel as nat) < len
    }
}

pub struct ItemPicker {
    pub active: bool,
    pub items: Vec<Item>,
    pub filtered: Vec<Item>,
    pub selected_line: usize,
    pub accepted: Option<Item>,
    pub filter_part: String,
}

/// Moving the selection up: one step toward higher indices, saturating at
/// the last filtered entry.
pub open spec fn sel_up_effect(pre: ItemPicker, post: ItemPicker) -> bool {
    post == (ItemPicker {
        selected_line: if pre.selected_line + 1 < pre.filtered@.len() {
            (pre.selected_line + 1) as usize
        } else {
            pre.selected_line
        },
        ..pre
    })
}

/// Moving the selection down: one step toward index 0, saturating there.
pub open spec fn sel_down_effect(pre: ItemPicker, post: ItemPicker) -> bool {
    post == (ItemPicker {
        selected_line: if pre.selected_line > 0 {
            (pre.selected_line - 1) as usize
        } else {
            0
        },
        ..pre
    })
}

/// Appending `c` to the filter text and recomputing the filtered list; a
/// selection no longer inside the new list resets to 0.
pub open spec fn insert_filter_effect(pre: ItemPicker, post: ItemPicker, c: char) -> bool {
    let part2 = pre.filter_part@.push(c);
    let f2 = filter_items(pre.items@, part2);
    &&& post.filter_part@ == part2
    &&& post.filtered@ == f2
    &&& post.selected_line as int == if f2.len() == 0 || pre.selected_line >= f2.len() {
        0int
    } else {
        pre.selected_line as int
    }
    &&& post.items@ == pre.items@
    &&& post.active == pre.active
    &&& post.accepted == pre.accepted
}

/// Removing the last filter character, if there is one, and recomputing the
/// filtered list exactly as an insertion does.
pub open spec fn delete_filter_effect(pre: ItemPicker, post: ItemPicker) -> bool {
    if pre.filter_part@.len() == 0 {
        post == pre
    } else {
        let part2 = pre.filter_part@.drop_last();
        let f2 = filter_items(pre.items@, part2);
        &&& post.filter_part@ == part2
        &&& post.filtered@ == f2
        &&& post.selected_line as int == if f2.len() == 0 || pre.selected_line >= f2.len() {
            0int
        } else {
            pre.selected_line as int
        }
        &&& post.items@ == pre.items@
        &&& post.active == pre.active
        &&& post.accepted == pre.accepted
    }
}

/// Copying the selected filtered entry, if any, into the one-shot accepted
/// slot.
pub open spec fn accept_effect(pre: ItemPicker, post: ItemPicker) -> bool {
    if pre.selected_line < pre.filtered@.len() {
        post == (ItemPicker { accepted: Some(pre.filtered@[pre.selected_line as int]), ..pre })
    } else {
        post == pre
    }
}

/// Deactivation: the candidate list is dropped and the selection parks at
/// 0; the filter text resets on the next activation.
pub open spec fn deactivate_effect(pre: ItemPicker, post: ItemPicker) -> bool {
    &&& post.active == false
    &&& post.items@ == Seq::<Item>::empty()
    &&& post.filtered@ == Seq::<Item>::empty()
    &&& post.selected_line == 0
    &&& post.filter_part == pre.filter_part
    &&& post.accepted == pre.accepted
}

impl ItemPicker {
    /// The picker invariant: the filtered list is exactly the filter of the
    /// candidates by the current filter text, and the selection is in
    /// bounds.
    pub open spec fn wf(self) -> bool {
        &&& self.filtered@ == filter_items(self.items@, self.filter_part@)
        &&& sel_ok(self.filtered@.len(), self.selected_line)
    }

    /// An inactive picker with nothing to pick from.
    pub fn new() -> (p: ItemPicker)
        ensures
            p.wf(),
            p.active == false,
            p.items@ == Seq::<Item>::empty(),
            p.filtered@ == Seq::<Item>::empty(),
            p.selected_line == 0,
            p.accepted is None,
            p.filter_part@ == Seq::<char>::empty(),
    {
        let p = ItemPicker {
            active: false,
            items: Vec::new(),
            filtered: Vec::new(),
            selected_line: 0,
            filter_part: String::new(),
            accepted: None,
        };
        proof {
            lemma_filter_of_matching(
                Seq::<Item>::empty(),
                |it: Item| item_matches(it, Seq::<char>::empty()),
            );
        }
        p
    }

    pub fn is_active(&mut self) -> (r: bool)
        ensures
            *final(self) == *old(self),
            r == old(self).active,
    {
        self.active
    }

    /// Takes a fresh candidate list: the filter is cleared, so the filtered
    /// list is the whole candidate list, and the selection starts at 0.
    pub fn activate(&mut self, items: Vec<Item>)
        ensures
            final(self).wf(),
            final(self).active == true,
            final(self).items@ == items@,
            final(self).filtered@ == items@,
            final(self).selected_line == 0,
            final(self).filter_part@ == Seq::<char>::empty(),
            final(self).accepted == old(self).accepted,
    {
        self.active = true;
        self.items = items;
        self.filtered = self.items.clone();
        self.selected_line = 0;
        self.filter_part = String::new();
        proof {
            assert forall|i: int| 0 <= i < self.items@.len() implies self.filtered@[i]
                == self.items@[i] by {}
            assert(self.filtered@ =~= self.items@);
            lemma_filter_of_matching(
                self.items@,
                |it: Item| item_matches(it, Seq::<char>::empty()),
            );
        }
    }

    pub fn deactivate(&mut self)
        ensures
            final(self).wf(),
            deactivate_effect(*old(self), *final(self)),
    {
        self.active = false;
        self.items = Vec::new();
        self.filtered = Vec::new();
        self.selected_line = 0;
        proof {
            lemma_filter_of_matching(
                Seq::<Item>::empty(),
                |it: Item| item_matches(it, self.filter_part@),
            );
        }
    }

    /// Hands out and clears the one-shot accepted slot.
    pub fn get_accepted(&mut self) -> (r: Option<Item>)
        requires
            old(self).wf(),
        ensures
            final(self).wf(),
            r == old(self).accepted,
            *final(self) == (ItemPicker { accepted: None, ..*old(self) }),
    {
        self.accepted.take()
    }

    pub fn inserted_part(&self) -> (r: &String)
        ensures
            r@ == self.filter_part@,
    {
        &self.filter_part
    }

    pub fn get_items(&self) -> (r: &Vec<Item>)
        ensures
            r@ == self.items@,
    {
        &self.items
    }

    pub fn get_items_filtered(&self) -> (r: &Vec<Item>)
        ensures
            r@ == self.filtered@,
    {
        &self.filtered
    }

    pub fn selection_up(&mut self)
        requires
            old(self).wf(),
        ensures
            final(self).wf(),
            sel_up_effect(*old(self), *final(self)),
    {
        if self.filtered.len() > self.selected_line + 1 {
            self.selected_line = self.selected_line + 1;
        }
    }

    pub fn selection_down(&mut self)
        requires
            old(self).wf(),
        ensures
            final(self).wf(),
            sel_down_effect(*old(self), *final(self)),
    {
        if self.selected_line > 0 {
            self.selected_line = self.selected_line - 1;
        }
    }

    /// Recomputes the filtered list from the candidates and the filter
    /// text, resetting the selection to 0 when it no longer fits.
    fn refilter(&mut self)
        ensures
            final(self).wf(),
            final(self).filtered@ == filter_items(old(self).items@, old(self).filter_part@),
            final(self).selected_line as int == if final(self).filtered@.len() == 0 || old(
                self,
            ).selected_line >= final(self).filtered@.len() {
                0int
            } else {
                old(self).selected_line as int
            },
            final(self).items@ == old(self).items@,
            final(self).filter_part == old(self).filter_part,
            final(self).active == old(self).active,
            final(self).accepted == old(self).accepted,
    {
        let ghost pred = |it: Item| item_matches(it, self.filter_part@);
        let mut out: Vec<Item> = Vec::new();
        let mut i: usize = 0;
        proof {
            reveal(Seq::filter);
            assert(self.items@.take(0) =~= Seq::<Item>::empty());
        }
        while i < self.items.len()
            invariant
                i <= self.items@.len(),
                out@ == self.items@.take(i as int).filter(pred),
                pred == (|it: Item| item_matches(it, self.filter_part@)),
            decreases self.items@.len() - i,
        {
            let keep = self.filter_part.as_str().is_empty() || contains_substring(
                self.items[i].name.as_str(),
                self.filter_part.as_str(),
            );
            if keep {
                out.push(self.items[i].clone());
            }
            proof {
                lemma_filter_push(self.items@.take(i as int), self.items@[i as int], pred);
                assert(self.items@.take(i + 1) =~= self.items@.take(i as int).push(
                    self.items@[i as int],
                ));
            }
            i = i + 1;
        }
        proof {
            assert(self.items@.take(self.items@.len() as int) =~= self.items@);
        }
        self.filtered = out;
        let flen = self.filtered.len();
        if flen == 0 || self.selected_line >= flen {
            self.selected_line = 0;
        }
    }

    /// Copies the selected filtered entry, if any, into the accepted slot.
    pub fn accept_selection(&mut self)
        requires
            old(self).wf(),
        ensures
            final(self).wf(),
            accept_effect(*old(self), *final(self)),
    {
        if self.selected_line < self.filtered.len() {
            let it = self.filtered[self.selected_line].clone();
            self.accepted = Some(it);
        }
    }

    /// Appends `c` to the filter text and refilters.
    pub fn insert_char(&mut self, c: char)
        requires
            old(self).wf(),
        ensures
            final(self).wf(),
            insert_filter_effect(*old(self), *final(self), c),
    {
        self.filter_part.push(c);
        self.refilter();
    }

    /// Removes the last filter character, if any, and refilters.
    pub fn delete_char(&mut self)
        requires
            old(self).wf(),
        ensures
            final(self).wf(),
            delete_filter_effect(*old(self), *final(self)),
    {
        let n = self.filter_part.as_str().unicode_len();
        if n > 0 {
            self.filter_part = self.filter_part.as_str().substring_char(0, n - 1).to_owned();
            proof {
                assert(self.filter_part@ =~= old(self).filter_part@.drop_last());
            }
            self.refilter();
        }
    }

    /// Routes one key press: with the control chord held, `J`/`K`/`H`/`L`
    /// move the selection, delete a filter character, or accept; otherwise
    /// printable keys insert into the filter and the navigation keys move,
    /// delete, accept, or dismiss. Returns whether the key was consumed.
    pub fn try_handle_key(&mut self, keycode: &Key, shift: bool, ctrl: bool) -> (r: bool)
        requires
            old(self).wf(),
        ensures
            final(self).wf(),
            ({
                let pre = *old(self);
                let post = *final(self);
                if ctrl {
                    match keycode {
                        Key::J => r && sel_down_effect(pre, post),
                        Key::K => r && sel_up_effect(pre, post),
                        Key::H => r && delete_filter_effect(pre, post),
                        Key::L => r && accept_effect(pre, post),
                        _ => !r && post == pre,
                    }
                } else {
                    match key_char(*keycode, shift) {
                        Some(c) => r && insert_filter_effect(pre, post, c),
                        None => match keycode {
                            Key::Return => r && accept_effect(pre, post),
                            Key::Backspace => r && delete_filter_effect(pre, post),
                            Key::Up => r && sel_up_effect(pre, post),
                            Key::Down => r && sel_down_effect(pre, post),
                            Key::Escape => r && deactivate_effect(pre, post),
                            _ => !r && post == pre,
                        },
                    }
                }
            }),
    {
        let mut handled = true;
        if ctrl {
            match &keycode {
                Key::J => self.selection_down(),
                Key::K => self.selection_up(),
                Key::H => self.delete_char(),
                Key::L => self.accept_selection(),
                _ => handled = false,
            }
        } else {
            match &keycode {
                Key::Num1 => self.insert_char(shft('1', '!', shift)),
                Key::Num2 => self.insert_char(shft('2', '@', shift)),
                Key::Num3 => self.insert_char(shft('3', '#', shift)),
                Key::Num4 => self.insert_char(shft('4', '$', shift)),
                Key::Num5 => self.insert_char(shft('5', '%', shift)),
                Key::Num6 => self.insert_char(shft('6', '^', shift)),
                Key::Num7 => self.insert_char(shft('7', '&', shift)),
                Key::Num8 => self.insert_char(shft('8', '*', shift)),
                Key::Num9 => self.insert_char(shft('9', '(', shift)),
                Key::Num0 => self.insert_char(shft('0', ')', shift)),
                Key::Minus => self.insert_char(shft('-', '_', shift)),
                Key::Equals => self.insert_char(shft('=', '+', shift)),
                Key::Q => self.insert_char(shft('q', 'Q', shift)),
                Key::W => self.insert_char(shft('w', 'W', shift)),
                Key::E => self.insert_char(shft('e', 'E', shift)),
                Key::R => self.insert_char(shft('r', 'R', shift)),
                Key::T => self.insert_char(shft('t', 'T', shift)),
                Key::Y => self.insert_char(shft('y', 'Y', shift)),
                Key::U => self.insert_char(shft('u', 'U', shift)),
                Key::I => self.insert_char(shft('i', 'I', shift)),
                Key::O => self.insert_char(shft('o', 'O', shift)),
                Key::P => self.insert_char(shft('p', 'P', shift)),
                Key::LeftBracket => self.insert_char(shft('[', '{', shift)),
                Key::RightBracket => self.insert_char(shft(']', '}', shift)),
                Key::Backslash => self.insert_char(shft('\\', '|', shift)),
                Key::A => self.insert_char(shft('a', 'A', shift)),
                Key::S => self.insert_char(shft('s', 'S', shift)),
                Key::D => self.insert_char(shft('d', 'D', shift)),
                Key::F => self.insert_char(shft('f', 'F', shift)),
                Key::G => self.insert_char(shft('g', 'G', shift)),
                Key::H => self.insert_char(shft('h', 'H', shift)),
                Key::J => self.insert_char(shft('j', 'J', shift)),
                Key::K => self.insert_char(shft('k', 'K', shift)),
                Key::L => self.insert_char(shft('l', 'L', shift)),
                Key::Semicolon => self.insert_char(shft(';', ':', shift)),
                Key::Quote => self.insert_char(shft('\'', '"', shift)),
                Key::Z => self.insert_char(shft('z', 'Z', shift)),
                Key::X => self.insert_char(shft('x', 'X', shift)),
                Key::C => self.insert_char(shft('c', 'C', shift)),
                Key::V => self.insert_char(shft('v', 'V', shift)),
                Key::B => self.insert_char(shft('b', 'B', shift)),
                Key::N => self.insert_char(shft('n', 'N', shift)),
                Key::M => self.insert_char(shft('m', 'M', shift)),
                Key::Comma => self.insert_char(shft(',', '<', shift)),
                Key::Period => self.insert_char(shft('.', '>', shift)),
                Key::Slash => self.insert_char(shft('/', '?', shift)),
                Key::Space => self.insert_char(' '),
                Key::Return => self.accept_selection(),
                Key::Backspace => self.delete_char(),
                Key::Up => self.selection_up(),
                Key::Down => self.selection_down(),
                Key::Escape => self.deactivate(),
                _ => handled = false,
            }
        }
        handled
    }
}

/// The filtered list is a function of the candidates and the filter text
/// alone: two pickers that agree on both show the same filtered list, no
/// matter through which sequence of insertions and deletions each arrived
/// at its state.
pub proof fn lemma_filtered_determined(a: ItemPicker, b: ItemPicker)
    requires
        a.wf(),
        b.wf(),
        a.items@ == b.items@,
        a.filter_part@ == b.filter_part@,
    ensures
        a.filtered@ == b.filtered@,
{
}

/// Filtering is idempotent: filtering an already-filtered list with the
/// same filter text changes nothing.
pub proof fn lemma_filter_items_idempotent(items: Seq<Item>, part: Seq<char>)
    ensures
        filter_items(filter_items(items, part), part) == filter_items(items, part),
{
    lemma_filter_idempotent(items, |it: Item| item_matches(it, part));
}

/// Deleting the just-inserted filter character restores exactly the
/// filtered list the picker showed before the insertion.
pub proof fn lemma_delete_restores_filter(items: Seq<Item>, part: Seq<char>, c: char)
    ensures
        filter_items(items, part.push(c).drop_last()) == filter_items(items, part),
{
    assert(part.push(c).drop_last() =~= part);
}

/// The selection never leaves `[0, filtered.len() - 1]`: in every state the
/// picker's operations can reach, it is 0 when the filtered list is empty
/// and strictly inside the list otherwise.
pub proof fn lemma_selection_in_bounds(p: ItemPicker)
    requires
        p.wf(),
    ensures
        p.filtered@.len() == 0 ==> p.selected_line == 0,
        p.filtered@.len() > 0 ==> (p.selected_line as int) < p.filtered@.len(),
{
}

} // verus!
