//! A viewport over an ordered list of items: selection, scroll offset and
//! per-item marks, with the selection always kept visible.
use vstd::prelude::*;
use crate::keys::{Key, MouseKind};

verus! {

/// A scrolling, selectable window over a list.
pub struct ScrollWindow<T> {
    pub items: Vec<T>,
    /// Per-item marks for multi-select, one per item.
    pub selected_items: Vec<bool>,
    pub selected: Option<usize>,
    pub offset: usize,
    /// Rows visible at once; at least one.
    pub viewport_size: usize,
}

/// The offset that keeps `sel` visible, moving as little as possible from
/// `offset` once it is clamped to the last full page.
pub open spec fn adjusted_offset(offset: usize, sel: usize, len: usize, vp: usize) -> usize {
    let max_offset = if len >= vp {
        (len - vp) as usize
    } else {
        0usize
    };
    let o = if offset <= max_offset {
        offset
    } else {
        max_offset
    };
    if sel < o {
        sel
    } else if sel >= o + vp {
        (sel + 1 - vp) as usize
    } else {
        o
    }
}

/// The selection and window invariant: marks match the items, a non-empty
/// list has a selection in bounds that lies inside the window, and the window
/// does not run past the end of a list longer than it.
pub open spec fn window_ok(len: int, sel: Option<usize>, offset: int, vp: int) -> bool {
    &&& vp >= 1
    &&& len == 0 ==> sel is None && offset == 0
    &&& len > 0 ==> match sel {
        Some(s) => {
            &&& s < len
            &&& offset <= s < offset + vp
            &&& offset + vp <= if len > vp {
                len
            } else {
                vp
            }
        },
        None => false,
    }
}

impl<T> ScrollWindow<T> {
    pub open spec fn wf(&self) -> bool {
        &&& self.selected_items@.len() == self.items@.len()
        &&& window_ok(
            self.items@.len() as int,
            self.selected,
            self.offset as int,
            self.viewport_size as int,
        )
    }

    /// The state after selecting `sel` and re-adjusting the offset.
    pub open spec fn moved_to(&self, old: &Self, sel: usize) -> bool {
        &&& self.items@ == old.items@
        &&& self.selected_items@ == old.selected_items@
        &&& self.viewport_size == old.viewport_size
        &&& self.selected == Some(sel)
        &&& self.offset == adjusted_offset(
            old.offset,
            sel,
            old.items@.len() as usize,
            old.viewport_size,
        )
    }

    /// The state after moving the selection to `sel`, or unchanged when the
    /// list is empty.
    pub open spec fn moved_or_kept(&self, old: &Self, sel: usize) -> bool {
        if old.items@.len() == 0 {
            *self == *old
        } else {
            self.moved_to(old, sel)
        }
    }

    /// The state after toggling the selected item's mark.
    pub open spec fn toggled(&self, old: &Self) -> bool {
        &&& self.items@ == old.items@
        &&& self.selected == old.selected
        &&& self.offset == old.offset
        &&& self.viewport_size == old.viewport_size
        &&& self.selected_items@ == match old.selected {
            Some(i) => old.selected_items@.update(i as int, !old.selected_items@[i as int]),
            None => old.selected_items@,
        }
    }

    /// The state after a navigation key: Up and Down move by one, wrapping;
    /// PageUp and PageDown move by a page without wrapping; Home and End jump
    /// to the ends; space toggles the selected item's mark. Any other key is
    /// not handled and changes nothing.
    pub open spec fn after_key(&self, old: &Self, key: Key, r: bool) -> bool {
        let len = old.items@.len();
        let s = old.selected->0;
        let vp = old.viewport_size;
        match key {
            Key::Up => r && self.moved_or_kept(
                old,
                if s == 0 {
                    (len - 1) as usize
                } else {
                    (s - 1) as usize
                },
            ),
            Key::Down => r && self.moved_or_kept(old, ((s + 1) % (len as int)) as usize),
            Key::PageDown => r && self.moved_or_kept(
                old,
                if s + vp < len {
                    (s + vp) as usize
                } else {
                    (len - 1) as usize
                },
            ),
            Key::PageUp => r && self.moved_or_kept(
                old,
                if s >= vp {
                    (s - vp) as usize
                } else {
                    0usize
                },
            ),
            Key::Home => r && self.moved_or_kept(old, 0),
            Key::End => r && self.moved_or_kept(old, (len - 1) as usize),
            Key::Char(' ') => r && self.toggled(old),
            _ => !r && *self == *old,
        }
    }

    /// The state after a mouse event: the wheel moves the selection by one
    /// without wrapping; other events change nothing.
    pub open spec fn after_mouse(&self, old: &Self, kind: MouseKind, r: bool) -> bool {
        let len = old.items@.len();
        let s = old.selected->0;
        match kind {
            MouseKind::ScrollUp => r && self.moved_or_kept(
                old,
                if s == 0 {
                    0usize
                } else {
                    (s - 1) as usize
                },
            ),
            MouseKind::ScrollDown => r && self.moved_or_kept(
                old,
                if s + 1 < len {
                    (s + 1) as usize
                } else {
                    (len - 1) as usize
                },
            ),
            MouseKind::Other => !r && *self == *old,
        }
    }

    /// A window over `items`, the first selected when there is one.
    pub fn new(items: Vec<T>) -> (r: Self)
        ensures
            r.wf(),
            r.items@ == items@,
            r.selected_items@ == Seq::new(items@.len(), |_i: int| false),
            r.selected == (if items@.len() > 0 {
                Some(0usize)
            } else {
                None
            }),
            r.offset == 0,
            r.viewport_size == 1,
    {
        let n = items.len();
        let marks = all_false(n);
        let selected = if n > 0 {
            Some(0)
        } else {
            None
        };
        ScrollWindow { items, selected_items: marks, selected, offset: 0, viewport_size: 1 }
    }

    fn select(&mut self, sel: usize)
        requires
            old(self).selected_items@.len() == old(self).items@.len(),
            old(self).viewport_size >= 1,
            sel < old(self).items@.len(),
        ensures
            final(self).wf(),
            final(self).moved_to(old(self), sel),
    {
        let len = self.items.len();
        let vp = self.viewport_size;
        let max_offset = if len >= vp {
            len - vp
        } else {
            0
        };
        let o = if self.offset <= max_offset {
            self.offset
        } else {
            max_offset
        };
        self.selected = Some(sel);
        self.offset = if sel < o {
            sel
        } else if sel >= o + vp {
            sel + 1 - vp
        } else {
            o
        };
    }

    /// Selects the next item, wrapping from the last to the first.
    pub fn next(&mut self)
        requires
            old(self).wf(),
        ensures
            final(self).wf(),
            old(self).items@.len() == 0 ==> *final(self) == *old(self),
            old(self).items@.len() > 0 ==> final(self).moved_to(
                old(self),
                ((old(self).selected->0 + 1) % (old(self).items@.len() as int)) as usize,
            ),
    {
        if self.items.len() == 0 {
            return;
        }
        let i = match self.selected {
            Some(i) => (i + 1) % self.items.len(),
            None => 0,
        };
        self.select(i);
    }

    /// Selects the previous item, wrapping from the first to the last.
    pub fn previous(&mut self)
        requires
            old(self).wf(),
        ensures
            final(self).wf(),
            old(self).items@.len() == 0 ==> *final(self) == *old(self),
            old(self).items@.len() > 0 ==> final(self).moved_to(
                old(self),
                if old(self).selected->0 == 0 {
                    (old(self).items@.len() - 1) as usize
                } else {
                    (old(self).selected->0 - 1) as usize
                },
            ),
    {
        if self.items.len() == 0 {
            return;
        }
        let i = match self.selected {
            Some(i) => if i == 0 {
                self.items.len() - 1
            } else {
                i - 1
            },
            None => 0,
        };
        self.select(i);
    }

    /// Moves the selection down by a page, stopping at the last item.
    pub fn page_down(&mut self)
        requires
            old(self).wf(),
        ensures
            final(self).wf(),
            old(self).items@.len() == 0 ==> *final(self) == *old(self),
            old(self).items@.len() > 0 ==> final(self).moved_to(
                old(self),
                if old(self).selected->0 + old(self).viewport_size < old(self).items@.len() {
                    (old(self).selected->0 + old(self).viewport_size) as usize
                } else {
                    (old(self).items@.len() - 1) as usize
                },
            ),
    {
        if self.items.len() == 0 {
            return;
        }
        let current = match self.selected {
            Some(i) => i,
            None => 0,
        };
        let last = self.items.len() - 1;
        let i = if self.viewport_size < self.items.len() - current {
            current + self.viewport_size
        } else {
            last
        };
        self.select(i);
    }

    /// Moves the selection up by a page, stopping at the first item.
    pub fn page_up(&mut self)
        requires
            old(self).wf(),
        ensures
            final(self).wf(),
            old(self).items@.len() == 0 ==> *final(self) == *old(self),
            old(self).items@.len() > 0 ==> final(self).moved_to(
                old(self),
                if old(self).selected->0 >= old(self).viewport_size {
                    (old(self).selected->0 - old(self).viewport_size) as usize
                } else {
                    0usize
                },
            ),
    {
        if self.items.len() == 0 {
            return;
        }
        let current = match self.selected {
            Some(i) => i,
            None => 0,
        };
        let i = if current >= self.viewport_size {
            current - self.viewport_size
        } else {
            0
        };
        self.select(i);
    }

    /// Selects the first item.
    pub fn go_home(&mut self)
        requires
            old(self).wf(),
        ensures
            final(self).wf(),
            old(self).items@.len() == 0 ==> *final(self) == *old(self),
            old(self).items@.len() > 0 ==> final(self).moved_to(old(self), 0),
    {
        if self.items.len() == 0 {
            return;
        }
        self.select(0);
    }

    /// Selects the last item.
    pub fn go_end(&mut self)
        requires
            old(self).wf(),
        ensures
            final(self).wf(),
            old(self).items@.len() == 0 ==> *final(self) == *old(self),
            old(self).items@.len() > 0 ==> final(self).moved_to(
                old(self),
                (old(self).items@.len() - 1) as usize,
            ),
    {
        if self.items.len() == 0 {
            return;
        }
        let last = self.items.len() - 1;
        self.select(last);
    }

    /// Moves the selection up by one, stopping at the first item.
    pub fn scroll_up(&mut self)
        requires
            old(self).wf(),
        ensures
            final(self).wf(),
            old(self).items@.len() == 0 ==> *final(self) == *old(self),
            old(self).items@.len() > 0 ==> final(self).moved_to(
                old(self),
                if old(self).selected->0 == 0 {
                    0usize
                } else {
                    (old(self).selected->0 - 1) as usize
                },
            ),
    {
        if self.items.len() == 0 {
            return;
        }
        let current = match self.selected {
            Some(i) => i,
            None => 0,
        };
        let i = if current == 0 {
            0
        } else {
            current - 1
        };
        self.select(i);
    }

    /// Moves the selection down by one, stopping at the last item.
    pub fn scroll_down(&mut self)
        requires
            old(self).wf(),
        ensures
            final(self).wf(),
            old(self).items@.len() == 0 ==> *final(self) == *old(self),
            old(self).items@.len() > 0 ==> final(self).moved_to(
                old(self),
                if old(self).selected->0 + 1 < old(self).items@.len() {
                    (old(self).selected->0 + 1) as usize
                } else {
                    (old(self).items@.len() - 1) as usize
                },
            ),
    {
        if self.items.len() == 0 {
            return;
        }
        let current = match self.selected {
            Some(i) => i,
            None => 0,
        };
        let last = self.items.len() - 1;
        let i = if current < last {
            current + 1
        } else {
            last
        };
        self.select(i);
    }

    /// Flips the mark of the selected item.
    pub fn toggle_selected(&mut self)
        requires
            old(self).wf(),
        ensures
            final(self).wf(),
            final(self).items@ == old(self).items@,
            final(self).selected == old(self).selected,
            final(self).offset == old(self).offset,
            final(self).viewport_size == old(self).viewport_size,
            final(self).selected_items@ == match old(self).selected {
                Some(i) => old(self).selected_items@.update(i as int, !old(self).selected_items@[i as int]),
                None => old(self).selected_items@,
            },
    {
        match self.selected {
            Some(i) => {
                if i < self.selected_items.len() {
                    let m = self.selected_items[i];
                    self.selected_items.set(i, !m);
                }
            },
            None => {},
        }
    }

    /// Flips the mark of item `index`, leaving the selection alone.
    pub fn toggle_mark(&mut self, index: usize)
        requires
            old(self).wf(),
        ensures
            final(self).wf(),
            final(self).items@ == old(self).items@,
            final(self).selected == old(self).selected,
            final(self).offset == old(self).offset,
            final(self).viewport_size == old(self).viewport_size,
            final(self).selected_items@ == if index < old(self).items@.len() {
                old(self).selected_items@.update(index as int, !old(self).selected_items@[index as int])
            } else {
                old(self).selected_items@
            },
    {
        if index < self.selected_items.len() {
            let m = self.selected_items[index];
            self.selected_items.set(index, !m);
        }
    }

    /// The selected item, if any.
    pub fn get_selected(&self) -> (r: Option<&T>)
        requires
            self.wf(),
        ensures
            match self.selected {
                Some(i) => r == Some(&self.items@[i as int]),
                None => r is None,
            },
    {
        match self.selected {
            Some(i) => Some(&self.items[i]),
            None => None,
        }
    }

    /// Indices of the marked items, in order.
    pub fn selected_indices(&self) -> (r: Vec<usize>)
        requires
            self.wf(),
        ensures
            r@.map_values(|x: usize| x as int) == self.selected_indices_spec(),
    {
        let mut out: Vec<usize> = Vec::new();
        let mut i: usize = 0;
        while i < self.selected_items.len()
            invariant
                i <= self.selected_items@.len(),
                out@.map_values(|x: usize| x as int) == marked_upto(self.selected_items@, i as int),
            decreases self.selected_items@.len() - i,
        {
            if self.selected_items[i] {
                out.push(i);
            }
            assert(out@.map_values(|x: usize| x as int) =~= marked_upto(self.selected_items@, i + 1));
            i = i + 1;
        }
        out
    }

    /// The marked items, in order.
    pub fn get_selected_items(&self) -> (r: Vec<&T>)
        requires
            self.wf(),
        ensures
            r@.len() == self.selected_indices_spec().len(),
            forall|k: int|
                0 <= k < r@.len() ==> r@[k] == &self.items@[self.selected_indices_spec()[k]],
    {
        let mut out: Vec<&T> = Vec::new();
        let mut i: usize = 0;
        while i < self.selected_items.len()
            invariant
                self.wf(),
                i <= self.selected_items@.len(),
                out@.len() == marked_upto(self.selected_items@, i as int).len(),
                forall|k: int|
                    0 <= k < out@.len() ==> out@[k] == &self.items@[marked_upto(
                        self.selected_items@,
                        i as int,
                    )[k]],
            decreases self.selected_items@.len() - i,
        {
            if self.selected_items[i] {
                out.push(&self.items[i]);
            }
            assert(marked_upto(self.selected_items@, i + 1).len() == out@.len());
            i = i + 1;
        }
        out
    }

    /// Indices of the marked items, in order.
    pub open spec fn selected_indices_spec(&self) -> Seq<int> {
        marked_upto(self.selected_items@, self.selected_items@.len() as int)
    }

    /// Replaces the items wholesale: marks are cleared, the selection index is
    /// kept where it still fits and clamped to the last item otherwise.
    pub fn update_items(&mut self, new_items: Vec<T>)
        requires
            old(self).wf(),
        ensures
            final(self).wf(),
            final(self).items@ == new_items@,
            final(self).selected_items@ == Seq::new(new_items@.len(), |_i: int| false),
            final(self).viewport_size == old(self).viewport_size,
            new_items@.len() == 0 ==> final(self).selected is None && final(self).offset == 0,
            new_items@.len() > 0 ==> {
                let sel = match old(self).selected {
                    Some(s) => if s < new_items@.len() {
                        s
                    } else {
                        (new_items@.len() - 1) as usize
                    },
                    None => 0usize,
                };
                &&& final(self).selected == Some(sel)
                &&& final(self).offset == adjusted_offset(
                    old(self).offset,
                    sel,
                    new_items@.len() as usize,
                    old(self).viewport_size,
                )
            },
    {
        let current = self.selected;
        let n = new_items.len();
        self.items = new_items;
        self.selected_items = all_false(n);
        if n == 0 {
            self.selected = None;
            self.offset = 0;
            return;
        }
        let sel = match current {
            Some(s) => if s < n {
                s
            } else {
                n - 1
            },
            None => 0,
        };
        let vp = self.viewport_size;
        let max_offset = if n >= vp {
            n - vp
        } else {
            0
        };
        let o = if self.offset <= max_offset {
            self.offset
        } else {
            max_offset
        };
        self.selected = Some(sel);
        self.offset = if sel < o {
            sel
        } else if sel >= o + vp {
            sel + 1 - vp
        } else {
            o
        };
    }

    /// Sets how many rows are visible (at least one) and moves the window as
    /// little as needed to keep the selection visible.
    pub fn set_viewport_size(&mut self, n: usize)
        requires
            old(self).wf(),
        ensures
            final(self).wf(),
            final(self).viewport_size == if n == 0 {
                1
            } else {
                n
            },
            final(self).items@ == old(self).items@,
            final(self).selected_items@ == old(self).selected_items@,
            final(self).selected == old(self).selected,
            old(self).items@.len() == 0 ==> final(self).offset == 0,
            old(self).items@.len() > 0 ==> final(self).offset == adjusted_offset(
                old(self).offset,
                old(self).selected->0,
                old(self).items@.len() as usize,
                final(self).viewport_size,
            ),
    {
        self.viewport_size = if n == 0 {
            1
        } else {
            n
        };
        if self.items.len() > 0 {
            let s = match self.selected {
                Some(s) => s,
                None => 0,
            };
            self.select(s);
        }
    }

    /// Applies a navigation key; whether the key was handled.
    pub fn handle_key(&mut self, key: Key) -> (r: bool)
        requires
            old(self).wf(),
        ensures
            final(self).wf(),
            final(self).after_key(old(self), key, r),
    {
        match key {
            Key::Up => {
                self.previous();
                true
            },
            Key::Down => {
                self.next();
                true
            },
            Key::PageDown => {
                self.page_down();
                true
            },
            Key::PageUp => {
                self.page_up();
                true
            },
            Key::Home => {
                self.go_home();
                true
            },
            Key::End => {
                self.go_end();
                true
            },
            Key::Char(' ') => {
                self.toggle_selected();
                true
            },
            _ => false,
        }
    }

    /// Applies a mouse scroll; whether the event was handled.
    pub fn handle_mouse(&mut self, kind: MouseKind) -> (r: bool)
        requires
            old(self).wf(),
        ensures
            final(self).wf(),
            final(self).after_mouse(old(self), kind, r),
    {
        match kind {
            MouseKind::ScrollUp => {
                self.scroll_up();
                true
            },
            MouseKind::ScrollDown => {
                self.scroll_down();
                true
            },
            MouseKind::Other => false,
        }
    }
}

/// Indices below `k` whose mark is set, in order.
pub open spec fn marked_upto(marks: Seq<bool>, k: int) -> Seq<int>
    decreases k,
{
    if k <= 0 {
        Seq::empty()
    } else if marks[k - 1] {
        marked_upto(marks, k - 1).push(k - 1)
    } else {
        marked_upto(marks, k - 1)
    }
}

/// `n` cleared marks.
pub fn all_false(n: usize) -> (r: Vec<bool>)
    ensures
        r@ == Seq::new(n as nat, |_i: int| false),
{
    let mut v: Vec<bool> = Vec::new();
    let mut i: usize = 0;
    while i < n
        invariant
            i <= n,
            v@ == Seq::new(i as nat, |_i: int| false),
        decreases n - i,
    {
        v.push(false);
        assert(v@ =~= Seq::new((i + 1) as nat, |_i: int| false));
        i = i + 1;
    }
    v
}

/// After any operation, a non-empty window shows its selection and does not
/// run past the end of a list longer than it.
pub proof fn lemma_selection_visible<T>(w: ScrollWindow<T>)
    requires
        w.wf(),
    ensures
        w.items@.len() > 0 ==> {
            let s = w.selected->0;
            let len = w.items@.len() as int;
            let vp = w.viewport_size as int;
            &&& w.selected is Some
            &&& s < len
            &&& w.offset <= s < w.offset + vp
            &&& w.offset + vp <= if len > vp {
                len
            } else {
                vp
            }
        },
{
}

} // verus!
