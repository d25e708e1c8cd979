use vstd::prelude::*;

verus! {

/// One row of a context menu.
///
/// `H` is what runs when an entry is chosen (a callback, an action), and `K`
/// is the key binding shown beside its label. The menu never looks inside
/// either: it only stores them and reports which entry was chosen.
pub enum ContextMenuItem<H, K> {
    Separator,
    Header(String),
    Entry { label: String, handler: H, key_binding: Option<K> },
}

impl<H, K> ContextMenuItem<H, K> {
    /// Only entries can carry the selection cursor.
    pub open spec fn selectable(&self) -> bool {
        self is Entry
    }

    /// Whether this item can carry the selection cursor.
    pub fn is_selectable(&self) -> (r: bool)
        ensures
            r == self.selectable(),
    {
        matches!(self, ContextMenuItem::Entry { .. })
    }
}

/// There is a selectable item at some index in `lo..hi`.
pub open spec fn has_selectable_in<H, K>(items: Seq<ContextMenuItem<H, K>>, lo: int, hi: int) -> bool {
    exists|i: int| lo <= i < hi && #[trigger] items[i].selectable()
}

/// `i` is the lowest index in `lo..hi` of a selectable item.
pub open spec fn is_first_selectable_in<H, K>(
    items: Seq<ContextMenuItem<H, K>>,
    lo: int,
    hi: int,
    i: int,
) -> bool {
    &&& lo <= i < hi
    &&& items[i].selectable()
    &&& forall|j: int| lo <= j < i ==> !#[trigger] items[j].selectable()
}

/// `i` is the highest index in `lo..hi` of a selectable item.
pub open spec fn is_last_selectable_in<H, K>(
    items: Seq<ContextMenuItem<H, K>>,
    lo: int,
    hi: int,
    i: int,
) -> bool {
    &&& lo <= i < hi
    &&& items[i].selectable()
    &&& forall|j: int| i < j < hi ==> !#[trigger] items[j].selectable()
}

/// `sel` names the lowest index in `lo..hi` of a selectable item.
pub open spec fn selects_first_in<H, K>(
    items: Seq<ContextMenuItem<H, K>>,
    lo: int,
    hi: int,
    sel: Option<usize>,
) -> bool {
    sel matches Some(i) && is_first_selectable_in(items, lo, hi, i as int)
}

/// `sel` names the highest index in `lo..hi` of a selectable item.
pub open spec fn selects_last_in<H, K>(
    items: Seq<ContextMenuItem<H, K>>,
    lo: int,
    hi: int,
    sel: Option<usize>,
) -> bool {
    sel matches Some(i) && is_last_selectable_in(items, lo, hi, i as int)
}

/// `sel` is where selecting the first entry of `items` puts the cursor: on
/// the lowest-indexed entry, or nowhere when the menu has no entry.
pub open spec fn selects_first<H, K>(items: Seq<ContextMenuItem<H, K>>, sel: Option<usize>) -> bool {
    match sel {
        Some(i) => is_first_selectable_in(items, 0, items.len() as int, i as int),
        None => !has_selectable_in(items, 0, items.len() as int),
    }
}

/// What the host has to do once the menu has handled a confirm or a cancel.
#[derive(Debug, Clone, Copy, PartialEq, Eq, Structural)]
pub enum MenuAction {
    /// Close the menu.
    Dismiss,
    /// Run the handler of the entry at this index, then close the menu.
    InvokeAndDismiss(usize),
}

/// A menu: its items in display order, and the index of the selected entry.
///
/// The selection, when there is one, always names an entry of the menu.
pub struct ContextMenu<H, K> {
    items: Vec<ContextMenuItem<H, K>>,
    selected_index: Option<usize>,
}

impl<H, K> ContextMenu<H, K> {
    /// The items of the menu, in display order.
    pub closed spec fn items_view(&self) -> Seq<ContextMenuItem<H, K>> {
        self.items@
    }

    /// The index of the selected entry, if any.
    pub closed spec fn selection(&self) -> Option<usize> {
        self.selected_index
    }

    #[verifier::type_invariant]
    closed spec fn selection_on_entry(&self) -> bool {
        match self.selected_index {
            Some(i) => i < self.items@.len() && self.items@[i as int].selectable(),
            None => true,
        }
    }

    /// Starts from an empty menu with nothing selected and lets `f` fill it.
    pub fn build<F: FnOnce(Self) -> Self>(f: F) -> (r: Self)
        requires
            forall|m: Self| m.items_view().len() == 0 && m.selection() is None ==> f.requires((m,)),
        ensures
            exists|m: Self|
                m.items_view().len() == 0 && m.selection() is None && f.ensures((m,), r),
    {
        let m = ContextMenu { items: Vec::new(), selected_index: None };
        let ghost empty = m;
        assert(empty.items_view().len() == 0 && empty.selection() is None);
        let r = f(m);
        assert(f.ensures((empty,), r));
        r
    }

    fn push(self, item: ContextMenuItem<H, K>) -> (r: Self)
        ensures
            r.items_view() == self.items_view().push(item),
            r.selection() == self.selection(),
    {
        proof { use_type_invariant(&self); }
        let ContextMenu { mut items, selected_index } = self;
        items.push(item);
        ContextMenu { items, selected_index }
    }

    /// Appends a header with the given title.
    pub fn header(self, title: String) -> (r: Self)
        ensures
            r.items_view() == self.items_view().push(ContextMenuItem::Header(title)),
            r.selection() == self.selection(),
    {
        self.push(ContextMenuItem::Header(title))
    }

    /// Appends a separator.
    pub fn separator(self) -> (r: Self)
        ensures
            r.items_view() == self.items_view().push(ContextMenuItem::Separator),
            r.selection() == self.selection(),
    {
        self.push(ContextMenuItem::Separator)
    }

    /// Appends an entry that runs `on_click` when chosen and shows no key binding.
    pub fn entry(self, label: String, on_click: H) -> (r: Self)
        ensures
            r.items_view() == self.items_view().push(
                ContextMenuItem::Entry { label, handler: on_click, key_binding: None },
            ),
            r.selection() == self.selection(),
    {
        self.push(ContextMenuItem::Entry { label, handler: on_click, key_binding: None })
    }

    /// Appends an entry that dispatches `action` when chosen and shows the key
    /// binding found for that action, if one was found.
    pub fn action(self, label: String, action: H, key_binding: Option<K>) -> (r: Self)
        ensures
            r.items_view() == self.items_view().push(
                ContextMenuItem::Entry { label, handler: action, key_binding },
            ),
            r.selection() == self.selection(),
    {
        self.push(ContextMenuItem::Entry { label, handler: action, key_binding })
    }
}

impl<H, K> ContextMenu<H, K> {
    /// The items of the menu, in display order.
    pub fn items(&self) -> (r: &Vec<ContextMenuItem<H, K>>)
        ensures
            r@ == self.items_view(),
    {
        &self.items
    }

    /// The index of the selected entry, if any; it always names an entry.
    pub fn selected_index(&self) -> (r: Option<usize>)
        ensures
            r == self.selection(),
            r matches Some(i) ==> i < self.items_view().len() && self.items_view()[i as int].selectable(),
    {
        proof { use_type_invariant(self); }
        self.selected_index
    }

    /// The lowest index at or after `lo` of an entry, if there is one.
    fn first_selectable_from(&self, lo: usize) -> (r: Option<usize>)
        requires
            lo <= self.items_view().len(),
        ensures
            match r {
                Some(i) => is_first_selectable_in(self.items_view(), lo as int, self.items_view().len() as int, i as int),
                None => !has_selectable_in(self.items_view(), lo as int, self.items_view().len() as int),
            },
    {
        let mut ix: usize = lo;
        while ix < self.items.len()
            invariant
                lo <= ix <= self.items@.len(),
                forall|j: int| lo <= j < ix ==> !#[trigger] self.items@[j].selectable(),
            decreases self.items@.len() - ix,
        {
            if self.items[ix].is_selectable() {
                return Some(ix);
            }
            ix = ix + 1;
        }
        None
    }

    /// The highest index before `hi` of an entry, if there is one.
    fn last_selectable_before(&self, hi: usize) -> (r: Option<usize>)
        requires
            hi <= self.items_view().len(),
        ensures
            match r {
                Some(i) => is_last_selectable_in(self.items_view(), 0, hi as int, i as int),
                None => !has_selectable_in(self.items_view(), 0, hi as int),
            },
    {
        let mut ix: usize = hi;
        while ix > 0
            invariant
                ix <= hi <= self.items@.len(),
                forall|j: int| ix <= j < hi ==> !#[trigger] self.items@[j].selectable(),
            decreases ix,
        {
            if self.items[ix - 1].is_selectable() {
                return Some(ix - 1);
            }
            ix = ix - 1;
        }
        None
    }

    /// Moves the selection to the first entry, or clears it when there is
    /// none. Always asks for a redraw, so returns `true`.
    pub fn select_first(&mut self) -> (notify: bool)
        ensures
            final(self).items_view() == old(self).items_view(),
            selects_first(old(self).items_view(), final(self).selection()),
            notify,
    {
        let first = self.first_selectable_from(0);
        self.selected_index = first;
        true
    }

    /// Moves the selection to the last entry, if the menu has one, and then
    /// returns `true`; otherwise leaves the menu as it was and returns `false`.
    pub fn select_last(&mut self) -> (notify: bool)
        ensures
            final(self).items_view() == old(self).items_view(),
            notify == has_selectable_in(old(self).items_view(), 0, old(self).items_view().len() as int),
            notify ==> selects_last_in(
                old(self).items_view(),
                0,
                old(self).items_view().len() as int,
                final(self).selection(),
            ),
            !notify ==> final(self).selection() == old(self).selection(),
    {
        let len = self.items.len();
        match self.last_selectable_before(len) {
            Some(ix) => {
                self.selected_index = Some(ix);
                true
            },
            None => false,
        }
    }

    /// Moves the selection to the nearest entry after it, if there is one,
    /// and returns whether it moved. With nothing selected, selects the first
    /// entry as `select_first` does. The selection does not wrap around.
    pub fn select_next(&mut self) -> (notify: bool)
        ensures
            final(self).items_view() == old(self).items_view(),
            match old(self).selection() {
                None => notify && selects_first(old(self).items_view(), final(self).selection()),
                Some(ix) => {
                    &&& notify == has_selectable_in(
                        old(self).items_view(),
                        ix + 1,
                        old(self).items_view().len() as int,
                    )
                    &&& notify ==> selects_first_in(
                        old(self).items_view(),
                        ix + 1,
                        old(self).items_view().len() as int,
                        final(self).selection(),
                    )
                    &&& !notify ==> final(self).selection() == old(self).selection()
                },
            },
    {
        proof { use_type_invariant(&*self); }
        // the selection lies below the length, so the index after it fits
        let _len = self.items.len();
        match self.selected_index {
            Some(ix) => match self.first_selectable_from(ix + 1) {
                Some(next) => {
                    self.selected_index = Some(next);
                    true
                },
                None => false,
            },
            None => self.select_first(),
        }
    }

    /// Moves the selection to the nearest entry before it, if there is one,
    /// and returns whether it moved. With nothing selected, selects the last
    /// entry as `select_last` does. The selection does not wrap around.
    pub fn select_prev(&mut self) -> (notify: bool)
        ensures
            final(self).items_view() == old(self).items_view(),
            match old(self).selection() {
                None => {
                    &&& notify == has_selectable_in(
                        old(self).items_view(),
                        0,
                        old(self).items_view().len() as int,
                    )
                    &&& notify ==> selects_last_in(
                        old(self).items_view(),
                        0,
                        old(self).items_view().len() as int,
                        final(self).selection(),
                    )
                    &&& !notify ==> final(self).selection() is None
                },
                Some(ix) => {
                    &&& notify == has_selectable_in(old(self).items_view(), 0, ix as int)
                    &&& notify ==> selects_last_in(
                        old(self).items_view(),
                        0,
                        ix as int,
                        final(self).selection(),
                    )
                    &&& !notify ==> final(self).selection() == old(self).selection()
                },
            },
    {
        proof { use_type_invariant(&*self); }
        match self.selected_index {
            Some(ix) => match self.last_selectable_before(ix) {
                Some(prev) => {
                    self.selected_index = Some(prev);
                    true
                },
                None => false,
            },
            None => self.select_last(),
        }
    }

    /// Confirms the selection: the selected entry, if any, is to be run, and
    /// the menu closed either way.
    pub fn confirm(&self) -> (r: MenuAction)
        ensures
            r == (match self.selection() {
                Some(i) => MenuAction::InvokeAndDismiss(i),
                None => MenuAction::Dismiss,
            }),
    {
        proof { use_type_invariant(self); }
        match self.selected_index {
            Some(ix) => match self.items.get(ix) {
                Some(ContextMenuItem::Entry { .. }) => MenuAction::InvokeAndDismiss(ix),
                _ => MenuAction::Dismiss,
            },
            None => MenuAction::Dismiss,
        }
    }

    /// Cancels the menu: it is to be closed and nothing run.
    pub fn cancel(&self) -> (r: MenuAction)
        ensures
            r == MenuAction::Dismiss,
    {
        MenuAction::Dismiss
    }
}

} // verus!
