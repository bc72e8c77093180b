//! The shared canvas of a spatial window manager: regions and windows by
//! id, and the stacking order of the windows. Positions, sizes and
//! rectangles are carried as they are given; what is computed from them
//! (in floating point) is not part of this module.
use vstd::prelude::*;
use std::collections::HashMap;
use vstd::std_specs::iter::IteratorSpec;

verus! {

broadcast use vstd::std_specs::hash::group_hash_axioms;

/// A named region of the canvas.
pub struct VisualRegion<R> {
    pub id: u64,
    pub name: String,
    pub rect: R,
    pub z_index: i32,
}

/// A window on the canvas: its position and size, and the region it was
/// placed in.
pub struct WindowEntry<P, Z> {
    pub id: u64,
    pub position: P,
    pub size: Z,
    pub region_id: Option<u64>,
}

/// Regions and windows by id, with the windows' stacking order (first at
/// the bottom, last on top).
pub struct GlobalSpace<R, P, Z> {
    regions: HashMap<u64, VisualRegion<R>>,
    next_region_id: u64,
    windows: HashMap<u64, WindowEntry<P, Z>>,
    next_window_id: u64,
    window_order: Vec<u64>,
}

/// The ids of `order` other than `id`, in order.
pub open spec fn without(order: Seq<u64>, id: u64) -> Seq<u64>
    decreases order.len(),
{
    if order.len() == 0 {
        order
    } else {
        let rest = without(order.drop_last(), id);
        if order.last() != id { rest.push(order.last()) } else { rest }
    }
}

/// What a sequence holds after a push.
proof fn lemma_push_contains(s: Seq<u64>, x: u64, k: u64)
    ensures
        s.push(x).contains(k) <==> (s.contains(k) || x == k),
{
    if s.push(x).contains(k) {
        let j = choose|j: int| 0 <= j < s.push(x).len() && s.push(x)[j] == k;
        if j < s.len() {
            assert(s[j] == k);
        }
    }
    if s.contains(k) {
        let j = choose|j: int| 0 <= j < s.len() && s[j] == k;
        assert(s.push(x)[j] == k);
    }
    if x == k {
        assert(s.push(x)[s.len() as int] == k);
    }
}

/// Removing `id` keeps every other id and leaves none of `id`.
pub proof fn lemma_without_contains(order: Seq<u64>, id: u64, k: u64)
    ensures
        without(order, id).contains(k) <==> (order.contains(k) && k != id),
    decreases order.len(),
{
    if order.len() > 0 {
        let d = order.drop_last();
        let l = order.last();
        lemma_without_contains(d, id, k);
        assert(order =~= d.push(l));
        lemma_push_contains(d, l, k);
        lemma_push_contains(without(d, id), l, k);
    }
}

/// The windows of `order` that exist, bottom to top.
pub open spec fn stacked<P, Z>(order: Seq<u64>, windows: Map<u64, WindowEntry<P, Z>>) -> Seq<WindowEntry<P, Z>>
    decreases order.len(),
{
    if order.len() == 0 {
        Seq::empty()
    } else {
        let rest = stacked(order.drop_last(), windows);
        if windows.contains_key(order.last()) { rest.push(windows[order.last()]) } else { rest }
    }
}

impl<R, P, Z> GlobalSpace<R, P, Z> {
    /// The regions by id.
    pub closed spec fn regions_map(&self) -> Map<u64, VisualRegion<R>> {
        self.regions@
    }

    /// The windows by id.
    pub closed spec fn windows_map(&self) -> Map<u64, WindowEntry<P, Z>> {
        self.windows@
    }

    /// The stacking order of window ids, bottom first.
    pub closed spec fn order(&self) -> Seq<u64> {
        self.window_order@
    }

    /// The id the next region gets.
    pub closed spec fn next_region(&self) -> u64 {
        self.next_region_id
    }

    /// The id the next window gets.
    pub closed spec fn next_window(&self) -> u64 {
        self.next_window_id
    }

    /// Every region and window is stored under its own id, below the next
    /// id to be given out, and every window is in the stacking order.
    pub open spec fn wf(&self) -> bool {
        &&& forall|k: u64| #[trigger] self.regions_map().contains_key(k) ==> self.regions_map()[k].id == k && k < self.next_region()
        &&& forall|k: u64| #[trigger] self.windows_map().contains_key(k) ==> self.windows_map()[k].id == k && k < self.next_window()
        &&& forall|k: u64| #[trigger] self.windows_map().contains_key(k) ==> self.order().contains(k)
        &&& self.next_region() >= 1
        &&& self.next_window() >= 1
    }

    /// An empty canvas; ids start at 1.
    pub fn new() -> (s: Self)
        ensures
            s.wf(),
            s.regions_map() == Map::<u64, VisualRegion<R>>::empty(),
            s.windows_map() == Map::<u64, WindowEntry<P, Z>>::empty(),
            s.order() == Seq::<u64>::empty(),
            s.next_region() == 1,
            s.next_window() == 1,
    {
        GlobalSpace {
            regions: HashMap::new(),
            next_region_id: 1,
            windows: HashMap::new(),
            next_window_id: 1,
            window_order: Vec::new(),
        }
    }

    /// Adds a region at stacking level 0 under the next region id, which
    /// it returns.
    pub fn add_region(&mut self, name: String, rect: R) -> (id: u64)
        requires
            old(self).wf(),
            old(self).next_region() < u64::MAX,
        ensures
            final(self).wf(),
            id == old(self).next_region(),
            final(self).next_region() == id + 1,
            final(self).regions_map() == old(self).regions_map().insert(
                id,
                VisualRegion { id, name, rect, z_index: 0 },
            ),
            final(self).windows_map() == old(self).windows_map(),
            final(self).order() == old(self).order(),
            final(self).next_window() == old(self).next_window(),
    {
        let id = self.next_region_id;
        self.next_region_id = self.next_region_id + 1;
        self.regions.insert(id, VisualRegion { id, name, rect, z_index: 0 });
        proof {
            assert forall|k: u64| #[trigger] self.regions@.contains_key(k) implies self.regions@[k].id == k && k
                < self.next_region_id by {
                if k != id {
                    assert(old(self).regions_map().contains_key(k));
                }
            }
        }
        id
    }

    /// The region with id `id`.
    pub fn region(&self, id: u64) -> (r: Option<&VisualRegion<R>>)
        ensures
            match r {
                Some(v) => self.regions_map().contains_key(id) && *v == self.regions_map()[id],
                None => !self.regions_map().contains_key(id),
            },
    {
        self.regions.get(&id)
    }

    /// All regions, in the order the map yields them.
    pub fn regions(&self) -> (r: Vec<&VisualRegion<R>>)
        ensures
            r@.len() == self.regions_map().dom().len(),
            r@.map_values(|v: &VisualRegion<R>| *v).to_set() == self.regions_map().values(),
    {
        let ghost vals = vstd::std_specs::hash::spec_values_iter(&self.regions).remaining();
        let mut out: Vec<&VisualRegion<R>> = Vec::new();
        for v in it: self.regions.values()
            invariant
                it.seq() == vals,
                out@.len() == it.index(),
                forall|i: int| 0 <= i < out@.len() ==> out@[i] == it.seq()[i],
        {
            out.push(v);
        }
        proof {
            assert(out@ =~= vals);
            assert(out@.map_values(|v: &VisualRegion<R>| *v) =~= vals.unref());
        }
        out
    }

    /// Some region, when there is one (the first the map yields).
    pub fn first_region(&self) -> (r: Option<&VisualRegion<R>>)
        ensures
            r is None <==> self.regions_map().dom().len() == 0,
            r matches Some(v) ==> self.regions_map().values().contains(*v),
    {
        let rs = self.regions();
        if rs.len() > 0 {
            let v = rs[0];
            proof {
                let vs = rs@.map_values(|v: &VisualRegion<R>| *v);
                assert(vs[0] == *v);
                assert(vs.to_set().contains(*v));
            }
            Some(v)
        } else {
            None
        }
    }

    /// Adds a window under the next window id, which it returns, on top
    /// of the stacking order.
    pub fn add_window(&mut self, position: P, size: Z, region_id: Option<u64>) -> (id: u64)
        requires
            old(self).wf(),
            old(self).next_window() < u64::MAX,
        ensures
            final(self).wf(),
            id == old(self).next_window(),
            final(self).next_window() == id + 1,
            final(self).windows_map() == old(self).windows_map().insert(
                id,
                WindowEntry { id, position, size, region_id },
            ),
            final(self).order() == old(self).order().push(id),
            final(self).regions_map() == old(self).regions_map(),
            final(self).next_region() == old(self).next_region(),
    {
        let id = self.next_window_id;
        self.next_window_id = self.next_window_id + 1;
        self.windows.insert(id, WindowEntry { id, position, size, region_id });
        self.window_order.push(id);
        proof {
            assert forall|k: u64| #[trigger] self.regions@.contains_key(k) implies self.regions@[k].id == k && k
                < self.next_region_id by {
                assert(old(self).regions_map().contains_key(k));
            }
            assert forall|k: u64| #[trigger] self.windows@.contains_key(k) implies self.windows@[k].id == k && k
                < self.next_window_id by {
                if k != id {
                    assert(old(self).windows_map().contains_key(k));
                }
            }
            assert forall|k: u64| #[trigger] self.windows@.contains_key(k) implies self.window_order@.contains(k) by {
                if k != id {
                    assert(old(self).windows_map().contains_key(k));
                    assert(old(self).order().contains(k));
                    let j = choose|j: int| 0 <= j < old(self).window_order@.len() && old(self).window_order@[j] == k;
                    assert(self.window_order@[j] == k);
                } else {
                    assert(self.window_order@[self.window_order@.len() - 1] == k);
                }
            }
        }
        id
    }

    /// Removes the window `id` from the canvas and the stacking order;
    /// whether there was one.
    pub fn remove_window(&mut self, id: u64) -> (removed: bool)
        requires
            old(self).wf(),
        ensures
            final(self).wf(),
            removed == old(self).windows_map().contains_key(id),
            final(self).windows_map() == old(self).windows_map().remove(id),
            final(self).order() == without(old(self).order(), id),
            final(self).regions_map() == old(self).regions_map(),
            final(self).next_window() == old(self).next_window(),
            final(self).next_region() == old(self).next_region(),
    {
        let order = without_id(&self.window_order, id);
        self.window_order = order;
        let removed = self.windows.remove(&id).is_some();
        proof {
            assert forall|k: u64| #[trigger] self.regions@.contains_key(k) implies self.regions@[k].id == k && k
                < self.next_region_id by {
                assert(old(self).regions_map().contains_key(k));
            }
            assert forall|k: u64| #[trigger] self.windows@.contains_key(k) implies self.windows@[k].id == k && k
                < self.next_window_id && self.window_order@.contains(k) by {
                assert(old(self).windows_map().contains_key(k));
                assert(old(self).order().contains(k));
                lemma_without_contains(old(self).window_order@, id, k);
            }
        }
        removed
    }

    /// Puts `id` on top of the stacking order (appending it even when no
    /// window has that id).
    pub fn raise_window(&mut self, id: u64)
        requires
            old(self).wf(),
        ensures
            final(self).wf(),
            final(self).order() == without(old(self).order(), id).push(id),
            final(self).windows_map() == old(self).windows_map(),
            final(self).regions_map() == old(self).regions_map(),
            final(self).next_window() == old(self).next_window(),
            final(self).next_region() == old(self).next_region(),
    {
        let mut order = without_id(&self.window_order, id);
        order.push(id);
        self.window_order = order;
        proof {
            assert forall|k: u64| #[trigger] self.regions@.contains_key(k) implies self.regions@[k].id == k && k
                < self.next_region_id by {
                assert(old(self).regions_map().contains_key(k));
            }
            assert forall|k: u64| #[trigger] self.windows@.contains_key(k) implies self.windows@[k].id == k && k
                < self.next_window_id && self.window_order@.contains(k) by {
                assert(old(self).windows_map().contains_key(k));
                assert(old(self).order().contains(k));
                lemma_without_contains(old(self).window_order@, id, k);
                let w = without(old(self).window_order@, id);
                if k == id {
                    assert(self.window_order@[w.len() as int] == k);
                } else {
                    let j = choose|j: int| 0 <= j < w.len() && w[j] == k;
                    assert(self.window_order@[j] == k);
                }
            }
        }
    }

    /// The existing windows in stacking order, bottom first.
    pub fn ordered_windows(&self) -> (r: Vec<&WindowEntry<P, Z>>)
        ensures
            r@.map_values(|w: &WindowEntry<P, Z>| *w) == stacked(self.order(), self.windows_map()),
    {
        let mut out: Vec<&WindowEntry<P, Z>> = Vec::new();
        let mut i: usize = 0;
        while i < self.window_order.len()
            invariant
                i <= self.window_order@.len(),
                out@.map_values(|w: &WindowEntry<P, Z>| *w) == stacked(self.window_order@.take(i as int), self.windows@),
            decreases self.window_order@.len() - i,
        {
            proof {
                assert(self.window_order@.take(i + 1).drop_last() =~= self.window_order@.take(i as int));
                assert(self.window_order@.take(i + 1).last() == self.window_order@[i as int]);
            }
            let id = self.window_order[i];
            match self.windows.get(&id) {
                Some(w) => {
                    let ghost before = out@;
                    out.push(w);
                    proof {
                        assert(out@.map_values(|w: &WindowEntry<P, Z>| *w) =~= before.map_values(
                            |w: &WindowEntry<P, Z>| *w,
                        ).push(self.windows@[id]));
                    }
                },
                None => {},
            }
            i += 1;
        }
        proof {
            assert(self.window_order@.take(self.window_order@.len() as int) =~= self.window_order@);
        }
        out
    }

    /// The position of the window `id`.
    pub fn window_position(&self, id: u64) -> (r: Option<P>)
        where
            P: Copy,
        ensures
            match r {
                Some(p) => self.windows_map().contains_key(id) && p == self.windows_map()[id].position,
                None => !self.windows_map().contains_key(id),
            },
    {
        match self.windows.get(&id) {
            Some(w) => Some(w.position),
            None => None,
        }
    }

    /// The window `id`.
    pub fn window_entry(&self, id: u64) -> (r: Option<&WindowEntry<P, Z>>)
        ensures
            match r {
                Some(w) => self.windows_map().contains_key(id) && *w == self.windows_map()[id],
                None => !self.windows_map().contains_key(id),
            },
    {
        self.windows.get(&id)
    }

    /// Moves the window `id` to `new_pos`; whether there is such a window.
    pub fn move_window(&mut self, id: u64, new_pos: P) -> (moved: bool)
        requires
            old(self).wf(),
        ensures
            final(self).wf(),
            moved == old(self).windows_map().contains_key(id),
            final(self).windows_map() == (if moved {
                old(self).windows_map().insert(id, WindowEntry { position: new_pos, ..old(self).windows_map()[id] })
            } else {
                old(self).windows_map()
            }),
            final(self).order() == old(self).order(),
            final(self).regions_map() == old(self).regions_map(),
            final(self).next_window() == old(self).next_window(),
            final(self).next_region() == old(self).next_region(),
    {
        match self.windows.remove(&id) {
            Some(e) => {
                let moved = WindowEntry { id: e.id, position: new_pos, size: e.size, region_id: e.region_id };
                self.windows.insert(id, moved);
                proof {
                    assert(self.windows@ =~= old(self).windows@.insert(
                        id,
                        WindowEntry { position: new_pos, ..old(self).windows@[id] },
                    ));
                    assert(self.windows@.dom() =~= old(self).windows@.dom());
                    self.lemma_windows_update_wf(*old(self), id);
                }
                true
            },
            None => {
                proof {
                    assert(self.windows@ =~= old(self).windows@);
                    self.lemma_same_wf(*old(self));
                }
                false
            },
        }
    }

    /// Resizes the window `id` to `new_size`; whether there is such a
    /// window.
    pub fn resize_window(&mut self, id: u64, new_size: Z) -> (resized: bool)
        requires
            old(self).wf(),
        ensures
            final(self).wf(),
            resized == old(self).windows_map().contains_key(id),
            final(self).windows_map() == (if resized {
                old(self).windows_map().insert(id, WindowEntry { size: new_size, ..old(self).windows_map()[id] })
            } else {
                old(self).windows_map()
            }),
            final(self).order() == old(self).order(),
            final(self).regions_map() == old(self).regions_map(),
            final(self).next_window() == old(self).next_window(),
            final(self).next_region() == old(self).next_region(),
    {
        match self.windows.remove(&id) {
            Some(e) => {
                let resized = WindowEntry { id: e.id, position: e.position, size: new_size, region_id: e.region_id };
                self.windows.insert(id, resized);
                proof {
                    assert(self.windows@ =~= old(self).windows@.insert(
                        id,
                        WindowEntry { size: new_size, ..old(self).windows@[id] },
                    ));
                    assert(self.windows@.dom() =~= old(self).windows@.dom());
                    self.lemma_windows_update_wf(*old(self), id);
                }
                true
            },
            None => {
                proof {
                    assert(self.windows@ =~= old(self).windows@);
                    self.lemma_same_wf(*old(self));
                }
                false
            },
        }
    }

    /// A canvas with the same regions, windows, order and next ids as a
    /// well-formed one is well formed.
    proof fn lemma_same_wf(&self, before: Self)
        requires
            before.wf(),
            self.windows_map() == before.windows_map(),
            self.regions_map() == before.regions_map(),
            self.order() == before.order(),
            self.next_window() == before.next_window(),
            self.next_region() == before.next_region(),
        ensures
            self.wf(),
    {
    }

    /// Replacing an existing window's entry by one with the same id keeps
    /// the canvas well formed.
    proof fn lemma_windows_update_wf(&self, before: Self, id: u64)
        requires
            before.wf(),
            before.windows_map().contains_key(id),
            self.windows_map().dom() == before.windows_map().dom(),
            self.windows_map()[id].id == id,
            forall|k: u64| k != id && before.windows_map().contains_key(k) ==> self.windows_map()[k] == before.windows_map()[k],
            self.regions_map() == before.regions_map(),
            self.order() == before.order(),
            self.next_window() == before.next_window(),
            self.next_region() == before.next_region(),
        ensures
            self.wf(),
    {
        assert forall|k: u64| #[trigger] self.windows_map().contains_key(k) implies self.windows_map()[k].id == k && k
            < self.next_window() && self.order().contains(k) by {
            assert(before.windows_map().dom().contains(k));
            assert(before.windows_map().contains_key(k));
        }
        assert forall|k: u64| #[trigger] self.regions_map().contains_key(k) implies self.regions_map()[k].id == k && k
            < self.next_region() by {
            assert(before.regions_map().contains_key(k));
        }
    }
}

/// `order` without `id`.
fn without_id(order: &Vec<u64>, id: u64) -> (r: Vec<u64>)
    ensures
        r@ == without(order@, id),
{
    let mut out: Vec<u64> = Vec::new();
    let mut i: usize = 0;
    while i < order.len()
        invariant
            i <= order@.len(),
            out@ == without(order@.take(i as int), id),
        decreases order@.len() - i,
    {
        proof {
            assert(order@.take(i + 1).drop_last() =~= order@.take(i as int));
            assert(order@.take(i + 1).last() == order@[i as int]);
        }
        if order[i] != id {
            out.push(order[i]);
        }
        i += 1;
    }
    proof {
        assert(order@.take(order@.len() as int) =~= order@);
    }
    out
}

/// A raised window is the topmost of the windows in stacking order.
pub proof fn raised_window_is_topmost<P, Z>(order: Seq<u64>, windows: Map<u64, WindowEntry<P, Z>>, id: u64)
    requires
        windows.contains_key(id),
    ensures
        stacked(without(order, id).push(id), windows).last() == windows[id],
        stacked(without(order, id).push(id), windows) == stacked(without(order, id), windows).push(windows[id]),
{
    assert(without(order, id).push(id).drop_last() =~= without(order, id));
}

} // verus!
