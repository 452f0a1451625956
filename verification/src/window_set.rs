//! A set of windows, found by their ids and walked in the order of their
//! ids.

use crate::image::Image;
use crate::window::{spec_calls, spec_events, Event, Window, WindowId};
use std::collections::BTreeMap;
use vstd::prelude::*;
use vstd::std_specs::cmp::OrdSpec;

verus! {

/// Windows by their ids.
pub struct WindowSet<D> {
    pub windows: BTreeMap<WindowId, Window<D>>,
}

/// The ids ascend strictly.
pub open spec fn ascending(ids: Seq<WindowId>) -> bool {
    forall|i: int, j: int| 0 <= i < j < ids.len() ==> ids[i] < ids[j]
}

/// `ids` lists the ids of `m`, each once, in ascending order.
pub open spec fn lists_all<D>(m: Map<WindowId, Window<D>>, ids: Seq<WindowId>) -> bool {
    &&& ascending(ids)
    &&& forall|id: WindowId| ids.contains(id) <==> m.contains_key(id)
}

/// `ids` lists the ids of the windows of `m` that are not closed, each
/// once, in ascending order.
pub open spec fn lists_open<D>(m: Map<WindowId, Window<D>>, ids: Seq<WindowId>) -> bool {
    &&& ascending(ids)
    &&& forall|id: WindowId| ids.contains(id) <==> m.contains_key(id) && !m[id].closed
}

/// Whether `m` holds a window that is not closed.
pub open spec fn has_open<D>(m: Map<WindowId, Window<D>>) -> bool {
    exists|id: WindowId| m.contains_key(id) && !(#[trigger] m[id]).closed
}

/// The window `w` after it has handled the events `incoming`.
pub open spec fn handled<D>(w: Window<D>, incoming: Seq<Event>) -> Window<D> {
    let end = spec_events(w.tracking(), w.image.meta.size, incoming).0;
    Window { size: end.size, position: end.position, closed: end.closed, ..w }
}

/// The calls of the event handler that the events `incoming` ask for at
/// the window `w`.
pub open spec fn calls_for<D>(w: Window<D>, incoming: Seq<Event>) -> Seq<Option<Event>> {
    spec_calls(spec_events(w.tracking(), w.image.meta.size, incoming).1)
}

/// The batch of events at position `k`, or no events where there is none.
pub open spec fn batch_at(batches: Seq<Vec<Event>>, k: int) -> Seq<Event> {
    if 0 <= k < batches.len() {
        batches[k]@
    } else {
        Seq::empty()
    }
}

/// The keys of a map, in the order in which it is walked, ascend as numbers.
proof fn lemma_keys_ascend(keys: Seq<&WindowId>)
    requires
        vstd::std_specs::btree::increasing_seq(keys),
    ensures
        forall|i: int, j: int| 0 <= i < j < keys.len() ==> *keys[i] < *keys[j],
{
    broadcast use vstd::laws_cmp::group_laws_cmp;

    vstd::std_specs::btree::axiom_increasing_seq_meaning::<&WindowId>(keys);
    assert forall|i: int, j: int| 0 <= i < j < keys.len() implies *keys[i] < *keys[j] by {
        assert(OrdSpec::cmp_spec(&keys[i], &keys[j]) is Less);
        assert(OrdSpec::cmp_spec(keys[i], keys[j]) is Less);
    }
}

/// `BTreeMap::get_mut` of std: a mutable reference to the value under the
/// key `id`, or `None` where the map has no such key. The map changes only
/// in that value, and only as the reference is written through.
#[verifier::external_body]
fn value_mut<'a, D>(m: &'a mut BTreeMap<WindowId, Window<D>>, id: WindowId) -> (r: Option<
    &'a mut Window<D>,
>)
    ensures
        r is Some <==> old(m)@.contains_key(id),
        r matches Some(w) ==> *w == old(m)@[id] && final(m)@ == old(m)@.insert(id, *final(w)),
        r is None ==> final(m)@ == old(m)@,
{
    m.get_mut(&id)
}

impl<D> View for WindowSet<D> {
    type V = Map<WindowId, Window<D>>;

    open spec fn view(&self) -> Map<WindowId, Window<D>> {
        self.windows@
    }
}

impl<D> WindowSet<D> {
    /// Every window is kept under its own id.
    pub open spec fn wf(&self) -> bool {
        forall|id: WindowId| self@.contains_key(id) ==> (#[trigger] self@[id]).id == id
    }

    /// A set without windows.
    pub fn new() -> (s: WindowSet<D>)
        ensures
            s.wf(),
            s@ == Map::<WindowId, Window<D>>::empty(),
    {
        WindowSet { windows: BTreeMap::new() }
    }

    /// The ids of all windows, in ascending order.
    pub fn ids(&self) -> (ids: Vec<WindowId>)
        ensures
            lists_all(self@, ids@),
    {
        let mut ids: Vec<WindowId> = Vec::new();
        for k in it: self.windows.keys()
            invariant
                it.seq().unref().to_set() == self@.dom(),
                vstd::std_specs::btree::increasing_seq(it.seq()),
                ascending(ids@),
                forall|a: int, j: int|
                    0 <= a < ids@.len() && it.index() <= j < it.seq().len() ==> ids@[a]
                        < *it.seq()[j],
                forall|a: int| 0 <= a < ids@.len() ==> self@.contains_key(#[trigger] ids@[a]),
                forall|j: int| 0 <= j < it.index() ==> ids@.contains(*#[trigger] it.seq()[j]),
        {
            proof {
                lemma_keys_ascend(it.seq());
                assert(it.seq().unref()[it.index()] == *k);
                assert(it.seq().unref().to_set().contains(*k));
            }
            let ghost before = ids@;
            ids.push(*k);
            proof {
                assert(ids@[before.len() as int] == *k);
                assert forall|j: int| 0 <= j < it.index() + 1 implies ids@.contains(
                    *#[trigger] it.seq()[j],
                ) by {
                    if j < it.index() {
                        let a = choose|a: int| 0 <= a < before.len() && before[a] == *it.seq()[j];
                        assert(ids@[a] == *it.seq()[j]);
                    }
                }
            }
        }
        ids
    }

    /// Decides [`WindowSet::wf`].
    pub fn is_wf(&self) -> (b: bool)
        ensures
            b == self.wf(),
    {
        let ids = self.ids();
        let mut i: usize = 0;
        while i < ids.len()
            invariant
                i <= ids@.len(),
                lists_all(self@, ids@),
                forall|j: int| 0 <= j < i ==> self@[ids@[j]].id == ids@[j],
            decreases ids@.len() - i,
        {
            assert(ids@.contains(ids@[i as int]));
            match self.windows.get(&ids[i]) {
                Some(w) => {
                    if w.id != ids[i] {
                        return false;
                    }
                },
                None => {},
            }
            i += 1;
        }
        assert forall|id: WindowId| self@.contains_key(id) implies (#[trigger] self@[id]).id
            == id by {
            assert(ids@.contains(id));
        }
        true
    }

    /// Adds a window and returns its id. A window of the set with the same
    /// id is replaced.
    pub fn add(&mut self, window: Window<D>) -> (id: WindowId)
        ensures
            id == window.id,
            final(self)@ == old(self)@.insert(window.id, window),
            old(self).wf() ==> final(self).wf(),
    {
        let id = window.id;
        self.windows.insert(id, window);
        id
    }

    /// The window with the id `id`.
    pub fn get(&self, id: WindowId) -> (r: Option<&Window<D>>)
        ensures
            r is Some <==> self@.contains_key(id),
            r matches Some(w) ==> *w == self@[id],
    {
        self.windows.get(&id)
    }

    /// The window with the id `id`, to be changed in place. Nothing else
    /// in the set changes.
    pub fn get_mut(&mut self, id: WindowId) -> (r: Option<&mut Window<D>>)
        ensures
            r is Some <==> old(self)@.contains_key(id),
            r matches Some(w) ==> *w == old(self)@[id] && final(self)@ == old(self)@.insert(
                id,
                *final(w),
            ),
            r is None ==> final(self)@ == old(self)@,
    {
        value_mut(&mut self.windows, id)
    }

    /// Removes the window with the id `id` and returns it.
    pub fn remove(&mut self, id: WindowId) -> (r: Option<Window<D>>)
        ensures
            r is Some <==> old(self)@.contains_key(id),
            r matches Some(w) ==> w == old(self)@[id],
            final(self)@ == old(self)@.remove(id),
            old(self).wf() ==> final(self).wf(),
    {
        self.windows.remove(&id)
    }

    /// The ids of the windows that are not closed, in ascending order.
    pub fn iter(&self) -> (ids: Vec<WindowId>)
        ensures
            lists_open(self@, ids@),
    {
        let all = self.ids();
        let mut ids: Vec<WindowId> = Vec::new();
        let mut i: usize = 0;
        while i < all.len()
            invariant
                i <= all@.len(),
                lists_all(self@, all@),
                ascending(ids@),
                forall|a: int, j: int| 0 <= a < ids@.len() && i <= j < all@.len() ==> ids@[a] < all@[j],
                forall|a: int|
                    0 <= a < ids@.len() ==> self@.contains_key(#[trigger] ids@[a])
                        && !self@[ids@[a]].closed,
                forall|j: int|
                    0 <= j < i && !self@[all@[j]].closed ==> ids@.contains(#[trigger] all@[j]),
            decreases all@.len() - i,
        {
            let ghost before = ids@;
            let id = all[i];
            assert(all@.contains(id));
            match self.windows.get(&id) {
                Some(w) => {
                    if !w.closed {
                        ids.push(id);
                        assert(ids@[before.len() as int] == id);
                        assert forall|j: int|
                            0 <= j < i + 1 && !self@[all@[j]].closed implies ids@.contains(
                            #[trigger] all@[j],
                        ) by {
                            if j < i {
                                let a = choose|a: int|
                                    0 <= a < before.len() && before[a] == all@[j];
                                assert(ids@[a] == all@[j]);
                            }
                        }
                    }
                },
                None => {},
            }
            i += 1;
        }
        proof {
            assert forall|id: WindowId|
                self@.contains_key(id) && !self@[id].closed implies ids@.contains(id) by {
                assert(all@.contains(id));
                let j = choose|j: int| 0 <= j < all@.len() && all@[j] == id;
                assert(ids@.contains(all@[j]));
            }
        }
        ids
    }

    /// Whether any window is still open. A round over the set serves the
    /// windows that [`WindowSet::iter`] lists; the rounds end when this is
    /// `false`.
    pub fn any_open(&self) -> (b: bool)
        ensures
            b == has_open(self@),
            forall|ids: Seq<WindowId>| lists_open(self@, ids) ==> b == (ids.len() > 0),
    {
        let ids = self.iter();
        proof {
            if ids@.len() > 0 {
                assert(ids@.contains(ids@[0]));
                assert(self@.contains_key(ids@[0]) && !self@[ids@[0]].closed);
            }
            if has_open(self@) {
                let id = choose|id: WindowId| self@.contains_key(id) && !(#[trigger] self@[id]).closed;
                assert(ids@.contains(id));
            }
            assert forall|other: Seq<WindowId>| lists_open(self@, other) implies (ids@.len() > 0)
                == (other.len() > 0) by {
                if other.len() > 0 {
                    assert(other.contains(other[0]));
                    assert(ids@.contains(other[0]));
                }
                if ids@.len() > 0 {
                    assert(other.contains(ids@[0]));
                }
            }
        }
        ids.len() > 0
    }

    /// The windows that are not closed, in ascending order of their ids.
    pub fn iter_windows(&self) -> (ws: Vec<&Window<D>>)
        ensures
            exists|ids: Seq<WindowId>|
                #![trigger lists_open(self@, ids)]
                lists_open(self@, ids) && ws@.len() == ids.len() && forall|k: int|
                    0 <= k < ids.len() ==> *ws@[k] == self@[ids[k]],
    {
        let ids = self.iter();
        let mut ws: Vec<&Window<D>> = Vec::new();
        let mut i: usize = 0;
        while i < ids.len()
            invariant
                i <= ids@.len(),
                lists_open(self@, ids@),
                ws@.len() == i,
                forall|k: int| 0 <= k < i ==> *ws@[k] == self@[ids@[k]],
            decreases ids@.len() - i,
        {
            assert(ids@.contains(ids@[i as int]));
            let w = self.windows.get(&ids[i]);
            ws.push(w.unwrap());
            i += 1;
        }
        assert(lists_open(self@, ids@));
        ws
    }

    /// The images of all windows, in ascending order of the ids of the
    /// windows.
    pub fn into_images(self) -> (images: Vec<Image>)
        ensures
            exists|ids: Seq<WindowId>|
                #![trigger lists_all(self@, ids)]
                lists_all(self@, ids) && images@.len() == ids.len() && forall|k: int|
                    0 <= k < ids.len() ==> images@[k] == self@[ids[k]].image,
    {
        let ids = self.ids();
        let ghost all = self@;
        let mut windows = self.windows;
        let mut images: Vec<Image> = Vec::new();
        let mut i: usize = 0;
        assert forall|j: int| 0 <= j < ids@.len() implies all.contains_key(#[trigger] ids@[j]) by {
            assert(ids@.contains(ids@[j]));
        }
        while i < ids.len()
            invariant
                i <= ids@.len(),
                lists_all(all, ids@),
                images@.len() == i,
                forall|k: int| 0 <= k < i ==> images@[k] == all[ids@[k]].image,
                forall|j: int|
                    i <= j < ids@.len() ==> windows@.contains_key(#[trigger] ids@[j])
                        && windows@[ids@[j]] == all[ids@[j]],
            decreases ids@.len() - i,
        {
            let w = windows.remove(&ids[i]);
            images.push(w.unwrap().into_image());
            i += 1;
        }
        assert(lists_all(all, ids@));
        images
    }

    /// Handles the events that arrived for the window with the id `id` and
    /// returns the calls of the event handler to make for it. `None`, and
    /// nothing changes, where the set has no such window or the window is
    /// closed. The set holds the same ids afterwards.
    pub fn step_window(&mut self, id: WindowId, incoming: &Vec<Event>) -> (r: Option<
        Vec<Option<Event>>,
    >)
        ensures
            r is Some <==> old(self)@.contains_key(id) && !old(self)@[id].closed,
            r is None ==> final(self)@ == old(self)@,
            r matches Some(calls) ==> calls@ == calls_for(old(self)@[id], incoming@) && final(self)@ == old(self)@.insert(id, handled(old(self)@[id], incoming@)),
            final(self)@.dom() == old(self)@.dom(),
            old(self).wf() ==> final(self).wf(),
    {
        let mut w = match self.windows.remove(&id) {
            Some(w) => w,
            None => {
                assert(self@ =~= old(self)@);
                return None;
            },
        };
        if w.closed {
            self.windows.insert(id, w);
            assert(self@ =~= old(self)@);
            return None;
        }
        let calls = w.handle_events(incoming);
        self.windows.insert(id, w);
        proof {
            assert(self@ =~= old(self)@.insert(id, w));
            assert(self@.dom() =~= old(self)@.dom());
        }
        Some(calls)
    }

    /// One round over the set: every window that is not closed handles its
    /// batch of events, in ascending order of the ids. The batches are
    /// those of the windows that [`WindowSet::iter`] lists, in its order; a
    /// window without a batch handles no events. Returned are whether any
    /// window was open, which is `false` exactly when the rounds are over,
    /// and for each of those windows the calls of the event handler to
    /// make. Closed windows are left as they are, and the set holds the
    /// same ids afterwards.
    pub fn step(&mut self, batches: &Vec<Vec<Event>>) -> (r: (bool, Vec<Vec<Option<Event>>>))
        ensures
            final(self)@.dom() == old(self)@.dom(),
            r.0 == has_open(old(self)@),
            old(self).wf() ==> final(self).wf(),
            exists|ids: Seq<WindowId>|
                #![trigger lists_open(old(self)@, ids)]
                {
                    &&& lists_open(old(self)@, ids)
                    &&& r.0 == (ids.len() > 0)
                    &&& r.1@.len() == ids.len()
                    &&& forall|k: int|
                        0 <= k < ids.len() ==> (#[trigger] r.1@[k])@ == calls_for(
                            old(self)@[ids[k]],
                            batch_at(batches@, k),
                        )
                    &&& forall|k: int|
                        0 <= k < ids.len() ==> final(self)@[#[trigger] ids[k]] == handled(
                            old(self)@[ids[k]],
                            batch_at(batches@, k),
                        )
                },
            forall|id: WindowId|
                old(self)@.contains_key(id) && old(self)@[id].closed ==> final(self)@[id] == old(self)@[id],
    {
        let more = self.any_open();
        let ids = self.iter();
        let none: Vec<Event> = Vec::new();
        let mut calls: Vec<Vec<Option<Event>>> = Vec::new();
        let mut k: usize = 0;
        while k < ids.len()
            invariant
                k <= ids@.len(),
                lists_open(old(self)@, ids@),
                none@.len() == 0,
                calls@.len() == k,
                self@.dom() == old(self)@.dom(),
                old(self).wf() ==> self.wf(),
                forall|j: int|
                    0 <= j < k ==> (#[trigger] calls@[j])@ == calls_for(
                        old(self)@[ids@[j]],
                        batch_at(batches@, j),
                    ),
                forall|j: int|
                    0 <= j < k ==> self@[#[trigger] ids@[j]] == handled(
                        old(self)@[ids@[j]],
                        batch_at(batches@, j),
                    ),
                forall|id: WindowId|
                    old(self)@.contains_key(id) && (forall|j: int| 0 <= j < k ==> ids@[j] != id)
                        ==> #[trigger] self@[id] == old(self)@[id],
            decreases ids@.len() - k,
        {
            let id = ids[k];
            let ghost before = self@;
            proof {
                assert(ids@.contains(id));
                assert(forall|j: int| 0 <= j < k ==> ids@[j] != id);
                assert(before[id] == old(self)@[id]);
            }
            let batch = if k < batches.len() {
                &batches[k]
            } else {
                &none
            };
            assert(batch@ == batch_at(batches@, k as int));
            let r = self.step_window(id, batch);
            calls.push(r.unwrap());
            proof {
                assert forall|j: int| 0 <= j < k + 1 implies self@[#[trigger] ids@[j]] == handled(
                    old(self)@[ids@[j]],
                    batch_at(batches@, j),
                ) by {
                    if j < k {
                        assert(ids@[j] != id);
                        assert(before[ids@[j]] == handled(
                            old(self)@[ids@[j]],
                            batch_at(batches@, j),
                        ));
                    }
                }
                assert forall|other: WindowId|
                    old(self)@.contains_key(other) && (forall|j: int|
                        0 <= j < k + 1 ==> ids@[j] != other) implies #[trigger] self@[other] == old(self)@[other] by {
                    assert(ids@[k as int] != other);
                    assert forall|j: int| 0 <= j < k implies ids@[j] != other by {}
                    assert(before[other] == old(self)@[other]);
                }
            }
            k += 1;
        }
        proof {
            assert forall|id: WindowId|
                old(self)@.contains_key(id) && old(self)@[id].closed implies self@[id] == old(self)@[id] by {
                assert forall|j: int| 0 <= j < k implies ids@[j] != id by {
                    assert(ids@.contains(ids@[j]));
                }
            }
            assert(lists_open(old(self)@, ids@));
        }
        (more, calls)
    }
}

} // verus!
