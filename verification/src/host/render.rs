//! Bookkeeping of a host that runs several renders at once: which renders
//! are live, which browser belongs to which render, and which start
//! requests wait for a free slot.
use crate::api::RenderOpts;
use crate::common::ipc::{Evt, RenderId};
use crate::text::{chars_of, string_of};
use std::collections::{HashMap, VecDeque};
use vstd::prelude::*;
use vstd::std_specs::iter::IteratorSpec;

verus! {

/// Where the frame-capture loop of a render stands.
pub struct CaptureState {
    /// Index of the frame being captured.
    pub next_frame: u32,
    /// Virtual time (ms) requested for that frame.
    pub requested_ms: u32,
    /// The browser reported that the virtual-time budget ran out.
    pub budget_done: bool,
    /// Paints seen since the request that did not carry the requested time.
    pub stuck_invalidates: u32,
}

/// What the host keeps of one live render.
pub struct Render {
    pub id: RenderId,
    pub width: i32,
    pub height: i32,
    pub total_frames: u32,
    pub out: String,
    pub tolerant: bool,
    pub phase: u8,
    pub capture: CaptureState,
    pub done: bool,
    pub errored: bool,
}

/// `m` without the keys that map to `v`.
pub open spec fn without_value<K>(m: Map<K, RenderId>, v: RenderId) -> Map<K, RenderId> {
    Map::new(|k: K| m.contains_key(k) && m[k] != v, |k: K| m[k])
}

/// The queue after a settled render gave its slot away: the oldest
/// request (if any) left the queue as `next`.
pub open spec fn settles_queue(
    before: Seq<(RenderId, RenderOpts)>,
    after: Seq<(RenderId, RenderOpts)>,
    next: Option<(RenderId, RenderOpts)>,
) -> bool {
    if before.len() > 0 {
        next == Some(before[0]) && after == before.drop_first()
    } else {
        next is None && after == before
    }
}

/// The queue is first in, first out: a request queued behind others
/// leaves it only after them, and the oldest leaves first.
pub proof fn law_queue_fifo(
    before: Seq<(RenderId, RenderOpts)>,
    item: (RenderId, RenderOpts),
    after: Seq<(RenderId, RenderOpts)>,
    next: Option<(RenderId, RenderOpts)>,
)
    requires
        settles_queue(before.push(item), after, next),
    ensures
        before.len() > 0 ==> next == Some(before[0]) && after == before.drop_first().push(item),
        before.len() == 0 ==> next == Some(item) && after.len() == 0,
{
    if before.len() > 0 {
        assert(before.push(item).drop_first() =~= before.drop_first().push(item));
    }
}

/// The live renders once render `id` is settled (by `finish` or
/// `cancel`).
pub open spec fn settled(live: Map<RenderId, Render>, id: RenderId) -> Map<RenderId, Render> {
    live.remove(id)
}

/// A render is acknowledged at most once: once settled it is no longer
/// live, so settling it again (which `finish` and `cancel` answer with
/// `None` for a render that is not live) changes nothing; the other renders
/// stay as they were.
pub proof fn law_settles_once(live: Map<RenderId, Render>, id: RenderId)
    ensures
        !settled(live, id).contains_key(id),
        settled(settled(live, id), id) == settled(live, id),
        forall|other: RenderId|
            other != id ==> (#[trigger] settled(live, id).contains_key(other) == live.contains_key(other)),
{
    assert(settled(settled(live, id), id) =~= settled(live, id));
}

/// What `submit` does with a start request.
pub enum Submitted {
    /// Start this render now.
    Start(RenderId, RenderOpts),
    /// All slots are taken; the request waits in the queue.
    Queued,
}

/// The outcome of settling a render (`finish` or `cancel`).
pub struct Settled {
    /// The event that acknowledges the render, if one is still owed.
    pub event: Option<Evt>,
    /// The queued request that takes the freed slot.
    pub next: Option<(RenderId, RenderOpts)>,
    /// The host should quit: its single render is settled and nothing else
    /// is live or waiting.
    pub quit: bool,
}

/// The host's bookkeeping.
pub struct Host {
    renders: HashMap<RenderId, Render>,
    by_browser: HashMap<i32, RenderId>,
    queue: VecDeque<(RenderId, RenderOpts)>,
    max_parallel: usize,
    single_shot: Option<RenderId>,
    creating: Option<RenderId>,
}

/// Every host lets at least one render run at a time.
pub proof fn law_capacity_positive(h: Host)
    ensures
        h.capacity() >= 1,
{
}

/// The keys of the first `n` (key, value) pairs of `pairs`.
spec fn keys_seen<V>(pairs: Seq<(&i32, &V)>, n: int) -> Set<i32> {
    Set::new(|k: i32| exists|i: int| 0 <= i < n && #[trigger] pairs[i].0 == k)
}

impl Host {
    #[verifier::type_invariant]
    spec fn wf(self) -> bool {
        &&& forall|id: RenderId| #[trigger] self.renders@.contains_key(id) ==> self.renders@[id].id == id
        &&& self.max_parallel >= 1
    }

    /// The live renders by id.
    pub closed spec fn render_map(&self) -> Map<RenderId, Render> {
        self.renders@
    }

    /// Which render each browser belongs to.
    pub closed spec fn bindings(&self) -> Map<i32, RenderId> {
        self.by_browser@
    }

    /// The start requests waiting for a slot, oldest first.
    pub closed spec fn queued(&self) -> Seq<(RenderId, RenderOpts)> {
        self.queue@
    }

    /// How many renders may run at once (never fewer than one; the type's
    /// invariant keeps the setting itself at one or more).
    pub closed spec fn capacity(&self) -> nat {
        if self.max_parallel >= 1 {
            self.max_parallel as nat
        } else {
            1
        }
    }

    /// The render whose completion ends the host, if any.
    pub closed spec fn single_shot_id(&self) -> Option<RenderId> {
        self.single_shot
    }

    /// The render whose browser is being created, if any.
    pub closed spec fn creating_id(&self) -> Option<RenderId> {
        self.creating
    }

    /// A host with no renders that runs at most `max_parallel` (at least
    /// one) at once.
    pub fn new(max_parallel: usize) -> (h: Host)
        ensures
            h.render_map() == Map::<RenderId, Render>::empty(),
            h.bindings() == Map::<i32, RenderId>::empty(),
            h.queued() == Seq::<(RenderId, RenderOpts)>::empty(),
            h.capacity() == if max_parallel >= 1 { max_parallel as nat } else { 1 },
            h.single_shot_id() is None,
            h.creating_id() is None,
    {
        let h = Host {
            renders: HashMap::new(),
            by_browser: HashMap::new(),
            queue: VecDeque::new(),
            max_parallel: if max_parallel >= 1 {
                max_parallel
            } else {
                1
            },
            single_shot: None,
            creating: None,
        };
        h
    }

    /// Notes the render whose browser is being created (browser callbacks
    /// arrive before its browser id can be bound).
    pub fn set_creating(&mut self, id: RenderId)
        ensures
            final(self).creating_id() == Some(id),
            final(self).render_map() == old(self).render_map(),
            final(self).bindings() == old(self).bindings(),
            final(self).queued() == old(self).queued(),
            final(self).capacity() == old(self).capacity(),
            final(self).single_shot_id() == old(self).single_shot_id(),
    {
        proof {
            use_type_invariant(&*self);
        }
        self.creating = Some(id);
    }

    /// Clears the render being created.
    pub fn clear_creating(&mut self)
        ensures
            final(self).creating_id() is None,
            final(self).render_map() == old(self).render_map(),
            final(self).bindings() == old(self).bindings(),
            final(self).queued() == old(self).queued(),
            final(self).capacity() == old(self).capacity(),
            final(self).single_shot_id() == old(self).single_shot_id(),
    {
        proof {
            use_type_invariant(&*self);
        }
        self.creating = None;
    }

    /// The render being created, if one is noted and still live.
    pub fn creating(&self) -> (r: Option<&Render>)
        ensures
            match r {
                Some(rd) => self.creating_id() == Some(rd.id) && self.render_map().contains_key(rd.id)
                    && self.render_map()[rd.id] == *rd,
                None => self.creating_id() is None || !self.render_map().contains_key(
                    self.creating_id()->0,
                ),
            },
    {
        match self.creating {
            Some(id) => self.by_id(id),
            None => None,
        }
    }

    /// Makes the host quit once render `id` is settled and nothing else is
    /// live or waiting.
    pub fn set_single_shot(&mut self, id: RenderId)
        ensures
            final(self).single_shot_id() == Some(id),
            final(self).render_map() == old(self).render_map(),
            final(self).bindings() == old(self).bindings(),
            final(self).queued() == old(self).queued(),
            final(self).capacity() == old(self).capacity(),
            final(self).creating_id() == old(self).creating_id(),
    {
        proof {
            use_type_invariant(&*self);
        }
        self.single_shot = Some(id);
    }

    /// The live render `id`.
    pub fn by_id(&self, id: RenderId) -> (r: Option<&Render>)
        ensures
            match r {
                Some(rd) => self.render_map().contains_key(id) && self.render_map()[id] == *rd && rd.id == id,
                None => !self.render_map().contains_key(id),
            },
    {
        broadcast use vstd::std_specs::hash::group_hash_axioms;

        proof {
            use_type_invariant(self);
        }
        self.renders.get(&id)
    }

    /// The live render that browser `browser_id` belongs to.
    pub fn by_browser(&self, browser_id: i32) -> (r: Option<&Render>)
        ensures
            match r {
                Some(rd) => self.bindings().contains_key(browser_id) && self.render_map().contains_key(
                    self.bindings()[browser_id],
                ) && self.render_map()[self.bindings()[browser_id]] == *rd,
                None => !self.bindings().contains_key(browser_id) || !self.render_map().contains_key(
                    self.bindings()[browser_id],
                ),
            },
    {
        broadcast use vstd::std_specs::hash::group_hash_axioms;

        match self.by_browser.get(&browser_id) {
            Some(rid) => self.by_id(*rid),
            None => None,
        }
    }

    /// How many renders are live.
    pub fn active_count(&self) -> (r: usize)
        ensures
            r == self.render_map().len(),
    {
        broadcast use vstd::std_specs::hash::group_hash_axioms;

        self.renders.len()
    }

    /// Registers a live render (replacing one with the same id).
    pub fn insert(&mut self, render: Render)
        ensures
            final(self).render_map() == old(self).render_map().insert(render.id, render),
            final(self).bindings() == old(self).bindings(),
            final(self).queued() == old(self).queued(),
            final(self).capacity() == old(self).capacity(),
            final(self).single_shot_id() == old(self).single_shot_id(),
            final(self).creating_id() == old(self).creating_id(),
    {
        broadcast use vstd::std_specs::hash::group_hash_axioms;

        proof {
            use_type_invariant(&*self);
        }
        let id = render.id;
        let mut m = HashMap::new();
        std::mem::swap(&mut m, &mut self.renders);
        m.insert(id, render);
        self.renders = m;
    }

    /// Drops render `id` and every browser binding that points to it;
    /// returns the render when it was live.
    pub fn remove(&mut self, id: RenderId) -> (r: Option<Render>)
        ensures
            final(self).render_map() == old(self).render_map().remove(id),
            final(self).bindings() == without_value(old(self).bindings(), id),
            match r {
                Some(rd) => old(self).render_map().contains_key(id) && rd == old(self).render_map()[id],
                None => !old(self).render_map().contains_key(id),
            },
            final(self).queued() == old(self).queued(),
            final(self).capacity() == old(self).capacity(),
            final(self).single_shot_id() == old(self).single_shot_id(),
            final(self).creating_id() == old(self).creating_id(),
    {
        broadcast use vstd::std_specs::hash::group_hash_axioms;

        proof {
            use_type_invariant(&*self);
        }
        let ghost old_bindings = self.by_browser@;
        let ghost pairs = vstd::std_specs::hash::spec_hash_map_iter(&self.by_browser).remaining();
        proof {
            vstd::std_specs::hash::axiom_spec_hash_map_iter(&self.by_browser);
        }
        let mut kept: HashMap<i32, RenderId> = HashMap::new();
        for kv in it: self.by_browser.iter()
            invariant
                it.seq() == pairs,
                old_bindings == self.by_browser@,
                forall|i: int|
                    #![trigger pairs[i]]
                    0 <= i < pairs.len() ==> old_bindings.contains_key(*pairs[i].0) && old_bindings[*pairs[i].0]
                        == *pairs[i].1,
                kept@ == without_value(old_bindings, id).restrict(keys_seen(pairs, it.index() as int)),
        {
            let ghost before = kept@;
            let ghost k = *kv.0;
            assert(pairs[it.index() as int] == kv);
            if *kv.1 != id {
                kept.insert(*kv.0, *kv.1);
            }
            proof {
                let n = it.index() as int;
                assert(keys_seen(pairs, n + 1) =~= keys_seen(pairs, n).insert(k)) by {
                    assert forall|x: i32| keys_seen(pairs, n + 1).contains(x) implies keys_seen(pairs, n).insert(
                        k,
                    ).contains(x) by {
                        let i = choose|i: int| 0 <= i < n + 1 && #[trigger] pairs[i].0 == x;
                        if i < n {
                            assert(keys_seen(pairs, n).contains(x));
                        }
                    }
                    assert forall|x: i32| keys_seen(pairs, n).insert(k).contains(x) implies keys_seen(
                        pairs,
                        n + 1,
                    ).contains(x) by {
                        if x == k {
                            assert(pairs[n].0 == x);
                        } else {
                            let i = choose|i: int| 0 <= i < n && #[trigger] pairs[i].0 == x;
                            assert(pairs[i].0 == x);
                        }
                    }
                }
                assert(kept@ =~= without_value(old_bindings, id).restrict(keys_seen(pairs, n + 1)));
            }
        }
        proof {
            assert(keys_seen(pairs, pairs.len() as int).subset_of(old_bindings.dom())) by {
                assert forall|x: i32| keys_seen(pairs, pairs.len() as int).contains(x) implies old_bindings.contains_key(
                    x,
                ) by {
                    let i = choose|i: int| 0 <= i < pairs.len() && #[trigger] pairs[i].0 == x;
                    assert(pairs[i].0 == x);
                }
            }
            assert forall|x: i32| old_bindings.contains_key(x) implies #[trigger] keys_seen(
                pairs,
                pairs.len() as int,
            ).contains(x) by {
                assert(pairs.contains((&x, &old_bindings[x])));
                let i = choose|i: int| 0 <= i < pairs.len() && pairs[i] == (&x, &old_bindings[x]);
                assert(pairs[i].0 == x);
            }
            assert(kept@ =~= without_value(old_bindings, id));
        }
        self.by_browser = kept;
        let mut m = HashMap::new();
        std::mem::swap(&mut m, &mut self.renders);
        let r = m.remove(&id);
        self.renders = m;
        r
    }

    /// Starts render `id` now when a slot is free; otherwise queues the
    /// request behind the earlier ones.
    pub fn submit(&mut self, id: RenderId, opts: RenderOpts) -> (r: Submitted)
        ensures
            old(self).render_map().len() >= old(self).capacity() ==> r is Queued && final(self).queued()
                == old(self).queued().push((id, opts)),
            old(self).render_map().len() < old(self).capacity() ==> ((r matches Submitted::Start(i, o) && i
                == id && o == opts) && final(self).queued() == old(self).queued()),
            final(self).render_map() == old(self).render_map(),
            final(self).bindings() == old(self).bindings(),
            final(self).capacity() == old(self).capacity(),
            final(self).single_shot_id() == old(self).single_shot_id(),
            final(self).creating_id() == old(self).creating_id(),
    {
        let active = self.active_count();
        if active >= self.max_parallel {
            proof {
                use_type_invariant(&*self);
            }
            let mut q = VecDeque::new();
            std::mem::swap(&mut q, &mut self.queue);
            q.push_back((id, opts));
            self.queue = q;
            Submitted::Queued
        } else {
            Submitted::Start(id, opts)
        }
    }

    fn drain_queue(&mut self) -> (r: Option<(RenderId, RenderOpts)>)
        ensures
            old(self).queued().len() > 0 ==> r == Some(old(self).queued()[0]) && final(self).queued()
                == old(self).queued().drop_first(),
            old(self).queued().len() == 0 ==> r is None && final(self).queued() == old(self).queued(),
            final(self).render_map() == old(self).render_map(),
            final(self).bindings() == old(self).bindings(),
            final(self).capacity() == old(self).capacity(),
            final(self).single_shot_id() == old(self).single_shot_id(),
            final(self).creating_id() == old(self).creating_id(),
    {
        proof {
            use_type_invariant(&*self);
        }
        let mut q = VecDeque::new();
        std::mem::swap(&mut q, &mut self.queue);
        let next = q.pop_front();
        proof {
            if next is Some {
                assert(old(self).queue@.subrange(1, old(self).queue@.len() as int) =~= old(self).queue@.drop_first());
            }
        }
        self.queue = q;
        next
    }

    fn quit_after(&self, settled: RenderId, next: &Option<(RenderId, RenderOpts)>) -> (r: bool)
        ensures
            r == (self.single_shot_id() == Some(settled) && self.render_map().len() == 0
                && self.queued().len() == 0 && next is None),
    {
        let active = self.active_count();
        self.single_shot == Some(settled) && active == 0 && self.queue.len() == 0 && next.is_none()
    }

    /// Settles a render that ran to its end: drops it, acknowledges it
    /// (`Done` when the encoder succeeded, else an `Error`; nothing when it
    /// already failed), and hands its slot to the oldest queued request.
    /// `None` when `id` is not live.
    pub fn finish(&mut self, id: RenderId, encoder_ok: bool, elapsed_ms: u64) -> (r: Option<Settled>)
        ensures
            r is None <==> !old(self).render_map().contains_key(id),
            final(self).render_map() == settled(old(self).render_map(), id),
            final(self).bindings() == without_value(old(self).bindings(), id),
            r is None ==> final(self).queued() == old(self).queued(),
            r matches Some(st) ==> {
                let rd = old(self).render_map()[id];
                &&& (rd.errored ==> st.event is None)
                &&& (!rd.errored && encoder_ok ==> (st.event matches Some(
                    Evt::Done { id: i, out, frames, elapsed_ms: e },
                ) && i == id && out@ == rd.out@ && frames == rd.capture.next_frame && e == elapsed_ms))
                &&& (!rd.errored && !encoder_ok ==> (st.event matches Some(Evt::Error { id: i, message })
                    && i == id && message@ == "ffmpeg encoder failed"@))
                &&& settles_queue(old(self).queued(), final(self).queued(), st.next)
                &&& st.quit == (final(self).single_shot_id() == Some(id) && final(self).render_map().len()
                    == 0 && final(self).queued().len() == 0 && st.next is None)
            },
            final(self).capacity() == old(self).capacity(),
            final(self).single_shot_id() == old(self).single_shot_id(),
            final(self).creating_id() == old(self).creating_id(),
    {
        let rd = match self.remove(id) {
            Some(rd) => rd,
            None => {
                return None;
            },
        };
        let event = if rd.errored {
            None
        } else if encoder_ok {
            Some(Evt::Done { id, out: rd.out, frames: rd.capture.next_frame, elapsed_ms })
        } else {
            Some(Evt::Error { id, message: string_of(&chars_of("ffmpeg encoder failed")) })
        };
        let next = self.drain_queue();
        let quit = self.quit_after(id, &next);
        Some(Settled { event, next, quit })
    }

    /// Cancels a live render: acknowledges it with `Error "cancelled"`,
    /// drops it, and hands its slot to the oldest queued request. `None`
    /// (and nothing changes) when `id` is not live.
    pub fn cancel(&mut self, id: RenderId) -> (r: Option<Settled>)
        ensures
            r is None <==> !old(self).render_map().contains_key(id),
            r is None ==> final(self).render_map() == old(self).render_map() && final(self).bindings()
                == old(self).bindings() && final(self).queued() == old(self).queued(),
            r matches Some(st) ==> {
                &&& final(self).render_map() == settled(old(self).render_map(), id)
                &&& final(self).bindings() == without_value(old(self).bindings(), id)
                &&& (st.event matches Some(Evt::Error { id: i, message }) && i == id && message@
                    == "cancelled"@)
                &&& settles_queue(old(self).queued(), final(self).queued(), st.next)
                &&& st.quit == (final(self).single_shot_id() == Some(id) && final(self).render_map().len()
                    == 0 && final(self).queued().len() == 0 && st.next is None)
            },
            final(self).capacity() == old(self).capacity(),
            final(self).single_shot_id() == old(self).single_shot_id(),
            final(self).creating_id() == old(self).creating_id(),
    {
        if self.by_id(id).is_none() {
            return None;
        }
        let event = Some(Evt::Error { id, message: string_of(&chars_of("cancelled")) });
        let _ = self.remove(id);
        let next = self.drain_queue();
        let quit = self.quit_after(id, &next);
        Some(Settled { event, next, quit })
    }

    /// A live tolerant render still before its capture phase, whose load
    /// is driven by the page's dom-ready signal.
    pub fn dom_ready_advance(&self) -> (r: Option<RenderId>)
        ensures
            match r {
                Some(id) => self.render_map().contains_key(id) && self.render_map()[id].tolerant
                    && self.render_map()[id].phase < 2,
                None => forall|id: RenderId| #[trigger]
                    self.render_map().contains_key(id) ==> !(self.render_map()[id].tolerant
                        && self.render_map()[id].phase < 2),
            },
    {
        broadcast use vstd::std_specs::hash::group_hash_axioms;

        proof {
            use_type_invariant(self);
            vstd::std_specs::hash::axiom_spec_hash_map_iter(&self.renders);
        }
        let ghost pairs = vstd::std_specs::hash::spec_hash_map_iter(&self.renders).remaining();
        for kv in it: self.renders.iter()
            invariant
                it.seq() == pairs,
                forall|i: int|
                    #![trigger pairs[i]]
                    0 <= i < pairs.len() ==> self.renders@.contains_key(*pairs[i].0) && self.renders@[*pairs[i].0]
                        == *pairs[i].1,
                forall|j: int|
                    #![trigger pairs[j]]
                    0 <= j < it.index() ==> !(pairs[j].1.tolerant && pairs[j].1.phase < 2),
        {
            assert(pairs[it.index() as int] == kv);
            if kv.1.tolerant && kv.1.phase < 2 {
                return Some(*kv.0);
            }
        }
        proof {
            assert forall|id: RenderId| #[trigger] self.render_map().contains_key(id) implies !(
            self.render_map()[id].tolerant && self.render_map()[id].phase < 2) by {
                assert(pairs.contains((&id, &self.renders@[id])));
                let i = choose|i: int| 0 <= i < pairs.len() && pairs[i] == (&id, &self.renders@[id]);
                assert(pairs[i].1 == &self.renders@[id]);
            }
        }
        None
    }

    /// Records that browser `browser_id` belongs to render `render_id`.
    pub fn bind_browser(&mut self, browser_id: i32, render_id: RenderId)
        ensures
            final(self).bindings() == old(self).bindings().insert(browser_id, render_id),
            final(self).render_map() == old(self).render_map(),
            final(self).queued() == old(self).queued(),
            final(self).capacity() == old(self).capacity(),
            final(self).single_shot_id() == old(self).single_shot_id(),
            final(self).creating_id() == old(self).creating_id(),
    {
        broadcast use vstd::std_specs::hash::group_hash_axioms;

        proof {
            use_type_invariant(&*self);
        }
        let mut m = HashMap::new();
        std::mem::swap(&mut m, &mut self.by_browser);
        m.insert(browser_id, render_id);
        self.by_browser = m;
    }
}

} // verus!
