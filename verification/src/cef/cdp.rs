//! A DevTools-protocol channel to one browser: numbered method calls going
//! out, and event handlers keyed by event method.
use crate::text::{chars_eq, chars_of, push_signed_decimal, push_str, signed_decimal, string_from_utf8_lossy, string_of, lossy_text};
use vstd::prelude::*;

verus! {

/// The state behind a `Cdp`: the id of the next call and the registered
/// event handlers, in registration order.
pub struct CdpInner<H> {
    next_id: i32,
    event_handlers: Vec<(String, H)>,
}

/// A DevTools-protocol channel.
pub struct Cdp<H>(pub CdpInner<H>);

/// The id after `id` (wrapping like an atomic fetch-add).
pub open spec fn following_id(id: i32) -> i32 {
    if id == i32::MAX {
        i32::MIN
    } else {
        (id + 1) as i32
    }
}

/// The text of a DevTools call.
pub open spec fn cdp_message(id: i32, method: Seq<char>, params_json: Seq<char>) -> Seq<char> {
    "{\"id\":"@ + signed_decimal(id as int) + ",\"method\":\""@ + method + "\",\"params\":"@ + params_json
        + "}"@
}

impl<H> Cdp<H> {
    /// The id the next call gets.
    pub closed spec fn next_id(&self) -> i32 {
        self.0.next_id
    }

    /// A channel whose first call gets id 1, with no handlers.
    pub fn new() -> (c: Cdp<H>)
        ensures
            c.next_id() == 1,
            c.entries().len() == 0,
    {
        Cdp(CdpInner { next_id: 1, event_handlers: Vec::new() })
    }

    /// Registers `handler` for events named `method`.
    pub fn on_event(&mut self, method: &str, handler: H)
        ensures
            final(self).entries() == old(self).entries().push((method@, handler)),
            final(self).next_id() == old(self).next_id(),
    {
        let ghost before = self.0.event_handlers@;
        self.0.event_handlers.push((string_of(&chars_of(method)), handler));
        assert(self.entries() =~= before.map_values(|p: (String, H)| (p.0@, p.1)).push((method@, handler)));
    }

    /// The registered (method, handler) pairs, in registration order.
    pub closed spec fn entries(&self) -> Seq<(Seq<char>, H)> {
        self.0.event_handlers@.map_values(|p: (String, H)| (p.0@, p.1))
    }

    /// The handlers to run for an event named `method`: those registered
    /// for it, in registration order.
    pub fn handlers_for(&self, method: &str) -> (r: Vec<&H>)
        ensures
            r@.len() == handlers_matching(self.entries(), method@).len(),
            forall|k: int| 0 <= k < r@.len() ==> *r@[k] == handlers_matching(self.entries(), method@)[k],
    {
        let m = chars_of(method);
        let mut r: Vec<&H> = Vec::new();
        let mut i: usize = 0;
        while i < self.0.event_handlers.len()
            invariant
                i <= self.0.event_handlers@.len(),
                m@ == method@,
                r@.len() == handlers_matching(self.entries().take(i as int), method@).len(),
                forall|k: int| 0 <= k < r@.len() ==> *r@[k] == handlers_matching(self.entries().take(i as int), method@)[k],
            decreases self.0.event_handlers.len() - i,
        {
            let name = chars_of(self.0.event_handlers[i].0.as_str());
            proof {
                assert(self.entries().take(i + 1).drop_last() == self.entries().take(i as int));
                assert(self.entries().take(i + 1).last() == (name@, self.0.event_handlers@[i as int].1));
            }
            if chars_eq(&name, &m) {
                r.push(&self.0.event_handlers[i].1);
            }
            i = i + 1;
        }
        assert(self.entries().take(i as int) == self.entries());
        r
    }

    /// Numbers a call of `method` with `params_json` and returns the text to
    /// send to the browser.
    pub fn send(&mut self, method: &str, params_json: &str) -> (msg: String)
        ensures
            msg@ == cdp_message(old(self).next_id(), method@, params_json@),
            final(self).next_id() == following_id(old(self).next_id()),
            final(self).entries() == old(self).entries(),
    {
        let id = self.0.next_id;
        self.0.next_id = id.wrapping_add(1);
        let mut out = chars_of("{\"id\":");
        push_signed_decimal(&mut out, id as i64);
        push_str(&mut out, ",\"method\":\"");
        push_str(&mut out, method);
        push_str(&mut out, "\",\"params\":");
        push_str(&mut out, params_json);
        push_str(&mut out, "}");
        string_of(&out)
    }
}

/// The handlers registered for `method`, in registration order.
pub open spec fn handlers_matching<H>(entries: Seq<(Seq<char>, H)>, method: Seq<char>) -> Seq<H>
    decreases entries.len(),
{
    if entries.len() == 0 {
        Seq::empty()
    } else if entries.last().0 == method {
        handlers_matching(entries.drop_last(), method).push(entries.last().1)
    } else {
        handlers_matching(entries.drop_last(), method)
    }
}

/// The report of a failed call: `message_id` is the call's id, `result`
/// the browser's reply (read as UTF-8, invalid sequences replaced).
pub fn method_error_line(message_id: i32, result: Option<&[u8]>) -> (r: String)
    ensures
        r@ == "\nerror: cdp id="@ + signed_decimal(message_id as int) + ": "@ + match result {
            Some(b) => lossy_text(b@),
            None => Seq::<char>::empty(),
        },
{
    let mut out = chars_of("\nerror: cdp id=");
    push_signed_decimal(&mut out, message_id as i64);
    push_str(&mut out, ": ");
    match result {
        Some(b) => {
            let text = string_from_utf8_lossy(b);
            push_str(&mut out, text.as_str());
        },
        None => {},
    }
    string_of(&out)
}

/// The id the call gets that a fresh channel makes after `k` earlier calls
/// (`new` starts at 1, each `send` moves to `following_id`).
pub open spec fn nth_call_id(k: nat) -> i32
    decreases k,
{
    if k == 0 {
        1
    } else {
        following_id(nth_call_id((k - 1) as nat))
    }
}

/// Calls on a fresh channel are numbered 1, 2, 3, ...: the call made after
/// `k` earlier ones gets id `k + 1`, so no two of the first `i32::MAX`
/// calls share an id.
pub proof fn law_call_ids_count_up(i: nat, j: nat)
    requires
        i < j < i32::MAX,
    ensures
        nth_call_id(i) == i + 1,
        nth_call_id(j) == j + 1,
        nth_call_id(i) != nth_call_id(j),
{
    lemma_nth_call_id(j);
    lemma_nth_call_id(i);
}

proof fn lemma_nth_call_id(k: nat)
    requires
        k < i32::MAX,
    ensures
        nth_call_id(k) == k + 1,
    decreases k,
{
    if k > 0 {
        lemma_nth_call_id((k - 1) as nat);
    }
}

} // verus!
