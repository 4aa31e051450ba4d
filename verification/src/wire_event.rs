//! Wire form of events.
//!
//! One event is a tag byte followed by its payload fields in order. A tag the
//! client does not know parses as `Unknown`, whatever follows it; for every
//! known tag the payload must be consumed exactly. The spec functions are the
//! definition of the format; `lemma_parse_enc_event` is the round trip.

use crate::messages::{
    view_inverse_offers, view_offers, AgentID, Event, EventV, ExecutorID, FrameworkID,
    InverseOffer, InverseOfferV, Offer, OfferID, OfferV, TaskID, TaskStatus, TaskStatusV,
};
use crate::wire::{
    enc_bytes, enc_opt_bytes, enc_opt_u64, enc_u64, lemma_take_bytes, lemma_take_opt_bytes,
    lemma_take_opt_u64, lemma_take_u64, put_bytes, put_opt_bytes, put_opt_u64, put_u64, take_bytes,
    take_opt_bytes, take_opt_u64, take_u64, Reader,
};
use vstd::prelude::*;

verus! {

pub const TAG_UNKNOWN: u8 = 0;

pub const TAG_SUBSCRIBED: u8 = 1;

pub const TAG_OFFERS: u8 = 2;

pub const TAG_INVERSE_OFFERS: u8 = 3;

pub const TAG_RESCIND: u8 = 4;

pub const TAG_UPDATE: u8 = 5;

pub const TAG_MESSAGE: u8 = 6;

pub const TAG_FAILURE: u8 = 7;

pub const TAG_ERROR: u8 = 8;

pub const TAG_HEARTBEAT: u8 = 9;

// ---------------------------------------------------------------------------
// Well-formedness: every length must be representable in the length fields
// ---------------------------------------------------------------------------

pub open spec fn wf_offer(o: OfferV) -> bool {
    o.id.len() <= u64::MAX && o.agent_id.len() <= u64::MAX
}

pub open spec fn wf_inverse_offer(o: InverseOfferV) -> bool {
    o.id.len() <= u64::MAX && o.agent_id.len() <= u64::MAX
}

pub open spec fn wf_task_status(t: TaskStatusV) -> bool {
    t.task_id.len() <= u64::MAX && t.agent_id.len() <= u64::MAX && t.uuid.len() <= u64::MAX
}

pub open spec fn wf_event(e: EventV) -> bool {
    match e {
        EventV::Subscribed { framework_id, .. } => framework_id.len() <= u64::MAX,
        EventV::Offers { offers } => offers.len() <= u64::MAX && (forall|i: int|
            0 <= i < offers.len() ==> wf_offer(#[trigger] offers[i])),
        EventV::InverseOffers { inverse_offers } => inverse_offers.len() <= u64::MAX && (forall|
            i: int,
        |
            0 <= i < inverse_offers.len() ==> wf_inverse_offer(#[trigger] inverse_offers[i])),
        EventV::Rescind { offer_id } => offer_id.len() <= u64::MAX,
        EventV::Update { status } => wf_task_status(status),
        EventV::Message { agent_id, executor_id, data } => agent_id.len() <= u64::MAX
            && executor_id.len() <= u64::MAX && data.len() <= u64::MAX,
        EventV::Failure { agent_id, executor_id, .. } => (agent_id matches Some(a) ==> a.len()
            <= u64::MAX) && (executor_id matches Some(x) ==> x.len() <= u64::MAX),
        EventV::Error { message } => message.len() <= u64::MAX,
        EventV::Heartbeat => true,
        EventV::Unknown => true,
    }
}

// ---------------------------------------------------------------------------
// Specification: encoders
// ---------------------------------------------------------------------------

pub open spec fn enc_offer(o: OfferV) -> Seq<u8> {
    enc_bytes(o.id) + enc_bytes(o.agent_id)
}

pub open spec fn enc_inverse_offer(o: InverseOfferV) -> Seq<u8> {
    enc_bytes(o.id) + enc_bytes(o.agent_id)
}

pub open spec fn enc_task_status(t: TaskStatusV) -> Seq<u8> {
    enc_bytes(t.task_id) + enc_u64(t.state) + enc_bytes(t.agent_id) + enc_bytes(t.uuid)
}

pub open spec fn enc_offer_items(items: Seq<OfferV>) -> Seq<u8>
    decreases items.len(),
{
    if items.len() == 0 {
        Seq::empty()
    } else {
        enc_offer(items[0]) + enc_offer_items(items.skip(1))
    }
}

pub open spec fn enc_offer_list(items: Seq<OfferV>) -> Seq<u8> {
    enc_u64(items.len() as u64) + enc_offer_items(items)
}

pub open spec fn enc_inverse_offer_items(items: Seq<InverseOfferV>) -> Seq<u8>
    decreases items.len(),
{
    if items.len() == 0 {
        Seq::empty()
    } else {
        enc_inverse_offer(items[0]) + enc_inverse_offer_items(items.skip(1))
    }
}

pub open spec fn enc_inverse_offer_list(items: Seq<InverseOfferV>) -> Seq<u8> {
    enc_u64(items.len() as u64) + enc_inverse_offer_items(items)
}

/// The payload of one event frame: tag byte, then the fields of the variant.
pub open spec fn enc_event(e: EventV) -> Seq<u8> {
    match e {
        EventV::Subscribed { framework_id, heartbeat_interval_seconds } => seq![TAG_SUBSCRIBED]
            + enc_bytes(framework_id) + enc_opt_u64(heartbeat_interval_seconds),
        EventV::Offers { offers } => seq![TAG_OFFERS] + enc_offer_list(offers),
        EventV::InverseOffers { inverse_offers } => seq![TAG_INVERSE_OFFERS]
            + enc_inverse_offer_list(inverse_offers),
        EventV::Rescind { offer_id } => seq![TAG_RESCIND] + enc_bytes(offer_id),
        EventV::Update { status } => seq![TAG_UPDATE] + enc_task_status(status),
        EventV::Message { agent_id, executor_id, data } => seq![TAG_MESSAGE] + enc_bytes(agent_id)
            + enc_bytes(executor_id) + enc_bytes(data),
        EventV::Failure { agent_id, executor_id, exit_status } => seq![TAG_FAILURE] + enc_opt_bytes(
            agent_id,
        ) + enc_opt_bytes(executor_id) + enc_opt_u64(exit_status),
        EventV::Error { message } => seq![TAG_ERROR] + enc_bytes(message),
        EventV::Heartbeat => seq![TAG_HEARTBEAT],
        EventV::Unknown => seq![TAG_UNKNOWN],
    }
}

// ---------------------------------------------------------------------------
// Specification: parsers
// ---------------------------------------------------------------------------

pub open spec fn take_offer(s: Seq<u8>) -> Option<(OfferV, Seq<u8>)> {
    match take_bytes(s) {
        Some((id, r)) => match take_bytes(r) {
            Some((agent_id, r2)) => Some((OfferV { id, agent_id }, r2)),
            None => None,
        },
        None => None,
    }
}

pub open spec fn take_inverse_offer(s: Seq<u8>) -> Option<(InverseOfferV, Seq<u8>)> {
    match take_bytes(s) {
        Some((id, r)) => match take_bytes(r) {
            Some((agent_id, r2)) => Some((InverseOfferV { id, agent_id }, r2)),
            None => None,
        },
        None => None,
    }
}

pub open spec fn take_task_status(s: Seq<u8>) -> Option<(TaskStatusV, Seq<u8>)> {
    match take_bytes(s) {
        Some((task_id, r)) => match take_u64(r) {
            Some((state, r1)) => match take_bytes(r1) {
                Some((agent_id, r2)) => match take_bytes(r2) {
                    Some((uuid, r3)) => Some(
                        (TaskStatusV { task_id, state, agent_id, uuid }, r3),
                    ),
                    None => None,
                },
                None => None,
            },
            None => None,
        },
        None => None,
    }
}

pub open spec fn take_n_offers(s: Seq<u8>, n: nat) -> Option<(Seq<OfferV>, Seq<u8>)>
    decreases n,
{
    if n == 0 {
        Some((Seq::empty(), s))
    } else {
        match take_offer(s) {
            Some((o, r)) => match take_n_offers(r, (n - 1) as nat) {
                Some((os, r2)) => Some((seq![o] + os, r2)),
                None => None,
            },
            None => None,
        }
    }
}

pub open spec fn take_offer_list(s: Seq<u8>) -> Option<(Seq<OfferV>, Seq<u8>)> {
    match take_u64(s) {
        Some((n, r)) => take_n_offers(r, n as nat),
        None => None,
    }
}

pub open spec fn take_n_inverse_offers(s: Seq<u8>, n: nat) -> Option<(Seq<InverseOfferV>, Seq<u8>)>
    decreases n,
{
    if n == 0 {
        Some((Seq::empty(), s))
    } else {
        match take_inverse_offer(s) {
            Some((o, r)) => match take_n_inverse_offers(r, (n - 1) as nat) {
                Some((os, r2)) => Some((seq![o] + os, r2)),
                None => None,
            },
            None => None,
        }
    }
}

pub open spec fn take_inverse_offer_list(s: Seq<u8>) -> Option<(Seq<InverseOfferV>, Seq<u8>)> {
    match take_u64(s) {
        Some((n, r)) => take_n_inverse_offers(r, n as nat),
        None => None,
    }
}

/// Parses one complete event payload. For a known tag the whole payload must
/// be consumed; an unknown tag yields `Unknown` whatever follows it.
pub open spec fn parse_event(s: Seq<u8>) -> Option<EventV> {
    if s.len() == 0 {
        None
    } else {
        let tag = s[0];
        let r = s.skip(1);
        if tag == TAG_SUBSCRIBED {
            match take_bytes(r) {
                Some((framework_id, r1)) => match take_opt_u64(r1) {
                    Some((hb, r2)) => if r2.len() == 0 {
                        Some(
                            EventV::Subscribed {
                                framework_id,
                                heartbeat_interval_seconds: hb,
                            },
                        )
                    } else {
                        None
                    },
                    None => None,
                },
                None => None,
            }
        } else if tag == TAG_OFFERS {
            match take_offer_list(r) {
                Some((offers, r1)) => if r1.len() == 0 {
                    Some(EventV::Offers { offers })
                } else {
                    None
                },
                None => None,
            }
        } else if tag == TAG_INVERSE_OFFERS {
            match take_inverse_offer_list(r) {
                Some((inverse_offers, r1)) => if r1.len() == 0 {
                    Some(EventV::InverseOffers { inverse_offers })
                } else {
                    None
                },
                None => None,
            }
        } else if tag == TAG_RESCIND {
            match take_bytes(r) {
                Some((offer_id, r1)) => if r1.len() == 0 {
                    Some(EventV::Rescind { offer_id })
                } else {
                    None
                },
                None => None,
            }
        } else if tag == TAG_UPDATE {
            match take_task_status(r) {
                Some((status, r1)) => if r1.len() == 0 {
                    Some(EventV::Update { status })
                } else {
                    None
                },
                None => None,
            }
        } else if tag == TAG_MESSAGE {
            match take_bytes(r) {
                Some((agent_id, r1)) => match take_bytes(r1) {
                    Some((executor_id, r2)) => match take_bytes(r2) {
                        Some((data, r3)) => if r3.len() == 0 {
                            Some(EventV::Message { agent_id, executor_id, data })
                        } else {
                            None
                        },
                        None => None,
                    },
                    None => None,
                },
                None => None,
            }
        } else if tag == TAG_FAILURE {
            match take_opt_bytes(r) {
                Some((agent_id, r1)) => match take_opt_bytes(r1) {
                    Some((executor_id, r2)) => match take_opt_u64(r2) {
                        Some((exit_status, r3)) => if r3.len() == 0 {
                            Some(EventV::Failure { agent_id, executor_id, exit_status })
                        } else {
                            None
                        },
                        None => None,
                    },
                    None => None,
                },
                None => None,
            }
        } else if tag == TAG_ERROR {
            match take_bytes(r) {
                Some((message, r1)) => if r1.len() == 0 {
                    Some(EventV::Error { message })
                } else {
                    None
                },
                None => None,
            }
        } else if tag == TAG_HEARTBEAT {
            if r.len() == 0 {
                Some(EventV::Heartbeat)
            } else {
                None
            }
        } else {
            Some(EventV::Unknown)
        }
    }
}

// ---------------------------------------------------------------------------
// Round-trip lemmas
// ---------------------------------------------------------------------------

pub proof fn lemma_take_offer(o: OfferV, rest: Seq<u8>)
    requires
        wf_offer(o),
    ensures
        take_offer(enc_offer(o) + rest) == Some((o, rest)),
{
    assert(enc_offer(o) + rest =~= enc_bytes(o.id) + (enc_bytes(o.agent_id) + rest));
    lemma_take_bytes(o.id, enc_bytes(o.agent_id) + rest);
    lemma_take_bytes(o.agent_id, rest);
}

pub proof fn lemma_take_inverse_offer(o: InverseOfferV, rest: Seq<u8>)
    requires
        wf_inverse_offer(o),
    ensures
        take_inverse_offer(enc_inverse_offer(o) + rest) == Some((o, rest)),
{
    assert(enc_inverse_offer(o) + rest =~= enc_bytes(o.id) + (enc_bytes(o.agent_id) + rest));
    lemma_take_bytes(o.id, enc_bytes(o.agent_id) + rest);
    lemma_take_bytes(o.agent_id, rest);
}

pub proof fn lemma_take_task_status(t: TaskStatusV, rest: Seq<u8>)
    requires
        wf_task_status(t),
    ensures
        take_task_status(enc_task_status(t) + rest) == Some((t, rest)),
{
    let s1 = enc_u64(t.state) + (enc_bytes(t.agent_id) + (enc_bytes(t.uuid) + rest));
    assert(enc_task_status(t) + rest =~= enc_bytes(t.task_id) + s1);
    lemma_take_bytes(t.task_id, s1);
    lemma_take_u64(t.state, enc_bytes(t.agent_id) + (enc_bytes(t.uuid) + rest));
    lemma_take_bytes(t.agent_id, enc_bytes(t.uuid) + rest);
    lemma_take_bytes(t.uuid, rest);
}

pub proof fn lemma_take_n_offers(items: Seq<OfferV>, rest: Seq<u8>)
    requires
        forall|i: int| 0 <= i < items.len() ==> wf_offer(#[trigger] items[i]),
    ensures
        take_n_offers(enc_offer_items(items) + rest, items.len()) == Some((items, rest)),
    decreases items.len(),
{
    if items.len() == 0 {
        assert(enc_offer_items(items) + rest =~= rest);
        assert(items =~= Seq::<OfferV>::empty());
    } else {
        let tail = items.skip(1);
        assert(enc_offer_items(items) + rest =~= enc_offer(items[0]) + (enc_offer_items(tail)
            + rest));
        lemma_take_offer(items[0], enc_offer_items(tail) + rest);
        assert(forall|i: int| 0 <= i < tail.len() ==> wf_offer(#[trigger] tail[i]));
        lemma_take_n_offers(tail, rest);
        assert(seq![items[0]] + tail =~= items);
    }
}

pub proof fn lemma_take_n_inverse_offers(items: Seq<InverseOfferV>, rest: Seq<u8>)
    requires
        forall|i: int| 0 <= i < items.len() ==> wf_inverse_offer(#[trigger] items[i]),
    ensures
        take_n_inverse_offers(enc_inverse_offer_items(items) + rest, items.len()) == Some(
            (items, rest),
        ),
    decreases items.len(),
{
    if items.len() == 0 {
        assert(enc_inverse_offer_items(items) + rest =~= rest);
        assert(items =~= Seq::<InverseOfferV>::empty());
    } else {
        let tail = items.skip(1);
        assert(enc_inverse_offer_items(items) + rest =~= enc_inverse_offer(items[0]) + (
        enc_inverse_offer_items(tail) + rest));
        lemma_take_inverse_offer(items[0], enc_inverse_offer_items(tail) + rest);
        assert(forall|i: int| 0 <= i < tail.len() ==> wf_inverse_offer(#[trigger] tail[i]));
        lemma_take_n_inverse_offers(tail, rest);
        assert(seq![items[0]] + tail =~= items);
    }
}

/// The round trip at the payload level: parsing the encoding of a
/// well-formed event yields exactly that event.
pub proof fn lemma_parse_enc_event(e: EventV)
    requires
        wf_event(e),
    ensures
        parse_event(enc_event(e)) == Some(e),
{
    let s = enc_event(e);
    let empty = Seq::<u8>::empty();
    match e {
        EventV::Subscribed { framework_id, heartbeat_interval_seconds } => {
            assert(s[0] == TAG_SUBSCRIBED);
            assert(s.skip(1) =~= enc_bytes(framework_id) + enc_opt_u64(
                heartbeat_interval_seconds,
            ));
            lemma_take_bytes(framework_id, enc_opt_u64(heartbeat_interval_seconds));
            assert(enc_opt_u64(heartbeat_interval_seconds) =~= enc_opt_u64(
                heartbeat_interval_seconds,
            ) + empty);
            lemma_take_opt_u64(heartbeat_interval_seconds, empty);
        },
        EventV::Offers { offers } => {
            assert(s[0] == TAG_OFFERS);
            assert(s.skip(1) =~= enc_u64(offers.len() as u64) + (enc_offer_items(offers) + empty));
            lemma_take_u64(offers.len() as u64, enc_offer_items(offers) + empty);
            lemma_take_n_offers(offers, empty);
        },
        EventV::InverseOffers { inverse_offers } => {
            assert(s[0] == TAG_INVERSE_OFFERS);
            assert(s.skip(1) =~= enc_u64(inverse_offers.len() as u64) + (enc_inverse_offer_items(
                inverse_offers,
            ) + empty));
            lemma_take_u64(inverse_offers.len() as u64, enc_inverse_offer_items(inverse_offers)
                + empty);
            lemma_take_n_inverse_offers(inverse_offers, empty);
        },
        EventV::Rescind { offer_id } => {
            assert(s[0] == TAG_RESCIND);
            assert(s.skip(1) =~= enc_bytes(offer_id) + empty);
            lemma_take_bytes(offer_id, empty);
        },
        EventV::Update { status } => {
            assert(s[0] == TAG_UPDATE);
            assert(s.skip(1) =~= enc_task_status(status) + empty);
            lemma_take_task_status(status, empty);
        },
        EventV::Message { agent_id, executor_id, data } => {
            assert(s[0] == TAG_MESSAGE);
            assert(s.skip(1) =~= enc_bytes(agent_id) + (enc_bytes(executor_id) + (enc_bytes(data)
                + empty)));
            lemma_take_bytes(agent_id, enc_bytes(executor_id) + (enc_bytes(data) + empty));
            lemma_take_bytes(executor_id, enc_bytes(data) + empty);
            lemma_take_bytes(data, empty);
        },
        EventV::Failure { agent_id, executor_id, exit_status } => {
            assert(s[0] == TAG_FAILURE);
            assert(s.skip(1) =~= enc_opt_bytes(agent_id) + (enc_opt_bytes(executor_id) + (
            enc_opt_u64(exit_status) + empty)));
            lemma_take_opt_bytes(agent_id, enc_opt_bytes(executor_id) + (enc_opt_u64(exit_status)
                + empty));
            lemma_take_opt_bytes(executor_id, enc_opt_u64(exit_status) + empty);
            lemma_take_opt_u64(exit_status, empty);
        },
        EventV::Error { message } => {
            assert(s[0] == TAG_ERROR);
            assert(s.skip(1) =~= enc_bytes(message) + empty);
            lemma_take_bytes(message, empty);
        },
        EventV::Heartbeat => {
            assert(s[0] == TAG_HEARTBEAT);
            assert(s.skip(1) =~= empty);
        },
        EventV::Unknown => {
            assert(s[0] == TAG_UNKNOWN);
        },
    }
}

/// The encoding of an event is never empty: its tag byte leads.
pub proof fn lemma_enc_event_len(e: EventV)
    ensures
        enc_event(e).len() >= 1,
{
}

proof fn lemma_enc_offer_items_snoc(items: Seq<OfferV>, x: OfferV)
    ensures
        enc_offer_items(items.push(x)) == enc_offer_items(items) + enc_offer(x),
    decreases items.len(),
{
    if items.len() == 0 {
        assert(items.push(x)[0] == x);
        assert(items.push(x).skip(1) =~= Seq::<OfferV>::empty());
        assert(enc_offer_items(Seq::<OfferV>::empty()) == Seq::<u8>::empty());
        assert(enc_offer_items(items.push(x)) == enc_offer(x) + enc_offer_items(
            Seq::<OfferV>::empty(),
        ));
        assert(enc_offer_items(items.push(x)) =~= enc_offer(x));
        assert(enc_offer_items(items) + enc_offer(x) =~= enc_offer(x));
    } else {
        assert(items.push(x).skip(1) =~= items.skip(1).push(x));
        lemma_enc_offer_items_snoc(items.skip(1), x);
        assert(enc_offer_items(items.push(x)) =~= enc_offer_items(items) + enc_offer(x));
    }
}

proof fn lemma_enc_inverse_offer_items_snoc(items: Seq<InverseOfferV>, x: InverseOfferV)
    ensures
        enc_inverse_offer_items(items.push(x)) == enc_inverse_offer_items(items)
            + enc_inverse_offer(x),
    decreases items.len(),
{
    if items.len() == 0 {
        assert(items.push(x)[0] == x);
        assert(items.push(x).skip(1) =~= Seq::<InverseOfferV>::empty());
        assert(enc_inverse_offer_items(Seq::<InverseOfferV>::empty()) == Seq::<u8>::empty());
        assert(enc_inverse_offer_items(items.push(x)) == enc_inverse_offer(x)
            + enc_inverse_offer_items(Seq::<InverseOfferV>::empty()));
        assert(enc_inverse_offer_items(items.push(x)) =~= enc_inverse_offer(x));
        assert(enc_inverse_offer_items(items) + enc_inverse_offer(x) =~= enc_inverse_offer(x));
    } else {
        assert(items.push(x).skip(1) =~= items.skip(1).push(x));
        lemma_enc_inverse_offer_items_snoc(items.skip(1), x);
        assert(enc_inverse_offer_items(items.push(x)) =~= enc_inverse_offer_items(items)
            + enc_inverse_offer(x));
    }
}

// ---------------------------------------------------------------------------
// Executable encoder
// ---------------------------------------------------------------------------

fn put_offer(out: &mut Vec<u8>, o: &Offer)
    ensures
        final(out)@ == old(out)@ + enc_offer(o@),
{
    put_bytes(out, o.id.value.as_slice());
    put_bytes(out, o.agent_id.value.as_slice());
    assert(final(out)@ =~= old(out)@ + enc_offer(o@));
}

fn put_inverse_offer(out: &mut Vec<u8>, o: &InverseOffer)
    ensures
        final(out)@ == old(out)@ + enc_inverse_offer(o@),
{
    put_bytes(out, o.id.value.as_slice());
    put_bytes(out, o.agent_id.value.as_slice());
    assert(final(out)@ =~= old(out)@ + enc_inverse_offer(o@));
}

fn put_offer_list(out: &mut Vec<u8>, items: &Vec<Offer>)
    ensures
        final(out)@ == old(out)@ + enc_offer_list(view_offers(items@)),
{
    let ghost vs = view_offers(items@);
    put_u64(out, items.len() as u64);
    let ghost mid = out@;
    let n = items.len();
    let mut i: usize = 0;
    while i < n
        invariant
            i <= n,
            n == items.len(),
            vs == view_offers(items@),
            vs.len() == n,
            out@ == mid + enc_offer_items(vs.take(i as int)),
        decreases n - i,
    {
        put_offer(out, &items[i]);
        proof {
            assert(vs[i as int] == items@[i as int]@);
            assert(vs.take(i + 1 as int) =~= vs.take(i as int).push(vs[i as int]));
            lemma_enc_offer_items_snoc(vs.take(i as int), vs[i as int]);
            assert(out@ =~= mid + enc_offer_items(vs.take(i + 1 as int)));
        }
        i = i + 1;
    }
    proof {
        assert(vs.take(n as int) =~= vs);
        assert(final(out)@ =~= old(out)@ + enc_offer_list(vs));
    }
}

fn put_inverse_offer_list(out: &mut Vec<u8>, items: &Vec<InverseOffer>)
    ensures
        final(out)@ == old(out)@ + enc_inverse_offer_list(view_inverse_offers(items@)),
{
    let ghost vs = view_inverse_offers(items@);
    put_u64(out, items.len() as u64);
    let ghost mid = out@;
    let n = items.len();
    let mut i: usize = 0;
    while i < n
        invariant
            i <= n,
            n == items.len(),
            vs == view_inverse_offers(items@),
            vs.len() == n,
            out@ == mid + enc_inverse_offer_items(vs.take(i as int)),
        decreases n - i,
    {
        put_inverse_offer(out, &items[i]);
        proof {
            assert(vs[i as int] == items@[i as int]@);
            assert(vs.take(i + 1 as int) =~= vs.take(i as int).push(vs[i as int]));
            lemma_enc_inverse_offer_items_snoc(vs.take(i as int), vs[i as int]);
            assert(out@ =~= mid + enc_inverse_offer_items(vs.take(i + 1 as int)));
        }
        i = i + 1;
    }
    proof {
        assert(vs.take(n as int) =~= vs);
        assert(final(out)@ =~= old(out)@ + enc_inverse_offer_list(vs));
    }
}

fn put_task_status(out: &mut Vec<u8>, t: &TaskStatus)
    ensures
        final(out)@ == old(out)@ + enc_task_status(t@),
{
    put_bytes(out, t.task_id.value.as_slice());
    put_u64(out, t.state);
    put_bytes(out, t.agent_id.value.as_slice());
    put_bytes(out, t.uuid.as_slice());
    assert(final(out)@ =~= old(out)@ + enc_task_status(t@));
}

/// Encodes one event into its wire payload (without the outer frame).
pub fn encode_event(e: &Event) -> (r: Vec<u8>)
    ensures
        r@ == enc_event(e@),
{
    let mut out: Vec<u8> = Vec::new();
    match e {
        Event::Subscribed { framework_id, heartbeat_interval_seconds } => {
            out.push(TAG_SUBSCRIBED);
            put_bytes(&mut out, framework_id.value.as_slice());
            put_opt_u64(&mut out, *heartbeat_interval_seconds);
            assert(out@ =~= enc_event(e@));
        },
        Event::Offers { offers } => {
            out.push(TAG_OFFERS);
            put_offer_list(&mut out, offers);
            assert(out@ =~= enc_event(e@));
        },
        Event::InverseOffers { inverse_offers } => {
            out.push(TAG_INVERSE_OFFERS);
            put_inverse_offer_list(&mut out, inverse_offers);
            assert(out@ =~= enc_event(e@));
        },
        Event::Rescind { offer_id } => {
            out.push(TAG_RESCIND);
            put_bytes(&mut out, offer_id.value.as_slice());
            assert(out@ =~= enc_event(e@));
        },
        Event::Update { status } => {
            out.push(TAG_UPDATE);
            put_task_status(&mut out, status);
            assert(out@ =~= enc_event(e@));
        },
        Event::Message { agent_id, executor_id, data } => {
            out.push(TAG_MESSAGE);
            put_bytes(&mut out, agent_id.value.as_slice());
            put_bytes(&mut out, executor_id.value.as_slice());
            put_bytes(&mut out, data.as_slice());
            assert(out@ =~= enc_event(e@));
        },
        Event::Failure { agent_id, executor_id, exit_status } => {
            out.push(TAG_FAILURE);
            let aid = match agent_id {
                Some(a) => Some(&a.value),
                None => None,
            };
            put_opt_bytes(&mut out, aid);
            let eid = match executor_id {
                Some(x) => Some(&x.value),
                None => None,
            };
            put_opt_bytes(&mut out, eid);
            put_opt_u64(&mut out, *exit_status);
            assert(out@ =~= enc_event(e@));
        },
        Event::Error { message } => {
            out.push(TAG_ERROR);
            put_bytes(&mut out, message.as_slice());
            assert(out@ =~= enc_event(e@));
        },
        Event::Heartbeat => {
            out.push(TAG_HEARTBEAT);
            assert(out@ =~= enc_event(e@));
        },
        Event::Unknown => {
            out.push(TAG_UNKNOWN);
            assert(out@ =~= enc_event(e@));
        },
    }
    out
}

// ---------------------------------------------------------------------------
// Executable decoder
// ---------------------------------------------------------------------------

fn take_offer_x(rd: &mut Reader) -> (r: Option<Offer>)
    requires
        old(rd).wf(),
    ensures
        final(rd).wf(),
        match r {
            Some(o) => take_offer(old(rd).rem()) == Some((o@, final(rd).rem())),
            None => take_offer(old(rd).rem()) is None,
        },
{
    match rd.take_bytes() {
        Some(id) => match rd.take_bytes() {
            Some(agent_id) => Some(
                Offer { id: OfferID { value: id }, agent_id: AgentID { value: agent_id } },
            ),
            None => None,
        },
        None => None,
    }
}

fn take_inverse_offer_x(rd: &mut Reader) -> (r: Option<InverseOffer>)
    requires
        old(rd).wf(),
    ensures
        final(rd).wf(),
        match r {
            Some(o) => take_inverse_offer(old(rd).rem()) == Some((o@, final(rd).rem())),
            None => take_inverse_offer(old(rd).rem()) is None,
        },
{
    match rd.take_bytes() {
        Some(id) => match rd.take_bytes() {
            Some(agent_id) => Some(
                InverseOffer { id: OfferID { value: id }, agent_id: AgentID { value: agent_id } },
            ),
            None => None,
        },
        None => None,
    }
}

#[verifier::loop_isolation(false)]
fn take_offer_list_x(rd: &mut Reader) -> (r: Option<Vec<Offer>>)
    requires
        old(rd).wf(),
    ensures
        final(rd).wf(),
        match r {
            Some(v) => take_offer_list(old(rd).rem()) == Some((view_offers(v@), final(rd).rem())),
            None => take_offer_list(old(rd).rem()) is None,
        },
{
    match rd.take_u64() {
        Some(n) => {
            let ghost r1 = rd.rem();
            let mut v: Vec<Offer> = Vec::new();
            let mut i: u64 = 0;
            proof {
                assert(view_offers(v@) =~= Seq::<OfferV>::empty());
                match take_n_offers(r1, n as nat) {
                    Some((os, rest)) => {
                        assert(view_offers(v@) + os =~= os);
                    },
                    None => {},
                }
            }
            while i < n
                invariant
                    i <= n,
                    rd.wf(),
                    view_offers(v@).len() == i,
                    match take_n_offers(rd.rem(), (n - i) as nat) {
                        Some((os, rest)) => take_n_offers(r1, n as nat) == Some(
                            (view_offers(v@) + os, rest),
                        ),
                        None => take_n_offers(r1, n as nat) is None,
                    },
                decreases n - i,
            {
                let ghost rem0 = rd.rem();
                match take_offer_x(rd) {
                    Some(o) => {
                        proof {
                            let m = (n - i) as nat;
                            assert(take_n_offers(rem0, m) == (match take_offer(rem0) {
                                Some((o2, r)) => match take_n_offers(r, (m - 1) as nat) {
                                    Some((os, r2)) => Some((seq![o2] + os, r2)),
                                    None => None,
                                },
                                None => None,
                            }));
                            assert(view_offers(v@.push(o)) =~= view_offers(v@).push(o@));
                            match take_n_offers(rd.rem(), (m - 1) as nat) {
                                Some((os, rest)) => {
                                    assert(view_offers(v@).push(o@) + os =~= view_offers(v@) + (
                                    seq![o@] + os));
                                },
                                None => {},
                            }
                        }
                        v.push(o);
                        i = i + 1;
                    },
                    None => {
                        proof {
                            let m = (n - i) as nat;
                            assert(take_n_offers(rem0, m) == (match take_offer(rem0) {
                                Some((o2, r)) => match take_n_offers(r, (m - 1) as nat) {
                                    Some((os, r2)) => Some((seq![o2] + os, r2)),
                                    None => None,
                                },
                                None => None,
                            }));
                        }
                        return None;
                    },
                }
            }
            proof {
                assert(take_n_offers(rd.rem(), 0) == Some((Seq::<OfferV>::empty(), rd.rem())));
                assert(view_offers(v@) + Seq::<OfferV>::empty() =~= view_offers(v@));
            }
            Some(v)
        },
        None => None,
    }
}

#[verifier::loop_isolation(false)]
fn take_inverse_offer_list_x(rd: &mut Reader) -> (r: Option<Vec<InverseOffer>>)
    requires
        old(rd).wf(),
    ensures
        final(rd).wf(),
        match r {
            Some(v) => take_inverse_offer_list(old(rd).rem()) == Some(
                (view_inverse_offers(v@), final(rd).rem()),
            ),
            None => take_inverse_offer_list(old(rd).rem()) is None,
        },
{
    match rd.take_u64() {
        Some(n) => {
            let ghost r1 = rd.rem();
            let mut v: Vec<InverseOffer> = Vec::new();
            let mut i: u64 = 0;
            proof {
                assert(view_inverse_offers(v@) =~= Seq::<InverseOfferV>::empty());
                match take_n_inverse_offers(r1, n as nat) {
                    Some((os, rest)) => {
                        assert(view_inverse_offers(v@) + os =~= os);
                    },
                    None => {},
                }
            }
            while i < n
                invariant
                    i <= n,
                    rd.wf(),
                    view_inverse_offers(v@).len() == i,
                    match take_n_inverse_offers(rd.rem(), (n - i) as nat) {
                        Some((os, rest)) => take_n_inverse_offers(r1, n as nat) == Some(
                            (view_inverse_offers(v@) + os, rest),
                        ),
                        None => take_n_inverse_offers(r1, n as nat) is None,
                    },
                decreases n - i,
            {
                let ghost rem0 = rd.rem();
                match take_inverse_offer_x(rd) {
                    Some(o) => {
                        proof {
                            let m = (n - i) as nat;
                            assert(take_n_inverse_offers(rem0, m) == (match take_inverse_offer(
                                rem0,
                            ) {
                                Some((o2, r)) => match take_n_inverse_offers(r, (m - 1) as nat) {
                                    Some((os, r2)) => Some((seq![o2] + os, r2)),
                                    None => None,
                                },
                                None => None,
                            }));
                            assert(view_inverse_offers(v@.push(o)) =~= view_inverse_offers(
                                v@,
                            ).push(o@));
                            match take_n_inverse_offers(rd.rem(), (m - 1) as nat) {
                                Some((os, rest)) => {
                                    assert(view_inverse_offers(v@).push(o@) + os =~= view_inverse_offers(
                                        v@,
                                    ) + (seq![o@] + os));
                                },
                                None => {},
                            }
                        }
                        v.push(o);
                        i = i + 1;
                    },
                    None => {
                        proof {
                            let m = (n - i) as nat;
                            assert(take_n_inverse_offers(rem0, m) == (match take_inverse_offer(
                                rem0,
                            ) {
                                Some((o2, r)) => match take_n_inverse_offers(r, (m - 1) as nat) {
                                    Some((os, r2)) => Some((seq![o2] + os, r2)),
                                    None => None,
                                },
                                None => None,
                            }));
                        }
                        return None;
                    },
                }
            }
            proof {
                assert(take_n_inverse_offers(rd.rem(), 0) == Some(
                    (Seq::<InverseOfferV>::empty(), rd.rem()),
                ));
                assert(view_inverse_offers(v@) + Seq::<InverseOfferV>::empty()
                    =~= view_inverse_offers(v@));
            }
            Some(v)
        },
        None => None,
    }
}

fn take_task_status_x(rd: &mut Reader) -> (r: Option<TaskStatus>)
    requires
        old(rd).wf(),
    ensures
        final(rd).wf(),
        match r {
            Some(t) => take_task_status(old(rd).rem()) == Some((t@, final(rd).rem())),
            None => take_task_status(old(rd).rem()) is None,
        },
{
    match rd.take_bytes() {
        Some(task_id) => match rd.take_u64() {
            Some(state) => match rd.take_bytes() {
                Some(agent_id) => match rd.take_bytes() {
                    Some(uuid) => Some(
                        TaskStatus {
                            task_id: TaskID { value: task_id },
                            state,
                            agent_id: AgentID { value: agent_id },
                            uuid,
                        },
                    ),
                    None => None,
                },
                None => None,
            },
            None => None,
        },
        None => None,
    }
}

/// Decodes one complete event payload; mirrors [`parse_event`] exactly.
pub fn decode_event(payload: &[u8]) -> (r: Option<Event>)
    ensures
        match r {
            Some(e) => parse_event(payload@) == Some(e@),
            None => parse_event(payload@) is None,
        },
{
    let mut rd = Reader::new(payload);
    match rd.take_byte() {
        None => None,
        Some(tag) => {
            if tag == TAG_SUBSCRIBED {
                match rd.take_bytes() {
                    Some(fid) => match rd.take_opt_u64() {
                        Some(hb) => if rd.at_end() {
                            Some(
                                Event::Subscribed {
                                    framework_id: FrameworkID { value: fid },
                                    heartbeat_interval_seconds: hb,
                                },
                            )
                        } else {
                            None
                        },
                        None => None,
                    },
                    None => None,
                }
            } else if tag == TAG_OFFERS {
                match take_offer_list_x(&mut rd) {
                    Some(offers) => if rd.at_end() {
                        Some(Event::Offers { offers })
                    } else {
                        None
                    },
                    None => None,
                }
            } else if tag == TAG_INVERSE_OFFERS {
                match take_inverse_offer_list_x(&mut rd) {
                    Some(inverse_offers) => if rd.at_end() {
                        Some(Event::InverseOffers { inverse_offers })
                    } else {
                        None
                    },
                    None => None,
                }
            } else if tag == TAG_RESCIND {
                match rd.take_bytes() {
                    Some(offer_id) => if rd.at_end() {
                        Some(Event::Rescind { offer_id: OfferID { value: offer_id } })
                    } else {
                        None
                    },
                    None => None,
                }
            } else if tag == TAG_UPDATE {
                match take_task_status_x(&mut rd) {
                    Some(status) => if rd.at_end() {
                        Some(Event::Update { status })
                    } else {
                        None
                    },
                    None => None,
                }
            } else if tag == TAG_MESSAGE {
                match rd.take_bytes() {
                    Some(agent_id) => match rd.take_bytes() {
                        Some(executor_id) => match rd.take_bytes() {
                            Some(data) => if rd.at_end() {
                                Some(
                                    Event::Message {
                                        agent_id: AgentID { value: agent_id },
                                        executor_id: ExecutorID { value: executor_id },
                                        data,
                                    },
                                )
                            } else {
                                None
                            },
                            None => None,
                        },
                        None => None,
                    },
                    None => None,
                }
            } else if tag == TAG_FAILURE {
                match rd.take_opt_bytes() {
                    Some(agent_id) => match rd.take_opt_bytes() {
                        Some(executor_id) => match rd.take_opt_u64() {
                            Some(exit_status) => if rd.at_end() {
                                Some(
                                    Event::Failure {
                                        agent_id: match agent_id {
                                            Some(a) => Some(AgentID { value: a }),
                                            None => None,
                                        },
                                        executor_id: match executor_id {
                                            Some(x) => Some(ExecutorID { value: x }),
                                            None => None,
                                        },
                                        exit_status,
                                    },
                                )
                            } else {
                                None
                            },
                            None => None,
                        },
                        None => None,
                    },
                    None => None,
                }
            } else if tag == TAG_ERROR {
                match rd.take_bytes() {
                    Some(message) => if rd.at_end() {
                        Some(Event::Error { message })
                    } else {
                        None
                    },
                    None => None,
                }
            } else if tag == TAG_HEARTBEAT {
                if rd.at_end() {
                    Some(Event::Heartbeat)
                } else {
                    None
                }
            } else {
                Some(Event::Unknown)
            }
        },
    }
}

} // verus!
