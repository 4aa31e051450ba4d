//! Wire form of outbound calls.
//!
//! A call is encoded as its (optional) framework identity, then a tag byte,
//! then the fields of its payload in order. The client only ever produces
//! calls, so this module has the encoder alone; the spec functions define the
//! format and the executable encoder is proved to follow them byte for byte.

use crate::messages::{
    view_offer_ids, view_operations, view_requests, view_resources, view_task_infos,
    view_task_refs, Call, CallKind, CallV, CallKindV, Filters, FrameworkInfo, FrameworkInfoV,
    Operation, OperationV, ResourceRequestV, ResourceV, TaskInfo, TaskInfoV, TaskRefV,
};
use crate::wire::{
    enc_bool, enc_bytes, enc_opt_bytes, enc_u64, put_bool, put_bytes, put_opt_bytes, put_u64,
};
use vstd::prelude::*;

verus! {

pub const CTAG_SUBSCRIBE: u8 = 1;

pub const CTAG_TEARDOWN: u8 = 2;

pub const CTAG_ACCEPT: u8 = 3;

pub const CTAG_DECLINE: u8 = 4;

pub const CTAG_REVIVE: u8 = 5;

pub const CTAG_KILL: u8 = 6;

pub const CTAG_SHUTDOWN: u8 = 7;

pub const CTAG_ACKNOWLEDGE: u8 = 8;

pub const CTAG_RECONCILE: u8 = 9;

pub const CTAG_MESSAGE: u8 = 10;

pub const CTAG_REQUEST: u8 = 11;

pub const CTAG_SUPPRESS: u8 = 12;

pub const OTAG_LAUNCH: u8 = 1;

// ---------------------------------------------------------------------------
// Specification
// ---------------------------------------------------------------------------

pub open spec fn enc_filters(f: Filters) -> Seq<u8> {
    enc_u64(f.refuse_seconds)
}

pub open spec fn enc_opt_filters(o: Option<Filters>) -> Seq<u8> {
    match o {
        Some(f) => enc_bool(true) + enc_filters(f),
        None => enc_bool(false),
    }
}

pub open spec fn enc_resource(r: ResourceV) -> Seq<u8> {
    enc_bytes(r.name) + enc_bytes(r.role) + enc_u64(r.scalar_bits)
}

pub open spec fn enc_resource_items(items: Seq<ResourceV>) -> Seq<u8>
    decreases items.len(),
{
    if items.len() == 0 {
        Seq::empty()
    } else {
        enc_resource(items[0]) + enc_resource_items(items.skip(1))
    }
}

pub open spec fn enc_resource_list(items: Seq<ResourceV>) -> Seq<u8> {
    enc_u64(items.len() as u64) + enc_resource_items(items)
}

pub open spec fn enc_task_info(t: TaskInfoV) -> Seq<u8> {
    enc_bytes(t.name) + enc_bytes(t.task_id) + enc_bytes(t.agent_id) + enc_bytes(t.command)
        + enc_opt_bytes(t.container) + enc_resource_list(t.resources)
}

pub open spec fn enc_task_info_items(items: Seq<TaskInfoV>) -> Seq<u8>
    decreases items.len(),
{
    if items.len() == 0 {
        Seq::empty()
    } else {
        enc_task_info(items[0]) + enc_task_info_items(items.skip(1))
    }
}

pub open spec fn enc_task_info_list(items: Seq<TaskInfoV>) -> Seq<u8> {
    enc_u64(items.len() as u64) + enc_task_info_items(items)
}

pub open spec fn enc_operation(o: OperationV) -> Seq<u8> {
    match o {
        OperationV::Launch { task_infos } => seq![OTAG_LAUNCH] + enc_task_info_list(task_infos),
    }
}

pub open spec fn enc_operation_items(items: Seq<OperationV>) -> Seq<u8>
    decreases items.len(),
{
    if items.len() == 0 {
        Seq::empty()
    } else {
        enc_operation(items[0]) + enc_operation_items(items.skip(1))
    }
}

pub open spec fn enc_operation_list(items: Seq<OperationV>) -> Seq<u8> {
    enc_u64(items.len() as u64) + enc_operation_items(items)
}

pub open spec fn enc_offer_id_items(items: Seq<Seq<u8>>) -> Seq<u8>
    decreases items.len(),
{
    if items.len() == 0 {
        Seq::empty()
    } else {
        enc_bytes(items[0]) + enc_offer_id_items(items.skip(1))
    }
}

pub open spec fn enc_offer_id_list(items: Seq<Seq<u8>>) -> Seq<u8> {
    enc_u64(items.len() as u64) + enc_offer_id_items(items)
}

pub open spec fn enc_task_ref(t: TaskRefV) -> Seq<u8> {
    enc_bytes(t.task_id) + enc_opt_bytes(t.agent_id)
}

pub open spec fn enc_task_ref_items(items: Seq<TaskRefV>) -> Seq<u8>
    decreases items.len(),
{
    if items.len() == 0 {
        Seq::empty()
    } else {
        enc_task_ref(items[0]) + enc_task_ref_items(items.skip(1))
    }
}

pub open spec fn enc_task_ref_list(items: Seq<TaskRefV>) -> Seq<u8> {
    enc_u64(items.len() as u64) + enc_task_ref_items(items)
}

pub open spec fn enc_request(r: ResourceRequestV) -> Seq<u8> {
    enc_bytes(r.agent_id) + enc_resource_list(r.resources)
}

pub open spec fn enc_request_items(items: Seq<ResourceRequestV>) -> Seq<u8>
    decreases items.len(),
{
    if items.len() == 0 {
        Seq::empty()
    } else {
        enc_request(items[0]) + enc_request_items(items.skip(1))
    }
}

pub open spec fn enc_request_list(items: Seq<ResourceRequestV>) -> Seq<u8> {
    enc_u64(items.len() as u64) + enc_request_items(items)
}

pub open spec fn enc_framework_info(f: FrameworkInfoV) -> Seq<u8> {
    enc_bytes(f.user) + enc_bytes(f.name) + enc_u64(f.failover_timeout_seconds) + enc_opt_bytes(
        f.id,
    )
}

/// The payload of a call: tag byte, then the variant's fields.
pub open spec fn enc_call_kind(k: CallKindV) -> Seq<u8> {
    match k {
        CallKindV::Subscribe { framework_info, force } => seq![CTAG_SUBSCRIBE] + enc_framework_info(
            framework_info,
        ) + enc_bool(force),
        CallKindV::Teardown => seq![CTAG_TEARDOWN],
        CallKindV::Accept { offer_ids, operations, filters } => seq![CTAG_ACCEPT]
            + enc_offer_id_list(offer_ids) + enc_operation_list(operations) + enc_opt_filters(
            filters,
        ),
        CallKindV::Decline { offer_ids, filters } => seq![CTAG_DECLINE] + enc_offer_id_list(
            offer_ids,
        ) + enc_opt_filters(filters),
        CallKindV::Revive => seq![CTAG_REVIVE],
        CallKindV::Kill { task_id, agent_id } => seq![CTAG_KILL] + enc_bytes(task_id)
            + enc_opt_bytes(agent_id),
        CallKindV::Shutdown { executor_id, agent_id } => seq![CTAG_SHUTDOWN] + enc_bytes(
            executor_id,
        ) + enc_bytes(agent_id),
        CallKindV::Acknowledge { agent_id, task_id, uuid } => seq![CTAG_ACKNOWLEDGE] + enc_bytes(
            agent_id,
        ) + enc_bytes(task_id) + enc_bytes(uuid),
        CallKindV::Reconcile { tasks } => seq![CTAG_RECONCILE] + enc_task_ref_list(tasks),
        CallKindV::Message { agent_id, executor_id, data } => seq![CTAG_MESSAGE] + enc_bytes(
            agent_id,
        ) + enc_bytes(executor_id) + enc_bytes(data),
        CallKindV::Request { requests } => seq![CTAG_REQUEST] + enc_request_list(requests),
        CallKindV::Suppress => seq![CTAG_SUPPRESS],
    }
}

/// A whole call on the wire: the identity stamp, then the payload.
pub open spec fn enc_call(c: CallV) -> Seq<u8> {
    enc_opt_bytes(c.framework_id) + enc_call_kind(c.kind)
}

// ---------------------------------------------------------------------------
// Snoc lemmas for the counted lists
// ---------------------------------------------------------------------------

proof fn lemma_enc_resource_items_snoc(items: Seq<ResourceV>, x: ResourceV)
    ensures
        enc_resource_items(items.push(x)) == enc_resource_items(items) + enc_resource(x),
    decreases items.len(),
{
    if items.len() == 0 {
        assert(items.push(x)[0] == x);
        assert(items.push(x).skip(1) =~= Seq::<ResourceV>::empty());
        assert(enc_resource_items(Seq::<ResourceV>::empty()) == Seq::<u8>::empty());
        assert(enc_resource_items(items.push(x)) =~= enc_resource_items(items) + enc_resource(x));
    } else {
        assert(items.push(x)[0] == items[0]);
        assert(items.push(x).skip(1) =~= items.skip(1).push(x));
        lemma_enc_resource_items_snoc(items.skip(1), x);
        assert(enc_resource_items(items.push(x)) =~= enc_resource_items(items) + enc_resource(x));
    }
}

proof fn lemma_enc_task_info_items_snoc(items: Seq<TaskInfoV>, x: TaskInfoV)
    ensures
        enc_task_info_items(items.push(x)) == enc_task_info_items(items) + enc_task_info(x),
    decreases items.len(),
{
    if items.len() == 0 {
        assert(items.push(x)[0] == x);
        assert(items.push(x).skip(1) =~= Seq::<TaskInfoV>::empty());
        assert(enc_task_info_items(Seq::<TaskInfoV>::empty()) == Seq::<u8>::empty());
        assert(enc_task_info_items(items.push(x)) =~= enc_task_info_items(items) + enc_task_info(
            x,
        ));
    } else {
        assert(items.push(x)[0] == items[0]);
        assert(items.push(x).skip(1) =~= items.skip(1).push(x));
        lemma_enc_task_info_items_snoc(items.skip(1), x);
        assert(enc_task_info_items(items.push(x)) =~= enc_task_info_items(items) + enc_task_info(
            x,
        ));
    }
}

proof fn lemma_enc_operation_items_snoc(items: Seq<OperationV>, x: OperationV)
    ensures
        enc_operation_items(items.push(x)) == enc_operation_items(items) + enc_operation(x),
    decreases items.len(),
{
    if items.len() == 0 {
        assert(items.push(x)[0] == x);
        assert(items.push(x).skip(1) =~= Seq::<OperationV>::empty());
        assert(enc_operation_items(Seq::<OperationV>::empty()) == Seq::<u8>::empty());
        assert(enc_operation_items(items.push(x)) =~= enc_operation_items(items) + enc_operation(
            x,
        ));
    } else {
        assert(items.push(x)[0] == items[0]);
        assert(items.push(x).skip(1) =~= items.skip(1).push(x));
        lemma_enc_operation_items_snoc(items.skip(1), x);
        assert(enc_operation_items(items.push(x)) =~= enc_operation_items(items) + enc_operation(
            x,
        ));
    }
}

proof fn lemma_enc_offer_id_items_snoc(items: Seq<Seq<u8>>, x: Seq<u8>)
    ensures
        enc_offer_id_items(items.push(x)) == enc_offer_id_items(items) + enc_bytes(x),
    decreases items.len(),
{
    if items.len() == 0 {
        assert(items.push(x)[0] == x);
        assert(items.push(x).skip(1) =~= Seq::<Seq<u8>>::empty());
        assert(enc_offer_id_items(Seq::<Seq<u8>>::empty()) == Seq::<u8>::empty());
        assert(enc_offer_id_items(items.push(x)) =~= enc_offer_id_items(items) + enc_bytes(x));
    } else {
        assert(items.push(x)[0] == items[0]);
        assert(items.push(x).skip(1) =~= items.skip(1).push(x));
        lemma_enc_offer_id_items_snoc(items.skip(1), x);
        assert(enc_offer_id_items(items.push(x)) =~= enc_offer_id_items(items) + enc_bytes(x));
    }
}

proof fn lemma_enc_task_ref_items_snoc(items: Seq<TaskRefV>, x: TaskRefV)
    ensures
        enc_task_ref_items(items.push(x)) == enc_task_ref_items(items) + enc_task_ref(x),
    decreases items.len(),
{
    if items.len() == 0 {
        assert(items.push(x)[0] == x);
        assert(items.push(x).skip(1) =~= Seq::<TaskRefV>::empty());
        assert(enc_task_ref_items(Seq::<TaskRefV>::empty()) == Seq::<u8>::empty());
        assert(enc_task_ref_items(items.push(x)) =~= enc_task_ref_items(items) + enc_task_ref(x));
    } else {
        assert(items.push(x)[0] == items[0]);
        assert(items.push(x).skip(1) =~= items.skip(1).push(x));
        lemma_enc_task_ref_items_snoc(items.skip(1), x);
        assert(enc_task_ref_items(items.push(x)) =~= enc_task_ref_items(items) + enc_task_ref(x));
    }
}

proof fn lemma_enc_request_items_snoc(items: Seq<ResourceRequestV>, x: ResourceRequestV)
    ensures
        enc_request_items(items.push(x)) == enc_request_items(items) + enc_request(x),
    decreases items.len(),
{
    if items.len() == 0 {
        assert(items.push(x)[0] == x);
        assert(items.push(x).skip(1) =~= Seq::<ResourceRequestV>::empty());
        assert(enc_request_items(Seq::<ResourceRequestV>::empty()) == Seq::<u8>::empty());
        assert(enc_request_items(items.push(x)) =~= enc_request_items(items) + enc_request(x));
    } else {
        assert(items.push(x)[0] == items[0]);
        assert(items.push(x).skip(1) =~= items.skip(1).push(x));
        lemma_enc_request_items_snoc(items.skip(1), x);
        assert(enc_request_items(items.push(x)) =~= enc_request_items(items) + enc_request(x));
    }
}

// ---------------------------------------------------------------------------
// Executable encoder
// ---------------------------------------------------------------------------

fn put_opt_filters(out: &mut Vec<u8>, o: &Option<Filters>)
    ensures
        final(out)@ == old(out)@ + enc_opt_filters(*o),
{
    match o {
        Some(f) => {
            put_bool(out, true);
            put_u64(out, f.refuse_seconds);
            assert(final(out)@ =~= old(out)@ + enc_opt_filters(*o));
        },
        None => {
            put_bool(out, false);
        },
    }
}

fn put_resource(out: &mut Vec<u8>, r: &crate::messages::Resource)
    ensures
        final(out)@ == old(out)@ + enc_resource(r@),
{
    put_bytes(out, r.name.as_slice());
    put_bytes(out, r.role.as_slice());
    put_u64(out, r.scalar_bits);
    assert(final(out)@ =~= old(out)@ + enc_resource(r@));
}

fn put_resource_list(out: &mut Vec<u8>, items: &Vec<crate::messages::Resource>)
    ensures
        final(out)@ == old(out)@ + enc_resource_list(view_resources(items@)),
{
    let ghost vs = view_resources(items@);
    put_u64(out, items.len() as u64);
    let ghost mid = out@;
    let n = items.len();
    let mut i: usize = 0;
    #[verifier::loop_isolation(false)]
    while i < n
        invariant
            i <= n,
            out@ == mid + enc_resource_items(vs.take(i as int)),
        decreases n - i,
    {
        put_resource(out, &items[i]);
        proof {
            assert(vs[i as int] == items@[i as int]@);
            assert(vs.take(i + 1 as int) =~= vs.take(i as int).push(vs[i as int]));
            lemma_enc_resource_items_snoc(vs.take(i as int), vs[i as int]);
            assert(out@ =~= mid + enc_resource_items(vs.take(i + 1 as int)));
        }
        i = i + 1;
    }
    proof {
        assert(vs.take(n as int) =~= vs);
        assert(final(out)@ =~= old(out)@ + enc_resource_list(vs));
    }
}

fn put_task_info(out: &mut Vec<u8>, t: &TaskInfo)
    ensures
        final(out)@ == old(out)@ + enc_task_info(t@),
{
    put_bytes(out, t.name.as_slice());
    put_bytes(out, t.task_id.value.as_slice());
    put_bytes(out, t.agent_id.value.as_slice());
    put_bytes(out, t.command.value.as_slice());
    let container = match &t.container {
        Some(c) => Some(&c.image),
        None => None,
    };
    put_opt_bytes(out, container);
    put_resource_list(out, &t.resources);
    assert(final(out)@ =~= old(out)@ + enc_task_info(t@));
}

fn put_task_info_list(out: &mut Vec<u8>, items: &Vec<TaskInfo>)
    ensures
        final(out)@ == old(out)@ + enc_task_info_list(view_task_infos(items@)),
{
    let ghost vs = view_task_infos(items@);
    put_u64(out, items.len() as u64);
    let ghost mid = out@;
    let n = items.len();
    let mut i: usize = 0;
    #[verifier::loop_isolation(false)]
    while i < n
        invariant
            i <= n,
            out@ == mid + enc_task_info_items(vs.take(i as int)),
        decreases n - i,
    {
        put_task_info(out, &items[i]);
        proof {
            assert(vs[i as int] == items@[i as int]@);
            assert(vs.take(i + 1 as int) =~= vs.take(i as int).push(vs[i as int]));
            lemma_enc_task_info_items_snoc(vs.take(i as int), vs[i as int]);
            assert(out@ =~= mid + enc_task_info_items(vs.take(i + 1 as int)));
        }
        i = i + 1;
    }
    proof {
        assert(vs.take(n as int) =~= vs);
        assert(final(out)@ =~= old(out)@ + enc_task_info_list(vs));
    }
}

fn put_operation(out: &mut Vec<u8>, o: &Operation)
    ensures
        final(out)@ == old(out)@ + enc_operation(o@),
{
    match o {
        Operation::Launch { task_infos } => {
            out.push(OTAG_LAUNCH);
            put_task_info_list(out, task_infos);
            assert(final(out)@ =~= old(out)@ + enc_operation(o@));
        },
    }
}

fn put_operation_list(out: &mut Vec<u8>, items: &Vec<Operation>)
    ensures
        final(out)@ == old(out)@ + enc_operation_list(view_operations(items@)),
{
    let ghost vs = view_operations(items@);
    put_u64(out, items.len() as u64);
    let ghost mid = out@;
    let n = items.len();
    let mut i: usize = 0;
    #[verifier::loop_isolation(false)]
    while i < n
        invariant
            i <= n,
            out@ == mid + enc_operation_items(vs.take(i as int)),
        decreases n - i,
    {
        put_operation(out, &items[i]);
        proof {
            assert(vs[i as int] == items@[i as int]@);
            assert(vs.take(i + 1 as int) =~= vs.take(i as int).push(vs[i as int]));
            lemma_enc_operation_items_snoc(vs.take(i as int), vs[i as int]);
            assert(out@ =~= mid + enc_operation_items(vs.take(i + 1 as int)));
        }
        i = i + 1;
    }
    proof {
        assert(vs.take(n as int) =~= vs);
        assert(final(out)@ =~= old(out)@ + enc_operation_list(vs));
    }
}

fn put_offer_id_list(out: &mut Vec<u8>, items: &Vec<crate::messages::OfferID>)
    ensures
        final(out)@ == old(out)@ + enc_offer_id_list(view_offer_ids(items@)),
{
    let ghost vs = view_offer_ids(items@);
    put_u64(out, items.len() as u64);
    let ghost mid = out@;
    let n = items.len();
    let mut i: usize = 0;
    #[verifier::loop_isolation(false)]
    while i < n
        invariant
            i <= n,
            out@ == mid + enc_offer_id_items(vs.take(i as int)),
        decreases n - i,
    {
        put_bytes(out, items[i].value.as_slice());
        proof {
            assert(vs[i as int] == items@[i as int]@);
            assert(vs.take(i + 1 as int) =~= vs.take(i as int).push(vs[i as int]));
            lemma_enc_offer_id_items_snoc(vs.take(i as int), vs[i as int]);
            assert(out@ =~= mid + enc_offer_id_items(vs.take(i + 1 as int)));
        }
        i = i + 1;
    }
    proof {
        assert(vs.take(n as int) =~= vs);
        assert(final(out)@ =~= old(out)@ + enc_offer_id_list(vs));
    }
}

fn put_task_ref(out: &mut Vec<u8>, t: &crate::messages::TaskRef)
    ensures
        final(out)@ == old(out)@ + enc_task_ref(t@),
{
    put_bytes(out, t.task_id.value.as_slice());
    let agent = match &t.agent_id {
        Some(a) => Some(&a.value),
        None => None,
    };
    put_opt_bytes(out, agent);
    assert(final(out)@ =~= old(out)@ + enc_task_ref(t@));
}

fn put_task_ref_list(out: &mut Vec<u8>, items: &Vec<crate::messages::TaskRef>)
    ensures
        final(out)@ == old(out)@ + enc_task_ref_list(view_task_refs(items@)),
{
    let ghost vs = view_task_refs(items@);
    put_u64(out, items.len() as u64);
    let ghost mid = out@;
    let n = items.len();
    let mut i: usize = 0;
    #[verifier::loop_isolation(false)]
    while i < n
        invariant
            i <= n,
            out@ == mid + enc_task_ref_items(vs.take(i as int)),
        decreases n - i,
    {
        put_task_ref(out, &items[i]);
        proof {
            assert(vs[i as int] == items@[i as int]@);
            assert(vs.take(i + 1 as int) =~= vs.take(i as int).push(vs[i as int]));
            lemma_enc_task_ref_items_snoc(vs.take(i as int), vs[i as int]);
            assert(out@ =~= mid + enc_task_ref_items(vs.take(i + 1 as int)));
        }
        i = i + 1;
    }
    proof {
        assert(vs.take(n as int) =~= vs);
        assert(final(out)@ =~= old(out)@ + enc_task_ref_list(vs));
    }
}

fn put_request(out: &mut Vec<u8>, r: &crate::messages::ResourceRequest)
    ensures
        final(out)@ == old(out)@ + enc_request(r@),
{
    put_bytes(out, r.agent_id.value.as_slice());
    put_resource_list(out, &r.resources);
    assert(final(out)@ =~= old(out)@ + enc_request(r@));
}

fn put_request_list(out: &mut Vec<u8>, items: &Vec<crate::messages::ResourceRequest>)
    ensures
        final(out)@ == old(out)@ + enc_request_list(view_requests(items@)),
{
    let ghost vs = view_requests(items@);
    put_u64(out, items.len() as u64);
    let ghost mid = out@;
    let n = items.len();
    let mut i: usize = 0;
    #[verifier::loop_isolation(false)]
    while i < n
        invariant
            i <= n,
            out@ == mid + enc_request_items(vs.take(i as int)),
        decreases n - i,
    {
        put_request(out, &items[i]);
        proof {
            assert(vs[i as int] == items@[i as int]@);
            assert(vs.take(i + 1 as int) =~= vs.take(i as int).push(vs[i as int]));
            lemma_enc_request_items_snoc(vs.take(i as int), vs[i as int]);
            assert(out@ =~= mid + enc_request_items(vs.take(i + 1 as int)));
        }
        i = i + 1;
    }
    proof {
        assert(vs.take(n as int) =~= vs);
        assert(final(out)@ =~= old(out)@ + enc_request_list(vs));
    }
}

fn put_framework_info(out: &mut Vec<u8>, f: &FrameworkInfo)
    ensures
        final(out)@ == old(out)@ + enc_framework_info(f@),
{
    put_bytes(out, f.user.as_slice());
    put_bytes(out, f.name.as_slice());
    put_u64(out, f.failover_timeout_seconds);
    let id = match &f.id {
        Some(fid) => Some(&fid.value),
        None => None,
    };
    put_opt_bytes(out, id);
    assert(final(out)@ =~= old(out)@ + enc_framework_info(f@));
}

/// Encodes one call to its wire form: the identity stamp, then the payload.
#[verifier::rlimit(60)]
pub fn encode_call(c: &Call) -> (r: Vec<u8>)
    ensures
        r@ == enc_call(c@),
{
    let mut out: Vec<u8> = Vec::new();
    let fid = match &c.framework_id {
        Some(f) => Some(&f.value),
        None => None,
    };
    put_opt_bytes(&mut out, fid);
    match &c.kind {
        CallKind::Subscribe { framework_info, force } => {
            out.push(CTAG_SUBSCRIBE);
            put_framework_info(&mut out, framework_info);
            put_bool(&mut out, *force);
            assert(out@ =~= enc_call(c@));
        },
        CallKind::Teardown => {
            out.push(CTAG_TEARDOWN);
            assert(out@ =~= enc_call(c@));
        },
        CallKind::Accept { offer_ids, operations, filters } => {
            out.push(CTAG_ACCEPT);
            put_offer_id_list(&mut out, offer_ids);
            put_operation_list(&mut out, operations);
            put_opt_filters(&mut out, filters);
            assert(out@ =~= enc_call(c@));
        },
        CallKind::Decline { offer_ids, filters } => {
            out.push(CTAG_DECLINE);
            put_offer_id_list(&mut out, offer_ids);
            put_opt_filters(&mut out, filters);
            assert(out@ =~= enc_call(c@));
        },
        CallKind::Revive => {
            out.push(CTAG_REVIVE);
            assert(out@ =~= enc_call(c@));
        },
        CallKind::Kill { task_id, agent_id } => {
            out.push(CTAG_KILL);
            put_bytes(&mut out, task_id.value.as_slice());
            let agent = match agent_id {
                Some(a) => Some(&a.value),
                None => None,
            };
            put_opt_bytes(&mut out, agent);
            assert(out@ =~= enc_call(c@));
        },
        CallKind::Shutdown { executor_id, agent_id } => {
            out.push(CTAG_SHUTDOWN);
            put_bytes(&mut out, executor_id.value.as_slice());
            put_bytes(&mut out, agent_id.value.as_slice());
            assert(out@ =~= enc_call(c@));
        },
        CallKind::Acknowledge { agent_id, task_id, uuid } => {
            out.push(CTAG_ACKNOWLEDGE);
            put_bytes(&mut out, agent_id.value.as_slice());
            put_bytes(&mut out, task_id.value.as_slice());
            put_bytes(&mut out, uuid.as_slice());
            assert(out@ =~= enc_call(c@));
        },
        CallKind::Reconcile { tasks } => {
            out.push(CTAG_RECONCILE);
            put_task_ref_list(&mut out, tasks);
            assert(out@ =~= enc_call(c@));
        },
        CallKind::Message { agent_id, executor_id, data } => {
            out.push(CTAG_MESSAGE);
            put_bytes(&mut out, agent_id.value.as_slice());
            put_bytes(&mut out, executor_id.value.as_slice());
            put_bytes(&mut out, data.as_slice());
            assert(out@ =~= enc_call(c@));
        },
        CallKind::Request { requests } => {
            out.push(CTAG_REQUEST);
            put_request_list(&mut out, requests);
            assert(out@ =~= enc_call(c@));
        },
        CallKind::Suppress => {
            out.push(CTAG_SUPPRESS);
            assert(out@ =~= enc_call(c@));
        },
    }
    out
}

} // verus!
