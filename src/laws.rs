use vstd::prelude::*;

use crate::decode::{
    TAG_ARRAY,
    TAG_FLOAT,
    TAG_INT,
    TAG_OBJECT,
    TAG_STRING,
    list_spec,
    node_spec,
    outcome_model,
    scalar_model,
    tree_spec,
};
use crate::payload::{le_u32, le_u64};
use crate::raw::{RawRecord, RawTree, links_forward};
use crate::text::{cstr_bytes, cstr_text, is_first_nul, utf8_decoded};
use crate::tree::{Cfg, CfgModel, DataModel, Fault};

verus! {

/// The first `n` bytes of the unsigned integer `u`, least significant first.
pub open spec fn le_bytes(u: int, n: nat) -> Seq<u8>
    decreases n,
{
    if n == 0 {
        Seq::empty()
    } else {
        seq![(u % 0x100) as u8] + le_bytes(u / 0x100, (n - 1) as nat)
    }
}

/// The 64-bit pattern of a signed integer.
pub open spec fn unsigned64(v: i64) -> int {
    if v >= 0 {
        v as int
    } else {
        v + 0x1_0000_0000_0000_0000
    }
}

/// The records `chain` are linked one to the next as siblings, the last
/// one ending the list.
pub open spec fn sibling_chain(recs: Seq<RawRecord>, chain: Seq<usize>) -> bool {
    &&& chain.len() > 0
    &&& forall|k: int| 0 <= k < chain.len() ==> chain[k] < recs.len()
    &&& forall|k: int|
        0 <= k < chain.len() - 1 ==> #[trigger] recs[chain[k] as int].next_sibling == Some(
            chain[k + 1],
        )
    &&& recs[chain.last() as int].next_sibling is None
}

/// The decoded models of the records `chain`, in order, where each decodes.
pub open spec fn chain_models(recs: Seq<RawRecord>, chain: Seq<usize>) -> Seq<CfgModel>
    recommends
        links_forward(recs),
        forall|k: int| 0 <= k < chain.len() ==> chain[k] < recs.len(),
{
    Seq::new(chain.len(), |k: int| node_spec(recs, chain[k] as int)->Ok_0)
}

/// Decoding is deterministic: two decodes of one snapshot return outcomes
/// with the same model, that is, structurally identical trees or the same
/// fault.
pub proof fn lemma_decode_deterministic(
    t: RawTree,
    first: Result<Option<Cfg>, Fault>,
    second: Result<Option<Cfg>, Fault>,
)
    requires
        outcome_model(first) == tree_spec(t),
        outcome_model(second) == tree_spec(t),
    ensures
        outcome_model(first) == outcome_model(second),
{
}

/// Where the session hands out no tree, as it does when given neither a
/// configuration path nor a metadata path, there is no configuration, and
/// that is no fault.
pub proof fn lemma_no_tree_no_configuration(t: RawTree)
    requires
        t.handle is None,
    ensures
        tree_spec(t) == Ok::<Option<CfgModel>, Fault>(None),
{
}

proof fn lemma_chain_decodes(recs: Seq<RawRecord>, chain: Seq<usize>)
    requires
        links_forward(recs),
        sibling_chain(recs, chain),
        forall|k: int| 0 <= k < chain.len() ==> (#[trigger] node_spec(recs, chain[k] as int)) is Ok,
    ensures
        list_spec(recs, Some(chain[0])) == Ok::<Seq<CfgModel>, Fault>(chain_models(recs, chain)),
    decreases chain.len(),
{
    let j = chain[0] as int;
    assert(node_spec(recs, chain[0] as int) is Ok);
    if chain.len() == 1 {
        assert(recs[j].next_sibling is None);
        assert(chain_models(recs, chain) =~= seq![node_spec(recs, j)->Ok_0]);
        assert(list_spec(recs, recs[j].next_sibling) == Ok::<Seq<CfgModel>, Fault>(Seq::empty()));
        assert(seq![node_spec(recs, j)->Ok_0] + Seq::<CfgModel>::empty() =~= seq![
            node_spec(recs, j)->Ok_0,
        ]);
    } else {
        let rest = chain.drop_first();
        assert(recs[chain[0] as int].next_sibling == Some(chain[1]));
        assert forall|k: int| 0 <= k < rest.len() - 1 implies #[trigger] recs[rest[k] as int].next_sibling
            == Some(rest[k + 1]) by {
            assert(rest[k] == chain[k + 1]);
            assert(recs[chain[k + 1] as int].next_sibling == Some(chain[k + 2]));
        }
        assert forall|k: int| 0 <= k < rest.len() implies (#[trigger] node_spec(
            recs,
            rest[k] as int,
        )) is Ok by {
            assert(rest[k] == chain[k + 1]);
            assert(node_spec(recs, chain[k + 1] as int) is Ok);
        }
        assert(sibling_chain(recs, rest));
        lemma_chain_decodes(recs, rest);
        assert(chain_models(recs, chain) =~= seq![node_spec(recs, j)->Ok_0] + chain_models(
            recs,
            rest,
        ));
    }
}

/// Sibling order is kept: an array or object whose children are the records
/// `chain`, linked in that order, decodes to their decoded models in that
/// same order.
pub proof fn lemma_children_keep_sibling_order(recs: Seq<RawRecord>, i: int, chain: Seq<usize>)
    requires
        links_forward(recs),
        0 <= i < recs.len(),
        recs[i].type_tag == TAG_ARRAY || recs[i].type_tag == TAG_OBJECT,
        cstr_text(recs[i].key@) is Some,
        recs[i].first_child == Some(chain[0]),
        sibling_chain(recs, chain),
        forall|k: int| 0 <= k < chain.len() ==> (#[trigger] node_spec(recs, chain[k] as int)) is Ok,
    ensures
        node_spec(recs, i) == Ok::<CfgModel, Fault>(
            CfgModel {
                key: cstr_text(recs[i].key@)->Some_0,
                data: if recs[i].type_tag == TAG_ARRAY {
                    DataModel::Array(chain_models(recs, chain))
                } else {
                    DataModel::Object(chain_models(recs, chain))
                },
            },
        ),
{
    lemma_chain_decodes(recs, chain);
}

/// A fault in any child aborts the decoding of the list it stands in: where
/// the records `chain` are the children of an array or object, the ones
/// before `k` decode and record `chain[k]` does not, the parent gives that
/// same fault and no partial tree.
pub proof fn lemma_child_fault_aborts(
    recs: Seq<RawRecord>,
    i: int,
    chain: Seq<usize>,
    k: int,
    f: Fault,
)
    requires
        links_forward(recs),
        0 <= i < recs.len(),
        recs[i].type_tag == TAG_ARRAY || recs[i].type_tag == TAG_OBJECT,
        cstr_text(recs[i].key@) is Some,
        recs[i].first_child == Some(chain[0]),
        sibling_chain(recs, chain),
        0 <= k < chain.len(),
        forall|m: int| 0 <= m < k ==> (#[trigger] node_spec(recs, chain[m] as int)) is Ok,
        node_spec(recs, chain[k] as int) == Err::<CfgModel, Fault>(f),
    ensures
        node_spec(recs, i) == Err::<CfgModel, Fault>(f),
        list_spec(recs, Some(chain[0])) == Err::<Seq<CfgModel>, Fault>(f),
{
    lemma_chain_fault(recs, chain, k, f);
}

proof fn lemma_chain_fault(recs: Seq<RawRecord>, chain: Seq<usize>, k: int, f: Fault)
    requires
        links_forward(recs),
        sibling_chain(recs, chain),
        0 <= k < chain.len(),
        forall|m: int| 0 <= m < k ==> (#[trigger] node_spec(recs, chain[m] as int)) is Ok,
        node_spec(recs, chain[k] as int) == Err::<CfgModel, Fault>(f),
    ensures
        list_spec(recs, Some(chain[0])) == Err::<Seq<CfgModel>, Fault>(f),
    decreases k,
{
    if k > 0 {
        let rest = chain.drop_first();
        assert(recs[chain[0] as int].next_sibling == Some(chain[1]));
        assert(node_spec(recs, chain[0] as int) is Ok);
        assert forall|m: int| 0 <= m < rest.len() - 1 implies #[trigger] recs[rest[m] as int].next_sibling
            == Some(rest[m + 1]) by {
            assert(rest[m] == chain[m + 1]);
            assert(recs[chain[m + 1] as int].next_sibling == Some(chain[m + 2]));
        }
        assert forall|m: int| 0 <= m < k - 1 implies (#[trigger] node_spec(
            recs,
            rest[m] as int,
        )) is Ok by {
            assert(rest[m] == chain[m + 1]);
            assert(node_spec(recs, chain[m + 1] as int) is Ok);
        }
        assert(rest[k - 1] == chain[k]);
        lemma_chain_fault(recs, rest, k - 1, f);
    }
}

/// A record whose tag is none of the known ones gives `UnknownTag` with that
/// tag, once its key reads as text.
pub proof fn lemma_unknown_tag(recs: Seq<RawRecord>, i: int)
    requires
        links_forward(recs),
        0 <= i < recs.len(),
        cstr_text(recs[i].key@) is Some,
        !(0 <= recs[i].type_tag <= 6),
    ensures
        node_spec(recs, i) == Err::<CfgModel, Fault>(Fault::UnknownTag(recs[i].type_tag)),
{
}

proof fn lemma_le_bytes_value(u: int)
    requires
        0 <= u < 0x1_0000_0000_0000_0000,
    ensures
        le_bytes(u, 8).len() == 8,
        le_u64(le_bytes(u, 8)) == u,
        le_u32(le_bytes(u, 8)) == u % 0x1_0000_0000,
{
    reveal_with_fuel(le_bytes, 9);
    let u1 = u / 0x100;
    let u2 = u1 / 0x100;
    let u3 = u2 / 0x100;
    let u4 = u3 / 0x100;
    let u5 = u4 / 0x100;
    let u6 = u5 / 0x100;
    let u7 = u6 / 0x100;
    assert(u7 < 0x100);
    let p = le_bytes(u, 8);
    assert(p[0] == u % 0x100);
    assert(p[1] == u1 % 0x100);
    assert(p[2] == u2 % 0x100);
    assert(p[3] == u3 % 0x100);
    assert(p[4] == u4 % 0x100);
    assert(p[5] == u5 % 0x100);
    assert(p[6] == u6 % 0x100);
    assert(p[7] == u7 % 0x100);
}

/// An integer record whose payload is the little-endian pattern of `v`
/// decodes to exactly `v`.
pub proof fn lemma_int_payload_round_trip(v: i64, r: RawRecord)
    requires
        r.type_tag == TAG_INT,
        r.payload@ == le_bytes(unsigned64(v), 8),
    ensures
        scalar_model(r) == Some(DataModel::Int(v)),
{
    lemma_le_bytes_value(unsigned64(v));
}

/// A float record whose leading payload bytes are the little-endian pattern
/// of `bits` decodes to exactly those bits.
pub proof fn lemma_float_payload_round_trip(bits: u32, r: RawRecord)
    requires
        r.type_tag == TAG_FLOAT,
        r.payload@.take(4) == le_bytes(bits as int, 4),
    ensures
        scalar_model(r) == Some(DataModel::Float(bits)),
{
    lemma_le_bytes_value(bits as int);
    reveal_with_fuel(le_bytes, 9);
    assert(r.payload@[0] == r.payload@.take(4)[0]);
    assert(r.payload@[1] == r.payload@.take(4)[1]);
    assert(r.payload@[2] == r.payload@.take(4)[2]);
    assert(r.payload@[3] == r.payload@.take(4)[3]);
}

/// The bytes before an appended nul are exactly the bytes of a buffer
/// without a nul.
pub proof fn lemma_terminated_buffer(s: Seq<u8>)
    requires
        !s.contains(0),
    ensures
        cstr_bytes(s.push(0)) == Some(s),
{
    let b = s.push(0);
    assert(is_first_nul(b, s.len() as int)) by {
        assert forall|j: int| 0 <= j < s.len() implies b[j] != 0 by {
            assert(b[j] == s[j]);
            if s[j] == 0 {
                assert(s.contains(0));
            }
        }
    }
    let k = choose|k: int| is_first_nul(b, k);
    assert(k == s.len()) by {
        if k < s.len() {
            assert(b[k] == s[k]);
            assert(s.contains(0));
        }
    }
    assert(b.take(k) =~= s);
}

/// A string record decodes to the text of the bytes before the nul of its
/// buffer, whatever their number.
pub proof fn lemma_string_text(recs: Seq<RawRecord>, i: int, s: Seq<u8>)
    requires
        links_forward(recs),
        0 <= i < recs.len(),
        cstr_text(recs[i].key@) is Some,
        recs[i].type_tag == TAG_STRING,
        recs[i].text matches Some(t) && t@ == s.push(0),
        !s.contains(0),
    ensures
        node_spec(recs, i) == match utf8_decoded(s) {
            Some(text) => Ok::<CfgModel, Fault>(
                CfgModel { key: cstr_text(recs[i].key@)->Some_0, data: DataModel::String(text) },
            ),
            None => Err(Fault::InvalidText),
        },
{
    lemma_terminated_buffer(s);
}

} // verus!
