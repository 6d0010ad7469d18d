use vstd::prelude::*;

use crate::payload::{le_u32, le_u64, read_i32, read_i64, read_u32, signed32, signed64};
use crate::raw::{RawRecord, RawTree, links_forward};
use crate::text::{cstr_text, text_until_nul};
use crate::tree::{Cfg, CfgData, CfgModel, DataModel, Fault, models_of};

verus! {

pub const TAG_INT: i32 = 0;

pub const TAG_BOOL: i32 = 1;

pub const TAG_STRING: i32 = 2;

pub const TAG_ARRAY: i32 = 3;

pub const TAG_IP_PORT: i32 = 4;

pub const TAG_FLOAT: i32 = 5;

pub const TAG_OBJECT: i32 = 6;

/// The value of a scalar record, read from its payload by its tag; `None`
/// for the tags of strings and lists and for unknown tags.
pub open spec fn scalar_model(r: RawRecord) -> Option<DataModel> {
    let p = r.payload@;
    if r.type_tag == TAG_INT {
        Some(DataModel::Int(signed64(le_u64(p)) as i64))
    } else if r.type_tag == TAG_BOOL {
        Some(DataModel::Bool(p[0] != 0))
    } else if r.type_tag == TAG_IP_PORT {
        Some(DataModel::IpPort(signed32(le_u32(p)) as i32))
    } else if r.type_tag == TAG_FLOAT {
        Some(DataModel::Float(le_u32(p) as u32))
    } else {
        None
    }
}

/// The measure that shrinks along every forward link.
pub open spec fn link_rank(recs: Seq<RawRecord>, l: Option<usize>) -> int {
    match l {
        Some(j) => recs.len() - j,
        None => 0,
    }
}

/// What decoding record `i` and its descendants gives.
pub open spec fn node_spec(recs: Seq<RawRecord>, i: int) -> Result<CfgModel, Fault>
    decreases recs.len() - i, 0int,
    when links_forward(recs) && 0 <= i < recs.len()
{
    let r = recs[i];
    match cstr_text(r.key@) {
        None => Err(Fault::InvalidText),
        Some(key) => {
            let data = if r.type_tag == TAG_STRING {
                match r.text {
                    Some(t) => match cstr_text(t@) {
                        Some(s) => Ok(DataModel::String(s)),
                        None => Err(Fault::InvalidText),
                    },
                    None => Err(Fault::InvalidText),
                }
            } else if r.type_tag == TAG_ARRAY {
                match list_spec(recs, r.first_child) {
                    Ok(ms) => Ok(DataModel::Array(ms)),
                    Err(f) => Err(f),
                }
            } else if r.type_tag == TAG_OBJECT {
                match list_spec(recs, r.first_child) {
                    Ok(ms) => Ok(DataModel::Object(ms)),
                    Err(f) => Err(f),
                }
            } else {
                match scalar_model(r) {
                    Some(d) => Ok(d),
                    None => Err(Fault::UnknownTag(r.type_tag)),
                }
            };
            match data {
                Ok(d) => Ok(CfgModel { key, data: d }),
                Err(f) => Err(f),
            }
        },
    }
}

/// What decoding the sibling chain that starts at `l` gives, in chain order.
pub open spec fn list_spec(recs: Seq<RawRecord>, l: Option<usize>) -> Result<
    Seq<CfgModel>,
    Fault,
>
    decreases link_rank(recs, l), 1int,
    when links_forward(recs) && (l matches Some(j) ==> j < recs.len())
{
    match l {
        None => Ok(Seq::empty()),
        Some(j) => match node_spec(recs, j as int) {
            Err(f) => Err(f),
            Ok(m) => match list_spec(recs, recs[j as int].next_sibling) {
                Err(f) => Err(f),
                Ok(ms) => Ok(seq![m] + ms),
            },
        },
    }
}

/// What decoding a snapshot gives: nothing where there is no tree or its
/// wrapper has no child, else the wrapper's first child, decoded.
pub open spec fn tree_spec(t: RawTree) -> Result<Option<CfgModel>, Fault> {
    if t.handle is None {
        Ok(None)
    } else if !t.wf() {
        Err(Fault::MalformedTree)
    } else {
        match t.handle {
            None => Ok(None),
            Some(h) => match t.records@[h as int].first_child {
                None => Ok(None),
                Some(c) => match node_spec(t.records@, c as int) {
                    Ok(m) => Ok(Some(m)),
                    Err(f) => Err(f),
                },
            },
        }
    }
}

proof fn lemma_children_model(v: Vec<Cfg>)
    ensures
        models_of(v) == v@.map_values(|c: Cfg| c@),
{
    assert(models_of(v) =~= v@.map_values(|c: Cfg| c@));
}

/// Tells whether the engine's payload of a record with this tag refers to a
/// string buffer, which must then be copied into the record's `text`.
pub fn refers_to_text(type_tag: i32) -> (r: bool)
    ensures
        r == (type_tag == TAG_STRING),
{
    type_tag == TAG_STRING
}

/// The model of a decoding outcome.
pub open spec fn outcome_model(r: Result<Option<Cfg>, Fault>) -> Result<Option<CfgModel>, Fault> {
    match r {
        Ok(Some(c)) => Ok(Some(c@)),
        Ok(None) => Ok(None),
        Err(f) => Err(f),
    }
}

/// Decodes a snapshot of the engine's tree. The record that the session
/// hands out is a wrapper: the configuration is its first child. Where there
/// is no tree, or the wrapper has no child, there is no configuration.
/// Decoding is all or nothing: the first fault met ends it.
pub fn decode_tree(t: &RawTree) -> (r: Result<Option<Cfg>, Fault>)
    ensures
        outcome_model(r) == tree_spec(*t),
{
    let h = match t.handle {
        None => return Ok(None),
        Some(h) => h,
    };
    if !t.is_well_formed() {
        return Err(Fault::MalformedTree);
    }
    match t.records[h].first_child {
        None => Ok(None),
        Some(c) => match decode_node(t, c) {
            Ok(cfg) => Ok(Some(cfg)),
            Err(f) => Err(f),
        },
    }
}

/// Decodes record `i` of a well-formed snapshot with its descendants.
pub fn decode_node(t: &RawTree, i: usize) -> (r: Result<Cfg, Fault>)
    requires
        t.wf(),
        i < t.records@.len(),
    ensures
        match r {
            Ok(c) => node_spec(t.records@, i as int) == Ok::<CfgModel, Fault>(c@),
            Err(f) => node_spec(t.records@, i as int) == Err::<CfgModel, Fault>(f),
        },
    decreases t.records@.len() - i, 0int,
{
    let r = &t.records[i];
    let key = match text_until_nul(r.key.as_slice()) {
        Some(k) => k,
        None => return Err(Fault::InvalidText),
    };
    let data = if r.type_tag == TAG_STRING {
        match &r.text {
            Some(b) => match text_until_nul(b.as_slice()) {
                Some(s) => CfgData::String(s),
                None => return Err(Fault::InvalidText),
            },
            None => return Err(Fault::InvalidText),
        }
    } else if r.type_tag == TAG_ARRAY {
        let v = decode_children(t, r.first_child)?;
        proof {
            lemma_children_model(v);
        }
        CfgData::Array(v)
    } else if r.type_tag == TAG_OBJECT {
        let v = decode_children(t, r.first_child)?;
        proof {
            lemma_children_model(v);
        }
        CfgData::Object(v)
    } else if r.type_tag == TAG_INT {
        CfgData::Int(read_i64(&r.payload))
    } else if r.type_tag == TAG_BOOL {
        CfgData::Bool(r.payload[0] != 0)
    } else if r.type_tag == TAG_IP_PORT {
        CfgData::IpPort(read_i32(&r.payload))
    } else if r.type_tag == TAG_FLOAT {
        CfgData::Float(read_u32(&r.payload))
    } else {
        return Err(Fault::UnknownTag(r.type_tag));
    };
    Ok(Cfg { key, data })
}

/// Decodes the sibling chain that starts at `first`, in chain order.
pub fn decode_children(t: &RawTree, first: Option<usize>) -> (r: Result<Vec<Cfg>, Fault>)
    requires
        t.wf(),
        first matches Some(j) ==> j < t.records@.len(),
    ensures
        match r {
            Ok(v) => list_spec(t.records@, first) == Ok::<Seq<CfgModel>, Fault>(
                v@.map_values(|c: Cfg| c@),
            ),
            Err(f) => list_spec(t.records@, first) == Err::<Seq<CfgModel>, Fault>(f),
        },
    decreases link_rank(t.records@, first), 1int,
{
    let ghost recs = t.records@;
    let mut out: Vec<Cfg> = Vec::new();
    let mut cur = first;
    while cur.is_some()
        invariant
            t.wf(),
            recs == t.records@,
            cur matches Some(j) ==> j < recs.len(),
            first matches Some(j) ==> j < recs.len(),
            link_rank(recs, cur) <= link_rank(recs, first),
            list_spec(recs, first) == match list_spec(recs, cur) {
                Ok(rest) => Ok(out@.map_values(|c: Cfg| c@) + rest),
                Err(f) => Err::<Seq<CfgModel>, Fault>(f),
            },
        decreases link_rank(recs, cur),
    {
        let j = cur.unwrap();
        let c = decode_node(t, j)?;
        proof {
            let ms = out@.map_values(|c: Cfg| c@);
            assert(out@.push(c).map_values(|c: Cfg| c@) =~= ms.push(c@));
            match list_spec(recs, recs[j as int].next_sibling) {
                Ok(rest) => {
                    assert(ms + (seq![c@] + rest) =~= ms.push(c@) + rest);
                },
                Err(f) => {},
            }
        }
        out.push(c);
        cur = t.records[j].next_sibling;
    }
    assert(out@.map_values(|c: Cfg| c@) + Seq::<CfgModel>::empty() =~= out@.map_values(|c: Cfg| c@));
    Ok(out)
}

} // verus!
