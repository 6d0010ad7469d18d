use vstd::prelude::*;

verus! {

/// One node record of the engine's tree, copied out of its memory as plain
/// values.
#[derive(Debug)]
pub struct RawRecord {
    /// The fixed-capacity key buffer, holding a nul-terminated name.
    pub key: Vec<u8>,
    /// Selects how `payload` is read.
    pub type_tag: i32,
    /// The index of the first child record, if any.
    pub first_child: Option<usize>,
    /// The index of the next record in the same child list, if any.
    pub next_sibling: Option<usize>,
    /// The eight payload bytes, least significant first.
    pub payload: [u8; 8],
    /// For a string record: the buffer that its payload refers to, up to and
    /// including the terminating nul.
    pub text: Option<Vec<u8>>,
}

/// A snapshot of the engine's tree: its records, and the index of the record
/// that the session hands out as the tree (a wrapper above the real root).
#[derive(Debug)]
pub struct RawTree {
    pub records: Vec<RawRecord>,
    pub handle: Option<usize>,
}

/// A link of record `i` that is absent or leads to a later record.
pub open spec fn link_forward(l: Option<usize>, i: int, n: int) -> bool {
    match l {
        Some(j) => i < j < n,
        None => true,
    }
}

/// Every link leads forward, so following links always ends.
pub open spec fn links_forward(recs: Seq<RawRecord>) -> bool {
    forall|i: int|
        #![trigger recs[i]]
        0 <= i < recs.len() ==> link_forward(recs[i].first_child, i, recs.len() as int)
            && link_forward(recs[i].next_sibling, i, recs.len() as int)
}

impl RawTree {
    /// The records form a forest whose links all lead forward, and the
    /// handle, if any, names one of them.
    pub open spec fn wf(&self) -> bool {
        &&& links_forward(self.records@)
        &&& match self.handle {
            Some(h) => h < self.records@.len(),
            None => true,
        }
    }

    /// Tells whether the snapshot is well formed.
    pub fn is_well_formed(&self) -> (r: bool)
        ensures
            r == self.wf(),
    {
        let n = self.records.len();
        let mut i: usize = 0;
        while i < n
            invariant
                n == self.records@.len(),
                0 <= i <= n,
                forall|k: int|
                    0 <= k < i ==> link_forward(self.records@[k].first_child, k, n as int)
                        && link_forward(self.records@[k].next_sibling, k, n as int),
            decreases n - i,
        {
            let r = &self.records[i];
            match r.first_child {
                Some(j) => {
                    if !(i < j && j < n) {
                        assert(!link_forward(self.records@[i as int].first_child, i as int, n as int));
                        return false;
                    }
                },
                None => {},
            }
            match r.next_sibling {
                Some(j) => {
                    if !(i < j && j < n) {
                        assert(!link_forward(self.records@[i as int].next_sibling, i as int, n as int));
                        return false;
                    }
                },
                None => {},
            }
            i = i + 1;
        }
        match self.handle {
            Some(h) => h < n,
            None => true,
        }
    }
}

} // verus!
