use vstd::prelude::*;

verus! {

/// What `std::str::from_utf8` makes of a byte sequence: the characters it
/// encodes, or `None` where it is not valid UTF-8.
pub uninterp spec fn utf8_decoded(b: Seq<u8>) -> Option<Seq<char>>;

/// The bytes before the first nul of `b`, or `None` where `b` holds no nul.
pub open spec fn cstr_bytes(b: Seq<u8>) -> Option<Seq<u8>> {
    if exists|k: int| is_first_nul(b, k) {
        Some(b.take(choose|k: int| is_first_nul(b, k)))
    } else {
        None
    }
}

pub open spec fn is_first_nul(b: Seq<u8>, k: int) -> bool {
    &&& 0 <= k < b.len()
    &&& b[k] == 0
    &&& forall|j: int| 0 <= j < k ==> b[j] != 0
}

/// The text held by a nul-terminated buffer: its bytes up to the first nul,
/// read as UTF-8.
pub open spec fn cstr_text(b: Seq<u8>) -> Option<Seq<char>> {
    match cstr_bytes(b) {
        Some(t) => utf8_decoded(t),
        None => None,
    }
}

/// Relies on `std::str::from_utf8`: the characters that valid UTF-8
/// encodes, an error otherwise.
#[verifier::external_body]
pub(crate) fn utf8_string(b: &[u8]) -> (r: Option<String>)
    ensures
        match r {
            Some(s) => utf8_decoded(b@) == Some(s@),
            None => utf8_decoded(b@) is None,
        },
{
    std::str::from_utf8(b).ok().map(|s| s.to_owned())
}

/// Copies the bytes of `b` before its first nul; `None` where there is none.
pub fn until_nul(b: &[u8]) -> (r: Option<Vec<u8>>)
    ensures
        match r {
            Some(v) => cstr_bytes(b@) == Some(v@),
            None => cstr_bytes(b@) is None,
        },
{
    let mut out: Vec<u8> = Vec::new();
    let mut i: usize = 0;
    while i < b.len()
        invariant
            0 <= i <= b@.len(),
            out@ == b@.take(i as int),
            forall|j: int| 0 <= j < i ==> b@[j] != 0,
        decreases b@.len() - i,
    {
        if b[i] == 0 {
            assert(is_first_nul(b@, i as int));
            proof {
                let k = choose|k: int| is_first_nul(b@, k);
                assert(k == i as int) by {
                    if k < i {
                        assert(b@[k] != 0);
                    } else if k > i {
                        assert(b@[i as int] != 0);
                    }
                }
            }
            return Some(out);
        }
        out.push(b[i]);
        assert(out@ =~= b@.take(i + 1));
        i = i + 1;
    }
    assert(!exists|k: int| is_first_nul(b@, k));
    None
}

/// Reads a nul-terminated buffer as text: the bytes before the first nul,
/// which must be valid UTF-8.
pub fn text_until_nul(b: &[u8]) -> (r: Option<String>)
    ensures
        match r {
            Some(s) => cstr_text(b@) == Some(s@),
            None => cstr_text(b@) is None,
        },
{
    match until_nul(b) {
        Some(v) => utf8_string(v.as_slice()),
        None => None,
    }
}

} // verus!
