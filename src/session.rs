use vstd::prelude::*;

use crate::text::utf8_decoded;
use crate::text::utf8_string;
use crate::tree::Fault;

verus! {

/// The status code with which the configuration engine reports that a
/// session could not be opened; any other status means it was.
pub const OPEN_FAILURE_STATUS: i32 = -1;

/// Reads the status of the engine's session initializer.
pub fn check_open(status: i32) -> (r: Result<(), Fault>)
    ensures
        r == (if status == OPEN_FAILURE_STATUS {
            Err::<(), Fault>(Fault::OpenFailed)
        } else {
            Ok(())
        }),
{
    if status == OPEN_FAILURE_STATUS {
        Err(Fault::OpenFailed)
    } else {
        Ok(())
    }
}

/// What a path given as raw bytes becomes for the engine: the bytes with a
/// nul appended, where they are text without a nul.
pub open spec fn marshalled(b: Seq<u8>) -> Result<Seq<u8>, Fault> {
    if utf8_decoded(b) is None || b.contains(0) {
        Err(Fault::InvalidText)
    } else {
        Ok(b.push(0))
    }
}

/// Turns an optional path, given as its raw bytes, into the nul-terminated
/// buffer that the engine takes; `None` stands for "no path", which the
/// engine receives as a null reference.
pub fn marshal_path(path: Option<&[u8]>) -> (r: Result<Option<Vec<u8>>, Fault>)
    ensures
        match path {
            None => r == Ok::<Option<Vec<u8>>, Fault>(None),
            Some(b) => match r {
                Ok(Some(v)) => marshalled(b@) == Ok::<Seq<u8>, Fault>(v@),
                Ok(None) => false,
                Err(f) => marshalled(b@) == Err::<Seq<u8>, Fault>(f),
            },
        },
{
    let b = match path {
        None => return Ok(None),
        Some(b) => b,
    };
    if utf8_string(b).is_none() {
        return Err(Fault::InvalidText);
    }
    let mut out: Vec<u8> = Vec::new();
    let mut i: usize = 0;
    while i < b.len()
        invariant
            path == Some(b),
            utf8_decoded(b@) is Some,
            0 <= i <= b@.len(),
            out@ == b@.take(i as int),
            !out@.contains(0),
        decreases b@.len() - i,
    {
        if b[i] == 0 {
            assert(b@.contains(0)) by {
                assert(b@[i as int] == 0);
            }
            return Err(Fault::InvalidText);
        }
        out.push(b[i]);
        assert(out@ =~= b@.take(i + 1));
        i = i + 1;
    }
    assert(out@ =~= b@);
    out.push(0);
    Ok(Some(out))
}

} // verus!
