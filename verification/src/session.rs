//! One step of a client session: from a received line to what the daemon
//! does about it.
//!
//! The surrounding process runs the loop — read a line, take the step,
//! perform the action, write the reply — strictly in order, never reading
//! the next request before answering the current one. Everything the step
//! decides is here and verified; only the socket, the subprocess and the
//! memory-hard hash itself stay outside. A backend failure degrades to the
//! literal `err` sentinel on the wire, which an honest digest could collide
//! with only by not being hex.

use vstd::prelude::*;
use vstd::slice::slice_to_vec;
use vstd::string::StringSliceAdditionalSpecFns;
use crate::config::{Mode, ModeModel};
use crate::demo::{demo_digest_spec, demo_hash_hex};
use crate::hexcode::{hex_bytes_of, hex_encode};
use crate::protocol::{
    parse_request, preimage_spec, selector_spec, strip_line, strip_spec, trim_spec,
};

verus! {

/// The seed used when neither the request nor the configuration names a
/// selector.
pub open spec fn default_seed_spec() -> Seq<u8> {
    "default_seed".spec_bytes()
}

/// The literal a backend failure puts on the wire.
pub open spec fn err_sentinel() -> Seq<u8> {
    "err".spec_bytes()
}

/// The seed the memory-hard backend uses: the request's selector, else the
/// configured default selector, else the fixed fallback seed.
pub open spec fn effective_seed(sel: Option<Seq<u8>>, default_sel: Option<Seq<u8>>) -> Seq<u8> {
    match sel {
        Some(s) => s,
        None => match default_sel {
            Some(d) => d,
            None => default_seed_spec(),
        },
    }
}

/// What a session does about one received line.
pub enum Action {
    /// The line was empty once stripped: no response at all.
    Ignore,
    /// Answer with this response line, computed here.
    Reply { response: Vec<u8> },
    /// Spawn `bin` with the preimage as its sole argument and answer with
    /// its trimmed output.
    RunExternal { bin: Vec<u8>, preimage: Vec<u8> },
    /// Hash the preimage under the resource this seed selects and answer
    /// with the digest, hex-encoded.
    RunNative { seed: Vec<u8>, preimage: Vec<u8> },
}

/// Decides what one received line asks of the daemon. Exactly one response
/// is owed per non-empty line; an empty line gets none and leaves the
/// session as it was.
pub fn session_step(mode: &Mode, line: &Vec<u8>) -> (a: Action)
    ensures
        strip_spec(line@).len() == 0 ==> a is Ignore,
        strip_spec(line@).len() > 0 ==> match mode@ {
            ModeModel::Demo => a matches Action::Reply { response } && response@
                == demo_digest_spec(strip_spec(line@)),
            ModeModel::External { bin } => a matches Action::RunExternal {
                bin: b,
                preimage,
            } && b@ == bin && preimage@ == strip_spec(line@),
            ModeModel::Native { rom } => a matches Action::RunNative { seed, preimage } && seed@
                == effective_seed(selector_spec(strip_spec(line@)), rom) && preimage@
                == preimage_spec(strip_spec(line@)),
        },
{
    let stripped = strip_line(line);
    if stripped.len() == 0 {
        return Action::Ignore;
    }
    match mode {
        Mode::Demo => Action::Reply { response: demo_hash_hex(stripped.as_slice()) },
        Mode::External { bin } => Action::RunExternal {
            bin: slice_to_vec(bin.as_slice()),
            preimage: stripped,
        },
        Mode::Native { rom } => {
            let (sel, preimage) = parse_request(&stripped);
            let seed = match sel {
                Some(s) => s,
                None => match rom {
                    Some(d) => slice_to_vec(d.as_slice()),
                    None => slice_to_vec("default_seed".as_bytes()),
                },
            };
            Action::RunNative { seed, preimage }
        },
    }
}

/// Turns the memory-hard backend's outcome into the response line: the
/// digest bytes hex-encoded lowercase, or the sentinel when the backend
/// failed.
pub fn native_response(outcome: Option<Vec<u8>>) -> (r: Vec<u8>)
    ensures
        outcome matches Some(digest) ==> r@ == hex_bytes_of(digest@),
        outcome is None ==> r@ == err_sentinel(),
{
    match outcome {
        Some(digest) => hex_encode(digest.as_slice()),
        None => slice_to_vec("err".as_bytes()),
    }
}

/// Turns the external backend's outcome into the response line: the
/// captured output trimmed of surrounding whitespace, or the sentinel when
/// the subprocess could not be run or waited for.
pub fn external_response(outcome: Option<Vec<u8>>) -> (r: Vec<u8>)
    ensures
        outcome matches Some(output) ==> r@ == trim_spec(output@),
        outcome is None ==> r@ == err_sentinel(),
{
    match outcome {
        Some(output) => crate::protocol::trim(output.as_slice()),
        None => slice_to_vec("err".as_bytes()),
    }
}

} // verus!

