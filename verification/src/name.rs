//! Derivation of the project name from the source identifier.
//!
//! The name is the host component of the source URL with every dot
//! replaced by a dash: a deterministic transform that is safe both as a
//! local directory name and as a remote project name.

use vstd::prelude::*;
use crate::errors::ImportError;
use crate::trusted::{source_host, url_host};

verus! {

/// The host bytes with every `.` replaced by `-`.
pub open spec fn dashed(host: Seq<u8>) -> Seq<u8> {
    host.map_values(
        |b: u8|
            if b == 46 {
                45u8
            } else {
                b
            },
    )
}

/// Derives the project name for a source identifier.
///
/// Succeeds exactly where the source parses as a URL with a host; the
/// name is that host with every dot replaced by a dash.  Anything else
/// is rejected as `InvalidSource`.
pub fn create_name(source: &str) -> (r: Result<Vec<u8>, ImportError>)
    ensures
        match r {
            Ok(name) => url_host(source@) matches Some(h) && name@ == dashed(h),
            Err(e) => url_host(source@) is None && e == ImportError::InvalidSource(
                None::<String>,
            ),
        },
{
    match source_host(source) {
        Some(host) => {
            let mut name: Vec<u8> = Vec::new();
            let mut i: usize = 0;
            while i < host.len()
                invariant
                    i <= host@.len(),
                    name@ == dashed(host@.take(i as int)),
                decreases host@.len() - i,
            {
                let b = host[i];
                if b == 46 {
                    name.push(45);
                } else {
                    name.push(b);
                }
                proof {
                    assert(dashed(host@.take(i + 1 as int)) =~= dashed(host@.take(i as int)).push(
                        if host@[i as int] == 46 {
                            45u8
                        } else {
                            host@[i as int]
                        },
                    ));
                }
                i = i + 1;
            }
            proof {
                assert(host@.take(host@.len() as int) =~= host@);
            }
            Ok(name)
        },
        None => Err(ImportError::InvalidSource(None)),
    }
}

} // verus!
