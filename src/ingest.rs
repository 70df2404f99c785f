//! Accepting a reading: the credential check and the stored record's
//! timestamp and expiry hint.

use vstd::prelude::*;
use vstd::string::StrSliceExecFns;
use crate::query::opt_view;

verus! {

/// How long a reading is kept before the store may expire it, in seconds.
pub const RETENTION_SECONDS: i64 = 604800;

/// Status of a response to a request whose credential does not match.
pub const UNAUTHORIZED_STATUS: u16 = 401;

/// Whether the presented credential is the configured secret.
pub open spec fn credential_ok(presented: Option<Seq<char>>, secret: Seq<char>) -> bool {
    match presented {
        Some(p) => p == secret,
        None => false,
    }
}

/// Division rounding toward zero, as integer division does in Rust.
pub open spec fn div_toward_zero(a: int, d: int) -> int {
    if a >= 0 {
        a / d
    } else {
        -((-a) / d)
    }
}

/// The expiry hint of a reading taken at `timestamp_millis`: its time in whole
/// seconds, plus the retention period.
pub open spec fn expiry_of(timestamp_millis: int) -> int {
    div_toward_zero(timestamp_millis, 1000) + RETENTION_SECONDS
}

/// Compares the presented credential with the secret, character by character.
pub fn credential_matches(presented: Option<&str>, secret: &str) -> (r: bool)
    ensures
        r == credential_ok(opt_view(presented), secret@),
{
    match presented {
        None => false,
        Some(p) => {
            let n = p.unicode_len();
            if n != secret.unicode_len() {
                return false;
            }
            let mut i: usize = 0;
            while i < n
                invariant
                    presented == Some(p),
                    n == p@.len(),
                    n == secret@.len(),
                    i <= n,
                    forall|j: int| 0 <= j < i ==> p@[j] == secret@[j],
                decreases n - i,
            {
                if p.get_char(i) != secret.get_char(i) {
                    assert(p@[i as int] != secret@[i as int]);
                    return false;
                }
                i = i + 1;
            }
            assert(p@ =~= secret@);
            true
        },
    }
}

/// The expiry hint, in epoch seconds, for a reading taken at
/// `timestamp_millis` (epoch milliseconds).
pub fn expiry_seconds(timestamp_millis: i64) -> (r: i64)
    ensures
        r == expiry_of(timestamp_millis as int),
{
    let seconds: i64 = if timestamp_millis >= 0 {
        timestamp_millis / 1000
    } else {
        -((-(timestamp_millis + 1)) / 1000) - if (-(timestamp_millis + 1)) % 1000 == 999 {
            1
        } else {
            0
        }
    };
    seconds + RETENTION_SECONDS
}

/// What to do with an ingest request.
#[derive(Debug, PartialEq, Eq, Structural)]
pub enum IngestDecision {
    /// Answer with the status and write nothing.
    Reject { status: u16 },
    /// Write the reading under this timestamp with this expiry hint.
    Store { timestamp: i64, expires_at: i64 },
}

/// Decides an ingest request that presents `presented` as its credential,
/// against the configured `secret`, at time `now_millis`.
pub fn decide_ingest(presented: Option<&str>, secret: &str, now_millis: i64) -> (d:
    IngestDecision)
    ensures
        credential_ok(opt_view(presented), secret@) ==> d == (IngestDecision::Store {
            timestamp: now_millis,
            expires_at: expiry_of(now_millis as int) as i64,
        }),
        !credential_ok(opt_view(presented), secret@) ==> d == (IngestDecision::Reject {
            status: UNAUTHORIZED_STATUS,
        }),
{
    if credential_matches(presented, secret) {
        IngestDecision::Store { timestamp: now_millis, expires_at: expiry_seconds(now_millis) }
    } else {
        IngestDecision::Reject { status: UNAUTHORIZED_STATUS }
    }
}

} // verus!
