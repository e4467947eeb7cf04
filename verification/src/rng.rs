//! The secure random alphabet source behind session tokens and salts.

use crate::text::is_alnum;
use rand::RngExt;
use vstd::prelude::*;
use vstd::string::StringExecFns;

verus! {

/// Relies on rand: one draw from the thread-local generator (a CSPRNG)
/// under the `Alphanumeric` distribution, which yields exactly one of the
/// 62 ASCII letters and digits. Nothing more can be said of a random
/// draw.
#[verifier::external_body]
fn sample_alnum() -> (s: String)
    ensures
        s@.len() == 1,
        is_alnum(s@[0]),
{
    String::from(rand::rng().sample(rand::distr::Alphanumeric) as char)
}

/// A fresh random string of `len` ASCII letters and digits.
pub(crate) fn alnum_string(len: usize) -> (r: String)
    ensures
        r@.len() == len,
        forall|i: int| 0 <= i < len ==> is_alnum(#[trigger] r@[i]),
{
    let mut out = String::new();
    let mut i: usize = 0;
    while i < len
        invariant
            i <= len,
            out@.len() == i,
            forall|j: int| 0 <= j < i ==> is_alnum(#[trigger] out@[j]),
        decreases len - i,
    {
        let c = sample_alnum();
        out.append(c.as_str());
        i += 1;
    }
    out
}

} // verus!
