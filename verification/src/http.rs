//! What the answer of a server means for a download.

use crate::text::{dec, push_i64};
use vstd::prelude::*;
use vstd::string::StringExecFns;

verus! {

/// Why a download failed: 0 stands for a server that was not reached.
pub open spec fn failure(url: Seq<char>, status: i64) -> Seq<char> {
    if status == 0 {
        "could not reach "@ + url
    } else {
        url + " returned HTTP "@ + dec(status as int)
    }
}

/// The data of a download, given what the server answered.
pub fn fetch(url: &str, status: i64, data: Vec<u8>) -> (r: Result<Vec<u8>, String>)
    ensures
        match r {
            Ok(d) => 200 <= status < 300 && d == data,
            Err(m) => !(200 <= status < 300) && m@ == failure(url@, status),
        },
{
    if 200 <= status && status < 300 {
        return Ok(data);
    }
    if status == 0 {
        let mut m = "could not reach ".to_owned();
        m.append(url);
        Err(m)
    } else {
        let mut m = url.to_owned();
        m.append(" returned HTTP ");
        push_i64(&mut m, status);
        Err(m)
    }
}

} // verus!
