//! Addresses, options and results of sockets, as the operating system of the back ends
//! has them: numbers stand lowest byte first there, and highest byte first on the wire.

use crate::text::{dec_nat, push_u64, str_eq};
use vstd::prelude::*;
use vstd::string::StringExecFns;

verus! {

pub const AF_INET: u16 = 2;

pub const SOL_SOCKET: i32 = 0xffff;

pub const IPPROTO_TCP: i32 = 6;

/// The two bytes of a number in the other order.
pub open spec fn swapped(p: u16) -> u16 {
    (p % 256 * 256 + p / 256) as u16
}

/// A port as the wire has it.
pub fn htons(p: u16) -> (r: u16)
    ensures
        r == swapped(p),
{
    p % 256 * 256 + p / 256
}

/// A port from the wire.
pub fn ntohs(p: u16) -> (r: u16)
    ensures
        r == swapped(p),
{
    p % 256 * 256 + p / 256
}

/// A port comes back from the wire as it was.
pub proof fn port_round_trip(p: u16)
    ensures
        swapped(swapped(p)) == p,
{
}

/// An address of a socket; port and host as the wire has them.
#[derive(Debug)]
pub struct SockAddrIn {
    pub family: u16,
    pub port: u16,
    pub addr: u32,
    pub zero: [u8; 8],
}

/// The address of a port at a host; no host stands for any.
pub fn sock_addr(port: u16, addr: u32) -> (r: SockAddrIn)
    ensures
        r.family == AF_INET,
        r.port == swapped(port),
        r.addr == addr,
        forall|i: int| 0 <= i < 8 ==> r.zero@[i] == 0,
{
    SockAddrIn { family: AF_INET, port: htons(port), addr, zero: [0u8;8] }
}

/// The four numbers of a host's address.
pub open spec fn ip_text(addr: u32) -> Seq<char> {
    dec_nat((addr % 256) as nat) + "."@ + dec_nat((addr / 256 % 256) as nat) + "."@ + dec_nat(
        (addr / 65536 % 256) as nat,
    ) + "."@ + dec_nat((addr / 16777216) as nat)
}

pub fn ip_string(addr: u32) -> (r: String)
    ensures
        r@ == ip_text(addr),
{
    let mut s = String::new();
    push_u64(&mut s, (addr % 256) as u64);
    s.append(".");
    push_u64(&mut s, (addr / 256 % 256) as u64);
    s.append(".");
    push_u64(&mut s, (addr / 65536 % 256) as u64);
    s.append(".");
    push_u64(&mut s, (addr / 16777216) as u64);
    assert(s@ =~= ip_text(addr));
    s
}

/// A span of time.
#[derive(Debug)]
pub struct TimeVal {
    pub sec: i32,
    pub usec: i32,
}

/// The number of 32 bits with a sign whose lowest bits are those of `n`.
pub open spec fn low_half(n: int) -> int {
    (n + 0x8000_0000) % 0x1_0000_0000 - 0x8000_0000
}

/// How long a poll waits: for ever where the time is below 0. Seconds that need more than
/// 32 bits lose the upper ones.
pub fn poll_time(ms: i64) -> (r: Option<TimeVal>)
    ensures
        ms < 0 <==> r is None,
        ms >= 0 ==> r->Some_0.sec == low_half(ms / 1000) && r->Some_0.usec == ms % 1000 * 1000,
{
    if ms < 0 {
        None
    } else {
        let sec: i64 = (ms / 1000 + 0x8000_0000) % 0x1_0000_0000 - 0x8000_0000;
        Some(TimeVal { sec: sec as i32, usec: (ms % 1000 * 1000) as i32 })
    }
}

/// A set of sockets.
#[derive(Debug)]
pub struct FdSet {
    pub count: u32,
    pub array: [usize; 64],
}

/// The set of one socket.
pub fn one_socket(s: usize) -> (r: FdSet)
    ensures
        r.count == 1,
        r.array@[0] == s,
        forall|i: int| 1 <= i < 64 ==> r.array@[i] == 0,
{
    let mut array: [usize; 64] = [0usize;64];
    array[0] = s;
    FdSet { count: 1, array }
}

/// Whether a socket is in a set.
pub open spec fn in_set(f: FdSet, s: usize) -> bool {
    exists|i: int| 0 <= i < f.count && i < 64 && #[trigger] f.array@[i] == s
}

fn has_socket(f: &FdSet, s: usize) -> (r: bool)
    ensures
        r == in_set(*f, s),
{
    let n: usize = if f.count <= 64 {
        f.count as usize
    } else {
        64
    };
    for i in 0..n
        invariant
            n <= 64,
            n <= f.count,
            n == 64 || n == f.count,
            forall|j: int| 0 <= j < i ==> #[trigger] f.array@[j] != s,
    {
        if f.array[i] == s {
            return true;
        }
    }
    false
}

/// What a poll found of a socket: 1 where it can be read, 2 where it can be written.
pub fn poll_mask(rd: &FdSet, wr: &FdSet, s: usize) -> (r: i64)
    ensures
        r == (if in_set(*rd, s) {
            1int
        } else {
            0
        }) + (if in_set(*wr, s) {
            2int
        } else {
            0
        }),
{
    let a: i64 = if has_socket(rd, s) {
        1
    } else {
        0
    };
    let b: i64 = if has_socket(wr, s) {
        2
    } else {
        0
    };
    a + b
}

/// The level and the number of an option of a socket.
pub open spec fn option_code(n: Seq<char>) -> Option<(i32, i32)> {
    if n == "reuseaddr"@ {
        Some((SOL_SOCKET, 4))
    } else if n == "keepalive"@ {
        Some((SOL_SOCKET, 8))
    } else if n == "broadcast"@ {
        Some((SOL_SOCKET, 32))
    } else if n == "sndbuf"@ {
        Some((SOL_SOCKET, 4097))
    } else if n == "rcvbuf"@ {
        Some((SOL_SOCKET, 4098))
    } else if n == "nodelay"@ {
        Some((IPPROTO_TCP, 1))
    } else {
        None
    }
}

pub fn set_opt(n: &str) -> (r: Option<(i32, i32)>)
    ensures
        r == option_code(n@),
{
    if str_eq(n, "reuseaddr") {
        Some((SOL_SOCKET, 4))
    } else if str_eq(n, "keepalive") {
        Some((SOL_SOCKET, 8))
    } else if str_eq(n, "broadcast") {
        Some((SOL_SOCKET, 32))
    } else if str_eq(n, "sndbuf") {
        Some((SOL_SOCKET, 4097))
    } else if str_eq(n, "rcvbuf") {
        Some((SOL_SOCKET, 4098))
    } else if str_eq(n, "nodelay") {
        Some((IPPROTO_TCP, 1))
    } else {
        None
    }
}

} // verus!
