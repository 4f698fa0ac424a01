//! What the escapes of string constants keep: nothing is lost, and what is written is
//! printable.

use crate::asmstate::{escape_byte, escape_spec};
use vstd::prelude::*;

verus! {

/// Joining strings joins their escapes.
pub proof fn escapes_join(a: Seq<u8>, b: Seq<u8>)
    ensures
        escape_spec(a + b) == escape_spec(a) + escape_spec(b),
    decreases b.len(),
{
    if b.len() == 0 {
        assert(a + b =~= a);
        assert(escape_spec(a) + escape_spec(b) =~= escape_spec(a));
    } else {
        escapes_join(a, b.drop_last());
        assert((a + b).drop_last() =~= a + b.drop_last());
        assert((a + b).last() == b.last());
        assert(escape_spec(a + b) =~= escape_spec(a) + escape_spec(b));
    }
}

proof fn from_the_front(a: Seq<u8>)
    requires
        a.len() > 0,
    ensures
        escape_spec(a) == escape_byte(a[0]) + escape_spec(a.drop_first()),
{
    let one = seq![a[0]];
    assert(one.drop_last() =~= Seq::<u8>::empty());
    assert(escape_spec(Seq::<u8>::empty()) == Seq::<char>::empty());
    assert(escape_spec(one) == escape_spec(one.drop_last()) + escape_byte(one.last()));
    assert(escape_spec(one) =~= escape_byte(a[0]));
    assert(one + a.drop_first() =~= a);
    escapes_join(one, a.drop_first());
}

/// A byte that is written as it is.
spec fn is_plain(c: u8) -> bool {
    0x20 <= c <= 0x7e && c != 0x22 && c != 0x5c
}

/// A byte that is written as its number.
spec fn is_other(c: u8) -> bool {
    !(0x20 <= c <= 0x7e) && c != 0x0a && c != 0x09 && c != 0x0d
}

proof fn shape(c: u8)
    ensures
        is_plain(c) <==> escape_byte(c)[0] != '\\',
        is_plain(c) ==> escape_byte(c) == seq![c as char],
        !is_plain(c) && !is_other(c) ==> escape_byte(c).len() == 2 && !('0' <= escape_byte(c)[1]
            <= '7'),
        is_other(c) ==> escape_byte(c).len() == 4 && '0' <= escape_byte(c)[1] <= '7',
        is_other(c) ==> escape_byte(c)[1] as int == 48 + c as int / 64 && escape_byte(c)[2] as int
            == 48 + c as int / 8 % 8 && escape_byte(c)[3] as int == 48 + c as int % 8,
{
}

proof fn same_number(c: int, d: int)
    requires
        0 <= c < 256,
        0 <= d < 256,
        c / 64 == d / 64,
        c / 8 % 8 == d / 8 % 8,
        c % 8 == d % 8,
    ensures
        c == d,
{
}

/// The escape of a byte ends where it is seen to end.
proof fn first_byte(c: u8, d: u8, x: Seq<char>, y: Seq<char>)
    requires
        escape_byte(c) + x == escape_byte(d) + y,
    ensures
        c == d,
        x == y,
{
    let (e, f) = (escape_byte(c), escape_byte(d));
    let s = e + x;
    shape(c);
    shape(d);
    assert(s[0] == e[0] && s[0] == f[0]);
    if !is_plain(c) {
        assert(s[1] == e[1] && s[1] == f[1]);
        if is_other(c) {
            assert(s[2] == e[2] && s[2] == f[2]);
            assert(s[3] == e[3] && s[3] == f[3]);
            same_number(c as int, d as int);
        }
    }
    assert(c == d);
    assert(s.skip(e.len() as int) =~= x);
    assert((f + y).skip(f.len() as int) =~= y);
}

/// Different strings have different escapes.
pub proof fn escapes_lose_nothing(a: Seq<u8>, b: Seq<u8>)
    requires
        escape_spec(a) == escape_spec(b),
    ensures
        a == b,
    decreases a.len(),
{
    if a.len() > 0 {
        from_the_front(a);
    }
    if b.len() > 0 {
        from_the_front(b);
    }
    if a.len() > 0 && b.len() > 0 {
        first_byte(a[0], b[0], escape_spec(a.drop_first()), escape_spec(b.drop_first()));
        escapes_lose_nothing(a.drop_first(), b.drop_first());
        assert(a =~= seq![a[0]] + a.drop_first());
        assert(b =~= seq![b[0]] + b.drop_first());
    } else {
        assert(a.len() > 0 ==> escape_spec(a).len() > 0);
        assert(b.len() > 0 ==> escape_spec(b).len() > 0);
        assert(a =~= b);
    }
}

/// What is written for a string is printable ASCII, and every quote in it has a backslash
/// before it.
pub proof fn escapes_are_printable(a: Seq<u8>)
    ensures
        forall|i: int|
            0 <= i < escape_spec(a).len() ==> ' ' <= #[trigger] escape_spec(a)[i] <= '~',
        forall|i: int|
            0 <= i < escape_spec(a).len() && #[trigger] escape_spec(a)[i] == '"' ==> i > 0
                && escape_spec(a)[i - 1] == '\\',
    decreases a.len(),
{
    if a.len() > 0 {
        let init = escape_spec(a.drop_last());
        let e = escape_byte(a.last());
        let all = escape_spec(a);
        escapes_are_printable(a.drop_last());
        assert forall|i: int| 0 <= i < all.len() implies ' ' <= #[trigger] all[i] <= '~' by {
            if i < init.len() {
                assert(all[i] == init[i]);
            } else {
                assert(all[i] == e[i - init.len()]);
            }
        }
        assert forall|i: int| 0 <= i < all.len() && #[trigger] all[i] == '"' implies i > 0
            && all[i - 1] == '\\' by {
            if i < init.len() {
                assert(all[i] == init[i]);
                assert(all[i - 1] == init[i - 1]);
            } else {
                let k = i - init.len();
                assert(all[i] == e[k]);
                assert(k == 1);
                assert(all[i - 1] == e[0]);
            }
        }
    }
}

} // verus!
