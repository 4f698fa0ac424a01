//! Laws of the layout of lines: which blocks a line opens and closes by its indentation.

use crate::lexer::{close, emit_indent, Lex, Tok, TokView};
use vstd::prelude::*;

verus! {

/// The widths of the open blocks, each wider than the one around it.
pub open spec fn rising(s: Seq<int>) -> bool {
    forall|i: int, j: int| 0 <= i < j < s.len() ==> #[trigger] s[i] < #[trigger] s[j]
}

/// Closing blocks takes off just those that are wider than the line.
pub proof fn closing_stops(s: Seq<int>, width: int)
    requires
        rising(s),
        s.len() > 0,
        s[0] <= width,
    ensures
        0 < close(s, width).len() <= s.len(),
        close(s, width) == s.take(close(s, width).len() as int),
        close(s, width).last() <= width,
        forall|i: int| close(s, width).len() <= i < s.len() ==> #[trigger] s[i] > width,
    decreases s.len(),
{
    if width < s.last() {
        let p = s.drop_last();
        assert(rising(p)) by {
            assert forall|i: int, j: int| 0 <= i < j < p.len() implies #[trigger] p[i]
                < #[trigger] p[j] by {
                assert(s[i] < s[j]);
            }
        }
        closing_stops(p, width);
        let n = close(s, width).len() as int;
        assert(s.take(n) =~= p.take(n));
        assert forall|i: int| n <= i < s.len() implies #[trigger] s[i] > width by {
            if i < p.len() {
                assert(p[i] > width);
            }
        }
    } else {
        assert(s.take(s.len() as int) =~= s);
    }
}

/// A line that is wider than the innermost block opens one block; one that is as wide stays
/// in it; a narrower one closes every block that is wider than it, one `Dedent` for each,
/// and is an error where no open block has its width. After a line the innermost block is
/// as wide as the line.
pub proof fn lines_open_and_close(s: Lex, width: int)
    requires
        rising(s.indents),
        s.indents.len() > 0,
        s.indents[0] == 0,
        width >= 0,
    ensures
        match emit_indent(s, width) {
            Err(_) => width < s.indents.last() && !s.indents.contains(width),
            Ok((t, o)) => {
                &&& rising(t.indents)
                &&& t.indents.len() > 0
                &&& t.indents.last() == width
                &&& t.pos == s.pos
                &&& match o {
                    None => width == s.indents.last() && t == s,
                    Some(k) => if width > s.indents.last() {
                        k.tok == TokView::Plain(Tok::Indent) && t.indents.len() == s.indents.len()
                            + 1 && t.pending == s.pending
                    } else {
                        &&& width < s.indents.last()
                        &&& k.tok == TokView::Plain(Tok::Dedent)
                        &&& t.indents == s.indents.take(t.indents.len() as int)
                        &&& t.pending.len() - s.pending.len() + 1 == s.indents.len()
                            - t.indents.len()
                        &&& forall|i: int|
                            s.pending.len() <= i < t.pending.len() ==> (#[trigger] t.pending[i]).tok
                                == TokView::Plain(Tok::Dedent)
                    },
                }
            },
        },
{
    let ind = s.indents;
    closing_stops(ind, width);
    if width < ind.last() {
        let kept = close(ind, width);
        let n = kept.len() as int;
        assert(kept.last() == ind[n - 1]);
        assert(n < ind.len()) by {
            if n == ind.len() {
                assert(kept =~= ind);
            }
        }
        assert(rising(kept)) by {
            assert forall|i: int, j: int| 0 <= i < j < kept.len() implies #[trigger] kept[i]
                < #[trigger] kept[j] by {
                assert(ind[i] < ind[j]);
            }
        }
        if ind.contains(width) {
            let i = choose|i: int| 0 <= i < ind.len() && ind[i] == width;
            if i < n - 1 {
                assert(ind[i] < ind[n - 1]);
            } else if i >= n {
                assert(ind[i] > width);
            }
        }
    } else if width > ind.last() {
        let w = ind.push(width);
        assert(rising(w)) by {
            assert forall|i: int, j: int| 0 <= i < j < w.len() implies #[trigger] w[i]
                < #[trigger] w[j] by {
                if j < ind.len() {
                    assert(ind[i] < ind[j]);
                } else if i < ind.len() - 1 {
                    assert(ind[i] < ind[ind.len() - 1]);
                }
            }
        }
    }
}

} // verus!
