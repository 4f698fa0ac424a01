//! What method calls do, told of whole expressions: lists, maps, texts and structs.

use crate::ast::ExprView;
use crate::bigstep::{
    all_give, at, collected, fails, fails_at, gives, gives_at, last_step, leads, leads_here,
    leads_on, part, runs, runs_at, step_leads,
};
use crate::interp::{finish, step_spec};
use crate::irstate::module_name;
use crate::library::glued;
use crate::machops::{method_way, struct_of, MethodWay};
use crate::machstate::{frame_env, method_def, CtrlView, FlowView, FrameView, KindView, Mach};
use crate::strings::{first_at, first_at_is_first, pieces};
use crate::text::{replace_spec, stands_at};
use crate::value::{dict_at, entry_get, entry_remove, list_at, ObjView, ValueView};
use vstd::prelude::*;

verus! {

/// The machine with an object replaced.
pub open spec fn with_obj(m: Mach, a: usize, o: ObjView) -> Mach {
    Mach { heap: m.heap.update(a as int, o), ..m }
}

pub open spec fn method(obj: ExprView, name: Seq<char>, args: Seq<ExprView>) -> ExprView {
    ExprView::Method { obj: Box::new(obj), name, args }
}

proof fn list_words()
    ensures
        "len"@ != "push"@,
        "len"@ != "reverse"@,
        "len"@ != "sort"@,
        "len"@ != "pop"@,
        "len"@ != "insert"@,
        "len"@ != "contains"@,
        "len"@ != "index"@,
        "len"@ != "count"@,
        "len"@ != "join"@,
        "push"@ != "reverse"@,
        "push"@ != "sort"@,
        "push"@ != "pop"@,
        "push"@ != "insert"@,
        "push"@ != "contains"@,
        "push"@ != "index"@,
        "push"@ != "count"@,
        "push"@ != "join"@,
        "reverse"@ != "sort"@,
        "reverse"@ != "pop"@,
        "reverse"@ != "insert"@,
        "reverse"@ != "contains"@,
        "reverse"@ != "index"@,
        "reverse"@ != "count"@,
        "reverse"@ != "join"@,
        "sort"@ != "pop"@,
        "sort"@ != "insert"@,
        "sort"@ != "contains"@,
        "sort"@ != "index"@,
        "sort"@ != "count"@,
        "sort"@ != "join"@,
        "pop"@ != "insert"@,
        "pop"@ != "contains"@,
        "pop"@ != "index"@,
        "pop"@ != "count"@,
        "pop"@ != "join"@,
        "insert"@ != "contains"@,
        "insert"@ != "index"@,
        "insert"@ != "count"@,
        "insert"@ != "join"@,
        "contains"@ != "index"@,
        "contains"@ != "count"@,
        "contains"@ != "join"@,
        "index"@ != "count"@,
        "index"@ != "join"@,
        "count"@ != "join"@,
{
    reveal_strlit("len");
    reveal_strlit("push");
    reveal_strlit("reverse");
    reveal_strlit("sort");
    reveal_strlit("pop");
    reveal_strlit("insert");
    reveal_strlit("contains");
    reveal_strlit("index");
    reveal_strlit("count");
    reveal_strlit("join");
    assert("len"@.len() == 3);
    assert("push"@.len() == 4);
    assert("reverse"@.len() == 7);
    assert("sort"@.len() == 4);
    assert("pop"@.len() == 3);
    assert("insert"@.len() == 6);
    assert("contains"@.len() == 8);
    assert("index"@.len() == 5);
    assert("count"@.len() == 5);
    assert("join"@.len() == 4);
    assert("len"@[0] != "pop"@[0]);
    assert("push"@[0] != "sort"@[0]);
    assert("push"@[0] != "join"@[0]);
    assert("sort"@[0] != "join"@[0]);
    assert("index"@[0] != "count"@[0]);
}

proof fn map_words()
    ensures
        "len"@ != "keys"@,
        "len"@ != "values"@,
        "len"@ != "has"@,
        "len"@ != "contains"@,
        "len"@ != "get"@,
        "len"@ != "remove"@,
        "keys"@ != "values"@,
        "keys"@ != "has"@,
        "keys"@ != "contains"@,
        "keys"@ != "get"@,
        "keys"@ != "remove"@,
        "values"@ != "has"@,
        "values"@ != "contains"@,
        "values"@ != "get"@,
        "values"@ != "remove"@,
        "has"@ != "contains"@,
        "has"@ != "get"@,
        "has"@ != "remove"@,
        "contains"@ != "get"@,
        "contains"@ != "remove"@,
        "get"@ != "remove"@,
{
    reveal_strlit("len");
    reveal_strlit("keys");
    reveal_strlit("values");
    reveal_strlit("has");
    reveal_strlit("contains");
    reveal_strlit("get");
    reveal_strlit("remove");
    assert("len"@.len() == 3);
    assert("keys"@.len() == 4);
    assert("values"@.len() == 6);
    assert("has"@.len() == 3);
    assert("contains"@.len() == 8);
    assert("get"@.len() == 3);
    assert("remove"@.len() == 6);
    assert("len"@[0] != "has"@[0]);
    assert("len"@[0] != "get"@[0]);
    assert("values"@[0] != "remove"@[0]);
    assert("has"@[0] != "get"@[0]);
}

/// `xs.push(v)` puts the value behind the last element of the list, and gives `nil`.
pub proof fn push_appends(
    m: Mach,
    obj: ExprView,
    a: usize,
    x: ExprView,
    k: Mach,
    v: ValueView,
    n: Mach,
)
    requires
        module_name(obj) is None,
        gives(m, obj, ValueView::List(a), k),
        gives(k, x, v, n),
        list_at(n.heap, a) is Some,
    ensures
        gives(
            m,
            method(obj, "push"@, seq![x]),
            ValueView::Nil,
            with_obj(n, a, ObjView::List(list_at(n.heap, a)->0.push(v))),
        ),
{
    list_words();
    reveal(Mach::list_push);
    reveal(Mach::store);
    let e = method(obj, "push"@, seq![x]);
    let z0 = with_obj(n, a, ObjView::List(list_at(n.heap, a)->0.push(v)));
    let fr = FrameView::Recv { name: "push"@, args: seq![x] };
    let kind = KindView::Push { list: a };
    let src = crate::machstate::SrcView::Exprs { s: seq![x] };
    let none = Seq::<ValueView>::empty();
    let fa = FrameView::Args { kind, src, vals: none };
    reveal(Mach::idle);
    reveal(Mach::pop_frame);
    reveal(Mach::push);
    reveal(Mach::eval);
    reveal(Mach::exec);
    reveal(Mach::run_from);
    reveal(Mach::give);
    reveal(Mach::flow);
    reveal(Mach::fail);
    reveal(Mach::task);
    reveal(Mach::collect);
    assert forall|fs: Seq<FrameView>| #[trigger] gives_at(m, e, ValueView::Nil, z0, fs) by {
        let begin = at(m, fs, CtrlView::Eval { e });
        let z = at(z0, fs, CtrlView::Value { v: ValueView::Nil });
        assert(fs.push(fr).drop_last() =~= fs);
        assert(fs.push(fa).drop_last() =~= fs);
        let b = at(k, fs, CtrlView::Collect { kind, src, vals: none });
        let w = at(z0, fs, CtrlView::Collect { kind, src, vals: none.push(v) });
        last_step(w, z);
        assert(step_spec(at(n, fs.push(fa), CtrlView::Value { v })) == w);
        part(b, k, fs, fa, x, v, n, z);
        assert(step_spec(at(k, fs.push(fr), CtrlView::Value { v: ValueView::List(a) })) == b);
        part(begin, m, fs, fr, obj, ValueView::List(a), k, z);
    }
}

/// `xs.pop()` takes the last element off the list and gives it; an empty list is an error.
pub proof fn pop_takes_last(m: Mach, obj: ExprView, a: usize, n: Mach)
    requires
        module_name(obj) is None,
        gives(m, obj, ValueView::List(a), n),
        list_at(n.heap, a) is Some,
    ensures
        list_at(n.heap, a)->0.len() > 0 ==> gives(
            m,
            method(obj, "pop"@, Seq::empty()),
            list_at(n.heap, a)->0.last(),
            with_obj(n, a, ObjView::List(list_at(n.heap, a)->0.drop_last())),
        ),
        list_at(n.heap, a)->0.len() == 0 ==> fails(
            m,
            method(obj, "pop"@, Seq::empty()),
            "pop from empty list"@,
            n,
        ),
{
    list_words();
    reveal(Mach::list_pop);
    reveal(Mach::store);
    let e = method(obj, "pop"@, Seq::empty());
    let s = list_at(n.heap, a)->0;
    let z0 = with_obj(n, a, ObjView::List(s.drop_last()));
    let fr = FrameView::Recv { name: "pop"@, args: Seq::empty() };
    if s.len() > 0 {
    reveal(Mach::idle);
    reveal(Mach::pop_frame);
    reveal(Mach::push);
    reveal(Mach::eval);
    reveal(Mach::exec);
    reveal(Mach::run_from);
    reveal(Mach::give);
    reveal(Mach::flow);
    reveal(Mach::fail);
    reveal(Mach::task);
    reveal(Mach::collect);
    assert forall|fs: Seq<FrameView>| #[trigger] gives_at(m, e, s.last(), z0, fs) by {
        let begin = at(m, fs, CtrlView::Eval { e });
        let z = at(z0, fs, CtrlView::Value { v: s.last() });
        assert(fs.push(fr).drop_last() =~= fs);
        leads_here(z);
        part(begin, m, fs, fr, obj, ValueView::List(a), n, z);
    }
    } else {
        let t = "pop from empty list"@;
    reveal(Mach::idle);
    reveal(Mach::pop_frame);
    reveal(Mach::push);
    reveal(Mach::eval);
    reveal(Mach::exec);
    reveal(Mach::run_from);
    reveal(Mach::give);
    reveal(Mach::flow);
    reveal(Mach::fail);
    reveal(Mach::task);
    reveal(Mach::collect);
    assert forall|fs: Seq<FrameView>| #[trigger] fails_at(m, e, t, n, fs) by {
        let begin = at(m, fs, CtrlView::Eval { e });
        let z = at(n, fs, CtrlView::Error { m: t });
        assert(fs.push(fr).drop_last() =~= fs);
        leads_here(z);
        part(begin, m, fs, fr, obj, ValueView::List(a), n, z);
    }
    }
}

/// `xs.reverse()` turns the order of the elements round.
pub proof fn reverse_turns(m: Mach, obj: ExprView, a: usize, n: Mach)
    requires
        module_name(obj) is None,
        gives(m, obj, ValueView::List(a), n),
        list_at(n.heap, a) is Some,
    ensures
        gives(
            m,
            method(obj, "reverse"@, Seq::empty()),
            ValueView::Nil,
            with_obj(
                n,
                a,
                ObjView::List(
                    Seq::new(
                        list_at(n.heap, a)->0.len(),
                        |i: int| list_at(n.heap, a)->0[list_at(n.heap, a)->0.len() - 1 - i],
                    ),
                ),
            ),
        ),
{
    list_words();
    reveal(Mach::list_reverse);
    reveal(Mach::store);
    let e = method(obj, "reverse"@, Seq::empty());
    let s = list_at(n.heap, a)->0;
    let r = Seq::new(
        list_at(n.heap, a)->0.len(),
        |i: int| list_at(n.heap, a)->0[list_at(n.heap, a)->0.len() - 1 - i],
    );
    assert(s.reverse() =~= r);
    let z0 = with_obj(n, a, ObjView::List(r));
    let fr = FrameView::Recv { name: "reverse"@, args: Seq::empty() };
    reveal(Mach::idle);
    reveal(Mach::pop_frame);
    reveal(Mach::push);
    reveal(Mach::eval);
    reveal(Mach::exec);
    reveal(Mach::run_from);
    reveal(Mach::give);
    reveal(Mach::flow);
    reveal(Mach::fail);
    reveal(Mach::task);
    reveal(Mach::collect);
    assert forall|fs: Seq<FrameView>| #[trigger] gives_at(m, e, ValueView::Nil, z0, fs) by {
        let begin = at(m, fs, CtrlView::Eval { e });
        let z = at(z0, fs, CtrlView::Value { v: ValueView::Nil });
        assert(fs.push(fr).drop_last() =~= fs);
        leads_here(z);
        part(begin, m, fs, fr, obj, ValueView::List(a), n, z);
    }
}

/// The steps of a method with one argument, up to where the argument is known.
proof fn first_argument(
    m: Mach,
    obj: ExprView,
    recv: ValueView,
    name: Seq<char>,
    args: Seq<ExprView>,
    k: Mach,
    v: ValueView,
    n: Mach,
    fs: Seq<FrameView>,
    z: Mach,
)
    requires
        module_name(obj) is None,
        gives(m, obj, recv, k),
        method_way(recv, name) == MethodWay::First,
        args.len() > 0,
        gives(k, args[0], v, n),
        leads(crate::interp::method_one(at(n, fs, CtrlView::Await), recv, name, args, v), z),
    ensures
        leads(at(m, fs, CtrlView::Eval { e: method(obj, name, args) }), z),
{
    reveal(Mach::idle);
    reveal(Mach::pop_frame);
    reveal(Mach::push);
    reveal(Mach::eval);
    reveal(Mach::exec);
    reveal(Mach::run_from);
    reveal(Mach::give);
    reveal(Mach::flow);
    reveal(Mach::fail);
    reveal(Mach::task);
    reveal(Mach::collect);
    let fr = FrameView::Recv { name, args };
    let fm = FrameView::Meth1 { recv, name, args };
    let a = at(m, fs, CtrlView::Eval { e: method(obj, name, args) });
    assert(fs.push(fr).drop_last() =~= fs);
    assert(fs.push(fm).drop_last() =~= fs);
    let b = at(k, fs.push(fr), CtrlView::Value { v: recv });
    assert(step_spec(b) == at(k, fs.push(fm), CtrlView::Eval { e: args[0] }));
    part(b, k, fs, fm, args[0], v, n, z);
    assert(gives_at(m, obj, recv, k, fs.push(fr)));
    leads_on(step_spec(a), b, z);
    step_leads(a, z);
}

/// `d.get(k)` gives the value under the key, and `nil` where there is none; `d.has(k)` says
/// whether there is one. With a second argument `get` gives that instead of `nil`.
pub proof fn get_and_has(
    m: Mach,
    obj: ExprView,
    a: usize,
    x: ExprView,
    k: Mach,
    v: ValueView,
    n: Mach,
    y: ExprView,
    w: ValueView,
    q: Mach,
)
    requires
        module_name(obj) is None,
        gives(m, obj, ValueView::Dict(a), k),
        gives(k, x, v, n),
        dict_at(n.heap, a) is Some,
    ensures
        entry_get(dict_at(n.heap, a)->0, v) matches Some(r) ==> gives(m, method(obj, "get"@, seq![x]), r, n) && gives(
            m,
            method(obj, "get"@, seq![x, y]),
            r,
            n,
        ),
        entry_get(dict_at(n.heap, a)->0, v) is None ==> gives(
            m,
            method(obj, "get"@, seq![x]),
            ValueView::Nil,
            n,
        ),
        entry_get(dict_at(n.heap, a)->0, v) is None && gives(n, y, w, q) ==> gives(
            m,
            method(obj, "get"@, seq![x, y]),
            w,
            q,
        ),
        gives(
            m,
            method(obj, "has"@, seq![x]),
            ValueView::Bool(entry_get(dict_at(n.heap, a)->0, v) is Some),
            n,
        ),
{
    map_words();
    let s = dict_at(n.heap, a)->0;
    let recv = ValueView::Dict(a);
    let e1 = method(obj, "get"@, seq![x]);
    let e2 = method(obj, "get"@, seq![x, y]);
    let e3 = method(obj, "has"@, seq![x]);
    crate::value::entry_at_bounds(s, v, 0);
    let found = ValueView::Bool(entry_get(s, v) is Some);
    let r = match entry_get(s, v) {
        Some(r) => r,
        None => ValueView::Nil,
    };
    if entry_get(s, v) is Some {
    reveal(Mach::idle);
    reveal(Mach::pop_frame);
    reveal(Mach::push);
    reveal(Mach::eval);
    reveal(Mach::exec);
    reveal(Mach::run_from);
    reveal(Mach::give);
    reveal(Mach::flow);
    reveal(Mach::fail);
    reveal(Mach::task);
    reveal(Mach::collect);
    assert forall|fs: Seq<FrameView>| #[trigger] gives_at(m, e2, r, n, fs) by {
        let z = at(n, fs, CtrlView::Value { v: r });
        leads_here(z);
        first_argument(m, obj, recv, "get"@, seq![x, y], k, v, n, fs, z);
    }
    } else if gives(n, y, w, q) {
    reveal(Mach::idle);
    reveal(Mach::pop_frame);
    reveal(Mach::push);
    reveal(Mach::eval);
    reveal(Mach::exec);
    reveal(Mach::run_from);
    reveal(Mach::give);
    reveal(Mach::flow);
    reveal(Mach::fail);
    reveal(Mach::task);
    reveal(Mach::collect);
    assert forall|fs: Seq<FrameView>| #[trigger] gives_at(m, e2, w, q, fs) by {
        let z = at(q, fs, CtrlView::Value { v: w });
        assert(gives_at(n, y, w, q, fs));
        first_argument(m, obj, recv, "get"@, seq![x, y], k, v, n, fs, z);
    }
    }
    reveal(Mach::idle);
    reveal(Mach::pop_frame);
    reveal(Mach::push);
    reveal(Mach::eval);
    reveal(Mach::exec);
    reveal(Mach::run_from);
    reveal(Mach::give);
    reveal(Mach::flow);
    reveal(Mach::fail);
    reveal(Mach::task);
    reveal(Mach::collect);
    assert forall|fs: Seq<FrameView>| #[trigger] gives_at(m, e1, r, n, fs) by {
        let z = at(n, fs, CtrlView::Value { v: r });
        leads_here(z);
        first_argument(m, obj, recv, "get"@, seq![x], k, v, n, fs, z);
    }
    reveal(Mach::idle);
    reveal(Mach::pop_frame);
    reveal(Mach::push);
    reveal(Mach::eval);
    reveal(Mach::exec);
    reveal(Mach::run_from);
    reveal(Mach::give);
    reveal(Mach::flow);
    reveal(Mach::fail);
    reveal(Mach::task);
    reveal(Mach::collect);
    assert forall|fs: Seq<FrameView>| #[trigger] gives_at(m, e3, found, n, fs) by {
        let z = at(n, fs, CtrlView::Value { v: found });
        leads_here(z);
        first_argument(m, obj, recv, "has"@, seq![x], k, v, n, fs, z);
    }
}

/// `d.remove(k)` takes the entry with the key out of the map and gives its value, or `nil`.
pub proof fn remove_takes_out(
    m: Mach,
    obj: ExprView,
    a: usize,
    x: ExprView,
    k: Mach,
    v: ValueView,
    n: Mach,
)
    requires
        module_name(obj) is None,
        gives(m, obj, ValueView::Dict(a), k),
        gives(k, x, v, n),
        dict_at(n.heap, a) is Some,
    ensures
        gives(m, method(obj, "remove"@, seq![x]), match entry_get(dict_at(n.heap, a)->0, v) { Some(r) => r, None => ValueView::Nil }, with_obj(n, a, ObjView::Dict(entry_remove(dict_at(n.heap, a)->0, v)))),
{
    map_words();
    let s = dict_at(n.heap, a)->0;
    let e1 = method(obj, "remove"@, seq![x]);
    let r = match entry_get(s, v) {
        Some(r) => r,
        None => ValueView::Nil,
    };
    let z0 = with_obj(n, a, ObjView::Dict(entry_remove(s, v)));
    reveal(Mach::dict_remove);
    reveal(Mach::store);
    reveal(Mach::idle);
    reveal(Mach::pop_frame);
    reveal(Mach::push);
    reveal(Mach::eval);
    reveal(Mach::exec);
    reveal(Mach::run_from);
    reveal(Mach::give);
    reveal(Mach::flow);
    reveal(Mach::fail);
    reveal(Mach::task);
    reveal(Mach::collect);
    assert forall|fs: Seq<FrameView>| #[trigger] gives_at(m, e1, r, z0, fs) by {
        let z = at(z0, fs, CtrlView::Value { v: r });
        leads_here(z);
        first_argument(m, obj, ValueView::Dict(a), "remove"@, seq![x], k, v, n, fs, z);
    }
}

/// A method of a struct runs with the struct as its first parameter, and gives what its body
/// returns; the caller finds its own variables again.
pub proof fn struct_method(
    m: Mach,
    obj: ExprView,
    name: Seq<char>,
    recv: ValueView,
    ms: Seq<Mach>,
    es: Seq<ExprView>,
    vs: Seq<ValueView>,
    owner: Seq<char>,
    d: usize,
    f: FlowView,
    n: Mach,
)
    requires
        module_name(obj) is None,
        recv is Struct,
        gives(m, obj, recv, ms[0]),
        struct_of(ms[0].heap, recv) == Some(owner),
        method_def(ms[0].methods, owner, name, ms[0].methods.len()) == Some(d),
        all_give(ms, es, vs),
        d < ms.last().defs.len(),
        !(f is TailCall),
        runs(
            (
                Mach {
                    env: frame_env(ms.last().defs[d as int].params, seq![recv] + vs),
                    tail: if ms.last().defs[d as int].is_method { None } else {
                        Some(
                            (
                                ms.last().defs[d as int].name,
                                ms.last().defs[d as int].params.len() as usize,
                            ),
                        )
                    },
                    ..ms.last()
                }
            ),
            ms.last().defs[d as int].body,
            0,
            f,
            n,
        ),
    ensures
        gives(m, method(obj, name, es), match f { FlowView::Return { v } => v, _ => ValueView::Nil }, (Mach { env: ms.last().env, tail: ms.last().tail, ..n })),
{
    let e1 = method(obj, name, es);
    let v = match f {
        FlowView::Return { v } => v,
        _ => ValueView::Nil,
    };
    let k = ms.last();
    let def = k.defs[d as int];
    let c = Mach {
        env: frame_env(def.params, seq![recv] + vs),
        tail: if def.is_method {
            None
        } else {
            Some((def.name, def.params.len() as usize))
        },
        ..k
    };
    let r = Mach { env: k.env, tail: k.tail, ..n };
    let kind = KindView::Method { def: d, recv };
    let fc = FrameView::Recv { name, args: es };
    reveal(Mach::enter);
    reveal(Mach::leave);
    reveal(Mach::idle);
    reveal(Mach::pop_frame);
    reveal(Mach::push);
    reveal(Mach::eval);
    reveal(Mach::exec);
    reveal(Mach::run_from);
    reveal(Mach::give);
    reveal(Mach::flow);
    reveal(Mach::fail);
    reveal(Mach::task);
    reveal(Mach::collect);
    assert forall|fs: Seq<FrameView>| #[trigger] gives_at(m, e1, v, r, fs) by {
        let a = at(m, fs, CtrlView::Eval { e: e1 });
        let z = at(r, fs, CtrlView::Value { v: v });
        let fr = FrameView::Call { env: k.env, tail: k.tail, tramp: Some(d) };
        collected(ms, es, vs, kind, fs, 0);
        assert(vs.take(0) =~= Seq::<ValueView>::empty());
        let b = finish(at(k, fs, CtrlView::Await), kind, vs);
        assert(b == at(c, fs.push(fr), CtrlView::Run { stmts: def.body, i: 0 }));
        assert(runs_at(c, def.body, 0, f, n, fs.push(fr)));
        let y = at(n, fs.push(fr), CtrlView::Flow { f });
        assert(fs.push(fr).drop_last() =~= fs);
        assert(fs.push(fc).drop_last() =~= fs);
        last_step(y, z);
        leads_on(b, y, z);
        let w = at(ms[0], fs.push(fc), CtrlView::Value { v: recv });
        leads_on(step_spec(w), b, z);
        part(a, m, fs, fc, obj, recv, ms[0], z);
    }
}

/// Replacing a part of a text is splitting the text there and joining the pieces with what
/// replaces it.
pub proof fn replace_is_split_and_join(s: Seq<char>, p: Seq<char>, r: Seq<char>)
    requires
        p.len() > 0,
    ensures
        replace_spec(s, p, r) == glued(pieces(s, p, 0), r),
{
    replaced_from(s, p, r, 0);
    assert(s.skip(0) =~= s);
}

proof fn stands_in_rest(s: Seq<char>, p: Seq<char>, i: int)
    requires
        0 <= i <= s.len(),
    ensures
        stands_at(s.skip(i), p, 0) == stands_at(s, p, i),
{
    if i + p.len() <= s.len() {
        assert(s.skip(i).subrange(0, p.len() as int) =~= s.subrange(i, i + p.len()));
    }
}

/// Up to the first occurrence nothing is replaced.
proof fn kept_until(s: Seq<char>, p: Seq<char>, r: Seq<char>, i: int, k: int)
    requires
        p.len() > 0,
        0 <= i <= k <= s.len(),
        forall|j: int| i <= j < k ==> !stands_at(s, p, j),
    ensures
        replace_spec(s.skip(i), p, r) == s.subrange(i, k) + replace_spec(s.skip(k), p, r),
    decreases k - i,
{
    if i < k {
        kept_until(s, p, r, i + 1, k);
        stands_in_rest(s, p, i);
        let t = s.skip(i);
        assert(t.skip(1) =~= s.skip(i + 1));
        assert(t[0] == s[i]);
        let z = replace_spec(s.skip(k), p, r);
        assert(seq![s[i]] + (s.subrange(i + 1, k) + z) =~= s.subrange(i, k) + z);
    } else {
        assert(s.subrange(i, k) =~= Seq::empty());
        assert(Seq::<char>::empty() + replace_spec(s.skip(k), p, r) =~= replace_spec(
            s.skip(k),
            p,
            r,
        ));
    }
}

proof fn replaced_from(s: Seq<char>, p: Seq<char>, r: Seq<char>, from: int)
    requires
        p.len() > 0,
        0 <= from <= s.len(),
    ensures
        replace_spec(s.skip(from), p, r) == glued(pieces(s, p, from), r),
        pieces(s, p, from).len() > 0,
    decreases s.len() - from,
{
    first_at_is_first(s, p, from);
    match first_at(s, p, from) {
        Some(k) => {
            let next = k + p.len();
            kept_until(s, p, r, from, k);
            replaced_from(s, p, r, next);
            stands_in_rest(s, p, k);
            assert(s.skip(k).skip(p.len() as int) =~= s.skip(next));
            let rest = pieces(s, p, next);
            let all = seq![s.subrange(from, k)] + rest;
            assert(all.skip(1) =~= rest);
            assert(glued(all, r) == s.subrange(from, k) + r + glued(rest, r));
            assert(s.subrange(from, k) + r + glued(rest, r) =~= s.subrange(from, k) + (r + glued(
                rest,
                r,
            )));
        },
        None => {
            let n = s.len() as int;
            kept_until(s, p, r, from, n);
            assert(s.skip(n) =~= Seq::empty());
            assert(s.subrange(from, n) + Seq::<char>::empty() =~= s.skip(from));
        },
    }
}

} // verus!
