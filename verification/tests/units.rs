//! The parts of the library by themselves.

use lumenc::asmstate::escape;
use lumenc::ast::{wrap48, DeclKind, DeclSpan, Expr, ExternBlock, FnDef, ImportDef, Item, Param, Stmt, StructDef, Type};
use lumenc::builtins::{is_module, lookup, module_fn, MODULE_FN_COUNT};
use lumenc::calendar::{date_of, fmt_epoch_utc};
use lumenc::cbuf::{cbuf_bounds, cget, cset, guid, sign_extend};
use lumenc::cli::{backend_choice, build_args, collect_extlibs, cut_endings, decl_line, extract_line_no, llvm_out, png2ico, report, use_llvm, words};
use lumenc::defaults::expand_program;
use lumenc::desugar::desugar_program;
use lumenc::divide::magic_signed;
use lumenc::escape::analyze;
use lumenc::floatbits::{equal, less, negate, to_whole};
use lumenc::http::fetch;
use lumenc::imports::{access_name, from_file, rewrite_program, segments};
use lumenc::json::{json_escape, json_parse, json_write, Json};
use lumenc::lexer::{Lexer, Tok};
use lumenc::lift::lift_program;
use lumenc::llvm::{bins, find, find_clang, find_lld, install_hint};
use lumenc::mir::{BinKind, Inst, MirFn, Val};
use lumenc::names::{NameMap, NameSet};
use lumenc::net::{htons, ip_string, ntohs, one_socket, poll_mask, poll_time, set_opt, sock_addr};
use lumenc::numbers::{factorial, gcd, lcm, Rng};
use lumenc::peephole::peephole;
use lumenc::resolve::{mod_places, read_error, take_place, Resolver};
use lumenc::strings::{find as find_text, parse_int, slice_bounds, split, title};
use lumenc::value::{lumen_map, values_eq, Obj, Shown, Value};
use lumenc::{compile, CompileError};
use std::collections::HashMap;
use std::rc::Rc;

// ---- peephole ----

#[test]
fn drops_redundant_reload() {
    let code = "    mov [rbp-8], rax\n    mov rax, [rbp-8]\n";
    let got = peephole(code);
    assert!(got.contains("mov [rbp-8], rax"));
    assert!(!got.contains("mov rax, [rbp-8]"));
}

#[test]
fn reload_to_reg_move() {
    let code = "    mov [rbp-8], rax\n    mov rcx, [rbp-8]\n";
    let got = peephole(code);
    assert!(got.contains("mov rcx, rax"));
    assert!(!got.contains("mov rcx, [rbp-8]"));
}

#[test]
fn leaves_unrelated_alone() {
    let code = "    mov [rbp-8], rax\n    mov rcx, [rbp-16]\n";
    let got = peephole(code);
    assert!(got.contains("mov rcx, [rbp-16]"));
}

// ---- division by constants ----

fn modeled_quotient(n: i64, d: i64) -> i64 {
    if d == 1 {
        return n;
    }
    if d == -1 {
        return n.wrapping_neg();
    }
    let ad = (d as i128).unsigned_abs() as u64;
    if ad.is_power_of_two() {
        let k = ad.trailing_zeros();
        let sign = (n >> 63) as u64;
        let corr = (sign >> (64 - k)) as i64;
        let mut q = n.wrapping_add(corr);
        q >>= k;
        if d < 0 {
            q = q.wrapping_neg();
        }
        return q;
    }
    let (m, s) = magic_signed(ad);
    let hi = (((n as i128) * (m as i128)) >> 64) as i64;
    let mut q = hi;
    if m < 0 {
        q = q.wrapping_add(n);
    }
    if s > 0 {
        q >>= s;
    }
    let signbit = ((q as u64) >> 63) as i64;
    q = q.wrapping_add(signbit);
    if d < 0 {
        q = q.wrapping_neg();
    }
    q
}

fn modeled_rem(n: i64, d: i64) -> i64 {
    let q = modeled_quotient(n, d);
    n.wrapping_sub(q.wrapping_mul(d))
}

#[test]
fn magic_matches_idiv() {
    let divisors: [i64; 30] = [
        1, -1, 2, -2, 3, -3, 4, -4, 5, 6, 7, -7, 8, -8, 9, 10, 11, 13, -13, 16, 17, 100, -100, 128, 1000, -1000,
        1024, 65536, 1_000_000, 7_777_777,
    ];
    let mut dividends: Vec<i64> = vec![
        0,
        1,
        -1,
        2,
        -2,
        6,
        7,
        8,
        -6,
        -7,
        -8,
        13,
        -13,
        41,
        -41,
        100,
        -100,
        99999,
        -99999,
        140737488355327,
        -140737488355328,
        i64::MAX,
        i64::MIN,
        i64::MAX - 1,
        i64::MIN + 1,
        123456789,
        -123456789,
    ];
    let mut x: u64 = 0x9E3779B97F4A7C15;
    for _ in 0..2000 {
        x = x.wrapping_mul(6364136223846793005).wrapping_add(1442695040888963407);
        dividends.push(x as i64);
    }
    for &d in &divisors {
        for &n in &dividends {
            if n == i64::MIN && d == -1 {
                continue;
            }
            let want_q = n.wrapping_div(d);
            let got_q = modeled_quotient(n, d);
            assert_eq!(got_q, want_q, "QUOTIENT mismatch n={} d={}", n, d);
            let want_r = n.wrapping_rem(d);
            let got_r = modeled_rem(n, d);
            assert_eq!(got_r, want_r, "REMAINDER mismatch n={} d={}", n, d);
        }
    }
}

fn modeled_mask_rem(n: i64, d: i64) -> i64 {
    let k = (d as u64).trailing_zeros();
    let rcx = ((n >> 63) as u64 >> (64 - k)) as i64;
    let r = n.wrapping_add(rcx) & (d - 1);
    r.wrapping_sub(rcx)
}

#[test]
fn mask_mod_matches_rem() {
    let pow2: [i64; 12] = [2, 4, 8, 16, 32, 64, 128, 256, 1024, 65536, 1 << 20, 1 << 30];
    let mut ns: Vec<i64> = vec![
        0,
        1,
        -1,
        2,
        -2,
        3,
        -3,
        7,
        -7,
        8,
        -8,
        15,
        -15,
        100,
        -100,
        i64::MAX,
        i64::MIN,
        140737488355327,
        -140737488355328,
    ];
    let mut x: u64 = 0x1234_5678_9ABC_DEF1;
    for _ in 0..3000 {
        x = x.wrapping_mul(6364136223846793005).wrapping_add(1442695040888963407);
        ns.push(x as i64);
    }
    for &d in &pow2 {
        for &n in &ns {
            assert_eq!(modeled_mask_rem(n, d), n.wrapping_rem(d), "mask % mismatch n={} d={}", n, d);
        }
    }
}

#[test]
fn magic_of_seven() {
    assert_eq!(magic_signed(7), (0x4924_9249_2492_4925, 1));
}

#[test]
fn wraps_to_48_bits() {
    assert_eq!(wrap48(140737488355327), 140737488355327);
    assert_eq!(wrap48(140737488355328), -140737488355328);
    assert_eq!(wrap48(-140737488355329), 140737488355327);
    for n in [0, 5, -5, i64::MAX, i64::MIN, 1 << 50] {
        assert_eq!(wrap48(n), (n << 16) >> 16);
    }
}

// ---- lexer ----

fn toks(src: &str) -> Vec<Tok> {
    Lexer::new(src).tokenize().unwrap().into_iter().map(|t| t.tok).collect()
}

#[test]
fn single_comment() {
    let t = toks("#[ hi ]#\nlet x = 1\n");
    assert!(matches!(t[0], Tok::Let));
}

#[test]
fn multiline_comment() {
    let t = toks("#[ line one\n   line two\n   line three ]#\nlet x = 1\n");
    assert!(matches!(t[0], Tok::Let), "got {:?}", &t[..t.len().min(4)]);
}

#[test]
fn block_comment() {
    let src = "fn f():\n    #[ a\n    b ]#\n    return 1\n";
    let t = toks(src);
    assert!(t.iter().any(|x| matches!(x, Tok::Return)));
    assert!(t.iter().any(|x| matches!(x, Tok::Indent)));
}

#[test]
fn block_comment_code() {
    let t = toks("#[ c ]# let x = 1\n");
    assert!(matches!(t[0], Tok::Let));
}

#[test]
fn line_comment_ok() {
    let t = toks("# just a line\nlet y = 2\n");
    assert!(matches!(t[0], Tok::Let));
}

#[test]
fn lexer_layout() {
    let t = toks("if a:\n    b\nc\n");
    assert_eq!(
        t,
        [
            Tok::If,
            Tok::Ident("a".to_string()),
            Tok::Colon,
            Tok::Newline,
            Tok::Indent,
            Tok::Ident("b".to_string()),
            Tok::Newline,
            Tok::Dedent,
            Tok::Ident("c".to_string()),
            Tok::Newline,
            Tok::Eof
        ]
    );
    let inside = toks("f(1,\n   2)\n");
    assert!(!inside.contains(&Tok::Indent));
}

#[test]
fn lexer_errors() {
    assert!(Lexer::new("let x = $\n").tokenize().is_err());
    let e = Lexer::new("\"abc").tokenize().unwrap_err();
    assert!(e.contains("line 1"), "{e}");
    let q = Lexer::new("let x = ?\n").tokenize().unwrap_err();
    assert!(q.contains("'?'"), "{q}");
}

// ---- MIR ----

#[test]
fn binkind_classification() {
    assert!(BinKind::ILt.is_cmp() && !BinKind::IAdd.is_cmp());
    assert!(BinKind::FLt.is_cmp() && BinKind::FLt.is_float());
    assert!(BinKind::FAdd.is_float() && !BinKind::IAdd.is_float());
    assert!(!BinKind::DivConst(7).is_cmp() && !BinKind::DivConst(7).is_float());
}

#[test]
fn inst_def_and_terminator() {
    let bin = Inst::Bin { dst: 3, op: BinKind::IAdd, a: Val::Param(0), b: Val::IntConst(1), wrap: true };
    assert_eq!(bin.def(), Some(3));
    assert!(!bin.is_terminator());
    let ret = Inst::Ret(Some(Val::Vreg(3)));
    assert_eq!(ret.def(), None);
    assert!(ret.is_terminator());
    assert!(Inst::Jmp(0).is_terminator());
    assert!(Inst::Br { cond: Val::Vreg(0), t: 1, f: 2 }.is_terminator());
}

#[test]
fn build_add_by_hand() {
    let mut f = MirFn::new("add", vec![false, false], false);
    let entry = f.new_block();
    assert_eq!(entry, 0);
    assert_eq!(f.entry, 0);
    let v = f.fresh_vreg();
    f.block_mut(entry).insts.push(Inst::Bin {
        dst: v,
        op: BinKind::IAdd,
        a: Val::Param(0),
        b: Val::Param(1),
        wrap: true,
    });
    f.block_mut(entry).insts.push(Inst::Ret(Some(Val::Vreg(v))));
    assert_eq!(f.n_params, 2);
    assert_eq!(f.blocks.len(), 1);
    assert_eq!(f.block(entry).insts.len(), 2);
    assert!(matches!(f.block(entry).terminator(), Some(Inst::Ret(_))));
    assert_eq!(f.validate(), Ok(()));
    let dbg = format!("{:?}", f.block(entry));
    assert!(dbg.contains("IAdd"));
    assert!(dbg.contains("Ret"));
}

#[test]
fn build_loop_cfg() {
    let mut f = MirFn::new("loopy", vec![false], false);
    let entry = f.new_block();
    let header = f.new_block();
    let body = f.new_block();
    let exit = f.new_block();
    f.block_mut(entry).insts.push(Inst::Jmp(header));
    let iphi = f.fresh_vreg();
    let test = f.fresh_vreg();
    f.block_mut(header).insts.push(Inst::Phi {
        dst: iphi,
        srcs: vec![(entry, Val::IntConst(0)), (body, Val::Vreg(99))],
    });
    f.block_mut(header).insts.push(Inst::Bin {
        dst: test,
        op: BinKind::ILt,
        a: Val::Vreg(iphi),
        b: Val::Param(0),
        wrap: false,
    });
    f.block_mut(header).insts.push(Inst::Br { cond: Val::Vreg(test), t: body, f: exit });
    let inext = f.fresh_vreg();
    f.block_mut(body).insts.push(Inst::Bin {
        dst: inext,
        op: BinKind::IAdd,
        a: Val::Vreg(iphi),
        b: Val::IntConst(1),
        wrap: true,
    });
    f.block_mut(body).insts.push(Inst::Jmp(header));
    f.block_mut(exit).insts.push(Inst::Ret(Some(Val::IntConst(0))));
    assert_eq!(f.blocks.len(), 4);
    assert_eq!(f.validate(), Ok(()));
}

#[test]
fn rejects_open_block() {
    let mut f = MirFn::new("bad", vec![], false);
    let b = f.new_block();
    f.block_mut(b).insts.push(Inst::Move { dst: 0, src: Val::IntConst(1) });
    assert!(f.validate().is_err());
}

#[test]
fn rejects_phi_after_nonphi() {
    let mut f = MirFn::new("bad2", vec![], false);
    let b = f.new_block();
    f.block_mut(b).insts.push(Inst::Move { dst: 0, src: Val::IntConst(1) });
    f.block_mut(b).insts.push(Inst::Phi { dst: 1, srcs: vec![] });
    f.block_mut(b).insts.push(Inst::Ret(None));
    assert!(f.validate().is_err());
}

#[test]
fn rejects_oob_branch() {
    let mut f = MirFn::new("bad3", vec![], false);
    let b = f.new_block();
    f.block_mut(b).insts.push(Inst::Jmp(99));
    assert!(f.validate().is_err());
}

// ---- modules ----

#[test]
fn os_fns_ok() {
    for name in [
        "setenv", "cwd", "time", "clock", "getpid", "sep", "platform", "system", "exec", "exit", "args",
    ] {
        assert!(lookup("os", name).is_some(), "os.{name} not registered");
    }
}

#[test]
fn net_fns_ok() {
    for (name, arity) in [
        ("listen", 2u8),
        ("accept", 1),
        ("connect", 2),
        ("udp", 2),
        ("send", 2),
        ("recv", 2),
        ("sendto", 4),
        ("recvfrom", 2),
        ("close", 1),
        ("shutdown", 2),
        ("set_timeout", 2),
        ("set_blocking", 2),
        ("set_opt", 3),
        ("poll", 2),
        ("resolve", 1),
        ("local_port", 1),
        ("errno", 0),
    ] {
        let f = lookup("net", name).unwrap_or_else(|| panic!("net.{name} missing"));
        assert_eq!(f.arity, arity, "net.{name} arity");
    }
}

#[test]
fn symbols_unique() {
    let mut syms: Vec<&str> = (0..MODULE_FN_COUNT).map(|i| module_fn(i).symbol).collect();
    let n = syms.len();
    syms.sort_unstable();
    syms.dedup();
    assert_eq!(syms.len(), n, "duplicate runtime symbol in MODULE_FUNCS");
}

#[test]
fn modules_are_known() {
    assert!(is_module("math") && is_module("json") && !is_module("nope"));
    for n in ["tau", "atan2", "round", "fmod", "copysign", "log1p", "expm1", "isfinite", "log2", "hypot"] {
        assert!(lookup("math", n).is_some(), "math.{n} missing");
    }
    assert!(lookup("math", "nope").is_none());
    assert_eq!(lookup("cffi", "vcall").unwrap().symbol, "lumen_com_vcall");
}

#[test]
fn math_fns_ok() {
    assert!(lookup("math", "log2").is_some());
    assert!(lookup("math", "hypot").is_some());
    assert!(lookup("math", "tau").is_some());
    assert!(lookup("math", "atan2").is_some());
    assert!(lookup("math", "round").is_some());
    assert!(lookup("math", "gcd").is_some());
    assert_eq!(gcd(48, 36), 12);
    assert_eq!(gcd(-12, 8), 4);
    assert!(lookup("math", "lcm").is_some());
    assert_eq!(lcm(4, 6), 12);
    assert_eq!(lcm(0, 5), 0);
    assert!(lookup("math", "factorial").is_some());
    assert_eq!(factorial(5), 120);
    assert_eq!(factorial(-3), 0);
    for n in ["fmod", "copysign", "log1p", "expm1", "isfinite"] {
        assert!(lookup("math", n).is_some(), "math.{n} missing");
    }
}

#[test]
fn times_are_in_order() {
    let seconds = [-62_167_219_200, -1, 0, 59, 60, 86_399, 86_400, 951_782_400, 253_402_300_799];
    let texts: Vec<String> = seconds.iter().map(|s| fmt_epoch_utc(*s)).collect();
    assert!(texts.iter().all(|t| t.len() == 19));
    assert!(texts.windows(2).all(|w| w[0] < w[1]));
    assert_eq!(texts[0], "0000-01-01 00:00:00");
    assert_eq!(texts[8], "9999-12-31 23:59:59");
}

#[test]
fn string_constants_are_printable() {
    let all = "a\"b\\c\n\t\r\u{1}\u{e9}";
    assert_eq!(escape(all), "a\\\"b\\\\c\\n\\t\\r\\001\\303\\251");
    assert_eq!(escape("ab") + &escape("\n"), escape("ab\n"));
}

#[test]
fn more_integer_math() {
    assert_eq!(gcd(0, 0), 0);
    assert_eq!(factorial(0), 1);
    assert_eq!(factorial(25), 7034535277573963776);
}

#[test]
fn rand_seedable() {
    assert!(lookup("rand", "seed").is_some());
    assert!(lookup("rand", "int").is_some());
    assert!(lookup("rand", "float").is_some());
    let mut rng = Rng::new();
    rng.seed(42);
    let a1 = rng.between(1, 1000);
    let a2 = rng.between(1, 1000);
    rng.seed(42);
    let b1 = rng.between(1, 1000);
    let b2 = rng.between(1, 1000);
    assert_eq!((a1, a2), (b1, b2), "same seed must reproduce the sequence");
    for _ in 0..1000 {
        let r = rng.between(5, 7);
        assert!((5..=7).contains(&r), "out of range: {r}");
    }
}

#[test]
fn rng_exact() {
    let mut rng = Rng::new();
    rng.seed(0);
    assert_eq!(rng.next(), 0xE220_A839_7B1D_CDAF);
    assert_eq!(rng.next(), 0x6E78_9E6A_A1B9_65F4);
    rng.seed(0);
    assert_eq!(rng.fraction(), 0xE220_A839_7B1D_CDAF >> 11);
    assert_eq!(rng.between(5, 4), 5);
}

fn stringify(heap: &Vec<Obj>, v: &Value) -> String {
    let mut texts: HashMap<u64, String> = HashMap::new();
    loop {
        match json_write(heap, &texts, v, heap.len()) {
            Shown::Text(s) => return s,
            Shown::Need(b) => {
                texts.insert(b, format!("{:?}", f64::from_bits(b)));
            }
            Shown::Endless => panic!("endless"),
        }
    }
}

fn place(heap: &mut Vec<Obj>, j: Json) -> Value {
    match j {
        Json::Int(n) => Value::Int(n),
        Json::Float(s) => Value::Float(s.parse::<f64>().unwrap().to_bits()),
        Json::Str(s) => Value::Str(Rc::new(s)),
        Json::Bool(b) => Value::Bool(b),
        Json::Nil => Value::Nil,
        Json::List(v) => {
            let items = v.into_iter().map(|x| place(heap, x)).collect();
            heap.push(Obj::List(items));
            Value::List(heap.len() - 1)
        }
        Json::Obj(v) => {
            let pairs = v.into_iter().map(|(k, x)| (Value::Str(Rc::new(k)), place(heap, x))).collect();
            heap.push(Obj::Dict(lumen_map(pairs)));
            Value::Dict(heap.len() - 1)
        }
    }
}

#[test]
fn json_roundtrip() {
    assert!(lookup("json", "stringify").is_some());
    assert!(lookup("json", "parse").is_some());
    let heap = vec![Obj::List(vec![Value::Int(1), Value::Int(2), Value::Int(3)])];
    assert_eq!(stringify(&heap, &Value::List(0)), "[1,2,3]");
    let mut heap = Vec::new();
    let parsed = json_parse("{\"a\": 1, \"b\": [2, 3]}").unwrap();
    let v = place(&mut heap, parsed);
    assert_eq!(stringify(&heap, &v), "{\"a\":1,\"b\":[2,3]}");
    assert!(json_parse("{nope").is_none());
}

#[test]
fn json_read_back() {
    let text = |s: &str| Value::Str(Rc::new(s.to_string()));
    let entries = lumen_map(vec![(text("k\"\u{1}"), Value::List(1)), (Value::Int(-7), Value::Nil)]);
    let heap = vec![
        Obj::List(vec![Value::Int(i64::MIN), Value::Bool(true), text("a\\b"), Value::Dict(2)]),
        Obj::List(vec![]),
        Obj::Dict(entries),
    ];
    let written = stringify(&heap, &Value::List(0));
    assert_eq!(written, "[-9223372036854775808,true,\"a\\\\b\",{\"k\\\"\\u0001\":[],\"-7\":null}]");
    let mut again = Vec::new();
    let v = place(&mut again, json_parse(&written).unwrap());
    assert_eq!(stringify(&again, &v), written);
}

#[test]
fn json_values() {
    let round = |s: &str| {
        let mut heap = Vec::new();
        json_parse(s).map(|j| {
            let v = place(&mut heap, j);
            stringify(&heap, &v)
        })
    };
    assert_eq!(round(" [true , false,null, \"x\\n\\u0041\\/\" ] ").unwrap(), "[true,false,null,\"x\\nA/\"]");
    assert_eq!(round("[1.5, -2e3, 0.1]").unwrap(), "[1.5,-2000.0,0.1]");
    assert_eq!(round("{\"a\":1,\"a\":2}").unwrap(), "{\"a\":2}");
    assert_eq!(round("{}").unwrap(), "{}");
    for bad in ["", "[1,]", "[1", "{\"a\":}", "tru", "1 2", "-", "1e", "9223372036854775808", "\"\\u12\"", "\"a"] {
        assert!(json_parse(bad).is_none(), "{bad}");
    }
    assert!(matches!(json_parse("\"\\ud800\""), Some(Json::Str(s)) if s == "\u{fffd}"));
    let mut out = String::new();
    json_escape("a\"\\\n\t\r\u{8}\u{c}\u{1}\u{1f}", &mut out);
    assert_eq!(out, "\"a\\\"\\\\\\n\\t\\r\\b\\f\\u0001\\u001f\"");
    assert!(matches!(json_parse(&out), Some(Json::Str(s)) if s == "a\"\\\n\t\r\u{8}\u{c}\u{1}\u{1f}"));
}

#[test]
fn time_fmt_utc() {
    assert!(lookup("time", "format").is_some());
    let f = |secs: i64| fmt_epoch_utc(secs);
    assert_eq!(f(0), "1970-01-01 00:00:00");
    assert_eq!(f(1_700_000_000), "2023-11-14 22:13:20");
    assert_eq!(f(951_782_400), "2000-02-29 00:00:00");
    assert_eq!(f(1_582_934_400), "2020-02-29 00:00:00");
    assert!(lookup("time", "now").is_some());
    assert!(lookup("time", "sleep").is_some());
}

#[test]
fn dates() {
    assert_eq!(fmt_epoch_utc(-1), "1969-12-31 23:59:59");
    assert_eq!(fmt_epoch_utc(-62_167_219_200), "0000-01-01 00:00:00");
    assert_eq!(fmt_epoch_utc(-62_167_219_201), "-001-12-31 23:59:59");
    let d = date_of(11_016);
    assert_eq!((d.year, d.month, d.day), (2000, 2, 29));
}

#[test]
fn buffers() {
    let mut b = vec![0u8; 8];
    assert_eq!(cset(&mut b, 2, 4, -2, "set_i32"), Ok(()));
    assert_eq!(b, [0, 0, 0xfe, 0xff, 0xff, 0xff, 0, 0]);
    assert_eq!(cget(&b, 2, 4, "get_i32"), Ok(0xffff_fffe));
    assert_eq!(sign_extend(0xffff_fffe, 4), -2);
    assert_eq!(sign_extend(0x7f, 1), 127);
    assert_eq!(cset(&mut b, 7, 2, 1, "set_i16"), Err("set_i16: offset 7 out of bounds (size 8)".to_string()));
    assert_eq!(cbuf_bounds(8, -1, 1, "get_i8"), Err("get_i8: offset -1 out of bounds (size 8)".to_string()));
    assert_eq!(cbuf_bounds(8, 0, 8, "get_i64"), Ok(0));
}

#[test]
fn guids() {
    assert_eq!(
        guid("{00112233-4455-6677-8899-AABBCCDDEEFF}").unwrap(),
        [0x33, 0x22, 0x11, 0x00, 0x55, 0x44, 0x77, 0x66, 0x88, 0x99, 0xaa, 0xbb, 0xcc, 0xdd, 0xee, 0xff]
    );
    assert_eq!(guid("1234"), Err("guid: expected 32 hex digits".to_string()));
}

// ---- values ----

#[test]
fn maps_keep_order() {
    let mut m = lumen_map(vec![
        (Value::Str(Rc::new("b".to_string())), Value::Int(1)),
        (Value::Int(1), Value::Int(2)),
        (Value::Str(Rc::new("b".to_string())), Value::Int(3)),
    ]);
    assert_eq!(m.len(), 2);
    assert!(matches!(m.get(&Value::Float(1.0f64.to_bits())), Some(Value::Int(2))));
    m.set(Value::Float(1.0f64.to_bits()), Value::Int(9));
    assert!(matches!(m.pairs()[1], (Value::Int(1), Value::Int(9))));
    assert!(matches!(m.remove(&Value::Int(1)), Some(Value::Int(9))));
    assert!(!m.has(&Value::Int(1)));
    m.set(Value::Float(f64::NAN.to_bits()), Value::Nil);
    m.set(Value::Float(f64::NAN.to_bits()), Value::Nil);
    assert_eq!(m.len(), 3);
    assert!(m.get(&Value::Float(f64::NAN.to_bits())).is_none());
}

#[test]
fn equality_of_values() {
    let f = |x: f64| Value::Float(x.to_bits());
    assert!(values_eq(&f(0.0), &f(-0.0)));
    assert!(!values_eq(&f(f64::NAN), &f(f64::NAN)));
    assert!(!values_eq(&Value::Int(1), &f(1.0)));
    assert!(!values_eq(&Value::List(0), &Value::List(0)));
    assert!(values_eq(&Value::Nil, &Value::Nil));
}

#[test]
fn float_bits() {
    let xs = [0.0, -0.0, 1.0, -1.0, 0.5, 1e300, -1e300, f64::INFINITY, f64::NEG_INFINITY, f64::NAN, 4.9e-324, 9.2e18, 9.3e18, 1e15 + 0.5];
    for &a in &xs {
        for &b in &xs {
            assert_eq!(equal(a.to_bits(), b.to_bits()), a == b, "{a} {b}");
            assert_eq!(less(a.to_bits(), b.to_bits()), a < b, "{a} {b}");
        }
        assert_eq!(negate(a.to_bits()), (-a).to_bits());
        let want = if a.is_finite() && a.floor() == a && (-9.2e18..=9.2e18).contains(&a) { Some(a as i64) } else { None };
        assert_eq!(to_whole(a.to_bits()), want, "{a}");
    }
}

#[test]
fn text_helpers() {
    assert_eq!(slice_bounds(-2, 10, 5), (3, 5));
    assert_eq!(slice_bounds(4, 2, 5), (4, 4));
    assert_eq!(split("a--b", "--"), ["a", "b"]);
    assert_eq!(split("ab", ""), ["ab"]);
    assert_eq!(find_text("h\u{e9}llo", "l"), Some(3));
    assert_eq!(find_text("abc", "z"), None);
    assert_eq!(title("hello wORLD"), "Hello World");
    assert_eq!(parse_int("-9223372036854775808"), Some(i64::MIN));
    assert_eq!(parse_int("+7"), Some(7));
    for bad in ["", "-", "1x", "9223372036854775808", " 1"] {
        assert_eq!(parse_int(bad), None);
    }
}

#[test]
fn names_by_text() {
    let mut m: NameMap<i64> = NameMap::new();
    m.insert("a", 1);
    m.insert("b", 2);
    m.insert("a", 3);
    assert_eq!(m.get("a"), Some(&3));
    m.remove("a");
    assert!(!m.contains("a") && m.contains("b"));
    let mut s = NameSet::new();
    assert!(s.is_empty());
    s.insert("x");
    assert!(s.contains("x") && !s.contains("y"));
}

// ---- passes ----

fn id(n: &str) -> Expr {
    Expr::Ident(n.to_string())
}

fn call(f: &str, args: Vec<Expr>) -> Expr {
    Expr::Call { callee: Box::new(id(f)), args }
}

fn function(name: &str, params: Vec<Param>, body: Vec<Stmt>) -> Item {
    Item::Fn(FnDef { name: name.to_string(), params, ret: Type::Unknown, body, exported: false, is_method: false })
}

fn param(name: &str, default: Option<Expr>) -> Param {
    Param { name: name.to_string(), ty: Type::Unknown, default }
}

#[test]
fn defaults_are_filled_in() {
    let mut prog = vec![
        function("f", vec![param("a", None), param("b", Some(Expr::Int(7)))], vec![]),
        Item::Stmt(Stmt::ExprStmt(call("f", vec![Expr::Int(1)]))),
    ];
    assert!(expand_program(&mut prog).is_ok());
    match &prog[1] {
        Item::Stmt(Stmt::ExprStmt(Expr::Call { args, .. })) => {
            assert!(matches!(args[..], [Expr::Int(1), Expr::Int(7)]));
        }
        _ => panic!("not a call"),
    }
}

#[test]
fn map_and_filter_become_comprehensions() {
    let f = Expr::Lambda { params: vec!["x".to_string()], body: vec![Stmt::Return(Some(id("x")))] };
    let mut prog = vec![Item::Stmt(Stmt::ExprStmt(Expr::Method {
        obj: Box::new(id("xs")),
        name: "map".to_string(),
        args: vec![f],
    }))];
    desugar_program(&mut prog);
    assert!(matches!(&prog[0], Item::Stmt(Stmt::ExprStmt(Expr::ListComp { cond: None, .. }))));
}

#[test]
fn lambdas_become_functions() {
    let f = Expr::Lambda { params: vec!["x".to_string()], body: vec![Stmt::Return(Some(id("x")))] };
    let mut prog = vec![function(
        "main",
        vec![],
        vec![Stmt::Let { name: "f".to_string(), mutable: false, ty: Type::Unknown, value: f }],
    )];
    lift_program(&mut prog);
    assert_eq!(prog.len(), 2);
    let fns: Vec<&FnDef> = prog
        .iter()
        .filter_map(|i| match i {
            Item::Fn(f) => Some(f),
            _ => None,
        })
        .collect();
    let main = fns.iter().find(|f| f.name == "main").unwrap();
    assert!(matches!(&main.body[0], Stmt::Let { value: Expr::Ident(n), .. } if fns.iter().any(|f| f.name == *n)));
}

#[test]
fn lambdas_in_defaults_are_lifted() {
    let f = || Expr::Lambda { params: vec!["x".to_string()], body: vec![Stmt::Return(Some(id("x")))] };
    let mut prog = vec![function("g", vec![param("h", Some(f()))], vec![Stmt::ExprStmt(f())])];
    lift_program(&mut prog);
    assert_eq!(prog.len(), 3);
    assert!(!format!("{prog:?}").contains("Lambda {"));
    match &prog[..] {
        [Item::Fn(g), Item::Fn(a), Item::Fn(b)] => {
            assert!(matches!(&g.params[0].default, Some(Expr::Ident(n)) if *n == a.name));
            assert_eq!((a.name.as_str(), b.name.as_str()), ("__lambda_0", "__lambda_1"));
        }
        _ => panic!("not three functions"),
    }
}

#[test]
fn lambdas_are_lifted_everywhere() {
    let f = || Expr::Lambda { params: vec!["x".to_string()], body: vec![Stmt::Return(Some(id("x")))] };
    let choice = Expr::IfElse { cond: Box::new(id("c")), then: Box::new(f()), els: Box::new(f()) };
    let part = Expr::Slice { obj: Box::new(Expr::List(vec![f()])), lo: None, hi: Some(Box::new(Expr::Int(1))) };
    let mut prog = vec![Item::Stmt(Stmt::ExprStmt(choice)), Item::Stmt(Stmt::ExprStmt(part))];
    lift_program(&mut prog);
    assert_eq!(prog.len(), 5);
    assert!(!format!("{prog:?}").contains("Lambda {"));
}

#[test]
fn shared_variables_live_in_cells() {
    let assign = |n: &str, v: Expr| Stmt::Assign { target: id(n), value: v };
    let bump = |n: &str| Expr::Lambda { params: vec![], body: vec![assign(n, Expr::Int(1))] };
    let lifted = |params: Vec<Param>, body: Vec<Stmt>| {
        let mut prog = vec![function("f", params, body)];
        lift_program(&mut prog);
        match prog.swap_remove(0) {
            Item::Fn(f) => f.body,
            _ => panic!("no function"),
        }
    };
    // A parameter.
    let b = lifted(vec![param("n", None)], vec![Stmt::ExprStmt(bump("n"))]);
    assert!(matches!(&b[0], Stmt::Let { name, value: Expr::List(v), .. }
        if name == "n" && matches!(&v[..], [Expr::Ident(m)] if m == "n")));
    // The variable of a loop.
    let b = lifted(
        vec![],
        vec![Stmt::For { var: "i".to_string(), iter: id("xs"), body: vec![Stmt::ExprStmt(bump("i"))] }],
    );
    assert!(matches!(&b[0], Stmt::For { var, body, .. } if var == "#ci"
        && matches!(&body[0], Stmt::Let { name, .. } if name == "i")));
    // A variable that a lambda in a comprehension assigns.
    let comp = Expr::ListComp { elem: Box::new(bump("n")), var: "x".to_string(), iter: Box::new(id("xs")), cond: None };
    let first = Stmt::Let { name: "n".to_string(), mutable: true, ty: Type::Unknown, value: Expr::Int(0) };
    let b = lifted(vec![], vec![first, Stmt::ExprStmt(comp)]);
    assert!(matches!(&b[0], Stmt::Let { value: Expr::List(_), .. }));
}

#[test]
fn passes_go_everywhere() {
    let mapped = Expr::Method { obj: Box::new(id("ys")), name: "map".to_string(), args: vec![id("g")] };
    let inside = Expr::Lambda { params: vec!["ys".to_string()], body: vec![Stmt::Return(Some(mapped))] };
    let mut prog = vec![Item::Stmt(Stmt::ExprStmt(inside))];
    desugar_program(&mut prog);
    assert!(!format!("{prog:?}").contains("Method"));
    let mut aliases = NameSet::new();
    aliases.insert("m");
    let q = || Expr::Field { obj: Box::new(id("m")), name: "foo".to_string() };
    let choice = Expr::IfElse { cond: Box::new(q()), then: Box::new(q()), els: Box::new(q()) };
    let part = Expr::Slice { obj: Box::new(q()), lo: Some(Box::new(q())), hi: None };
    let comp = Expr::ListComp { elem: Box::new(q()), var: "x".to_string(), iter: Box::new(q()), cond: Some(Box::new(q())) };
    let mut prog: Vec<Item> = vec![choice, part, comp].into_iter().map(|e| Item::Stmt(Stmt::ExprStmt(e))).collect();
    rewrite_program(&aliases, &mut prog);
    assert!(!format!("{prog:?}").contains("Field"));
    let mut prog = vec![
        function("f", vec![param("x", Some(call("g", vec![])))], vec![]),
        function("g", vec![param("a", Some(Expr::Int(1)))], vec![]),
        Item::Stmt(Stmt::ExprStmt(call("f", vec![]))),
    ];
    assert!(expand_program(&mut prog).is_ok());
    match &prog[2] {
        Item::Stmt(Stmt::ExprStmt(Expr::Call { args, .. })) => {
            assert!(matches!(&args[0], Expr::Call { args, .. } if matches!(args[..], [Expr::Int(1)])));
        }
        _ => panic!("not a call"),
    }
}

#[test]
fn captured_values_make_closures() {
    let f = Expr::Lambda { params: vec!["x".to_string()], body: vec![Stmt::Return(Some(id("k")))] };
    let mut prog = vec![function(
        "main",
        vec![param("k", None)],
        vec![Stmt::Let { name: "f".to_string(), mutable: false, ty: Type::Unknown, value: f }],
    )];
    lift_program(&mut prog);
    let closures = prog
        .iter()
        .filter(|i| match i {
            Item::Fn(f) => matches!(f.body.first(), Some(Stmt::Let { value: Expr::Closure { captures, .. }, .. }) if captures.len() == 1),
            _ => false,
        })
        .count();
    assert_eq!(closures, 1);
}

#[test]
fn qualified_names_are_resolved() {
    let mut aliases = NameSet::new();
    aliases.insert("m");
    let mut prog = vec![
        Item::Stmt(Stmt::ExprStmt(Expr::Method { obj: Box::new(id("m")), name: "f".to_string(), args: vec![] })),
        Item::Stmt(Stmt::ExprStmt(Expr::Method { obj: Box::new(id("o")), name: "f".to_string(), args: vec![] })),
    ];
    rewrite_program(&aliases, &mut prog);
    assert!(matches!(&prog[0], Item::Stmt(Stmt::ExprStmt(Expr::Call { .. }))));
    assert!(matches!(&prog[1], Item::Stmt(Stmt::ExprStmt(Expr::Method { .. }))));
}

#[test]
fn imports_by_name() {
    let d = ImportDef { module: "pkg.sub".to_string(), alias: None, names: Vec::new(), level: 0 };
    assert!(from_file(&d));
    assert_eq!(segments("pkg..sub"), ["pkg", "sub"]);
    assert_eq!(access_name(&d), "sub");
    let m = ImportDef { module: "math".to_string(), alias: Some("q".to_string()), names: Vec::new(), level: 0 };
    assert!(!from_file(&m));
    assert_eq!(access_name(&m), "q");
    let rel = ImportDef { module: "math".to_string(), alias: None, names: Vec::new(), level: 1 };
    assert!(from_file(&rel));
}

fn path(s: &str) -> Vec<String> {
    s.split('/').map(str::to_string).collect()
}

#[test]
fn places_of_modules() {
    let (p, n) = mod_places(&path("a/b"), &path("r"), Some("v"), "x.y", 0);
    assert_eq!(n, "y");
    let want = ["a/b/x/y.lm", "r/x/y.lm", "v/lumen_modules/x/y.lm", "lumen_modules/x/y.lm"];
    assert_eq!(p, want.map(path).to_vec());
    assert_eq!(mod_places(&path("a/b"), &path("r"), Some(""), "x", 0).0.len(), 3);
    assert_eq!(mod_places(&path("a/b"), &path("r"), None, "x", 1).0, [path("a/b/x.lm")]);
    assert_eq!(mod_places(&path("a/b"), &path("r"), None, "x", 2).0, [path("a/x.lm")]);
    assert_eq!(mod_places(&path("a/b"), &path("r"), None, "x", 9).0, [path("x.lm")]);
    assert_eq!(take_place(&vec![false, true, true]), 1);
    assert_eq!(take_place(&vec![false, false]), 0);
    assert_eq!(
        read_error("m", "p/m.lm", "gone").message(),
        "import error: cannot read module 'm' (p/m.lm): gone"
    );
}

#[test]
fn modules_are_read_once_and_before_their_users() {
    let import = |m: &str| {
        Item::Import(ImportDef { module: m.to_string(), alias: None, names: Vec::new(), level: 0 })
    };
    let fun = |n: &str| function(n, vec![], vec![]);
    let mut r = Resolver::new(vec![import("a"), import("math"), import("b")], path("d"), path("d"), None);
    let mut read = Vec::new();
    while let Some((module, places)) = r.want() {
        assert_eq!(places[0], path(&format!("d/{module}.lm")));
        if let Some(p) = r.answer(0) {
            read.push(module.clone());
            // `a` imports `b`, and `b` imports `a` again.
            let items = match module.as_str() {
                "a" => vec![import("b"), fun("fa"), Item::Stmt(Stmt::Break)],
                _ => vec![import("a"), fun("fb")],
            };
            r.enter(p, items);
        }
    }
    assert_eq!(read, ["a", "b"]);
    let (prog, imported, aliases) = r.finish();
    assert_eq!(prog.len(), 3);
    assert!(matches!(&imported[..], [Item::Fn(x), Item::Fn(y)] if x.name == "fb" && y.name == "fa"));
    assert!(aliases.contains("a") && aliases.contains("b") && !aliases.contains("math"));
}

#[test]
fn locals_that_do_not_escape() {
    let list = || Expr::List(vec![Expr::Int(1)]);
    let let_ = |n: &str, v: Expr| Stmt::Let { name: n.to_string(), mutable: false, ty: Type::Unknown, value: v };
    let prog = vec![function(
        "f",
        vec![],
        vec![let_("a", list()), let_("b", list()), Stmt::ExprStmt(call("len", vec![id("a")])), Stmt::Return(Some(id("b")))],
    )];
    let set = analyze(&prog);
    assert!(!set.contains("f", "b"));
}

#[test]
fn arena_is_for_what_stays() {
    let fresh = || call("P", vec![Expr::Int(1)]);
    let let_ = |n: &str, v: Expr| Stmt::Let { name: n.to_string(), mutable: false, ty: Type::Unknown, value: v };
    let inside = |s: Stmt| Stmt::While { cond: Expr::Bool(true), body: vec![s] };
    let last = |s: Stmt| {
        let point = StructDef { name: "P".to_string(), fields: vec![], methods: vec![] };
        let set = analyze(&vec![Item::Struct(point), function("f", vec![], vec![let_("a", fresh()), s])]);
        set.contains("f", "a")
    };
    assert!(last(inside(Stmt::Break)));
    assert!(!last(inside(Stmt::Return(Some(id("a"))))));
    assert!(!last(inside(Stmt::Raise(id("a")))));
    assert!(!last(inside(let_("b", id("a")))));
    assert!(!last(inside(Stmt::ExprStmt(call("keep", vec![id("a")])))));
    assert!(!last(inside(Stmt::ExprStmt(Expr::List(vec![id("a")])))));
    assert!(!last(let_("a", fresh())));
    let named = Expr::NamedCall { callee: Box::new(id("P")), args: vec![("v".to_string(), id("a"))] };
    assert!(!last(Stmt::Return(Some(Expr::List(vec![named])))));
    assert!(!last(Stmt::For { var: "a".to_string(), iter: id("xs"), body: vec![] }));
    let over = |var: &str| Expr::ListComp {
        elem: Box::new(Expr::Int(0)),
        var: var.to_string(),
        iter: Box::new(Expr::List(vec![])),
        cond: None,
    };
    assert!(last(inside(let_("b", over("c")))));
    assert!(!last(inside(let_("b", over("a")))));
    assert!(!last(Stmt::Try { body: vec![], catch_var: "a".to_string(), catch_body: vec![] }));
    let slot = Expr::Index { obj: Box::new(id("xs")), index: Box::new(Expr::Int(0)) };
    assert!(!last(inside(Stmt::Assign { target: slot, value: id("a") })));
}

#[test]
fn comprehension_variables() {
    let mapped = |obj: Expr| Expr::Method { obj: Box::new(obj), name: "map".to_string(), args: vec![id("f")] };
    let mut prog = vec![Item::Stmt(Stmt::ExprStmt(mapped(mapped(id("xs")))))];
    desugar_program(&mut prog);
    match &prog[0] {
        Item::Stmt(Stmt::ExprStmt(Expr::ListComp { var, iter, .. })) => {
            assert_eq!(var, "#mf2");
            assert!(matches!(&**iter, Expr::ListComp { var, .. } if var == "#mf1"));
        }
        _ => panic!("not a comprehension"),
    }
    assert!(Lexer::new("#mf1").tokenize().unwrap().iter().all(|t| !matches!(t.tok, Tok::Ident(_))));
}

#[test]
fn compile_joins_the_passes() {
    let f = || function("f", vec![param("a", None), param("b", Some(Expr::Int(7)))], vec![]);
    let mut aliases = NameSet::new();
    aliases.insert("m");
    let use_f = Expr::Method { obj: Box::new(id("m")), name: "f".to_string(), args: vec![Expr::Int(1)] };
    let prog = compile(vec![Item::Stmt(Stmt::ExprStmt(use_f))], vec![f()], &aliases).unwrap();
    assert_eq!(prog.len(), 2);
    match &prog[1] {
        Item::Stmt(Stmt::ExprStmt(Expr::Call { args, .. })) => {
            assert!(matches!(args[..], [Expr::Int(1), Expr::Int(7)]));
        }
        _ => panic!("not a call"),
    }
    let gap = function("g", vec![param("a", Some(Expr::Int(7))), param("b", None)], vec![]);
    assert_eq!(
        compile(vec![gap], vec![], &aliases).err().map(|e| e.message()),
        Some("parse error: fn g: a parameter without a default cannot follow one with a default".to_string())
    );
}

#[test]
fn compile_error_messages() {
    assert_eq!(CompileError::Lex("m".to_string()).message(), "lex error: m");
    assert_eq!(CompileError::Parse("m".to_string()).message(), "parse error: m");
    assert_eq!(CompileError::Import("m".to_string()).message(), "import error: m");
}

// ---- sockets and downloads ----

#[test]
fn socket_parts() {
    assert_eq!(htons(0x1234), 0x3412);
    assert_eq!(ntohs(htons(8080)), 8080);
    assert_eq!(ip_string(0x0100_007f), "127.0.0.1");
    let a = sock_addr(80, 7);
    assert_eq!((a.family, a.port, a.addr, a.zero), (2, 80u16.to_be(), 7, [0; 8]));
    assert_eq!(set_opt("nodelay"), Some((6, 1)));
    assert_eq!(set_opt("rcvbuf"), Some((0xffff, 0x1002)));
    assert_eq!(set_opt("nope"), None);
    let t = poll_time(1500).unwrap();
    assert_eq!((t.sec, t.usec), (1, 500_000));
    assert!(poll_time(-1).is_none());
    let long = poll_time(i64::MAX).unwrap();
    assert_eq!((long.sec, long.usec), ((i64::MAX / 1000) as i32, 807_000));
    let s = one_socket(5);
    let o = one_socket(6);
    assert_eq!(poll_mask(&s, &s, 5), 3);
    assert_eq!(poll_mask(&s, &o, 5), 1);
    assert_eq!(poll_mask(&o, &s, 5), 2);
    assert_eq!(poll_mask(&o, &o, 5), 0);
}

#[test]
fn downloads() {
    assert_eq!(fetch("u", 200, vec![1]), Ok(vec![1]));
    assert_eq!(fetch("u", 0, vec![]), Err("could not reach u".to_string()));
    assert_eq!(fetch("u", 404, vec![]), Err("u returned HTTP 404".to_string()));
    assert_eq!(fetch("u", 300, vec![]), Err("u returned HTTP 300".to_string()));
}

// ---- tools and the command line ----

#[test]
fn output_of_a_build_with_llvm() {
    let out = |rest: &[&str]| {
        let mut args = vec!["lumen".to_string(), "build".to_string(), "p.lm".to_string()];
        args.extend(rest.iter().map(|s| s.to_string()));
        llvm_out(&args, "p.exe".to_string())
    };
    assert_eq!(out(&[]), "p.exe");
    assert_eq!(out(&["-o", "q.exe"]), "q.exe");
    assert_eq!(out(&["-o", "a.exe"]), "p.exe");
    assert_eq!(out(&["--icon", "-o", "x", "-o"]), "x");
}

#[test]
fn hint_nonempty() {
    assert!(!install_hint(true).is_empty());
    assert!(!install_hint(false).is_empty());
}

#[test]
fn places_of_tools() {
    let path = vec!["/bin".to_string()];
    let p = find("clang", Some(" /x/clang "), &path, Some("/h"), ".exe");
    assert_eq!(p.len(), 11);
    assert_eq!((p[0].dir.as_deref(), p[0].file.as_str(), p[0].source), (None, "/x/clang", "override env"));
    assert_eq!((p[1].dir.as_deref(), p[1].file.as_str(), p[1].source), (Some("/bin"), "clang.exe", "PATH"));
    assert_eq!(p[2].source, "auto-detected");
    assert_eq!(bins(None).len(), 6);
    assert_eq!(bins(Some("/h"))[8], "/h/scoop/shims");
    assert_eq!(find_clang(None, None, &path, None, "").len(), 7);
    let c = find_clang(None, Some("/y/clang"), &path, None, "");
    assert_eq!((c.len(), c[0].file.as_str(), c[0].source), (8, "/y/clang", "override env"));
    let l = find_lld(None, &path, None, "");
    assert_eq!((l[0].file.as_str(), l[7].file.as_str()), ("ld.lld", "lld"));
}

fn strings(v: &[&str]) -> Vec<String> {
    v.iter().map(|s| s.to_string()).collect()
}

#[test]
fn backends() {
    assert_eq!(backend_choice(&strings(&["--backend=LLVM"]), None), Some("llvm".to_string()));
    assert_eq!(backend_choice(&strings(&["x", "--backend", "ASM"]), None), Some("asm".to_string()));
    assert_eq!(backend_choice(&strings(&["--backend"]), Some("Gcc")), Some("gcc".to_string()));
    assert_eq!(backend_choice(&strings(&[]), None), None);
    assert!(use_llvm(Some("llvm"), false));
    assert!(!use_llvm(Some("gcc"), true));
    assert!(use_llvm(None, true) && !use_llvm(Some("x"), false));
}

#[test]
fn build_arguments() {
    let a = strings(&["lumen", "build", "f.lm", "-o", "x.exe", "--icon", "i.png", "--native", "--backend", "llvm", "--backend=asm", "-z", "-o"]);
    let b = build_args(&a, "f.exe".to_string());
    assert_eq!((b.out.as_str(), b.icon.as_deref(), b.native), ("x.exe", Some("i.png"), true));
    assert_eq!(b.unknown, ["-z", "-o"]);
    assert_eq!(cut_endings("a.exe.exe", ".exe"), "a");
    assert_eq!(words("  -O3   -flto\n"), ["-O3", "-flto"]);
}

#[test]
fn libraries_once() {
    let block = |l: &str| Item::ExternBlock(ExternBlock { abi: "C".to_string(), lib: l.to_string(), fns: vec![] });
    let prog = vec![block("user32.dll"), block("libc.so"), block("user32"), block(".dll")];
    assert_eq!(collect_extlibs(&prog), ["user32", "libc"]);
}

#[test]
fn error_reports() {
    assert_eq!(extract_line_no("bad (line 12)"), Some(12));
    assert_eq!(extract_line_no("bad"), None);
    assert_eq!(extract_line_no("line x"), None);
    assert_eq!(
        report("compile", "bad thing (line 2)", "one\n  two\n"),
        ["compile error: bad thing", "     2 |   two", "       |   ^"]
    );
    assert_eq!(report("", "bad (line 9)", "one\n"), ["error: bad", "  (at line 9)"]);
    assert_eq!(report("lex", "bad", ""), ["lex error: bad"]);
}

#[test]
fn declaration_lines() {
    let d = DeclSpan { name: "x".to_string(), kind: DeclKind::Field, line: 3, col: 5, end_col: 6, parent: Some("P".to_string()) };
    assert_eq!(decl_line(&d), "field\tx\t3\t5\t6\tP");
    let f = DeclSpan { name: "f".to_string(), kind: DeclKind::Fn, line: 1, col: 4, end_col: 5, parent: None };
    assert_eq!(decl_line(&f), "fn\tf\t1\t4\t5\t");
}

#[test]
fn icons() {
    let mut png: Vec<u8> = vec![0x89, b'P', b'N', b'G', 0x0d, 0x0a, 0x1a, 0x0a, 0, 0, 0, 13, b'I', b'H', b'D', b'R'];
    png.extend([0, 0, 0, 64, 0, 0, 1, 0, 9]);
    let ico = png2ico(&png).unwrap();
    assert_eq!(ico[..22], [0, 0, 1, 0, 1, 0, 64, 0, 0, 0, 1, 0, 32, 0, 25, 0, 0, 0, 22, 0, 0, 0]);
    assert_eq!(ico[22..], png[..]);
    png[0] = 0;
    assert!(png2ico(&png).is_none());
    assert!(png2ico(&vec![]).is_none());
}
