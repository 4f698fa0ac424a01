//! What the command line decides: the back end, the names of files, the arguments of
//! the linker, and how an error is shown.

use crate::ast::{prog_view, DeclKind, DeclSpan, Item, ItemView};
use crate::strings::{
    all_digits, digits_value, ends_with_spec, first_at, is_digit, lower, lower_text, texts_push,
};
use crate::text::{
    concat, dec_nat, found_at, from_range, is_white, is_white_spec, lines, lines_spec, push_char,
    push_u64, skip_white, stands_at, starts_with, starts_with_spec, str_eq, texts_view, to_chars,
    trim_end, trim_end_spec, trim_start_spec,
};
use crate::llvm::opt_text;
use vstd::prelude::*;
use vstd::string::{StringExecFns, StringSliceAdditionalSpecFns};

verus! {

/// The back end that the arguments from `i` on, or else the environment, name.
pub open spec fn named_backend(args: Seq<Seq<char>>, env: Option<Seq<char>>, i: int) -> Option<
    Seq<char>,
>
    decreases args.len() - i,
{
    if i < 0 || i >= args.len() {
        match env {
            Some(v) => Some(lower_text(v)),
            None => None,
        }
    } else if starts_with_spec(args[i], "--backend="@) {
        Some(lower_text(args[i].skip(10)))
    } else if args[i] == "--backend"@ && i + 1 < args.len() {
        Some(lower_text(args[i + 1]))
    } else {
        named_backend(args, env, i + 1)
    }
}

fn drop_front(s: &str, n: usize) -> (r: String)
    requires
        n <= s@.len(),
    ensures
        r@ == s@.skip(n as int),
{
    let v = to_chars(s);
    let r = from_range(&v, n, v.len());
    assert(r@ =~= s@.skip(n as int));
    r
}

/// The back end that the user names, in lower case.
pub fn backend_choice(args: &Vec<String>, env: Option<&str>) -> (r: Option<String>)
    ensures
        match r {
            Some(s) => named_backend(texts_view(args@), opt_text(env), 0) == Some(s@),
            None => named_backend(texts_view(args@), opt_text(env), 0) is None,
        },
{
    let ghost av = texts_view(args@);
    let n: usize = args.len();
    for i in 0..n
        invariant
            n == args@.len(),
            av == texts_view(args@),
            named_backend(av, opt_text(env), 0) == named_backend(av, opt_text(env), i as int),
    {
        assert(av[i as int] == args@[i as int]@);
        if starts_with(args[i].as_str(), "--backend=") {
            proof {
                reveal_strlit("--backend=");
            }
            let rest = drop_front(args[i].as_str(), 10);
            return Some(lower(rest.as_str()));
        }
        if str_eq(args[i].as_str(), "--backend") && n - i > 1 {
            assert(av[i + 1] == args@[i + 1]@);
            return Some(lower(args[i + 1].as_str()));
        }
    }
    match env {
        Some(v) => Some(lower(v)),
        None => None,
    }
}

/// Whether the LLVM back end is used: as the user says, or else where its tools are.
pub open spec fn llvm_chosen(pick: Option<Seq<char>>, found: bool) -> bool {
    match pick {
        Some(p) => if p == "llvm"@ {
            true
        } else if p == "asm"@ || p == "gcc"@ {
            false
        } else {
            found
        },
        None => found,
    }
}

pub fn use_llvm(pick: Option<&str>, found: bool) -> (r: bool)
    ensures
        r == llvm_chosen(opt_text(pick), found),
{
    match pick {
        Some(p) => if str_eq(p, "llvm") {
            true
        } else if str_eq(p, "asm") || str_eq(p, "gcc") {
            false
        } else {
            found
        },
        None => found,
    }
}

/// What the arguments of a build say.
#[derive(Debug)]
pub struct BuildArgs {
    pub out: String,
    pub icon: Option<String>,
    pub native: bool,
    /// Arguments that say nothing.
    pub unknown: Vec<String>,
}

pub struct BuildView {
    pub out: Seq<char>,
    pub icon: Option<Seq<char>>,
    pub native: bool,
    pub unknown: Seq<Seq<char>>,
}

impl View for BuildArgs {
    type V = BuildView;

    open spec fn view(&self) -> BuildView {
        BuildView {
            out: self.out@,
            icon: match self.icon {
                Some(s) => Some(s@),
                None => None,
            },
            native: self.native,
            unknown: texts_view(self.unknown@),
        }
    }
}

/// What the arguments from `i` on change.
pub open spec fn build_from(args: Seq<Seq<char>>, i: int, b: BuildView) -> BuildView
    decreases args.len() + 2 - i,
{
    if i < 0 || i >= args.len() {
        b
    } else if args[i] == "-o"@ && i + 1 < args.len() {
        build_from(args, i + 2, BuildView { out: args[i + 1], ..b })
    } else if args[i] == "--icon"@ && i + 1 < args.len() {
        build_from(args, i + 2, BuildView { icon: Some(args[i + 1]), ..b })
    } else if args[i] == "--native"@ {
        build_from(args, i + 1, BuildView { native: true, ..b })
    } else if args[i] == "--backend"@ {
        build_from(args, i + 2, b)
    } else if starts_with_spec(args[i], "--backend="@) {
        build_from(args, i + 1, b)
    } else {
        build_from(args, i + 1, BuildView { unknown: b.unknown.push(args[i]), ..b })
    }
}

/// Reads the arguments of a build, which follow the name of the file.
pub fn build_args(args: &Vec<String>, out: String) -> (r: BuildArgs)
    ensures
        r@ == build_from(
            texts_view(args@),
            3,
            (BuildView { out: out@, icon: None, native: false, unknown: Seq::empty() }),
        ),
{
    let ghost av = texts_view(args@);
    let ghost b0 = BuildView { out: out@, icon: None, native: false, unknown: Seq::empty() };
    let mut b = BuildArgs { out, icon: None, native: false, unknown: Vec::new() };
    assert(b@.unknown =~= Seq::empty());
    let n: usize = args.len();
    let mut i: usize = 3;
    while i < n
        invariant
            n == args@.len(),
            av == texts_view(args@),
            build_from(av, 3, b0) == build_from(av, i as int, b@),
        decreases n + 2 - i,
    {
        assert(av[i as int] == args@[i as int]@);
        if str_eq(args[i].as_str(), "-o") && n - i > 1 {
            assert(av[i + 1] == args@[i + 1]@);
            b.out = args[i + 1].clone();
            i = i + 1;
        } else if str_eq(args[i].as_str(), "--icon") && n - i > 1 {
            assert(av[i + 1] == args@[i + 1]@);
            b.icon = Some(args[i + 1].clone());
            i = i + 1;
        } else if str_eq(args[i].as_str(), "--native") {
            b.native = true;
        } else if str_eq(args[i].as_str(), "--backend") {
            if n - i > 1 {
                i = i + 1;
            } else {
                assert(build_from(av, i + 2, b@) == b@);
                assert(build_from(av, i + 1, b@) == b@);
            }
        } else if starts_with(args[i].as_str(), "--backend=") {
        } else {
            let x = args[i].clone();
            proof {
                texts_push(b.unknown@, x);
            }
            b.unknown.push(x);
        }
        i = i + 1;
    }
    b
}

/// The file that the arguments from `i` on name with `-o`.
pub open spec fn out_from(args: Seq<Seq<char>>, i: int, out: Seq<char>) -> Seq<char>
    decreases args.len() + 2 - i,
{
    if i < 0 || i >= args.len() {
        out
    } else if args[i] == "-o"@ && i + 1 < args.len() {
        out_from(args, i + 2, args[i + 1])
    } else {
        out_from(args, i + 1, out)
    }
}

/// The file that a build with LLVM writes. It reads no other option than `-o`, and takes
/// `a.exe` for no name at all.
pub fn llvm_out(args: &Vec<String>, unnamed: String) -> (r: String)
    ensures
        ({
            let out = out_from(texts_view(args@), 3, "a.exe"@);
            r@ == if out == "a.exe"@ {
                unnamed@
            } else {
                out
            }
        }),
{
    let ghost av = texts_view(args@);
    let mut out = "a.exe".to_owned();
    let n: usize = args.len();
    let mut i: usize = 3;
    while i < n
        invariant
            n == args@.len(),
            av == texts_view(args@),
            out_from(av, 3, "a.exe"@) == out_from(av, i as int, out@),
        decreases n + 2 - i,
    {
        assert(av[i as int] == args@[i as int]@);
        if str_eq(args[i].as_str(), "-o") && n - i > 1 {
            assert(av[i + 1] == args@[i + 1]@);
            out = args[i + 1].clone();
            i = i + 1;
        }
        i = i + 1;
    }
    if str_eq(out.as_str(), "a.exe") {
        unnamed
    } else {
        out
    }
}

/// A text without the endings `suffix`.
pub open spec fn without_ending(s: Seq<char>, suffix: Seq<char>) -> Seq<char>
    decreases s.len(),
{
    if suffix.len() > 0 && ends_with_spec(s, suffix) {
        without_ending(s.take(s.len() - suffix.len()), suffix)
    } else {
        s
    }
}

pub fn cut_endings(s: &str, suffix: &str) -> (r: String)
    ensures
        r@ == without_ending(s@, suffix@),
{
    let v = to_chars(s);
    let w = to_chars(suffix);
    let k: usize = w.len();
    let mut n: usize = v.len();
    assert(v@.take(n as int) =~= v@);
    if k > 0 {
        while k <= n && found_at(&v, &w, n - k)
            invariant
                0 < k == w@.len(),
                w@ == suffix@,
                v@ == s@,
                n <= v@.len(),
                without_ending(s@, suffix@) == without_ending(v@.take(n as int), suffix@),
            decreases n,
        {
            let ghost t = v@.take(n as int);
            assert(t.subrange(n - k, n as int) =~= v@.subrange(n - k, n as int));
            assert(ends_with_spec(t, suffix@));
            assert(t.take(n - k) =~= v@.take(n - k));
            n = n - k;
        }
        proof {
            let t = v@.take(n as int);
            if ends_with_spec(t, suffix@) {
                assert(t.subrange(n - k, n as int) =~= v@.subrange(n - k, n as int));
            }
        }
    }
    let r = from_range(&v, 0, n);
    assert(r@ =~= v@.take(n as int));
    r
}

/// The libraries that a program takes functions from, each once, without the endings of
/// their files.
pub open spec fn ext_libs(items: Seq<ItemView>) -> Seq<Seq<char>>
    decreases items.len(),
{
    if items.len() == 0 {
        Seq::empty()
    } else {
        let init = ext_libs(items.drop_last());
        match items.last() {
            ItemView::ExternBlock(b) => {
                let base = without_ending(without_ending(b.lib, ".dll"@), ".so"@);
                if base.len() == 0 || init.contains(base) {
                    init
                } else {
                    init.push(base)
                }
            },
            _ => init,
        }
    }
}

fn has_name(v: &Vec<String>, x: &str) -> (r: bool)
    ensures
        r == texts_view(v@).contains(x@),
{
    let ghost tv = texts_view(v@);
    for i in 0..v.len()
        invariant
            tv == texts_view(v@),
            forall|j: int| 0 <= j < i ==> #[trigger] tv[j] != x@,
    {
        assert(tv[i as int] == v@[i as int]@);
        if str_eq(v[i].as_str(), x) {
            return true;
        }
    }
    false
}

pub fn collect_extlibs(prog: &Vec<Item>) -> (r: Vec<String>)
    ensures
        texts_view(r@) == ext_libs(prog_view(prog@)),
{
    let ghost pv = prog_view(prog@);
    let mut libs: Vec<String> = Vec::new();
    assert(pv.take(0) =~= Seq::empty());
    assert(texts_view(libs@) =~= Seq::empty());
    for i in 0..prog.len()
        invariant
            pv == prog_view(prog@),
            texts_view(libs@) == ext_libs(pv.take(i as int)),
    {
        assert(pv.take(i + 1).drop_last() =~= pv.take(i as int));
        assert(pv.take(i + 1).last() == prog@[i as int]@);
        if let Item::ExternBlock(b) = &prog[i] {
            let once = cut_endings(b.lib.as_str(), ".dll");
            let base = cut_endings(once.as_str(), ".so");
            if base.as_str().unicode_len() > 0 && !has_name(&libs, base.as_str()) {
                proof {
                    texts_push(libs@, base);
                }
                libs.push(base);
            }
        }
    }
    assert(pv.take(prog@.len() as int) =~= pv);
    libs
}

/// Each library is named once.
pub proof fn libs_distinct(items: Seq<ItemView>)
    ensures
        ext_libs(items).no_duplicates(),
    decreases items.len(),
{
    if items.len() > 0 {
        libs_distinct(items.drop_last());
    }
}

/// The words of a text: `part` is what was read of the first.
pub open spec fn words_from(s: Seq<char>, part: Seq<char>) -> Seq<Seq<char>>
    decreases s.len(),
{
    let first = if part.len() > 0 {
        seq![part]
    } else {
        Seq::empty()
    };
    if s.len() == 0 {
        first
    } else if is_white_spec(s[0]) {
        first + words_from(s.drop_first(), Seq::empty())
    } else {
        words_from(s.drop_first(), part.push(s[0]))
    }
}

pub fn words(s: &str) -> (r: Vec<String>)
    ensures
        texts_view(r@) == words_from(s@, Seq::empty()),
{
    let v = to_chars(s);
    let ghost all = words_from(s@, Seq::empty());
    let mut r: Vec<String> = Vec::new();
    let mut part = String::new();
    let mut filled = false;
    assert(part@ =~= Seq::empty());
    assert(v@.skip(0) =~= v@);
    assert(texts_view(r@) + all =~= all);
    for i in 0..v.len()
        invariant
            v@ == s@,
            all == words_from(s@, Seq::empty()),
            filled == (part@.len() > 0),
            texts_view(r@) + words_from(v@.skip(i as int), part@) == all,
    {
        let ghost here = v@.skip(i as int);
        assert(here[0] == v@[i as int]);
        assert(here.drop_first() =~= v@.skip(i + 1));
        let ghost r0 = texts_view(r@);
        let c: char = v[i];
        if is_white(c) {
            if filled {
                let mut w = String::new();
                std::mem::swap(&mut w, &mut part);
                proof {
                    texts_push(r@, w);
                }
                r.push(w);
                filled = false;
                assert(part@ =~= Seq::empty());
                assert(r0 + (seq![w@] + words_from(v@.skip(i + 1), Seq::empty())) =~= r0.push(w@)
                    + words_from(v@.skip(i + 1), Seq::empty()));
            } else {
                assert(part@ =~= Seq::empty());
                assert(Seq::<Seq<char>>::empty() + words_from(v@.skip(i + 1), Seq::empty())
                    =~= words_from(v@.skip(i + 1), Seq::empty()));
            }
        } else {
            push_char(&mut part, c);
            filled = true;
        }
    }
    assert(v@.skip(v@.len() as int) =~= Seq::empty());
    if filled {
        proof {
            texts_push(r@, part);
        }
        r.push(part);
        assert(texts_view(r@) =~= all);
    } else {
        assert(texts_view(r@) =~= all);
    }
    r
}

/// The bytes of a PNG picture at its start, and of its header.
pub open spec fn is_png(b: Seq<u8>) -> bool {
    b.len() >= 24 && b.subrange(0, 8) == seq![0x89u8, 0x50, 0x4e, 0x47, 0x0d, 0x0a, 0x1a, 0x0a]
        && b.subrange(12, 16) == seq![0x49u8, 0x48, 0x44, 0x52]
}

/// A number from four bytes, the highest first.
pub open spec fn big_end(b: Seq<u8>, i: int) -> int {
    b[i] as int * 0x100_0000 + b[i + 1] as int * 0x1_0000 + b[i + 2] as int * 0x100
        + b[i + 3] as int
}

/// A size in one byte: 0 from 256 on.
pub open spec fn icon_size(n: int) -> u8 {
    if n >= 256 {
        0
    } else {
        n as u8
    }
}

/// The header of an icon with one picture of `n` bytes.
pub open spec fn icon_head(w: u8, h: u8, n: int) -> Seq<u8> {
    seq![0u8, 0, 1, 0, 1, 0, w, h, 0, 0, 1, 0, 32, 0] + crate::cbuf::low_bytes(n as nat, 4)
        + seq![22u8, 0, 0, 0]
}

/// An icon that holds a PNG picture, if the bytes are one.
pub open spec fn icon_of(b: Seq<u8>) -> Option<Seq<u8>> {
    if is_png(b) {
        Some(icon_head(icon_size(big_end(b, 16)), icon_size(big_end(b, 20)), b.len() as int) + b)
    } else {
        None
    }
}

/// The header of an icon has 22 bytes, so that its picture starts where it says.
pub proof fn icon_head_length(w: u8, h: u8, n: int)
    requires
        0 <= n,
    ensures
        icon_head(w, h, n).len() == 22,
{
    crate::cbuf::bytes_round_trip(n as nat, 4);
}

fn starts_png(b: &Vec<u8>) -> (r: bool)
    ensures
        r == is_png(b@),
{
    if b.len() < 24 {
        return false;
    }
    let r = b[0] == 0x89 && b[1] == 0x50 && b[2] == 0x4e && b[3] == 0x47 && b[4] == 0x0d && b[5]
        == 0x0a && b[6] == 0x1a && b[7] == 0x0a && b[12] == 0x49 && b[13] == 0x48 && b[14] == 0x44
        && b[15] == 0x52;
    proof {
        let m = seq![0x89u8, 0x50, 0x4e, 0x47, 0x0d, 0x0a, 0x1a, 0x0a];
        let k = seq![0x49u8, 0x48, 0x44, 0x52];
        let x = b@.subrange(0, 8);
        let y = b@.subrange(12, 16);
        if r {
            assert(x =~= m);
            assert(y =~= k);
        } else if is_png(b@) {
            assert(x[0] == m[0] && x[1] == m[1] && x[2] == m[2] && x[3] == m[3] && x[4] == m[4]
                && x[5] == m[5] && x[6] == m[6] && x[7] == m[7]);
            assert(y[0] == k[0] && y[1] == k[1] && y[2] == k[2] && y[3] == k[3]);
        }
    }
    r
}

fn one_byte(n: u32) -> (r: u8)
    ensures
        r == icon_size(n as int),
{
    if n >= 256 {
        0
    } else {
        n as u8
    }
}

fn read_big(b: &Vec<u8>, i: usize) -> (r: u32)
    requires
        i + 4 <= b@.len(),
        i <= 1000,
    ensures
        r == big_end(b@, i as int),
{
    b[i] as u32 * 0x100_0000 + b[i + 1] as u32 * 0x1_0000 + b[i + 2] as u32 * 0x100
        + b[i + 3] as u32
}

/// Puts a PNG picture into an icon.
pub fn png2ico(png: &Vec<u8>) -> (r: Option<Vec<u8>>)
    ensures
        match r {
            Some(b) => icon_of(png@) == Some(b@),
            None => icon_of(png@) is None,
        },
{
    if !starts_png(png) {
        return None;
    }
    let w: u8 = one_byte(read_big(png, 16));
    let h: u8 = one_byte(read_big(png, 20));
    let mut n: u64 = png.len() as u64;
    let mut b: Vec<u8> = Vec::new();
    b.push(0);
    b.push(0);
    b.push(1);
    b.push(0);
    b.push(1);
    b.push(0);
    b.push(w);
    b.push(h);
    b.push(0);
    b.push(0);
    b.push(1);
    b.push(0);
    b.push(32);
    b.push(0);
    proof {
        reveal_with_fuel(crate::cbuf::low_bytes, 5);
    }
    let b0: u8 = (n % 256) as u8;
    let b1: u8 = (n / 256 % 256) as u8;
    let b2: u8 = (n / 256 / 256 % 256) as u8;
    let b3: u8 = (n / 256 / 256 / 256 % 256) as u8;
    b.push(b0);
    b.push(b1);
    b.push(b2);
    b.push(b3);
    assert(crate::cbuf::low_bytes(n as nat, 4) =~= seq![b0, b1, b2, b3]);
    b.push(22);
    b.push(0);
    b.push(0);
    b.push(0);
    assert(b@ =~= icon_head(w, h, png@.len() as int));
    let ghost head = b@;
    assert(png@.take(0) =~= Seq::empty());
    for i in 0..png.len()
        invariant
            b@ == head + png@.take(i as int),
    {
        b.push(png[i]);
        assert(b@ =~= head + png@.take(i + 1));
    }
    assert(png@.take(png@.len() as int) =~= png@);
    Some(b)
}

/// The kind of a declaration.
pub open spec fn kind_text(k: DeclKind) -> Seq<char> {
    match k {
        DeclKind::Fn => "fn"@,
        DeclKind::Method => "method"@,
        DeclKind::Struct => "struct"@,
        DeclKind::Field => "field"@,
        DeclKind::Param => "param"@,
        DeclKind::Import => "import"@,
    }
}

/// A declaration as a line of a table.
pub open spec fn decl_text(d: DeclSpan) -> Seq<char> {
    kind_text(d.kind) + "\t"@ + d.name@ + "\t"@ + dec_nat(d.line as nat) + "\t"@ + dec_nat(
        d.col as nat,
    ) + "\t"@ + dec_nat(d.end_col as nat) + "\t"@ + (match d.parent {
        Some(p) => p@,
        None => ""@,
    })
}

pub fn decl_line(d: &DeclSpan) -> (r: String)
    ensures
        r@ == decl_text(*d),
{
    let mut s = match d.kind {
        DeclKind::Fn => "fn".to_owned(),
        DeclKind::Method => "method".to_owned(),
        DeclKind::Struct => "struct".to_owned(),
        DeclKind::Field => "field".to_owned(),
        DeclKind::Param => "param".to_owned(),
        DeclKind::Import => "import".to_owned(),
    };
    s.append("\t");
    s.append(d.name.as_str());
    s.append("\t");
    push_u64(&mut s, d.line as u64);
    s.append("\t");
    push_u64(&mut s, d.col as u64);
    s.append("\t");
    push_u64(&mut s, d.end_col as u64);
    s.append("\t");
    match &d.parent {
        Some(p) => s.append(p.as_str()),
        None => s.append(""),
    }
    s
}

/// The digits of a text from `i` on.
pub open spec fn digits_end(s: Seq<char>, i: int) -> int
    decreases s.len() - i,
{
    if 0 <= i < s.len() && is_digit(s[i]) {
        digits_end(s, i + 1)
    } else {
        i
    }
}

/// The number of the line that a message names, if it names one.
pub open spec fn line_number(m: Seq<char>) -> Option<nat> {
    match first_at(m, "line "@, 0) {
        Some(k) => {
            let d = m.subrange(k + 5, digits_end(m, k + 5));
            if d.len() > 0 && digits_value(d) <= usize::MAX {
                Some(digits_value(d))
            } else {
                None
            }
        },
        None => None,
    }
}

proof fn value_grows(d: Seq<char>, i: int)
    requires
        0 <= i <= d.len(),
        all_digits(d),
    ensures
        digits_value(d.take(i)) <= digits_value(d),
    decreases d.len(),
{
    if i < d.len() {
        assert(all_digits(d.drop_last()));
        value_grows(d.drop_last(), i);
        assert(d.drop_last().take(i) =~= d.take(i));
        assert(is_digit(d[d.len() - 1]));
    } else {
        assert(d.take(i) =~= d);
    }
}

/// The value of digits, if it fits.
fn read_digits(v: &Vec<char>, from: usize, to: usize) -> (r: Option<usize>)
    requires
        from <= to <= v@.len(),
        all_digits(v@.subrange(from as int, to as int)),
    ensures
        ({
            let d = v@.subrange(from as int, to as int);
            match r {
                Some(n) => d.len() > 0 && digits_value(d) == n,
                None => d.len() == 0 || digits_value(d) > usize::MAX,
            }
        }),
{
    if from == to {
        return None;
    }
    let ghost d = v@.subrange(from as int, to as int);
    let mut n: usize = 0;
    assert(d.take(0) =~= Seq::empty());
    for i in from..to
        invariant
            from <= to <= v@.len(),
            d == v@.subrange(from as int, to as int),
            all_digits(d),
            n == digits_value(d.take(i - from)),
    {
        let ghost k = i - from;
        assert(d.take(k + 1).drop_last() =~= d.take(k));
        assert(is_digit(d[k]));
        let c: char = v[i];
        assert(c == d[k]);
        let m: u128 = n as u128 * 10 + (c as u32 as u128 - 48);
        assert(m == digits_value(d.take(k + 1)));
        if m > usize::MAX as u128 {
            proof {
                value_grows(d, k + 1);
            }
            return None;
        }
        n = m as usize;
    }
    assert(d.take(to - from) =~= d);
    Some(n)
}

fn find_text(v: &Vec<char>, w: &Vec<char>) -> (r: Option<usize>)
    ensures
        match r {
            Some(k) => first_at(v@, w@, 0) == Some(k as int) && k + w@.len() <= v@.len(),
            None => first_at(v@, w@, 0) is None,
        },
{
    let n: usize = v.len();
    let mut i: usize = 0;
    loop
        invariant
            n == v@.len(),
            i <= n,
            first_at(v@, w@, 0) == first_at(v@, w@, i as int),
        decreases n - i,
    {
        if found_at(v, w, i) {
            return Some(i);
        }
        if i == n {
            assert(first_at(v@, w@, i + 1) is None);
            return None;
        }
        i += 1;
    }
}

pub fn extract_line_no(msg: &str) -> (r: Option<usize>)
    ensures
        match r {
            Some(n) => line_number(msg@) == Some(n as nat),
            None => line_number(msg@) is None,
        },
{
    let v = to_chars(msg);
    let w = to_chars("line ");
    proof {
        reveal_strlit("line ");
    }
    match find_text(&v, &w) {
        Some(k) => {
            let n: usize = v.len();
            let from: usize = k + 5;
            let mut to: usize = from;
            while to < n && '0' <= v[to] && v[to] <= '9'
                invariant
                    n == v@.len(),
                    from <= to <= n,
                    digits_end(v@, from as int) == digits_end(v@, to as int),
                    all_digits(v@.subrange(from as int, to as int)),
                decreases n - to,
            {
                to += 1;
                assert(all_digits(v@.subrange(from as int, to as int))) by {
                    let d = v@.subrange(from as int, to as int);
                    assert forall|j: int| 0 <= j < d.len() implies is_digit(#[trigger] d[j]) by {
                        if j < d.len() - 1 {
                            assert(v@.subrange(from as int, to - 1)[j] == d[j]);
                        }
                    }
                }
            }
            read_digits(&v, from, to)
        },
        None => None,
    }
}

/// Where `pat` last stands in `s`, up to `i`.
pub open spec fn last_at(s: Seq<char>, pat: Seq<char>, i: int) -> Option<int>
    decreases i + 1,
{
    if i < 0 {
        None
    } else if stands_at(s, pat, i) {
        Some(i)
    } else {
        last_at(s, pat, i - 1)
    }
}

/// A message without the line that it names at its end.
pub open spec fn headline(m: Seq<char>) -> Seq<char> {
    match line_number(m) {
        Some(_) => trim_end_spec(
            match last_at(m, " (line "@, m.len() as int) {
                Some(i) => m.take(i),
                None => m,
            },
        ),
        None => m,
    }
}

fn cut_line(msg: &str) -> (r: String)
    ensures
        r@ == trim_end_spec(
            match last_at(msg@, " (line "@, msg@.len() as int) {
                Some(i) => msg@.take(i),
                None => msg@,
            },
        ),
{
    let v = to_chars(msg);
    let w = to_chars(" (line ");
    let n: usize = v.len();
    let mut i: usize = n;
    loop
        invariant
            n == v@.len(),
            v@ == msg@,
            w@ == " (line "@,
            i <= n,
            last_at(v@, w@, n as int) == last_at(v@, w@, i as int),
        decreases i,
    {
        if found_at(&v, &w, i) {
            let t = from_range(&v, 0, i);
            assert(t@ =~= msg@.take(i as int));
            return trim_end(t.as_str());
        }
        if i == 0 {
            assert(last_at(v@, w@, -1) is None);
            return trim_end(msg);
        }
        i -= 1;
    }
}

/// How many bytes of white space a line starts with.
pub open spec fn indent(s: Seq<char>) -> nat {
    let a = vstd::utf8::encode_utf8(s).len();
    let b = vstd::utf8::encode_utf8(trim_start_spec(s)).len();
    if a >= b {
        (a - b) as nat
    } else {
        0
    }
}

pub open spec fn spaces(n: int) -> Seq<char>
    decreases n,
{
    if n <= 0 {
        Seq::empty()
    } else {
        spaces(n - 1).push(' ')
    }
}

/// An error as it is shown: its kind and what it says, and the line where it is.
pub open spec fn report_lines(kind: Seq<char>, m: Seq<char>, src: Seq<char>) -> Seq<Seq<char>> {
    let tag = if kind.len() == 0 {
        "error"@
    } else {
        kind + " error"@
    };
    let first = seq![tag + ": "@ + headline(m)];
    match line_number(m) {
        None => first,
        Some(n) => {
            let ls = lines_spec(src, Seq::empty());
            if 1 <= n <= ls.len() {
                let t = ls[n - 1];
                first + seq![
                    "  "@ + spaces(4 - dec_nat(n).len()) + dec_nat(n) + " | "@ + t,
                    "       | "@ + spaces(indent(t) as int) + "^"@,
                ]
            } else {
                first + seq!["  (at line "@ + dec_nat(n) + ")"@]
            }
        },
    }
}

fn push_spaces(s: &mut String, n: usize)
    ensures
        final(s)@ == old(s)@ + spaces(n as int),
{
    let ghost s0 = s@;
    assert(s0 + spaces(0) =~= s0);
    for i in 0..n
        invariant
            s@ == s0 + spaces(i as int),
    {
        push_char(s, ' ');
        assert(s@ =~= s0 + spaces(i + 1));
    }
}

fn find_indent(s: &str) -> (r: usize)
    ensures
        r == indent(s@),
{
    let v = to_chars(s);
    let i: usize = skip_white(&v);
    let rest = from_range(&v, i, v.len());
    assert(rest@ =~= v@.skip(i as int));
    let a: usize = s.as_bytes().len();
    let b: usize = rest.as_str().as_bytes().len();
    if a >= b {
        a - b
    } else {
        0
    }
}

/// The lines that show an error.
pub fn report(kind: &str, msg: &str, src: &str) -> (r: Vec<String>)
    ensures
        texts_view(r@) == report_lines(kind@, msg@, src@),
{
    let mut out: Vec<String> = Vec::new();
    let mut first = if kind.unicode_len() == 0 {
        "error".to_owned()
    } else {
        concat(kind, " error")
    };
    first.append(": ");
    let line = extract_line_no(msg);
    let head = match line {
        Some(_) => cut_line(msg),
        None => msg.to_owned(),
    };
    first.append(head.as_str());
    out.push(first);
    if let Some(n) = line {
        let ls = lines(src);
        if 1 <= n && n <= ls.len() {
            assert(lines_spec(src@, Seq::empty())[n - 1] == ls@[n - 1]@);
            let mut num = String::new();
            push_u64(&mut num, n as u64);
            assert(num@ =~= dec_nat(n as nat));
            let mut a = "  ".to_owned();
            let w: usize = num.as_str().unicode_len();
            push_spaces(
                &mut a,
                if w < 4 {
                    4 - w
                } else {
                    0
                },
            );
            assert(spaces(4 - w) =~= spaces(
                if w < 4 {
                    4 - w
                } else {
                    0
                }
            ));
            a.append(num.as_str());
            a.append(" | ");
            a.append(ls[n - 1].as_str());
            let mut b = "       | ".to_owned();
            push_spaces(&mut b, find_indent(ls[n - 1].as_str()));
            b.append("^");
            out.push(a);
            out.push(b);
        } else {
            let mut a = "  (at line ".to_owned();
            push_u64(&mut a, n as u64);
            a.append(")");
            out.push(a);
        }
    }
    assert(texts_view(out@) =~= report_lines(kind@, msg@, src@));
    out
}

} // verus!
