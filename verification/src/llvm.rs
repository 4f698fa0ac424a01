//! Where the LLVM tools are looked for.

use crate::text::{concat, texts_view, trim, trim_spec};
use vstd::prelude::*;
use vstd::string::StringExecFns;

verus! {

/// A place where a tool may be: a directory, if it is known, the name of the file, and
/// how the place came about.
#[derive(Debug)]
pub struct Place {
    pub dir: Option<String>,
    pub file: String,
    pub source: &'static str,
}

pub struct PlaceView {
    pub dir: Option<Seq<char>>,
    pub file: Seq<char>,
    pub source: Seq<char>,
}

impl View for Place {
    type V = PlaceView;

    open spec fn view(&self) -> PlaceView {
        PlaceView {
            dir: match self.dir {
                Some(d) => Some(d@),
                None => None,
            },
            file: self.file@,
            source: self.source@,
        }
    }
}

pub open spec fn places_view(s: Seq<Place>) -> Seq<PlaceView> {
    Seq::new(s.len(), |i: int| s[i]@)
}

/// The directories in which the tools are usually installed, the most wanted first:
/// those of the machine, then those below the user's home.
pub open spec fn install_dirs(home: Option<Seq<char>>) -> Seq<Seq<char>> {
    let all = seq![
        "C:/llvm-build/bin"@,
        "C:/msys64/mingw64/bin"@,
        "C:/msys64/ucrt64/bin"@,
        "C:/msys64/clang64/bin"@,
        "C:/Program Files/LLVM/bin"@,
        "C:/Program Files (x86)/LLVM/bin"@,
    ];
    match home {
        Some(h) => all + seq![
            h + "/AppData/Local/Lumen/llvm/bin"@,
            h + "/scoop/apps/llvm/current/bin"@,
            h + "/scoop/shims"@,
        ],
        None => all,
    }
}

pub open spec fn opt_text(o: Option<&str>) -> Option<Seq<char>> {
    match o {
        Some(s) => Some(s@),
        None => None,
    }
}

pub fn bins(home: Option<&str>) -> (r: Vec<String>)
    ensures
        texts_view(r@) == install_dirs(opt_text(home)),
{
    let mut v: Vec<String> = Vec::new();
    v.push("C:/llvm-build/bin".to_owned());
    v.push("C:/msys64/mingw64/bin".to_owned());
    v.push("C:/msys64/ucrt64/bin".to_owned());
    v.push("C:/msys64/clang64/bin".to_owned());
    v.push("C:/Program Files/LLVM/bin".to_owned());
    v.push("C:/Program Files (x86)/LLVM/bin".to_owned());
    if let Some(h) = home {
        v.push(concat(h, "/AppData/Local/Lumen/llvm/bin"));
        v.push(concat(h, "/scoop/apps/llvm/current/bin"));
        v.push(concat(h, "/scoop/shims"));
    }
    assert(texts_view(v@) =~= install_dirs(opt_text(home)));
    v
}

/// A file in each of some directories.
pub open spec fn in_dirs(dirs: Seq<Seq<char>>, file: Seq<char>, source: Seq<char>) -> Seq<
    PlaceView,
> {
    dirs.map_values(|d: Seq<char>| PlaceView { dir: Some(d), file, source })
}

/// The places that the user names, if any.
pub open spec fn named_place(named: Option<Seq<char>>) -> Seq<PlaceView> {
    match named {
        Some(v) => seq![PlaceView { dir: None, file: trim_spec(v), source: "override env"@ }],
        None => Seq::empty(),
    }
}

/// The places of a tool that nobody named: in the directories of the search path, and in
/// the usual ones.
pub open spec fn usual_places(
    name: Seq<char>,
    path: Seq<Seq<char>>,
    home: Option<Seq<char>>,
    ext: Seq<char>,
) -> Seq<PlaceView> {
    in_dirs(path, name + ext, "PATH"@) + in_dirs(install_dirs(home), name + ext, "auto-detected"@)
}

/// The places of a tool in the order in which they are tried: the one that the user
/// names, the directories of the search path, and the usual ones.
pub open spec fn tool_places(
    name: Seq<char>,
    named: Option<Seq<char>>,
    path: Seq<Seq<char>>,
    home: Option<Seq<char>>,
    ext: Seq<char>,
) -> Seq<PlaceView> {
    named_place(named) + usual_places(name, path, home, ext)
}

fn push_dirs(out: &mut Vec<Place>, dirs: &Vec<String>, file: &str, source: &'static str)
    ensures
        places_view(final(out)@) == places_view(old(out)@) + in_dirs(
            texts_view(dirs@),
            file@,
            source@,
        ),
{
    let ghost o0 = places_view(out@);
    let ghost all = in_dirs(texts_view(dirs@), file@, source@);
    assert(places_view(out@) =~= o0 + all.take(0));
    for i in 0..dirs.len()
        invariant
            all == in_dirs(texts_view(dirs@), file@, source@),
            places_view(out@) == o0 + all.take(i as int),
    {
        let ghost o1 = out@;
        let p = Place { dir: Some(dirs[i].clone()), file: file.to_owned(), source };
        out.push(p);
        assert(places_view(out@) =~= places_view(o1).push(p@));
        assert(places_view(out@) =~= o0 + all.take(i + 1));
    }
    assert(all.take(dirs@.len() as int) =~= all);
}

fn push_named(out: &mut Vec<Place>, named: Option<&str>)
    ensures
        places_view(final(out)@) == places_view(old(out)@) + named_place(opt_text(named)),
{
    let ghost o0 = out@;
    if let Some(v) = named {
        let p = Place { dir: None, file: trim(v), source: "override env" };
        out.push(p);
    }
    assert(places_view(out@) =~= places_view(o0) + named_place(opt_text(named)));
}

fn push_usual(
    out: &mut Vec<Place>,
    name: &str,
    path: &Vec<String>,
    home: Option<&str>,
    ext: &str,
)
    ensures
        places_view(final(out)@) == places_view(old(out)@) + usual_places(
            name@,
            texts_view(path@),
            opt_text(home),
            ext@,
        ),
{
    let ghost o0 = places_view(out@);
    let file = concat(name, ext);
    push_dirs(out, path, file.as_str(), "PATH");
    let dirs = bins(home);
    push_dirs(out, &dirs, file.as_str(), "auto-detected");
    assert(places_view(out@) =~= o0 + usual_places(
        name@,
        texts_view(path@),
        opt_text(home),
        ext@,
    ));
}

/// Where to look for a tool, in order.
pub fn find(
    name: &str,
    named: Option<&str>,
    path: &Vec<String>,
    home: Option<&str>,
    ext: &str,
) -> (r: Vec<Place>)
    ensures
        places_view(r@) == tool_places(
            name@,
            opt_text(named),
            texts_view(path@),
            opt_text(home),
            ext@,
        ),
{
    let mut out: Vec<Place> = Vec::new();
    push_named(&mut out, named);
    push_usual(&mut out, name, path, home, ext);
    assert(places_view(out@) =~= tool_places(
        name@,
        opt_text(named),
        texts_view(path@),
        opt_text(home),
        ext@,
    ));
    out
}

fn chain(mut a: Vec<Place>, b: Vec<Place>) -> (r: Vec<Place>)
    ensures
        places_view(r@) == places_view(a@) + places_view(b@),
{
    let ghost a0 = a@;
    let mut rest = b;
    a.append(&mut rest);
    assert(places_view(a@) =~= places_view(a0) + places_view(b@));
    a
}

/// Where to look for the compiler: where the user names it, by the first name and then by
/// the second, and else in the search path and the usual places.
pub fn find_clang(
    first: Option<&str>,
    second: Option<&str>,
    path: &Vec<String>,
    home: Option<&str>,
    ext: &str,
) -> (r: Vec<Place>)
    ensures
        places_view(r@) == named_place(opt_text(first)) + named_place(opt_text(second))
            + usual_places("clang"@, texts_view(path@), opt_text(home), ext@),
{
    let mut out: Vec<Place> = Vec::new();
    push_named(&mut out, first);
    push_named(&mut out, second);
    push_usual(&mut out, "clang", path, home, ext);
    assert(places_view(out@) =~= named_place(opt_text(first)) + named_place(opt_text(second))
        + usual_places("clang"@, texts_view(path@), opt_text(home), ext@));
    out
}

/// Where to look for the linker: under its name for this target, and then under its
/// general one.
pub fn find_lld(named: Option<&str>, path: &Vec<String>, home: Option<&str>, ext: &str) -> (r: Vec<
    Place,
>)
    ensures
        places_view(r@) == tool_places(
            "ld.lld"@,
            opt_text(named),
            texts_view(path@),
            opt_text(home),
            ext@,
        ) + tool_places("lld"@, opt_text(named), texts_view(path@), opt_text(home), ext@),
{
    let a = find("ld.lld", named, path, home, ext);
    let b = find("lld", named, path, home, ext);
    chain(a, b)
}

pub open spec fn hint_text(windows: bool) -> Seq<char> {
    if windows {
        "no LLVM toolchain found. `lumen build --backend llvm` links with clang + lld.\nInstall it, then Lumen picks it up automatically:\n  - MSYS2:  pacman -S mingw-w64-x86_64-clang mingw-w64-x86_64-lld\n  - winget: winget install -e --id LLVM.LLVM\n  - scoop:  scoop install llvm\nOr point Lumen straight at clang:  set LUMEN_CLANG=C:\\path\\to\\clang.exe"@
    } else {
        "no LLVM toolchain found. Install clang + lld (e.g. `apt install clang lld`),\nor point Lumen at clang with  LUMEN_CLANG=/path/to/clang"@
    }
}

/// What is said where no tools were found.
pub fn install_hint(windows: bool) -> (r: &'static str)
    ensures
        r@ == hint_text(windows),
{
    if windows {
        "no LLVM toolchain found. `lumen build --backend llvm` links with clang + lld.\nInstall it, then Lumen picks it up automatically:\n  - MSYS2:  pacman -S mingw-w64-x86_64-clang mingw-w64-x86_64-lld\n  - winget: winget install -e --id LLVM.LLVM\n  - scoop:  scoop install llvm\nOr point Lumen straight at clang:  set LUMEN_CLANG=C:\\path\\to\\clang.exe"
    } else {
        "no LLVM toolchain found. Install clang + lld (e.g. `apt install clang lld`),\nor point Lumen at clang with  LUMEN_CLANG=/path/to/clang"
    }
}

} // verus!
