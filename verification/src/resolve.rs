//! The resolver of imports: where the file of a module is looked for, and in which order
//! modules are read.
//!
//! The resolver does not read files. It says where to look, is told what is there, says
//! which file to read, and is given its items.

use crate::ast::{copy_strings, prog_view, strs_view, ImportDefView, Item, ItemView};
use crate::imports::{
    access_name, access_name_spec, from_file, from_file_spec, segments, segments_spec, shared_items,
    take_module,
};
use crate::names::NameSet;
use crate::text::{concat, from_range, str_eq, to_chars};
use crate::CompileError;
use vstd::prelude::*;
use vstd::string::StringExecFns;

verus! {

/// A path: its parts. A root is a part of its own.
pub type Path = Seq<Seq<char>>;

pub open spec fn is_root(s: Seq<char>) -> bool {
    s == "/"@ || s == "\\"@
}

/// The directory around a path; a root has none around it.
pub open spec fn up(p: Path) -> Path {
    if p.len() == 0 || is_root(p.last()) {
        p
    } else {
        p.drop_last()
    }
}

pub open spec fn up_times(p: Path, n: nat) -> Path
    decreases n,
{
    if n == 0 {
        p
    } else {
        up(up_times(p, (n - 1) as nat))
    }
}

/// The place of the last dot, or -1.
pub open spec fn last_dot(s: Seq<char>) -> int
    decreases s.len(),
{
    if s.len() == 0 {
        -1
    } else if s.last() == '.' {
        s.len() - 1
    } else {
        last_dot(s.drop_last())
    }
}

/// A name with the ending of source files in place of its own.
pub open spec fn with_ending(s: Seq<char>) -> Seq<char> {
    if s == ".."@ || is_root(s) {
        s
    } else if last_dot(s) > 0 {
        s.take(last_dot(s)) + ".lm"@
    } else {
        s + ".lm"@
    }
}

pub open spec fn as_source(p: Path) -> Path {
    if p.len() == 0 {
        p
    } else {
        p.drop_last().push(with_ending(p.last()))
    }
}

/// The file of a module below a directory.
pub open spec fn below(dir: Path, segs: Path) -> Path {
    as_source(dir + segs)
}

/// The directories of installed packages: that of the active environment, if there is
/// one, and that of the project.
pub open spec fn package_dirs(venv: Option<Seq<char>>) -> Seq<Path> {
    let own = seq![seq!["lumen_modules"@]];
    match venv {
        Some(v) => if v.len() > 0 {
            seq![seq![v, "lumen_modules"@]] + own
        } else {
            own
        },
        None => own,
    }
}

/// Where the file of a module is looked for. A relative import has one place: the
/// directory of the importing file, or one further up for each dot behind the first. An
/// absolute one is looked for beside the importing file, below the root of the project,
/// and among the packages.
pub open spec fn places_of(
    base: Path,
    root: Path,
    venv: Option<Seq<char>>,
    module: Seq<char>,
    level: u8,
) -> Seq<Path> {
    let segs = segments_spec(module);
    if level > 0 {
        seq![below(up_times(base, (level - 1) as nat), segs)]
    } else {
        (seq![base, root] + package_dirs(venv)).map_values(|d: Path| below(d, segs))
    }
}

pub open spec fn paths_view(s: Seq<Vec<String>>) -> Seq<Path> {
    Seq::new(s.len(), |i: int| strs_view(s[i]@))
}

pub open spec fn text_of(o: Option<&str>) -> Option<Seq<char>> {
    match o {
        Some(s) => Some(s@),
        None => None,
    }
}

fn at_root(s: &str) -> (r: bool)
    ensures
        r == is_root(s@),
{
    str_eq(s, "/") || str_eq(s, "\\")
}

fn go_up(p: &mut Vec<String>)
    ensures
        strs_view(final(p)@) == up(strs_view(old(p)@)),
{
    let ghost p0 = p@;
    let n: usize = p.len();
    if n > 0 {
        assert(strs_view(p0).last() == p0.last()@);
        if !at_root(p[n - 1].as_str()) {
            let _ = p.pop();
            assert(strs_view(p@) =~= strs_view(p0).drop_last());
        }
    }
}

fn ended(s: &str) -> (r: String)
    ensures
        r@ == with_ending(s@),
{
    if str_eq(s, "..") || at_root(s) {
        return s.to_owned();
    }
    let v = to_chars(s);
    let mut k: usize = v.len();
    assert(s@.take(k as int) =~= s@);
    while k > 0 && v[k - 1] != '.'
        invariant
            v@ == s@,
            k <= v@.len(),
            last_dot(s@) == last_dot(s@.take(k as int)),
        decreases k,
    {
        assert(s@.take(k as int).drop_last() =~= s@.take(k - 1));
        k = k - 1;
    }
    if k > 1 {
        assert(s@.take(k as int).last() == '.');
        let stem = from_range(&v, 0, k - 1);
        assert(stem@ =~= s@.take(k - 1));
        concat(stem.as_str(), ".lm")
    } else {
        assert(last_dot(s@) <= 0) by {
            if k == 0 {
                assert(s@.take(0) =~= Seq::empty());
            } else {
                assert(s@.take(1).last() == '.');
            }
        }
        concat(s, ".lm")
    }
}

fn file_below(dir: Vec<String>, segs: &Vec<String>) -> (r: Vec<String>)
    ensures
        strs_view(r@) == below(strs_view(dir@), strs_view(segs@)),
{
    let ghost d0 = dir@;
    let mut p = dir;
    let mut more = copy_strings(segs);
    let ghost m0 = more@;
    p.append(&mut more);
    assert(strs_view(p@) =~= strs_view(d0) + strs_view(segs@));
    let n: usize = p.len();
    if n > 0 {
        let ghost p0 = p@;
        assert(strs_view(p0).last() == p0.last()@);
        let last = ended(p[n - 1].as_str());
        let _ = p.pop();
        p.push(last);
        assert(strs_view(p@) =~= strs_view(p0).drop_last().push(last@));
    }
    p
}

fn push_path(out: &mut Vec<Vec<String>>, p: Vec<String>)
    ensures
        paths_view(final(out)@) == paths_view(old(out)@).push(strs_view(p@)),
{
    let ghost o0 = out@;
    out.push(p);
    assert(paths_view(out@) =~= paths_view(o0).push(strs_view(p@)));
}

/// Where the file of a module is looked for, in order, and the name that the module is
/// referred to by where it has no alias.
pub fn mod_places(
    base: &Vec<String>,
    root: &Vec<String>,
    venv: Option<&str>,
    module: &str,
    level: u8,
) -> (r: (Vec<Vec<String>>, String))
    ensures
        paths_view(r.0@) == places_of(
            strs_view(base@),
            strs_view(root@),
            text_of(venv),
            module@,
            level,
        ),
        r.1@ == access_name_spec(
            (ImportDefView { module: module@, alias: None, names: Seq::empty(), level }),
        ),
{
    let segs = segments(module);
    let access = if segs.len() > 0 {
        assert(strs_view(segs@).last() == segs@.last()@);
        segs[segs.len() - 1].clone()
    } else {
        module.to_owned()
    };
    let ghost goal = places_of(
        strs_view(base@),
        strs_view(root@),
        text_of(venv),
        module@,
        level,
    );
    let ghost sv = strs_view(segs@);
    let mut out: Vec<Vec<String>> = Vec::new();
    assert(paths_view(out@) =~= Seq::empty());
    if level > 0 {
        let mut dir = copy_strings(base);
        let mut i: u8 = 1;
        while i < level
            invariant
                1 <= i <= level,
                strs_view(dir@) == up_times(strs_view(base@), (i - 1) as nat),
            decreases level - i,
        {
            go_up(&mut dir);
            i = i + 1;
        }
        let p = file_below(dir, &segs);
        push_path(&mut out, p);
        assert(paths_view(out@) =~= goal);
        return (out, access);
    }
    let a = file_below(copy_strings(base), &segs);
    push_path(&mut out, a);
    let b = file_below(copy_strings(root), &segs);
    push_path(&mut out, b);
    if let Some(v) = venv {
        if !v.is_empty() {
            let mut dir: Vec<String> = Vec::new();
            dir.push(v.to_owned());
            dir.push("lumen_modules".to_owned());
            assert(strs_view(dir@) =~= seq![v@, "lumen_modules"@]);
            let c = file_below(dir, &segs);
            push_path(&mut out, c);
        }
    }
    let mut dir: Vec<String> = Vec::new();
    dir.push("lumen_modules".to_owned());
    assert(strs_view(dir@) =~= seq!["lumen_modules"@]);
    let d = file_below(dir, &segs);
    push_path(&mut out, d);
    assert(paths_view(out@) =~= goal);
    (out, access)
}

/// The place that is taken: the first with a file, or the first of all where none has
/// one.
pub open spec fn taken(found: Seq<bool>) -> int {
    if found.contains(true) {
        found.index_of_first(true)->Some_0
    } else {
        0
    }
}

pub fn take_place(found: &Vec<bool>) -> (r: usize)
    ensures
        r == taken(found@),
{
    for i in 0..found.len()
        invariant
            forall|j: int| 0 <= j < i ==> found@[j] == false,
    {
        if found[i] {
            proof {
                assert(found@[i as int] == true);
                assert(found@.contains(true));
                found@.index_of_first_ensures(true);
            }
            return i;
        }
    }
    0
}

/// A module whose imports are being followed: the directory of its file, its items, how
/// many of them were looked at, and the names under which it knows modules.
#[derive(Debug)]
pub struct Level {
    base: Vec<String>,
    items: Vec<Item>,
    next: usize,
    aliases: NameSet,
}

pub struct LevelView {
    pub base: Path,
    pub items: Seq<ItemView>,
    pub next: nat,
    pub aliases: Set<Seq<char>>,
}

impl View for Level {
    type V = LevelView;

    closed spec fn view(&self) -> LevelView {
        LevelView {
            base: strs_view(self.base@),
            items: prog_view(self.items@),
            next: self.next as nat,
            aliases: self.aliases@,
        }
    }
}

pub open spec fn levels_view(s: Seq<Level>) -> Seq<LevelView> {
    Seq::new(s.len(), |i: int| s[i]@)
}

/// What was resolved so far: the modules that are being read, the innermost last, the
/// files that were read, and the items that were taken over.
#[derive(Debug)]
pub struct Resolver {
    root: Vec<String>,
    venv: Option<String>,
    stack: Vec<Level>,
    visited: Vec<Vec<String>>,
    out: Vec<Item>,
}

pub struct ResolverView {
    pub root: Path,
    pub venv: Option<Seq<char>>,
    pub stack: Seq<LevelView>,
    pub visited: Seq<Path>,
    pub out: Seq<ItemView>,
}

impl View for Resolver {
    type V = ResolverView;

    closed spec fn view(&self) -> ResolverView {
        ResolverView {
            root: strs_view(self.root@),
            venv: match self.venv {
                Some(v) => Some(v@),
                None => None,
            },
            stack: levels_view(self.stack@),
            visited: paths_view(self.visited@),
            out: prog_view(self.out@),
        }
    }
}

/// Whether an item asks for a file.
pub open spec fn asks(i: ItemView) -> bool {
    match i {
        ItemView::Import(d) => from_file_spec(d),
        _ => false,
    }
}

impl ResolverView {
    pub open spec fn with_top(self, l: LevelView) -> ResolverView {
        ResolverView { stack: self.stack.drop_last().push(l), ..self }
    }

    /// Whether the innermost module waits for a file.
    pub open spec fn waits(self) -> bool {
        &&& self.stack.len() > 0
        &&& self.stack.last().next < self.stack.last().items.len()
        &&& asks(self.stack.last().items[self.stack.last().next as int])
    }

    /// The import that waits.
    pub open spec fn import(self) -> ImportDefView {
        self.stack.last().items[self.stack.last().next as int]->Import_0
    }

    pub open spec fn places(self) -> Seq<Path> {
        places_of(
            self.stack.last().base,
            self.root,
            self.venv,
            self.import().module,
            self.import().level,
        )
    }

    /// Goes on to the next import. A module whose imports are all followed hands out its
    /// items, behind those of the modules that it imports.
    pub open spec fn settled(self) -> ResolverView
        decreases
                self.stack.len(),
                (if self.stack.len() > 0 {
                    self.stack.last().items.len() - self.stack.last().next
                } else {
                    0
                }),
    {
        if self.stack.len() == 0 {
            self
        } else {
            let top = self.stack.last();
            if top.next < top.items.len() {
                if asks(top.items[top.next as int]) {
                    self
                } else {
                    self.with_top(LevelView { next: top.next + 1, ..top }).settled()
                }
            } else if self.stack.len() == 1 {
                self
            } else {
                ResolverView {
                    stack: self.stack.drop_last(),
                    out: self.out + shared_items(top.items, top.aliases),
                    ..self
                }.settled()
            }
        }
    }

    /// The file at a place is the one that the import names. It is read unless it was read
    /// before.
    pub open spec fn answered(self, place: int) -> ResolverView {
        let top = self.stack.last();
        let s = self.with_top(
            LevelView {
                next: top.next + 1,
                aliases: top.aliases.insert(access_name_spec(self.import())),
                ..top
            },
        );
        let p = self.places()[place];
        if self.visited.contains(p) {
            s
        } else {
            ResolverView { visited: self.visited.push(p), ..s }
        }
    }

    /// The items of a file that was read.
    pub open spec fn entered(self, path: Path, items: Seq<ItemView>) -> ResolverView {
        ResolverView {
            stack: self.stack.push(
                LevelView { base: up(path), items, next: 0, aliases: Set::empty() },
            ),
            ..self
        }
    }
}

fn same_path(a: &Vec<String>, b: &Vec<String>) -> (r: bool)
    ensures
        r == (strs_view(a@) == strs_view(b@)),
{
    if a.len() != b.len() {
        assert(strs_view(a@).len() != strs_view(b@).len());
        return false;
    }
    for i in 0..a.len()
        invariant
            a@.len() == b@.len(),
            forall|j: int| 0 <= j < i ==> strs_view(a@)[j] == strs_view(b@)[j],
    {
        if !str_eq(a[i].as_str(), b[i].as_str()) {
            assert(strs_view(a@)[i as int] != strs_view(b@)[i as int]);
            return false;
        }
    }
    assert(strs_view(a@) =~= strs_view(b@));
    true
}

fn has_path(v: &Vec<Vec<String>>, p: &Vec<String>) -> (r: bool)
    ensures
        r == paths_view(v@).contains(strs_view(p@)),
{
    for i in 0..v.len()
        invariant
            forall|j: int| 0 <= j < i ==> paths_view(v@)[j] != strs_view(p@),
    {
        if same_path(&v[i], p) {
            assert(paths_view(v@)[i as int] == strs_view(p@));
            return true;
        }
    }
    false
}

impl Resolver {
    /// Starts with a program, the directory of its file and the root of the project.
    pub fn new(prog: Vec<Item>, base: Vec<String>, root: Vec<String>, venv: Option<String>) -> (r:
        Resolver)
        ensures
            r@ == (ResolverView {
                root: strs_view(root@),
                venv: match venv {
                    Some(v) => Some(v@),
                    None => None,
                },
                stack: seq![
                    LevelView {
                        base: strs_view(base@),
                        items: prog_view(prog@),
                        next: 0,
                        aliases: Set::empty(),
                    },
                ],
                visited: Seq::empty(),
                out: Seq::empty(),
            }),
    {
        let mut stack: Vec<Level> = Vec::new();
        stack.push(Level { base, items: prog, next: 0, aliases: NameSet::new() });
        let r = Resolver { root, venv, stack, visited: Vec::new(), out: Vec::new() };
        assert(r@.stack =~= seq![
            LevelView {
                base: strs_view(base@),
                items: prog_view(prog@),
                next: 0,
                aliases: Set::empty(),
            },
        ]);
        assert(r@.visited =~= Seq::empty());
        assert(r@.out =~= Seq::empty());
        r
    }

    /// The next file that is needed: the module, and where to look for it. There is none
    /// where all imports are followed.
    pub fn want(&mut self) -> (r: Option<(String, Vec<Vec<String>>)>)
        ensures
            final(self)@ == old(self)@.settled(),
            match r {
                Some((m, v)) => {
                    &&& final(self)@.waits()
                    &&& m@ == final(self)@.import().module
                    &&& paths_view(v@) == final(self)@.places()
                },
                None => !final(self)@.waits() && final(self)@.stack.len() <= 1,
            },
    {
        let ghost goal = self@.settled();
        loop
            invariant
                self@.settled() == goal,
                goal == old(self)@.settled(),
            decreases
                    self@.stack.len(),
                    (if self@.stack.len() > 0 {
                        self@.stack.last().items.len() - self@.stack.last().next
                    } else {
                        0
                    }),
        {
            let n: usize = self.stack.len();
            let ghost s0 = self@;
            assert(s0.stack.len() == n);
            if n == 0 {
                return None;
            }
            assert(s0.stack.last() == self.stack@.last()@);
            let k: usize = self.stack[n - 1].next;
            if k < self.stack[n - 1].items.len() {
                assert(s0.stack.last().items[k as int] == self.stack@.last().items@[k as int]@);
                if let Item::Import(d) = &self.stack[n - 1].items[k] {
                    if from_file(d) {
                        let venv: Option<&str> = match &self.venv {
                            Some(v) => Some(v.as_str()),
                            None => None,
                        };
                        let (places, _) = mod_places(
                            &self.stack[n - 1].base,
                            &self.root,
                            venv,
                            d.module.as_str(),
                            d.level,
                        );
                        return Some((d.module.clone(), places));
                    }
                }
                let ghost st0 = self.stack@;
                self.stack[n - 1].next = k + 1;
                assert(levels_view(self.stack@) =~= levels_view(st0).drop_last().push(
                    LevelView { next: (k + 1) as nat, ..s0.stack.last() },
                ));
                assert(self@ == s0.with_top(
                    LevelView { next: (k + 1) as nat, ..s0.stack.last() },
                ));
            } else if n == 1 {
                return None;
            } else {
                let ghost st0 = self.stack@;
                if let Some(top) = self.stack.pop() {
                    assert(levels_view(self.stack@) =~= levels_view(st0).drop_last());
                    assert(top@ == s0.stack.last());
                    take_module(&mut self.out, top.items, &top.aliases);
                }
            }
        }
    }

    /// Says that the import that waits is the file at one of its places. Gives the path
    /// of the file if it is still to be read.
    pub fn answer(&mut self, place: usize) -> (r: Option<Vec<String>>)
        requires
            old(self)@.waits(),
            place < old(self)@.places().len(),
        ensures
            final(self)@ == old(self)@.answered(place as int),
            match r {
                Some(p) => strs_view(p@) == old(self)@.places()[place as int]
                    && !old(self)@.visited.contains(strs_view(p@)),
                None => old(self)@.visited.contains(old(self)@.places()[place as int]),
            },
    {
        let ghost s0 = self@;
        let n: usize = self.stack.len();
        assert(s0.stack.len() == n);
        assert(s0.stack.last() == self.stack@.last()@);
        let k: usize = self.stack[n - 1].next;
        let len: usize = self.stack[n - 1].items.len();
        assert(k < len);
        assert(s0.stack.last().items[k as int] == self.stack@.last().items@[k as int]@);
        let mut path: Vec<String> = Vec::new();
        let mut name = String::new();
        if let Item::Import(d) = &self.stack[n - 1].items[k] {
            let venv: Option<&str> = match &self.venv {
                Some(v) => Some(v.as_str()),
                None => None,
            };
            let (places, _) = mod_places(
                &self.stack[n - 1].base,
                &self.root,
                venv,
                d.module.as_str(),
                d.level,
            );
            assert(paths_view(places@) == s0.places());
            assert(paths_view(places@)[place as int] == strs_view(places@[place as int]@));
            path = copy_strings(&places[place]);
            name = access_name(d);
        }
        let ghost st0 = self.stack@;
        self.stack[n - 1].next = k + 1;
        self.stack[n - 1].aliases.insert(name.as_str());
        assert(levels_view(self.stack@) =~= levels_view(st0).drop_last().push(
            LevelView {
                next: (k + 1) as nat,
                aliases: s0.stack.last().aliases.insert(name@),
                ..s0.stack.last()
            },
        ));
        if has_path(&self.visited, &path) {
            return None;
        }
        let mine = copy_strings(&path);
        push_path(&mut self.visited, mine);
        Some(path)
    }

    /// Goes into a module: follows its imports before anything else.
    pub fn enter(&mut self, path: Vec<String>, items: Vec<Item>)
        ensures
            final(self)@ == old(self)@.entered(strs_view(path@), prog_view(items@)),
    {
        let ghost st0 = self.stack@;
        let mut base = path;
        go_up(&mut base);
        let l = Level { base, items, next: 0, aliases: NameSet::new() };
        self.stack.push(l);
        assert(levels_view(self.stack@) =~= levels_view(st0).push(l@));
    }

    /// The program, the items of the modules that it imports, and the names under which it
    /// knows them.
    pub fn finish(self) -> (r: (Vec<Item>, Vec<Item>, NameSet))
        requires
            self@.stack.len() == 1,
        ensures
            prog_view(r.0@) == self@.stack[0].items,
            prog_view(r.1@) == self@.out,
            r.2@ == self@.stack[0].aliases,
    {
        let mut stack = self.stack;
        assert(self@.stack[0] == stack@[0]@);
        let l = stack.swap_remove(0);
        (l.items, self.out, l.aliases)
    }
}

/// What is said of a module that cannot be read.
pub open spec fn unreadable(module: Seq<char>, path: Seq<char>, why: Seq<char>) -> Seq<char> {
    "cannot read module '"@ + module + "' ("@ + path + "): "@ + why
}

/// The error for a module that cannot be read.
pub fn read_error(module: &str, path: &str, why: &str) -> (r: CompileError)
    ensures
        r is Import && r->Import_0@ == unreadable(module@, path@, why@),
{
    let mut m = "cannot read module '".to_owned();
    m.append(module);
    m.append("' (");
    m.append(path);
    m.append("): ");
    m.append(why);
    CompileError::Import(m)
}

/// No file is read twice.
pub proof fn files_are_read_once(s: ResolverView, place: int)
    requires
        s.visited.no_duplicates(),
    ensures
        s.answered(place).visited.no_duplicates(),
        s.settled().visited == s.visited,
{
    settling_keeps_visited(s);
    let p = s.places()[place];
    if !s.visited.contains(p) {
        let v = s.visited.push(p);
        assert forall|i: int, j: int|
            0 <= i < v.len() && 0 <= j < v.len() && i != j implies v[i] != v[j] by {
            if i < s.visited.len() && j < s.visited.len() {
                assert(s.visited[i] != s.visited[j]);
            } else if i < s.visited.len() {
                assert(s.visited.contains(s.visited[i]));
            } else {
                assert(s.visited.contains(s.visited[j]));
            }
        }
    }
}

proof fn settling_keeps_visited(s: ResolverView)
    ensures
        s.settled().visited == s.visited,
    decreases
            s.stack.len(),
            (if s.stack.len() > 0 {
                s.stack.last().items.len() - s.stack.last().next
            } else {
                0
            }),
{
    if s.stack.len() > 0 {
        let top = s.stack.last();
        if top.next < top.items.len() {
            if !asks(top.items[top.next as int]) {
                settling_keeps_visited(s.with_top(LevelView { next: top.next + 1, ..top }));
            }
        } else if s.stack.len() > 1 {
            settling_keeps_visited(
                ResolverView {
                    stack: s.stack.drop_last(),
                    out: s.out + shared_items(top.items, top.aliases),
                    ..s
                },
            );
        }
    }
}

/// What the modules from `k` on hand out, the innermost first.
pub open spec fn handed_out(s: Seq<LevelView>, k: int) -> Seq<ItemView>
    decreases s.len(),
{
    if k >= s.len() || s.len() == 0 {
        Seq::empty()
    } else {
        shared_items(s.last().items, s.last().aliases) + handed_out(s.drop_last(), k)
    }
}

/// A module's own imports come before its items: going on only adds what finished modules
/// hand out, always the innermost first, and leaves those that are still being read.
pub proof fn imports_come_first(s: ResolverView)
    requires
        s.stack.len() > 0,
    ensures
        1 <= s.settled().stack.len() <= s.stack.len(),
        s.settled().out == s.out + handed_out(s.stack, s.settled().stack.len() as int),
    decreases
            s.stack.len(),
            s.stack.last().items.len() - s.stack.last().next,
{
    let top = s.stack.last();
    let n = s.settled().stack.len() as int;
    if top.next < top.items.len() {
        if asks(top.items[top.next as int]) {
            assert(s.out + handed_out(s.stack, n) =~= s.out);
        } else {
            let t = s.with_top(LevelView { next: top.next + 1, ..top });
            imports_come_first(t);
            assert(t.stack.drop_last() =~= s.stack.drop_last());
        }
    } else if s.stack.len() == 1 {
        assert(s.out + handed_out(s.stack, n) =~= s.out);
    } else {
        let t = ResolverView {
            stack: s.stack.drop_last(),
            out: s.out + shared_items(top.items, top.aliases),
            ..s
        };
        imports_come_first(t);
        assert(s.out + handed_out(s.stack, n) =~= t.out + handed_out(t.stack, n));
    }
}

} // verus!
