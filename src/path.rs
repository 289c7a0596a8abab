//! Lexical path algebra over Unix-style path strings.
//!
//! A path is viewed as its sequence of components, each written as text:
//! `"/"` for the root, `"."` for a leading current-directory marker,
//! `".."` for a parent step and the name itself otherwise. Nothing here
//! touches the filesystem.
use vstd::prelude::*;

verus! {

/// The text of the root component.
pub open spec fn root() -> Seq<char> {
    seq!['/']
}

/// The text of the current-directory component.
pub open spec fn cur() -> Seq<char> {
    seq!['.']
}

/// The text of the parent-directory component.
pub open spec fn parent() -> Seq<char> {
    seq!['.', '.']
}

/// Splitting `s` at every `'/'`: the finished pieces and the piece in progress.
pub open spec fn scan(s: Seq<char>) -> (Seq<Seq<char>>, Seq<char>)
    decreases s.len(),
{
    if s.len() == 0 {
        (seq![], seq![])
    } else {
        let (done, piece) = scan(s.drop_last());
        if s.last() == '/' {
            (done.push(piece), seq![])
        } else {
            (done, piece.push(s.last()))
        }
    }
}

/// The pieces of `s` between separators, empty ones included.
pub open spec fn segments(s: Seq<char>) -> Seq<Seq<char>> {
    scan(s).0.push(scan(s).1)
}

pub open spec fn is_absolute(s: Seq<char>) -> bool {
    s.len() > 0 && s[0] == '/'
}

/// The pieces that stand as components after the first one: empty pieces
/// and interior `"."` pieces are dropped.
pub open spec fn keep(segs: Seq<Seq<char>>) -> Seq<Seq<char>>
    decreases segs.len(),
{
    if segs.len() == 0 {
        seq![]
    } else {
        let rest = keep(segs.drop_last());
        let x = segs.last();
        if x.len() == 0 || x == cur() {
            rest
        } else {
            rest.push(x)
        }
    }
}

/// The components of a path, as `std::path::Path::components` gives them on Unix.
pub open spec fn components(s: Seq<char>) -> Seq<Seq<char>> {
    let segs = segments(s);
    let head = if is_absolute(s) {
        seq![root()]
    } else if segs[0] == cur() {
        seq![cur()]
    } else {
        seq![]
    };
    head + keep(segs)
}

/// The path that pushing each component in turn onto an empty path builds.
pub open spec fn join_comps(cs: Seq<Seq<char>>) -> Seq<char>
    decreases cs.len(),
{
    if cs.len() == 0 {
        seq![]
    } else {
        let p = join_comps(cs.drop_last());
        let c = cs.last();
        if p.len() == 0 {
            c
        } else if p.last() == '/' {
            p + c
        } else {
            p + seq!['/'] + c
        }
    }
}

/// One step of lexical cleaning: `".."` pops the last pushed component
/// (a no-op on an empty accumulator or at the root), `"."` is skipped and
/// anything else is pushed.
pub open spec fn clean_step(acc: Seq<Seq<char>>, c: Seq<char>) -> Seq<Seq<char>> {
    if c == parent() {
        if acc.len() > 0 && acc.last() != root() {
            acc.drop_last()
        } else {
            acc
        }
    } else if c == cur() {
        acc
    } else {
        acc.push(c)
    }
}

/// Cleaning the components `cs`, starting from the accumulator `acc`.
pub open spec fn clean_from(acc: Seq<Seq<char>>, cs: Seq<Seq<char>>) -> Seq<Seq<char>>
    decreases cs.len(),
{
    if cs.len() == 0 {
        acc
    } else {
        clean_step(clean_from(acc, cs.drop_last()), cs.last())
    }
}

pub open spec fn clean_comps(cs: Seq<Seq<char>>) -> Seq<Seq<char>> {
    clean_from(seq![], cs)
}

/// The lexically cleaned form of a path.
pub open spec fn clean(p: Seq<char>) -> Seq<char> {
    join_comps(clean_comps(components(p)))
}

/// The texts that a vector of strings holds.
pub open spec fn texts(v: Seq<String>) -> Seq<Seq<char>> {
    v.map_values(|x: String| x@)
}

/// The components of `base` without its last one, unless that is the root:
/// the directory of `base` taken as a file path (or `base` itself where it
/// has no parent).
pub open spec fn dir_components(base: Seq<char>) -> Seq<Seq<char>> {
    let cs = components(base);
    if cs.len() > 0 && cs.last() != root() {
        cs.drop_last()
    } else {
        cs
    }
}

/// The components that resolving `path` from the file `base` cleans: those of
/// `path` alone where it is absolute, else those of the directory of `base`
/// followed by those of `path`.
pub open spec fn resolution_components(path: Seq<char>, base: Seq<char>) -> Seq<Seq<char>> {
    if is_absolute(path) {
        components(path)
    } else {
        dir_components(base) + components(path)
    }
}

/// `path` resolved against the file `base` and lexically cleaned.
pub open spec fn resolve(path: Seq<char>, base: Seq<char>) -> Seq<char> {
    join_comps(clean_comps(resolution_components(path, base)))
}

/// `child` is absolute and its components extend those of `parent_dir` by at
/// least one.
pub open spec fn is_child(parent_dir: Seq<char>, child: Seq<char>) -> bool {
    let pc = components(parent_dir);
    let cc = components(child);
    is_absolute(child) && cc.len() > pc.len() && cc.subrange(0, pc.len() as int) == pc
}

/// `prefix` is a leading part of `cs`.
pub open spec fn is_prefix(prefix: Seq<Seq<char>>, cs: Seq<Seq<char>>) -> bool {
    prefix.len() <= cs.len() && cs.subrange(0, prefix.len() as int) == prefix
}

/// What is left of `file_path` once the components of `cwd` are stripped
/// from its front, if they are a prefix of its components.
pub open spec fn truncated(file_path: Seq<char>, cwd: Option<Seq<char>>) -> Option<Seq<char>> {
    match cwd {
        Some(c) => {
            let pc = components(c);
            let fc = components(file_path);
            if is_prefix(pc, fc) {
                Some(join_comps(fc.subrange(pc.len() as int, fc.len() as int)))
            } else {
                None
            }
        },
        None => None,
    }
}

/// The text of an optional string.
pub open spec fn text_of(o: Option<&str>) -> Option<Seq<char>> {
    match o {
        Some(c) => Some(c@),
        None => None,
    }
}

/// `file_path` relative to the working directory `cwd` where it lies below
/// it, and unchanged otherwise.
pub open spec fn relativize(file_path: Seq<char>, cwd: Option<Seq<char>>) -> Seq<char> {
    match cwd {
        Some(c) => if is_child(c, file_path) {
            truncated(file_path, cwd).unwrap()
        } else {
            file_path
        },
        None => file_path,
    }
}

fn is_root_text(s: &str) -> (r: bool)
    ensures
        r == (s@ == root()),
{
    if s.unicode_len() != 1 {
        return false;
    }
    let c = s.get_char(0);
    if c == '/' {
        assert(s@ =~= root());
        true
    } else {
        false
    }
}

fn is_parent_text(s: &str) -> (r: bool)
    ensures
        r == (s@ == parent()),
{
    if s.unicode_len() != 2 {
        return false;
    }
    let c0 = s.get_char(0);
    let c1 = s.get_char(1);
    if c0 == '.' && c1 == '.' {
        assert(s@ =~= parent());
        true
    } else {
        false
    }
}

fn root_text() -> (r: String)
    ensures
        r@ == root(),
{
    proof {
        reveal_strlit("/");
    }
    let r = String::from_str("/");
    assert(r@ =~= root());
    r
}

fn cur_text() -> (r: String)
    ensures
        r@ == cur(),
{
    proof {
        reveal_strlit(".");
    }
    let r = String::from_str(".");
    assert(r@ =~= cur());
    r
}

fn is_cur_text(s: &str) -> (r: bool)
    ensures
        r == (s@ == cur()),
{
    if s.unicode_len() != 1 {
        return false;
    }
    let c = s.get_char(0);
    if c == '.' {
        assert(s@ =~= cur());
        true
    } else {
        false
    }
}

/// Splits `s` at every `'/'`.
fn split_segments(s: &str) -> (r: Vec<String>)
    ensures
        r@.map_values(|x: String| x@) == segments(s@),
{
    let n = s.unicode_len();
    let mut done: Vec<String> = Vec::new();
    let mut start: usize = 0;
    let mut i: usize = 0;
    while i < n
        invariant
            n == s@.len(),
            start <= i <= n,
            done@.map_values(|x: String| x@) == scan(s@.subrange(0, i as int)).0,
            s@.subrange(start as int, i as int) == scan(s@.subrange(0, i as int)).1,
        decreases n - i,
    {
        let c = s.get_char(i);
        proof {
            assert(s@.subrange(0, i + 1).drop_last() =~= s@.subrange(0, i as int));
        }
        if c == '/' {
            let piece = String::from_str(s.substring_char(start, i));
            done.push(piece);
            start = i + 1;
            proof {
                assert(s@.subrange(start as int, i + 1) =~= seq![]);
            }
        } else {
            proof {
                assert(s@.subrange(start as int, i + 1) =~= s@.subrange(start as int, i as int).push(c));
            }
        }
        i = i + 1;
    }
    let last = String::from_str(s.substring_char(start, n));
    done.push(last);
    proof {
        assert(s@.subrange(0, n as int) =~= s@);
    }
    assert(done@.map_values(|x: String| x@) =~= segments(s@));
    done
}

/// The components of `s`, as `std::path::Path::components` yields them on Unix.
pub fn components_of(s: &str) -> (r: Vec<String>)
    ensures
        texts(r@) == components(s@),
{
    let segs = split_segments(s);
    let ghost sv = texts(segs@);
    assert(segs@.len() > 0) by {
        assert(sv.len() == segs@.len());
    }
    let mut out: Vec<String> = Vec::new();
    let n = s.unicode_len();
    if n > 0 && s.get_char(0) == '/' {
        out.push(root_text());
    } else if is_cur_text(segs[0].as_str()) {
        out.push(cur_text());
    }
    let ghost head = texts(out@);
    assert(head + keep(sv.subrange(0, 0)) =~= head);
    let mut j: usize = 0;
    while j < segs.len()
        invariant
            sv == texts(segs@),
            sv == segments(s@),
            j <= segs.len(),
            texts(out@) == head + keep(sv.subrange(0, j as int)),
        decreases segs.len() - j,
    {
        proof {
            assert(sv.subrange(0, j + 1).drop_last() =~= sv.subrange(0, j as int));
        }
        let piece = &segs[j];
        assert(sv[j as int] == piece@);
        assert(sv.subrange(0, j + 1).last() == piece@);
        if piece.unicode_len() > 0 && !is_cur_text(piece.as_str()) {
            let ghost before = out@;
            out.push(piece.clone());
            assert(texts(out@) =~= texts(before).push(piece@));
            assert(texts(out@) =~= head + keep(sv.subrange(0, j + 1)));
        } else {
            assert(texts(out@) =~= head + keep(sv.subrange(0, j + 1)));
        }
        j = j + 1;
    }
    assert(sv.subrange(0, sv.len() as int) =~= sv);
    out
}

/// The path that pushing each of `cs` in turn onto an empty path builds.
pub fn join_components(cs: &Vec<String>) -> (r: String)
    ensures
        r@ == join_comps(texts(cs@)),
{
    let ghost cv = texts(cs@);
    let mut out = String::new();
    let mut j: usize = 0;
    while j < cs.len()
        invariant
            cv == texts(cs@),
            j <= cs.len(),
            out@ == join_comps(cv.subrange(0, j as int)),
        decreases cs.len() - j,
    {
        proof {
            assert(cv.subrange(0, j + 1).drop_last() =~= cv.subrange(0, j as int));
        }
        let c = cs[j].as_str();
        let len = out.unicode_len();
        if len == 0 {
            out.append(c);
            assert(out@ =~= c@);
        } else if out.as_str().get_char(len - 1) == '/' {
            out.append(c);
        } else {
            proof {
                reveal_strlit("/");
            }
            out.append("/");
            out.append(c);
        }
        j = j + 1;
    }
    assert(cv.subrange(0, cv.len() as int) =~= cv);
    out
}

/// Lexically cleans the components `cs`.
fn clean_components(cs: &Vec<String>) -> (r: Vec<String>)
    ensures
        texts(r@) == clean_comps(texts(cs@)),
{
    let ghost cv = texts(cs@);
    let mut acc: Vec<String> = Vec::new();
    let mut j: usize = 0;
    assert(texts(acc@) =~= seq![]);
    while j < cs.len()
        invariant
            cv == texts(cs@),
            j <= cs.len(),
            texts(acc@) == clean_from(seq![], cv.subrange(0, j as int)),
        decreases cs.len() - j,
    {
        proof {
            assert(cv.subrange(0, j + 1).drop_last() =~= cv.subrange(0, j as int));
        }
        let c = &cs[j];
        if is_parent_text(c.as_str()) {
            let n = acc.len();
            if n > 0 && !is_root_text(acc[n - 1].as_str()) {
                acc.pop();
                assert(texts(acc@) =~= clean_from(seq![], cv.subrange(0, j + 1)));
            }
        } else if is_cur_text(c.as_str()) {
        } else {
            acc.push(c.clone());
            assert(texts(acc@) =~= clean_from(seq![], cv.subrange(0, j + 1)));
        }
        j = j + 1;
    }
    assert(cv.subrange(0, cv.len() as int) =~= cv);
    acc
}

/// The lexically cleaned form of `p`: `".."` pops the last component (a
/// no-op where none is left, or at the root), `"."` is dropped.
pub fn clean_path(p: &str) -> (r: String)
    ensures
        r@ == clean(p@),
{
    let cs = components_of(p);
    let cleaned = clean_components(&cs);
    join_components(&cleaned)
}

/// Resolves `path` against the file `current_file`: a relative `path` is
/// joined to the directory of `current_file` (to `current_file` itself where it
/// has no parent), an absolute one replaces it; the result is then lexically
/// cleaned. The filesystem is not consulted, so targets need not exist, and a
/// relative `current_file` gives a relative result.
pub fn join_and_canonicalize(path: &str, current_file: &str) -> (r: String)
    ensures
        r@ == resolve(path@, current_file@),
{
    let path_comps = components_of(path);
    let ghost pv = texts(path_comps@);
    let n = path.unicode_len();
    let mut joined: Vec<String>;
    if n > 0 && path.get_char(0) == '/' {
        joined = path_comps;
    } else {
        joined = components_of(current_file);
        let m = joined.len();
        if m > 0 && !is_root_text(joined[m - 1].as_str()) {
            joined.pop();
            assert(texts(joined@) =~= dir_components(current_file@));
        }
        let ghost dir = texts(joined@);
        assert(dir + pv.subrange(0, 0) =~= dir);
        let mut j: usize = 0;
        while j < path_comps.len()
            invariant
                pv == texts(path_comps@),
                j <= path_comps.len(),
                texts(joined@) == dir + pv.subrange(0, j as int),
            decreases path_comps.len() - j,
        {
            let ghost before = joined@;
            joined.push(path_comps[j].clone());
            assert(texts(joined@) =~= texts(before).push(path_comps@[j as int]@));
            assert(dir + pv.subrange(0, j + 1) =~= (dir + pv.subrange(0, j as int)).push(pv[j as int]));
            j = j + 1;
        }
        assert(pv.subrange(0, pv.len() as int) =~= pv);
    }
    let cleaned = clean_components(&joined);
    join_components(&cleaned)
}

/// Whether `child` is absolute and lies strictly below `parent_dir`,
/// component by component.
pub fn is_child_path(parent_dir: &str, child: &str) -> (r: bool)
    ensures
        r == is_child(parent_dir@, child@),
{
    let n = child.unicode_len();
    if n == 0 || child.get_char(0) != '/' {
        return false;
    }
    let pc = components_of(parent_dir);
    let cc = components_of(child);
    let ghost pv = texts(pc@);
    let ghost cv = texts(cc@);
    if cc.len() <= pc.len() {
        return false;
    }
    let mut i: usize = 0;
    while i < pc.len()
        invariant
            pv == texts(pc@),
            cv == texts(cc@),
            pv == components(parent_dir@),
            cv == components(child@),
            pv.len() == pc.len(),
            cv.len() == cc.len(),
            pc.len() < cc.len(),
            i <= pc.len(),
            forall|k: int| 0 <= k < i ==> #[trigger] pv[k] == cv[k],
        decreases pc.len() - i,
    {
        assert(pv[i as int] == pc@[i as int]@ && cv[i as int] == cc@[i as int]@);
        if !(pc[i] == cc[i]) {
            assert(cv.subrange(0, pv.len() as int)[i as int] != pv[i as int]);
            return false;
        }
        i = i + 1;
    }
    assert(cv.subrange(0, pv.len() as int) =~= pv);
    true
}

/// The part of `file_path` below the working directory `cwd`: `None` where no
/// working directory is known or its components are not a prefix of those of
/// `file_path`.
pub fn truncate_cwd(file_path: &str, cwd: Option<&str>) -> (r: Option<String>)
    ensures
        r matches Some(t) ==> truncated(file_path@, text_of(cwd)) == Some(t@),
        r is None ==> truncated(file_path@, text_of(cwd)) is None,
{
    let current_dir = match cwd {
        Some(c) => c,
        None => return None,
    };
    let pc = components_of(current_dir);
    let fc = components_of(file_path);
    let ghost pv = texts(pc@);
    let ghost fv = texts(fc@);
    if pc.len() > fc.len() {
        return None;
    }
    let mut i: usize = 0;
    while i < pc.len()
        invariant
            pv == texts(pc@),
            fv == texts(fc@),
            pv == components(current_dir@),
            fv == components(file_path@),
            cwd == Some(current_dir),
            pv.len() == pc.len(),
            fv.len() == fc.len(),
            pc.len() <= fc.len(),
            i <= pc.len(),
            forall|k: int| 0 <= k < i ==> #[trigger] pv[k] == fv[k],
        decreases pc.len() - i,
    {
        assert(pv[i as int] == pc@[i as int]@ && fv[i as int] == fc@[i as int]@);
        if !(pc[i] == fc[i]) {
            assert(fv.subrange(0, pv.len() as int)[i as int] != pv[i as int]);
            return None;
        }
        i = i + 1;
    }
    assert(fv.subrange(0, pv.len() as int) =~= pv);
    let mut rest: Vec<String> = Vec::new();
    let mut j: usize = pc.len();
    assert(texts(rest@) =~= fv.subrange(pv.len() as int, j as int));
    while j < fc.len()
        invariant
            fv == texts(fc@),
            pc.len() <= j <= fc.len(),
            texts(rest@) == fv.subrange(pc.len() as int, j as int),
        decreases fc.len() - j,
    {
        let ghost before = rest@;
        rest.push(fc[j].clone());
        assert(texts(rest@) =~= texts(before).push(fc@[j as int]@));
        assert(fv.subrange(pc.len() as int, j + 1) =~= fv.subrange(pc.len() as int, j as int).push(fv[j as int]));
        j = j + 1;
    }
    Some(join_components(&rest))
}

/// `file_path` made relative to the working directory `cwd` where it lies
/// below it, and unchanged otherwise (also where no working directory is
/// known). The result is always `Some`.
pub fn get_relative_path_under_cwd(file_path: &str, cwd: Option<&str>) -> (r: Option<String>)
    ensures
        r matches Some(t) && t@ == relativize(file_path@, text_of(cwd)),
{
    if let Some(current_dir) = cwd {
        if is_child_path(current_dir, file_path) {
            return truncate_cwd(file_path, cwd);
        }
    }
    Some(String::from_str(file_path))
}

} // verus!
