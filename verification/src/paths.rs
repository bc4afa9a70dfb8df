//! A model of slash-separated file-system paths.
//!
//! A path is a character sequence; its components are the non-empty pieces between
//! `/` separators other than `.`, preceded by a `.` component when a relative path starts
//! with one; it is absolute when it starts with `/`.
//! Operations follow the behaviour of `std::path::Path` on such paths.
use vstd::prelude::*;
use crate::text::{append_chars, chars_of, concat, seq_eq, slice_chars, string_of};

verus! {

/// The raw `/`-separated pieces of `s`, empty pieces included.
pub open spec fn raw_segments(s: Seq<char>) -> Seq<Seq<char>>
    decreases s.len(),
{
    if s.len() == 0 {
        seq![Seq::empty()]
    } else {
        let r = raw_segments(s.drop_last());
        if s.last() == '/' {
            r.push(Seq::empty())
        } else {
            r.update(r.len() - 1, r.last().push(s.last()))
        }
    }
}

pub open spec fn is_component(seg: Seq<char>) -> bool {
    seg.len() > 0 && seg != seq!['.']
}

/// The components of a path after its start: the non-empty pieces other than `.`.
pub open spec fn body_components(s: Seq<char>) -> Seq<Seq<char>> {
    raw_segments(s).filter(|seg: Seq<char>| is_component(seg))
}

/// A relative path that starts with a `.` piece (`.` alone or `./...`): std keeps that `.`
/// as the path's first component.
pub open spec fn leads_with_cur_dir(s: Seq<char>) -> bool {
    s.len() > 0 && s[0] == '.' && (s.len() == 1 || s[1] == '/')
}

/// The components of a path.
pub open spec fn components(s: Seq<char>) -> Seq<Seq<char>> {
    if leads_with_cur_dir(s) {
        seq![seq!['.']] + body_components(s)
    } else {
        body_components(s)
    }
}

pub open spec fn is_absolute(s: Seq<char>) -> bool {
    s.len() > 0 && s[0] == '/'
}

/// The views of a vector of character vectors.
pub open spec fn views(v: Seq<Vec<char>>) -> Seq<Seq<char>> {
    v.map_values(|x: Vec<char>| x@)
}

/// Components joined with `/`.
pub open spec fn join_segments(c: Seq<Seq<char>>) -> Seq<char>
    decreases c.len(),
{
    if c.len() == 0 {
        Seq::empty()
    } else if c.len() == 1 {
        c[0]
    } else {
        join_segments(c.drop_last()) + seq!['/'] + c.last()
    }
}

/// The canonical text of a path with the given root flag and components.
pub open spec fn render(absolute: bool, c: Seq<Seq<char>>) -> Seq<char> {
    if absolute {
        seq!['/'] + join_segments(c)
    } else {
        join_segments(c)
    }
}

/// `PathBuf::push`: an absolute `rel` replaces `base`, otherwise it is appended with a
/// separator where one is missing.
pub open spec fn spec_join(base: Seq<char>, rel: Seq<char>) -> Seq<char> {
    if is_absolute(rel) {
        rel
    } else if base.len() == 0 || base.last() == '/' {
        base + rel
    } else {
        base + seq!['/'] + rel
    }
}

/// The final component, unless it is `.`, `..` or absent.
pub open spec fn spec_file_name(s: Seq<char>) -> Option<Seq<char>> {
    let c = components(s);
    if c.len() > 0 && c.last() != seq!['.', '.'] && c.last() != seq!['.'] {
        Some(c.last())
    } else {
        None
    }
}

/// The path without its final component.
pub open spec fn spec_parent(s: Seq<char>) -> Option<Seq<char>> {
    let c = components(s);
    if c.len() > 0 {
        Some(render(is_absolute(s), c.drop_last()))
    } else {
        None
    }
}

pub open spec fn is_prefix_of(p: Seq<Seq<char>>, q: Seq<Seq<char>>) -> bool {
    p.len() <= q.len() && q.subrange(0, p.len() as int) == p
}

/// `Path::strip_prefix`: the remainder of `path` after the components of `base`.
pub open spec fn spec_strip_prefix(path: Seq<char>, base: Seq<char>) -> Option<Seq<char>> {
    let cp = components(path);
    let cb = components(base);
    if is_absolute(path) == is_absolute(base) && is_prefix_of(cb, cp) {
        Some(render(false, cp.skip(cb.len() as int)))
    } else {
        None
    }
}

/// Index of the last `.` before position `j`, or -1.
pub open spec fn last_dot(s: Seq<char>, j: int) -> int
    decreases j,
{
    if j <= 0 || j > s.len() {
        -1
    } else if s[j - 1] == '.' {
        j - 1
    } else {
        last_dot(s, j - 1)
    }
}

/// The extension of a file name: the text after its last `.`, unless that dot leads the name.
pub open spec fn name_extension(n: Seq<char>) -> Option<Seq<char>> {
    let d = last_dot(n, n.len() as int);
    if n == seq!['.', '.'] || d <= 0 {
        None
    } else {
        Some(n.subrange(d + 1, n.len() as int))
    }
}

/// The stem of a file name: the text before its extension.
pub open spec fn name_stem(n: Seq<char>) -> Seq<char> {
    let d = last_dot(n, n.len() as int);
    if n == seq!['.', '.'] || d <= 0 {
        n
    } else {
        n.subrange(0, d)
    }
}

pub open spec fn spec_extension(s: Seq<char>) -> Option<Seq<char>> {
    match spec_file_name(s) {
        Some(n) => name_extension(n),
        None => None,
    }
}

pub open spec fn spec_file_stem(s: Seq<char>) -> Option<Seq<char>> {
    match spec_file_name(s) {
        Some(n) => Some(name_stem(n)),
        None => None,
    }
}

/// `Path::with_file_name`.
pub open spec fn spec_with_file_name(s: Seq<char>, name: Seq<char>) -> Seq<char> {
    match spec_file_name(s) {
        Some(_) => spec_join(spec_parent(s).unwrap(), name),
        None => spec_join(s, name),
    }
}

proof fn lemma_raw_segments_nonempty(s: Seq<char>)
    ensures
        raw_segments(s).len() >= 1,
    decreases s.len(),
{
    if s.len() > 0 {
        lemma_raw_segments_nonempty(s.drop_last());
    }
}

/// The components of `p`.
pub fn path_components(p: &[char]) -> (out: Vec<Vec<char>>)
    ensures
        views(out@) == components(p@),
{
    let body = body_path_components(p);
    let leads = p.len() > 0 && p[0] == '.' && (p.len() == 1 || p[1] == '/');
    if !leads {
        return body;
    }
    let mut out: Vec<Vec<char>> = Vec::new();
    let dot = vec!['.'];
    assert(dot@ =~= seq!['.']);
    out.push(dot);
    let mut i: usize = 0;
    assert(views(out@) =~= seq![seq!['.']]);
    assert(views(body@).take(0) =~= Seq::<Seq<char>>::empty());
    while i < body.len()
        invariant
            i <= body@.len(),
            views(out@) == seq![seq!['.']] + views(body@).take(i as int),
        decreases body@.len() - i,
    {
        let piece = slice_chars(body[i].as_slice(), 0, body[i].len());
        assert(piece@ =~= body@[i as int]@);
        let ghost old_out = out@;
        out.push(piece);
        assert(views(out@) =~= views(old_out).push(piece@));
        assert(views(body@).take(i + 1) =~= views(body@).take(i as int).push(body@[i as int]@));
        assert(views(out@) =~= seq![seq!['.']] + views(body@).take(i + 1));
        i = i + 1;
    }
    assert(views(body@).take(i as int) =~= views(body@));
    out
}

/// The components of `p` after its start.
fn body_path_components(p: &[char]) -> (out: Vec<Vec<char>>)
    ensures
        views(out@) == body_components(p@),
{
    let mut out: Vec<Vec<char>> = Vec::new();
    let mut cur: Vec<char> = Vec::new();
    let mut i: usize = 0;
    let ghost comp = |seg: Seq<char>| is_component(seg);
    proof {
        assert(p@.take(0) =~= Seq::<char>::empty());
        assert(raw_segments(p@.take(0)).drop_last() =~= Seq::<Seq<char>>::empty());
        assert(views(out@) =~= Seq::<Seq<char>>::empty());
    }
    while i < p.len()
        invariant
            i <= p@.len(),
            comp == (|seg: Seq<char>| is_component(seg)),
            raw_segments(p@.take(i as int)).len() >= 1,
            cur@ == raw_segments(p@.take(i as int)).last(),
            views(out@) == raw_segments(p@.take(i as int)).drop_last().filter(comp),
        decreases p@.len() - i,
    {
        let c = p[i];
        let ghost r = raw_segments(p@.take(i as int));
        proof {
            assert(p@.take(i + 1).drop_last() =~= p@.take(i as int));
            assert(p@.take(i + 1).last() == c);
            assert(r.drop_last().push(r.last()) =~= r);
            r.drop_last().lemma_filter_push(r.last(), comp);
        }
        if c == '/' {
            let ghost old_out = out@;
            if is_component_exec(&cur) {
                out.push(cur);
                proof {
                    assert(views(out@) =~= views(old_out).push(r.last()));
                }
            }
            cur = Vec::new();
            proof {
                let r2 = raw_segments(p@.take(i + 1));
                assert(r2 == r.push(Seq::empty()));
                assert(r2.drop_last() =~= r);
                assert(cur@ =~= r2.last());
            }
        } else {
            cur.push(c);
            proof {
                let r2 = raw_segments(p@.take(i + 1));
                assert(r2 == r.update(r.len() - 1, r.last().push(c)));
                assert(r2.drop_last() =~= r.drop_last());
            }
        }
        i = i + 1;
    }
    proof {
        let r = raw_segments(p@.take(i as int));
        assert(p@.take(i as int) =~= p@);
        assert(r.drop_last().push(r.last()) =~= r);
        r.drop_last().lemma_filter_push(r.last(), comp);
    }
    let ghost old_out = out@;
    if is_component_exec(&cur) {
        out.push(cur);
        assert(views(out@) =~= views(old_out).push(raw_segments(p@).last()));
    }
    out
}

fn is_component_exec(seg: &Vec<char>) -> (b: bool)
    ensures
        b == is_component(seg@),
{
    if seg.len() == 0 {
        return false;
    }
    let r = !(seg.len() == 1 && seg[0] == '.');
    proof {
        if seg@.len() == 1 && seg@[0] == '.' {
            assert(seg@ =~= seq!['.']);
        }
    }
    r
}

/// Components joined with `/`.
pub fn join_with_slash(c: &[Vec<char>]) -> (out: Vec<char>)
    ensures
        out@ == join_segments(views(c@)),
{
    if c.len() == 0 {
        return Vec::new();
    }
    let mut out = slice_chars(c[0].as_slice(), 0, c[0].len());
    let mut i: usize = 1;
    proof {
        assert(views(c@).take(1) =~= seq![c@[0]@]);
    }
    while i < c.len()
        invariant
            1 <= i <= c@.len(),
            out@ == join_segments(views(c@).take(i as int)),
        decreases c@.len() - i,
    {
        out.push('/');
        append_chars(&mut out, c[i].as_slice());
        proof {
            let t = views(c@).take(i + 1);
            assert(t.drop_last() =~= views(c@).take(i as int));
            assert(t.last() == c@[i as int]@);
        }
        i = i + 1;
    }
    assert(views(c@).take(i as int) =~= views(c@));
    out
}

/// The canonical text of a path with the given root flag and components.
pub fn render_path(absolute: bool, c: &[Vec<char>]) -> (out: Vec<char>)
    ensures
        out@ == render(absolute, views(c@)),
{
    let joined = join_with_slash(c);
    if absolute {
        let mut out = vec!['/'];
        append_chars(&mut out, joined.as_slice());
        assert(out@ =~= seq!['/'] + joined@);
        out
    } else {
        joined
    }
}

pub fn path_is_absolute(p: &[char]) -> (b: bool)
    ensures
        b == is_absolute(p@),
{
    p.len() > 0 && p[0] == '/'
}

/// `base` joined with `rel`.
pub fn join_chars(base: &[char], rel: &[char]) -> (out: Vec<char>)
    ensures
        out@ == spec_join(base@, rel@),
{
    if path_is_absolute(rel) {
        slice_chars(rel, 0, rel.len())
    } else if base.len() == 0 || base[base.len() - 1] == '/' {
        concat(base, rel)
    } else {
        let mut out = slice_chars(base, 0, base.len());
        out.push('/');
        append_chars(&mut out, rel);
        out
    }
}

/// `base` joined with `rel`, as strings.
pub fn join(base: &str, rel: &str) -> (out: String)
    ensures
        out@ == spec_join(base@, rel@),
{
    let b = chars_of(base);
    let r = chars_of(rel);
    let j = join_chars(b.as_slice(), r.as_slice());
    string_of(j.as_slice())
}

pub fn file_name_chars(p: &[char]) -> (out: Option<Vec<char>>)
    ensures
        match out {
            Some(n) => spec_file_name(p@) == Some(n@),
            None => spec_file_name(p@) is None,
        },
{
    let mut c = path_components(p);
    if c.len() == 0 {
        return None;
    }
    let last = c.pop().unwrap();
    proof {
        assert(views(c@.push(last)).last() == last@);
    }
    let dotdot = vec!['.', '.'];
    let dot = vec!['.'];
    assert(dot@ =~= seq!['.']);
    assert(dotdot@ =~= seq!['.', '.']);
    if seq_eq(last.as_slice(), dotdot.as_slice()) || seq_eq(last.as_slice(), dot.as_slice()) {
        None
    } else {
        Some(last)
    }
}

/// `Path::file_name`.
pub fn file_name(p: &str) -> (out: Option<String>)
    ensures
        match out {
            Some(n) => spec_file_name(p@) == Some(n@),
            None => spec_file_name(p@) is None,
        },
{
    let chars = chars_of(p);
    match file_name_chars(chars.as_slice()) {
        Some(n) => Some(string_of(n.as_slice())),
        None => None,
    }
}

pub fn parent_chars(p: &[char]) -> (out: Option<Vec<char>>)
    ensures
        match out {
            Some(q) => spec_parent(p@) == Some(q@),
            None => spec_parent(p@) is None,
        },
{
    let mut c = path_components(p);
    if c.len() == 0 {
        return None;
    }
    let ghost full = c@;
    c.pop();
    proof {
        assert(views(c@) =~= views(full).drop_last());
    }
    Some(render_path(path_is_absolute(p), c.as_slice()))
}

/// `Path::parent`.
pub fn parent(p: &str) -> (out: Option<String>)
    ensures
        match out {
            Some(q) => spec_parent(p@) == Some(q@),
            None => spec_parent(p@) is None,
        },
{
    let chars = chars_of(p);
    match parent_chars(chars.as_slice()) {
        Some(q) => Some(string_of(q.as_slice())),
        None => None,
    }
}

fn components_prefix(cb: &[Vec<char>], cp: &[Vec<char>]) -> (b: bool)
    ensures
        b == is_prefix_of(views(cb@), views(cp@)),
{
    if cb.len() > cp.len() {
        return false;
    }
    let mut i: usize = 0;
    while i < cb.len()
        invariant
            i <= cb@.len(),
            cb@.len() <= cp@.len(),
            forall|k: int| 0 <= k < i ==> cb@[k]@ == cp@[k]@,
        decreases cb@.len() - i,
    {
        if !seq_eq(cb[i].as_slice(), cp[i].as_slice()) {
            assert(views(cp@).subrange(0, views(cb@).len() as int)[i as int] != views(cb@)[i as int]);
            return false;
        }
        i = i + 1;
    }
    assert(views(cp@).subrange(0, views(cb@).len() as int) =~= views(cb@));
    true
}

pub fn strip_prefix_chars(path: &[char], base: &[char]) -> (out: Option<Vec<char>>)
    ensures
        match out {
            Some(r) => spec_strip_prefix(path@, base@) == Some(r@),
            None => spec_strip_prefix(path@, base@) is None,
        },
{
    let cp = path_components(path);
    let cb = path_components(base);
    if path_is_absolute(path) != path_is_absolute(base) || !components_prefix(cb.as_slice(), cp.as_slice()) {
        return None;
    }
    let mut rest: Vec<Vec<char>> = Vec::new();
    let mut i = cb.len();
    while i < cp.len()
        invariant
            cb@.len() <= i <= cp@.len(),
            views(rest@) == views(cp@).subrange(cb@.len() as int, i as int),
        decreases cp@.len() - i,
    {
        let piece = slice_chars(cp[i].as_slice(), 0, cp[i].len());
        assert(piece@ =~= cp@[i as int]@);
        let ghost old_rest = rest@;
        rest.push(piece);
        assert(views(rest@) =~= views(old_rest).push(piece@));
        assert(views(rest@) =~= views(cp@).subrange(cb@.len() as int, i + 1));
        i = i + 1;
    }
    assert(views(rest@) =~= views(cp@).skip(views(cb@).len() as int));
    Some(render_path(false, rest.as_slice()))
}

/// `Path::strip_prefix`.
pub fn strip_prefix(path: &str, base: &str) -> (out: Option<String>)
    ensures
        match out {
            Some(r) => spec_strip_prefix(path@, base@) == Some(r@),
            None => spec_strip_prefix(path@, base@) is None,
        },
{
    let p = chars_of(path);
    let b = chars_of(base);
    match strip_prefix_chars(p.as_slice(), b.as_slice()) {
        Some(r) => Some(string_of(r.as_slice())),
        None => None,
    }
}

/// `Path::starts_with`.
pub fn path_starts_with(path: &str, base: &str) -> (b: bool)
    ensures
        b == spec_strip_prefix(path@, base@) is Some,
{
    strip_prefix(path, base).is_some()
}

fn last_dot_exec(s: &[char]) -> (d: Option<usize>)
    ensures
        match d {
            Some(k) => last_dot(s@, s@.len() as int) == k && k < s@.len(),
            None => last_dot(s@, s@.len() as int) == -1,
        },
{
    let mut j = s.len();
    while j > 0
        invariant
            j <= s@.len(),
            last_dot(s@, s@.len() as int) == last_dot(s@, j as int),
        decreases j,
    {
        if s[j - 1] == '.' {
            return Some(j - 1);
        }
        j = j - 1;
    }
    None
}

/// The extension of a file name.
pub fn name_extension_chars(n: &[char]) -> (out: Option<Vec<char>>)
    ensures
        match out {
            Some(e) => name_extension(n@) == Some(e@),
            None => name_extension(n@) is None,
        },
{
    let dotdot = vec!['.', '.'];
    if seq_eq(n, dotdot.as_slice()) {
        return None;
    }
    match last_dot_exec(n) {
        Some(d) => {
            let len = n.len();
            if d == 0 || d >= len {
                None
            } else {
                Some(slice_chars(n, d + 1, len))
            }
        },
        None => None,
    }
}

/// The stem of a file name.
pub fn name_stem_chars(n: &[char]) -> (out: Vec<char>)
    ensures
        out@ == name_stem(n@),
{
    let dotdot = vec!['.', '.'];
    if seq_eq(n, dotdot.as_slice()) {
        return slice_chars(n, 0, n.len());
    }
    match last_dot_exec(n) {
        Some(d) => {
            if d == 0 {
                slice_chars(n, 0, n.len())
            } else {
                slice_chars(n, 0, d)
            }
        },
        None => slice_chars(n, 0, n.len()),
    }
}

/// `Path::extension`.
pub fn extension(p: &str) -> (out: Option<String>)
    ensures
        match out {
            Some(e) => spec_extension(p@) == Some(e@),
            None => spec_extension(p@) is None,
        },
{
    let chars = chars_of(p);
    match file_name_chars(chars.as_slice()) {
        Some(n) => match name_extension_chars(n.as_slice()) {
            Some(e) => Some(string_of(e.as_slice())),
            None => None,
        },
        None => None,
    }
}

/// `Path::file_stem`.
pub fn file_stem(p: &str) -> (out: Option<String>)
    ensures
        match out {
            Some(e) => spec_file_stem(p@) == Some(e@),
            None => spec_file_stem(p@) is None,
        },
{
    let chars = chars_of(p);
    match file_name_chars(chars.as_slice()) {
        Some(n) => {
            let s = name_stem_chars(n.as_slice());
            Some(string_of(s.as_slice()))
        },
        None => None,
    }
}

/// `Path::with_file_name`.
pub fn with_file_name(p: &str, name: &str) -> (out: String)
    ensures
        out@ == spec_with_file_name(p@, name@),
{
    match file_name(p) {
        Some(_) => {
            let par = parent(p);
            proof {
                assert(components(p@).len() > 0);
            }
            join(&par.unwrap(), name)
        },
        None => join(p, name),
    }
}

/// `Path::ancestors`: the path itself, then each parent in turn up to the one that has no
/// parent.
pub open spec fn spec_ancestors(p: Seq<char>) -> Seq<Seq<char>> {
    let c = components(p);
    Seq::new(
        c.len() + 1,
        |k: int|
            if k == 0 {
                p
            } else {
                render(is_absolute(p), c.take(c.len() - k))
            },
    )
}

/// The path and its ancestors, nearest first: where searches that walk up the directory
/// tree look.
pub fn ancestors(p: &str) -> (out: Vec<String>)
    ensures
        crate::sorting::string_views(out@) == spec_ancestors(p@),
{
    let chars = chars_of(p);
    let absolute = path_is_absolute(chars.as_slice());
    let mut c = path_components(chars.as_slice());
    let ghost full = views(c@);
    let n = c.len();
    let mut out: Vec<String> = Vec::new();
    out.push(string_of(chars.as_slice()));
    while c.len() > 0
        invariant
            full == components(p@),
            n == full.len(),
            absolute == is_absolute(p@),
            c@.len() <= n,
            views(c@) == full.take(c@.len() as int),
            out@.len() == n - c@.len() + 1,
            forall|k: int| 0 <= k < out@.len() ==> #[trigger] out@[k]@ == spec_ancestors(p@)[k],
        decreases c@.len(),
    {
        c.pop();
        proof {
            assert(views(c@) =~= full.take(c@.len() as int));
        }
        let r = render_path(absolute, c.as_slice());
        out.push(string_of(r.as_slice()));
    }
    proof {
        assert(crate::sorting::string_views(out@) =~= spec_ancestors(p@));
    }
    out
}

} // verus!

verus! {

/// `Path::with_extension` for a non-empty extension: the file name becomes its stem, a dot
/// and `ext`; a path without a file name is left as it is.
pub open spec fn spec_with_extension(s: Seq<char>, ext: Seq<char>) -> Seq<char> {
    match spec_file_stem(s) {
        Some(stem) => spec_with_file_name(s, stem + "."@ + ext),
        None => s,
    }
}

pub fn with_extension(p: &str, ext: &str) -> (out: String)
    ensures
        out@ == spec_with_extension(p@, ext@),
{
    match file_stem(p) {
        Some(stem) => {
            let mut name = chars_of(stem.as_str());
            crate::text::append_str(&mut name, ".");
            crate::text::append_str(&mut name, ext);
            let name = string_of(name.as_slice());
            with_file_name(p, name.as_str())
        },
        None => crate::text::owned(p),
    }
}


/// A piece that can stand as a component of an absolute path: non-empty, not `.`, and
/// without a separator.
pub open spec fn plain_component(seg: Seq<char>) -> bool {
    is_component(seg) && !seg.contains('/')
}

proof fn lemma_raw_segments_plain_tail(s: Seq<char>, t: Seq<char>)
    requires
        !t.contains('/'),
    ensures
        raw_segments(s + t) == raw_segments(s).update(raw_segments(s).len() - 1, raw_segments(s).last() + t),
    decreases t.len(),
{
    lemma_raw_segments_nonempty(s);
    if t.len() == 0 {
        assert(s + t =~= s);
        assert(raw_segments(s).last() + t =~= raw_segments(s).last());
        assert(raw_segments(s).update(raw_segments(s).len() - 1, raw_segments(s).last()) =~= raw_segments(s));
    } else {
        let u = t.drop_last();
        assert(!u.contains('/')) by {
            if u.contains('/') {
                let i = choose|i: int| 0 <= i < u.len() && u[i] == '/';
                assert(t[i] == '/');
            }
        }
        lemma_raw_segments_plain_tail(s, u);
        assert((s + t).drop_last() =~= s + u);
        assert((s + t).last() == t.last());
        assert(t.last() != '/') by {
            if t.last() == '/' {
                assert(t[t.len() - 1] == '/');
            }
        }
        let r = raw_segments(s);
        let big = raw_segments(s + u);
        lemma_raw_segments_nonempty(s + u);
        assert(raw_segments(s + t) == big.update(big.len() - 1, big.last().push(t.last())));
        assert(big.len() == r.len());
        assert(big.last() == r.last() + u);
        assert((r.last() + u).push(t.last()) =~= r.last() + t);
        assert(raw_segments(s + t) =~= r.update(r.len() - 1, r.last() + t));
    }
}

/// The raw pieces of `/` followed by plain components joined with `/`.
proof fn lemma_raw_segments_rooted(cs: Seq<Seq<char>>)
    requires
        cs.len() >= 1,
        forall|i: int| 0 <= i < cs.len() ==> plain_component(#[trigger] cs[i]),
    ensures
        raw_segments(seq!['/'] + join_segments(cs)) == seq![Seq::<char>::empty()] + cs,
    decreases cs.len(),
{
    let root = seq!['/'];
    assert(raw_segments(root) == raw_segments(Seq::<char>::empty()).push(Seq::<char>::empty())) by {
        assert(root.drop_last() =~= Seq::<char>::empty());
    }
    if cs.len() == 1 {
        assert(join_segments(cs) == cs[0]);
        assert(plain_component(cs[0]));
        lemma_raw_segments_plain_tail(root, cs[0]);
        assert(Seq::<char>::empty() + cs[0] =~= cs[0]);
        assert(raw_segments(root + cs[0]) =~= seq![Seq::<char>::empty()] + cs);
    } else {
        let d = cs.drop_last();
        assert forall|i: int| 0 <= i < d.len() implies plain_component(#[trigger] d[i]) by {
            assert(d[i] == cs[i]);
        }
        lemma_raw_segments_rooted(d);
        let x = root + join_segments(d);
        let xs = x + seq!['/'];
        assert(xs.drop_last() =~= x);
        assert(raw_segments(xs) == raw_segments(x).push(Seq::<char>::empty()));
        assert(plain_component(cs[cs.len() - 1]));
        lemma_raw_segments_plain_tail(xs, cs.last());
        assert(root + join_segments(cs) =~= xs + cs.last());
        assert(Seq::<char>::empty() + cs.last() =~= cs.last());
        assert(raw_segments(root + join_segments(cs)) =~= seq![Seq::<char>::empty()] + cs);
    }
}

proof fn lemma_raw_segments_no_slash(s: Seq<char>)
    ensures
        forall|i: int| 0 <= i < raw_segments(s).len() ==> !(#[trigger] raw_segments(s)[i]).contains('/'),
    decreases s.len(),
{
    lemma_raw_segments_nonempty(s);
    if s.len() > 0 {
        lemma_raw_segments_no_slash(s.drop_last());
        lemma_raw_segments_nonempty(s.drop_last());
        let r = raw_segments(s.drop_last());
        if s.last() != '/' {
            assert forall|i: int| 0 <= i < raw_segments(s).len() implies !(#[trigger] raw_segments(s)[i]).contains('/') by {
                if i == r.len() - 1 {
                    let p = r.last().push(s.last());
                    if p.contains('/') {
                        let k = choose|k: int| 0 <= k < p.len() && p[k] == '/';
                        if k < r.last().len() {
                            assert(r[r.len() - 1][k] == '/');
                            assert(r[r.len() - 1].contains('/'));
                        }
                    }
                } else {
                    assert(raw_segments(s)[i] == r[i]);
                }
            }
        } else {
            assert forall|i: int| 0 <= i < raw_segments(s).len() implies !(#[trigger] raw_segments(s)[i]).contains('/') by {
                if i < r.len() {
                    assert(raw_segments(s)[i] == r[i]);
                }
            }
        }
    }
}

/// The components of an absolute path are plain components.
pub proof fn lemma_components_plain(p: Seq<char>)
    requires
        is_absolute(p),
    ensures
        forall|i: int| 0 <= i < components(p).len() ==> plain_component(#[trigger] components(p)[i]),
{
    lemma_raw_segments_no_slash(p);
    let r = raw_segments(p);
    let f = |seg: Seq<char>| is_component(seg);
    assert forall|i: int| 0 <= i < components(p).len() implies plain_component(#[trigger] components(p)[i]) by {
        r.lemma_filter_pred(f, i);
        let x = components(p)[i];
        assert(r.filter(f).contains(x));
        r.lemma_filter_contains_rev(f, x);
        let k = choose|k: int| 0 <= k < r.len() && r[k] == x;
        assert(!r[k].contains('/'));
    }
}

/// Writing out plain components as an absolute path gives back those components.
#[verifier::rlimit(40)]
pub proof fn lemma_components_of_rendered(cs: Seq<Seq<char>>)
    requires
        forall|i: int| 0 <= i < cs.len() ==> plain_component(#[trigger] cs[i]),
    ensures
        components(render(true, cs)) == cs,
{
    let f = |seg: Seq<char>| is_component(seg);
    let e = Seq::<char>::empty();
    let p = render(true, cs);
    assert(!leads_with_cur_dir(p));
    if cs.len() == 0 {
        let root = seq!['/'];
        assert(p =~= root);
        assert(root.drop_last() =~= e);
        assert(raw_segments(root) == raw_segments(e).push(e));
        assert(raw_segments(e).push(e) =~= seq![e].push(e));
        lemma_filter_prepend_dropped(seq![e], e, f);
        lemma_filter_prepend_dropped(Seq::<Seq<char>>::empty(), e, f);
        assert(seq![e].push(e) =~= seq![e] + seq![e]);
        assert(seq![e] =~= seq![e] + Seq::<Seq<char>>::empty());
        assert(Seq::<Seq<char>>::empty().filter(f) =~= Seq::<Seq<char>>::empty()) by {
            reveal(Seq::filter);
        }
        assert(body_components(p) =~= cs);
    } else {
        lemma_raw_segments_rooted(cs);
        assert forall|i: int| 0 <= i < cs.len() implies #[trigger] f(cs[i]) by {
            assert(plain_component(cs[i]));
        }
        lemma_filter_all_kept(cs, f);
        lemma_filter_prepend_dropped(cs, e, f);
        assert(body_components(p) == (seq![e] + cs).filter(f));
    }
}

proof fn lemma_filter_all_kept(s: Seq<Seq<char>>, f: spec_fn(Seq<char>) -> bool)
    requires
        forall|i: int| 0 <= i < s.len() ==> #[trigger] f(s[i]),
    ensures
        s.filter(f) == s,
    decreases s.len(),
{
    reveal(Seq::filter);
    if s.len() > 0 {
        let r = s.drop_last();
        assert forall|i: int| 0 <= i < r.len() implies #[trigger] f(r[i]) by {
            assert(r[i] == s[i]);
        }
        lemma_filter_all_kept(r, f);
        assert(f(s[s.len() - 1]));
        assert(r.push(s.last()) =~= s);
    }
}

proof fn lemma_filter_prepend_dropped(s: Seq<Seq<char>>, x: Seq<char>, f: spec_fn(Seq<char>) -> bool)
    requires
        !f(x),
    ensures
        (seq![x] + s).filter(f) == s.filter(f),
    decreases s.len(),
{
    let e = Seq::<Seq<char>>::empty();
    assert(e.filter(f) =~= e) by {
        reveal(Seq::filter);
    }
    if s.len() == 0 {
        e.lemma_filter_push(x, f);
        assert(seq![x] + s =~= e.push(x));
        assert(s =~= e);
    } else {
        let d = s.drop_last();
        lemma_filter_prepend_dropped(d, x, f);
        (seq![x] + d).lemma_filter_push(s.last(), f);
        d.lemma_filter_push(s.last(), f);
        assert(seq![x] + s =~= (seq![x] + d).push(s.last()));
        assert(s =~= d.push(s.last()));
    }
}

/// Every one of an absolute path's ancestors contains it (`Path::starts_with`).
pub proof fn lemma_ancestors_contain(p: Seq<char>, k: int)
    requires
        is_absolute(p),
        0 <= k < spec_ancestors(p).len(),
    ensures
        spec_strip_prefix(p, spec_ancestors(p)[k]) is Some,
{
    let c = components(p);
    lemma_components_plain(p);
    if k == 0 {
        assert(is_prefix_of(c, c)) by {
            assert(c.subrange(0, c.len() as int) =~= c);
        }
    } else {
        let t = c.take(c.len() - k);
        assert forall|i: int| 0 <= i < t.len() implies plain_component(#[trigger] t[i]) by {
            assert(t[i] == c[i]);
        }
        lemma_components_of_rendered(t);
        assert(spec_ancestors(p)[k] == render(true, t));
        assert(is_absolute(render(true, t)));
        assert(c.subrange(0, t.len() as int) =~= t);
    }
}
} // verus!
