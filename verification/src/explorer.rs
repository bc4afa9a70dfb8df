//! The file explorer's navigation and file-operation rules: back/forward history bounded
//! to the project, `.zeignore` patterns, name validation for new entries, protected
//! asset folders, favorites and the clipboard. Paths arrive here already made absolute
//! and canonical; reading and changing the disk is left to the caller.
use vstd::prelude::*;
use crate::text::{slice_chars, chars_of, string_of, owned, seq_eq, starts_with, ends_with, contains_seq, contains_char,
    seq_starts_with, seq_ends_with, seq_contains_seq, trimmed, trim_chars, split_chars, split_at_char,
    append_str, append_chars, concat, push_decimal, decimal};
use crate::paths::{join, parent, file_name, strip_prefix, path_starts_with, path_components, path_is_absolute,
    components, is_absolute, views, spec_join, spec_parent, spec_file_name, spec_strip_prefix, spec_file_stem,
    spec_extension, file_stem, extension, spec_ancestors, ancestors, lemma_ancestors_contain};
use crate::packaging::skip_leading;
use crate::panels::PendingCreate;
use crate::sorting::{sorted, string_views, sort_strings};

verus! {

/// A copied or cut file waiting to be pasted.
#[derive(Debug, Clone)]
pub struct ClipboardEntry {
    pub source: String,
    pub cut: bool,
}

/// A `.zeignore` line and the directory whose file it came from.
#[derive(Debug, Clone)]
pub struct IgnorePattern {
    pub dir: String,
    pub pattern: String,
}

/// The file explorer's state.
#[derive(Debug)]
pub struct FileExplorer {
    pub project_root: String,
    pub current_path: String,
    pub back_history: Vec<String>,
    pub forward_history: Vec<String>,
    pub pending_create: Option<PendingCreate>,
    pub favorites: Vec<String>,
    pub favorites_dirty: bool,
    pub tree_expanded: Vec<String>,
    pub tree_expanded_dirty: bool,
    pub selected_entry: Option<String>,
    pub clipboard: Option<ClipboardEntry>,
    pub renaming: Option<String>,
    pub grid_focused: bool,
}

/// The navigation state of an explorer: project root, current directory, and the two
/// histories.
pub struct Nav {
    pub root: Seq<char>,
    pub current: Seq<char>,
    pub back: Seq<Seq<char>>,
    pub forward: Seq<Seq<char>>,
}

pub open spec fn strings(v: Seq<String>) -> Seq<Seq<char>> {
    v.map_values(|s: String| s@)
}

/// The position of the first set flag at or after `i`.
pub open spec fn first_flag_from(flags: Seq<bool>, i: int) -> Option<int>
    decreases flags.len() - i,
{
    if i < 0 || i >= flags.len() {
        None
    } else if flags[i] {
        Some(i)
    } else {
        first_flag_from(flags, i + 1)
    }
}

/// The project root of a directory: its nearest ancestor (itself first) flagged as holding
/// a project file, else the directory itself.
pub open spec fn spec_found_project_root(dir: Seq<char>, holds_project_file: Seq<bool>) -> Seq<char> {
    match first_flag_from(holds_project_file, 0) {
        Some(k) => spec_ancestors(dir)[k],
        None => dir,
    }
}

/// `path` lies in `root` (`Path::starts_with`).
pub open spec fn within(path: Seq<char>, root: Seq<char>) -> bool {
    spec_strip_prefix(path, root) is Some
}

/// Pops entries off the end of `h` until one lies in `root`: what is left, and that entry.
pub open spec fn pop_valid(h: Seq<Seq<char>>, root: Seq<char>) -> (Seq<Seq<char>>, Option<Seq<char>>)
    decreases h.len(),
{
    if h.len() == 0 {
        (h, None)
    } else if within(h.last(), root) {
        (h.drop_last(), Some(h.last()))
    } else {
        pop_valid(h.drop_last(), root)
    }
}

/// Going back: the last history entry in the project becomes current and the current
/// directory moves to the forward history; nothing but the popped entries changes when
/// there is none.
pub open spec fn spec_go_back(n: Nav) -> Nav {
    let (rest, found) = pop_valid(n.back, n.root);
    match found {
        Some(p) => Nav { root: n.root, current: p, back: rest, forward: n.forward.push(n.current) },
        None => Nav { back: rest, ..n },
    }
}

/// Going forward, the mirror image of going back.
pub open spec fn spec_go_forward(n: Nav) -> Nav {
    let (rest, found) = pop_valid(n.forward, n.root);
    match found {
        Some(p) => Nav { root: n.root, current: p, back: n.back.push(n.current), forward: rest },
        None => Nav { forward: rest, ..n },
    }
}

/// Going back and then forward returns to the directory one started from, with the
/// forward history as it was, when going back found a directory and the starting
/// directory lies in the project.
pub proof fn law_back_then_forward(n: Nav)
    requires
        pop_valid(n.back, n.root).1 is Some,
        within(n.current, n.root),
    ensures
        spec_go_forward(spec_go_back(n)).current == n.current,
        spec_go_forward(spec_go_back(n)).forward == n.forward,
{
    let b = spec_go_back(n);
    assert(b.forward == n.forward.push(n.current));
    assert(b.forward.drop_last() =~= n.forward);
}

/// Going forward and then back returns to the directory one started from, with the back
/// history as it was, when going forward found a directory and the starting directory
/// lies in the project.
pub proof fn law_forward_then_back(n: Nav)
    requires
        pop_valid(n.forward, n.root).1 is Some,
        within(n.current, n.root),
    ensures
        spec_go_back(spec_go_forward(n)).current == n.current,
        spec_go_back(spec_go_forward(n)).back == n.back,
{
    let f = spec_go_forward(n);
    assert(f.back == n.back.push(n.current));
    assert(f.back.drop_last() =~= n.back);
}

pub open spec fn favorites_file() -> Seq<char> {
    ".zeroeditor/favorites_folders.toml"@
}

pub open spec fn tree_expanded_file() -> Seq<char> {
    ".zeroeditor/tree_expanded.toml"@
}

impl FileExplorer {
    /// Everything but the navigation state is the same in `self` and `other`: selection,
    /// favorites, expanded tree, clipboard, rename, pending creation and grid focus.
    pub open spec fn same_besides_nav(&self, other: &FileExplorer) -> bool {
        &&& self.pending_create == other.pending_create
        &&& self.favorites == other.favorites
        &&& self.favorites_dirty == other.favorites_dirty
        &&& self.tree_expanded == other.tree_expanded
        &&& self.tree_expanded_dirty == other.tree_expanded_dirty
        &&& self.selected_entry == other.selected_entry
        &&& self.clipboard == other.clipboard
        &&& self.renaming == other.renaming
        &&& self.grid_focused == other.grid_focused
    }

    pub open spec fn nav(&self) -> Nav {
        Nav {
            root: self.project_root@,
            current: self.current_path@,
            back: strings(self.back_history@),
            forward: strings(self.forward_history@),
        }
    }

    /// An explorer showing the directory `root_path` (absolute, as the editor makes it), in
    /// the project of the nearest of its ancestors (itself first) that holds a project file,
    /// or in `root_path` itself when none does. `holds_project_file[k]` says whether the
    /// `k`-th ancestor, as `ancestors` lists them, holds one.
    pub fn new(root_path: String, holds_project_file: &Vec<bool>) -> (e: FileExplorer)
        requires
            is_absolute(root_path@),
            holds_project_file@.len() == spec_ancestors(root_path@).len(),
        ensures
            e.current_path == root_path,
            e.project_root@ == spec_found_project_root(root_path@, holds_project_file@),
            within(e.current_path@, e.project_root@),
            e.back_history@.len() == 0,
            e.forward_history@.len() == 0,
            e.favorites@.len() == 0,
            e.tree_expanded@.len() == 0,
            !e.favorites_dirty && !e.tree_expanded_dirty,
            e.selected_entry is None && e.clipboard is None && e.renaming is None && e.pending_create is None,
    {
        let ancs = ancestors(root_path.as_str());
        let ghost a = spec_ancestors(root_path@);
        let mut k: usize = 0;
        while k < holds_project_file.len()
            invariant
                k <= holds_project_file@.len(),
                holds_project_file@.len() == a.len(),
                string_views(ancs@) == a,
                first_flag_from(holds_project_file@, 0) == first_flag_from(holds_project_file@, k as int),
            ensures
                k <= holds_project_file@.len(),
                first_flag_from(holds_project_file@, 0) == first_flag_from(holds_project_file@, k as int),
                k < holds_project_file@.len() ==> holds_project_file@[k as int],
            decreases holds_project_file@.len() - k,
        {
            if holds_project_file[k] {
                break;
            }
            k = k + 1;
        }
        let ghost found = first_flag_from(holds_project_file@, 0);
        let project_root = if k < holds_project_file.len() {
            proof {
                assert(found == Some(k as int));
                lemma_ancestors_contain(root_path@, k as int);
                assert(string_views(ancs@)[k as int] == ancs@[k as int]@);
            }
            ancs[k].clone()
        } else {
            proof {
                assert(found is None);
                lemma_ancestors_contain(root_path@, 0);
            }
            root_path.clone()
        };
        FileExplorer {
            project_root,
            current_path: root_path,
            back_history: Vec::new(),
            forward_history: Vec::new(),
            pending_create: None,
            favorites: Vec::new(),
            favorites_dirty: false,
            tree_expanded: Vec::new(),
            tree_expanded_dirty: false,
            selected_entry: None,
            clipboard: None,
            renaming: None,
            grid_focused: false,
        }
    }

    /// Where the favorite folders are stored.
    pub fn favorites_path(&self) -> (p: String)
        ensures
            p@ == spec_join(self.project_root@, favorites_file()),
    {
        join(self.project_root.as_str(), ".zeroeditor/favorites_folders.toml")
    }

    /// Where the folder tree's expansion state is stored.
    pub fn tree_expanded_path(&self) -> (p: String)
        ensures
            p@ == spec_join(self.project_root@, tree_expanded_file()),
    {
        join(self.project_root.as_str(), ".zeroeditor/tree_expanded.toml")
    }

    pub fn mark_favorites_dirty(&mut self)
        ensures
            final(self).favorites_dirty,
            final(self).favorites == old(self).favorites,
            final(self).nav() == old(self).nav(),
    {
        self.favorites_dirty = true;
    }

    pub fn mark_tree_expanded_dirty(&mut self)
        ensures
            final(self).tree_expanded_dirty,
            final(self).tree_expanded == old(self).tree_expanded,
            final(self).nav() == old(self).nav(),
    {
        self.tree_expanded_dirty = true;
    }

    /// Whether `path` lies in the project.
    pub fn is_within_project_root(&self, path: &str) -> (b: bool)
        ensures
            b == within(path@, self.project_root@),
    {
        path_starts_with(path, self.project_root.as_str())
    }

    fn pop_valid_from(history: &mut Vec<String>, root: &String) -> (found: Option<String>)
        ensures
            strings(final(history)@) == pop_valid(strings(old(history)@), root@).0,
            match found {
                Some(p) => pop_valid(strings(old(history)@), root@).1 == Some(p@),
                None => pop_valid(strings(old(history)@), root@).1 is None,
            },
    {
        let ghost start = strings(history@);
        while history.len() > 0
            invariant
                start == strings(old(history)@),
                pop_valid(strings(history@), root@) == pop_valid(start, root@),
            decreases history@.len(),
        {
            let ghost before = history@;
            let p = history.pop().unwrap();
            proof {
                assert(strings(history@) =~= strings(before).drop_last());
                assert(strings(before).last() == p@);
            }
            if path_starts_with(p.as_str(), root.as_str()) {
                proof {
                    assert(strings(before).len() > 0);
                    assert(pop_valid(strings(before), root@) == (strings(before).drop_last(), Some(p@)));
                }
                return Some(p);
            }
            proof {
                assert(pop_valid(strings(before), root@) == pop_valid(strings(before).drop_last(), root@));
            }
        }
        proof {
            assert(strings(history@) =~= Seq::<Seq<char>>::empty());
        }
        None
    }

    /// Pops the back history down to its last entry in the project, and returns it.
    pub fn pop_valid_back_history(&mut self) -> (found: Option<String>)
        ensures
            strings(final(self).back_history@) == pop_valid(old(self).nav().back, old(self).nav().root).0,
            match found {
                Some(p) => pop_valid(old(self).nav().back, old(self).nav().root).1 == Some(p@),
                None => pop_valid(old(self).nav().back, old(self).nav().root).1 is None,
            },
            final(self).project_root == old(self).project_root,
            final(self).current_path == old(self).current_path,
            final(self).forward_history == old(self).forward_history,
            final(self).same_besides_nav(old(self)),
    {
        FileExplorer::pop_valid_from(&mut self.back_history, &self.project_root)
    }

    /// Pops the forward history down to its last entry in the project, and returns it.
    pub fn pop_valid_forward_history(&mut self) -> (found: Option<String>)
        ensures
            strings(final(self).forward_history@) == pop_valid(old(self).nav().forward, old(self).nav().root).0,
            match found {
                Some(p) => pop_valid(old(self).nav().forward, old(self).nav().root).1 == Some(p@),
                None => pop_valid(old(self).nav().forward, old(self).nav().root).1 is None,
            },
            final(self).project_root == old(self).project_root,
            final(self).current_path == old(self).current_path,
            final(self).back_history == old(self).back_history,
            final(self).same_besides_nav(old(self)),
    {
        FileExplorer::pop_valid_from(&mut self.forward_history, &self.project_root)
    }

    /// Returns to the last directory of the back history that lies in the project; nothing
    /// but the navigation changes.
    pub fn go_back(&mut self)
        ensures
            final(self).nav() == spec_go_back(old(self).nav()),
            final(self).same_besides_nav(old(self)),
    {
        match self.pop_valid_back_history() {
            Some(path) => {
                let current = self.current_path.clone();
                self.forward_history.push(current);
                self.current_path = path;
                proof {
                    assert(strings(self.forward_history@) =~= strings(old(self).forward_history@).push(
                        old(self).current_path@,
                    ));
                }
            },
            None => {},
        }
    }

    /// Returns to the last directory of the forward history that lies in the project; nothing
    /// but the navigation changes.
    pub fn go_forward(&mut self)
        ensures
            final(self).nav() == spec_go_forward(old(self).nav()),
            final(self).same_besides_nav(old(self)),
    {
        match self.pop_valid_forward_history() {
            Some(path) => {
                let current = self.current_path.clone();
                self.back_history.push(current);
                self.current_path = path;
                proof {
                    assert(strings(self.back_history@) =~= strings(old(self).back_history@).push(
                        old(self).current_path@,
                    ));
                }
            },
            None => {},
        }
    }

    /// Opens the directory `path` (which exists as a directory when `is_dir`): nothing
    /// happens when it lies outside the project, is not a directory, or is already open.
    pub fn open_directory(&mut self, path: String, is_dir: bool)
        ensures
            (!within(path@, old(self).project_root@) || !is_dir || path@ == old(self).current_path@) ==> (final(self).nav()
                == old(self).nav() && final(self).selected_entry == old(self).selected_entry),
            (within(path@, old(self).project_root@) && is_dir && path@ != old(self).current_path@) ==> {
                &&& final(self).nav() == (Nav {
                    root: old(self).nav().root,
                    current: path@,
                    back: old(self).nav().back.push(old(self).current_path@),
                    forward: Seq::empty(),
                })
                &&& final(self).selected_entry is None
            },
    {
        if !self.is_within_project_root(path.as_str()) || !is_dir {
            return;
        }
        let a = chars_of(path.as_str());
        let b = chars_of(self.current_path.as_str());
        if seq_eq(a.as_slice(), b.as_slice()) {
            return;
        }
        let current = self.current_path.clone();
        self.back_history.push(current);
        self.forward_history.clear();
        self.current_path = path;
        self.selected_entry = None;
        proof {
            assert(strings(self.back_history@) =~= strings(old(self).back_history@).push(old(self).current_path@));
            assert(strings(self.forward_history@) =~= Seq::<Seq<char>>::empty());
        }
    }

    /// Goes to the project root when the current directory is empty or outside the project.
    pub fn ensure_current_path_is_valid(&mut self)
        ensures
            final(self).current_path@ == (if old(self).current_path@.len() == 0 || !within(
                old(self).current_path@,
                old(self).project_root@,
            ) {
                old(self).project_root@
            } else {
                old(self).current_path@
            }),
            final(self).project_root == old(self).project_root,
            final(self).back_history == old(self).back_history,
            final(self).forward_history == old(self).forward_history,
            final(self).selected_entry == old(self).selected_entry,
    {
        let empty = self.current_path.as_str().is_empty();
        proof {
            if old(self).current_path@.len() == 0 {
                assert(old(self).current_path@ =~= Seq::<char>::empty());
            }
        }
        if empty || !self.is_within_project_root(self.current_path.as_str()) {
            self.current_path = self.project_root.clone();
        }
    }
}

/// `.zeignore` matching of one file or directory name against a pattern without `/`: equal,
/// `*`, a prefix followed by `*`, `*` followed by a suffix, or one `*` between a prefix and a
/// suffix that do not overlap in the name.
pub open spec fn spec_match_flat_name(name: Seq<char>, pattern: Seq<char>) -> bool {
    let parts = split_at_char(pattern, '*');
    ||| pattern == name
    ||| pattern == seq!['*']
    ||| (pattern.len() > 0 && pattern.last() == '*' && seq_starts_with(name, pattern.drop_last()))
    ||| (pattern.len() > 0 && pattern[0] == '*' && seq_ends_with(name, pattern.drop_first()))
    ||| (pattern.contains('*') && parts.len() == 2 && seq_starts_with(name, parts[0]) && seq_ends_with(name, parts[1])
        && name.len() >= parts[0].len() + parts[1].len())
}

/// Whether the name matches the pattern, as `.zeignore` reads a pattern without `/`.
pub fn match_flat_name(name: &str, pattern: &str) -> (b: bool)
    ensures
        b == spec_match_flat_name(name@, pattern@),
{
    let n = chars_of(name);
    let p = chars_of(pattern);
    if seq_eq(p.as_slice(), n.as_slice()) {
        return true;
    }
    if p.len() == 1 && p[0] == '*' {
        assert(p@ =~= seq!['*']);
        return true;
    }
    proof {
        if p@ == seq!['*'] {
            assert(p@.len() == 1 && p@[0] == '*');
        }
    }
    if p.len() > 0 && p[p.len() - 1] == '*' {
        let prefix = slice_chars_of(&p, 0, p.len() - 1);
        assert(prefix@ =~= p@.drop_last());
        if starts_with(n.as_slice(), prefix.as_slice()) {
            return true;
        }
    }
    if p.len() > 0 && p[0] == '*' {
        let suffix = slice_chars_of(&p, 1, p.len());
        assert(suffix@ =~= p@.drop_first());
        if ends_with(n.as_slice(), suffix.as_slice()) {
            return true;
        }
    }
    if contains_char(p.as_slice(), '*') {
        let parts = split_chars(p.as_slice(), '*');
        if parts.len() == 2 {
            let prefix = &parts[0];
            let suffix = &parts[1];
            if starts_with(n.as_slice(), prefix.as_slice()) && ends_with(n.as_slice(), suffix.as_slice())
                && n.len() - prefix.len() >= suffix.len() {
                return true;
            }
        }
    }
    false
}

/// The characters of `v` from `from` to `to`.
fn slice_chars_of(v: &Vec<char>, from: usize, to: usize) -> (out: Vec<char>)
    requires
        from <= to <= v@.len(),
    ensures
        out@ == v@.subrange(from as int, to as int),
{
    let mut out: Vec<char> = Vec::new();
    let mut k = from;
    while k < to
        invariant
            from <= k <= to,
            to <= v@.len(),
            out@ == v@.subrange(from as int, k as int),
        decreases to - k,
    {
        out.push(v[k]);
        assert(v@.subrange(from as int, k as int).push(v@[k as int]) =~= v@.subrange(from as int, k + 1));
        k = k + 1;
    }
    out
}

/// The pattern's text with surrounding whitespace, leading `/`s and one trailing `/` removed.
pub open spec fn effective_pattern(pattern: Seq<char>) -> Seq<char> {
    let p = trimmed(pattern);
    let e = p.skip(skip_leading(p, '/', 0));
    if e.len() > 0 && e.last() == '/' {
        e.drop_last()
    } else {
        e
    }
}

/// `.zeignore` matching of a path (relative to the ignore file's directory) against a
/// pattern: a pattern without `/` matches the path's file name; one with `/` matches the
/// path itself or a directory prefix of it, and, unless it starts with `/`, also a tail of
/// it or a run of its components.
pub open spec fn spec_match_pattern(relative: Seq<char>, pattern: Seq<char>) -> bool {
    let p = trimmed(pattern);
    let anchored = p.len() > 0 && p[0] == '/';
    let eff = effective_pattern(pattern);
    if !eff.contains('/') {
        spec_match_flat_name(
            match spec_file_name(relative) {
                Some(n) => n,
                None => Seq::empty(),
            },
            eff,
        )
    } else if anchored {
        relative == eff || seq_starts_with(relative, eff.push('/'))
    } else {
        ||| relative == eff
        ||| seq_starts_with(relative, eff.push('/'))
        ||| seq_ends_with(relative, seq!['/'] + eff)
        ||| seq_contains_seq(relative, seq!['/'] + eff.push('/'))
    }
}

/// Whether the relative path matches the `.zeignore` pattern.
pub fn match_pattern(relative: &str, pattern: &str) -> (b: bool)
    ensures
        b == spec_match_pattern(relative@, pattern@),
{
    let raw = chars_of(pattern);
    let p = trim_chars(raw.as_slice());
    let anchored = p.len() > 0 && p[0] == '/';
    let n = p.len();
    let mut a: usize = 0;
    while a < n && p[a] == '/'
        invariant
            a <= n,
            n == p@.len(),
            skip_leading(p@, '/', a as int) == skip_leading(p@, '/', 0),
        decreases n - a,
    {
        a = a + 1;
    }
    let mut end = n;
    if a < n && p[n - 1] == '/' {
        end = n - 1;
    }
    let eff = slice_chars_of(&p, a, end);
    proof {
        let e = p@.skip(skip_leading(p@, '/', 0));
        assert(skip_leading(p@, '/', a as int) == a);
        if a < n && p@[n - 1] == '/' {
            assert(eff@ =~= e.drop_last());
        } else {
            assert(eff@ =~= e);
        }
        assert(eff@ == effective_pattern(pattern@));
    }
    if !contains_char(eff.as_slice(), '/') {
        let name = match file_name(relative) {
            Some(f) => f,
            None => String::new(),
        };
        let e = string_of(eff.as_slice());
        return match_flat_name(name.as_str(), e.as_str());
    }
    let r = chars_of(relative);
    let mut eff_slash = slice_chars_of(&eff, 0, eff.len());
    eff_slash.push('/');
    assert(eff_slash@ =~= eff@.push('/'));
    if seq_eq(r.as_slice(), eff.as_slice()) || starts_with(r.as_slice(), eff_slash.as_slice()) {
        return true;
    }
    if anchored {
        return false;
    }
    let mut slash_eff = vec!['/'];
    append_chars(&mut slash_eff, eff.as_slice());
    assert(slash_eff@ =~= seq!['/'] + eff@);
    let mut slash_eff_slash = slice_chars_of(&slash_eff, 0, slash_eff.len());
    slash_eff_slash.push('/');
    assert(slash_eff_slash@ =~= seq!['/'] + eff@.push('/'));
    ends_with(r.as_slice(), slash_eff.as_slice()) || contains_seq(r.as_slice(), slash_eff_slash.as_slice())
}

/// Some pattern's directory contains the entry and the pattern matches the entry's path
/// relative to that directory.
pub open spec fn spec_matches_ignore_pattern(entry: Seq<char>, patterns: Seq<IgnorePattern>) -> bool {
    exists|i: int| 0 <= i < patterns.len() && #[trigger] spec_strip_prefix(entry, patterns[i].dir@) is Some
        && spec_match_pattern(spec_strip_prefix(entry, patterns[i].dir@).unwrap(), patterns[i].pattern@)
}

/// Whether one of the patterns ignores the entry.
pub fn matches_ignore_pattern(entry_path: &str, patterns: &[IgnorePattern]) -> (b: bool)
    ensures
        b == spec_matches_ignore_pattern(entry_path@, patterns@),
{
    let mut i: usize = 0;
    while i < patterns.len()
        invariant
            i <= patterns@.len(),
            forall|k: int| 0 <= k < i ==> !(#[trigger] spec_strip_prefix(entry_path@, patterns@[k].dir@) is Some
                && spec_match_pattern(spec_strip_prefix(entry_path@, patterns@[k].dir@).unwrap(), patterns@[k].pattern@)),
        decreases patterns@.len() - i,
    {
        match strip_prefix(entry_path, patterns[i].dir.as_str()) {
            Some(relative) => {
                if match_pattern(relative.as_str(), patterns[i].pattern.as_str()) {
                    return true;
                }
            },
            None => {},
        }
        i = i + 1;
    }
    false
}

/// The lines of a `.zeignore` file that are patterns: trimmed, neither empty nor comments.
pub open spec fn ignore_lines(content: Seq<char>) -> Seq<Seq<char>> {
    split_at_char(content, '\n').map_values(|l: Seq<char>| trimmed(l)).filter(
        |l: Seq<char>| l.len() > 0 && l[0] != '#',
    )
}

/// The patterns of the `.zeignore` file in `dir` with the given content.
pub fn ignore_patterns_in(dir: &str, content: &str) -> (out: Vec<IgnorePattern>)
    ensures
        out@.len() == ignore_lines(content@).len(),
        forall|i: int| 0 <= i < out@.len() ==> (#[trigger] out@[i]).dir@ == dir@ && out@[i].pattern@ == ignore_lines(
            content@,
        )[i],
{
    let c = chars_of(content);
    let lines = split_chars(c.as_slice(), '\n');
    let ghost segs = split_at_char(content@, '\n');
    let ghost f = |l: Seq<char>| trimmed(l);
    let ghost keep = |l: Seq<char>| l.len() > 0 && l[0] != '#';
    let mut out: Vec<IgnorePattern> = Vec::new();
    let mut i: usize = 0;
    while i < lines.len()
        invariant
            i <= lines@.len(),
            segs == split_at_char(content@, '\n'),
            lines@.len() == segs.len(),
            forall|k: int| 0 <= k < lines@.len() ==> #[trigger] lines@[k]@ == segs[k],
            f == (|l: Seq<char>| trimmed(l)),
            keep == (|l: Seq<char>| l.len() > 0 && l[0] != '#'),
            out@.len() == segs.take(i as int).map_values(f).filter(keep).len(),
            forall|k: int| 0 <= k < out@.len() ==> (#[trigger] out@[k]).dir@ == dir@ && out@[k].pattern@ == segs.take(
                i as int,
            ).map_values(f).filter(keep)[k],
        decreases lines@.len() - i,
    {
        let t = trim_chars(lines[i].as_slice());
        let ghost prev = segs.take(i as int).map_values(f);
        proof {
            assert(segs.take(i + 1).map_values(f) =~= prev.push(trimmed(segs[i as int])));
            prev.lemma_filter_push(trimmed(segs[i as int]), keep);
        }
        if t.len() > 0 && t[0] != '#' {
            let ghost before = out@;
            out.push(IgnorePattern { dir: owned(dir), pattern: string_of(t.as_slice()) });
            proof {
                assert forall|k: int| 0 <= k < out@.len() implies (#[trigger] out@[k]).dir@ == dir@ && out@[k].pattern@
                    == segs.take(i + 1).map_values(f).filter(keep)[k] by {
                    if k < before.len() {
                        assert(out@[k] == before[k]);
                    }
                }
            }
        }
        i = i + 1;
    }
    proof {
        assert(segs.take(i as int) =~= segs);
    }
    out
}

/// `Path` equality: the same root flag and the same components.
pub open spec fn same_path(a: Seq<char>, b: Seq<char>) -> bool {
    is_absolute(a) == is_absolute(b) && components(a) == components(b)
}

/// Whether two paths are equal as paths.
pub fn paths_equal(a: &str, b: &str) -> (r: bool)
    ensures
        r == same_path(a@, b@),
{
    let ac = chars_of(a);
    let bc = chars_of(b);
    if path_is_absolute(ac.as_slice()) != path_is_absolute(bc.as_slice()) {
        return false;
    }
    let ca = path_components(ac.as_slice());
    let cb = path_components(bc.as_slice());
    if ca.len() != cb.len() {
        assert(views(ca@).len() != views(cb@).len());
        return false;
    }
    let mut i: usize = 0;
    while i < ca.len()
        invariant
            i <= ca@.len(),
            ca@.len() == cb@.len(),
            views(ca@) == components(a@),
            views(cb@) == components(b@),
            forall|k: int| 0 <= k < i ==> #[trigger] views(ca@)[k] == views(cb@)[k],
        decreases ca@.len() - i,
    {
        if !seq_eq(ca[i].as_slice(), cb[i].as_slice()) {
            assert(views(ca@)[i as int] == ca@[i as int]@ && views(cb@)[i as int] == cb@[i as int]@);
            assert(views(ca@) != views(cb@));
            return false;
        }
        i = i + 1;
    }
    assert(views(ca@) =~= views(cb@));
    true
}

/// The parent of a path, unless the path or its parent is empty.
pub fn valid_parent(path: &str) -> (out: Option<String>)
    ensures
        match out {
            Some(p) => path@.len() > 0 && spec_parent(path@) == Some(p@) && p@.len() > 0,
            None => path@.len() == 0 || spec_parent(path@) is None || spec_parent(path@).unwrap().len() == 0,
        },
{
    if path.is_empty() {
        proof {
            assert(path@.len() == 0) by {
                if path@.len() > 0 {
                    assert(path@ != Seq::<char>::empty());
                }
            }
        }
        return None;
    }
    proof {
        if path@.len() == 0 {
            assert(path@ =~= Seq::<char>::empty());
        }
    }
    match parent(path) {
        Some(p) => {
            if p.as_str().is_empty() {
                proof {
                    if p@.len() > 0 {
                        assert(p@ != Seq::<char>::empty());
                    }
                }
                None
            } else {
                proof {
                    if p@.len() == 0 {
                        assert(p@ =~= Seq::<char>::empty());
                    }
                }
                Some(p)
            }
        },
        None => None,
    }
}

pub open spec fn spec_entry_icon(path: Seq<char>, is_directory: bool) -> Seq<char> {
    if is_directory {
        "\u{F024B}"@
    } else if spec_extension(path) == Some("cs"@) {
        "\u{F031B}"@
    } else if spec_extension(path) == Some("toml"@) {
        "\u{F016A}"@
    } else if spec_extension(path) == Some("wesl"@) {
        "\u{F0E60}"@
    } else if spec_extension(path) == Some("zero"@) {
        "\u{F0381}"@
    } else {
        "\u{F0214}"@
    }
}

/// The icon glyph of an entry: a folder, or by extension a C# file, a TOML file, a shader,
/// a Zero file, or any other file.
pub fn entry_icon(path: &str, is_directory: bool) -> (s: &'static str)
    ensures
        s@ == spec_entry_icon(path@, is_directory),
{
    if is_directory {
        return "\u{F024B}";
    }
    match extension(path) {
        Some(e) => {
            let v = chars_of(e.as_str());
            let cs = chars_of("cs");
            let toml = chars_of("toml");
            let wesl = chars_of("wesl");
            let zero = chars_of("zero");
            if seq_eq(v.as_slice(), cs.as_slice()) {
                "\u{F031B}"
            } else if seq_eq(v.as_slice(), toml.as_slice()) {
                "\u{F016A}"
            } else if seq_eq(v.as_slice(), wesl.as_slice()) {
                "\u{F0E60}"
            } else if seq_eq(v.as_slice(), zero.as_slice()) {
                "\u{F0381}"
            } else {
                "\u{F0214}"
            }
        },
        None => "\u{F0214}",
    }
}

/// A path below the project's `assets` folder whose first component there is a plain name.
pub open spec fn spec_is_protected(root: Seq<char>, path: Seq<char>) -> bool {
    match spec_strip_prefix(path, spec_join(root, "assets"@)) {
        Some(r) => components(r).len() > 0 && components(r)[0] != seq!['.', '.'],
        None => false,
    }
}

/// The reasons a name for a new folder or file is refused.
pub open spec fn name_rejection(name: Seq<char>, what: Seq<char>, plain: Seq<char>) -> Option<Seq<char>> {
    let t = trimmed(name);
    if t.len() == 0 {
        Some(what + " name cannot be empty"@)
    } else if t.contains('/') || t.contains('\\') {
        Some(what + " name cannot contain path separators"@)
    } else if t == seq!['.'] || t == seq!['.', '.'] {
        Some(what + " name is not a plain "@ + plain + " name"@)
    } else {
        None
    }
}

fn validate_new_name(name: &str, what: &str, plain: &str) -> (r: Result<String, String>)
    ensures
        match r {
            Ok(n) => name_rejection(name@, what@, plain@) is None && n@ == trimmed(name@),
            Err(m) => name_rejection(name@, what@, plain@) == Some(m@),
        },
{
    let raw = chars_of(name);
    let t = trim_chars(raw.as_slice());
    let mut message = chars_of(what);
    if t.len() == 0 {
        append_str(&mut message, " name cannot be empty");
        return Err(string_of(message.as_slice()));
    }
    if contains_char(t.as_slice(), '/') || contains_char(t.as_slice(), '\\') {
        append_str(&mut message, " name cannot contain path separators");
        return Err(string_of(message.as_slice()));
    }
    let dot = vec!['.'];
    let dotdot = vec!['.', '.'];
    assert(dot@ =~= seq!['.']);
    assert(dotdot@ =~= seq!['.', '.']);
    if seq_eq(t.as_slice(), dot.as_slice()) || seq_eq(t.as_slice(), dotdot.as_slice()) {
        append_str(&mut message, " name is not a plain ");
        append_str(&mut message, plain);
        append_str(&mut message, " name");
        assert(message@ =~= what@ + " name is not a plain "@ + plain@ + " name"@);
        return Err(string_of(message.as_slice()));
    }
    Ok(string_of(t.as_slice()))
}

impl FileExplorer {
    /// Whether `path` is a top-level entry (or lies inside one) of the project's `assets`
    /// folder, which the explorer refuses to delete.
    pub fn is_protected_path(&self, path: &str) -> (b: bool)
        ensures
            b == spec_is_protected(self.project_root@, path@),
    {
        let assets_dir = join(self.project_root.as_str(), "assets");
        match strip_prefix(path, assets_dir.as_str()) {
            Some(r) => {
                let rc = chars_of(r.as_str());
                let c = path_components(rc.as_slice());
                if c.len() == 0 {
                    return false;
                }
                let dotdot = vec!['.', '.'];
                assert(dotdot@ =~= seq!['.', '.']);
                assert(views(c@)[0] == c@[0]@);
                !seq_eq(c[0].as_slice(), dotdot.as_slice())
            },
            None => false,
        }
    }

    /// The trimmed name for a new folder, or why it is refused.
    pub fn validate_new_folder_name(name: &str) -> (r: Result<String, String>)
        ensures
            match r {
                Ok(n) => name_rejection(name@, "Folder"@, "folder"@) is None && n@ == trimmed(name@),
                Err(m) => name_rejection(name@, "Folder"@, "folder"@) == Some(m@),
            },
    {
        validate_new_name(name, "Folder", "folder")
    }

    /// The trimmed name for a new file, or why it is refused.
    pub fn validate_new_file_name(name: &str) -> (r: Result<String, String>)
        ensures
            match r {
                Ok(n) => name_rejection(name@, "File"@, "file"@) is None && n@ == trimmed(name@),
                Err(m) => name_rejection(name@, "File"@, "file"@) == Some(m@),
            },
    {
        validate_new_name(name, "File", "file")
    }

    /// Where a new folder named `name` goes in the current directory (after falling back
    /// to the project root when the current directory is invalid), or why it cannot be
    /// made there. Whether the path is already taken is for the caller to check.
    pub fn new_folder_path(&mut self, name: &str) -> (r: Result<String, String>)
        ensures
            final(self).project_root == old(self).project_root,
            final(self).back_history == old(self).back_history,
            final(self).forward_history == old(self).forward_history,
            final(self).current_path@ == (if old(self).current_path@.len() == 0 || !within(
                old(self).current_path@,
                old(self).project_root@,
            ) {
                old(self).project_root@
            } else {
                old(self).current_path@
            }),
            match name_rejection(name@, "Folder"@, "folder"@) {
                Some(m) => r matches Err(e) && e@ == m,
                None => {
                    let p = spec_join(final(self).current_path@, trimmed(name@));
                    if within(p, final(self).project_root@) {
                        r matches Ok(q) && q@ == p
                    } else {
                        r matches Err(e) && e@ == "Cannot create folder outside project root"@
                    }
                },
            },
    {
        self.ensure_current_path_is_valid();
        let n = match FileExplorer::validate_new_folder_name(name) {
            Ok(n) => n,
            Err(m) => return Err(m),
        };
        let path = join(self.current_path.as_str(), n.as_str());
        if !self.is_within_project_root(path.as_str()) {
            return Err(owned("Cannot create folder outside project root"));
        }
        Ok(path)
    }

    /// Where a new file named `name` goes in the current directory, as for folders.
    pub fn new_file_path(&mut self, name: &str) -> (r: Result<String, String>)
        ensures
            final(self).project_root == old(self).project_root,
            final(self).back_history == old(self).back_history,
            final(self).forward_history == old(self).forward_history,
            final(self).current_path@ == (if old(self).current_path@.len() == 0 || !within(
                old(self).current_path@,
                old(self).project_root@,
            ) {
                old(self).project_root@
            } else {
                old(self).current_path@
            }),
            match name_rejection(name@, "File"@, "file"@) {
                Some(m) => r matches Err(e) && e@ == m,
                None => {
                    let p = spec_join(final(self).current_path@, trimmed(name@));
                    if within(p, final(self).project_root@) {
                        r matches Ok(q) && q@ == p
                    } else {
                        r matches Err(e) && e@ == "Cannot create file outside project root"@
                    }
                },
            },
    {
        self.ensure_current_path_is_valid();
        let n = match FileExplorer::validate_new_file_name(name) {
            Ok(n) => n,
            Err(m) => return Err(m),
        };
        let path = join(self.current_path.as_str(), n.as_str());
        if !self.is_within_project_root(path.as_str()) {
            return Err(owned("Cannot create file outside project root"));
        }
        Ok(path)
    }

    /// The path of the selected entry in the current directory.
    pub fn selected_source(&self) -> (out: Option<String>)
        ensures
            match self.selected_entry {
                Some(n) => out matches Some(p) && p@ == spec_join(self.current_path@, n@),
                None => out is None,
            },
    {
        match &self.selected_entry {
            Some(n) => Some(join(self.current_path.as_str(), n.as_str())),
            None => None,
        }
    }

    /// Puts the selected entry on the clipboard to be moved. `existing_source` is the
    /// selected entry's canonical path, or `None` when it does not exist.
    pub fn cut_selected(&mut self, existing_source: Option<String>)
        ensures
            (old(self).selected_entry is Some && existing_source is Some) ==> final(self).clipboard == Some(
                ClipboardEntry { source: existing_source.unwrap(), cut: true },
            ),
            !(old(self).selected_entry is Some && existing_source is Some) ==> final(self).clipboard == old(
                self,
            ).clipboard,
            final(self).nav() == old(self).nav(),
            final(self).selected_entry == old(self).selected_entry,
    {
        if self.selected_entry.is_none() {
            return;
        }
        match existing_source {
            Some(source) => {
                self.clipboard = Some(ClipboardEntry { source, cut: true });
            },
            None => {},
        }
    }

    /// Puts the selected entry on the clipboard to be copied, as `cut_selected` does.
    pub fn copy_selected(&mut self, existing_source: Option<String>)
        ensures
            (old(self).selected_entry is Some && existing_source is Some) ==> final(self).clipboard == Some(
                ClipboardEntry { source: existing_source.unwrap(), cut: false },
            ),
            !(old(self).selected_entry is Some && existing_source is Some) ==> final(self).clipboard == old(
                self,
            ).clipboard,
            final(self).nav() == old(self).nav(),
            final(self).selected_entry == old(self).selected_entry,
    {
        if self.selected_entry.is_none() {
            return;
        }
        match existing_source {
            Some(source) => {
                self.clipboard = Some(ClipboardEntry { source, cut: false });
            },
            None => {},
        }
    }

    /// Starts renaming the selected entry.
    pub fn begin_rename(&mut self)
        ensures
            final(self).renaming == old(self).selected_entry,
            final(self).selected_entry == old(self).selected_entry,
            final(self).nav() == old(self).nav(),
    {
        self.renaming = match &self.selected_entry {
            Some(n) => Some(n.clone()),
            None => None,
        };
    }

    /// Whether `path` is among the favorite folders.
    pub fn is_favorite(&self, path: &str) -> (b: bool)
        ensures
            b == exists|i: int| 0 <= i < self.favorites@.len() && same_path(#[trigger] self.favorites@[i]@, path@),
    {
        let mut i: usize = 0;
        while i < self.favorites.len()
            invariant
                i <= self.favorites@.len(),
                forall|k: int| 0 <= k < i ==> !same_path(#[trigger] self.favorites@[k]@, path@),
            decreases self.favorites@.len() - i,
        {
            if paths_equal(self.favorites[i].as_str(), path) {
                return true;
            }
            i = i + 1;
        }
        false
    }

    /// Adds the (canonical) folder to the favorites, or removes the first favorite equal to
    /// it, and marks the favorites as changed.
    pub fn toggle_favorite(&mut self, canonical: String)
        ensures
            final(self).favorites_dirty,
            final(self).nav() == old(self).nav(),
            (exists|i: int| 0 <= i < old(self).favorites@.len() && same_path(#[trigger] old(self).favorites@[i]@, canonical@))
                ==> exists|k: int| {
                &&& 0 <= k < old(self).favorites@.len()
                &&& same_path(old(self).favorites@[k]@, canonical@)
                &&& forall|j: int| 0 <= j < k ==> !same_path(#[trigger] old(self).favorites@[j]@, canonical@)
                &&& final(self).favorites@ == old(self).favorites@.remove(k)
            },
            !(exists|i: int| 0 <= i < old(self).favorites@.len() && same_path(#[trigger] old(self).favorites@[i]@, canonical@))
                ==> final(self).favorites@ == old(self).favorites@.push(canonical),
    {
        let mut i: usize = 0;
        let mut found: Option<usize> = None;
        while i < self.favorites.len() && found.is_none()
            invariant
                i <= self.favorites@.len(),
                found is None ==> forall|k: int| 0 <= k < i ==> !same_path(#[trigger] self.favorites@[k]@, canonical@),
                found is Some ==> found.unwrap() < self.favorites@.len() && same_path(
                    self.favorites@[found.unwrap() as int]@,
                    canonical@,
                ) && forall|k: int| 0 <= k < found.unwrap() ==> !same_path(#[trigger] self.favorites@[k]@, canonical@),
            decreases self.favorites@.len() - i,
        {
            if paths_equal(self.favorites[i].as_str(), canonical.as_str()) {
                found = Some(i);
            }
            i = i + 1;
        }
        match found {
            Some(k) => {
                self.favorites.remove(k);
            },
            None => {
                self.favorites.push(canonical);
            },
        }
        self.mark_favorites_dirty();
    }

    /// Closes the create prompt.
    pub fn cancel_pending_create(&mut self)
        ensures
            final(self).pending_create is None,
            final(self).nav() == old(self).nav(),
    {
        self.pending_create = None;
    }

    /// The favorites as stored: each favorite below the project root, relative to it.
    pub fn favorites_relative(&self) -> (out: Vec<String>)
        ensures
            strings(out@) == strings(self.favorites@).filter(|f: Seq<char>| spec_strip_prefix(f, self.project_root@) is Some).map_values(
                |f: Seq<char>| spec_strip_prefix(f, self.project_root@).unwrap(),
            ),
    {
        let ghost keep = |f: Seq<char>| spec_strip_prefix(f, self.project_root@) is Some;
        let ghost rel = |f: Seq<char>| spec_strip_prefix(f, self.project_root@).unwrap();
        let mut out: Vec<String> = Vec::new();
        let mut i: usize = 0;
        while i < self.favorites.len()
            invariant
                i <= self.favorites@.len(),
                keep == (|f: Seq<char>| spec_strip_prefix(f, self.project_root@) is Some),
                rel == (|f: Seq<char>| spec_strip_prefix(f, self.project_root@).unwrap()),
                strings(out@) == strings(self.favorites@).take(i as int).filter(keep).map_values(rel),
            decreases self.favorites@.len() - i,
        {
            let ghost t = strings(self.favorites@).take(i as int);
            proof {
                assert(strings(self.favorites@).take(i + 1) =~= t.push(self.favorites@[i as int]@));
                t.lemma_filter_push(self.favorites@[i as int]@, keep);
            }
            match strip_prefix(self.favorites[i].as_str(), self.project_root.as_str()) {
                Some(r) => {
                    let ghost before = out@;
                    out.push(r);
                    proof {
                        assert(strings(out@) =~= strings(before).push(r@));
                        assert(t.filter(keep).push(self.favorites@[i as int]@).map_values(rel) =~= t.filter(
                            keep,
                        ).map_values(rel).push(rel(self.favorites@[i as int]@)));
                    }
                },
                None => {},
            }
            i = i + 1;
        }
        proof {
            assert(strings(self.favorites@).take(i as int) =~= strings(self.favorites@));
        }
        out
    }
}

/// The name tried for the `attempt`-th pasted copy of `name`: the name itself first, then
/// `<stem>_copy<n>` with the extension kept.
pub open spec fn spec_paste_candidate(name: Seq<char>, attempt: nat) -> Seq<char> {
    if attempt == 0 {
        name
    } else {
        let stem = match spec_file_stem(name) {
            Some(s) => s,
            None => name,
        };
        let base = stem + "_copy"@ + decimal(attempt);
        match spec_extension(name) {
            Some(e) => base + seq!['.'] + e,
            None => base,
        }
    }
}

/// The `attempt`-th candidate name for pasting `name` into a directory that may already
/// hold it; the caller tries attempts from zero until the path is free.
pub fn paste_candidate_name(name: &str, attempt: u64) -> (out: String)
    ensures
        out@ == spec_paste_candidate(name@, attempt as nat),
{
    if attempt == 0 {
        return owned(name);
    }
    let mut v = match file_stem(name) {
        Some(s) => chars_of(s.as_str()),
        None => chars_of(name),
    };
    append_str(&mut v, "_copy");
    push_decimal(&mut v, attempt);
    match extension(name) {
        Some(e) => {
            v.push('.');
            let ghost before = v@;
            append_str(&mut v, e.as_str());
        },
        None => {},
    }
    string_of(v.as_slice())
}

impl FileExplorer {
    /// Where the `attempt`-th candidate for pasting `name` lies in the current directory.
    pub fn resolve_paste_destination(&self, name: &str, attempt: u64) -> (out: String)
        ensures
            out@ == spec_join(self.current_path@, spec_paste_candidate(name@, attempt as nat)),
    {
        let candidate = paste_candidate_name(name, attempt);
        join(self.current_path.as_str(), candidate.as_str())
    }
}

/// The message for a new entry whose path is taken.
pub fn already_exists_message(is_folder: bool, name: &str) -> (m: String)
    ensures
        m@ == (if is_folder { "Folder '"@ } else { "File '"@ }) + name@ + "' already exists"@,
{
    let mut v = if is_folder {
        chars_of("Folder '")
    } else {
        chars_of("File '")
    };
    append_str(&mut v, name);
    append_str(&mut v, "' already exists");
    string_of(v.as_slice())
}

pub open spec fn script_class_body() -> Seq<char> {
    " : ZEScript\n{\n\t// Fields\n\n\tpublic override void OnCreate()\n\t{\n\t}\n\n\tpublic override void OnStart()\n\t{\n\t}\n\n\tpublic override void OnUpdate()\n\t{\n\t}\n\n\tpublic override void OnFixedUpdate()\n\t{\n\t}\n}\n"@
}

pub open spec fn component_class_body() -> Seq<char> {
    " : ZEScript\n{\n\t// Fields\n}\n"@
}

pub open spec fn class_header() -> Seq<char> {
    "using ZeroEngine;\n\npublic class "@
}

/// The source of a new C# script: a `ZEScript` subclass with empty lifecycle methods.
pub fn csharp_script_template(class_name: &str) -> (s: String)
    ensures
        s@ == class_header() + class_name@ + script_class_body(),
{
    let mut v = chars_of("using ZeroEngine;\n\npublic class ");
    append_str(&mut v, class_name);
    append_str(
        &mut v,
        " : ZEScript\n{\n\t// Fields\n\n\tpublic override void OnCreate()\n\t{\n\t}\n\n\tpublic override void OnStart()\n\t{\n\t}\n\n\tpublic override void OnUpdate()\n\t{\n\t}\n\n\tpublic override void OnFixedUpdate()\n\t{\n\t}\n}\n",
    );
    string_of(v.as_slice())
}

/// The source of a new C# component: a `ZEScript` subclass with only fields.
pub fn csharp_component_template(class_name: &str) -> (s: String)
    ensures
        s@ == class_header() + class_name@ + component_class_body(),
{
    let mut v = chars_of("using ZeroEngine;\n\npublic class ");
    append_str(&mut v, class_name);
    append_str(&mut v, " : ZEScript\n{\n\t// Fields\n}\n");
    string_of(v.as_slice())
}

/// The colour of an entry's icon, as red, green and blue: blue for folders, gray for files.
pub fn entry_icon_color(is_directory: bool) -> (rgb: (u8, u8, u8))
    ensures
        rgb == if is_directory { (95u8, 145u8, 220u8) } else { (120u8, 124u8, 132u8) },
{
    if is_directory {
        (95, 145, 220)
    } else {
        (120, 124, 132)
    }
}

/// The colour of an entry's name, as red, green and blue: light blue for folders, light
/// gray for files.
pub fn entry_text_color(is_directory: bool) -> (rgb: (u8, u8, u8))
    ensures
        rgb == if is_directory { (185u8, 215u8, 255u8) } else { (214u8, 214u8, 218u8) },
{
    if is_directory {
        (185, 215, 255)
    } else {
        (214, 214, 218)
    }
}

/// The names of the entries, in order, that are kept by the ignore patterns and are (or
/// are not) directories.
pub open spec fn kept_names(current_path: Seq<char>, entries: Seq<(String, bool)>, patterns: Seq<IgnorePattern>,
    dirs: bool) -> Seq<Seq<char>>
    decreases entries.len(),
{
    if entries.len() == 0 {
        Seq::empty()
    } else {
        let rest = kept_names(current_path, entries.drop_last(), patterns, dirs);
        let (name, is_dir) = entries.last();
        if is_dir == dirs && !spec_matches_ignore_pattern(spec_join(current_path, name@), patterns) {
            rest.push(name@)
        } else {
            rest
        }
    }
}

/// The entries of the current folder as the grid shows them: those no ignore pattern
/// matches, folders first, each group in name order. Each entry is a name and whether it
/// is a folder.
pub fn grid_entries(current_path: &str, entries: &[(String, bool)], patterns: &[IgnorePattern]) -> (out: Vec<
    (String, bool),
>)
    ensures
        ({
            let d = kept_names(current_path@, entries@, patterns@, true);
            let f = kept_names(current_path@, entries@, patterns@, false);
            &&& out@.len() == d.len() + f.len()
            &&& forall|i: int| 0 <= i < out@.len() ==> (#[trigger] out@[i]).1 == (i < d.len())
            &&& sorted(out@.take(d.len() as int).map_values(|e: (String, bool)| e.0@))
            &&& sorted(out@.skip(d.len() as int).map_values(|e: (String, bool)| e.0@))
            &&& out@.take(d.len() as int).map_values(|e: (String, bool)| e.0@).to_multiset() == d.to_multiset()
            &&& out@.skip(d.len() as int).map_values(|e: (String, bool)| e.0@).to_multiset() == f.to_multiset()
        }),
{
    let mut dirs: Vec<String> = Vec::new();
    let mut files: Vec<String> = Vec::new();
    let mut i: usize = 0;
    while i < entries.len()
        invariant
            i <= entries@.len(),
            string_views(dirs@) == kept_names(current_path@, entries@.take(i as int), patterns@, true),
            string_views(files@) == kept_names(current_path@, entries@.take(i as int), patterns@, false),
        decreases entries@.len() - i,
    {
        proof {
            assert(entries@.take(i + 1).drop_last() =~= entries@.take(i as int));
        }
        let path = join(current_path, entries[i].0.as_str());
        if !matches_ignore_pattern(path.as_str(), patterns) {
            if entries[i].1 {
                let ghost before = string_views(dirs@);
                dirs.push(entries[i].0.clone());
                proof {
                    assert(string_views(dirs@) =~= before.push(entries@[i as int].0@));
                }
            } else {
                let ghost before = string_views(files@);
                files.push(entries[i].0.clone());
                proof {
                    assert(string_views(files@) =~= before.push(entries@[i as int].0@));
                }
            }
        }
        i = i + 1;
    }
    proof {
        assert(entries@.take(i as int) =~= entries@);
    }
    let ghost d = string_views(dirs@);
    let ghost f = string_views(files@);
    let dirs = sort_strings(dirs);
    let files = sort_strings(files);
    proof {
        vstd::seq_lib::to_multiset_len(d);
        vstd::seq_lib::to_multiset_len(string_views(dirs@));
        vstd::seq_lib::to_multiset_len(f);
        vstd::seq_lib::to_multiset_len(string_views(files@));
    }
    let mut out: Vec<(String, bool)> = Vec::new();
    let mut k: usize = 0;
    while k < dirs.len()
        invariant
            k <= dirs@.len(),
            out@.len() == k,
            forall|j: int| 0 <= j < k ==> (#[trigger] out@[j]).0@ == dirs@[j]@ && out@[j].1,
        decreases dirs@.len() - k,
    {
        out.push((dirs[k].clone(), true));
        k = k + 1;
    }
    let mut m: usize = 0;
    while m < files.len()
        invariant
            m <= files@.len(),
            out@.len() == dirs@.len() + m,
            forall|j: int| 0 <= j < dirs@.len() ==> (#[trigger] out@[j]).0@ == dirs@[j]@ && out@[j].1,
            forall|j: int| 0 <= j < m ==> (#[trigger] out@[dirs@.len() + j]).0@ == files@[j]@ && !out@[dirs@.len()
                + j].1,
        decreases files@.len() - m,
    {
        out.push((files[m].clone(), false));
        m = m + 1;
    }
    proof {
        let n = dirs@.len() as int;
        assert(out@.take(n).map_values(|e: (String, bool)| e.0@) =~= string_views(dirs@));
        assert forall|j: int| 0 <= j < files@.len() implies out@.skip(n).map_values(|e: (String, bool)| e.0@)[j]
            == string_views(files@)[j] by {
            assert(out@.skip(n)[j] == out@[n + j]);
        }
        assert(out@.skip(n).map_values(|e: (String, bool)| e.0@) =~= string_views(files@));
        assert forall|i: int| 0 <= i < out@.len() implies (#[trigger] out@[i]).1 == (i < n) by {
            if i >= n {
                assert(out@[n + (i - n)].1 == false);
            }
        }
    }
    out
}

/// The grid keys pressed this frame (the first one in this order counts).
#[derive(Debug, Clone, Copy, PartialEq, Eq, Structural)]
pub enum GridKey {
    Right,
    Left,
    Down,
    Up,
}

/// The entry selected after an arrow key in a grid of `len` entries laid out `columns` to
/// a row: right and left step by one, down and up by a row, stopping at the ends; nothing
/// is selected when nothing was.
pub fn grid_navigation(current: Option<usize>, len: usize, columns: usize, key: GridKey) -> (next: Option<usize>)
    requires
        len > 0,
        columns >= 1,
        current matches Some(i) ==> i < len,
    ensures
        match current {
            None => next is None,
            Some(i) => next == Some(
                match key {
                    GridKey::Right => if i + 1 < len { (i + 1) as usize } else { (len - 1) as usize },
                    GridKey::Left => if i >= 1 { (i - 1) as usize } else { 0usize },
                    GridKey::Down => if i + columns < len { (i + columns) as usize } else { (len - 1) as usize },
                    GridKey::Up => if i >= columns { (i - columns) as usize } else { 0usize },
                },
            ),
        },
{
    let i = match current {
        Some(i) => i,
        None => return None,
    };
    let n = match key {
        GridKey::Right => if i + 1 < len { i + 1 } else { len - 1 },
        GridKey::Left => if i >= 1 { i - 1 } else { 0 },
        GridKey::Down => if columns < len - i { i + columns } else { len - 1 },
        GridKey::Up => if i >= columns { i - columns } else { 0 },
    };
    Some(n)
}

/// A rename the explorer goes on with: from `src` to `dst`, giving the entry `name`.
#[derive(Debug, Clone)]
pub struct RenameTarget {
    pub src: String,
    pub dst: String,
    pub name: String,
}

/// What committing a rename of the selected entry does: nothing without a selection, or
/// when the trimmed new name is blank or the same as the old one; otherwise a move within
/// the current folder (which the caller makes only when the destination does not exist).
pub fn rename_target(current_path: &str, selected: Option<&str>, new_name: &str) -> (r: Option<RenameTarget>)
    ensures
        match selected {
            None => r is None,
            Some(old) => if trimmed(new_name@).len() == 0 || trimmed(new_name@) == old@ {
                r is None
            } else {
                r matches Some(t) && t.src@ == spec_join(current_path@, old@) && t.dst@ == spec_join(
                    current_path@,
                    trimmed(new_name@),
                ) && t.name@ == trimmed(new_name@)
            },
        },
{
    let old = match selected {
        Some(o) => o,
        None => return None,
    };
    let raw = chars_of(new_name);
    let t = trim_chars(raw.as_slice());
    let oc = chars_of(old);
    if t.len() == 0 || seq_eq(t.as_slice(), oc.as_slice()) {
        return None;
    }
    let name = string_of(t.as_slice());
    Some(RenameTarget { src: join(current_path, old), dst: join(current_path, name.as_str()), name })
}

} // verus!
