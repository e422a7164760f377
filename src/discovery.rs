use vstd::prelude::*;

use crate::text::{
    blank, copy_text, is_blank, same_text, split_at_char, split_on, trim, trimmed, views,
};

verus! {

/// Where the files of a batch come from.
pub enum DiscoveryMode {
    /// The files that version control reports as changed.
    GitDiff,
    /// The paths of an explicit list, in the order given.
    Files(Vec<String>),
    /// The files under `root` whose names match `pattern`.
    Dir { root: String, pattern: String },
}

/// No way of finding files was asked for.
#[derive(PartialEq, Eq, Structural, Debug, Clone, Copy)]
pub enum ModeError {
    NoMode,
}

/// The paths of a comma-separated list, each trimmed.
pub open spec fn listed_paths(s: Seq<char>) -> Seq<Seq<char>> {
    split_on(s, ',').map_values(|p: Seq<char>| trim(p))
}

/// The trimmed, non-blank lines of a command's output.
pub open spec fn changed_paths(lines: Seq<Seq<char>>) -> Seq<Seq<char>>
    decreases lines.len(),
{
    if lines.len() == 0 {
        Seq::empty()
    } else {
        let rest = changed_paths(lines.drop_last());
        if is_blank(lines.last()) {
            rest
        } else {
            rest.push(trim(lines.last()))
        }
    }
}

/// The paths with every repeat dropped: each path stays once, at its
/// first position.
pub open spec fn dedup(paths: Seq<Seq<char>>) -> Seq<Seq<char>>
    decreases paths.len(),
{
    if paths.len() == 0 {
        Seq::empty()
    } else {
        let rest = dedup(paths.drop_last());
        if rest.contains(paths.last()) {
            rest
        } else {
            rest.push(paths.last())
        }
    }
}

/// A list with repeats dropped holds each path once, holds every path of
/// the list, and holds nothing else.
pub proof fn lemma_dedup(paths: Seq<Seq<char>>)
    ensures
        dedup(paths).no_duplicates(),
        forall|p: Seq<char>| paths.contains(p) <==> #[trigger] dedup(paths).contains(p),
    decreases paths.len(),
{
    if paths.len() > 0 {
        let init = paths.drop_last();
        lemma_dedup(init);
        let rest = dedup(init);
        let last = paths.last();
        assert forall|p: Seq<char>| paths.contains(p) <==> #[trigger] dedup(paths).contains(p) by {
            let d = dedup(paths);
            if paths.contains(p) {
                let k = choose|k: int| 0 <= k < paths.len() && paths[k] == p;
                if k < paths.len() - 1 {
                    assert(init[k] == p);
                    assert(init.contains(p));
                    assert(rest.contains(p));
                    let m = choose|m: int| 0 <= m < rest.len() && rest[m] == p;
                    if !rest.contains(last) {
                        assert(d == rest.push(last));
                        assert(d[m] == p);
                    }
                } else {
                    assert(p == last);
                    if !rest.contains(last) {
                        assert(d == rest.push(last));
                        assert(d[rest.len() as int] == p);
                    }
                }
            }
            if d.contains(p) {
                let m = choose|m: int| 0 <= m < d.len() && d[m] == p;
                if rest.contains(last) {
                    assert(rest.contains(p));
                } else {
                    assert(d == rest.push(last));
                    if m < rest.len() {
                        assert(rest[m] == p);
                        assert(rest.contains(p));
                    }
                }
                if rest.contains(p) {
                    assert(init.contains(p));
                    let k = choose|k: int| 0 <= k < init.len() && init[k] == p;
                    assert(paths[k] == p);
                } else {
                    assert(p == last);
                    assert(paths[paths.len() - 1] == p);
                }
            }
        }
        if !rest.contains(paths.last()) {
            let d = rest.push(paths.last());
            assert forall|i: int, j: int|
                0 <= i < d.len() && 0 <= j < d.len() && i != j implies d[i] != d[j] by {
                if i == rest.len() {
                    assert(rest[j] == d[j]);
                } else if j == rest.len() {
                    assert(rest[i] == d[i]);
                }
            }
        }
    } else {
        assert(dedup(paths) =~= Seq::<Seq<char>>::empty());
    }
}

/// Drops every repeat of a path, keeping its first position.
pub fn dedup_paths(v: Vec<String>) -> (r: Vec<String>)
    ensures
        views(r@) == dedup(views(v@)),
{
    let mut out: Vec<String> = Vec::new();
    let mut i: usize = 0;
    while i < v.len()
        invariant
            i <= v@.len(),
            views(out@) == dedup(views(v@.subrange(0, i as int))),
        decreases v@.len() - i,
    {
        let ghost before = views(v@.subrange(0, i as int));
        let ghost after = views(v@.subrange(0, i + 1));
        assert(after.drop_last() =~= before);
        assert(after.last() == v@[i as int]@);
        let mut seen = false;
        let mut j: usize = 0;
        while j < out.len()
            invariant
                i < v@.len(),
                j <= out@.len(),
                views(out@) == dedup(before),
                after.last() == v@[i as int]@,
                seen == exists|k: int| 0 <= k < j && #[trigger] out@[k]@ == v@[i as int]@,
            decreases out@.len() - j,
        {
            if same_text(out[j].as_str(), v[i].as_str()) {
                seen = true;
            }
            j = j + 1;
        }
        proof {
            let d = dedup(before);
            if seen {
                let k = choose|k: int| 0 <= k < out@.len() && #[trigger] out@[k]@ == v@[i as int]@;
                assert(d[k] == v@[i as int]@);
                assert(d.contains(after.last()));
            } else {
                assert forall|k: int| 0 <= k < d.len() implies d[k] != after.last() by {
                    assert(d[k] == out@[k]@);
                }
                assert(!d.contains(after.last()));
            }
        }
        if !seen {
            let ghost prev = out@;
            out.push(copy_text(&v[i]));
            assert(views(out@) =~= views(prev).push(v@[i as int]@));
        }
        i = i + 1;
    }
    assert(v@.subrange(0, v@.len() as int) =~= v@);
    out
}

/// The paths of an explicit list: split on `,`, each trimmed, each kept
/// once at its first position.
pub fn split_file_list(s: &str) -> (r: Vec<String>)
    ensures
        views(r@) == dedup(listed_paths(s@)),
{
    let parts = split_at_char(s, ',');
    let ghost pieces = split_on(s@, ',');
    let mut out: Vec<String> = Vec::new();
    let mut i: usize = 0;
    while i < parts.len()
        invariant
            parts@.len() == pieces.len(),
            forall|k: int| 0 <= k < parts@.len() ==> #[trigger] parts@[k]@ == pieces[k],
            i <= parts@.len(),
            out@.len() == i,
            forall|k: int| 0 <= k < i ==> #[trigger] out@[k]@ == trim(pieces[k]),
        decreases parts@.len() - i,
    {
        let t = trimmed(parts[i].as_str());
        out.push(t.to_owned());
        i = i + 1;
    }
    assert(views(out@) =~= listed_paths(s@));
    dedup_paths(out)
}

/// Picks how the files of a batch are found: a version-control diff first,
/// then an explicit list, then a directory walk (with `*` as the pattern
/// when none is given).
pub fn choose_mode(
    git_diff: bool,
    files: &Option<String>,
    dir: &Option<String>,
    pattern: &Option<String>,
) -> (r: Result<DiscoveryMode, ModeError>)
    ensures
        git_diff ==> r matches Ok(DiscoveryMode::GitDiff),
        !git_diff && files.is_some() ==> (r matches Ok(DiscoveryMode::Files(v)) && views(v@)
            == dedup(listed_paths(files->0@))),
        !git_diff && files.is_none() && dir.is_some() ==> (r matches Ok(
            DiscoveryMode::Dir { root, pattern: p },
        ) && root@ == dir->0@ && p@ == (match pattern {
            Some(q) => q@,
            None => seq!['*'],
        })),
        !git_diff && files.is_none() && dir.is_none() ==> r == Err::<DiscoveryMode, ModeError>(
            ModeError::NoMode,
        ),
{
    if git_diff {
        return Ok(DiscoveryMode::GitDiff);
    }
    match files {
        Some(list) => {
            return Ok(DiscoveryMode::Files(split_file_list(list.as_str())));
        },
        None => {},
    }
    match dir {
        Some(root) => {
            let p = match pattern {
                Some(q) => q.clone(),
                None => {
                    proof {
                        reveal_strlit("*");
                    }
                    String::from_str("*")
                },
            };
            Ok(DiscoveryMode::Dir { root: root.clone(), pattern: p })
        },
        None => Err(ModeError::NoMode),
    }
}

impl ModeError {
    /// The message that reports the failure.
    pub fn message(&self) -> (r: String)
        ensures
            r@ == "Must specify one of: --files, --git-diff, or --dir"@,
    {
        String::from_str("Must specify one of: --files, --git-diff, or --dir")
    }
}

/// The output of a version-control diff listing.
pub struct GitDiff {
    pub stdout: String,
}

impl GitDiff {
    /// Whether the listing of staged changes is empty, so that the listing
    /// of unstaged changes is to be used instead.
    pub fn needs_fallback(staged: &str) -> (r: bool)
        ensures
            r == is_blank(staged@),
    {
        blank(staged)
    }

    /// The changed paths: each line trimmed, blank lines dropped, repeats
    /// dropped, in the order of the output.
    pub fn parse_changed_files(&self) -> (r: Vec<String>)
        ensures
            views(r@) == dedup(changed_paths(split_on(self.stdout@, '\n'))),
    {
        let lines = split_at_char(self.stdout.as_str(), '\n');
        let ghost ls = split_on(self.stdout@, '\n');
        let mut out: Vec<String> = Vec::new();
        let mut i: usize = 0;
        while i < lines.len()
            invariant
                lines@.len() == ls.len(),
                forall|k: int| 0 <= k < lines@.len() ==> #[trigger] lines@[k]@ == ls[k],
                i <= lines@.len(),
                views(out@) == changed_paths(ls.subrange(0, i as int)),
            decreases lines@.len() - i,
        {
            let ghost before = out@;
            assert(ls.subrange(0, i + 1).drop_last() =~= ls.subrange(0, i as int));
            assert(ls.subrange(0, i + 1).last() == ls[i as int]);
            let t = trimmed(lines[i].as_str());
            if !blank(lines[i].as_str()) {
                out.push(t.to_owned());
                assert(views(out@) =~= views(before).push(t@));
            }
            i = i + 1;
        }
        assert(ls.subrange(0, lines@.len() as int) =~= ls);
        dedup_paths(out)
    }
}

} // verus!
