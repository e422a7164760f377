use vstd::prelude::*;
use vstd::string::*;

use crate::text::{
    ends_with, has_char, has_prefix, has_suffix, same_text, split_at_char, split_on,
    starts_with,
};

verus! {

/// The extensions that the part of a pattern after `*.` names.
pub open spec fn pattern_extensions(ext: Seq<char>) -> Seq<Seq<char>> {
    if starts_with(ext, seq!['{']) && ends_with(ext, seq!['}']) {
        split_on(ext.subrange(1, ext.len() - 1), ',')
    } else {
        seq![ext]
    }
}

/// Whether a file name is selected by a pattern: `*`, `*.ext`, `*.{a,b}`,
/// or else the exact name.
pub open spec fn pattern_matches(name: Seq<char>, pattern: Seq<char>) -> bool {
    if pattern == seq!['*'] {
        true
    } else if starts_with(pattern, seq!['*', '.']) {
        let ext = pattern.subrange(2, pattern.len() as int);
        if ext.contains(',') || ext.contains('{') {
            let exts = pattern_extensions(ext);
            exists|k: int| 0 <= k < exts.len() && ends_with(name, seq!['.'] + #[trigger] exts[k])
        } else {
            ends_with(name, seq!['.'] + ext)
        }
    } else {
        name == pattern
    }
}

/// Directories that a walk never enters: hidden ones and build or
/// dependency output.
pub open spec fn skipped_dir(name: Seq<char>) -> bool {
    starts_with(name, seq!['.']) || name == "target"@ || name == "node_modules"@
}

/// Whether `name` ends with a dot followed by `ext`.
fn has_extension(name: &str, ext: &str) -> (r: bool)
    ensures
        r == ends_with(name@, seq!['.'] + ext@),
{
    proof {
        reveal_strlit(".");
    }
    assert("."@ =~= seq!['.']);
    let mut dotted = String::from_str(".");
    dotted.append(ext);
    has_suffix(name, dotted.as_str())
}

/// Whether the file name `name` is selected by `pattern`.
pub fn matches_pattern(name: &str, pattern: &str) -> (r: bool)
    ensures
        r == pattern_matches(name@, pattern@),
{
    proof {
        reveal_strlit("*");
        reveal_strlit("*.");
        reveal_strlit("{");
        reveal_strlit("}");
    }
    assert("*"@ =~= seq!['*']);
    if same_text(pattern, "*") {
        assert(pattern@ == seq!['*']);
        return true;
    }
    assert(pattern@ != seq!['*']);
    if !has_prefix(pattern, "*.") {
        assert("*."@ =~= seq!['*', '.']);
        return same_text(name, pattern);
    }
    assert("*."@ =~= seq!['*', '.']);
    let n = pattern.unicode_len();
    let ext = pattern.substring_char(2, n);
    if !(has_char(ext, ',') || has_char(ext, '{')) {
        return has_extension(name, ext);
    }
    let m = ext.unicode_len();
    assert(ext@ == pattern@.subrange(2, pattern@.len() as int));
    let ghost want = pattern_extensions(ext@);
    assert("{"@ =~= seq!['{']);
    assert("}"@ =~= seq!['}']);
    let braced = has_prefix(ext, "{") && has_suffix(ext, "}");
    let exts: Vec<String> = if braced {
        assert(ext@.subrange(0, 1)[0] == ext@[0]);
        assert(ext@.subrange(m - 1, m as int)[0] == ext@[m - 1]);
        let inner = ext.substring_char(1, m - 1);
        assert(want == split_on(inner@, ','));
        split_at_char(inner, ',')
    } else {
        let mut one: Vec<String> = Vec::new();
        one.push(ext.to_owned());
        assert(want == seq![ext@]);
        one
    };
    assert(exts@.len() == want.len());
    assert(forall|k: int| 0 <= k < exts@.len() ==> #[trigger] exts@[k]@ == want[k]);
    let mut i: usize = 0;
    while i < exts.len()
        invariant
            want == pattern_extensions(ext@),
            ext@ == pattern@.subrange(2, pattern@.len() as int),
            pattern@ != seq!['*'],
            starts_with(pattern@, seq!['*', '.']),
            ext@.contains(',') || ext@.contains('{'),
            exts@.len() == want.len(),
            forall|k: int| 0 <= k < exts@.len() ==> #[trigger] exts@[k]@ == want[k],
            i <= exts@.len(),
            forall|k: int| 0 <= k < i ==> !ends_with(name@, seq!['.'] + #[trigger] want[k]),
        decreases exts@.len() - i,
    {
        if has_extension(name, exts[i].as_str()) {
            assert(ends_with(name@, seq!['.'] + want[i as int]));
            return true;
        }
        i = i + 1;
    }
    false
}

/// Whether a walk leaves the directory named `name` out, with all it holds.
pub fn should_skip_dir(name: &str) -> (r: bool)
    ensures
        r == skipped_dir(name@),
{
    proof {
        reveal_strlit(".");
    }
    assert("."@ =~= seq!['.']);
    has_prefix(name, ".") || same_text(name, "target") || same_text(name, "node_modules")
}

/// One entry of a directory listing.
pub struct DirEntryInfo {
    pub path: String,
    pub name: String,
    pub is_dir: bool,
    pub is_file: bool,
}

/// What a walk does with an entry of a directory listing.
#[derive(PartialEq, Eq, Structural, Debug, Clone, Copy)]
pub enum EntryAction {
    Descend,
    Collect,
    Skip,
}

pub open spec fn entry_action(e: DirEntryInfo, pattern: Seq<char>) -> EntryAction {
    if e.is_dir {
        if skipped_dir(e.name@) {
            EntryAction::Skip
        } else {
            EntryAction::Descend
        }
    } else if e.is_file && pattern_matches(e.name@, pattern) {
        EntryAction::Collect
    } else {
        EntryAction::Skip
    }
}

/// Decides whether a walk enters, collects or passes over an entry.
pub fn classify_entry(e: &DirEntryInfo, pattern: &str) -> (r: EntryAction)
    ensures
        r == entry_action(*e, pattern@),
        e.is_dir && skipped_dir(e.name@) ==> r == EntryAction::Skip,
        r == EntryAction::Collect ==> e.is_file && pattern_matches(e.name@, pattern@),
{
    if e.is_dir {
        if should_skip_dir(e.name.as_str()) {
            EntryAction::Skip
        } else {
            EntryAction::Descend
        }
    } else if e.is_file && matches_pattern(e.name.as_str(), pattern) {
        EntryAction::Collect
    } else {
        EntryAction::Skip
    }
}

} // verus!
