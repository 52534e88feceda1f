//! The file-search tool's decisions: which directories the walk enters,
//! which file names match, and the text the tool answers with.

use vstd::prelude::*;
use vstd::string::*;
use crate::config::string_views;
use crate::text::{chars_of, has_prefix, matches_at, push_decimal, nat_decimal, str_eq, starts_with};

verus! {

/// What `str::to_lowercase` returns for `s` (full Unicode lower-casing).
pub uninterp spec fn lowercase(s: Seq<char>) -> Seq<char>;

/// Calls `str::to_lowercase`, whose result depends on the string alone.
/// Unicode case mapping is not written out here: the result is named
/// `lowercase(s)` and nothing more is claimed about it.
#[verifier::external_body]
fn to_lowercase(s: &str) -> (r: String)
    ensures
        r@ == lowercase(s@),
{
    s.to_lowercase()
}

/// `p` occurs somewhere in `s`.
pub open spec fn contains_text(s: Seq<char>, p: Seq<char>) -> bool {
    exists|i: int| 0 <= i <= s.len() - p.len() && #[trigger] s.subrange(i, i + p.len()) == p
}

/// `lower_search` occurs in `lower_name` (both already lower-cased).
pub fn lowered_name_matches(lower_name: &str, lower_search: &str) -> (b: bool)
    ensures
        b == contains_text(lower_name@, lower_search@),
{
    let v = chars_of(lower_name);
    let p = chars_of(lower_search);
    if p.len() > v.len() {
        return false;
    }
    if p.len() == 0 {
        assert(v@.subrange(0, 0 + p@.len() as int) =~= p@);
        assert(contains_text(v@, p@));
        return true;
    }
    let last = v.len() - p.len();
    let mut i: usize = 0;
    while i <= last
        invariant
            v@ == lower_name@,
            p@ == lower_search@,
            last == v@.len() - p@.len(),
            p@.len() > 0,
            v@.len() == v.len(),
            i <= last + 1,
            forall|j: int| 0 <= j < i ==> #[trigger] v@.subrange(j, j + p@.len()) != p@,
        decreases last + 1 - i,
    {
        if matches_at(&v, i, &p) {
            assert(v@.subrange(i as int, v@.len() as int).subrange(0, p@.len() as int) =~= v@.subrange(
                i as int,
                i + p@.len(),
            ));
            return true;
        }
        assert(v@.subrange(i as int, v@.len() as int).subrange(0, p@.len() as int) =~= v@.subrange(
            i as int,
            i + p@.len(),
        ));
        i = i + 1;
    }
    false
}

/// The file name matches the search when the lower-cased search text occurs
/// in the lower-cased name.
pub fn file_name_matches(file_name: &str, search: &str) -> (b: bool)
    ensures
        b == contains_text(lowercase(file_name@), lowercase(search@)),
{
    let name = to_lowercase(file_name);
    let term = to_lowercase(search);
    lowered_name_matches(name.as_str(), term.as_str())
}

/// The walk enters a directory unless it is hidden or a build or cache directory.
pub open spec fn enters_directory(name: Seq<char>) -> bool {
    !has_prefix(name, "."@) && name != "target"@ && name != "node_modules"@ && name
        != "__pycache__"@
}

/// Whether the walk enters the directory named `dir_name`.
pub fn should_enter_directory(dir_name: &str) -> (b: bool)
    ensures
        b == enters_directory(dir_name@),
{
    !starts_with(dir_name, ".") && !str_eq(dir_name, "target") && !str_eq(dir_name, "node_modules")
        && !str_eq(dir_name, "__pycache__")
}

/// The paths joined with newlines between them.
pub open spec fn joined_lines(paths: Seq<Seq<char>>) -> Seq<char>
    decreases paths.len(),
{
    if paths.len() == 0 {
        Seq::<char>::empty()
    } else if paths.len() == 1 {
        paths[0]
    } else {
        joined_lines(paths.drop_last()) + "\n"@ + paths.last()
    }
}

/// The tool's answer for the paths found.
pub open spec fn find_report(search: Seq<char>, paths: Seq<Seq<char>>) -> Seq<char> {
    if paths.len() == 0 {
        "No files found matching '"@ + search + "'"@
    } else {
        "Found "@ + nat_decimal(paths.len()) + " file(s) matching '"@ + search + "':\n"@
            + joined_lines(paths)
    }
}

/// The tool's answer for the paths found.
pub fn find_result_text(search: &str, paths: &Vec<String>) -> (r: String)
    ensures
        r@ == find_report(search@, string_views(paths@)),
{
    let ghost pv = string_views(paths@);
    if paths.len() == 0 {
        let mut r = String::from_str("No files found matching '");
        r.append(search);
        r.append("'");
        return r;
    }
    let mut r = String::from_str("Found ");
    push_decimal(&mut r, paths.len() as u64);
    r.append(" file(s) matching '");
    r.append(search);
    r.append("':\n");
    let ghost head = r@;
    r.append(paths[0].as_str());
    assert(pv.take(1) =~= seq![pv[0]]);
    let mut i: usize = 1;
    while i < paths.len()
        invariant
            1 <= i <= paths@.len(),
            pv == string_views(paths@),
            r@ == head + joined_lines(pv.take(i as int)),
        decreases paths@.len() - i,
    {
        r.append("\n");
        r.append(paths[i].as_str());
        proof {
            assert(pv.take(i + 1).drop_last() =~= pv.take(i as int));
            assert(pv.take(i + 1).last() == paths@[i as int]@);
        }
        i = i + 1;
    }
    assert(pv.take(paths@.len() as int) =~= pv);
    r
}

/// The walk skips a directory exactly when its name starts with a dot or is
/// `target`, `node_modules` or `__pycache__`; it enters every other directory.
pub proof fn law_skipped_directories(name: Seq<char>)
    ensures
        !enters_directory(name) <==> (name.len() > 0 && name[0] == '.') || name
            == seq!['t', 'a', 'r', 'g', 'e', 't'] || name == seq![
            'n',
            'o',
            'd',
            'e',
            '_',
            'm',
            'o',
            'd',
            'u',
            'l',
            'e',
            's',
        ] || name == seq![
            '_',
            '_',
            'p',
            'y',
            'c',
            'a',
            'c',
            'h',
            'e',
            '_',
            '_',
        ],
{
    reveal_strlit(".");
    reveal_strlit("target");
    reveal_strlit("node_modules");
    reveal_strlit("__pycache__");
    if name.len() > 0 && name[0] == '.' {
        assert(name.subrange(0, 1) =~= "."@);
    }
    if has_prefix(name, "."@) {
        assert(name.subrange(0, 1)[0] == name[0]);
    }
    assert("target"@ =~= seq!['t', 'a', 'r', 'g', 'e', 't']);
    assert("node_modules"@ =~= seq!['n', 'o', 'd', 'e', '_', 'm', 'o', 'd', 'u', 'l', 'e', 's']);
    assert("__pycache__"@ =~= seq!['_', '_', 'p', 'y', 'c', 'a', 'c', 'h', 'e', '_', '_']);
}

} // verus!
