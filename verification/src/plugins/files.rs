//! File search, activated with the `f` keyword: `f report.pdf` searches the
//! home directory with `fd` (or `find` where `fd` is missing); choosing a
//! result opens it. Running the search is the application's part; the
//! commands and the items are built here.

use crate::direct::opt_view;
use crate::proto::ResultItem;
use crate::rank::{utf8_len, utf8_prefix_len};
use crate::text::{cat, chars_of, string_of, trim, trim_chars};
use vstd::prelude::*;

verus! {

/// How many files one search lists at most.
pub const MAX_FILES: usize = 20;

/// The query searched for `text`: the trimmed text, when it is at least two
/// bytes long.
pub fn file_needle(text: &str) -> (r: Option<String>)
    ensures
        utf8_len(trim(text@)) < 2 ==> r is None,
        utf8_len(trim(text@)) >= 2 ==> (r matches Some(n) && n@ == trim(text@)),
{
    let t = trim_chars(&chars_of(text));
    if utf8_prefix_len(&t, t.len()) < 2 {
        assert(t@.subrange(0, t@.len() as int) =~= t@);
        None
    } else {
        assert(t@.subrange(0, t@.len() as int) =~= t@);
        Some(string_of(&t))
    }
}

/// The texts of a list of strings.
pub open spec fn texts(v: Seq<String>) -> Seq<Seq<char>> {
    v.map_values(|a: String| a@)
}

/// The `fd` command that searches `home` for `needle`.
pub open spec fn fd_command(needle: Seq<char>, home: Seq<char>) -> Seq<Seq<char>> {
    seq![
        "fd"@,
        "--type"@,
        "f"@,
        "--hidden"@,
        "--exclude"@,
        ".git"@,
        "--max-results"@,
        "20"@,
        "--"@,
        needle,
        home,
    ]
}

/// The `find` command used where `fd` is missing.
pub open spec fn find_command(needle: Seq<char>, home: Seq<char>) -> Seq<Seq<char>> {
    seq!["find"@, home, "-type"@, "f"@, "-iname"@, "*"@ + needle + "*"@]
}

fn strings(parts: &[&str]) -> (r: Vec<String>)
    ensures
        r@.len() == parts@.len(),
        forall|k: int| 0 <= k < r@.len() ==> (#[trigger] r@[k])@ == parts@[k]@,
{
    let mut out: Vec<String> = Vec::new();
    let mut i: usize = 0;
    while i < parts.len()
        invariant
            i <= parts@.len(),
            out@.len() == i,
            forall|k: int| 0 <= k < i ==> (#[trigger] out@[k])@ == parts@[k]@,
        decreases parts@.len() - i,
    {
        out.push(parts[i].to_owned());
        i = i + 1;
    }
    out
}

/// The two commands that search `home` for `needle`, `fd` first; none for a
/// needle that starts with `-`, which a search tool would take for an
/// option.
pub fn search_commands(needle: &str, home: &str) -> (r: Option<(Vec<String>, Vec<String>)>)
    ensures
        (needle@.len() > 0 && needle@[0] == '-') ==> r is None,
        !(needle@.len() > 0 && needle@[0] == '-') ==> (r matches Some((fd, find)) && texts(fd@)
            == fd_command(needle@, home@) && texts(find@) == find_command(needle@, home@)),
{
    let n = chars_of(needle);
    if n.len() > 0 && n[0] == '-' {
        return None;
    }
    let pattern = cat(cat("*", needle).as_str(), "*");
    let fd = strings(
        &[
            "fd",
            "--type",
            "f",
            "--hidden",
            "--exclude",
            ".git",
            "--max-results",
            "20",
            "--",
            needle,
            home,
        ],
    );
    let find = strings(&["find", home, "-type", "f", "-iname", pattern.as_str()]);
    assert(texts(fd@) =~= fd_command(needle@, home@));
    assert(texts(find@) =~= find_command(needle@, home@));
    Some((fd, find))
}

/// The last component of `path` (`Path::file_name`).
pub uninterp spec fn file_name_of(path: Seq<char>) -> Option<Seq<char>>;

/// Calls `std::path::Path::file_name` (as text). The contract names the
/// result [`file_name_of`] of the path.
#[verifier::external_body]
fn file_name(path: &str) -> (r: Option<String>)
    ensures
        opt_view(r) == file_name_of(path@),
{
    std::path::Path::new(path).file_name().map(|n| n.to_string_lossy().into_owned())
}

/// `item` is result number `index` for the file at `path`: titled with the
/// file's name (the whole path where it has none), ranked by position.
pub open spec fn is_file_item(item: ResultItem, index: int, path: Seq<char>) -> bool {
    &&& item.id@ == path
    &&& item.title@ == match file_name_of(path) {
        Some(n) => n,
        None => path,
    }
    &&& item.subtitle matches Some(s) && s@ == path
    &&& item.icon matches Some(i) && i@ == "text-x-generic"@
    &&& item.score == 5000 - index
    &&& item.command_id@ == path
    &&& item.actions@.len() == 0
}

/// The items for the files a search found: the first twenty, in order.
pub fn file_results(paths: &[String]) -> (r: Vec<ResultItem>)
    ensures
        r@.len() == (if paths@.len() < MAX_FILES {
            paths@.len() as int
        } else {
            MAX_FILES as int
        }),
        forall|k: int| 0 <= k < r@.len() ==> is_file_item(#[trigger] r@[k], k, paths@[k]@),
{
    let mut out: Vec<ResultItem> = Vec::new();
    let mut i: usize = 0;
    while i < paths.len() && i < MAX_FILES
        invariant
            i <= paths@.len(),
            i <= MAX_FILES,
            out@.len() == i,
            forall|k: int| 0 <= k < i ==> is_file_item(#[trigger] out@[k], k, paths@[k]@),
        decreases paths@.len() - i,
    {
        let path = &paths[i];
        let title = match file_name(path.as_str()) {
            Some(n) => n,
            None => path.clone(),
        };
        out.push(
            ResultItem {
                id: path.clone(),
                title,
                subtitle: Some(path.clone()),
                icon: Some("text-x-generic".to_owned()),
                score: 5000 - i as i64,
                command_id: path.clone(),
                actions: Vec::new(),
            },
        );
        i = i + 1;
    }
    out
}

} // verus!
