//! Rules of the plugin manager (`nursearch-plugins`): which plugin ids are
//! safe to use as a directory name, where an installed plugin lives, and which
//! install sources are git repositories.

use crate::direct::join_path;
use crate::text::{cat, chars_of, ends_with, ends_with_exec, starts_with, starts_with_exec};
use vstd::prelude::*;

verus! {

/// A character allowed in a plugin id: ASCII letter or digit, `_`, `.`, `-`.
pub open spec fn id_char(c: char) -> bool {
    ('a' <= c <= 'z') || ('A' <= c <= 'Z') || ('0' <= c <= '9') || c == '_' || c == '.' || c
        == '-'
}

/// A plugin id must be a single, normal path component from a safe charset:
/// not empty, not starting with `.`, made of id characters only.
pub open spec fn valid_id(id: Seq<char>) -> bool {
    &&& id.len() > 0
    &&& id[0] != '.'
    &&& forall|i: int| 0 <= i < id.len() ==> id_char(#[trigger] id[i])
}

/// Whether `Path::new(id)` has exactly one component and it is a normal one
/// (`std::path::Path::components`). For a text without `/`, the documentation
/// gives a single component, which is `.`, `..` or a normal name: the
/// contract claims normal exactly when the text is neither.
#[verifier::external_body]
fn single_normal_component(id: &str) -> (r: bool)
    requires
        id@.len() > 0,
        forall|i: int| 0 <= i < id@.len() ==> id@[i] != '/',
    ensures
        r == (id@ != "."@ && id@ != ".."@),
{
    let mut components = std::path::Path::new(id).components();
    matches!(components.next(), Some(std::path::Component::Normal(_))) && components.next().is_none()
}

fn id_char_exec(c: char) -> (r: bool)
    ensures
        r == id_char(c),
{
    ('a' <= c && c <= 'z') || ('A' <= c && c <= 'Z') || ('0' <= c && c <= '9') || c == '_' || c
        == '.' || c == '-'
}

/// Whether `id` is safe as the name of a plugin's directory.
pub fn is_valid_id(id: &str) -> (r: bool)
    ensures
        r == valid_id(id@),
{
    let cs = chars_of(id);
    if cs.len() == 0 || cs[0] == '.' {
        return false;
    }
    let mut i: usize = 0;
    while i < cs.len()
        invariant
            cs@ == id@,
            i <= cs@.len(),
            forall|k: int| 0 <= k < i ==> id_char(#[trigger] cs@[k]),
        decreases cs@.len() - i,
    {
        if !id_char_exec(cs[i]) {
            return false;
        }
        i = i + 1;
    }
    proof {
        reveal_strlit(".");
        reveal_strlit("..");
        assert(id@ != "."@);
        assert(id@ != ".."@);
    }
    single_normal_component(id)
}

fn join(root: &str, id: &str) -> (r: String)
    ensures
        r@ == join_path(root@, id@),
{
    let rc = chars_of(root);
    let ic = chars_of(id);
    if ic.len() > 0 && ic[0] == '/' {
        return id.to_owned();
    }
    if rc.len() == 0 || rc[rc.len() - 1] == '/' {
        return cat(root, id);
    }
    proof {
        reveal_strlit("/");
    }
    cat(cat(root, "/").as_str(), id)
}

/// The message for an id that is not a safe directory name.
pub open spec fn unsafe_id_message(id: Seq<char>) -> Seq<char> {
    "refusing unsafe plugin id '"@ + id + "'"@
}

/// The directory of the installed plugin `id` under the plugin directory
/// `root`. An id that is not a single safe path component is refused; any
/// other id names one normal component directly under `root`.
pub fn safe_dest(root: &str, id: &str) -> (r: Result<String, String>)
    ensures
        !valid_id(id@) ==> (r matches Err(e) && e@ == unsafe_id_message(id@)),
        valid_id(id@) ==> (r matches Ok(d) && d@ == join_path(root@, id@)),
{
    if !is_valid_id(id) {
        return Err(cat(cat("refusing unsafe plugin id '", id).as_str(), "'"));
    }
    Ok(join(root, id))
}

/// An install source is a git repository when it is an `http(s)://` or
/// `git@` address, or ends in `.git`.
pub open spec fn git_url(source: Seq<char>) -> bool {
    starts_with(source, "http://"@) || starts_with(source, "https://"@) || starts_with(
        source,
        "git@"@,
    ) || ends_with(source, ".git"@)
}

/// Whether `source` names a git repository rather than a local directory.
pub fn is_git_url(source: &str) -> (r: bool)
    ensures
        r == git_url(source@),
{
    let s = chars_of(source);
    if starts_with_exec(&s, &chars_of("http://")) || starts_with_exec(&s, &chars_of("https://"))
        || starts_with_exec(&s, &chars_of("git@")) {
        return true;
    }
    ends_with_exec(&s, &chars_of(".git"))
}

} // verus!
