//! Unix paths as text.

use vstd::prelude::*;
use vstd::string::*;

use crate::json::{opt_str_view, opt_text};
use crate::text::{begins_with, chars_of, string_between, strip_prefix};

verus! {

/// The path of `rest` seen from the directory `base`: an absolute `rest` stands
/// for itself, and one separator stands between the two parts of any other.
pub open spec fn joined_path(base: Seq<char>, rest: Seq<char>) -> Seq<char> {
    if rest.len() > 0 && rest[0] == '/' {
        rest
    } else if base.len() == 0 || base.last() == '/' {
        base + rest
    } else {
        base + seq!['/'] + rest
    }
}

/// The path of `rest` seen from the directory `base`.
pub fn join_path(base: &str, rest: &str) -> (r: String)
    ensures
        r@ == joined_path(base@, rest@),
{
    let head = chars_of(base);
    let tail = chars_of(rest);
    if tail.len() > 0 && tail[0] == '/' {
        return rest.to_owned();
    }
    let mut out = base.to_owned();
    if head.len() > 0 && head[head.len() - 1] != '/' {
        out.push('/');
    }
    out.append(rest);
    assert(out@ =~= joined_path(base@, rest@));
    out
}

/// `s` without trailing separators and trailing `.` components.
pub open spec fn path_body(s: Seq<char>) -> Seq<char>
    decreases s.len(),
{
    if s.len() > 0 && s.last() == '/' {
        path_body(s.drop_last())
    } else if s.len() > 1 && s.last() == '.' && s[s.len() - 2] == '/' {
        path_body(s.drop_last())
    } else {
        s
    }
}

/// The length of what `path_body` keeps of the first `n` characters.
fn body_len(chars: &Vec<char>, n: usize) -> (r: usize)
    requires
        n <= chars@.len(),
    ensures
        r <= n,
        chars@.take(r as int) == path_body(chars@.take(n as int)),
{
    let mut k: usize = n;
    loop
        invariant
            k <= n <= chars@.len(),
            path_body(chars@.take(k as int)) == path_body(chars@.take(n as int)),
        decreases k,
    {
        let ghost s = chars@.take(k as int);
        if k > 0 && chars[k - 1] == '/' {
            assert(s.drop_last() =~= chars@.take(k - 1));
            k = k - 1;
        } else if k > 1 && chars[k - 1] == '.' && chars[k - 2] == '/' {
            assert(s.drop_last() =~= chars@.take(k - 1));
            k = k - 1;
        } else {
            return k;
        }
    }
}

/// The number of characters up to and with the last separator, or zero.
pub open spec fn after_last_separator(s: Seq<char>) -> int
    decreases s.len(),
{
    if s.len() == 0 {
        0
    } else if s.last() == '/' {
        s.len() as int
    } else {
        after_last_separator(s.drop_last())
    }
}

fn last_separator(chars: &Vec<char>, n: usize) -> (r: usize)
    requires
        n <= chars@.len(),
    ensures
        r <= n,
        r == after_last_separator(chars@.take(n as int)),
        r > 0 ==> chars@[r - 1] == '/',
{
    let mut k: usize = n;
    while k > 0 && chars[k - 1] != '/'
        invariant
            k <= n <= chars@.len(),
            after_last_separator(chars@.take(k as int)) == after_last_separator(
                chars@.take(n as int),
            ),
        decreases k,
    {
        assert(chars@.take(k as int).drop_last() =~= chars@.take(k - 1));
        k = k - 1;
    }
    k
}

/// The last component of a path, if it is a name (neither `.` nor `..`).
pub open spec fn file_name_of(path: Seq<char>) -> Option<Seq<char>> {
    let body = path_body(path);
    let name = body.skip(after_last_separator(body));
    if name.len() == 0 || name == seq!['.'] || name == seq!['.', '.'] {
        None
    } else {
        Some(name)
    }
}

/// The last component of a path, if it is a name.
pub fn file_name(path: &str) -> (r: Option<String>)
    ensures
        opt_text(r) == file_name_of(path@),
{
    let chars = chars_of(path);
    assert(path@.take(path@.len() as int) =~= path@);
    let n = body_len(&chars, chars.len());
    let ghost body = path_body(path@);
    let k = last_separator(&chars, n);
    let ghost name = body.skip(k as int);
    proof {
        assert(name =~= chars@.subrange(k as int, n as int));
        assert(name.len() == n - k);
        if n - k >= 1 {
            assert(name[0] == chars@[k as int]);
        }
        if n - k >= 2 {
            assert(name[1] == chars@[k + 1]);
        }
        if n - k == 1 && name[0] == '.' {
            assert(name =~= seq!['.']);
        }
        if n - k == 2 && name[0] == '.' && name[1] == '.' {
            assert(name =~= seq!['.', '.']);
        }
    }
    if k == n || (n - k == 1 && chars[k] == '.') || (n - k == 2 && chars[k] == '.' && chars[k + 1]
        == '.') {
        None
    } else {
        Some(string_between(&chars, k, n))
    }
}

/// The path without its last component, if it has one.
pub open spec fn parent_of(path: Seq<char>) -> Option<Seq<char>> {
    let body = path_body(path);
    let k = after_last_separator(body);
    if body.len() == 0 {
        None
    } else if k == 0 {
        Some(Seq::empty())
    } else {
        let dir = path_body(body.take(k - 1));
        Some(
            if dir.len() == 0 {
                seq!['/']
            } else {
                dir
            },
        )
    }
}

/// The path without its last component, if it has one.
pub fn parent(path: &str) -> (r: Option<String>)
    ensures
        opt_text(r) == parent_of(path@),
{
    let chars = chars_of(path);
    assert(path@.take(path@.len() as int) =~= path@);
    let n = body_len(&chars, chars.len());
    let ghost body = path_body(path@);
    if n == 0 {
        return None;
    }
    let k = last_separator(&chars, n);
    if k == 0 {
        return Some(String::new());
    }
    let m = body_len(&chars, k - 1);
    assert(body.take(k - 1) =~= chars@.take(k - 1));
    if m == 0 {
        let mut root = String::new();
        root.push('/');
        assert(root@ =~= seq!['/']);
        Some(root)
    } else {
        assert(chars@.subrange(0, m as int) =~= chars@.take(m as int));
        Some(string_between(&chars, 0, m))
    }
}

/// The number of characters up to and with the last full stop, or zero.
pub open spec fn after_last_dot(s: Seq<char>) -> int
    decreases s.len(),
{
    if s.len() == 0 {
        0
    } else if s.last() == '.' {
        s.len() as int
    } else {
        after_last_dot(s.drop_last())
    }
}

/// What follows the last full stop of the file name, unless that full stop is its
/// first character.
pub open spec fn extension_of(path: Seq<char>) -> Option<Seq<char>> {
    match file_name_of(path) {
        Some(name) => if after_last_dot(name) <= 1 {
            None
        } else {
            Some(name.skip(after_last_dot(name)))
        },
        None => None,
    }
}

/// What follows the last full stop of the file name.
pub fn extension(path: &str) -> (r: Option<String>)
    ensures
        opt_text(r) == extension_of(path@),
{
    match file_name(path) {
        Some(name) => {
            let chars = chars_of(name.as_str());
            let n = chars.len();
            let mut k: usize = n;
            assert(name@.take(n as int) =~= name@);
            while k > 0 && chars[k - 1] != '.'
                invariant
                    k <= n == chars@.len(),
                    chars@ == name@,
                    after_last_dot(name@.take(k as int)) == after_last_dot(name@),
                decreases k,
            {
                assert(name@.take(k as int).drop_last() =~= name@.take(k - 1));
                k = k - 1;
            }
            if k <= 1 {
                None
            } else {
                assert(name@.subrange(k as int, n as int) =~= name@.skip(k as int));
                Some(string_between(&chars, k, n))
            }
        },
        None => None,
    }
}

/// `path` with a leading `~/` read as the home directory, where one is known.
pub open spec fn home_expanded(path: Seq<char>, home: Option<Seq<char>>) -> Seq<char> {
    if begins_with(path, "~/"@) && home is Some {
        joined_path(home->0, path.skip("~/"@.len() as int))
    } else {
        path
    }
}

/// The path with a leading `~/` read as the home directory, where one is known.
pub fn expand_home(path: &str, home: Option<&str>) -> (r: String)
    ensures
        r@ == home_expanded(path@, opt_str_view(home)),
{
    match (strip_prefix(path, "~/"), home) {
        (Some(rest), Some(dir)) => join_path(dir, rest),
        _ => path.to_owned(),
    }
}

/// `s` with a leading `~/` replaced by the home directory and a separator, where
/// a home directory is known.
pub open spec fn shell_home_expanded(s: Seq<char>, home: Option<Seq<char>>) -> Seq<char> {
    if begins_with(s, "~/"@) && home is Some {
        home->0 + "/"@ + s.skip("~/"@.len() as int)
    } else {
        s
    }
}

/// The text with a leading `~/` replaced by the home directory and a separator.
pub fn shellexpand_home(s: &str, home: Option<&str>) -> (r: String)
    ensures
        r@ == shell_home_expanded(s@, opt_str_view(home)),
{
    match (strip_prefix(s, "~/"), home) {
        (Some(rest), Some(dir)) => {
            let mut out = dir.to_owned();
            out.append("/");
            out.append(rest);
            out
        },
        _ => s.to_owned(),
    }
}

// ---------------------------------------------------------------------------
// Laws
// ---------------------------------------------------------------------------

/// Whether a text can be the name of a file.
pub open spec fn is_plain_name(name: Seq<char>) -> bool {
    &&& name.len() > 0
    &&& forall|i: int| 0 <= i < name.len() ==> #[trigger] name[i] != '/'
    &&& name != seq!['.']
    &&& name != seq!['.', '.']
}

proof fn lemma_name_behind(s: Seq<char>, k: int)
    requires
        0 <= k <= s.len(),
        k == 0 || s[k - 1] == '/',
        forall|i: int| k <= i < s.len() ==> #[trigger] s[i] != '/',
    ensures
        after_last_separator(s) == k,
    decreases s.len(),
{
    if k < s.len() {
        let t = s.drop_last();
        assert(s.last() == s[s.len() - 1]);
        assert(k == 0 || t[k - 1] == s[k - 1]);
        assert forall|i: int| k <= i < t.len() implies #[trigger] t[i] != '/' by {
            assert(t[i] == s[i]);
        }
        lemma_name_behind(t, k);
    } else if k > 0 {
        assert(s.last() == '/');
    }
}

proof fn lemma_plain_body(s: Seq<char>, k: int)
    requires
        0 <= k < s.len(),
        k == 0 || s[k - 1] == '/',
        is_plain_name(s.skip(k)),
    ensures
        path_body(s) == s,
{
    let name = s.skip(k);
    assert(s.last() == name[name.len() - 1]);
    if s.len() > 1 && s.last() == '.' && s[s.len() - 2] == '/' {
        if name.len() > 1 {
            assert(s[s.len() - 2] == name[name.len() - 2]);
        } else {
            assert(name =~= seq!['.']);
        }
    }
}

/// The name of a file is what stands behind the last slash, and its directory what stands
/// before it; and joining the two gives the path again.
pub proof fn law_path_parts(dir: Seq<char>, name: Seq<char>)
    requires
        is_plain_name(name),
    ensures
        file_name_of(dir + "/"@ + name) == Some(name),
        file_name_of(name) == Some(name),
        dir.len() > 0 && path_body(dir) == dir ==> parent_of(dir + "/"@ + name) == Some(dir),
        dir.len() > 0 && dir.last() != '/' ==> joined_path(dir, name) == dir + "/"@ + name,
{
    reveal_strlit("/");
    let s = dir + "/"@ + name;
    let k = dir.len() as int + 1;
    assert(s.skip(k) =~= name);
    assert(s[k - 1] == '/');
    lemma_plain_body(s, k);
    assert forall|i: int| k <= i < s.len() implies #[trigger] s[i] != '/' by {
        assert(s[i] == name[i - k]);
    }
    lemma_name_behind(s, k);
    assert(name.skip(0) =~= name);
    lemma_plain_body(name, 0);
    lemma_name_behind(name, 0);
    assert(s.take(k - 1) =~= dir);
    assert(dir + seq!['/'] + name =~= s);
}

/// The extension of a file is what stands behind the last full stop of its name, where
/// something stands before that.
pub proof fn law_extension(dir: Seq<char>, stem: Seq<char>, ext: Seq<char>)
    requires
        is_plain_name(stem),
        forall|i: int| 0 <= i < ext.len() ==> #[trigger] ext[i] != '/' && ext[i] != '.',
        ext.len() > 0,
    ensures
        extension_of(dir + "/"@ + (stem + "."@ + ext)) == Some(ext),
        extension_of(dir + "/"@ + ext) is None,
{
    reveal_strlit(".");
    let name = stem + "."@ + ext;
    let k = stem.len() as int + 1;
    assert forall|i: int| 0 <= i < name.len() implies #[trigger] name[i] != '/' by {
        if i < k - 1 {
            assert(name[i] == stem[i]);
        } else if i >= k {
            assert(name[i] == ext[i - k]);
        }
    }
    assert(name.len() >= 3);
    law_path_parts(dir, name);
    assert forall|i: int| k <= i < name.len() implies #[trigger] name[i] != '.' by {
        assert(name[i] == ext[i - k]);
    }
    lemma_dot_behind(name, k);
    assert(name.skip(k) =~= ext);
    assert(ext != seq!['.'] && ext != seq!['.', '.']) by {
        assert(ext[0] != '.');
    }
    law_path_parts(dir, ext);
    lemma_dot_behind(ext, 0);
}

proof fn lemma_dot_behind(s: Seq<char>, k: int)
    requires
        0 <= k <= s.len(),
        k == 0 || s[k - 1] == '.',
        forall|i: int| k <= i < s.len() ==> #[trigger] s[i] != '.',
    ensures
        after_last_dot(s) == k,
    decreases s.len(),
{
    if k < s.len() {
        let t = s.drop_last();
        assert(s.last() == s[s.len() - 1]);
        assert(k == 0 || t[k - 1] == s[k - 1]);
        assert forall|i: int| k <= i < t.len() implies #[trigger] t[i] != '.' by {
            assert(t[i] == s[i]);
        }
        lemma_dot_behind(t, k);
    } else if k > 0 {
        assert(s.last() == '.');
    }
}

/// A path that begins with a tilde and a slash goes on from the home directory, where that is
/// known; any other path stays as it is, and so does a path below the root behind another.
pub proof fn law_home(rest: Seq<char>, home: Seq<char>, path: Seq<char>)
    requires
        home.len() > 0 && home.last() != '/',
        rest.len() > 0 && rest[0] != '/',
    ensures
        home_expanded("~/"@ + rest, Some(home)) == home + "/"@ + rest,
        shell_home_expanded("~/"@ + rest, Some(home)) == home + "/"@ + rest,
        home_expanded("~/"@ + rest, None) == "~/"@ + rest,
        path.len() > 0 && path[0] != '~' ==> home_expanded(path, Some(home)) == path
            && shell_home_expanded(path, Some(home)) == path,
        path.len() > 0 && path[0] == '/' ==> joined_path(home, path) == path,
{
    reveal_strlit("~/");
    reveal_strlit("/");
    let s = "~/"@ + rest;
    assert(s.subrange(0, 2) =~= "~/"@);
    assert(s.skip(2) =~= rest);
    assert(home + seq!['/'] + rest =~= home + "/"@ + rest);
    if path.len() > 0 && begins_with(path, "~/"@) {
        assert(path.subrange(0, 2)[0] == '~');
    }
}

} // verus!
