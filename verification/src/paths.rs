use vstd::prelude::*;

verus! {

/// Why the secure joiner refused a requested path.
#[derive(Debug)]
pub enum SecurityError {
    /// The joined path could not be resolved against the real filesystem
    /// (it does not exist, or resolution itself failed).
    Unresolvable,
    /// The resolved path lies outside the sandbox root.
    OutsideRoot,
}

/// Normalizes a client-supplied path for the host platform. The native
/// separator here is already `/`, so the path comes back unchanged and no
/// `..` segment is collapsed: traversal handling belongs to the secure
/// joiner alone.
pub fn fix_path(path: &str) -> (r: String)
    ensures
        r@ == path@,
{
    path.to_owned()
}

/// `path` names the same location as `root` or one nested below it, reading
/// both as `/`-separated path strings: `root` is a prefix of `path` and the
/// prefix ends on a segment boundary.
pub open spec fn is_path_inside(root: Seq<char>, path: Seq<char>) -> bool {
    &&& path.len() >= root.len()
    &&& path.subrange(0, root.len() as int) == root
    &&& (path.len() == root.len() || (root.len() > 0 && root[root.len() - 1] == '/')
        || path[root.len() as int] == '/')
}

/// Plain segment concatenation of a base directory and a further path, with
/// no traversal interpretation: an absolute `relative` replaces `base`, as an
/// ordinary path join does.
pub open spec fn join_spec(base: Seq<char>, relative: Seq<char>) -> Seq<char> {
    if relative.len() == 0 {
        base
    } else if relative[0] == '/' {
        relative
    } else if base.len() > 0 && base[base.len() - 1] == '/' {
        base + relative
    } else {
        base + seq!['/'] + relative
    }
}

/// Joins a base directory and an untrusted further path by plain
/// concatenation. The result is what the caller must hand to filesystem
/// canonicalization; it must never be touched before the secure joiner has
/// accepted its canonical form.
pub fn joined_path(base: &str, relative: &str) -> (r: String)
    ensures
        r@ == join_spec(base@, relative@),
{
    let rel_len = relative.unicode_len();
    if rel_len == 0 {
        return base.to_owned();
    }
    if relative.get_char(0) == '/' {
        return relative.to_owned();
    }
    let base_len = base.unicode_len();
    let mut out = base.to_owned();
    if base_len == 0 || base.get_char(base_len - 1) != '/' {
        out.append("/");
        proof {
            reveal_strlit("/");
            assert(("/")@ =~= seq!['/']);
        }
    }
    out.append(relative);
    out
}

/// Index of the last `/` in `p`, or -1 when `p` has none.
pub open spec fn last_slash(p: Seq<char>) -> int
    decreases p.len(),
{
    if p.len() == 0 {
        -1
    } else if p[p.len() - 1] == '/' {
        p.len() - 1
    } else {
        last_slash(p.drop_last())
    }
}

proof fn lemma_last_slash_at(p: Seq<char>, j: int)
    requires
        0 <= j < p.len(),
        p[j] == '/',
        forall|k: int| j < k < p.len() ==> p[k] != '/',
    ensures
        last_slash(p) == j,
    decreases p.len(),
{
    if j < p.len() - 1 {
        lemma_last_slash_at(p.drop_last(), j);
    }
}

proof fn lemma_last_slash_none(p: Seq<char>)
    requires
        forall|k: int| 0 <= k < p.len() ==> p[k] != '/',
    ensures
        last_slash(p) == -1,
    decreases p.len(),
{
    if p.len() > 0 {
        lemma_last_slash_none(p.drop_last());
    }
}

/// The part of `p` before its last `/`: empty when `p` has no `/`, the root
/// directory itself when the only `/` opens the path. A trailing separator
/// counts as a separator like any other.
pub open spec fn parent_spec(p: Seq<char>) -> Seq<char> {
    let i = last_slash(p);
    if i < 0 {
        Seq::empty()
    } else if i == 0 {
        seq!['/']
    } else {
        p.subrange(0, i)
    }
}

/// The final segment of `p`: everything after its last `/`, or all of `p`
/// when it has none.
pub open spec fn leaf_spec(p: Seq<char>) -> Seq<char> {
    p.subrange(last_slash(p) + 1, p.len() as int)
}

fn last_slash_pos(path: &str) -> (r: Option<usize>)
    ensures
        match r {
            Some(j) => j < path@.len() && last_slash(path@) == j,
            None => last_slash(path@) == -1,
        },
{
    let len = path.unicode_len();
    let mut i: usize = len;
    while i > 0
        invariant
            i <= len,
            len == path@.len(),
            forall|k: int| i <= k < len ==> path@[k] != '/',
        decreases i,
    {
        if path.get_char(i - 1) == '/' {
            proof {
                lemma_last_slash_at(path@, i - 1);
            }
            return Some(i - 1);
        }
        i = i - 1;
    }
    proof {
        lemma_last_slash_none(path@);
    }
    None
}

/// The parent directory of a requested path, in the sense of `parent_spec`.
pub fn path_parent(path: &str) -> (r: String)
    ensures
        r@ == parent_spec(path@),
{
    match last_slash_pos(path) {
        None => String::new(),
        Some(j) => {
            if j == 0 {
                let s = "/".to_owned();
                proof {
                    reveal_strlit("/");
                    assert(("/")@ =~= seq!['/']);
                }
                s
            } else {
                path.substring_char(0, j).to_owned()
            }
        },
    }
}

/// The final segment of a requested path, in the sense of `leaf_spec`.
pub fn path_leaf(path: &str) -> (r: String)
    ensures
        r@ == leaf_spec(path@),
{
    let len = path.unicode_len();
    match last_slash_pos(path) {
        None => {
            let r = path.to_owned();
            proof {
                assert(path@.subrange(0, len as int) =~= path@);
            }
            r
        },
        Some(j) => path.substring_char(j + 1, len).to_owned(),
    }
}

/// Decides `is_path_inside(root@, path@)` by comparing characters.
pub fn path_is_inside(path: &str, root: &str) -> (b: bool)
    ensures
        b == is_path_inside(root@, path@),
{
    let rl = root.unicode_len();
    let pl = path.unicode_len();
    if pl < rl {
        return false;
    }
    let mut i: usize = 0;
    while i < rl
        invariant
            i <= rl,
            rl == root@.len(),
            pl == path@.len(),
            pl >= rl,
            forall|j: int| 0 <= j < i ==> path@[j] == root@[j],
        decreases rl - i,
    {
        if path.get_char(i) != root.get_char(i) {
            proof {
                assert(path@.subrange(0, rl as int)[i as int] == path@[i as int]);
            }
            return false;
        }
        i = i + 1;
    }
    proof {
        assert(path@.subrange(0, rl as int) =~= root@);
    }
    if pl == rl {
        return true;
    }
    if rl > 0 && root.get_char(rl - 1) == '/' {
        return true;
    }
    path.get_char(rl) == '/'
}

pub open spec fn opt_str_view(o: Option<&str>) -> Option<Seq<char>> {
    match o {
        Some(s) => Some(s@),
        None => None,
    }
}

/// What the secure joiner accepts: the canonical path itself, when
/// resolution succeeded and the result stayed inside the root.
pub open spec fn secure_join_spec(root: Seq<char>, canonical: Option<Seq<char>>) -> Option<
    Seq<char>,
> {
    match canonical {
        None => None,
        Some(c) => if is_path_inside(root, c) {
            Some(c)
        } else {
            None
        },
    }
}

/// The containment step of secure joining: `canonical` is the outcome of
/// canonicalizing the joined path against the real filesystem (`None` when
/// that failed), and only a canonical path still inside `root` is accepted.
/// `root` is expected to be in canonical form itself, fixed at configuration
/// time. A rejected path is never returned, only the kind of refusal.
pub fn secure_join(root: &str, canonical: Option<&str>) -> (r: Result<String, SecurityError>)
    ensures
        match r {
            Ok(p) => secure_join_spec(root@, opt_str_view(canonical)) == Some(p@) && is_path_inside(
                root@,
                p@,
            ),
            Err(e) => secure_join_spec(root@, opt_str_view(canonical)) is None && (e
                is Unresolvable <==> canonical is None),
        },
{
    match canonical {
        None => Err(SecurityError::Unresolvable),
        Some(c) => {
            if path_is_inside(c, root) {
                Ok(c.to_owned())
            } else {
                Err(SecurityError::OutsideRoot)
            }
        },
    }
}

/// Law: whatever the filesystem made of the joined path, a path the secure
/// joiner accepts lies inside the sandbox root.
pub proof fn lemma_secure_join_inside(root: Seq<char>, canonical: Option<Seq<char>>)
    ensures
        match secure_join_spec(root, canonical) {
            Some(p) => is_path_inside(root, p),
            None => true,
        },
{
}

/// Law: the secure joiner is idempotent on what it accepts: re-submitting an
/// accepted canonical path accepts that path unchanged.
pub proof fn lemma_secure_join_idempotent(root: Seq<char>, canonical: Option<Seq<char>>)
    ensures
        match secure_join_spec(root, canonical) {
            Some(p) => secure_join_spec(root, Some(p)) == Some(p),
            None => true,
        },
{
}

/// Law: extending a path that lies inside the root by one further segment
/// keeps it inside the root.
pub proof fn lemma_join_keeps_inside(root: Seq<char>, parent: Seq<char>, leaf: Seq<char>)
    requires
        is_path_inside(root, parent),
    ensures
        is_path_inside(root, parent + seq!['/'] + leaf),
{
    let t = parent + seq!['/'] + leaf;
    assert forall|j: int| 0 <= j < root.len() implies t.subrange(0, root.len() as int)[j]
        == root[j] by {
        assert(t[j] == parent[j]);
        assert(parent.subrange(0, root.len() as int)[j] == parent[j]);
    }
    assert(t.subrange(0, root.len() as int) =~= root);
    if root.len() < parent.len() {
        assert(parent.subrange(0, root.len() as int) == root);
        if !(root.len() > 0 && root[root.len() - 1] == '/') {
            assert(t[root.len() as int] == parent[root.len() as int]);
        }
    } else {
        assert(t[root.len() as int] == '/');
    }
}

} // verus!
