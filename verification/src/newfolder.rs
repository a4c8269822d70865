use vstd::prelude::*;

use crate::paths::is_path_inside;
use crate::paths::leaf_spec;
use crate::paths::opt_str_view;
use crate::paths::path_is_inside;
use crate::paths::path_leaf;
use crate::paths::lemma_join_keeps_inside;
use crate::paths::secure_join_spec;
use crate::respond::encode_new_folder;
use crate::respond::new_folder_encoding;

verus! {

/// What a folder-creation request resolves to once the parent directory
/// has been put through the secure joiner.
pub enum NewFolderDecision {
    /// The request must be refused: the parent could not be resolved, it
    /// resolved outside the sandbox root, or the final segment is not a
    /// plain directory name. Nothing may be created.
    Invalid,
    /// Creating a directory at this absolute path keeps it inside the root.
    Create(String),
}

/// How one folder-creation attempt ended, as reported by the caller that
/// performed (or refused) the filesystem operation.
pub enum NewFolderOutcome {
    /// The decision was `Invalid`: the directory was never touched.
    InvalidPath,
    /// Creation was attempted and the operating system refused; the field
    /// carries its error text.
    CreateFailed(String),
    /// The directory was created.
    Created,
}

/// A final path segment that may become a new directory name: non-empty
/// and no traversal segment.
pub open spec fn plain_segment(leaf: Seq<char>) -> bool {
    leaf.len() > 0 && leaf != seq!['.'] && leaf != seq!['.', '.']
}

/// The creation target a request is entitled to, if any: the canonical
/// parent must have been accepted by the secure joiner, the final segment
/// of the requested path must be a plain name, and the target is then that
/// segment under the canonical parent.
pub open spec fn new_folder_target_spec(
    root: Seq<char>,
    path_end: Seq<char>,
    canonical_parent: Option<Seq<char>>,
) -> Option<Seq<char>> {
    match secure_join_spec(root, canonical_parent) {
        None => None,
        Some(c) => if plain_segment(leaf_spec(path_end)) {
            Some(c + seq!['/'] + leaf_spec(path_end))
        } else {
            None
        },
    }
}

/// Decides one folder-creation request. `path_end` is the raw requested
/// path; `canonical_parent` is the outcome of canonicalizing the join of
/// `root` with the parent of `path_end` (`None` when that failed). A
/// `Create` target is rebuilt from the validated parent and the single
/// final segment, never from the raw request, and provably stays inside
/// the root.
pub fn new_folder_decision(
    root: &str,
    path_end: &str,
    canonical_parent: Option<&str>,
) -> (r: NewFolderDecision)
    ensures
        match r {
            NewFolderDecision::Invalid => new_folder_target_spec(
                root@,
                path_end@,
                opt_str_view(canonical_parent),
            ) is None,
            NewFolderDecision::Create(target) => new_folder_target_spec(
                root@,
                path_end@,
                opt_str_view(canonical_parent),
            ) == Some(target@) && is_path_inside(root@, target@),
        },
{
    match canonical_parent {
        None => NewFolderDecision::Invalid,
        Some(c) => {
            if !path_is_inside(c, root) {
                NewFolderDecision::Invalid
            } else {
                let leaf = path_leaf(path_end);
                let leaf_len = leaf.as_str().unicode_len();
                if leaf_len == 0 {
                    NewFolderDecision::Invalid
                } else if leaf_len == 1 && leaf.as_str().get_char(0) == '.' {
                    proof {
                        assert(leaf@ =~= seq!['.']);
                    }
                    NewFolderDecision::Invalid
                } else if leaf_len == 2 && leaf.as_str().get_char(0) == '.' && leaf.as_str()
                    .get_char(1) == '.' {
                    proof {
                        assert(leaf@ =~= seq!['.', '.']);
                    }
                    NewFolderDecision::Invalid
                } else {
                    proof {
                        if leaf@ == seq!['.'] {
                            assert(leaf@[0] == '.');
                        }
                        if leaf@ == seq!['.', '.'] {
                            assert(leaf@[0] == '.' && leaf@[1] == '.');
                        }
                        assert(plain_segment(leaf@));
                    }
                    let mut target = c.to_owned();
                    target.append("/");
                    target.append(leaf.as_str());
                    proof {
                        reveal_strlit("/");
                        assert(("/")@ =~= seq!['/']);
                        lemma_join_keeps_inside(root@, c@, leaf@);
                        assert(target@ =~= c@ + seq!['/'] + leaf_spec(path_end@));
                    }
                    NewFolderDecision::Create(target)
                }
            }
        },
    }
}

pub open spec fn invalid_path_message() -> Seq<char> {
    ("Cannot create new folder, because the path is invalid")@
}

pub open spec fn create_failed_message(e: Seq<char>) -> Seq<char> {
    ("Cannot create new folder.<br<br>Exact Error: ")@ + e
}

/// The complete response for one folder-creation request, from how the
/// attempt ended: a refused path gets the fixed invalid-path message, a
/// filesystem failure reports the underlying error text, and success
/// reports an empty message. The result is always one well-formed encoded
/// response.
pub fn get_new_folder_respond(outcome: &NewFolderOutcome) -> (r: String)
    ensures
        match outcome {
            NewFolderOutcome::InvalidPath => r@ == new_folder_encoding(
                false,
                invalid_path_message(),
            ),
            NewFolderOutcome::CreateFailed(e) => r@ == new_folder_encoding(
                false,
                create_failed_message(e@),
            ),
            NewFolderOutcome::Created => r@ == new_folder_encoding(true, Seq::empty()),
        },
{
    match outcome {
        NewFolderOutcome::InvalidPath => {
            encode_new_folder(false, "Cannot create new folder, because the path is invalid")
        },
        NewFolderOutcome::CreateFailed(e) => {
            let mut msg = String::new();
            msg.append("Cannot create new folder.<br<br>Exact Error: ");
            msg.append(e.as_str());
            proof {
                assert(msg@ =~= create_failed_message(e@));
            }
            encode_new_folder(false, msg.as_str())
        },
        NewFolderOutcome::Created => {
            let r = encode_new_folder(true, "");
            proof {
                reveal_strlit("");
                assert(("")@ =~= Seq::<char>::empty());
            }
            r
        },
    }
}

} // verus!
