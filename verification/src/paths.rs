//! Where things live on disk.
//!
//! Paths are text, with `/` between their components.

use vstd::prelude::*;

use crate::text::{chars_of, concat, concat3};

verus! {

/// The name that directories and sockets of this tool carry.
pub const APP: &'static str = "voice-commander";

/// `part` below `base`; an absolute `part` stands on its own.
pub open spec fn below(base: Seq<char>, part: Seq<char>) -> Seq<char> {
    if part.len() > 0 && part[0] == '/' {
        part
    } else if base.len() == 0 || base.last() == '/' {
        base + part
    } else {
        base + "/"@ + part
    }
}

/// `part` below `base`; an absolute `part` stands on its own.
pub fn join(base: &str, part: &str) -> (result: String)
    ensures
        result@ == below(base@, part@),
{
    let parent = chars_of(base);
    let child = chars_of(part);
    if child.len() > 0 && child[0] == '/' {
        return part.to_owned();
    }
    if parent.len() == 0 || parent[parent.len() - 1] == '/' {
        concat(base, part)
    } else {
        concat3(base, "/", part)
    }
}

/// Whether the last component of a path is written out: it ends neither in a separator nor
/// in a dot, both of which may stand for nothing.
pub open spec fn ends_plainly(path: Seq<char>) -> bool {
    path.len() > 0 && path.last() != '/' && path.last() != '.'
}

/// Whether a text is the name of a file: one component that ends plainly.
pub open spec fn is_file_name(name: Seq<char>) -> bool {
    ends_plainly(name) && !name.contains('/')
}

/// Whether `found` is the directory of a path, if the path is a file name below a directory
/// that ends plainly.
pub open spec fn holds_files_of(path: Seq<char>, found: Option<Seq<char>>) -> bool {
    forall|directory: Seq<char>, name: Seq<char>| #[trigger]
        below(directory, name) == path && ends_plainly(directory) && is_file_name(name) ==> found
            == Some(directory)
}

/// The name of what `std::path::Path::parent` makes of a path, on Unix.
pub uninterp spec fn parent_path(path: Seq<char>) -> Option<Seq<char>>;

/// The directory a path stands in.
///
/// Trusted: `std::path::Path::parent` gives the path without its final component, or nothing
/// when there is none; which depends on the text of the path alone. For a file name below a
/// directory that ends plainly, this is the directory; how repeated separators and dots are
/// passed over is left unsaid.
#[verifier::external_body]
pub(crate) fn parent(path: &str) -> (result: Option<String>)
    ensures
        match result {
            Some(directory) => parent_path(path@) == Some(directory@),
            None => parent_path(path@) is None,
        },
        holds_files_of(path@, crate::event::optional(result)),
{
    std::path::Path::new(path).parent().map(|directory| directory.display().to_string())
}

/// The control socket, given `$XDG_RUNTIME_DIR` and the user's numeric id.
pub open spec fn socket_spec(runtime_dir: Option<Seq<char>>, uid: Option<Seq<char>>) -> Seq<char> {
    match runtime_dir {
        Some(dir) => below(dir, APP@ + ".sock"@),
        None => below(
            "/tmp"@,
            APP@ + "-"@ + (match uid {
                Some(uid) => uid,
                None => "0"@,
            }) + ".sock"@,
        ),
    }
}

/// The control socket, given `$XDG_RUNTIME_DIR` and `$UID`.
///
/// The runtime directory is the right home for it: it is user-private, on tmpfs, and cleared
/// at logout, so a stale socket cannot outlive the session that created it. When it is unset,
/// which mostly means a container or a bare `ssh` session, `/tmp` with the uid in the name is
/// the conventional fallback.
pub fn socket_path(runtime_dir: Option<String>, uid: Option<String>) -> (result: String)
    ensures
        result@ == socket_spec(
            match runtime_dir {
                Some(dir) => Some(dir@),
                None => None,
            },
            match uid {
                Some(uid) => Some(uid@),
                None => None,
            },
        ),
{
    match runtime_dir {
        Some(dir) => join(dir.as_str(), concat(APP, ".sock").as_str()),
        None => {
            let id: String = match uid {
                Some(uid) => uid,
                None => "0".to_owned(),
            };
            let mut name = concat(APP, "-");
            name.append(id.as_str());
            name.append(".sock");
            join("/tmp", name.as_str())
        },
    }
}

/// `$XDG_CONFIG_HOME/voice-commander`, given the base directory, or a relative fallback.
pub fn config_dir(base: Option<String>) -> (result: String)
    ensures
        result@ == below(
            match base {
                Some(base) => base@,
                None => ".config"@,
            },
            APP@,
        ),
{
    match base {
        Some(base) => join(base.as_str(), APP),
        None => join(".config", APP),
    }
}

/// `$XDG_DATA_HOME/voice-commander`, given the base directory, or a relative fallback.
pub fn data_dir(base: Option<String>) -> (result: String)
    ensures
        result@ == below(
            match base {
                Some(base) => base@,
                None => ".local/share"@,
            },
            APP@,
        ),
{
    match base {
        Some(base) => join(base.as_str(), APP),
        None => join(".local/share", APP),
    }
}

/// Something below a directory stands behind it and one separator, whether or not the
/// directory ends in one; a path from the root stands for itself.
pub proof fn law_below_adds_one_separator(base: Seq<char>, part: Seq<char>)
    requires
        base.len() > 0,
        part.len() > 0,
    ensures
        part[0] == '/' ==> below(base, part) == part,
        part[0] != '/' && base.last() != '/' ==> below(base, part) == base + seq!['/'] + part,
        part[0] != '/' && base.last() == '/' ==> below(base, part) == base + part,
        part[0] != '/' ==> below(Seq::empty(), part) == part,
{
    reveal_strlit("/");
    assert("/"@ =~= seq!['/']);
    assert(Seq::<char>::empty() + part =~= part);
}

/// The control socket is in the runtime directory under the name of the program, or in `/tmp`
/// with the user's id in its name, which is zero when it is not known.
pub proof fn law_a_socket_is_private_to_its_user(dir: Seq<char>, uid: Seq<char>)
    requires
        dir.len() > 0,
        dir.last() != '/',
    ensures
        socket_spec(Some(dir), Some(uid)) == dir + "/"@ + ("voice-commander"@ + ".sock"@),
        socket_spec(Some(dir), None) == dir + "/"@ + ("voice-commander"@ + ".sock"@),
        socket_spec(None, Some(uid)) == "/tmp"@ + "/"@ + ("voice-commander"@ + "-"@ + uid
            + ".sock"@),
        socket_spec(None, None) == "/tmp"@ + "/"@ + ("voice-commander"@ + "-"@ + "0"@ + ".sock"@),
{
    reveal_strlit("voice-commander");
    reveal_strlit("/tmp");
}

} // verus!
