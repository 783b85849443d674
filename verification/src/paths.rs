//! Where things are: the support directory and its files, the worker, its sources.

use vstd::prelude::*;
use vstd::slice::*;
use vstd::string::*;
use vstd::utf8::*;

use crate::identity::{current_triple_arch, triple_arch};
use crate::text::{
    law_pieces_of_both, law_text_without_separator_is_one_piece, pieces, same, split,
};

verus! {

/// The name of the worker beside the app's own binary.
pub const BUNDLED_WORKER: &'static str = "donna-agent-local";

/// A path below `base`, or `rest` itself where that is absolute.
pub open spec fn joined_path(base: Seq<char>, rest: Seq<char>) -> Seq<char> {
    if rest.len() > 0 && rest.first() == '/' {
        rest
    } else if base.len() == 0 || base.last() == '/' {
        base + rest
    } else {
        base.push('/') + rest
    }
}

/// Joins two paths with a slash where one is needed.
pub fn join_path(base: &str, rest: &str) -> (path: String)
    ensures
        path@ == joined_path(base@, rest@),
{
    if !rest.is_empty() && rest.get_char(0) == '/' {
        return rest.to_owned();
    }
    let mut path = base.to_owned();
    if !base.is_empty() && base.get_char(base.unicode_len() - 1) != '/' {
        proof {
            reveal_strlit("/");
        }
        path.append("/");
        assert(path@ =~= base@.push('/'));
    }
    path.append(rest);
    path
}

/// A path below `base`, or `rest` itself where that is absolute. The paths are those
/// of the operating system, which need not be text.
pub open spec fn joined_bytes(base: Seq<u8>, rest: Seq<u8>) -> Seq<u8> {
    if rest.len() > 0 && rest.first() == 0x2f {
        rest
    } else if base.len() == 0 || base.last() == 0x2f {
        base + rest
    } else {
        base.push(0x2f) + rest
    }
}

/// Joins two paths of the operating system with a slash where one is needed.
pub fn join_bytes(base: &[u8], rest: &[u8]) -> (path: Vec<u8>)
    ensures
        path@ == joined_bytes(base@, rest@),
{
    if rest.len() > 0 && rest[0] == 0x2f {
        return slice_to_vec(rest);
    }
    let mut path = slice_to_vec(base);
    if base.len() > 0 && base[base.len() - 1] != 0x2f {
        path.push(0x2f);
    }
    let mut tail = slice_to_vec(rest);
    path.append(&mut tail);
    path
}

/// The app's support directory, below the home directory where there is one.
pub open spec fn support_path(home: Option<Seq<char>>) -> Seq<char> {
    let start = match home {
        Some(path) => path,
        None => "."@,
    };
    joined_path(
        joined_path(joined_path(start, "Library"@), "Application Support"@),
        "Donna"@,
    )
}

/// The app's support directory, below the home directory where there is one.
pub fn support_dir(home: &Option<String>) -> (path: String)
    ensures
        path@ == support_path(home.deep_view()),
{
    let library = match home {
        Some(home) => join_path(home.as_str(), "Library"),
        None => join_path(".", "Library"),
    };
    join_path(join_path(library.as_str(), "Application Support").as_str(), "Donna")
}

/// The file that keeps the workspaces.
pub fn workspaces_path(support_dir: &str) -> (path: String)
    ensures
        path@ == joined_path(support_dir@, "workspaces.json"@),
{
    join_path(support_dir, "workspaces.json")
}

/// The file that keeps the device id.
pub fn device_id_path(support_dir: &str) -> (path: String)
    ensures
        path@ == joined_path(support_dir@, "device-id"@),
{
    join_path(support_dir, "device-id")
}

/// The sources of the worker, beside those of the app.
pub fn server_go_dir(manifest_dir: &str) -> (path: String)
    ensures
        path@ == joined_path(manifest_dir@, "../../donna-server-go"@),
{
    join_path(manifest_dir, "../../donna-server-go")
}

/// The script of the browser that the worker drives.
pub fn browser_script(manifest_dir: &str) -> (path: String)
    ensures
        path@ == joined_path(manifest_dir@, "../browser/server.js"@),
{
    join_path(manifest_dir, "../browser/server.js")
}

/// The path of the worker beside the app's own binary. `exe_dir` is the directory of
/// that binary, if it has one; else the worker is looked for where the app runs.
pub open spec fn bundled_path(exe_dir: Option<Seq<u8>>) -> Seq<u8> {
    let dir = match exe_dir {
        Some(dir) => dir,
        None => encode_utf8("."@),
    };
    joined_bytes(dir, encode_utf8(BUNDLED_WORKER@))
}

/// The path of the worker beside the app's own binary. `exe_dir` is the directory of
/// that binary, if it has one.
pub fn bundled_worker(exe_dir: &Option<Vec<u8>>) -> (path: Vec<u8>)
    ensures
        path@ == bundled_path(exe_dir.deep_view()),
{
    match exe_dir {
        Some(dir) => {
            assert(dir.deep_view() =~= dir@);
            join_bytes(dir.as_slice(), BUNDLED_WORKER.as_bytes())
        },
        None => join_bytes(".".as_bytes(), BUNDLED_WORKER.as_bytes()),
    }
}

/// The path of the worker built for a Mac of architecture `arch`.
pub open spec fn built_worker(manifest_dir: Seq<char>, arch: Seq<char>) -> Seq<char> {
    joined_path(
        joined_path(manifest_dir, "binaries"@),
        "donna-agent-local-"@ + triple_arch(arch) + "-apple-darwin"@,
    )
}

/// The path at which the worker's binary is looked for.
pub open spec fn sidecar_path(
    exe_dir: Option<Seq<u8>>,
    bundled_exists: bool,
    manifest_dir: Seq<char>,
    arch: Seq<char>,
) -> Seq<u8> {
    if bundled_exists {
        bundled_path(exe_dir)
    } else {
        encode_utf8(built_worker(manifest_dir, arch))
    }
}

/// The path at which the worker's binary is looked for: beside the app where one is
/// found there, and else among the app's sources. `bundled_exists` is whether there
/// is a file at `bundled_worker(exe_dir)`.
pub fn sidecar_bin(
    exe_dir: &Option<Vec<u8>>,
    bundled_exists: bool,
    manifest_dir: &str,
    arch: &str,
) -> (path: Vec<u8>)
    ensures
        path@ == if bundled_exists {
            bundled_path(exe_dir.deep_view())
        } else {
            encode_utf8(built_worker(manifest_dir@, arch@))
        },
        path@ == sidecar_path(exe_dir.deep_view(), bundled_exists, manifest_dir@, arch@),
{
    if bundled_exists {
        return bundled_worker(exe_dir);
    }
    let mut name = "donna-agent-local-".to_owned();
    name.append(current_triple_arch(arch));
    name.append("-apple-darwin");
    let binaries = join_path(manifest_dir, "binaries");
    slice_to_vec(join_path(binaries.as_str(), name.as_str()).as_str().as_bytes())
}

/// The last of the pieces that names something: neither empty nor a lone dot.
pub open spec fn last_name(parts: Seq<Seq<char>>) -> Option<Seq<char>>
    decreases parts.len(),
{
    if parts.len() == 0 {
        None
    } else if parts.last().len() == 0 || parts.last() == "."@ {
        last_name(parts.drop_last())
    } else {
        Some(parts.last())
    }
}

/// The name of the file or directory that a path ends in. The root, a path of
/// dots alone and one that ends in `..` have none.
pub open spec fn file_name(path: Seq<char>) -> Option<Seq<char>> {
    match last_name(pieces(path, '/')) {
        Some(name) if name != ".."@ => Some(name),
        _ => None,
    }
}

/// What a workspace at `path` is called.
pub open spec fn workspace_name(path: Seq<char>) -> Seq<char> {
    match file_name(path) {
        Some(name) => name,
        None => "Workspace"@,
    }
}

/// What a workspace at `path` is called: the name of its directory.
pub fn display_name(path: &str) -> (name: String)
    ensures
        name@ == workspace_name(path@),
{
    let parts = split(path, '/');
    let ghost all = parts.deep_view();
    let mut left: usize = parts.len();
    assert(all.take(left as int) =~= all);
    while left > 0
        invariant
            left <= parts.len(),
            all == parts.deep_view(),
            all == pieces(path@, '/'),
            last_name(all.take(left as int)) == last_name(all),
        decreases left,
    {
        let part = parts[left - 1].as_str();
        assert(all.take(left as int).last() == part@);
        assert(all.take(left as int).drop_last() =~= all.take(left - 1));
        if part.is_empty() || same(part, ".") {
            left = left - 1;
        } else if same(part, "..") {
            return "Workspace".to_owned();
        } else {
            return part.to_owned();
        }
    }
    "Workspace".to_owned()
}

/// A workspace always has a name, and the name is not a path.
pub proof fn law_workspace_name_is_a_name(path: Seq<char>)
    ensures
        workspace_name(path).len() > 0,
        !workspace_name(path).contains('/'),
        workspace_name(path) != "."@,
        workspace_name(path) != ".."@,
{
    reveal_strlit("Workspace");
    reveal_strlit(".");
    reveal_strlit("..");
    lemma_pieces_have_no_separator(path, '/');
    lemma_last_name(pieces(path, '/'));
    assert("Workspace"@.len() != "."@.len() && "Workspace"@.len() != ".."@.len());
}

/// The app's files are kept in its support directory, and are two.
pub proof fn law_files_are_in_support_dir(support_dir: Seq<char>)
    ensures
        support_dir.is_prefix_of(joined_path(support_dir, "workspaces.json"@)),
        support_dir.is_prefix_of(joined_path(support_dir, "device-id"@)),
        joined_path(support_dir, "workspaces.json"@) != joined_path(support_dir, "device-id"@),
{
    reveal_strlit("workspaces.json");
    reveal_strlit("device-id");
}

/// Paths that are text are joined in the same way, as text or as bytes.
pub proof fn law_joins_agree(base: Seq<char>, rest: Seq<char>)
    ensures
        encode_utf8(joined_path(base, rest)) == joined_bytes(encode_utf8(base), encode_utf8(rest)),
{
    lemma_slash_ends(base);
    lemma_slash_ends(rest);
    lemma_encode_concat(base, rest);
    lemma_encode_concat(base.push('/'), rest);
    lemma_encode_concat(base, seq!['/']);
    assert(base.push('/') =~= base + seq!['/']);
    assert(encode_utf8(seq!['/']) =~= seq![0x2fu8]) by {
        lemma_slash_byte('/');
        assert(seq!['/'].drop_first() =~= Seq::<char>::empty());
        assert(encode_utf8(Seq::<char>::empty()) =~= Seq::<u8>::empty());
    }
    assert(encode_utf8(base) + seq![0x2fu8] =~= encode_utf8(base).push(0x2f));
}

proof fn lemma_slash_byte(c: char)
    ensures
        encode_scalar(c as u32).len() > 0,
        encode_scalar(c as u32).first() == 0x2f <==> c == '/',
        encode_scalar(c as u32).last() == 0x2f <==> c == '/',
        c == '/' ==> encode_scalar(c as u32) =~= seq![0x2fu8],
{
    char_is_scalar(c);
    let v = c as u32;
    assert(v <= 0x7f ==> (((v & 0x7f) as u8 == 0x2f) <==> v == 0x2f)) by (bit_vector);
    assert((0xC0 | ((v >> 6) & 0x1F) as u8) >= 0x80) by (bit_vector);
    assert((0xE0 | ((v >> 12) & 0x0F) as u8) >= 0x80) by (bit_vector);
    assert((0xF0 | ((v >> 18) & 0x7) as u8) >= 0x80) by (bit_vector);
    assert((0x80 | (v & 0x3F) as u8) >= 0x80) by (bit_vector);
}

proof fn lemma_slash_ends(text: Seq<char>)
    ensures
        text.len() == 0 <==> encode_utf8(text).len() == 0,
        text.len() > 0 ==> {
            &&& encode_utf8(text).first() == 0x2f <==> text.first() == '/'
            &&& encode_utf8(text).last() == 0x2f <==> text.last() == '/'
        },
    decreases text.len(),
{
    if text.len() > 0 {
        let head = encode_scalar(text[0] as u32);
        let tail = encode_utf8(text.drop_first());
        lemma_slash_byte(text[0]);
        lemma_slash_ends(text.drop_first());
        assert((head + tail).first() == head.first());
        if text.len() > 1 {
            assert((head + tail).last() == tail.last());
            assert(text.drop_first().last() == text.last());
        } else {
            assert(head + tail =~= head);
        }
    }
}

proof fn lemma_encode_concat(left: Seq<char>, right: Seq<char>)
    ensures
        encode_utf8(left + right) == encode_utf8(left) + encode_utf8(right),
    decreases left.len(),
{
    if left.len() == 0 {
        assert(left + right =~= right);
        assert(encode_utf8(left) + encode_utf8(right) =~= encode_utf8(right));
    } else {
        lemma_encode_concat(left.drop_first(), right);
        assert((left + right).drop_first() =~= left.drop_first() + right);
        assert(encode_utf8(left + right) =~= encode_utf8(left) + encode_utf8(right));
    }
}

proof fn lemma_last_name(parts: Seq<Seq<char>>)
    ensures
        last_name(parts) matches Some(name) ==> {
            &&& name.len() > 0
            &&& name != "."@
            &&& parts.contains(name)
        },
    decreases parts.len(),
{
    if parts.len() > 0 {
        lemma_last_name(parts.drop_last());
        assert(parts.contains(parts.last()));
        assert forall|name: Seq<char>| parts.drop_last().contains(name) implies parts.contains(
            name,
        ) by {
            let i = parts.drop_last().index_of(name);
            assert(parts[i] == name);
        }
    }
}

proof fn lemma_pieces_have_no_separator(text: Seq<char>, sep: char)
    ensures
        pieces(text, sep).len() > 0,
        forall|piece: Seq<char>| #[trigger]
            pieces(text, sep).contains(piece) ==> !piece.contains(sep),
    decreases text.len(),
{
    if text.len() > 0 {
        let before = pieces(text.drop_last(), sep);
        lemma_pieces_have_no_separator(text.drop_last(), sep);
        assert forall|piece: Seq<char>| #[trigger]
            pieces(text, sep).contains(piece) implies !piece.contains(sep) by {
            let i = pieces(text, sep).index_of(piece);
            if i < before.len() - 1 || (text.last() == sep && i < before.len()) {
                assert(before[i] == piece);
                assert(before.contains(piece));
            } else if text.last() != sep {
                assert(before.contains(before.last()));
                assert(piece == before.last().push(text.last()));
                if piece.contains(sep) {
                    let j = piece.index_of(sep);
                    assert(j < before.last().len());
                    assert(before.last()[j] == sep);
                }
            }
        }
    }
}

/// A path below another begins with that and ends with what is below, whole, and
/// between the two is a slash where there was none. An absolute path stays as it is.
pub proof fn law_path_is_below_its_base(base: Seq<char>, rest: Seq<char>)
    ensures
        ({
            let path = joined_path(base, rest);
            if rest.len() > 0 && rest[0] == '/' {
                path == rest
            } else {
                &&& path.take(base.len() as int) == base
                &&& path.skip(path.len() - rest.len()) == rest
                &&& path.len() == base.len() + rest.len() + if base.len() > 0 && base[base.len()
                    - 1] != '/' {
                    1int
                } else {
                    0int
                }
                &&& base.len() > 0 && base[base.len() - 1] != '/' ==> path[base.len() as int]
                    == '/'
            }
        }),
{
    let path = joined_path(base, rest);
    if !(rest.len() > 0 && rest[0] == '/') {
        assert(path.take(base.len() as int) =~= base);
        assert(path.skip(path.len() - rest.len()) =~= rest);
    }
}

/// The same holds of paths that need not be text.
pub proof fn law_byte_path_is_below_its_base(base: Seq<u8>, rest: Seq<u8>)
    ensures
        ({
            let path = joined_bytes(base, rest);
            if rest.len() > 0 && rest[0] == 0x2f {
                path == rest
            } else {
                &&& path.take(base.len() as int) == base
                &&& path.skip(path.len() - rest.len()) == rest
                &&& path.len() == base.len() + rest.len() + if base.len() > 0 && base[base.len()
                    - 1] != 0x2f {
                    1int
                } else {
                    0int
                }
                &&& base.len() > 0 && base[base.len() - 1] != 0x2f ==> path[base.len() as int]
                    == 0x2f
            }
        }),
{
    let path = joined_bytes(base, rest);
    if !(rest.len() > 0 && rest[0] == 0x2f) {
        assert(path.take(base.len() as int) =~= base);
        assert(path.skip(path.len() - rest.len()) =~= rest);
    }
}

/// The support directory is in the library of whatever home directory there is.
pub proof fn law_support_dir_is_at_home(home: Seq<char>)
    ensures
        home.len() > 0 && home.last() != '/' ==> support_path(Some(home)) == home
            + "/Library/Application Support/Donna"@,
        home.len() > 0 && home.last() == '/' ==> support_path(Some(home)) == home
            + "Library/Application Support/Donna"@,
        home.len() == 0 ==> support_path(Some(home)) == "Library/Application Support/Donna"@,
        support_path(None) == support_path(Some("."@)),
{
    reveal_strlit("Library");
    reveal_strlit("Application Support");
    reveal_strlit("Donna");
    reveal_strlit(".");
    reveal_strlit("/Library/Application Support/Donna");
    reveal_strlit("Library/Application Support/Donna");
    let library = joined_path(home, "Library"@);
    let support = joined_path(library, "Application Support"@);
    assert(library.last() == 'y');
    assert(support == library.push('/') + "Application Support"@);
    assert(support.last() == 't');
    assert(support_path(Some(home)) == support.push('/') + "Donna"@);
    if home.len() > 0 && home.last() != '/' {
        assert(support_path(Some(home)) =~= home + "/Library/Application Support/Donna"@);
    } else {
        assert(support_path(Some(home)) =~= home + "Library/Application Support/Donna"@);
        if home.len() == 0 {
            assert(home + "Library/Application Support/Donna"@
                =~= "Library/Application Support/Donna"@);
        }
    }
}

/// The worker is bundled in whatever directory the app's binary is in, under its own
/// name, and where that has no directory, in the one where the app runs.
pub proof fn law_worker_is_bundled_beside_the_app(dir: Seq<u8>)
    ensures
        ({
            let path = bundled_path(Some(dir));
            let name = encode_utf8("donna-agent-local"@);
            &&& dir.len() > 0 && dir.last() != 0x2f ==> path == dir + seq![0x2fu8] + name
            &&& dir.len() == 0 || dir.last() == 0x2f ==> path == dir + name
        }),
        bundled_path(None) == bundled_path(Some(encode_utf8("."@))),
{
    let name = encode_utf8("donna-agent-local"@);
    reveal_strlit("donna-agent-local");
    lemma_slash_ends("donna-agent-local"@);
    if dir.len() > 0 && dir.last() != 0x2f {
        assert(bundled_path(Some(dir)) =~= dir + seq![0x2fu8] + name);
    }
}

/// The worker that is built for this Mac is among the app's sources, whatever their
/// directory, and is the Intel one on an Intel Mac and the other on every other.
pub proof fn law_worker_is_built_for_this_mac(manifest_dir: Seq<char>, arch: Seq<char>)
    ensures
        ({
            let name = if arch == "x86_64"@ {
                "binaries/donna-agent-local-x86_64-apple-darwin"@
            } else {
                "binaries/donna-agent-local-aarch64-apple-darwin"@
            };
            &&& manifest_dir.len() > 0 && manifest_dir.last() != '/' ==> built_worker(
                manifest_dir,
                arch,
            ) == manifest_dir.push('/') + name
            &&& manifest_dir.len() == 0 || manifest_dir.last() == '/' ==> built_worker(
                manifest_dir,
                arch,
            ) == manifest_dir + name
        }),
{
    reveal_strlit("binaries");
    reveal_strlit("donna-agent-local-");
    reveal_strlit("-apple-darwin");
    reveal_strlit("x86_64");
    reveal_strlit("aarch64");
    reveal_strlit("binaries/donna-agent-local-x86_64-apple-darwin");
    reveal_strlit("binaries/donna-agent-local-aarch64-apple-darwin");
    let binaries = joined_path(manifest_dir, "binaries"@);
    assert(binaries.last() == 's');
    let tail = if arch == "x86_64"@ {
        "binaries/donna-agent-local-x86_64-apple-darwin"@
    } else {
        "binaries/donna-agent-local-aarch64-apple-darwin"@
    };
    if manifest_dir.len() > 0 && manifest_dir.last() != '/' {
        assert(built_worker(manifest_dir, arch) =~= manifest_dir.push('/') + tail);
    } else {
        assert(built_worker(manifest_dir, arch) =~= manifest_dir + tail);
    }
}

/// Whether a piece of a path leads nowhere: it is empty or a lone dot.
pub open spec fn leads_nowhere(piece: Seq<char>) -> bool {
    piece.len() == 0 || piece == seq!['.']
}

/// A workspace is named after the last piece of its path that leads somewhere, and the
/// name is that piece, whole. A path that goes up at its end, or leads nowhere, names
/// nothing.
pub proof fn law_workspace_is_named_after_the_last_piece(path: Seq<char>, i: int)
    requires
        0 <= i < pieces(path, '/').len(),
        !leads_nowhere(pieces(path, '/')[i]),
        forall|j: int|
            i < j < pieces(path, '/').len() ==> leads_nowhere(#[trigger] pieces(path, '/')[j]),
    ensures
        pieces(path, '/')[i] != seq!['.', '.'] ==> workspace_name(path) == pieces(path, '/')[i],
        pieces(path, '/')[i] == seq!['.', '.'] ==> workspace_name(path) == "Workspace"@,
{
    reveal_strlit(".");
    reveal_strlit("..");
    assert("."@ =~= seq!['.']);
    assert(".."@ =~= seq!['.', '.']);
    lemma_last_piece(pieces(path, '/'), i);
}

/// Where no piece of a path leads anywhere, the workspace has no name of its own.
pub proof fn law_workspace_may_have_no_name(path: Seq<char>)
    requires
        forall|j: int|
            0 <= j < pieces(path, '/').len() ==> leads_nowhere(#[trigger] pieces(path, '/')[j]),
    ensures
        workspace_name(path) == "Workspace"@,
{
    reveal_strlit(".");
    assert("."@ =~= seq!['.']);
    lemma_no_piece(pieces(path, '/'));
}

/// A workspace has the name of its directory, whole: of any path that is some base, a
/// slash and a name, with or without slashes after it, and of any name alone.
pub proof fn law_workspace_has_the_name_of_its_directory(
    base: Seq<char>,
    name: Seq<char>,
    slashes: Seq<char>,
)
    requires
        name.len() > 0,
        !name.contains('/'),
        name != seq!['.'],
        name != seq!['.', '.'],
        forall|i: int| 0 <= i < slashes.len() ==> #[trigger] slashes[i] == '/',
    ensures
        workspace_name(base + seq!['/'] + name) == name,
        workspace_name(base + seq!['/'] + name + slashes) == name,
        workspace_name(name) == name,
        workspace_name(name + slashes) == name,
    decreases slashes.len(),
{
    let below = base + seq!['/'] + name;
    law_text_without_separator_is_one_piece(name, '/');
    assert(below =~= base.push('/') + name);
    law_pieces_of_both(base, name, '/');
    lemma_name_then_slashes(name, name, slashes);
    lemma_name_then_slashes(below, name, slashes);
    assert(name + Seq::<char>::empty() =~= name);
    assert(below + Seq::<char>::empty() =~= below);
    lemma_name_then_slashes(name, name, Seq::empty());
    lemma_name_then_slashes(below, name, Seq::empty());
}

proof fn lemma_name_then_slashes(path: Seq<char>, name: Seq<char>, slashes: Seq<char>)
    requires
        pieces(path, '/').len() > 0,
        pieces(path, '/').last() == name,
        name.len() > 0,
        name != seq!['.'],
        name != seq!['.', '.'],
        forall|i: int| 0 <= i < slashes.len() ==> #[trigger] slashes[i] == '/',
    ensures
        workspace_name(path + slashes) == name,
{
    let i = pieces(path, '/').len() - 1;
    lemma_slashes_add_nothing(path, slashes);
    law_workspace_is_named_after_the_last_piece(path + slashes, i);
}

proof fn lemma_slashes_add_nothing(path: Seq<char>, slashes: Seq<char>)
    requires
        forall|i: int| 0 <= i < slashes.len() ==> #[trigger] slashes[i] == '/',
    ensures
        pieces(path + slashes, '/').len() == pieces(path, '/').len() + slashes.len(),
        forall|i: int|
            0 <= i < pieces(path, '/').len() ==> #[trigger] pieces(path + slashes, '/')[i]
                == pieces(path, '/')[i],
        forall|i: int|
            pieces(path, '/').len() <= i < pieces(path + slashes, '/').len() ==> (
            #[trigger] pieces(path + slashes, '/')[i]).len() == 0,
    decreases slashes.len(),
{
    let whole = path + slashes;
    if slashes.len() == 0 {
        assert(whole =~= path);
    } else {
        let earlier = slashes.drop_last();
        assert forall|i: int| 0 <= i < earlier.len() implies #[trigger] earlier[i] == '/' by {
            assert(earlier[i] == slashes[i]);
        }
        lemma_slashes_add_nothing(path, earlier);
        assert(whole.drop_last() =~= path + earlier);
        assert(whole.last() == slashes[slashes.len() - 1]);
    }
}

proof fn lemma_last_piece(parts: Seq<Seq<char>>, i: int)
    requires
        0 <= i < parts.len(),
        parts[i].len() > 0 && parts[i] != "."@,
        forall|j: int|
            i < j < parts.len() ==> (#[trigger] parts[j]).len() == 0 || parts[j] == "."@,
    ensures
        last_name(parts) == Some(parts[i]),
    decreases parts.len(),
{
    if i < parts.len() - 1 {
        assert(parts[parts.len() - 1] == parts.last());
        lemma_last_piece(parts.drop_last(), i);
    }
}

proof fn lemma_no_piece(parts: Seq<Seq<char>>)
    requires
        forall|j: int|
            0 <= j < parts.len() ==> (#[trigger] parts[j]).len() == 0 || parts[j] == "."@,
    ensures
        last_name(parts) is None,
    decreases parts.len(),
{
    if parts.len() > 0 {
        assert(parts[parts.len() - 1] == parts.last());
        lemma_no_piece(parts.drop_last());
    }
}

/// A worker that is found beside the app is used, whatever is among the sources. Only
/// where none is found there does it matter what Mac this is, and not where the app is.
pub proof fn law_bundled_worker_goes_first(
    dir: Seq<u8>,
    other: Option<Seq<u8>>,
    manifest_dir: Seq<char>,
    arch: Seq<char>,
)
    ensures
        sidecar_path(Some(dir), true, manifest_dir, arch) == joined_bytes(
            dir,
            encode_utf8("donna-agent-local"@),
        ),
        sidecar_path(None, true, manifest_dir, arch) == joined_bytes(
            encode_utf8("."@),
            encode_utf8("donna-agent-local"@),
        ),
        sidecar_path(other, false, manifest_dir, arch) == joined_bytes(
            encode_utf8(joined_path(manifest_dir, "binaries"@)),
            encode_utf8(
                if arch == "x86_64"@ {
                    "donna-agent-local-x86_64-apple-darwin"@
                } else {
                    "donna-agent-local-aarch64-apple-darwin"@
                },
            ),
        ),
{
    reveal_strlit("donna-agent-local-");
    reveal_strlit("-apple-darwin");
    reveal_strlit("x86_64");
    reveal_strlit("aarch64");
    reveal_strlit("donna-agent-local-x86_64-apple-darwin");
    reveal_strlit("donna-agent-local-aarch64-apple-darwin");
    let name = "donna-agent-local-"@ + triple_arch(arch) + "-apple-darwin"@;
    if arch == "x86_64"@ {
        assert(name =~= "donna-agent-local-x86_64-apple-darwin"@);
    } else {
        assert(name =~= "donna-agent-local-aarch64-apple-darwin"@);
    }
    law_joins_agree(joined_path(manifest_dir, "binaries"@), name);
}

} // verus!
