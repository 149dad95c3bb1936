//! Relocation planning: validating a run, deriving the localized source and
//! destination directories, splitting a source root's children, and picking
//! each item's destination category directory.

use vstd::prelude::*;
use crate::config::{spec_error_message, spec_localized_dir, Config};
use crate::organizer::types::{Category, DirEntry};
use crate::platform::user::UserProvider;
use crate::text::{join_path, trim_of, trimmed};

verus! {

/// Resolved, language-specific directories under one user's home: the two
/// source roots (Downloads and Desktop) and the four destination category
/// directories.
#[derive(Debug, Clone)]
pub struct UserDirs {
    pub home: String,
    pub downloads: String,
    pub desktop: String,
    pub music: String,
    pub videos: String,
    pub pictures: String,
    pub documents: String,
}

/// The on-disk path of one directory role under `home`.
pub open spec fn spec_role_dir(
    cfg: Config,
    lang: Seq<char>,
    home: Seq<char>,
    logical: Seq<char>,
) -> Seq<char> {
    home + "/"@ + spec_localized_dir(cfg, lang, logical)
}

/// All seven paths of a `UserDirs` are the localized role paths under `home`.
pub open spec fn spec_user_dirs(d: UserDirs, cfg: Config, lang: Seq<char>, home: Seq<char>) -> bool {
    &&& d.home@ == home
    &&& d.downloads@ == spec_role_dir(cfg, lang, home, "Downloads"@)
    &&& d.desktop@ == spec_role_dir(cfg, lang, home, "Desktop"@)
    &&& d.music@ == spec_role_dir(cfg, lang, home, "Music"@)
    &&& d.videos@ == spec_role_dir(cfg, lang, home, "Videos"@)
    &&& d.pictures@ == spec_role_dir(cfg, lang, home, "Pictures"@)
    &&& d.documents@ == spec_role_dir(cfg, lang, home, "Documents"@)
}

/// Derives the localized source and destination directories for one user.
pub fn localized_user_dirs(home: &str, lang: &str, config: &Config) -> (r: UserDirs)
    ensures
        spec_user_dirs(r, *config, lang@, home@),
{
    let downloads = config.get_localized_dir(lang, "Downloads");
    let desktop = config.get_localized_dir(lang, "Desktop");
    let music = config.get_localized_dir(lang, "Music");
    let videos = config.get_localized_dir(lang, "Videos");
    let pictures = config.get_localized_dir(lang, "Pictures");
    let documents = config.get_localized_dir(lang, "Documents");
    UserDirs {
        home: home.to_owned(),
        downloads: join_path(home, downloads.as_str()),
        desktop: join_path(home, desktop.as_str()),
        music: join_path(home, music.as_str()),
        videos: join_path(home, videos.as_str()),
        pictures: join_path(home, pictures.as_str()),
        documents: join_path(home, documents.as_str()),
    }
}

/// The destination category directory for a category.
pub open spec fn spec_dir_for(d: UserDirs, c: Category) -> Seq<char> {
    match c {
        Category::Music => d.music@,
        Category::Video => d.videos@,
        Category::Image => d.pictures@,
        Category::Docs => d.documents@,
    }
}

impl UserDirs {
    /// The destination directory for a category.
    pub fn dir_for(&self, c: Category) -> (r: &String)
        ensures
            r@ == spec_dir_for(*self, c),
    {
        match c {
            Category::Music => &self.music,
            Category::Video => &self.videos,
            Category::Image => &self.pictures,
            Category::Docs => &self.documents,
        }
    }
}

/// Validates the username, resolves the user's home directory through the
/// given provider, and derives the localized directories for the run.
///
/// A username that is empty after trimming is rejected with the localized
/// empty-username message before anything is resolved; a user whose home
/// directory the provider cannot find is reported with the localized
/// user-not-found message, which carries the trimmed username.
pub fn prepare_organize<P: UserProvider>(
    provider: &P,
    username: &str,
    lang: &str,
    config: &Config,
) -> (r: Result<UserDirs, String>)
    ensures
        trim_of(username@).len() == 0 ==> (r matches Err(m) && m@ == spec_error_message(
            *config,
            lang@,
            "empty_username"@,
            trim_of(username@),
        )),
        r matches Ok(d) ==> trim_of(username@).len() > 0 && exists|i: int|
            #![auto]
            0 <= i < provider.spec_roots().len() && spec_user_dirs(
                d,
                *config,
                lang@,
                provider.spec_roots()[i] + "/"@ + trim_of(username@),
            ),
        trim_of(username@).len() > 0 && r is Err ==> (r matches Err(m) && m@
            == spec_error_message(*config, lang@, "user_not_found"@, trim_of(username@))),
{
    let user = trimmed(username);
    if user.is_empty() {
        return Err(config.get_error_message(lang, "empty_username", user));
    }
    match provider.user_home(user) {
        Some(home) => {
            let d = localized_user_dirs(home.as_str(), lang, config);
            proof {
                let i = choose|i: int|
                    0 <= i < provider.spec_roots().len() && home@ == provider.spec_roots()[i]
                        + "/"@ + user@;
                assert(spec_user_dirs(
                    d,
                    *config,
                    lang@,
                    provider.spec_roots()[i] + "/"@ + trim_of(username@),
                ));
            }
            Ok(d)
        },
        None => Err(config.get_error_message(lang, "user_not_found", user)),
    }
}

/// The children of a source root that take part in folder relocation: its
/// immediate sub-folders, kept only when the root classifies folders at all.
pub open spec fn spec_folder_children(s: Seq<DirEntry>, include_folders: bool) -> Seq<DirEntry>
    decreases s.len(),
{
    if s.len() == 0 {
        Seq::empty()
    } else {
        spec_folder_children(s.drop_last(), include_folders) + if include_folders
            && s.last().is_dir {
            seq![s.last()]
        } else {
            Seq::empty()
        }
    }
}

/// The zero-length files of a listing: housekeeping deletes them.
pub open spec fn spec_empty_files(s: Seq<DirEntry>) -> Seq<DirEntry>
    decreases s.len(),
{
    if s.len() == 0 {
        Seq::empty()
    } else {
        spec_empty_files(s.drop_last()) + if !s.last().is_dir && s.last().is_file
            && s.last().len == Some(0u64) {
            seq![s.last()]
        } else {
            Seq::empty()
        }
    }
}

/// The remaining regular files of a listing: those classified and moved
/// one by one.
pub open spec fn spec_regular_files(s: Seq<DirEntry>) -> Seq<DirEntry>
    decreases s.len(),
{
    if s.len() == 0 {
        Seq::empty()
    } else {
        spec_regular_files(s.drop_last()) + if !s.last().is_dir && s.last().is_file
            && s.last().len != Some(0u64) {
            seq![s.last()]
        } else {
            Seq::empty()
        }
    }
}

/// Splits the immediate children of a source root into the sub-folders to
/// classify as units (only when `include_folders` holds — Desktop-role roots
/// never relocate whole sub-folders), the regular files to classify one by
/// one, and the zero-length files that housekeeping deletes.  Entries that
/// are neither directories nor files are left untouched.
pub fn split_children(entries: &Vec<DirEntry>, include_folders: bool) -> (r: (
    Vec<DirEntry>,
    Vec<DirEntry>,
    Vec<DirEntry>,
))
    ensures
        r.0@ == spec_folder_children(entries@, include_folders),
        r.1@ == spec_regular_files(entries@),
        r.2@ == spec_empty_files(entries@),
{
    let mut folders: Vec<DirEntry> = Vec::new();
    let mut files: Vec<DirEntry> = Vec::new();
    let mut empties: Vec<DirEntry> = Vec::new();
    let mut i: usize = 0;
    proof {
        assert(entries@.take(0) =~= Seq::<DirEntry>::empty());
    }
    while i < entries.len()
        invariant
            i <= entries@.len(),
            folders@ == spec_folder_children(entries@.take(i as int), include_folders),
            files@ == spec_regular_files(entries@.take(i as int)),
            empties@ == spec_empty_files(entries@.take(i as int)),
        decreases entries@.len() - i,
    {
        proof {
            assert(entries@.take(i as int + 1).drop_last() =~= entries@.take(i as int));
            assert(entries@.take(i as int + 1).last() == entries@[i as int]);
        }
        let entry = &entries[i];
        if entry.is_dir {
            if include_folders {
                folders.push(entry.clone());
                proof {
                    assert(folders@ =~= spec_folder_children(
                        entries@.take(i as int + 1),
                        include_folders,
                    ));
                }
            }
        } else if entry.is_file {
            let is_empty_file = match entry.len {
                Some(n) => n == 0,
                None => false,
            };
            if is_empty_file {
                empties.push(entry.clone());
                proof {
                    assert(empties@ =~= spec_empty_files(entries@.take(i as int + 1)));
                }
            } else {
                files.push(entry.clone());
                proof {
                    assert(files@ =~= spec_regular_files(entries@.take(i as int + 1)));
                }
            }
        }
        proof {
            assert(folders@ =~= spec_folder_children(entries@.take(i as int + 1), include_folders));
            assert(files@ =~= spec_regular_files(entries@.take(i as int + 1)));
            assert(empties@ =~= spec_empty_files(entries@.take(i as int + 1)));
        }
        i = i + 1;
    }
    proof {
        assert(entries@.take(entries@.len() as int) =~= entries@);
    }
    (folders, files, empties)
}

/// A modeled directory tree: what the merge algorithm reads of the disk.
#[derive(Debug)]
pub enum FsTree {
    File { len: u64 },
    Dir { entries: Vec<FsNode> },
}

/// One named child of a modeled directory.
#[derive(Debug)]
pub struct FsNode {
    pub name: String,
    pub tree: FsTree,
}

/// The mathematical shape of a tree: files, and directories as maps from
/// child name to child tree.
pub enum TreeView {
    File { len: u64 },
    Dir { entries: Map<Seq<char>, TreeView> },
}

/// The shape of a tree.
pub open spec fn tree_view(t: FsTree) -> TreeView
    decreases t,
{
    match t {
        FsTree::File { len } => TreeView::File { len },
        FsTree::Dir { entries } => TreeView::Dir { entries: nodes_view(entries@) },
    }
}

/// The shape of a directory's children: later entries shadow earlier ones of
/// the same name.
pub open spec fn nodes_view(s: Seq<FsNode>) -> Map<Seq<char>, TreeView>
    decreases s,
{
    if s.len() == 0 {
        Map::empty()
    } else {
        nodes_view(s.drop_last()).insert(s.last().name@, tree_view(s.last().tree))
    }
}

/// No two children share a name.
pub open spec fn wf_names(s: Seq<FsNode>) -> bool {
    forall|i: int, j: int| 0 <= i < j < s.len() ==> s[i].name@ != s[j].name@
}

/// Every directory of the tree has pairwise-distinct child names.
pub open spec fn wf_tree(t: FsTree) -> bool
    decreases t,
{
    match t {
        FsTree::File { .. } => true,
        FsTree::Dir { entries } => wf_nodes(entries@),
    }
}

/// Distinct names at this level, and well-formed trees below.
pub open spec fn wf_nodes(s: Seq<FsNode>) -> bool
    decreases s,
{
    wf_names(s) && forall|i: int| 0 <= i < s.len() ==> wf_tree(#[trigger] s[i].tree)
}

proof fn lemma_nodes_dom(s: Seq<FsNode>, n: Seq<char>)
    ensures
        nodes_view(s).dom().contains(n) <==> exists|i: int| 0 <= i < s.len() && s[i].name@ == n,
    decreases s.len(),
{
    if s.len() > 0 {
        lemma_nodes_dom(s.drop_last(), n);
        if s.last().name@ == n {
            assert(s[s.len() - 1].name@ == n);
        } else if nodes_view(s).dom().contains(n) {
            let i = choose|i: int| 0 <= i < s.drop_last().len() && s.drop_last()[i].name@ == n;
            assert(s[i].name@ == n);
        } else if exists|i: int| 0 <= i < s.len() && s[i].name@ == n {
            let i = choose|i: int| 0 <= i < s.len() && s[i].name@ == n;
            assert(i < s.len() - 1);
            assert(s.drop_last()[i].name@ == n);
        }
    }
}

proof fn lemma_nodes_get(s: Seq<FsNode>, i: int)
    requires
        wf_names(s),
        0 <= i < s.len(),
    ensures
        nodes_view(s).dom().contains(s[i].name@),
        nodes_view(s)[s[i].name@] == tree_view(s[i].tree),
    decreases s.len(),
{
    if i < s.len() - 1 {
        assert(wf_names(s.drop_last())) by {
            assert(forall|p: int, q: int|
                0 <= p < q < s.drop_last().len() ==> s.drop_last()[p] == s[p]
                    && s.drop_last()[q] == s[q]);
        }
        lemma_nodes_get(s.drop_last(), i);
        assert(s.drop_last()[i] == s[i]);
        assert(s.last().name@ != s[i].name@);
    }
}

proof fn lemma_wf_names_remove(s: Seq<FsNode>, i: int)
    requires
        wf_names(s),
        0 <= i < s.len(),
    ensures
        wf_names(s.remove(i)),
        forall|j: int| 0 <= j < s.remove(i).len() ==> s.remove(i)[j].name@ != s[i].name@,
        forall|j: int|
            0 <= j < s.remove(i).len() ==> s.remove(i)[j] == (if j < i {
                s[j]
            } else {
                s[j + 1]
            }),
{
    assert(forall|j: int|
        0 <= j < s.remove(i).len() ==> s.remove(i)[j] == (if j < i {
            s[j]
        } else {
            s[j + 1]
        }));
}

proof fn lemma_nodes_remove(s: Seq<FsNode>, i: int)
    requires
        wf_names(s),
        0 <= i < s.len(),
    ensures
        nodes_view(s.remove(i)) == nodes_view(s).remove(s[i].name@),
    decreases s.len(),
{
    lemma_wf_names_remove(s, i);
    if i == s.len() - 1 {
        assert(s.remove(i) =~= s.drop_last());
        lemma_nodes_dom(s.drop_last(), s[i].name@);
        assert(forall|j: int|
            0 <= j < s.drop_last().len() ==> s.drop_last()[j] == s[j]);
        assert(!nodes_view(s.drop_last()).dom().contains(s[i].name@));
        assert(nodes_view(s.drop_last()) =~= nodes_view(s).remove(s[i].name@));
    } else {
        assert(wf_names(s.drop_last())) by {
            assert(forall|p: int, q: int|
                0 <= p < q < s.drop_last().len() ==> s.drop_last()[p] == s[p]
                    && s.drop_last()[q] == s[q]);
        }
        lemma_nodes_remove(s.drop_last(), i);
        assert(s.drop_last()[i] == s[i]);
        assert(s.remove(i).drop_last() =~= s.drop_last().remove(i));
        assert(s.remove(i).last() == s.last());
        assert(s.remove(i).len() == s.len() - 1);
        // nodes_view(s.remove(i)) unfolds over its last element, which is s.last()
        assert(nodes_view(s.remove(i)) == nodes_view(s.drop_last().remove(i)).insert(
            s.last().name@,
            tree_view(s.last().tree),
        ));
        assert(s.last().name@ != s[i].name@);
        assert(nodes_view(s.drop_last()).remove(s[i].name@).insert(
            s.last().name@,
            tree_view(s.last().tree),
        ) =~= nodes_view(s.drop_last()).insert(
            s.last().name@,
            tree_view(s.last().tree),
        ).remove(s[i].name@));
    }
}

proof fn lemma_nodes_view_equiv(a: Seq<FsNode>, b: Seq<FsNode>)
    requires
        a.len() == b.len(),
        forall|i: int|
            0 <= i < a.len() ==> a[i].name@ == b[i].name@ && tree_view(#[trigger] a[i].tree)
                == tree_view(b[i].tree),
    ensures
        nodes_view(a) == nodes_view(b),
    decreases a.len(),
{
    if a.len() > 0 {
        assert(forall|i: int|
            0 <= i < a.drop_last().len() ==> a.drop_last()[i] == a[i] && b.drop_last()[i] == b[i]);
        lemma_nodes_view_equiv(a.drop_last(), b.drop_last());
        assert(a.last() == a[a.len() - 1] && b.last() == b[a.len() - 1]);
    }
}

/// Whether merging `x` into `y` runs into no file/directory conflict: the
/// trees under every shared name are both directories, or both files.
pub open spec fn spec_can_merge(x: TreeView, y: TreeView) -> bool
    decreases x,
{
    match (x, y) {
        (TreeView::Dir { entries: ae }, TreeView::Dir { entries: be }) => forall|k: Seq<char>|
            (#[trigger] ae.dom().contains(k)) && be.dom().contains(k) ==> spec_can_merge(
                ae[k],
                be[k],
            ),
        (TreeView::File { .. }, TreeView::File { .. }) => true,
        _ => false,
    }
}

/// The shape that merging `x` into `y` leaves behind: names from either
/// side, shared directories merged recursively, and the source side winning
/// on everything else.
pub open spec fn spec_merge(x: TreeView, y: TreeView) -> TreeView
    decreases x,
{
    match (x, y) {
        (TreeView::Dir { entries: ae }, TreeView::Dir { entries: be }) => TreeView::Dir {
            entries: Map::new(
                |k: Seq<char>| ae.dom().contains(k) || be.dom().contains(k),
                |k: Seq<char>|
                    if ae.dom().contains(k) && be.dom().contains(k) {
                        spec_merge(ae[k], be[k])
                    } else if ae.dom().contains(k) {
                        ae[k]
                    } else {
                        be[k]
                    },
            ),
        },
        _ => x,
    }
}

/// `spec_can_merge`, stated of two directories' child maps.
pub open spec fn can_merge_maps(
    a: Map<Seq<char>, TreeView>,
    b: Map<Seq<char>, TreeView>,
) -> bool {
    spec_can_merge(TreeView::Dir { entries: a }, TreeView::Dir { entries: b })
}

/// `spec_merge`, stated of two directories' child maps.
pub open spec fn merge_maps(a: Map<Seq<char>, TreeView>, b: Map<Seq<char>, TreeView>) -> Map<
    Seq<char>,
    TreeView,
> {
    spec_merge(TreeView::Dir { entries: a }, TreeView::Dir { entries: b })->Dir_entries
}

/// A file/directory conflict stopped a merge.
#[derive(Debug, PartialEq, Eq, Structural)]
pub struct MergeConflict;

fn clone_tree(t: &FsTree) -> (r: FsTree)
    ensures
        tree_view(r) == tree_view(*t),
        wf_tree(*t) ==> wf_tree(r),
    decreases *t,
{
    match t {
        FsTree::File { len } => FsTree::File { len: *len },
        FsTree::Dir { entries } => FsTree::Dir { entries: clone_nodes(entries) },
    }
}

fn clone_nodes(v: &Vec<FsNode>) -> (r: Vec<FsNode>)
    ensures
        r@.len() == v@.len(),
        forall|i: int|
            0 <= i < v@.len() ==> r@[i].name@ == v@[i].name@ && tree_view(#[trigger] r@[i].tree)
                == tree_view(v@[i].tree),
        nodes_view(r@) == nodes_view(v@),
        wf_nodes(v@) ==> wf_nodes(r@),
    decreases *v,
{
    let mut r: Vec<FsNode> = Vec::new();
    let mut i: usize = 0;
    while i < v.len()
        invariant
            i <= v@.len(),
            r@.len() == i,
            forall|j: int|
                0 <= j < i ==> r@[j].name@ == v@[j].name@ && tree_view(#[trigger] r@[j].tree)
                    == tree_view(v@[j].tree) && (wf_tree(v@[j].tree) ==> wf_tree(r@[j].tree)),
        decreases v@.len() - i,
    {
        let node = &v[i];
        r.push(FsNode { name: node.name.clone(), tree: clone_tree(&node.tree) });
        i = i + 1;
    }
    proof {
        lemma_nodes_view_equiv(r@, v@);
        if wf_nodes(v@) {
            assert forall|p: int, q: int| 0 <= p < q < r@.len() implies r@[p].name@
                != r@[q].name@ by {
                assert(tree_view(r@[p].tree) == tree_view(v@[p].tree));
                assert(tree_view(r@[q].tree) == tree_view(v@[q].tree));
            }
            assert forall|j: int| 0 <= j < r@.len() implies wf_tree(#[trigger] r@[j].tree) by {
                assert(tree_view(r@[j].tree) == tree_view(v@[j].tree));
                assert(wf_tree(v@[j].tree));
            }
        }
    }
    r
}

/// The position of `name` among the children, if present.
fn find_node(v: &Vec<FsNode>, name: &str) -> (r: Option<usize>)
    ensures
        r matches Some(i) ==> i < v@.len() && v@[i as int].name@ == name@,
        r is None ==> forall|i: int| 0 <= i < v@.len() ==> v@[i].name@ != name@,
{
    let mut i: usize = 0;
    while i < v.len()
        invariant
            i <= v@.len(),
            forall|j: int| 0 <= j < i ==> v@[j].name@ != name@,
        decreases v@.len() - i,
    {
        if crate::text::str_eq(v[i].name.as_str(), name) {
            return Some(i);
        }
        i = i + 1;
    }
    None
}

proof fn lemma_merge_empty(b: Map<Seq<char>, TreeView>)
    ensures
        can_merge_maps(Map::<Seq<char>, TreeView>::empty(), b),
        merge_maps(Map::<Seq<char>, TreeView>::empty(), b) == b,
{
    assert(merge_maps(Map::<Seq<char>, TreeView>::empty(), b) =~= b);
}

/// Taking the next source entry `n` out of the remainder and planting its
/// merged tree in the output leaves the overall merge unchanged.  `merged`
/// is what lands in the output: the source tree itself when the name is new
/// to the output, the pairwise merge when the name is shared.
proof fn lemma_merge_shift(
    rest: Map<Seq<char>, TreeView>,
    outm: Map<Seq<char>, TreeView>,
    n: Seq<char>,
    tv: TreeView,
    merged: TreeView,
)
    requires
        rest.dom().contains(n),
        rest[n] == tv,
        outm.dom().contains(n) ==> spec_can_merge(tv, outm[n]) && merged == spec_merge(
            tv,
            outm[n],
        ),
        !outm.dom().contains(n) ==> merged == tv,
    ensures
        can_merge_maps(rest.remove(n), outm.insert(n, merged)) <==> can_merge_maps(rest, outm),
        can_merge_maps(rest, outm) ==> merge_maps(rest.remove(n), outm.insert(n, merged))
            == merge_maps(rest, outm),
{
    let rest2 = rest.remove(n);
    let out2 = outm.insert(n, merged);
    assert(TreeView::Dir { entries: rest }->Dir_entries == rest);
    assert(TreeView::Dir { entries: outm }->Dir_entries == outm);
    assert(TreeView::Dir { entries: rest2 }->Dir_entries == rest2);
    assert(TreeView::Dir { entries: out2 }->Dir_entries == out2);
    if can_merge_maps(rest, outm) {
        assert forall|k: Seq<char>|
            (#[trigger] rest2.dom().contains(k)) && out2.dom().contains(k) implies spec_can_merge(
            rest2[k],
            out2[k],
        ) by {
            assert(k != n);
            assert(rest.dom().contains(k) && outm.dom().contains(k));
            assert(spec_can_merge(rest[k], outm[k]));
            assert(rest2[k] == rest[k]);
            assert(out2[k] == outm[k]);
        }
        assert(can_merge_maps(rest2, out2));
    }
    if can_merge_maps(rest2, out2) {
        assert forall|k: Seq<char>|
            (#[trigger] rest.dom().contains(k)) && outm.dom().contains(k) implies spec_can_merge(
            rest[k],
            outm[k],
        ) by {
            if k != n {
                assert(rest2.dom().contains(k) && out2.dom().contains(k));
                assert(spec_can_merge(rest2[k], out2[k]));
                assert(rest2[k] == rest[k] && out2[k] == outm[k]);
            } else {
                assert(rest[k] == tv);
                assert(spec_can_merge(tv, outm[n]));
            }
        }
        assert(can_merge_maps(rest, outm));
    }
    if can_merge_maps(rest, outm) {
        let lhs = merge_maps(rest2, out2);
        let rhs = merge_maps(rest, outm);
        assert forall|k: Seq<char>| #[trigger] rhs.dom().contains(k) implies lhs.dom().contains(k)
            && lhs[k] == rhs[k] by {
            if k == n {
                assert(!rest2.dom().contains(k) && out2.dom().contains(k));
                assert(lhs[k] == merged);
                if outm.dom().contains(n) {
                    assert(rhs[k] == spec_merge(tv, outm[n]));
                } else {
                    assert(rhs[k] == tv);
                }
            } else {
                assert(rest2.dom().contains(k) == rest.dom().contains(k));
                assert(out2.dom().contains(k) == outm.dom().contains(k));
                if rest.dom().contains(k) {
                    assert(rest2[k] == rest[k]);
                }
                if outm.dom().contains(k) {
                    assert(out2[k] == outm[k]);
                }
            }
        }
        assert forall|k: Seq<char>| #[trigger] lhs.dom().contains(k) implies rhs.dom().contains(
            k,
        ) by {
            if k != n {
                assert(rest.dom().contains(k) || outm.dom().contains(k));
            }
        }
        assert(lhs =~= rhs);
    }
}

/// Merges the children `src` into the children `dst`: names from either
/// side survive, a source file overwrites a destination file of the same
/// name, directories of the same name merge recursively, and a file meeting
/// a directory is a conflict that stops the merge.
pub fn merge_nodes(src: &Vec<FsNode>, dst: Vec<FsNode>) -> (r: Result<Vec<FsNode>, MergeConflict>)
    requires
        wf_nodes(src@),
        wf_nodes(dst@),
    ensures
        r is Ok <==> can_merge_maps(nodes_view(src@), nodes_view(dst@)),
        r matches Ok(out) ==> nodes_view(out@) == merge_maps(nodes_view(src@), nodes_view(dst@))
            && wf_nodes(out@),
    decreases *src,
{
    let ghost a0 = nodes_view(src@);
    let ghost b0 = nodes_view(dst@);
    let mut out = dst;
    let mut k: usize = 0;
    proof {
        assert(src@.skip(0) =~= src@);
    }
    while k < src.len()
        invariant
            k <= src@.len(),
            wf_nodes(src@),
            wf_nodes(out@),
            a0 == nodes_view(src@),
            b0 == nodes_view(dst@),
            can_merge_maps(nodes_view(src@.skip(k as int)), nodes_view(out@)) <==> can_merge_maps(
                a0,
                b0,
            ),
            can_merge_maps(a0, b0) ==> merge_maps(nodes_view(src@.skip(k as int)), nodes_view(out@))
                == merge_maps(a0, b0),
        decreases src@.len() - k,
    {
        let ghost rest = nodes_view(src@.skip(k as int));
        let ghost restnext = nodes_view(src@.skip(k as int + 1));
        let ghost outm = nodes_view(out@);
        let ghost outseq0 = out@;
        let ghost n = src@[k as int].name@;
        let ghost tv = tree_view(src@[k as int].tree);
        proof {
            assert(forall|p: int|
                0 <= p < src@.skip(k as int).len() ==> #[trigger] src@.skip(k as int)[p] == src@[p
                    + k]);
            assert(forall|p: int|
                0 <= p < src@.skip(k as int + 1).len() ==> #[trigger] src@.skip(k as int + 1)[p]
                    == src@[p + k + 1]);
            assert(wf_names(src@.skip(k as int)));
            assert(src@.skip(k as int)[0] == src@[k as int]);
            lemma_nodes_get(src@.skip(k as int), 0);
            lemma_nodes_remove(src@.skip(k as int), 0);
            assert(src@.skip(k as int).remove(0) =~= src@.skip(k as int + 1));
            assert(restnext == rest.remove(n));
            assert(wf_tree(src@[k as int].tree));
        }
        let node = &src[k];
        match find_node(&out, node.name.as_str()) {
            None => {
                proof {
                    lemma_nodes_dom(outseq0, n);
                    assert(!outm.dom().contains(n));
                }
                let cloned = clone_tree(&node.tree);
                out.push(FsNode { name: node.name.clone(), tree: cloned });
                proof {
                    assert(out@.drop_last() =~= outseq0);
                    assert(out@.last().name@ == n && tree_view(out@.last().tree) == tv);
                    assert(nodes_view(out@) == outm.insert(n, tv));
                    assert(wf_names(out@)) by {
                        assert(forall|p: int| 0 <= p < outseq0.len() ==> out@[p] == outseq0[p]);
                    }
                    assert(forall|p: int| 0 <= p < out@.len() ==> wf_tree(#[trigger] out@[p].tree))
                        by {
                        assert(forall|p: int| 0 <= p < outseq0.len() ==> out@[p] == outseq0[p]);
                    }
                    lemma_merge_shift(rest, outm, n, tv, tv);
                }
            },
            Some(i) => {
                proof {
                    lemma_nodes_get(outseq0, i as int);
                    assert(outm.dom().contains(n) && outm[n] == tree_view(
                        outseq0[i as int].tree,
                    ));
                    lemma_wf_names_remove(outseq0, i as int);
                    lemma_nodes_remove(outseq0, i as int);
                    assert(wf_tree(outseq0[i as int].tree));
                }
                let existing = out.remove(i);
                proof {
                    assert(nodes_view(out@) == outm.remove(n));
                    assert(wf_names(out@));
                    assert(forall|p: int| 0 <= p < out@.len() ==> wf_tree(#[trigger] out@[p].tree));
                    assert(forall|p: int| 0 <= p < out@.len() ==> out@[p].name@ != n);
                }
                let ghost outrem = out@;
                let merged_tree: FsTree = match (&node.tree, existing.tree) {
                    (FsTree::File { len }, FsTree::File { .. }) => FsTree::File { len: *len },
                    (FsTree::Dir { entries }, FsTree::Dir { entries: de }) => {
                        let sub = merge_nodes(entries, de);
                        match sub {
                            Ok(m) => FsTree::Dir { entries: m },
                            Err(e) => {
                                proof {
                                    assert(!spec_can_merge(tv, outm[n]));
                                    assert(!can_merge_maps(rest, outm));
                                }
                                return Err(e);
                            },
                        }
                    },
                    _ => {
                        proof {
                            assert(!spec_can_merge(tv, outm[n]));
                            assert(!can_merge_maps(rest, outm));
                        }
                        return Err(MergeConflict);
                    },
                };
                proof {
                    assert(spec_can_merge(tv, outm[n]));
                    assert(tree_view(merged_tree) == spec_merge(tv, outm[n]));
                    assert(wf_tree(merged_tree));
                }
                out.push(FsNode { name: node.name.clone(), tree: merged_tree });
                proof {
                    assert(out@.drop_last() =~= outrem);
                    assert(out@.last().name@ == n && tree_view(out@.last().tree) == tree_view(
                        merged_tree,
                    ));
                    assert(nodes_view(out@) == outm.remove(n).insert(n, tree_view(merged_tree)));
                    assert(outm.remove(n).insert(n, tree_view(merged_tree)) =~= outm.insert(
                        n,
                        tree_view(merged_tree),
                    ));
                    assert(wf_names(out@)) by {
                        assert(forall|p: int| 0 <= p < outrem.len() ==> out@[p] == outrem[p]);
                    }
                    assert(forall|p: int| 0 <= p < out@.len() ==> wf_tree(#[trigger] out@[p].tree))
                        by {
                        assert(forall|p: int| 0 <= p < outrem.len() ==> out@[p] == outrem[p]);
                    }
                    lemma_merge_shift(rest, outm, n, tv, tree_view(merged_tree));
                }
            },
        }
        k = k + 1;
    }
    proof {
        assert(src@.skip(src@.len() as int) =~= Seq::<FsNode>::empty());
        lemma_merge_empty(nodes_view(out@));
    }
    Ok(out)
}

/// Merges the modeled tree `src` into `dst`, as relocating a source
/// directory onto an existing destination does: a plain file overwrites a
/// plain file, directories merge child by child, and a file meeting a
/// directory in either direction is a conflict.
pub fn merge_trees(src: &FsTree, dst: FsTree) -> (r: Result<FsTree, MergeConflict>)
    requires
        wf_tree(*src),
        wf_tree(dst),
    ensures
        r is Ok <==> spec_can_merge(tree_view(*src), tree_view(dst)),
        r matches Ok(out) ==> tree_view(out) == spec_merge(tree_view(*src), tree_view(dst))
            && wf_tree(out),
{
    match (src, dst) {
        (FsTree::File { len }, FsTree::File { .. }) => Ok(FsTree::File { len: *len }),
        (FsTree::Dir { entries }, FsTree::Dir { entries: de }) => {
            match merge_nodes(entries, de) {
                Ok(m) => Ok(FsTree::Dir { entries: m }),
                Err(e) => Err(e),
            }
        },
        _ => Err(MergeConflict),
    }
}

} // verus!
