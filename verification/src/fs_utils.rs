//! The filesystem node model: one entry of the tree with its canonical
//! absolute path, the name and parent derived from that path, and the
//! metadata strings shown in the UI; the listing order (directories first,
//! then case-insensitively by name); and the extension-based file type.

use crate::text::find_last;
use crate::text::last_index_of;
use crate::text::lemma_last_index_of;
use crate::text::lemma_lex_le_total;
use crate::text::lemma_lex_le_trans;
use crate::text::lex_le;
use crate::text::lex_le_exec;
use crate::text::lower_of;
use crate::text::lowercase;
use vstd::prelude::*;
use vstd::string::StrSliceExecFns;
use vstd::string::StringExecFns;

verus! {

broadcast use vstd::seq_lib::group_to_multiset_ensures;

/// The kinds of filesystem failure the explorer distinguishes: an entry can
/// be missing, unreadable for lack of permission, or bad in some other way.
#[derive(Clone, Copy, PartialEq, Eq, Structural, Debug)]
pub enum FsErrorKind {
    NotFound,
    PermissionDenied,
    Other,
}

/// A filesystem failure, with a message the viewer can display. Failures
/// are values shown to the user, never a reason to stop the explorer.
#[derive(Debug, PartialEq, Eq)]
pub struct FsError {
    pub kind: FsErrorKind,
    pub message: String,
}

impl Clone for FsError {
    /// A clone keeps the kind and the message.
    fn clone(&self) -> (r: Self)
        ensures
            r == *self,
    {
        FsError { kind: self.kind, message: self.message.clone() }
    }
}

/// A path is canonical when it is absolute and carries no trailing slash
/// (except for the filesystem root `/` itself). Callers canonicalize with
/// the operating system before constructing a node.
pub open spec fn canonical_path(p: Seq<char>) -> bool {
    &&& p.len() > 0
    &&& p[0] == '/'
    &&& (p.len() > 1 ==> p[p.len() - 1] != '/')
}

/// The index of the last `/` in `p`, or `-1` if there is none.
pub open spec fn last_slash(p: Seq<char>) -> int {
    last_index_of(p, '/')
}

/// The last component of a canonical path: everything after the final `/`.
/// The root `/` has no component above it and keeps the whole path as name.
pub open spec fn name_of(p: Seq<char>) -> Seq<char> {
    if p.len() <= 1 {
        p
    } else {
        p.subrange(last_slash(p) + 1, p.len() as int)
    }
}

/// The parent directory of a canonical path: the prefix up to the final `/`,
/// itself canonical. The root `/` has no parent.
pub open spec fn parent_of(p: Seq<char>) -> Option<Seq<char>> {
    if p.len() <= 1 {
        None
    } else if last_slash(p) == 0 {
        Some(seq!['/'])
    } else {
        Some(p.subrange(0, last_slash(p)))
    }
}

/// The extension of the path's last component: what follows the final dot,
/// unless the component has no dot or only a leading one.
pub open spec fn extension_of(p: Seq<char>) -> Option<Seq<char>> {
    let base = p.subrange(last_slash(p) + 1, p.len() as int);
    let d = last_index_of(base, '.');
    if d <= 0 {
        None
    } else {
        Some(base.subrange(d + 1, base.len() as int))
    }
}

/// One filesystem entry as shown in the explorer tree.
///
/// The path is canonical at construction; the name and parent fields are
/// always the ones derived from it. The metadata strings (size and
/// timestamps) are formatted by the caller and carried opaquely.
#[derive(Debug)]
pub struct FileNode {
    /// The last component of the path (the whole path for the root).
    pub file_name: String,
    /// The canonical absolute path, including the file name.
    pub absolute_path: String,
    /// The parent directory's path; `None` only for the filesystem root.
    pub parent_folder: Option<String>,
    /// Whether this entry is a directory.
    pub is_dir: bool,
    /// Whether this entry matches the current search filter.
    pub matches_filters: bool,
    /// A human-readable size, formatted by the caller.
    pub size_display: String,
    /// A formatted creation timestamp.
    pub created_at: String,
    /// A formatted modification timestamp.
    pub modified_at: String,
    /// A formatted access timestamp.
    pub accessed_at: String,
}

impl FileNode {
    /// The node's invariant: the path is canonical and the name and parent
    /// are exactly the ones the path determines.
    pub open spec fn wf(self) -> bool {
        &&& canonical_path(self.absolute_path@)
        &&& self.file_name@ == name_of(self.absolute_path@)
        &&& self.parent_folder.deep_view() == parent_of(self.absolute_path@)
    }

    /// Two nodes agree on everything but the filter flag.
    pub open spec fn same_entry(self, other: FileNode) -> bool {
        &&& self.file_name == other.file_name
        &&& self.absolute_path == other.absolute_path
        &&& self.parent_folder == other.parent_folder
        &&& self.is_dir == other.is_dir
        &&& self.size_display == other.size_display
        &&& self.created_at == other.created_at
        &&& self.modified_at == other.modified_at
        &&& self.accessed_at == other.accessed_at
    }

    /// Builds a node from an already-canonicalized absolute path and the
    /// metadata the caller read for it. The name and parent are computed
    /// here, so the result is well formed by construction; a fresh node
    /// matches the (empty) filter.
    pub fn from_canonical_path(
        absolute_path: String,
        is_dir: bool,
        size_display: String,
        created_at: String,
        modified_at: String,
        accessed_at: String,
    ) -> (node: FileNode)
        requires
            canonical_path(absolute_path@),
        ensures
            node.wf(),
            node.absolute_path == absolute_path,
            node.is_dir == is_dir,
            node.matches_filters,
            node.size_display == size_display,
            node.created_at == created_at,
            node.modified_at == modified_at,
            node.accessed_at == accessed_at,
    {
        let path = absolute_path.as_str();
        let len = path.unicode_len();
        let (file_name, parent_folder): (String, Option<String>) = if len <= 1 {
            proof {
                assert(name_of(path@) == path@);
            }
            (absolute_path.clone(), None)
        } else {
            proof {
                lemma_last_index_of(path@, '/');
                if last_slash(path@) < 0 {
                    assert(path@[0] != '/');
                }
            }
            let k = match find_last(path, '/') {
                Some(k) => k,
                None => {
                    proof {
                        assert(false);
                    }
                    0
                },
            };
            let name = String::from_str(path.substring_char(k + 1, len));
            let parent = if k == 0 {
                String::from_str("/")
            } else {
                String::from_str(path.substring_char(0, k))
            };
            proof {
                reveal_strlit("/");
                assert(name@ == name_of(path@));
                if k == 0 {
                    assert(parent@ =~= seq!['/']);
                }
                assert(Some(parent@) == parent_of(path@));
            }
            (name, Some(parent))
        };
        FileNode {
            file_name,
            absolute_path,
            parent_folder,
            is_dir,
            matches_filters: true,
            size_display,
            created_at,
            modified_at,
            accessed_at,
        }
    }

    /// A display-friendly label: a folder or document marker, and a trailing
    /// slash on directories.
    pub fn display_name(&self) -> (r: String)
        ensures
            self.is_dir ==> r@ == "📂 "@ + self.file_name@ + "/"@,
            !self.is_dir ==> r@ == "📄 "@ + self.file_name@,
    {
        if self.is_dir {
            let mut s = String::from_str("📂 ");
            s.append(self.file_name.as_str());
            s.append("/");
            s
        } else {
            let mut s = String::from_str("📄 ");
            s.append(self.file_name.as_str());
            s
        }
    }
}

impl Clone for FileNode {
    /// A clone keeps every field.
    fn clone(&self) -> (r: Self)
        ensures
            r == *self,
    {
        FileNode {
            file_name: self.file_name.clone(),
            absolute_path: self.absolute_path.clone(),
            parent_folder: match &self.parent_folder {
                Some(p) => Some(p.clone()),
                None => None,
            },
            is_dir: self.is_dir,
            matches_filters: self.matches_filters,
            size_display: self.size_display.clone(),
            created_at: self.created_at.clone(),
            modified_at: self.modified_at.clone(),
            accessed_at: self.accessed_at.clone(),
        }
    }
}

/// The file type shown for a path: its extension, if the last path
/// component has one beyond a leading dot.
pub fn determine_file_type(path: &String) -> (r: Option<String>)
    ensures
        r.deep_view() == extension_of(path@),
{
    let p = path.as_str();
    let len = p.unicode_len();
    proof {
        lemma_last_index_of(p@, '/');
    }
    let start = match find_last(p, '/') {
        Some(k) => k + 1,
        None => 0,
    };
    let base = p.substring_char(start, len);
    let blen = len - start;
    proof {
        lemma_last_index_of(base@, '.');
    }
    match find_last(base, '.') {
        None => None,
        Some(d) => {
            if d == 0 {
                None
            } else {
                Some(String::from_str(base.substring_char(d + 1, blen)))
            }
        },
    }
}

/// The listing order: directories come before files, and within one group
/// nodes are ordered case-insensitively by name.
pub open spec fn node_le(a: FileNode, b: FileNode) -> bool {
    if a.is_dir != b.is_dir {
        a.is_dir
    } else {
        lex_le(lower_of(a.file_name@), lower_of(b.file_name@))
    }
}

/// A listing is sorted when every pair of positions respects `node_le`.
pub open spec fn sorted_nodes(s: Seq<FileNode>) -> bool {
    forall|i: int, j: int| 0 <= i < j < s.len() ==> #[trigger] node_le(s[i], s[j])
}

/// Two nodes the listing order cannot tell apart: each compares `<=` the
/// other (same group, same name up to case).
pub open spec fn node_order_eq(a: FileNode, b: FileNode) -> bool {
    node_le(a, b) && node_le(b, a)
}

/// The class of nodes the listing order cannot tell from `pivot`, as a
/// predicate for `Seq::filter`; stability is stated over these classes.
pub open spec fn order_class(pivot: FileNode) -> spec_fn(FileNode) -> bool {
    |n: FileNode| node_order_eq(n, pivot)
}

/// A filter keeps nothing of a sequence whose elements all fail it.
proof fn lemma_filter_all_false(s: Seq<FileNode>, pred: spec_fn(FileNode) -> bool)
    requires
        forall|l: int| 0 <= l < s.len() ==> !pred(#[trigger] s[l]),
    ensures
        s.filter(pred) == Seq::<FileNode>::empty(),
    decreases s.len(),
{
    reveal(Seq::filter);
    if s.len() > 0 {
        lemma_filter_all_false(s.drop_last(), pred);
    }
}

/// `node_le` is total: any two nodes compare one way or the other.
pub proof fn lemma_node_le_total(a: FileNode, b: FileNode)
    ensures
        node_le(a, b) || node_le(b, a),
{
    lemma_lex_le_total(lower_of(a.file_name@), lower_of(b.file_name@));
}

/// `node_le` is transitive.
pub proof fn lemma_node_le_trans(a: FileNode, b: FileNode, c: FileNode)
    requires
        node_le(a, b),
        node_le(b, c),
    ensures
        node_le(a, c),
{
    if a.is_dir == b.is_dir && b.is_dir == c.is_dir {
        lemma_lex_le_trans(
            lower_of(a.file_name@),
            lower_of(b.file_name@),
            lower_of(c.file_name@),
        );
    }
}

/// Compares two nodes in listing order.
fn node_le_exec(a: &FileNode, b: &FileNode) -> (r: bool)
    ensures
        r == node_le(*a, *b),
{
    if a.is_dir != b.is_dir {
        a.is_dir
    } else {
        let la = lowercase(a.file_name.as_str());
        let lb = lowercase(b.file_name.as_str());
        lex_le_exec(la.as_str(), lb.as_str())
    }
}

/// Sorts a listing: directories first, then case-insensitively by name.
/// The result holds exactly the nodes given, and the sort is stable: the
/// nodes of each order class keep their given order, so the output is
/// determined.
pub fn sort_nodes(nodes: Vec<FileNode>) -> (r: Vec<FileNode>)
    ensures
        sorted_nodes(r@),
        r@.to_multiset() == nodes@.to_multiset(),
        forall|pivot: FileNode| #[trigger] r@.filter(order_class(pivot)) == nodes@.filter(
            order_class(pivot),
        ),
{
    let mut v = nodes;
    if v.len() <= 1 {
        return v;
    }
    let ghost all = v@;
    let mut i: usize = 1;
    while i < v.len()
        invariant
            1 <= i <= v@.len(),
            v@.to_multiset() == all.to_multiset(),
            forall|pivot: FileNode| #[trigger] v@.filter(order_class(pivot)) == all.filter(
                order_class(pivot),
            ),
            sorted_nodes(v@.subrange(0, i as int)),
        decreases v@.len() - i,
    {
        let ghost before = v@;
        let x = v.remove(i);
        let ghost v1 = v@;
        proof {
            assert(before =~= v1.insert(i as int, x));
            assert(v1.subrange(0, i as int) =~= before.subrange(0, i as int));
            assert forall|a: int, b: int| 0 <= a < b < i implies #[trigger] node_le(
                v1[a],
                v1[b],
            ) by {
                assert(v1.subrange(0, i as int)[a] == v1[a]);
                assert(v1.subrange(0, i as int)[b] == v1[b]);
                assert(node_le(v1.subrange(0, i as int)[a], v1.subrange(0, i as int)[b]));
            }
        }
        let mut j: usize = i;
        loop
            invariant_except_break
                j <= i,
                i < v1.len() + 1,
                v@ == v1,
                forall|l: int| j <= l < i ==> #[trigger] node_le(x, v1[l]),
                forall|l: int| j <= l < i ==> !(#[trigger] node_le(v1[l], x)),
            ensures
                j <= i,
                v@ == v1,
                j > 0 ==> node_le(v1[j - 1], x),
                forall|l: int| j <= l < i ==> #[trigger] node_le(x, v1[l]),
                forall|l: int| j <= l < i ==> !(#[trigger] node_le(v1[l], x)),
            decreases j,
        {
            if j == 0 {
                break ;
            }
            if node_le_exec(&v[j - 1], &x) {
                break ;
            }
            proof {
                lemma_node_le_total(v1[j - 1], x);
            }
            j = j - 1;
        }
        v.insert(j, x);
        proof {
            let w = v@;
            assert(w == v1.insert(j as int, x));
            assert(w.to_multiset() == all.to_multiset());
            let front = v1.subrange(0, j as int);
            let mid = v1.subrange(j as int, i as int);
            let back = v1.subrange(i as int, v1.len() as int);
            let xs = seq![x];
            assert(before =~= front + (mid + (xs + back)));
            assert(w =~= front + (xs + (mid + back)));
            assert forall|pivot: FileNode| #[trigger] w.filter(order_class(pivot)) == all.filter(
                order_class(pivot),
            ) by {
                let pred = order_class(pivot);
                Seq::filter_distributes_over_add(front, mid + (xs + back), pred);
                Seq::filter_distributes_over_add(mid, xs + back, pred);
                Seq::filter_distributes_over_add(xs, back, pred);
                Seq::filter_distributes_over_add(front, xs + (mid + back), pred);
                Seq::filter_distributes_over_add(xs, mid + back, pred);
                Seq::filter_distributes_over_add(mid, back, pred);
                if pred(x) {
                    assert forall|l2: int| 0 <= l2 < mid.len() implies !pred(mid[l2]) by {
                        assert(mid[l2] == v1[j + l2]);
                        assert(!node_le(v1[j + l2], x));
                        if pred(mid[l2]) {
                            lemma_node_le_trans(mid[l2], pivot, x);
                        }
                    }
                    lemma_filter_all_false(mid, pred);
                } else {
                    assert(forall|l2: int| 0 <= l2 < xs.len() ==> !pred(#[trigger] xs[l2]));
                    lemma_filter_all_false(xs, pred);
                }
                assert(w.filter(pred) =~= before.filter(pred));
                assert(before.filter(pred) == all.filter(pred));
            }
            assert forall|a: int, b: int|
                0 <= a < b < i + 1 implies #[trigger] node_le(
                w.subrange(0, i + 1)[a],
                w.subrange(0, i + 1)[b],
            ) by {
                assert(w.subrange(0, i + 1)[a] == w[a]);
                assert(w.subrange(0, i + 1)[b] == w[b]);
                let ja = j as int;
                if a < ja {
                    assert(w[a] == v1[a]);
                }
                if b < ja {
                    assert(w[b] == v1[b]);
                }
                if a > ja {
                    assert(w[a] == v1[a - 1]);
                }
                if b > ja {
                    assert(w[b] == v1[b - 1]);
                }
                if b < ja {
                    assert(node_le(v1[a], v1[b]));
                } else if b == ja {
                    if a == ja - 1 {
                        assert(node_le(v1[a], x));
                    } else {
                        assert(node_le(v1[a], v1[ja - 1]));
                        lemma_node_le_trans(v1[a], v1[ja - 1], x);
                    }
                } else {
                    if a < ja {
                        assert(node_le(v1[a], v1[b - 1]));
                    } else if a == ja {
                        assert(node_le(x, v1[b - 1]));
                    } else {
                        assert(node_le(v1[a - 1], v1[b - 1]));
                    }
                }
            }
            assert(sorted_nodes(w.subrange(0, i + 1)));
        }
        i = i + 1;
    }
    proof {
        assert(v@.subrange(0, v@.len() as int) =~= v@);
    }
    v
}

/// The nodes of the entries that could be read, in the order given;
/// failed entries leave no trace.
pub open spec fn ok_nodes(s: Seq<Result<FileNode, FsError>>) -> Seq<FileNode>
    decreases s.len(),
{
    if s.len() == 0 {
        Seq::empty()
    } else {
        let rest = ok_nodes(s.drop_last());
        match s.last() {
            Ok(n) => rest.push(n),
            Err(_) => rest,
        }
    }
}

/// Builds the listing shown for a directory from the per-entry read
/// results: entries that failed (permission denied or otherwise) are
/// skipped, never surfaced, and the rest are sorted in listing order.
/// One bad entry never hides the others.
pub fn build_listing(entries: Vec<Result<FileNode, FsError>>) -> (r: Vec<FileNode>)
    ensures
        sorted_nodes(r@),
        r@.to_multiset() == ok_nodes(entries@).to_multiset(),
        forall|pivot: FileNode| #[trigger] r@.filter(order_class(pivot)) == ok_nodes(
            entries@,
        ).filter(order_class(pivot)),
{
    let mut oks: Vec<FileNode> = Vec::new();
    let mut idx: usize = 0;
    proof {
        assert(entries@.take(0) =~= Seq::<Result<FileNode, FsError>>::empty());
    }
    while idx < entries.len()
        invariant
            idx <= entries@.len(),
            oks@ == ok_nodes(entries@.take(idx as int)),
        decreases entries@.len() - idx,
    {
        let ghost prefix = entries@.take(idx as int);
        match &entries[idx] {
            Ok(n) => {
                oks.push(n.clone());
            },
            Err(_) => {
            },
        }
        proof {
            let next = entries@.take(idx + 1);
            assert(next.drop_last() =~= prefix);
            assert(next.last() == entries@[idx as int]);
        }
        idx = idx + 1;
    }
    proof {
        assert(entries@.take(entries@.len() as int) =~= entries@);
    }
    sort_nodes(oks)
}

} // verus!
