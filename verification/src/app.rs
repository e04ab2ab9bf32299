//! The navigation/action state machine. The application state owns the
//! opened directory and its listing, the file under view with its cached
//! content, the search filter with its debouncer, and the info modal and
//! pane layout. A renderer computes at most one [`Action`] per frame during
//! a read-only pass; [`FileExplorerApp::post_update`] then applies it in a
//! single mutation pass, handing filesystem work back to the caller as an
//! [`Effect`].

use crate::debounce::Debouncer;
use crate::fs_utils::build_listing;
use crate::fs_utils::determine_file_type;
use crate::fs_utils::extension_of;
use crate::fs_utils::ok_nodes;
use crate::fs_utils::order_class;
use crate::fs_utils::sorted_nodes;
use crate::fs_utils::FileNode;
use crate::fs_utils::FsError;
use crate::text::contains_substring;
use crate::text::filter_matches;
use crate::text::lines_of;
use crate::text::lowercase;
use crate::text::trim;
use vstd::prelude::*;

verus! {

/// The actions a renderer can hand back for one frame. During the render
/// pass no state mutates; the chosen action is applied afterwards in one
/// step.
#[derive(Debug, Clone)]
pub enum Action {
    /// A node in the tree was clicked, by its index in the listing.
    OpenFile(usize),
    /// The close-file button was clicked.
    CloseFile,
    /// The user asked to navigate up one directory.
    GoBack(),
    /// The search text changed; filtering follows after the debounce pause.
    SearchByFilename(String),
    /// Apply the search filter to the listing now.
    ApplyFilter(String),
    /// Set the layout ratio of one split.
    ResizePane(usize, u32),
    /// Show the info modal for the node at an index.
    OpenInfoModal(usize),
    /// Hide the info modal.
    CloseInfoModal,
    /// No user interaction happened during the frame.
    Idle,
}

/// The filters used to search the opened file tree.
#[derive(Debug)]
pub struct Filters {
    /// The text contents of the search.
    pub file_name_search: String,
}

/// Work the caller must perform after an action: the filesystem reads and
/// the debounce timer live outside this crate, so the state machine asks
/// for them by value and takes the results back through
/// [`FileExplorerApp::open_directory`], [`FileExplorerApp::open_file`] and
/// [`FileExplorerApp::debounce_fire`].
#[derive(Debug)]
pub enum Effect {
    /// List the children of this directory, then call `open_directory`.
    ListDirectory(FileNode),
    /// Read this file's contents, then call `open_file`.
    ReadFile(FileNode),
    /// Build the node for this parent path, list its children, then call
    /// `open_directory`.
    OpenParent(String),
    /// Start the debounce timer; when it elapses, call `debounce_fire`
    /// with this token.
    ScheduleFilter(u64),
}

/// The application state: the single mutable root the renderer reads.
#[derive(Debug)]
pub struct FileExplorerApp {
    /// The directory currently opened.
    pub opened_dir: FileNode,
    /// The file currently opened for viewing (if present).
    pub opened_file: Option<FileNode>,
    /// The contents of the `opened_file`; an error here is shown in the
    /// viewer, never raised.
    pub opened_file_contents: Result<String, FsError>,
    /// The type of the `opened_file` (if present), from its extension.
    pub opened_file_type: Option<String>,
    /// The lines of the `opened_file`, as the viewer shows them.
    pub opened_file_lines: Result<Vec<String>, FsError>,
    /// The children of the `opened_dir`, in listing order.
    pub files: Vec<FileNode>,
    /// The search filter for the file tree.
    pub filters: Filters,
    /// The debouncer pacing search-filter application.
    pub search_debounce: Debouncer,
    /// The node whose details the info modal shows, if it is open.
    pub modal_node: Option<FileNode>,
    /// Whether the info modal is shown.
    pub modal_open: bool,
    /// The layout ratio of each resizable split.
    pub pane_ratios: Vec<u32>,
}

/// The default layout ratio of the tree pane.
pub const TREE_PANE_RATIO: u32 = 20;

/// The default layout ratio of the content pane.
pub const CONTENT_PANE_RATIO: u32 = 80;

/// Every node of a listing matches the current filter.
pub open spec fn all_match(s: Seq<FileNode>) -> bool {
    forall|i: int| 0 <= i < s.len() ==> #[trigger] s[i].matches_filters
}

/// `post` is `pre` with the filter recomputed for `text`: every node keeps
/// its entry data, and its flag says whether its name matches the text;
/// everything outside the listing is untouched.
pub open spec fn filter_applied(
    pre: FileExplorerApp,
    post: FileExplorerApp,
    text: Seq<char>,
) -> bool {
    &&& post.files@.len() == pre.files@.len()
    &&& forall|i: int|
        0 <= i < pre.files@.len() ==> (#[trigger] post.files@[i]).same_entry(pre.files@[i])
            && post.files@[i].matches_filters == filter_matches(pre.files@[i].file_name@, text)
    &&& post.opened_dir == pre.opened_dir
    &&& same_viewer(pre, post)
    &&& post.filters == pre.filters
    &&& same_modal_and_layout(pre, post)
}

/// The two states show the same opened directory and listing.
pub open spec fn same_browsing(pre: FileExplorerApp, post: FileExplorerApp) -> bool {
    &&& post.opened_dir == pre.opened_dir
    &&& post.files == pre.files
}

/// The two states show the same file view.
pub open spec fn same_viewer(pre: FileExplorerApp, post: FileExplorerApp) -> bool {
    &&& post.opened_file == pre.opened_file
    &&& post.opened_file_contents == pre.opened_file_contents
    &&& post.opened_file_lines == pre.opened_file_lines
    &&& post.opened_file_type == pre.opened_file_type
}

/// The two states carry the same search text and debouncer.
pub open spec fn same_search(pre: FileExplorerApp, post: FileExplorerApp) -> bool {
    &&& post.filters == pre.filters
    &&& post.search_debounce == pre.search_debounce
}

/// The two states carry the same modal and pane layout.
pub open spec fn same_modal_and_layout(pre: FileExplorerApp, post: FileExplorerApp) -> bool {
    &&& post.modal_node == pre.modal_node
    &&& post.modal_open == pre.modal_open
    &&& post.pane_ratios == pre.pane_ratios
}

/// What one action does: the full transition relation of
/// [`FileExplorerApp::post_update`], case by case.
pub open spec fn action_applied(
    pre: FileExplorerApp,
    post: FileExplorerApp,
    action: Action,
    eff: Option<Effect>,
) -> bool {
    match action {
        Action::OpenFile(index) => {
            let node = pre.files@[index as int];
            &&& post == pre
            &&& if node.is_dir {
                eff == Some(Effect::ListDirectory(node))
            } else if pre.opened_file matches Some(f) && f.absolute_path@ == node.absolute_path@ {
                eff is None
            } else {
                eff == Some(Effect::ReadFile(node))
            }
        },
        Action::CloseFile => {
            &&& post.viewer_cleared()
            &&& same_browsing(pre, post)
            &&& same_search(pre, post)
            &&& same_modal_and_layout(pre, post)
            &&& eff is None
        },
        Action::GoBack() => {
            &&& post == pre
            &&& match pre.opened_dir.parent_folder {
                Some(parent) => eff == Some(Effect::OpenParent(parent)),
                None => eff is None,
            }
        },
        Action::SearchByFilename(text) => {
            &&& post.filters.file_name_search == text
            &&& post.search_debounce == pre.search_debounce.spec_schedule(text).0
            &&& eff == Some(Effect::ScheduleFilter(pre.search_debounce.spec_schedule(text).1))
            &&& same_browsing(pre, post)
            &&& same_viewer(pre, post)
            &&& same_modal_and_layout(pre, post)
        },
        Action::ApplyFilter(text) => {
            &&& filter_applied(pre, post, text@)
            &&& post.search_debounce == pre.search_debounce
            &&& (text@.len() == 0 ==> all_match(post.files@))
            &&& eff is None
        },
        Action::ResizePane(split, ratio) => {
            &&& if (split as int) < pre.pane_ratios@.len() {
                post.pane_ratios@ == pre.pane_ratios@.update(split as int, ratio)
            } else {
                post.pane_ratios == pre.pane_ratios
            }
            &&& same_browsing(pre, post)
            &&& same_viewer(pre, post)
            &&& same_search(pre, post)
            &&& post.modal_node == pre.modal_node
            &&& post.modal_open == pre.modal_open
            &&& eff is None
        },
        Action::OpenInfoModal(index) => {
            &&& if (index as int) < pre.files@.len() {
                post.modal_node == Some(pre.files@[index as int]) && post.modal_open
            } else {
                post.modal_node == pre.modal_node && post.modal_open == pre.modal_open
            }
            &&& same_browsing(pre, post)
            &&& same_viewer(pre, post)
            &&& same_search(pre, post)
            &&& post.pane_ratios == pre.pane_ratios
            &&& eff is None
        },
        Action::CloseInfoModal => {
            &&& post.modal_node is None
            &&& !post.modal_open
            &&& same_browsing(pre, post)
            &&& same_viewer(pre, post)
            &&& same_search(pre, post)
            &&& post.pane_ratios == pre.pane_ratios
            &&& eff is None
        },
        Action::Idle => {
            &&& post == pre
            &&& eff is None
        },
    }
}

impl FileExplorerApp {
    /// The state's invariant: the opened directory is a well-formed
    /// directory node, and whatever file is open is not a directory.
    pub open spec fn wf(self) -> bool {
        &&& self.opened_dir.wf()
        &&& self.opened_dir.is_dir
        &&& (self.opened_file matches Some(f) ==> !f.is_dir)
    }

    /// No file is open: the viewer shows its empty state.
    pub open spec fn viewer_cleared(self) -> bool {
        &&& self.opened_file is None
        &&& (self.opened_file_contents matches Ok(c) && c@.len() == 0)
        &&& (self.opened_file_lines matches Ok(l) && l@.len() == 0)
        &&& self.opened_file_type is None
    }

    /// The initial state: a directory to show and the results of reading
    /// its entries. No file is open, the search is empty, nothing is
    /// scheduled, the modal is closed, and the panes take their default
    /// ratios.
    pub fn new(opened_dir: FileNode, entries: Vec<Result<FileNode, FsError>>) -> (s: Self)
        requires
            opened_dir.wf(),
            opened_dir.is_dir,
        ensures
            s.wf(),
            s.opened_dir == opened_dir,
            sorted_nodes(s.files@),
            s.files@.to_multiset() == ok_nodes(entries@).to_multiset(),
            forall|pivot: FileNode| #[trigger] s.files@.filter(order_class(pivot)) == ok_nodes(
                entries@,
            ).filter(order_class(pivot)),
            s.viewer_cleared(),
            s.filters.file_name_search@.len() == 0,
            s.search_debounce.generation == 0,
            s.search_debounce.pending is None,
            s.modal_node is None,
            !s.modal_open,
            s.pane_ratios@ == seq![TREE_PANE_RATIO, CONTENT_PANE_RATIO],
    {
        let mut pane_ratios: Vec<u32> = Vec::new();
        pane_ratios.push(TREE_PANE_RATIO);
        pane_ratios.push(CONTENT_PANE_RATIO);
        proof {
            assert(pane_ratios@ =~= seq![TREE_PANE_RATIO, CONTENT_PANE_RATIO]);
        }
        FileExplorerApp {
            opened_dir,
            opened_file: None,
            opened_file_contents: Ok(String::new()),
            opened_file_type: None,
            opened_file_lines: Ok(Vec::new()),
            files: build_listing(entries),
            filters: Filters { file_name_search: String::new() },
            search_debounce: Debouncer::new(),
            modal_node: None,
            modal_open: false,
            pane_ratios,
        }
    }

    /// Processes the action that took place during the render pass, and
    /// returns the filesystem or timer work the caller owes in response.
    pub fn post_update(&mut self, action: Action) -> (eff: Option<Effect>)
        requires
            old(self).wf(),
            action matches Action::OpenFile(index) ==> (index as int) < old(self).files@.len(),
            old(self).search_debounce.generation < u64::MAX,
        ensures
            final(self).wf(),
            action_applied(*old(self), *final(self), action, eff),
    {
        match action {
            Action::OpenFile(index) => self.open_child_file(index),
            Action::CloseFile => {
                self.opened_file = None;
                self.opened_file_contents = Ok(String::new());
                self.opened_file_lines = Ok(Vec::new());
                self.opened_file_type = None;
                None
            },
            Action::GoBack() => match &self.opened_dir.parent_folder {
                Some(parent) => Some(Effect::OpenParent(parent.clone())),
                None => None,
            },
            Action::SearchByFilename(text) => {
                self.filters.file_name_search = text.clone();
                let token = self.search_debounce.schedule(text);
                Some(Effect::ScheduleFilter(token))
            },
            Action::ApplyFilter(text) => {
                self.apply_filter(text.as_str());
                None
            },
            Action::ResizePane(split, ratio) => {
                if split < self.pane_ratios.len() {
                    self.pane_ratios[split] = ratio;
                }
                None
            },
            Action::OpenInfoModal(index) => {
                if index < self.files.len() {
                    self.modal_node = Some(self.files[index].clone());
                    self.modal_open = true;
                }
                None
            },
            Action::CloseInfoModal => {
                self.modal_node = None;
                self.modal_open = false;
                None
            },
            Action::Idle => None,
        }
    }

    /// Applies one action; the entry point a render loop calls each frame.
    pub fn update(&mut self, action: Action) -> (eff: Option<Effect>)
        requires
            old(self).wf(),
            action matches Action::OpenFile(index) ==> (index as int) < old(self).files@.len(),
            old(self).search_debounce.generation < u64::MAX,
        ensures
            final(self).wf(),
            action_applied(*old(self), *final(self), action, eff),
    {
        self.post_update(action)
    }

    /// Decides what opening the node at `index` takes: a directory asks for
    /// its listing, a file asks for its contents — unless that file is the
    /// one already open, which is a no-op (no re-read).
    pub fn open_child_file(&mut self, index: usize) -> (eff: Option<Effect>)
        requires
            old(self).wf(),
            (index as int) < old(self).files@.len(),
        ensures
            final(self).wf(),
            *final(self) == *old(self),
            ({
                let node = old(self).files@[index as int];
                if node.is_dir {
                    eff == Some(Effect::ListDirectory(node))
                } else if old(self).opened_file matches Some(f) && f.absolute_path@
                    == node.absolute_path@ {
                    eff is None
                } else {
                    eff == Some(Effect::ReadFile(node))
                }
            }),
    {
        let node = self.files[index].clone();
        if node.is_dir {
            Some(Effect::ListDirectory(node))
        } else {
            let already_open = match &self.opened_file {
                Some(f) => f.absolute_path == node.absolute_path,
                None => false,
            };
            if already_open {
                None
            } else {
                Some(Effect::ReadFile(node))
            }
        }
    }

    /// Takes the listing read for a directory and makes it the opened one:
    /// the search text clears, the readable entries appear in listing
    /// order, and the viewer empties — opening a directory always leaves
    /// no file open.
    pub fn open_directory(&mut self, dir: FileNode, entries: Vec<Result<FileNode, FsError>>)
        requires
            old(self).wf(),
            dir.wf(),
            dir.is_dir,
        ensures
            final(self).wf(),
            final(self).opened_dir == dir,
            sorted_nodes(final(self).files@),
            final(self).files@.to_multiset() == ok_nodes(entries@).to_multiset(),
            forall|pivot: FileNode| #[trigger] final(self).files@.filter(order_class(pivot))
                == ok_nodes(entries@).filter(order_class(pivot)),
            final(self).viewer_cleared(),
            final(self).filters.file_name_search@.len() == 0,
            final(self).search_debounce == old(self).search_debounce,
            same_modal_and_layout(*old(self), *final(self)),
    {
        self.opened_dir = dir;
        self.files = build_listing(entries);
        self.opened_file = None;
        self.opened_file_contents = Ok(String::new());
        self.opened_file_lines = Ok(Vec::new());
        self.opened_file_type = None;
        self.filters.file_name_search = String::new();
    }

    /// Takes the content read for a file and shows it: the node becomes the
    /// opened file either way; on success the lines and the extension-based
    /// type are derived from the content, and on failure the error itself
    /// is stored for display, with the rest of the viewer cleared.
    pub fn open_file(&mut self, file: FileNode, content: Result<String, FsError>)
        requires
            old(self).wf(),
            !file.is_dir,
        ensures
            final(self).wf(),
            final(self).opened_file == Some(file),
            final(self).opened_file_contents == content,
            content matches Ok(c) ==> (final(self).opened_file_lines matches Ok(ls)
                && ls.deep_view() == lines_of(c@)) && final(self).opened_file_type.deep_view()
                == extension_of(file.absolute_path@),
            content matches Err(e) ==> (final(self).opened_file_lines matches Err(e2) && e2 == e)
                && final(self).opened_file_type is None,
            same_browsing(*old(self), *final(self)),
            final(self).filters == old(self).filters,
            final(self).search_debounce == old(self).search_debounce,
            same_modal_and_layout(*old(self), *final(self)),
    {
        match content {
            Ok(c) => {
                self.opened_file_lines = Ok(crate::text::split_lines(c.as_str()));
                self.opened_file_type = determine_file_type(&file.absolute_path);
                self.opened_file_contents = Ok(c);
            },
            Err(e) => {
                self.opened_file_lines = Err(e.clone());
                self.opened_file_type = None;
                self.opened_file_contents = Err(e);
            },
        }
        self.opened_file = Some(file);
    }

    /// Recomputes the filter flag of every child: a node matches when its
    /// lowercased name contains the trimmed, lowercased search text, so the
    /// empty search matches everything.
    pub fn apply_filter(&mut self, text: &str)
        requires
            old(self).wf(),
        ensures
            final(self).wf(),
            filter_applied(*old(self), *final(self), text@),
            final(self).search_debounce == old(self).search_debounce,
            text@.len() == 0 ==> all_match(final(self).files@),
    {
        let trimmed = trim(text);
        let needle = lowercase(trimmed);
        let mut updated: Vec<FileNode> = Vec::new();
        let mut i: usize = 0;
        while i < self.files.len()
            invariant
                i <= self.files@.len(),
                updated@.len() == i,
                self.files == old(self).files,
                needle@ == crate::text::lower_of(crate::text::trim_of(text@)),
                text@.len() == 0 ==> needle@.len() == 0,
                forall|l: int|
                    0 <= l < i ==> (#[trigger] updated@[l]).same_entry(self.files@[l])
                        && updated@[l].matches_filters == filter_matches(
                        self.files@[l].file_name@,
                        text@,
                    ),
                text@.len() == 0 ==> all_match(updated@),
            decreases self.files@.len() - i,
        {
            let lname = lowercase(self.files[i].file_name.as_str());
            proof {
                if needle@.len() == 0 {
                    assert(lname@.subrange(0, 0 + needle@.len() as int) =~= needle@);
                }
            }
            let m = contains_substring(lname.as_str(), needle.as_str());
            let mut node = self.files[i].clone();
            node.matches_filters = m;
            updated.push(node);
            i = i + 1;
        }
        self.files = updated;
    }

    /// Called when the debounce timer holding `token` elapses: if the token
    /// is still the current one, the pending search text is applied to the
    /// listing exactly once; a stale token changes nothing.
    pub fn debounce_fire(&mut self, token: u64)
        requires
            old(self).wf(),
        ensures
            final(self).wf(),
            old(self).search_debounce.spec_fire(token).1 matches Some(text) ==> filter_applied(
                *old(self),
                *final(self),
                text@,
            ) && final(self).search_debounce == old(self).search_debounce.spec_fire(token).0,
            old(self).search_debounce.spec_fire(token).1 is None ==> *final(self) == *old(self),
    {
        let fired = self.search_debounce.fire(token);
        match fired {
            Some(text) => {
                self.apply_filter(text.as_str());
            },
            None => {
            },
        }
    }
}

} // verus!
