//! Building the task tree of a directory. The walk asks one question of the
//! filesystem at a time and decides from each answer what to ask next; a
//! recorded snapshot of a directory answers all of them at once.

use vstd::prelude::*;
use vstd::string::*;
use crate::failure::IoFailure;
use crate::helpers::TASK_FILE_NAME;
use crate::paths::{file_name, file_name_of, joined, PathStyle};
use crate::tasks::{
    all_read, items_view, DirItem, DirItemView, DirListing, TaskTreeNode, TaskTreeView,
};
use crate::text::{lemma_text_rank_same, rank_text, Rank};

verus! {

/// How a directory is told to be a task. The two ways are never mixed: a
/// tree is built with one of them from top to bottom.
#[derive(Clone, Copy, Debug, PartialEq, Eq, Structural)]
pub enum TaskPredicate {
    /// A directory is a task if the marker file lies in it. This is the way
    /// that is used wherever no other is asked for.
    MarkerFile,
    /// A directory is a task if it holds both a directory named like the
    /// work directory and one named like the output directory of a task.
    DirectoryPair,
}

/// What was found at a directory and beneath it: whether the marker file
/// lies in it, and its entries in the order in which it was listed, or why
/// it could not be listed.
#[derive(Debug)]
pub struct DirSnapshot {
    pub has_marker: bool,
    pub listing: Result<Vec<SnapshotEntry>, IoFailure>,
}

/// An entry of a directory, and what was found beneath it. For an entry
/// that is no directory, what lies beneath is never read.
#[derive(Debug)]
pub struct SnapshotEntry {
    pub item: DirItem,
    pub below: DirSnapshot,
}

/// The entries that a snapshot holds at its top; none where the directory
/// could not be listed.
pub open spec fn entries_of(snapshot: DirSnapshot) -> Seq<SnapshotEntry> {
    match snapshot.listing {
        Ok(entries) => entries@,
        Err(_) => Seq::empty(),
    }
}

/// The entries of a snapshot as a listing gives them.
pub open spec fn listed_items(entries: Seq<SnapshotEntry>) -> Seq<DirItemView> {
    entries.map_values(|e: SnapshotEntry| e.item@)
}

/// Whether a listing holds a directory with this name.
pub open spec fn has_directory(items: Seq<DirItemView>, name: Seq<char>, style: PathStyle) -> bool {
    exists|i: int| 0 <= i < items.len() && items[i].is_dir && file_name(items[i].path, style) == name
}

/// Whether the listing of a directory makes it a task: only where tasks are
/// told by the pair of directories, and both are there.
pub open spec fn marks_task(
    predicate: TaskPredicate,
    items: Seq<DirItemView>,
    work_dir_name: Seq<char>,
    output_dir_name: Seq<char>,
    style: PathStyle,
) -> bool {
    predicate == TaskPredicate::DirectoryPair && has_directory(items, work_dir_name, style)
        && has_directory(items, output_dir_name, style)
}

/// The tree of the directory at `path`, given what was found there. A
/// directory that is a task is a node without children, whatever it
/// contains. A directory that is none and cannot be listed fails the whole
/// tree with its failure. Any other directory is a folder whose children
/// are the trees of its entries that are directories, in the order of the
/// listing; every other entry is passed over.
pub open spec fn built(
    predicate: TaskPredicate,
    path: Seq<char>,
    work_dir_name: Seq<char>,
    output_dir_name: Seq<char>,
    snapshot: DirSnapshot,
    style: PathStyle,
) -> Result<TaskTreeView, IoFailure>
    decreases snapshot, entries_of(snapshot).len() + 1,
{
    let node = TaskTreeView::folder(path, work_dir_name, output_dir_name, style);
    if predicate == TaskPredicate::MarkerFile && snapshot.has_marker {
        Ok(node.as_task())
    } else {
        match snapshot.listing {
            Err(e) => Err(e),
            Ok(entries) => if marks_task(
                predicate,
                listed_items(entries@),
                work_dir_name,
                output_dir_name,
                style,
            ) {
                Ok(node.as_task())
            } else {
                built_from(predicate, node, snapshot, 0, style)
            },
        }
    }
}

/// The folder `node`, completed with the trees of the entries of `snapshot`
/// from index `i` on. The first entry that fails, fails the folder.
pub open spec fn built_from(
    predicate: TaskPredicate,
    node: TaskTreeView,
    snapshot: DirSnapshot,
    i: nat,
    style: PathStyle,
) -> Result<TaskTreeView, IoFailure>
    decreases snapshot, entries_of(snapshot).len() - i,
{
    match snapshot.listing {
        Ok(entries) => {
            if i >= entries@.len() {
                Ok(node)
            } else if !entries@[i as int].item.is_dir {
                built_from(predicate, node, snapshot, i + 1, style)
            } else {
                match built(
                    predicate,
                    entries@[i as int].item.path@,
                    node.work_dir_name,
                    node.output_dir_name,
                    entries@[i as int].below,
                    style,
                ) {
                    Ok(child) => built_from(predicate, node.with_child(child), snapshot, i + 1, style),
                    Err(e) => Err(e),
                }
            }
        },
        Err(_) => Ok(node),
    }
}

/// A directory that the walk has entered: the node as far as it is built,
/// the entries of the directory, and the index of the next entry to look at.
struct Frame {
    node: TaskTreeNode,
    entries: Vec<DirItem>,
    next: usize,
}

/// What a frame of the walk holds, as plain values.
pub struct FrameView {
    pub node: TaskTreeView,
    pub entries: Seq<DirItemView>,
    pub next: nat,
}

impl FrameView {
    /// The frame of a directory that was just entered.
    pub open spec fn fresh(
        path: Seq<char>,
        work_dir_name: Seq<char>,
        output_dir_name: Seq<char>,
        style: PathStyle,
    ) -> FrameView {
        FrameView {
            node: TaskTreeView::folder(path, work_dir_name, output_dir_name, style),
            entries: Seq::empty(),
            next: 0,
        }
    }
}

impl View for Frame {
    type V = FrameView;

    closed spec fn view(&self) -> FrameView {
        FrameView { node: self.node@, entries: items_view(self.entries@), next: self.next as nat }
    }
}

/// The directories that the walk is inside of, outermost first.
struct WalkState {
    predicate: TaskPredicate,
    style: PathStyle,
    work_dir_name: String,
    output_dir_name: String,
    stack: Vec<Frame>,
}

/// The state of a walk, as plain values.
pub struct WalkView {
    pub predicate: TaskPredicate,
    pub style: PathStyle,
    pub work_dir_name: Seq<char>,
    pub output_dir_name: Seq<char>,
    pub stack: Seq<FrameView>,
}

impl View for WalkState {
    type V = WalkView;

    closed spec fn view(&self) -> WalkView {
        WalkView {
            predicate: self.predicate,
            style: self.style,
            work_dir_name: self.work_dir_name@,
            output_dir_name: self.output_dir_name@,
            stack: self.stack@.map_values(|f: Frame| f@),
        }
    }
}

impl WalkView {
    /// The walk at its start, about to look at `path`.
    pub open spec fn begin(
        predicate: TaskPredicate,
        path: Seq<char>,
        work_dir_name: Seq<char>,
        output_dir_name: Seq<char>,
        style: PathStyle,
    ) -> WalkView {
        WalkView {
            predicate,
            style,
            work_dir_name,
            output_dir_name,
            stack: seq![FrameView::fresh(path, work_dir_name, output_dir_name, style)],
        }
    }

    /// The innermost directory.
    pub open spec fn top(self) -> FrameView {
        self.stack.last()
    }

    /// The walk with another frame in place of the innermost.
    pub open spec fn with_top(self, frame: FrameView) -> WalkView {
        WalkView { stack: self.stack.drop_last().push(frame), ..self }
    }

    /// The walk outside of the innermost directory.
    pub open spec fn below(self) -> WalkView {
        WalkView { stack: self.stack.drop_last(), ..self }
    }

    /// The walk after it entered the directory at `path`.
    pub open spec fn entered(self, path: Seq<char>) -> WalkView {
        WalkView {
            stack: self.stack.push(
                FrameView::fresh(path, self.work_dir_name, self.output_dir_name, self.style),
            ),
            ..self
        }
    }

    /// Whether the innermost directory was just entered.
    pub open spec fn at_fresh_top(self) -> bool {
        self.stack.len() > 0 && self.top() == FrameView::fresh(
            self.top().node.path,
            self.work_dir_name,
            self.output_dir_name,
            self.style,
        )
    }
}

/// What a walk does next, as plain values.
pub enum StepView {
    Marker(WalkView),
    Listing(WalkView),
    Done(Result<TaskTreeView, IoFailure>),
}

/// The first question about a directory that was just entered: for its
/// marker where tasks are told by the marker file, for its entries where
/// they are told by the pair of directories.
pub open spec fn asked(w: WalkView) -> StepView {
    match w.predicate {
        TaskPredicate::MarkerFile => StepView::Marker(w),
        TaskPredicate::DirectoryPair => StepView::Listing(w),
    }
}

/// What the walk does when the innermost directory has its entries: it
/// passes over every entry that is no directory; it enters the first that
/// is one and asks about it; and when no entry is left, the directory is complete and
/// becomes the last child of the directory around it, which goes on in the
/// same way. The outermost directory, once complete, is the result.
pub open spec fn advanced(w: WalkView) -> StepView
    decreases w.stack.len(), w.top().entries.len() - w.top().next,
{
    if w.stack.len() == 0 {
        arbitrary()
    } else {
        let top = w.top();
        if top.next < top.entries.len() {
            let item = top.entries[top.next as int];
            let moved = w.with_top(FrameView { next: top.next + 1, ..top });
            if item.is_dir {
                asked(moved.entered(item.path))
            } else {
                advanced(moved)
            }
        } else if w.stack.len() == 1 {
            StepView::Done(Ok(top.node))
        } else {
            let outer = w.below();
            advanced(
                outer.with_top(
                    FrameView { node: outer.top().node.with_child(top.node), ..outer.top() },
                ),
            )
        }
    }
}

/// What the walk does once a directory is complete: `node` becomes the last
/// child of the innermost directory of `outer`, or the result if there is
/// none.
pub open spec fn settled(outer: WalkView, node: TaskTreeView) -> StepView {
    if outer.stack.len() == 0 {
        StepView::Done(Ok(node))
    } else {
        advanced(
            outer.with_top(FrameView { node: outer.top().node.with_child(node), ..outer.top() }),
        )
    }
}

/// What the walk does with the entries of the innermost directory: where
/// they make it a task, it is complete as it is; otherwise the walk goes
/// through them.
pub open spec fn listed(w: WalkView, items: Seq<DirItemView>) -> StepView {
    if marks_task(w.predicate, items, w.work_dir_name, w.output_dir_name, w.style) {
        settled(w.below(), w.top().node.as_task())
    } else {
        advanced(w.with_top(FrameView { entries: items, ..w.top() }))
    }
}

/// A directory with the marker file is a task without children, whatever
/// lies in it: so a snapshot says, and so a walk finds that is told, at its
/// start, that the marker of its root is there. It asks nothing further.
pub proof fn lemma_marker_makes_leaf(
    path: Seq<char>,
    work_dir_name: Seq<char>,
    output_dir_name: Seq<char>,
    snapshot: DirSnapshot,
    style: PathStyle,
)
    requires
        snapshot.has_marker,
    ensures
        built(TaskPredicate::MarkerFile, path, work_dir_name, output_dir_name, snapshot, style) == Ok::<
            TaskTreeView,
            IoFailure,
        >(TaskTreeView::folder(path, work_dir_name, output_dir_name, style).as_task()),
        TaskTreeView::folder(path, work_dir_name, output_dir_name, style).as_task().is_task,
        TaskTreeView::folder(path, work_dir_name, output_dir_name, style).as_task().children.len() == 0,
        settled(
            WalkView::begin(
                TaskPredicate::MarkerFile,
                path,
                work_dir_name,
                output_dir_name,
                style,
            ).below(),
            WalkView::begin(
                TaskPredicate::MarkerFile,
                path,
                work_dir_name,
                output_dir_name,
                style,
            ).top().node.as_task(),
        ) == StepView::Done(
            Ok(TaskTreeView::folder(path, work_dir_name, output_dir_name, style).as_task()),
        ),
{
}

/// A walk never fails by itself: only a listing that failed ends it with a
/// failure.
pub proof fn lemma_advanced_never_fails(w: WalkView)
    requires
        w.stack.len() > 0,
    ensures
        !(advanced(w) matches StepView::Done(Err(_))),
    decreases w.stack.len(), w.top().entries.len() - w.top().next,
{
    let top = w.top();
    if top.next < top.entries.len() {
        let item = top.entries[top.next as int];
        let moved = w.with_top(FrameView { next: top.next + 1, ..top });
        if !item.is_dir {
            lemma_advanced_never_fails(moved);
        }
    } else if w.stack.len() > 1 {
        let outer = w.below();
        lemma_advanced_never_fails(
            outer.with_top(
                FrameView { node: outer.top().node.with_child(top.node), ..outer.top() },
            ),
        );
    }
}

/// The walk asks whether the marker file of the innermost directory exists.
pub struct MarkerQuestion {
    state: WalkState,
}

/// The walk asks for the entries of the innermost directory.
pub struct ListingQuestion {
    state: WalkState,
}

/// What a walk does next: it asks a question, or it is done.
pub enum WalkStep {
    Marker(MarkerQuestion),
    Listing(ListingQuestion),
    Done(Result<TaskTreeNode, IoFailure>),
}

impl View for MarkerQuestion {
    type V = WalkView;

    closed spec fn view(&self) -> WalkView {
        self.state@
    }
}

impl View for ListingQuestion {
    type V = WalkView;

    closed spec fn view(&self) -> WalkView {
        self.state@
    }
}

impl View for WalkStep {
    type V = StepView;

    open spec fn view(&self) -> StepView {
        match self {
            WalkStep::Marker(q) => StepView::Marker(q@),
            WalkStep::Listing(q) => StepView::Listing(q@),
            WalkStep::Done(Ok(node)) => StepView::Done(Ok(node@)),
            WalkStep::Done(Err(e)) => StepView::Done(Err(*e)),
        }
    }
}

/// A node with one more child holds what it held, and the child at the end.
proof fn lemma_child_added(before: TaskTreeNode, after: TaskTreeNode, child: TaskTreeNode)
    requires
        after.name == before.name,
        after.path == before.path,
        after.metadata == before.metadata,
        after.children@ == before.children@.push(child),
    ensures
        after@ == before@.with_child(child@),
{
    assert(after@.children =~= before@.children.push(child@));
}

/// Whether a listing holds a directory with this name.
fn holds_directory(items: &Vec<DirItem>, name: &str, style: PathStyle) -> (r: bool)
    ensures
        r == has_directory(items_view(items@), name@, style),
{
    let mut i: usize = 0;
    while i < items.len()
        invariant
            i <= items.len(),
            forall|k: int|
                0 <= k < i ==> !(items_view(items@)[k].is_dir && file_name(
                    items_view(items@)[k].path,
                    style,
                ) == name@),
        decreases items.len() - i,
    {
        assert(items_view(items@)[i as int] == items@[i as int]@);
        if items[i].is_dir {
            let found = file_name_of(items[i].path.as_str(), style);
            proof {
                lemma_text_rank_same(found@, name@);
            }
            if rank_text(found.as_str(), name) == Rank::Same {
                return true;
            }
        }
        i += 1;
    }
    false
}

/// Whether the listing of the innermost directory makes it a task.
fn listing_marks_task(state: &WalkState, items: &Vec<DirItem>) -> (r: bool)
    ensures
        r == marks_task(
            state@.predicate,
            items_view(items@),
            state@.work_dir_name,
            state@.output_dir_name,
            state@.style,
        ),
{
    match state.predicate {
        TaskPredicate::MarkerFile => false,
        TaskPredicate::DirectoryPair => holds_directory(items, state.work_dir_name.as_str(), state.style)
            && holds_directory(items, state.output_dir_name.as_str(), state.style),
    }
}

/// Asks the first question about the directory that was just entered.
fn ask(state: WalkState) -> (r: WalkStep)
    requires
        state@.at_fresh_top(),
    ensures
        r@ == asked(state@),
{
    match state.predicate {
        TaskPredicate::MarkerFile => WalkStep::Marker(MarkerQuestion { state }),
        TaskPredicate::DirectoryPair => WalkStep::Listing(ListingQuestion { state }),
    }
}

/// Makes `child` the last child of the innermost directory.
fn give_child(state: &mut WalkState, child: TaskTreeNode)
    requires
        old(state)@.stack.len() > 0,
    ensures
        final(state)@ == old(state)@.with_top(
            FrameView {
                node: old(state)@.top().node.with_child(child@),
                ..old(state)@.top()
            },
        ),
{
    let ghost outer = state@;
    let ghost frames = state.stack@;
    let mut parent = state.stack.pop().unwrap();
    let ghost old_parent = parent;
    assert(state.stack@ =~= frames.drop_last());
    parent.node.children.push(child);
    proof {
        lemma_child_added(old_parent.node, parent.node, child);
    }
    let ghost pv = parent@;
    state.stack.push(parent);
    assert(state@.stack =~= outer.stack.drop_last().push(pv));
}

/// Carries the walk on from a state whose innermost directory has its entries.
fn advance(initial: WalkState) -> (r: WalkStep)
    requires
        initial@.stack.len() > 0,
    ensures
        r@ == advanced(initial@),
{
    let mut state = initial;
    loop
        invariant
            state@.stack.len() > 0,
            advanced(state@) == advanced(initial@),
        decreases state@.stack.len(), state@.top().entries.len() - state@.top().next,
    {
        let ghost w = state@;
        let ghost frames = state.stack@;
        let mut top = state.stack.pop().unwrap();
        assert(state.stack@ =~= frames.drop_last());
        assert(state@.stack =~= w.stack.drop_last());
        assert(top@ == w.top());
        if top.next < top.entries.len() {
            let is_dir = top.entries[top.next].is_dir;
            let path = top.entries[top.next].path.clone();
            assert(top@.entries[top.next as int] == top.entries@[top.next as int]@);
            top.next = top.next + 1;
            let ghost moved_top = top@;
            state.stack.push(top);
            assert(state@.stack =~= w.stack.drop_last().push(moved_top));
            assert(state@ == w.with_top(FrameView { next: w.top().next + 1, ..w.top() }));
            if is_dir {
                let name = file_name_of(path.as_str(), state.style);
                let node = TaskTreeNode::new(
                    name,
                    path,
                    state.work_dir_name.as_str(),
                    state.output_dir_name.as_str(),
                );
                let ghost moved = state@;
                let frame = Frame { node, entries: Vec::new(), next: 0 };
                assert(frame@.entries =~= Seq::empty());
                let ghost fv = frame@;
                state.stack.push(frame);
                assert(state@.stack =~= moved.stack.push(fv));
                assert(state@ == moved.entered(path@));
                return ask(state);
            }
        } else {
            if state.stack.len() == 0 {
                return WalkStep::Done(Ok(top.node));
            }
            assert(state@ == w.below());
            give_child(&mut state, top.node);
        }
    }
}

/// Completes the innermost directory as a task and carries the walk on.
fn settle_as_task(initial: WalkState) -> (r: WalkStep)
    requires
        initial@.at_fresh_top(),
    ensures
        r@ == settled(initial@.below(), initial@.top().node.as_task()),
{
    let ghost w = initial@;
    let mut state = initial;
    let ghost frames = state.stack@;
    let mut top = state.stack.pop().unwrap();
    assert(state.stack@ =~= frames.drop_last());
    assert(state@.stack =~= w.stack.drop_last());
    top.node.metadata.is_task = true;
    assert(top.node@.children =~= w.top().node.children);
    assert(top.node@ == w.top().node.as_task());
    if state.stack.len() == 0 {
        return WalkStep::Done(Ok(top.node));
    }
    give_child(&mut state, top.node);
    advance(state)
}

impl MarkerQuestion {
    #[verifier::type_invariant]
    closed spec fn inv(self) -> bool {
        self.state@.at_fresh_top() && self.state@.predicate == TaskPredicate::MarkerFile
    }

    /// The path whose existence the walk asks for: the marker file in the
    /// innermost directory.
    pub fn path(&self) -> (r: String)
        ensures
            r@ == joined(self@.top().node.path, TASK_FILE_NAME@, self@.style),
    {
        proof {
            use_type_invariant(self);
        }
        let top = &self.state.stack[self.state.stack.len() - 1];
        TaskTreeNode::marker_in(top.node.path.as_str(), self.state.style)
    }

    /// Takes the answer. A directory with the marker file is a task and
    /// complete as it is; for any other the walk asks for its entries.
    pub fn answer(self, exists: bool) -> (r: WalkStep)
        ensures
            r@ == (if exists {
                settled(self@.below(), self@.top().node.as_task())
            } else {
                StepView::Listing(self@)
            }),
    {
        proof {
            use_type_invariant(&self);
        }
        if exists {
            settle_as_task(self.state)
        } else {
            WalkStep::Listing(ListingQuestion { state: self.state })
        }
    }
}

impl ListingQuestion {
    #[verifier::type_invariant]
    closed spec fn inv(self) -> bool {
        self.state@.at_fresh_top()
    }

    /// The directory whose entries the walk asks for.
    pub fn path(&self) -> (r: String)
        ensures
            r@ == self@.top().node.path,
    {
        proof {
            use_type_invariant(self);
        }
        let top = &self.state.stack[self.state.stack.len() - 1];
        top.node.path.clone()
    }

    /// Takes the answer. A listing that failed ends the walk with that
    /// failure, whatever was built before, and so does an entry that could
    /// not be read. Where the entries make the directory a task, it is
    /// complete as it is; otherwise the walk goes through the entries in the
    /// order given.
    pub fn answer(self, listing: DirListing) -> (r: WalkStep)
        ensures
            r@ == (match listing {
                Err(e) => StepView::Done(Err(e)),
                Ok(entries) => match all_read(entries@) {
                    Err(e) => StepView::Done(Err(e)),
                    Ok(items) => listed(self@, items_view(items)),
                },
            }),
    {
        match listing {
            Err(e) => WalkStep::Done(Err(e)),
            Ok(entries) => match DirItem::all_read(entries) {
                Err(e) => WalkStep::Done(Err(e)),
                Ok(items) => self.take_entries(items),
            },
        }
    }

    /// Takes the entries of the innermost directory, all of them read.
    fn take_entries(self, items: Vec<DirItem>) -> (r: WalkStep)
        ensures
            r@ == listed(self@, items_view(items@)),
    {
        proof {
            use_type_invariant(&self);
        }
        let ghost w = self@;
        let mut state = self.state;
        if listing_marks_task(&state, &items) {
            return settle_as_task(state);
        }
        let ghost frames = state.stack@;
        let mut top = state.stack.pop().unwrap();
        assert(state.stack@ =~= frames.drop_last());
        top.entries = items;
        let ghost tv = top@;
        state.stack.push(top);
        assert(state@.stack =~= w.stack.drop_last().push(tv));
        advance(state)
    }

    /// Ends the walk with the failure to list the innermost directory.
    fn fail(self, e: IoFailure) -> (r: WalkStep)
        ensures
            r@ == StepView::Done(Err(e)),
    {
        WalkStep::Done(Err(e))
    }
}

impl TaskTreeNode {
    /// Begins to build the tree of the directory at `path`, telling tasks by
    /// the marker file. The first question is whether that directory is
    /// itself a task.
    pub fn from_path(path: String, work_dir_name: &str, output_dir_name: &str, style: PathStyle) -> (q:
        MarkerQuestion)
        ensures
            q@ == WalkView::begin(
                TaskPredicate::MarkerFile,
                path@,
                work_dir_name@,
                output_dir_name@,
                style,
            ),
    {
        MarkerQuestion {
            state: begin(TaskPredicate::MarkerFile, path, work_dir_name, output_dir_name, style),
        }
    }

    /// Begins to build the tree of the directory at `path`, telling tasks in
    /// the way that `predicate` names.
    pub fn from_path_by(
        predicate: TaskPredicate,
        path: String,
        work_dir_name: &str,
        output_dir_name: &str,
        style: PathStyle,
    ) -> (r: WalkStep)
        ensures
            r@ == asked(WalkView::begin(predicate, path@, work_dir_name@, output_dir_name@, style)),
    {
        ask(begin(predicate, path, work_dir_name, output_dir_name, style))
    }
}

/// The state of a walk at its start.
fn begin(
    predicate: TaskPredicate,
    path: String,
    work_dir_name: &str,
    output_dir_name: &str,
    style: PathStyle,
) -> (state: WalkState)
    ensures
        state@ == WalkView::begin(predicate, path@, work_dir_name@, output_dir_name@, style),
        state@.at_fresh_top(),
{
    let name = file_name_of(path.as_str(), style);
    let node = TaskTreeNode::new(name, path, work_dir_name, output_dir_name);
    let frame = Frame { node, entries: Vec::new(), next: 0 };
    assert(frame@.entries =~= Seq::empty());
    let mut stack: Vec<Frame> = Vec::new();
    stack.push(frame);
    let state = WalkState {
        predicate,
        style,
        work_dir_name: String::from_str(work_dir_name),
        output_dir_name: String::from_str(output_dir_name),
        stack,
    };
    assert(state@.stack =~= seq![FrameView::fresh(path@, work_dir_name@, output_dir_name@, style)]);
    state
}

/// The entries at the top of a snapshot, as a listing gives them.
fn listing_of(entries: &Vec<SnapshotEntry>) -> (items: Vec<DirItem>)
    ensures
        items_view(items@) == listed_items(entries@),
{
    let mut items: Vec<DirItem> = Vec::new();
    let mut i: usize = 0;
    while i < entries.len()
        invariant
            i <= entries.len(),
            items@.len() == i,
            forall|k: int| 0 <= k < i ==> items@[k] == entries@[k].item,
        decreases entries.len() - i,
    {
        items.push(entries[i].item.clone());
        i += 1;
    }
    assert(items_view(items@) =~= listed_items(entries@));
    items
}

/// The walk that a question belongs to.
pub open spec fn walk_of(step: StepView) -> WalkView {
    match step {
        StepView::Marker(w) => w,
        StepView::Listing(w) => w,
        StepView::Done(_) => arbitrary(),
    }
}

/// Answers the walk from a snapshot, from the first question about a
/// directory until that directory is complete or has failed.
fn replay(step: WalkStep, snapshot: &DirSnapshot) -> (r: WalkStep)
    requires
        !(step@ is Done),
        step@ == asked(walk_of(step@)),
    ensures
        r@ == (match built(
            walk_of(step@).predicate,
            walk_of(step@).top().node.path,
            walk_of(step@).work_dir_name,
            walk_of(step@).output_dir_name,
            *snapshot,
            walk_of(step@).style,
        ) {
            Err(e) => StepView::Done(Err(e)),
            Ok(node) => settled(walk_of(step@).below(), node),
        }),
    decreases snapshot, 1nat,
{
    match step {
        WalkStep::Marker(q) => {
            proof {
                use_type_invariant(&q);
            }
            if snapshot.has_marker {
                q.answer(true)
            } else {
                match q.answer(false) {
                    WalkStep::Listing(lq) => replay_listing(lq, snapshot),
                    _ => {
                        assert(false);
                        vstd::pervasive::unreached()
                    },
                }
            }
        },
        WalkStep::Listing(lq) => {
            proof {
                use_type_invariant(&lq);
            }
            replay_listing(lq, snapshot)
        },
        WalkStep::Done(_) => {
            assert(false);
            vstd::pervasive::unreached()
        },
    }
}

/// Answers the walk from a snapshot, from the question for the entries of a
/// directory until that directory is complete or has failed.
fn replay_listing(lq: ListingQuestion, snapshot: &DirSnapshot) -> (r: WalkStep)
    ensures
        r@ == (match snapshot.listing {
            Err(e) => StepView::Done(Err(e)),
            Ok(entries) => if marks_task(
                lq@.predicate,
                listed_items(entries@),
                lq@.work_dir_name,
                lq@.output_dir_name,
                lq@.style,
            ) {
                settled(lq@.below(), lq@.top().node.as_task())
            } else {
                match built_from(lq@.predicate, lq@.top().node, *snapshot, 0, lq@.style) {
                    Err(e) => StepView::Done(Err(e)),
                    Ok(node) => settled(lq@.below(), node),
                }
            },
        }),
    decreases snapshot, 0nat,
{
    proof {
        use_type_invariant(&lq);
    }
    let ghost w = lq@;
    let entries = match &snapshot.listing {
        Err(e) => {
            return lq.fail(e.clone());
        },
        Ok(entries) => entries,
    };
    let items = listing_of(entries);
    let ghost iv = items_view(items@);
    let is_task = listing_marks_task(&lq.state, &items);
    let mut step = lq.take_entries(items);
    if is_task {
        return step;
    }
    let ghost mut node = w.top().node;
    let mut i: usize = 0;
    while i < entries.len()
        invariant
            i <= entries.len(),
            snapshot.listing == Ok::<Vec<SnapshotEntry>, IoFailure>(*entries),
            w == lq@,
            w.stack.len() > 0,
            iv == listed_items(entries@),
            !marks_task(w.predicate, iv, w.work_dir_name, w.output_dir_name, w.style),
            node.work_dir_name == w.work_dir_name,
            node.output_dir_name == w.output_dir_name,
            step@ == advanced(w.with_top(FrameView { node, entries: iv, next: i as nat })),
            built_from(w.predicate, node, *snapshot, i as nat, w.style) == built_from(
                w.predicate,
                w.top().node,
                *snapshot,
                0,
                w.style,
            ),
        decreases entries.len() - i,
    {
        let ghost here = w.with_top(FrameView { node, entries: iv, next: i as nat });
        let ghost moved = w.with_top(FrameView { node, entries: iv, next: (i + 1) as nat });
        proof {
            assert(here.top().entries[i as int] == entries@[i as int].item@);
            assert(here.with_top(FrameView { next: (i + 1) as nat, ..here.top() }) =~= moved) by {
                assert(here.stack.drop_last() =~= w.stack.drop_last());
            }
        }
        if entries[i].item.is_dir {
            proof {
                let inner = moved.entered(entries@[i as int].item.path@);
                assert(step@ == asked(inner));
                assert(inner.below().stack =~= moved.stack);
            }
            let r = replay(step, &entries[i].below);
            let ghost child = built(
                w.predicate,
                entries@[i as int].item.path@,
                w.work_dir_name,
                w.output_dir_name,
                entries@[i as int].below,
                w.style,
            );
            proof {
                if child is Ok {
                    let grown = moved.with_top(
                        FrameView { node: moved.top().node.with_child(child->Ok_0), ..moved.top() },
                    );
                    lemma_advanced_never_fails(grown);
                    assert(grown =~= w.with_top(
                        FrameView {
                            node: node.with_child(child->Ok_0),
                            entries: iv,
                            next: (i + 1) as nat,
                        },
                    )) by {
                        assert(moved.stack.drop_last() =~= w.stack.drop_last());
                    }
                }
            }
            match r {
                WalkStep::Done(Err(e)) => {
                    return WalkStep::Done(Err(e));
                },
                other => {
                    step = other;
                    proof {
                        node = node.with_child(child->Ok_0);
                    }
                },
            }
        }
        i += 1;
    }
    proof {
        let last = w.with_top(FrameView { node, entries: iv, next: i as nat });
        assert(last.below() =~= w.below()) by {
            assert(last.stack.drop_last() =~= w.stack.drop_last());
        }
    }
    step
}

impl TaskTreeNode {
    /// The tree of the directory at `path`, built from a snapshot of what
    /// was found there, telling tasks by the marker file. It is what a walk
    /// gives that is answered from the same snapshot.
    pub fn from_snapshot(
        path: String,
        work_dir_name: &str,
        output_dir_name: &str,
        snapshot: &DirSnapshot,
        style: PathStyle,
    ) -> (r: Result<TaskTreeNode, IoFailure>)
        ensures
            match r {
                Ok(node) => built(
                    TaskPredicate::MarkerFile,
                    path@,
                    work_dir_name@,
                    output_dir_name@,
                    *snapshot,
                    style,
                ) == Ok::<TaskTreeView, IoFailure>(node@),
                Err(e) => built(
                    TaskPredicate::MarkerFile,
                    path@,
                    work_dir_name@,
                    output_dir_name@,
                    *snapshot,
                    style,
                ) == Err::<TaskTreeView, IoFailure>(e),
            },
    {
        TaskTreeNode::from_snapshot_by(
            TaskPredicate::MarkerFile,
            path,
            work_dir_name,
            output_dir_name,
            snapshot,
            style,
        )
    }

    /// The tree of the directory at `path`, built from a snapshot of what
    /// was found there, telling tasks in the way that `predicate` names. It
    /// is what a walk gives that is answered from the same snapshot.
    pub fn from_snapshot_by(
        predicate: TaskPredicate,
        path: String,
        work_dir_name: &str,
        output_dir_name: &str,
        snapshot: &DirSnapshot,
        style: PathStyle,
    ) -> (r: Result<TaskTreeNode, IoFailure>)
        ensures
            match r {
                Ok(node) => built(predicate, path@, work_dir_name@, output_dir_name@, *snapshot, style)
                    == Ok::<TaskTreeView, IoFailure>(node@),
                Err(e) => built(predicate, path@, work_dir_name@, output_dir_name@, *snapshot, style)
                    == Err::<TaskTreeView, IoFailure>(e),
            },
    {
        let first = TaskTreeNode::from_path_by(predicate, path, work_dir_name, output_dir_name, style);
        match replay(first, snapshot) {
            WalkStep::Done(r) => r,
            _ => {
                assert(false);
                vstd::pervasive::unreached()
            },
        }
    }
}

} // verus!
