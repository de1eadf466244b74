//! The task tree: directories that are tasks, the folders that group them,
//! and what creating either on disk takes.

use vstd::prelude::*;
use vstd::string::*;
use crate::failure::IoFailure;
use crate::helpers::{program_for, OpenRequest, OUTPUT_DIR_NAME, TASK_FILE_NAME};
use crate::paths::{file_name, join, joined, PathStyle};
use crate::projects::{Project, ProjectView};
use crate::sequences::{lemma_filter_map_start, lemma_filter_map_step};
use crate::text::texts;
use crate::workfiles::{decoded, File, FileView};

verus! {

/// What is known of a directory of the tree besides its name and place.
#[derive(Debug, PartialEq, Eq)]
pub struct TaskNodeMetadata {
    pub is_task: bool,
    pub work_dir_name: String,
    pub output_dir_name: String,
}

/// A directory of the task tree: a task, or a folder with the directories
/// inside it.
#[derive(Debug, PartialEq, Eq)]
pub struct TaskTreeNode {
    pub name: String,
    pub path: String,
    pub metadata: TaskNodeMetadata,
    pub children: Vec<TaskTreeNode>,
}

/// What a node of the task tree holds, as plain values.
pub struct TaskTreeView {
    pub name: Seq<char>,
    pub path: Seq<char>,
    pub is_task: bool,
    pub work_dir_name: Seq<char>,
    pub output_dir_name: Seq<char>,
    pub children: Seq<TaskTreeView>,
}

/// The plain values that a node and the nodes beneath it hold.
pub open spec fn tree_view(node: TaskTreeNode) -> TaskTreeView
    decreases node,
{
    TaskTreeView {
        name: node.name@,
        path: node.path@,
        is_task: node.metadata.is_task,
        work_dir_name: node.metadata.work_dir_name@,
        output_dir_name: node.metadata.output_dir_name@,
        children: Seq::new(
            node.children@.len(),
            |i: int|
                if 0 <= i < node.children@.len() {
                    tree_view(node.children@[i])
                } else {
                    arbitrary()
                },
        ),
    }
}

impl View for TaskTreeNode {
    type V = TaskTreeView;

    open spec fn view(&self) -> TaskTreeView {
        tree_view(*self)
    }
}

impl TaskTreeView {
    /// A folder without children, named after the final component of its path.
    pub open spec fn folder(
        path: Seq<char>,
        work_dir_name: Seq<char>,
        output_dir_name: Seq<char>,
        style: PathStyle,
    ) -> TaskTreeView {
        TaskTreeView {
            name: file_name(path, style),
            path,
            is_task: false,
            work_dir_name,
            output_dir_name,
            children: Seq::empty(),
        }
    }

    /// The same node, marked as a task.
    pub open spec fn as_task(self) -> TaskTreeView {
        TaskTreeView { is_task: true, ..self }
    }

    /// The same node with one more child at the end.
    pub open spec fn with_child(self, child: TaskTreeView) -> TaskTreeView {
        TaskTreeView { children: self.children.push(child), ..self }
    }

    /// The directory in which the work files of the task lie.
    pub open spec fn work_path(self, style: PathStyle) -> Seq<char> {
        joined(self.path, self.work_dir_name, style)
    }
}

impl Clone for TaskNodeMetadata {
    fn clone(&self) -> (r: Self)
        ensures
            r == *self,
    {
        TaskNodeMetadata {
            is_task: self.is_task,
            work_dir_name: self.work_dir_name.clone(),
            output_dir_name: self.output_dir_name.clone(),
        }
    }
}

impl Clone for TaskTreeNode {
    fn clone(&self) -> (r: Self)
        ensures
            r@ == self@,
        decreases self,
    {
        let mut children: Vec<TaskTreeNode> = Vec::new();
        let mut i: usize = 0;
        while i < self.children.len()
            invariant
                i <= self.children.len(),
                children.len() == i,
                forall|k: int| 0 <= k < i ==> children@[k]@ == self.children@[k]@,
            decreases self.children.len() - i,
        {
            let child = self.children[i].clone();
            children.push(child);
            i += 1;
        }
        let r = TaskTreeNode {
            name: self.name.clone(),
            path: self.path.clone(),
            metadata: self.metadata.clone(),
            children,
        };
        proof {
            assert(r@.children.len() == self@.children.len());
            assert forall|k: int| 0 <= k < r@.children.len() implies r@.children[k]
                == self@.children[k] by {
                assert(r.children@[k]@ == self.children@[k]@);
            }
            assert(r@.children =~= self@.children);
        }
        r
    }
}

/// What creating a task on disk takes: the directory of the task, the
/// descriptor file inside it, and then the directories inside the task.
#[derive(Debug, PartialEq, Eq)]
pub struct TaskPlan {
    pub directory: String,
    pub descriptor_path: String,
    pub name: String,
    pub sub_directories: Vec<String>,
}

/// What a plan for a task holds, as plain values.
pub struct TaskPlanView {
    pub directory: Seq<char>,
    pub descriptor_path: Seq<char>,
    pub name: Seq<char>,
    pub sub_directories: Seq<Seq<char>>,
}

impl View for TaskPlan {
    type V = TaskPlanView;

    open spec fn view(&self) -> TaskPlanView {
        TaskPlanView {
            directory: self.directory@,
            descriptor_path: self.descriptor_path@,
            name: self.name@,
            sub_directories: texts(self.sub_directories@),
        }
    }
}

/// The plan for a task named `name` in the folder at `parent`: its
/// directory, the descriptor file in it, and one directory in it for each
/// work subdirectory of the project.
pub open spec fn task_plan(
    parent: Seq<char>,
    name: Seq<char>,
    project: ProjectView,
    style: PathStyle,
) -> TaskPlanView {
    TaskPlanView {
        directory: joined(parent, name, style),
        descriptor_path: joined(joined(parent, name, style), TASK_FILE_NAME@, style),
        name,
        sub_directories: project.work_sub_dirs.map_values(
            |d: Seq<char>| joined(joined(parent, name, style), d, style),
        ),
    }
}

impl TaskTreeNode {
    /// A folder without children. Whether it is a task is decided later.
    pub fn new(name: String, path: String, work_dir_name: &str, output_dir_name: &str) -> (r:
        Self)
        ensures
            r@ == (TaskTreeView {
                name: name@,
                path: path@,
                is_task: false,
                work_dir_name: work_dir_name@,
                output_dir_name: output_dir_name@,
                children: Seq::empty(),
            }),
    {
        let r = TaskTreeNode {
            name,
            path,
            metadata: TaskNodeMetadata {
                is_task: false,
                work_dir_name: String::from_str(work_dir_name),
                output_dir_name: String::from_str(output_dir_name),
            },
            children: Vec::new(),
        };
        assert(r@.children =~= Seq::empty());
        r
    }

    /// The directory in which the work files of the task lie.
    pub fn get_work_path(&self, style: PathStyle) -> (r: String)
        ensures
            r@ == self@.work_path(style),
    {
        join(self.path.as_str(), self.metadata.work_dir_name.as_str(), style)
    }

    /// The marker file whose presence makes `dir` a task.
    pub fn marker_in(dir: &str, style: PathStyle) -> (r: String)
        ensures
            r@ == joined(dir@, TASK_FILE_NAME@, style),
    {
        join(dir, TASK_FILE_NAME, style)
    }

    /// The request to reveal the output directory of the task.
    pub fn open_output(&self, style: PathStyle) -> (r: OpenRequest)
        ensures
            r.path@ == joined(self@.path, OUTPUT_DIR_NAME@, style),
            r.program@ == program_for(style),
    {
        OpenRequest::in_file_browser(join(self.path.as_str(), OUTPUT_DIR_NAME, style), style)
    }

    /// The directory that a new folder named `name` inside this one takes.
    pub fn create_folder(&self, name: &str, style: PathStyle) -> (r: String)
        ensures
            r@ == joined(self@.path, name@, style),
    {
        join(self.path.as_str(), name, style)
    }

    /// The plan for creating a task named `name` inside this folder: its
    /// directory, the descriptor that marks it as a task and records its
    /// name, and one directory for each work subdirectory of the project.
    /// The caller stops at the first step that fails.
    pub fn create_task(&self, name: String, project: &Project, style: PathStyle) -> (plan: TaskPlan)
        ensures
            plan@ == task_plan(self@.path, name@, project@, style),
    {
        let directory = join(self.path.as_str(), name.as_str(), style);
        let descriptor_path = join(directory.as_str(), TASK_FILE_NAME, style);
        let mut sub_directories: Vec<String> = Vec::new();
        let ghost wanted = project@.work_sub_dirs.map_values(
            |d: Seq<char>| joined(joined(self@.path, name@, style), d, style),
        );
        let mut i: usize = 0;
        assert(texts(sub_directories@) =~= wanted.take(0));
        while i < project.work_sub_dirs.len()
            invariant
                i <= project.work_sub_dirs.len(),
                directory@ == joined(self@.path, name@, style),
                wanted == project@.work_sub_dirs.map_values(
                    |d: Seq<char>| joined(joined(self@.path, name@, style), d, style),
                ),
                texts(sub_directories@) == wanted.take(i as int),
            decreases project.work_sub_dirs.len() - i,
        {
            let ghost before = sub_directories@;
            let dir = join(directory.as_str(), project.work_sub_dirs[i].as_str(), style);
            let ghost text = dir@;
            sub_directories.push(dir);
            proof {
                assert(texts(sub_directories@) =~= texts(before).push(text));
                assert(project@.work_sub_dirs[i as int] == project.work_sub_dirs@[i as int]@);
                assert(wanted[i as int] == text);
                assert(wanted.take(i + 1) =~= wanted.take(i as int).push(text));
            }
            i += 1;
        }
        assert(wanted.take(i as int) =~= wanted);
        TaskPlan { directory, descriptor_path, name, sub_directories }
    }
}

/// One entry of a directory as its listing gave it: where it lies, and
/// whether it is a regular file or a directory. An entry that is neither,
/// such as a link that leads nowhere, has both marks off.
#[derive(Debug, PartialEq, Eq)]
pub struct DirItem {
    pub path: String,
    pub is_file: bool,
    pub is_dir: bool,
}

/// What an entry of a listing holds, as plain values.
pub struct DirItemView {
    pub path: Seq<char>,
    pub is_file: bool,
    pub is_dir: bool,
}

impl View for DirItem {
    type V = DirItemView;

    open spec fn view(&self) -> DirItemView {
        DirItemView { path: self.path@, is_file: self.is_file, is_dir: self.is_dir }
    }
}

impl Clone for DirItem {
    fn clone(&self) -> (r: Self)
        ensures
            r == *self,
    {
        DirItem { path: self.path.clone(), is_file: self.is_file, is_dir: self.is_dir }
    }
}

/// What listing a directory gave: the failure to list it, or its entries
/// in the order in which they came, each as it was read or with the failure
/// to read it.
pub type DirListing = Result<Vec<Result<DirItem, IoFailure>>, IoFailure>;

/// The entries that were read, in their order; those that could not be
/// read are left out.
pub open spec fn readable(entries: Seq<Result<DirItem, IoFailure>>) -> Seq<DirItem> {
    entries.filter(|e: Result<DirItem, IoFailure>| e is Ok).map_values(
        |e: Result<DirItem, IoFailure>| e->Ok_0,
    )
}

/// All entries, if every one was read; otherwise the failure of the first
/// that could not be read.
pub open spec fn all_read(entries: Seq<Result<DirItem, IoFailure>>) -> Result<
    Seq<DirItem>,
    IoFailure,
>
    decreases entries.len(),
{
    if entries.len() == 0 {
        Ok(Seq::empty())
    } else {
        match all_read(entries.drop_last()) {
            Err(e) => Err(e),
            Ok(items) => match entries.last() {
                Ok(item) => Ok(items.push(item)),
                Err(e) => Err(e),
            },
        }
    }
}

/// Once a part of the entries from the front holds one that could not be
/// read, its failure is that of the whole.
proof fn lemma_all_read_fails_early(entries: Seq<Result<DirItem, IoFailure>>, k: int)
    requires
        0 <= k <= entries.len(),
        all_read(entries.take(k)) is Err,
    ensures
        all_read(entries) == all_read(entries.take(k)),
    decreases entries.len() - k,
{
    if k < entries.len() {
        assert(entries.take(k + 1).drop_last() =~= entries.take(k));
        lemma_all_read_fails_early(entries, k + 1);
    } else {
        assert(entries.take(k) =~= entries);
    }
}

impl DirItem {
    /// The entries that were read; those that could not be read are left out.
    pub fn readable(entries: Vec<Result<DirItem, IoFailure>>) -> (items: Vec<DirItem>)
        ensures
            items@ == readable(entries@),
    {
        let ghost all = entries@;
        let ghost keep = |e: Result<DirItem, IoFailure>| e is Ok;
        let ghost to = |e: Result<DirItem, IoFailure>| e->Ok_0;
        let mut items: Vec<DirItem> = Vec::new();
        proof {
            lemma_filter_map_start(all, keep, to);
        }
        for entry in it: entries
            invariant
                it.seq() == all,
                keep == |e: Result<DirItem, IoFailure>| e is Ok,
                to == |e: Result<DirItem, IoFailure>| e->Ok_0,
                items@ == all.take(it.index() as int).filter(keep).map_values(to),
        {
            proof {
                lemma_filter_map_step(all, keep, to, it.index() as int);
            }
            match entry {
                Ok(item) => items.push(item),
                Err(_) => {},
            }
        }
        proof {
            lemma_filter_map_start(all, keep, to);
        }
        items
    }

    /// All entries, if every one was read; otherwise the failure of the
    /// first that could not be read.
    pub fn all_read(entries: Vec<Result<DirItem, IoFailure>>) -> (r: Result<Vec<DirItem>, IoFailure>)
        ensures
            match r {
                Ok(items) => all_read(entries@) == Ok::<Seq<DirItem>, IoFailure>(items@),
                Err(e) => all_read(entries@) == Err::<Seq<DirItem>, IoFailure>(e),
            },
    {
        let ghost all = entries@;
        let mut items: Vec<DirItem> = Vec::new();
        assert(all.take(0) =~= Seq::empty());
        for entry in it: entries
            invariant
                it.seq() == all,
                all_read(all.take(it.index() as int)) == Ok::<Seq<DirItem>, IoFailure>(items@),
        {
            proof {
                assert(all.take(it.index() + 1).drop_last() =~= all.take(it.index() as int));
            }
            match entry {
                Ok(item) => items.push(item),
                Err(e) => {
                    proof {
                        lemma_all_read_fails_early(all, it.index() + 1);
                    }
                    return Err(e);
                },
            }
        }
        assert(all.take(all.len() as int) =~= all);
        Ok(items)
    }
}

/// The entries of a listing, as plain values.
pub open spec fn items_view(items: Seq<DirItem>) -> Seq<DirItemView> {
    items.map_values(|d: DirItem| d@)
}

/// The work files among the entries of a listing: every entry that is no
/// directory and whose path names a work file, in the order of the listing.
pub open spec fn work_files(items: Seq<DirItemView>, style: PathStyle) -> Seq<FileView> {
    items.filter(|d: DirItemView| !d.is_dir && decoded(d.path, style) is Ok).map_values(
        |d: DirItemView| decoded(d.path, style)->Ok_0,
    )
}

/// One step of `work_files`.
proof fn lemma_work_files_step(s: Seq<DirItemView>, i: int, style: PathStyle)
    requires
        0 <= i < s.len(),
    ensures
        work_files(s.take(i + 1), style) == if !s[i].is_dir && decoded(s[i].path, style) is Ok {
            work_files(s.take(i), style).push(decoded(s[i].path, style)->Ok_0)
        } else {
            work_files(s.take(i), style)
        },
{
    lemma_filter_map_step(
        s,
        |d: DirItemView| !d.is_dir && decoded(d.path, style) is Ok,
        |d: DirItemView| decoded(d.path, style)->Ok_0,
        i,
    );
}

/// The records of a list of work files, as plain values.
pub open spec fn files_view(files: Seq<File>) -> Seq<FileView> {
    files.map_values(|f: File| f@)
}

impl TaskTreeNode {
    /// The directory to list for the work files of the task, given the name
    /// of the primary work subdirectory.
    pub fn work_files_dir(&self, work_dir_name: &str, style: PathStyle) -> (r: String)
        ensures
            r@ == joined(self@.path, work_dir_name@, style),
    {
        join(self.path.as_str(), work_dir_name, style)
    }

    /// The work files in a listing of the task's work directory: a listing
    /// that failed fails the search; entries that could not be read,
    /// directories, and entries whose names do not follow the convention
    /// are left out.
    pub fn find_workfiles(listing: DirListing, style: PathStyle) -> (r: Result<Vec<File>, IoFailure>)
        ensures
            match listing {
                Err(e) => r == Err::<Vec<File>, IoFailure>(e),
                Ok(entries) => r is Ok && files_view(r->Ok_0@) == work_files(
                    items_view(readable(entries@)),
                    style,
                ),
            },
    {
        match listing {
            Err(e) => Err(e),
            Ok(entries) => {
                let items = DirItem::readable(entries);
                let mut files: Vec<File> = Vec::new();
                let ghost all = items_view(items@);
                let mut i: usize = 0;
                proof {
                    assert(work_files(all.take(0), style) =~= Seq::<FileView>::empty()) by {
                        reveal(Seq::filter);
                    }
                    assert(files_view(files@) =~= Seq::<FileView>::empty());
                }
                while i < items.len()
                    invariant
                        i <= items.len(),
                        all == items_view(items@),
                        files_view(files@) == work_files(all.take(i as int), style),
                    decreases items.len() - i,
                {
                    proof {
                        lemma_work_files_step(all, i as int, style);
                        assert(all[i as int] == items@[i as int]@);
                    }
                    if !items[i].is_dir {
                        match File::from_path(items[i].path.clone(), style) {
                            Ok(f) => {
                                let ghost before = files@;
                                let ghost fv = f@;
                                files.push(f);
                                assert(files_view(files@) =~= files_view(before).push(fv));
                            },
                            Err(_) => {},
                        }
                    }
                    i += 1;
                }
                assert(all.take(items.len() as int) =~= all);
                Ok(files)
            },
        }
    }
}

} // verus!
