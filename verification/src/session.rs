//! What the person at the screen has open: the projects found, the project,
//! task tree and task chosen among them, the files listed, and what is being
//! typed into the dialogs. Every change to it is decided here; what the
//! filesystem said comes in as a value.

use vstd::prelude::*;
use vstd::string::*;
use crate::clients::{Client, ClientView};
use crate::failure::IoFailure;
use crate::helpers::{lowercase_of, sanitize_string, sanitized};
use crate::order::{descending, lemma_map_keeps_multiset};
use crate::paths::{join, joined, PathStyle};
use crate::projects::{copy_projects, projects_view, Project, ProjectPlan, ProjectView};
use crate::sequences::{lemma_filter_start, lemma_filter_step, lemma_map_push, opt_view};
use crate::tasks::{
    files_view, items_view, readable, work_files, DirItemView, DirListing, TaskPlan,
    TaskTreeNode, TaskTreeView,
};
use crate::text::{chars_of, contains_chars, copy_texts, list_contains, text_contains, texts};
use crate::tasks::task_plan;
use crate::workfiles::{
    copy_refusal, dccs_view, new_file_name, CopyJob, Dcc, DccView, File, FileError, FileView,
};

verus! {

/// How much a message matters.
#[derive(Clone, Copy, Debug, PartialEq, Eq, Structural)]
pub enum MessageType {
    Info,
    Warning,
}

/// What is shown at the top of the window.
#[derive(Debug, PartialEq, Eq)]
pub struct Message {
    pub text: String,
    pub message_type: MessageType,
}

/// What a message holds, as plain values.
pub struct MessageView {
    pub text: Seq<char>,
    pub message_type: MessageType,
}

impl View for Message {
    type V = MessageView;

    open spec fn view(&self) -> MessageView {
        MessageView { text: self.text@, message_type: self.message_type }
    }
}

impl MessageView {
    /// A warning made of what was attempted and why it failed.
    pub open spec fn warning(what: Seq<char>, reason: Seq<char>) -> MessageView {
        MessageView { text: what + reason, message_type: MessageType::Warning }
    }

    /// A note that something was done.
    pub open spec fn info(text: Seq<char>) -> MessageView {
        MessageView { text, message_type: MessageType::Info }
    }

    /// A warning with this text.
    pub open spec fn alert(text: Seq<char>) -> MessageView {
        MessageView { text, message_type: MessageType::Warning }
    }
}

impl Message {
    /// A warning made of what was attempted and why it failed.
    pub fn warning(what: &str, reason: &str) -> (r: Self)
        ensures
            r@ == MessageView::warning(what@, reason@),
    {
        let mut text = String::from_str(what);
        text.append(reason);
        Message { text, message_type: MessageType::Warning }
    }

    /// A warning with this text.
    pub fn alert(text: &str) -> (r: Self)
        ensures
            r@ == MessageView::alert(text@),
    {
        Message { text: String::from_str(text), message_type: MessageType::Warning }
    }

    /// A note that something was done.
    pub fn info(text: &str) -> (r: Self)
        ensures
            r@ == MessageView::info(text@),
    {
        Message { text: String::from_str(text), message_type: MessageType::Info }
    }
}

/// The settings that the session works with, and the kind of system that
/// its paths are written for.
#[derive(Debug)]
pub struct RclampAppConfig {
    pub path_style: PathStyle,
    pub dark_mode: bool,
    pub projects_dir: Option<String>,
    pub templates_dir: String,
    pub template_project: Project,
    pub ignore_extensions: Vec<String>,
}

/// What the settings hold, as plain values.
pub struct AppConfigView {
    pub path_style: PathStyle,
    pub dark_mode: bool,
    pub projects_dir: Option<Seq<char>>,
    pub templates_dir: Seq<char>,
    pub template_project: ProjectView,
    pub ignore_extensions: Seq<Seq<char>>,
}

impl View for RclampAppConfig {
    type V = AppConfigView;

    open spec fn view(&self) -> AppConfigView {
        AppConfigView {
            path_style: self.path_style,
            dark_mode: self.dark_mode,
            projects_dir: match self.projects_dir {
                Some(d) => Some(d@),
                None => None,
            },
            templates_dir: self.templates_dir@,
            template_project: self.template_project@,
            ignore_extensions: texts(self.ignore_extensions@),
        }
    }
}

/// The settings as the settings file holds them, for both kinds of system.
#[derive(Debug)]
pub struct RclampConfig {
    pub projects_dir_win: String,
    pub templates_dir_win: String,
    pub projects_dir_mac: String,
    pub templates_dir_mac: String,
    pub pipeline_dir_name: String,
    pub work_dir_name: String,
    pub dailies_dir_name: String,
    pub deliveries_dir_name: String,
    pub extra_dir_names: Vec<String>,
    pub work_sub_dirs: Vec<String>,
    pub ignore_extensions: Vec<String>,
}

/// The state of a session.
#[derive(Debug)]
pub struct Rclamp {
    pub current_project: Option<Project>,
    pub current_project_task_tree: Option<TaskTreeNode>,
    pub current_task: Option<TaskTreeNode>,
    pub projects: Vec<Project>,
    pub projects_filtered: Vec<Project>,
    pub files: Option<Vec<File>>,
    pub dcc: Vec<Dcc>,
    pub config: RclampAppConfig,
    pub message: Option<Message>,
    pub show_create_project: bool,
    pub show_create_task: bool,
    pub show_create_folder: bool,
    pub new_project_name: String,
    pub new_project_client: Client,
    pub new_task_name: String,
    pub new_folder_name: String,
    pub new_task_parent: TaskTreeNode,
    pub new_folder_parent: TaskTreeNode,
    pub new_file_name: String,
    pub new_file_type: Dcc,
    pub project_filter: String,
}

/// What a session holds, as plain values.
pub struct RclampView {
    pub current_project: Option<ProjectView>,
    pub current_project_task_tree: Option<TaskTreeView>,
    pub current_task: Option<TaskTreeView>,
    pub projects: Seq<ProjectView>,
    pub projects_filtered: Seq<ProjectView>,
    pub files: Option<Seq<FileView>>,
    pub dcc: Seq<DccView>,
    pub config: AppConfigView,
    pub message: Option<MessageView>,
    pub show_create_project: bool,
    pub show_create_task: bool,
    pub show_create_folder: bool,
    pub new_project_name: Seq<char>,
    pub new_project_client: ClientView,
    pub new_task_name: Seq<char>,
    pub new_folder_name: Seq<char>,
    pub new_task_parent: TaskTreeView,
    pub new_folder_parent: TaskTreeView,
    pub new_file_name: Seq<char>,
    pub new_file_type: DccView,
    pub project_filter: Seq<char>,
}

impl View for Rclamp {
    type V = RclampView;

    open spec fn view(&self) -> RclampView {
        RclampView {
            current_project: opt_view(self.current_project),
            current_project_task_tree: opt_view(self.current_project_task_tree),
            current_task: opt_view(self.current_task),
            projects: projects_view(self.projects@),
            projects_filtered: projects_view(self.projects_filtered@),
            files: match self.files {
                Some(f) => Some(files_view(f@)),
                None => None,
            },
            dcc: dccs_view(self.dcc@),
            config: self.config@,
            message: opt_view(self.message),
            show_create_project: self.show_create_project,
            show_create_task: self.show_create_task,
            show_create_folder: self.show_create_folder,
            new_project_name: self.new_project_name@,
            new_project_client: self.new_project_client@,
            new_task_name: self.new_task_name@,
            new_folder_name: self.new_folder_name@,
            new_task_parent: self.new_task_parent@,
            new_folder_parent: self.new_folder_parent@,
            new_file_name: self.new_file_name@,
            new_file_type: self.new_file_type@,
            project_filter: self.project_filter@,
        }
    }
}

/// The layout of a project where the settings say nothing else.
pub open spec fn default_template_project() -> ProjectView {
    ProjectView {
        name: Seq::empty(),
        name_sanitized: sanitized(lowercase_of(Seq::empty())),
        pipeline_dir_name: "00_pipeline"@,
        work_dir_name: "02_work"@,
        dailies_dir_name: "03_dailies"@,
        deliveries_dir_name: "04_deliveries"@,
        extra_dir_names: seq!["01_preproduction"@],
        work_sub_dirs: seq!["01_work"@, "02_output"@, "03_assets"@],
    }
}

/// The folder that stands in where no folder was chosen yet.
pub open spec fn no_folder() -> TaskTreeView {
    TaskTreeView {
        name: Seq::empty(),
        path: Seq::empty(),
        is_task: false,
        work_dir_name: "01_work"@,
        output_dir_name: "02_output"@,
        children: Seq::empty(),
    }
}

impl RclampView {
    /// A session before anything was found or chosen.
    pub open spec fn initial() -> RclampView {
        RclampView {
            current_project: None,
            current_project_task_tree: None,
            current_task: None,
            projects: Seq::empty(),
            projects_filtered: Seq::empty(),
            files: None,
            dcc: Seq::empty(),
            config: AppConfigView {
                path_style: PathStyle::Posix,
                dark_mode: true,
                projects_dir: None,
                templates_dir: joined(Seq::empty(), "templates"@, PathStyle::Posix),
                template_project: default_template_project(),
                ignore_extensions: Seq::empty(),
            },
            message: None,
            show_create_project: false,
            show_create_task: false,
            show_create_folder: false,
            new_project_name: Seq::empty(),
            new_project_client: ClientView { name: Seq::empty(), short_name: Seq::empty() },
            new_task_name: Seq::empty(),
            new_folder_name: Seq::empty(),
            new_task_parent: no_folder(),
            new_folder_parent: no_folder(),
            new_file_name: Seq::empty(),
            new_file_type: DccView {
                name: Seq::empty(),
                extension: Seq::empty(),
                template_path: "does_not_exist"@,
            },
            project_filter: Seq::empty(),
        }
    }
}

impl Default for Rclamp {
    fn default() -> (r: Self)
        ensures
            r@ == RclampView::initial(),
    {
        let mut extra: Vec<String> = Vec::new();
        extra.push(String::from_str("01_preproduction"));
        let mut subs: Vec<String> = Vec::new();
        subs.push(String::from_str("01_work"));
        subs.push(String::from_str("02_output"));
        subs.push(String::from_str("03_assets"));
        proof {
            assert(texts(extra@) =~= seq!["01_preproduction"@]);
            assert(texts(subs@) =~= seq!["01_work"@, "02_output"@, "03_assets"@]);
        }
        let template_project = Project::new(
            String::new(),
            String::new(),
            String::from_str("00_pipeline"),
            String::from_str("02_work"),
            String::from_str("03_dailies"),
            String::from_str("04_deliveries"),
            extra,
            subs,
        );
        let r = Rclamp {
            current_project: None,
            current_project_task_tree: None,
            current_task: None,
            projects: Vec::new(),
            projects_filtered: Vec::new(),
            files: None,
            dcc: Vec::new(),
            config: RclampAppConfig {
                path_style: PathStyle::Posix,
                dark_mode: true,
                projects_dir: None,
                templates_dir: join("", "templates", PathStyle::Posix),
                template_project,
                ignore_extensions: Vec::new(),
            },
            message: None,
            show_create_project: false,
            show_create_task: false,
            show_create_folder: false,
            new_project_name: String::new(),
            new_project_client: Client { name: String::new(), short_name: String::new() },
            new_task_name: String::new(),
            new_folder_name: String::new(),
            new_task_parent: TaskTreeNode::new(String::new(), String::new(), "01_work", "02_output"),
            new_folder_parent: TaskTreeNode::new(
                String::new(),
                String::new(),
                "01_work",
                "02_output",
            ),
            new_file_name: String::new(),
            new_file_type: Dcc {
                name: String::new(),
                extension: String::new(),
                template_path: String::from_str("does_not_exist"),
            },
            project_filter: String::new(),
        };
        proof {
            reveal_strlit("");
            assert(""@ =~= Seq::<char>::empty());
            assert(r@.projects =~= Seq::empty());
            assert(r@.projects_filtered =~= Seq::empty());
            assert(r@.dcc =~= Seq::empty());
            assert(r@.config.ignore_extensions =~= Seq::empty());
        }
        r
    }
}

impl Rclamp {
    /// A session before anything was found or chosen, on this kind of
    /// system. `default` gives the same for a system with `/` in its paths.
    pub fn new(style: PathStyle) -> (r: Self)
        ensures
            r@ == (RclampView {
                config: AppConfigView { path_style: style, ..RclampView::initial().config },
                ..RclampView::initial()
            }),
    {
        let mut r = Rclamp::default();
        r.config.path_style = style;
        r
    }

    /// Makes `project` the current project.
    pub fn set_current_project(&mut self, project: Project)
        ensures
            final(self)@ == (RclampView { current_project: Some(project@), ..old(self)@ }),
    {
        self.current_project = Some(project);
    }

    /// Shows the dialog for a new folder, and no other.
    pub fn open_create_folder(&mut self)
        ensures
            final(self)@ == (RclampView {
                show_create_folder: true,
                show_create_project: false,
                show_create_task: false,
                ..old(self)@
            }),
    {
        self.show_create_folder = true;
        self.show_create_project = false;
        self.show_create_task = false;
    }

    /// Shows the dialog for a new task, and no other.
    pub fn open_create_task(&mut self)
        ensures
            final(self)@ == (RclampView {
                show_create_folder: false,
                show_create_project: false,
                show_create_task: true,
                ..old(self)@
            }),
    {
        self.show_create_folder = false;
        self.show_create_project = false;
        self.show_create_task = true;
    }

    /// Shows the dialog for a new project if it is hidden and hides it if
    /// it is shown; the other dialogs are hidden either way.
    pub fn open_or_close_create_project(&mut self)
        ensures
            final(self)@ == (RclampView {
                show_create_project: !old(self)@.show_create_project,
                show_create_folder: false,
                show_create_task: false,
                ..old(self)@
            }),
    {
        self.show_create_project = !self.show_create_project;
        self.show_create_folder = false;
        self.show_create_task = false;
    }
}

/// The work subdirectory of a project in which work files are looked for:
/// the first of its list, or the task's own directory where the list is empty.
pub open spec fn primary_work_dir(project: ProjectView) -> Seq<char> {
    if project.work_sub_dirs.len() > 0 {
        project.work_sub_dirs[0]
    } else {
        Seq::empty()
    }
}

/// The files without those whose extension is to be ignored.
pub open spec fn without_ignored(files: Seq<FileView>, ignore: Seq<Seq<char>>) -> Seq<FileView> {
    files.filter(|f: FileView| !ignore.contains(f.extension))
}

/// The work files of a listing that are shown.
pub open spec fn shown_files(
    items: Seq<DirItemView>,
    ignore: Seq<Seq<char>>,
    style: PathStyle,
) -> Seq<FileView> {
    without_ignored(work_files(items, style), ignore)
}

/// The projects whose name holds the filter text; all of them where the
/// filter is empty.
pub open spec fn filtered_projects(projects: Seq<ProjectView>, filter: Seq<char>) -> Seq<
    ProjectView,
> {
    if filter.len() == 0 {
        projects
    } else {
        projects.filter(|p: ProjectView| text_contains(p.name, filter))
    }
}

/// What it takes to build the task tree of a project: the directory to
/// start from and the names of the work and output directories of a task.
#[derive(Debug, PartialEq, Eq)]
pub struct TreeRequest {
    pub path: String,
    pub work_dir_name: String,
    pub output_dir_name: String,
}

/// The request for the task tree of a project, if one can be made: the
/// projects directory must be known, and the project must name a work and
/// an output subdirectory.
pub open spec fn tree_request(config: AppConfigView, project: ProjectView) -> Option<
    (Seq<char>, Seq<char>, Seq<char>),
> {
    if config.projects_dir is Some && project.work_sub_dirs.len() >= 2 {
        Some(
            (
                project.work_path(config.projects_dir->0, config.path_style),
                project.work_sub_dirs[0],
                project.work_sub_dirs[1],
            ),
        )
    } else {
        None
    }
}

impl TreeRequest {
    /// What the request holds, as plain values.
    pub open spec fn parts(self) -> (Seq<char>, Seq<char>, Seq<char>) {
        (self.path@, self.work_dir_name@, self.output_dir_name@)
    }
}

impl Rclamp {
    /// Drops the files whose extension is in the list.
    pub fn filter_files(files: &mut Vec<File>, ignore_extensions: Vec<String>)
        ensures
            files_view(final(files)@) == without_ignored(
                files_view(old(files)@),
                texts(ignore_extensions@),
            ),
    {
        let mut kept: Vec<File> = Vec::new();
        let ghost all = files_view(files@);
        let ghost keep = |f: FileView| !texts(ignore_extensions@).contains(f.extension);
        let mut i: usize = 0;
        proof {
            lemma_filter_start(all, keep);
            assert(files_view(kept@) =~= Seq::<FileView>::empty());
        }
        while i < files.len()
            invariant
                i <= files.len(),
                files@ == old(files)@,
                all == files_view(files@),
                keep == |f: FileView| !texts(ignore_extensions@).contains(f.extension),
                files_view(kept@) == all.take(i as int).filter(keep),
            decreases files.len() - i,
        {
            proof {
                lemma_filter_step(all, keep, i as int);
                assert(all[i as int] == files@[i as int]@);
            }
            if !list_contains(&ignore_extensions, files[i].extension.as_str()) {
                proof {
                    lemma_map_push(kept@, files@[i as int], |f: File| f@);
                }
                kept.push(files[i].clone());
            }
            i += 1;
        }
        proof {
            lemma_filter_start(all, keep);
        }
        *files = kept;
    }

    /// The directory to list for the work files of `task`: the primary work
    /// subdirectory of the current project, inside the task. `None` where no
    /// project is open.
    pub fn task_files_dir(&self, task: &TaskTreeNode) -> (r: Option<String>)
        ensures
            match self@.current_project {
                None => r is None,
                Some(p) => r is Some && r->0@ == joined(
                    task@.path,
                    primary_work_dir(p),
                    self@.config.path_style,
                ),
            },
    {
        match &self.current_project {
            None => None,
            Some(p) => {
                if p.work_sub_dirs.len() > 0 {
                    assert(p@.work_sub_dirs[0] == p.work_sub_dirs@[0]@);
                    Some(task.work_files_dir(p.work_sub_dirs[0].as_str(), self.config.path_style))
                } else {
                    proof {
                        reveal_strlit("");
                        assert(""@ =~= Seq::<char>::empty());
                    }
                    Some(task.work_files_dir("", self.config.path_style))
                }
            },
        }
    }

    /// Makes `task` the current task and shows its work files, given the
    /// listing of the directory that `task_files_dir` names. Without an open
    /// project nothing changes. A listing that failed leaves the files as
    /// they were, drops the current task and says why. Otherwise the files
    /// shown are the work files of the listing whose extension is not
    /// ignored, the latest first.
    pub fn set_current_task(&mut self, task: TaskTreeNode, listing: DirListing)
        ensures
            match old(self)@.current_project {
                None => final(self)@ == old(self)@,
                Some(_) => match listing {
                    Err(e) => final(self)@ == (RclampView {
                        message: Some(MessageView::warning("Error opening task: "@, e@)),
                        current_task: None,
                        ..old(self)@
                    }),
                    Ok(entries) => final(self).files is Some && descending(final(self).files->0@)
                        && files_view(final(self).files->0@).to_multiset() == shown_files(
                        items_view(readable(entries@)),
                        old(self)@.config.ignore_extensions,
                        old(self)@.config.path_style,
                    ).to_multiset() && final(self)@ == (RclampView {
                        current_task: Some(task@),
                        files: final(self)@.files,
                        ..old(self)@
                    }),
                },
            },
    {
        if self.current_project.is_none() {
            return;
        }
        match TaskTreeNode::find_workfiles(listing, self.config.path_style) {
            Err(e) => {
                self.message = Some(Message::warning("Error opening task: ", e.message.as_str()));
                self.current_task = None;
            },
            Ok(found) => {
                let mut files = found;
                Rclamp::filter_files(&mut files, copy_texts(&self.config.ignore_extensions));
                let ghost kept = files@;
                let files = File::latest_first(files);
                proof {
                    lemma_map_keeps_multiset(files@, kept, |f: File| f@);
                }
                self.current_task = Some(task);
                self.files = Some(files);
            },
        }
    }

    /// The session that a settings file gives: nothing found or chosen yet,
    /// with the directories of this kind of system and the layout of
    /// projects as the settings name them.
    pub fn load_config(config: RclampConfig, style: PathStyle) -> (r: Rclamp)
        ensures
            r@ == (RclampView { config: configured(config, style), ..RclampView::initial() }),
    {
        let mut r = Rclamp::default();
        let projects_dir = match style {
            PathStyle::Windows => config.projects_dir_win,
            PathStyle::Posix => config.projects_dir_mac,
        };
        let templates_dir = match style {
            PathStyle::Windows => config.templates_dir_win,
            PathStyle::Posix => config.templates_dir_mac,
        };
        let template_project = Project::new(
            String::new(),
            projects_dir.clone(),
            config.pipeline_dir_name,
            config.work_dir_name,
            config.dailies_dir_name,
            config.deliveries_dir_name,
            config.extra_dir_names,
            config.work_sub_dirs,
        );
        r.config.path_style = style;
        r.config.template_project = template_project;
        r.config.projects_dir = Some(projects_dir);
        r.config.templates_dir = templates_dir;
        r.config.ignore_extensions = config.ignore_extensions;
        r
    }

    /// Takes the settings anew, as they were read or with the reason why
    /// they could not be read. Settings that could not be read leave the
    /// session as it was, and the reason is handed back.
    pub fn load_config_refresh(&mut self, loaded: Result<RclampConfig, String>, style: PathStyle) -> (r:
        Result<(), String>)
        ensures
            match loaded {
                Ok(config) => r is Ok && final(self)@ == (RclampView {
                    config: configured(config, style),
                    ..old(self)@
                }),
                Err(e) => r == Err::<(), String>(e) && final(self)@ == old(self)@,
            },
    {
        match loaded {
            Ok(config) => {
                let fresh = Rclamp::load_config(config, style);
                self.config = fresh.config;
                Ok(())
            },
            Err(e) => Err(e),
        }
    }

    /// Begins a refresh of everything: the message is cleared and the
    /// settings are taken anew; where they could not be read, the reason
    /// becomes the message.
    pub fn refresh_all(&mut self, loaded: Result<RclampConfig, String>, style: PathStyle)
        ensures
            final(self)@ == (match loaded {
                Ok(config) => RclampView {
                    message: None,
                    config: configured(config, style),
                    ..old(self)@
                },
                Err(e) => RclampView { message: Some(MessageView::alert(e@)), ..old(self)@ },
            }),
    {
        self.message = None;
        match self.load_config_refresh(loaded, style) {
            Ok(()) => {},
            Err(e) => {
                self.message = Some(Message::alert(e.as_str()));
            },
        }
    }

    /// Takes the templates found. A search that failed leaves the templates
    /// as they were and says why.
    pub fn refresh_dcc(&mut self, found: Result<Vec<Dcc>, IoFailure>)
        ensures
            final(self)@ == (match found {
                Ok(dcc) => RclampView { dcc: dccs_view(dcc@), ..old(self)@ },
                Err(e) => RclampView {
                    message: Some(MessageView::warning("Error finding DCC:s: "@, e@)),
                    ..old(self)@
                },
            }),
    {
        match found {
            Ok(dcc) => {
                self.dcc = dcc;
            },
            Err(e) => {
                self.message = Some(Message::warning("Error finding DCC:s: ", e.message.as_str()));
            },
        }
    }

    /// Takes the projects found. Where no projects directory is known,
    /// nothing changes. The projects found replace the list, and the filter
    /// is cleared. A search that failed leaves the list as it was, says why,
    /// and closes the project, its task tree and the task that were open.
    pub fn refresh_projects(&mut self, found: Result<Vec<Project>, IoFailure>)
        ensures
            final(self)@ == (if old(self)@.config.projects_dir is None {
                old(self)@
            } else {
                match found {
                    Ok(projects) => RclampView {
                        projects: projects_view(projects@),
                        project_filter: Seq::empty(),
                        projects_filtered: projects_view(projects@),
                        ..old(self)@
                    },
                    Err(e) => RclampView {
                        message: Some(MessageView::warning("Error finding projects: "@, e@)),
                        current_project_task_tree: None,
                        current_project: None,
                        current_task: None,
                        ..old(self)@
                    },
                }
            }),
    {
        if self.config.projects_dir.is_none() {
            return;
        }
        match found {
            Ok(projects) => {
                self.projects_filtered = copy_projects(&projects);
                self.projects = projects;
                self.project_filter = String::new();
            },
            Err(e) => {
                self.message = Some(
                    Message::warning("Error finding projects: ", e.message.as_str()),
                );
                self.current_project_task_tree = None;
                self.current_project = None;
                self.current_task = None;
            },
        }
    }

    /// The request for the task tree of `project`, if one can be made.
    pub fn tree_request_for(&self, project: &Project) -> (r: Option<TreeRequest>)
        ensures
            match tree_request(self@.config, project@) {
                Some(parts) => r is Some && r->0.parts() == parts,
                None => r is None,
            },
    {
        match &self.config.projects_dir {
            None => None,
            Some(dir) => {
                if project.work_sub_dirs.len() < 2 {
                    return None;
                }
                assert(project@.work_sub_dirs[0] == project.work_sub_dirs@[0]@);
                assert(project@.work_sub_dirs[1] == project.work_sub_dirs@[1]@);
                Some(
                    TreeRequest {
                        path: project.get_work_path(dir.as_str(), self.config.path_style),
                        work_dir_name: project.work_sub_dirs[0].clone(),
                        output_dir_name: project.work_sub_dirs[1].clone(),
                    },
                )
            },
        }
    }

    /// The request for the task tree of the current project, if there is
    /// one and a request can be made.
    pub fn task_tree_request(&self) -> (r: Option<TreeRequest>)
        ensures
            match self@.current_project {
                None => r is None,
                Some(p) => match tree_request(self@.config, p) {
                    Some(parts) => r is Some && r->0.parts() == parts,
                    None => r is None,
                },
            },
    {
        match &self.current_project {
            None => None,
            Some(p) => self.tree_request_for(p),
        }
    }

    /// Takes the task tree of the current project, built anew. Without an
    /// open project or a projects directory nothing changes. A tree that
    /// could not be built closes the project, its task tree and the task
    /// that were open, and the failure is handed back to be shown; the list
    /// of projects stays.
    pub fn refresh_tasks(&mut self, built: Result<TaskTreeNode, IoFailure>) -> (r: Option<
        IoFailure,
    >)
        ensures
            old(self)@.current_project is None || old(self)@.config.projects_dir is None ==> r
                is None && final(self)@ == old(self)@,
            old(self)@.current_project is Some && old(self)@.config.projects_dir is Some
                ==> match built {
                Ok(tree) => r is None && final(self)@ == (RclampView {
                    current_project_task_tree: Some(tree@),
                    ..old(self)@
                }),
                Err(e) => r == Some(e) && final(self)@ == (RclampView {
                    current_project_task_tree: None,
                    current_project: None,
                    current_task: None,
                    ..old(self)@
                }),
            },
    {
        if self.current_project.is_none() || self.config.projects_dir.is_none() {
            return None;
        }
        match built {
            Ok(tree) => {
                self.current_project_task_tree = Some(tree);
                None
            },
            Err(e) => {
                self.current_project_task_tree = None;
                self.current_project = None;
                self.current_task = None;
                Some(e)
            },
        }
    }

    /// Takes the files of the current task, listed anew: `set_current_task`
    /// with the task that is current. Without a current task nothing changes.
    pub fn refresh_files(&mut self, listing: DirListing)
        ensures
            old(self)@.current_task is None ==> final(self)@ == old(self)@,
            old(self)@.current_task is Some && old(self)@.current_project is None ==> final(self)@
                == old(self)@,
            old(self)@.current_task is Some && old(self)@.current_project is Some
                ==> match listing {
                Err(e) => final(self)@ == (RclampView {
                    message: Some(MessageView::warning("Error opening task: "@, e@)),
                    current_task: None,
                    ..old(self)@
                }),
                Ok(entries) => final(self).files is Some && descending(final(self).files->0@)
                    && files_view(final(self).files->0@).to_multiset() == shown_files(
                    items_view(readable(entries@)),
                    old(self)@.config.ignore_extensions,
                    old(self)@.config.path_style,
                ).to_multiset() && final(self)@ == (RclampView {
                    files: final(self)@.files,
                    ..old(self)@
                }),
            },
    {
        let task = match &self.current_task {
            Some(t) => t.clone(),
            None => {
                return;
            },
        };
        self.set_current_task(task, listing);
    }

    /// Opens `project`: it becomes the current project. The answer is the
    /// request for its task tree, if one can be made.
    pub fn open_project(&mut self, project: Project) -> (r: Option<TreeRequest>)
        ensures
            final(self)@ == (RclampView { current_project: Some(project@), ..old(self)@ }),
            match tree_request(old(self)@.config, project@) {
                Some(parts) => r is Some && r->0.parts() == parts,
                None => r is None,
            },
    {
        let r = self.tree_request_for(&project);
        self.set_current_project(project);
        r
    }

    /// Takes the task tree of the project just opened. A tree that could
    /// not be built leaves the session as it was, and the failure is handed
    /// back to be shown.
    pub fn project_opened(&mut self, built: Result<TaskTreeNode, IoFailure>) -> (r: Option<
        IoFailure,
    >)
        ensures
            match built {
                Ok(tree) => r is None && final(self)@ == (RclampView {
                    current_project_task_tree: Some(tree@),
                    ..old(self)@
                }),
                Err(e) => r == Some(e) && final(self)@ == old(self)@,
            },
    {
        match built {
            Ok(tree) => {
                self.current_project_task_tree = Some(tree);
                None
            },
            Err(e) => Some(e),
        }
    }

    /// Takes note of how opening a file went: a failure becomes the message.
    pub fn open_file(&mut self, outcome: Result<(), IoFailure>)
        ensures
            final(self)@ == (match outcome {
                Ok(_) => old(self)@,
                Err(e) => RclampView {
                    message: Some(MessageView::warning("Error opening file: "@, e@)),
                    ..old(self)@
                },
            }),
    {
        match outcome {
            Ok(_) => {},
            Err(e) => {
                self.message = Some(Message::warning("Error opening file: ", e.message.as_str()));
            },
        }
    }

    /// Shows the projects whose name holds the filter text; all of them
    /// where the text is empty.
    pub fn filter_projects(&mut self, filter_string: String)
        ensures
            final(self)@ == (RclampView {
                projects_filtered: filtered_projects(old(self)@.projects, filter_string@),
                ..old(self)@
            }),
    {
        let needle = chars_of(filter_string.as_str());
        if needle.len() == 0 {
            self.projects_filtered = copy_projects(&self.projects);
            return;
        }
        let mut kept: Vec<Project> = Vec::new();
        let ghost all = projects_view(self.projects@);
        let ghost keep = |p: ProjectView| text_contains(p.name, filter_string@);
        let mut i: usize = 0;
        proof {
            lemma_filter_start(all, keep);
            assert(projects_view(kept@) =~= Seq::<ProjectView>::empty());
        }
        while i < self.projects.len()
            invariant
                i <= self.projects.len(),
                *self == *old(self),
                needle@ == filter_string@,
                all == projects_view(self.projects@),
                keep == |p: ProjectView| text_contains(p.name, filter_string@),
                projects_view(kept@) == all.take(i as int).filter(keep),
            decreases self.projects.len() - i,
        {
            proof {
                lemma_filter_step(all, keep, i as int);
                assert(all[i as int] == self.projects@[i as int]@);
            }
            let name = chars_of(self.projects[i].name.as_str());
            if contains_chars(&name, &needle) {
                let p = self.projects[i].clone();
                proof {
                    lemma_map_push(kept@, p, |p: Project| p@);
                }
                kept.push(p);
            }
            i += 1;
        }
        proof {
            lemma_filter_start(all, keep);
        }
        self.projects_filtered = kept;
    }
}

/// The settings of a session, taken from a settings file for this kind of
/// system.
pub open spec fn configured(config: RclampConfig, style: PathStyle) -> AppConfigView {
    AppConfigView {
        path_style: style,
        dark_mode: true,
        projects_dir: Some(
            match style {
                PathStyle::Windows => config.projects_dir_win@,
                PathStyle::Posix => config.projects_dir_mac@,
            },
        ),
        templates_dir: match style {
            PathStyle::Windows => config.templates_dir_win@,
            PathStyle::Posix => config.templates_dir_mac@,
        },
        template_project: ProjectView {
            name: Seq::empty(),
            name_sanitized: sanitized(lowercase_of(Seq::empty())),
            pipeline_dir_name: config.pipeline_dir_name@,
            work_dir_name: config.work_dir_name@,
            dailies_dir_name: config.dailies_dir_name@,
            deliveries_dir_name: config.deliveries_dir_name@,
            extra_dir_names: texts(config.extra_dir_names@),
            work_sub_dirs: texts(config.work_sub_dirs@),
        },
        ignore_extensions: texts(config.ignore_extensions@),
    }
}

/// A project to create, and the plan for creating it.
#[derive(Debug)]
pub struct ProjectRequest {
    pub project: Project,
    pub plan: ProjectPlan,
}

/// The project that the dialog for a new project asks for: named by the
/// sanitized form of what was typed, laid out as the template project.
pub open spec fn requested_project(typed: Seq<char>, template: ProjectView) -> ProjectView {
    let name = sanitized(lowercase_of(typed));
    ProjectView { name, name_sanitized: sanitized(lowercase_of(name)), ..template }
}

/// The path of the work file that the dialog for a new file asks for.
pub open spec fn requested_file_path(s: RclampView) -> Seq<char> {
    joined(
        s.current_task->0.work_path(s.config.path_style),
        new_file_name(
            s.current_project->0.name_sanitized,
            s.current_task->0.name,
            sanitized(lowercase_of(s.new_file_name)),
            s.new_file_type.extension,
        ),
        s.config.path_style,
    )
}

impl Rclamp {
    /// Begins the dialog for a new folder inside `parent`.
    pub fn begin_create_folder(&mut self, parent: TaskTreeNode)
        ensures
            final(self)@ == (RclampView {
                message: None,
                new_folder_name: Seq::empty(),
                new_folder_parent: parent@,
                show_create_folder: true,
                show_create_project: false,
                show_create_task: false,
                ..old(self)@
            }),
    {
        self.message = None;
        self.new_folder_name = String::new();
        self.new_folder_parent = parent;
        self.open_create_folder();
    }

    /// Begins the dialog for a new task inside `parent`.
    pub fn begin_create_task(&mut self, parent: TaskTreeNode)
        ensures
            final(self)@ == (RclampView {
                message: None,
                new_task_name: Seq::empty(),
                new_task_parent: parent@,
                show_create_folder: false,
                show_create_project: false,
                show_create_task: true,
                ..old(self)@
            }),
    {
        self.message = None;
        self.new_task_name = String::new();
        self.new_task_parent = parent;
        self.open_create_task();
    }

    /// Ends the dialog for a new task.
    pub fn cancel_create_task(&mut self)
        ensures
            final(self)@ == (RclampView { show_create_task: false, message: None, ..old(self)@ }),
    {
        self.show_create_task = false;
        self.message = None;
    }

    /// Ends the dialog for a new folder.
    pub fn cancel_create_folder(&mut self)
        ensures
            final(self)@ == (RclampView { show_create_folder: false, message: None, ..old(self)@ }),
    {
        self.show_create_folder = false;
        self.message = None;
    }

    /// Begins or ends the dialog for a new project, with nothing typed yet.
    pub fn toggle_create_project(&mut self)
        ensures
            final(self)@ == (RclampView {
                new_project_name: Seq::empty(),
                message: None,
                show_create_project: !old(self)@.show_create_project,
                show_create_folder: false,
                show_create_task: false,
                ..old(self)@
            }),
    {
        self.new_project_name = String::new();
        self.message = None;
        self.open_or_close_create_project();
    }

    /// Changes between the dark and the light look.
    pub fn toggle_dark_mode(&mut self)
        ensures
            final(self)@ == (RclampView {
                config: AppConfigView {
                    dark_mode: !old(self)@.config.dark_mode,
                    ..old(self)@.config
                },
                ..old(self)@
            }),
    {
        self.config.dark_mode = !self.config.dark_mode;
    }

    /// The plan for the task that the dialog asks for. Without an open
    /// project there is none, and the message says so. The task is named by
    /// the sanitized form of what was typed; where that is empty there is no
    /// plan either.
    pub fn create_task_request(&mut self) -> (r: Option<TaskPlan>)
        ensures
            match old(self)@.current_project {
                None => r is None && final(self)@ == (RclampView {
                    message: Some(MessageView::alert("No project open."@)),
                    ..old(self)@
                }),
                Some(project) => {
                    let name = sanitized(lowercase_of(old(self)@.new_task_name));
                    &&& final(self)@ == old(self)@
                    &&& if name.len() == 0 {
                        r is None
                    } else {
                        r is Some && r->0@ == task_plan(
                            old(self)@.new_task_parent.path,
                            name,
                            project,
                            old(self)@.config.path_style,
                        )
                    }
                },
            },
    {
        if self.current_project.is_none() {
            self.message = Some(Message::alert("No project open."));
            return None;
        }
        let name = sanitize_string(self.new_task_name.clone());
        if name.as_str().unicode_len() == 0 {
            return None;
        }
        match &self.current_project {
            Some(project) => Some(
                self.new_task_parent.create_task(name, project, self.config.path_style),
            ),
            None => None,
        }
    }

    /// Takes note of how creating the task went.
    pub fn task_created(&mut self, outcome: Result<(), IoFailure>)
        ensures
            final(self)@ == (RclampView {
                message: Some(
                    match outcome {
                        Ok(_) => MessageView::info("Successfully created task."@),
                        Err(e) => MessageView::warning("Error creating task: "@, e@),
                    },
                ),
                ..old(self)@
            }),
    {
        match outcome {
            Ok(_) => {
                self.message = Some(Message::info("Successfully created task."));
            },
            Err(e) => {
                self.message = Some(Message::warning("Error creating task: ", e.message.as_str()));
            },
        }
    }

    /// The directory of the folder that the dialog asks for, named by the
    /// sanitized form of what was typed; `None` where that is empty.
    pub fn create_folder_request(&self) -> (r: Option<String>)
        ensures
            ({
                let name = sanitized(lowercase_of(self@.new_folder_name));
                if name.len() == 0 {
                    r is None
                } else {
                    r is Some && r->0@ == joined(
                        self@.new_folder_parent.path,
                        name,
                        self@.config.path_style,
                    )
                }
            }),
    {
        let name = sanitize_string(self.new_folder_name.clone());
        if name.as_str().unicode_len() == 0 {
            return None;
        }
        Some(self.new_folder_parent.create_folder(name.as_str(), self.config.path_style))
    }

    /// Takes note of how creating the folder went.
    pub fn folder_created(&mut self, outcome: Result<(), IoFailure>)
        ensures
            final(self)@ == (RclampView {
                message: Some(
                    match outcome {
                        Ok(_) => MessageView::info("Successfully created folder."@),
                        Err(e) => MessageView::warning("Error creating folder: "@, e@),
                    },
                ),
                ..old(self)@
            }),
    {
        match outcome {
            Ok(_) => {
                self.message = Some(Message::info("Successfully created folder."));
            },
            Err(e) => {
                self.message = Some(
                    Message::warning("Error creating folder: ", e.message.as_str()),
                );
            },
        }
    }

    /// The project that the dialog asks for and the plan for creating it;
    /// `None` where no projects directory is known or nothing was typed.
    pub fn create_project_request(&self) -> (r: Option<ProjectRequest>)
        ensures
            match self@.config.projects_dir {
                Some(dir) if self@.new_project_name.len() > 0 => r is Some && r->0.project@
                    == requested_project(self@.new_project_name, self@.config.template_project)
                    && r->0.plan@ == r->0.project@.plan(dir, self@.config.path_style),
                _ => r is None,
            },
    {
        let dir = match &self.config.projects_dir {
            Some(d) => d,
            None => {
                return None;
            },
        };
        if self.new_project_name.as_str().unicode_len() == 0 {
            return None;
        }
        let template = &self.config.template_project;
        let project = Project::new(
            sanitize_string(self.new_project_name.clone()),
            dir.clone(),
            template.pipeline_dir_name.clone(),
            template.work_dir_name.clone(),
            template.dailies_dir_name.clone(),
            template.deliveries_dir_name.clone(),
            copy_texts(&template.extra_dir_names),
            copy_texts(&template.work_sub_dirs),
        );
        let plan = project.create(dir.as_str(), self.config.path_style);
        Some(ProjectRequest { project, plan })
    }

    /// Takes note of how creating the project went.
    pub fn project_created(&mut self, outcome: Result<(), IoFailure>)
        ensures
            final(self)@ == (RclampView {
                message: Some(
                    match outcome {
                        Ok(_) => MessageView::info("Successfully created new project"@),
                        Err(e) => MessageView::warning("Error creating project: "@, e@),
                    },
                ),
                ..old(self)@
            }),
    {
        match outcome {
            Ok(_) => {
                self.message = Some(Message::info("Successfully created new project"));
            },
            Err(e) => {
                self.message = Some(
                    Message::warning("Error creating project: ", e.message.as_str()),
                );
            },
        }
    }

    /// The path of the work file that the dialog asks for; `None` without an
    /// open project or a current task.
    pub fn new_file_path(&self) -> (r: Option<String>)
        ensures
            if self@.current_project is Some && self@.current_task is Some {
                r is Some && r->0@ == requested_file_path(self@)
            } else {
                r is None
            },
    {
        match (&self.current_project, &self.current_task) {
            (Some(project), Some(task)) => {
                let name = sanitize_string(self.new_file_name.clone());
                let filename = File::make_filename(&name, task, project, &self.new_file_type);
                Some(File::make_path(task.clone(), filename, self.config.path_style))
            },
            _ => None,
        }
    }

    /// Decides on the work file that the dialog asks for, given whether
    /// something exists at `new_file_path` and whether the template of the
    /// chosen kind is there. Without an open project or a current task there
    /// is nothing to do. A refusal becomes the message; otherwise the answer
    /// is the copy to make.
    pub fn create_file(
        &mut self,
        destination_exists: Result<bool, IoFailure>,
        template_exists: Result<bool, IoFailure>,
    ) -> (r: Option<CopyJob>)
        ensures
            if old(self)@.current_project is Some && old(self)@.current_task is Some {
                match copy_refusal(destination_exists, template_exists) {
                    Some(e) => r is None && final(self)@ == (RclampView {
                        message: Some(MessageView::warning("Error creating task: "@, e.text())),
                        ..old(self)@
                    }),
                    None => r is Some && final(self)@ == old(self)@ && r->0.from@
                        == old(self)@.new_file_type.template_path && r->0.to@
                        == requested_file_path(old(self)@),
                }
            } else {
                r is None && final(self)@ == old(self)@
            },
    {
        let decision = match (&self.current_project, &self.current_task) {
            (Some(project), Some(task)) => File::create_file(
                sanitize_string(self.new_file_name.clone()),
                task.clone(),
                project.clone(),
                self.new_file_type.clone(),
                destination_exists,
                template_exists,
                self.config.path_style,
            ),
            _ => {
                return None;
            },
        };
        match decision {
            Ok(job) => Some(job),
            Err(e) => {
                let text = e.message();
                self.message = Some(Message::warning("Error creating task: ", text.as_str()));
                None
            },
        }
    }

    /// Takes note of how copying the template went: a failure becomes the
    /// message.
    pub fn file_created(&mut self, outcome: Result<(), IoFailure>)
        ensures
            final(self)@ == (match outcome {
                Ok(_) => old(self)@,
                Err(e) => RclampView {
                    message: Some(MessageView::warning("Error creating task: "@, e@)),
                    ..old(self)@
                },
            }),
    {
        match outcome {
            Ok(_) => {},
            Err(e) => {
                self.message = Some(Message::warning("Error creating task: ", e.message.as_str()));
            },
        }
    }

    /// Takes note of how raising the version of a file went: a refusal
    /// becomes the message.
    pub fn version_raised(&mut self, outcome: Result<(), FileError>)
        ensures
            final(self)@ == (match outcome {
                Ok(_) => old(self)@,
                Err(e) => RclampView { message: Some(MessageView::alert(e.text())), ..old(self)@ },
            }),
    {
        match outcome {
            Ok(_) => {},
            Err(e) => {
                let text = e.message();
                self.message = Some(Message::alert(text.as_str()));
            },
        }
    }
}

} // verus!
