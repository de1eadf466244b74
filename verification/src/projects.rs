//! Projects: the record, the directories that belong to one, the plan for
//! creating it on disk, and discovery of the projects under a root.

use vstd::prelude::*;
use vstd::string::*;
use crate::failure::IoFailure;
use crate::helpers::{
    lowercase_of, program_for, sanitize_string, sanitized, OpenRequest, PROJECT_FILE_NAME,
};
use crate::order::{ascending, sort_ascending, Ranked};
use crate::paths::{join, joined, PathStyle};
use crate::sequences::lemma_filter_map_step;
use crate::text::{
    copy_texts, lemma_list_rank_flip, lemma_list_rank_same, lemma_list_rank_trans,
    lemma_text_rank_flip, lemma_text_rank_same, lemma_text_rank_trans, list_rank, rank_list,
    rank_text, text_rank, texts, Rank,
};

verus! {

/// A project: the name a person gave it, the name of its directory, and the
/// names of the directories inside it.
#[derive(Debug, PartialEq, Eq)]
pub struct Project {
    pub name: String,
    pub name_sanitized: String,
    pub pipeline_dir_name: String,
    pub work_dir_name: String,
    pub dailies_dir_name: String,
    pub deliveries_dir_name: String,
    pub extra_dir_names: Vec<String>,
    pub work_sub_dirs: Vec<String>,
}

/// What a project holds, as plain texts.
pub struct ProjectView {
    pub name: Seq<char>,
    pub name_sanitized: Seq<char>,
    pub pipeline_dir_name: Seq<char>,
    pub work_dir_name: Seq<char>,
    pub dailies_dir_name: Seq<char>,
    pub deliveries_dir_name: Seq<char>,
    pub extra_dir_names: Seq<Seq<char>>,
    pub work_sub_dirs: Seq<Seq<char>>,
}

impl View for Project {
    type V = ProjectView;

    open spec fn view(&self) -> ProjectView {
        ProjectView {
            name: self.name@,
            name_sanitized: self.name_sanitized@,
            pipeline_dir_name: self.pipeline_dir_name@,
            work_dir_name: self.work_dir_name@,
            dailies_dir_name: self.dailies_dir_name@,
            deliveries_dir_name: self.deliveries_dir_name@,
            extra_dir_names: texts(self.extra_dir_names@),
            work_sub_dirs: texts(self.work_sub_dirs@),
        }
    }
}

impl Clone for Project {
    fn clone(&self) -> (r: Self)
        ensures
            r@ == self@,
    {
        Project {
            name: self.name.clone(),
            name_sanitized: self.name_sanitized.clone(),
            pipeline_dir_name: self.pipeline_dir_name.clone(),
            work_dir_name: self.work_dir_name.clone(),
            dailies_dir_name: self.dailies_dir_name.clone(),
            deliveries_dir_name: self.deliveries_dir_name.clone(),
            extra_dir_names: copy_texts(&self.extra_dir_names),
            work_sub_dirs: copy_texts(&self.work_sub_dirs),
        }
    }
}

/// The natural order of projects: by display name, then by each further
/// field in the order of declaration.
pub open spec fn project_rank(a: ProjectView, b: ProjectView) -> Rank {
    text_rank(a.name, b.name).or_else(text_rank(a.name_sanitized, b.name_sanitized)).or_else(
        text_rank(a.pipeline_dir_name, b.pipeline_dir_name),
    ).or_else(text_rank(a.work_dir_name, b.work_dir_name)).or_else(
        text_rank(a.dailies_dir_name, b.dailies_dir_name),
    ).or_else(text_rank(a.deliveries_dir_name, b.deliveries_dir_name)).or_else(
        list_rank(a.extra_dir_names, b.extra_dir_names),
    ).or_else(list_rank(a.work_sub_dirs, b.work_sub_dirs))
}

/// Two projects rank the same exactly when they hold the same texts.
pub proof fn lemma_project_rank_same(a: ProjectView, b: ProjectView)
    ensures
        project_rank(a, b) == Rank::Same <==> a == b,
{
    lemma_text_rank_same(a.name, b.name);
    lemma_text_rank_same(a.name_sanitized, b.name_sanitized);
    lemma_text_rank_same(a.pipeline_dir_name, b.pipeline_dir_name);
    lemma_text_rank_same(a.work_dir_name, b.work_dir_name);
    lemma_text_rank_same(a.dailies_dir_name, b.dailies_dir_name);
    lemma_text_rank_same(a.deliveries_dir_name, b.deliveries_dir_name);
    lemma_list_rank_same(a.extra_dir_names, b.extra_dir_names);
    lemma_list_rank_same(a.work_sub_dirs, b.work_sub_dirs);
}

impl Ranked for Project {
    open spec fn rank_to(&self, other: &Self) -> Rank {
        project_rank(self@, other@)
    }

    fn rank(&self, other: &Self) -> (r: Rank) {
        let r = rank_text(self.name.as_str(), other.name.as_str());
        if r != Rank::Same {
            return r;
        }
        let r = rank_text(self.name_sanitized.as_str(), other.name_sanitized.as_str());
        if r != Rank::Same {
            return r;
        }
        let r = rank_text(self.pipeline_dir_name.as_str(), other.pipeline_dir_name.as_str());
        if r != Rank::Same {
            return r;
        }
        let r = rank_text(self.work_dir_name.as_str(), other.work_dir_name.as_str());
        if r != Rank::Same {
            return r;
        }
        let r = rank_text(self.dailies_dir_name.as_str(), other.dailies_dir_name.as_str());
        if r != Rank::Same {
            return r;
        }
        let r = rank_text(self.deliveries_dir_name.as_str(), other.deliveries_dir_name.as_str());
        if r != Rank::Same {
            return r;
        }
        let r = rank_list(&self.extra_dir_names, &other.extra_dir_names);
        if r != Rank::Same {
            return r;
        }
        rank_list(&self.work_sub_dirs, &other.work_sub_dirs)
    }

    proof fn lemma_rank_flip(a: &Self, b: &Self) {
        let (a, b) = (a@, b@);
        lemma_text_rank_flip(a.name, b.name);
        lemma_text_rank_flip(a.name_sanitized, b.name_sanitized);
        lemma_text_rank_flip(a.pipeline_dir_name, b.pipeline_dir_name);
        lemma_text_rank_flip(a.work_dir_name, b.work_dir_name);
        lemma_text_rank_flip(a.dailies_dir_name, b.dailies_dir_name);
        lemma_text_rank_flip(a.deliveries_dir_name, b.deliveries_dir_name);
        lemma_list_rank_flip(a.extra_dir_names, b.extra_dir_names);
        lemma_list_rank_flip(a.work_sub_dirs, b.work_sub_dirs);
    }

    proof fn lemma_rank_trans(a: &Self, b: &Self, c: &Self) {
        let (a, b, c) = (a@, b@, c@);
        lemma_text_rank_trans(a.name, b.name, c.name);
        if text_rank(a.name, c.name) == Rank::Same {
            lemma_text_rank_trans(a.name_sanitized, b.name_sanitized, c.name_sanitized);
            if text_rank(a.name_sanitized, c.name_sanitized) == Rank::Same {
                lemma_text_rank_trans(
                    a.pipeline_dir_name,
                    b.pipeline_dir_name,
                    c.pipeline_dir_name,
                );
                if text_rank(a.pipeline_dir_name, c.pipeline_dir_name) == Rank::Same {
                    lemma_text_rank_trans(a.work_dir_name, b.work_dir_name, c.work_dir_name);
                    if text_rank(a.work_dir_name, c.work_dir_name) == Rank::Same {
                        lemma_text_rank_trans(
                            a.dailies_dir_name,
                            b.dailies_dir_name,
                            c.dailies_dir_name,
                        );
                        if text_rank(a.dailies_dir_name, c.dailies_dir_name) == Rank::Same {
                            lemma_text_rank_trans(
                                a.deliveries_dir_name,
                                b.deliveries_dir_name,
                                c.deliveries_dir_name,
                            );
                            if text_rank(a.deliveries_dir_name, c.deliveries_dir_name)
                                == Rank::Same {
                                lemma_list_rank_trans(
                                    a.extra_dir_names,
                                    b.extra_dir_names,
                                    c.extra_dir_names,
                                );
                                if list_rank(a.extra_dir_names, c.extra_dir_names)
                                    == Rank::Same {
                                    lemma_list_rank_trans(
                                        a.work_sub_dirs,
                                        b.work_sub_dirs,
                                        c.work_sub_dirs,
                                    );
                                }
                            }
                        }
                    }
                }
            }
        }
    }
}

impl ProjectView {
    /// The project's own directory under `projects_dir`.
    pub open spec fn path(self, projects_dir: Seq<char>, style: PathStyle) -> Seq<char> {
        joined(projects_dir, self.name_sanitized, style)
    }

    /// The directory that holds the project's task tree.
    pub open spec fn work_path(self, projects_dir: Seq<char>, style: PathStyle) -> Seq<char> {
        joined(self.path(projects_dir, style), self.work_dir_name, style)
    }

    /// The directory that holds the project's dailies.
    pub open spec fn dailies_path(self, projects_dir: Seq<char>, style: PathStyle) -> Seq<char> {
        joined(self.path(projects_dir, style), self.dailies_dir_name, style)
    }

    /// The directory that holds the project's deliveries.
    pub open spec fn deliveries_path(self, projects_dir: Seq<char>, style: PathStyle) -> Seq<char> {
        joined(self.path(projects_dir, style), self.deliveries_dir_name, style)
    }

    /// The directory that holds the project's pipeline files.
    pub open spec fn pipeline_path(self, projects_dir: Seq<char>, style: PathStyle) -> Seq<char> {
        joined(self.path(projects_dir, style), self.pipeline_dir_name, style)
    }

    /// The file that describes the project.
    pub open spec fn descriptor_path(self, projects_dir: Seq<char>, style: PathStyle) -> Seq<char> {
        joined(self.path(projects_dir, style), PROJECT_FILE_NAME@, style)
    }

    /// The directories that make up a new project, in the order in which
    /// they are created: the project's own, dailies, deliveries, work, then
    /// each extra directory.
    pub open spec fn directories(self, projects_dir: Seq<char>, style: PathStyle) -> Seq<Seq<char>> {
        seq![
            self.path(projects_dir, style),
            self.dailies_path(projects_dir, style),
            self.deliveries_path(projects_dir, style),
            self.work_path(projects_dir, style),
        ] + self.extra_dir_names.map_values(|d: Seq<char>| joined(self.path(projects_dir, style), d, style))
    }

    /// The plan for creating the project under `projects_dir`.
    pub open spec fn plan(self, projects_dir: Seq<char>, style: PathStyle) -> ProjectPlanView {
        ProjectPlanView {
            directories: self.directories(projects_dir, style),
            descriptor_path: self.descriptor_path(projects_dir, style),
        }
    }
}

/// What creating a project on disk takes: the directories to make, in
/// order, and then the descriptor file to write.
#[derive(Debug, PartialEq, Eq)]
pub struct ProjectPlan {
    pub directories: Vec<String>,
    pub descriptor_path: String,
}

/// What a plan for a project holds, as plain values.
pub struct ProjectPlanView {
    pub directories: Seq<Seq<char>>,
    pub descriptor_path: Seq<char>,
}

impl View for ProjectPlan {
    type V = ProjectPlanView;

    open spec fn view(&self) -> ProjectPlanView {
        ProjectPlanView {
            directories: texts(self.directories@),
            descriptor_path: self.descriptor_path@,
        }
    }
}

/// The records of a list of projects, as plain values.
pub open spec fn projects_view(projects: Seq<Project>) -> Seq<ProjectView> {
    projects.map_values(|p: Project| p@)
}

/// A copy of a list of projects.
pub fn copy_projects(v: &Vec<Project>) -> (r: Vec<Project>)
    ensures
        projects_view(r@) == projects_view(v@),
{
    let mut r: Vec<Project> = Vec::new();
    let mut i: usize = 0;
    while i < v.len()
        invariant
            i <= v.len(),
            r@.len() == i,
            forall|k: int| 0 <= k < i ==> r@[k]@ == v@[k]@,
        decreases v.len() - i,
    {
        r.push(v[i].clone());
        i += 1;
    }
    assert(projects_view(r@) =~= projects_view(v@));
    r
}

/// The projects among the candidates: those that are present, in their order.
pub open spec fn present(candidates: Seq<Option<Project>>) -> Seq<Project> {
    candidates.filter(|c: Option<Project>| c is Some).map_values(|c: Option<Project>| c->0)
}

/// One step of `present`.
proof fn lemma_present_step(s: Seq<Option<Project>>, i: int)
    requires
        0 <= i < s.len(),
    ensures
        present(s.take(i + 1)) == match s[i] {
            Some(p) => present(s.take(i)).push(p),
            None => present(s.take(i)),
        },
{
    lemma_filter_map_step(s, |c: Option<Project>| c is Some, |c: Option<Project>| c->0, i);
}

impl Project {
    /// A project record; nothing is created on disk. The directory name of
    /// the project is the sanitized form of `name`. The record does not
    /// depend on `projects_dir`: where the project lies is said anew with
    /// every path that is asked for.
    pub fn new(
        name: String,
        projects_dir: String,
        pipeline_dir_name: String,
        work_dir_name: String,
        dailies_dir_name: String,
        deliveries_dir_name: String,
        extra_dir_names: Vec<String>,
        work_sub_dirs: Vec<String>,
    ) -> (r: Self)
        ensures
            r@ == (ProjectView {
                name: name@,
                name_sanitized: sanitized(lowercase_of(name@)),
                pipeline_dir_name: pipeline_dir_name@,
                work_dir_name: work_dir_name@,
                dailies_dir_name: dailies_dir_name@,
                deliveries_dir_name: deliveries_dir_name@,
                extra_dir_names: texts(extra_dir_names@),
                work_sub_dirs: texts(work_sub_dirs@),
            }),
    {
        let name_sanitized = sanitize_string(name.clone());
        Project {
            name,
            name_sanitized,
            pipeline_dir_name,
            work_dir_name,
            dailies_dir_name,
            deliveries_dir_name,
            extra_dir_names,
            work_sub_dirs,
        }
    }

    /// The project's own directory under `projects_dir`.
    pub fn get_path(&self, projects_dir: &str, style: PathStyle) -> (r: String)
        ensures
            r@ == self@.path(projects_dir@, style),
    {
        join(projects_dir, self.name_sanitized.as_str(), style)
    }

    /// The directory that holds the project's task tree.
    pub fn get_work_path(&self, projects_dir: &str, style: PathStyle) -> (r: String)
        ensures
            r@ == self@.work_path(projects_dir@, style),
    {
        let root = self.get_path(projects_dir, style);
        join(root.as_str(), self.work_dir_name.as_str(), style)
    }

    /// The directory that holds the project's dailies.
    pub fn get_dailies_path(&self, projects_dir: &str, style: PathStyle) -> (r: String)
        ensures
            r@ == self@.dailies_path(projects_dir@, style),
    {
        let root = self.get_path(projects_dir, style);
        join(root.as_str(), self.dailies_dir_name.as_str(), style)
    }

    /// The directory that holds the project's deliveries.
    pub fn get_deliveries_path(&self, projects_dir: &str, style: PathStyle) -> (r: String)
        ensures
            r@ == self@.deliveries_path(projects_dir@, style),
    {
        let root = self.get_path(projects_dir, style);
        join(root.as_str(), self.deliveries_dir_name.as_str(), style)
    }

    /// The directory that holds the project's pipeline files.
    pub fn get_pipeline_path(&self, projects_dir: &str, style: PathStyle) -> (r: String)
        ensures
            r@ == self@.pipeline_path(projects_dir@, style),
    {
        let root = self.get_path(projects_dir, style);
        join(root.as_str(), self.pipeline_dir_name.as_str(), style)
    }

    /// The descriptor file that marks `dir` as a project.
    pub fn descriptor_in(dir: &str, style: PathStyle) -> (r: String)
        ensures
            r@ == joined(dir@, PROJECT_FILE_NAME@, style),
    {
        join(dir, PROJECT_FILE_NAME, style)
    }

    /// The plan for creating the project under `projects_dir`. The caller
    /// makes the directories in order and stops at the first that fails, so a
    /// failure part of the way leaves what was made before it; the
    /// descriptor is written last.
    pub fn create(&self, projects_dir: &str, style: PathStyle) -> (plan: ProjectPlan)
        ensures
            plan@ == self@.plan(projects_dir@, style),
    {
        let root = self.get_path(projects_dir, style);
        let mut directories: Vec<String> = Vec::new();
        directories.push(root.clone());
        directories.push(self.get_dailies_path(projects_dir, style));
        directories.push(self.get_deliveries_path(projects_dir, style));
        directories.push(self.get_work_path(projects_dir, style));
        let ghost fixed = texts(directories@);
        let ghost extras = self@.extra_dir_names.map_values(
            |d: Seq<char>| joined(self@.path(projects_dir@, style), d, style),
        );
        assert(fixed =~= seq![
            self@.path(projects_dir@, style),
            self@.dailies_path(projects_dir@, style),
            self@.deliveries_path(projects_dir@, style),
            self@.work_path(projects_dir@, style),
        ]);
        let mut i: usize = 0;
        while i < self.extra_dir_names.len()
            invariant
                i <= self.extra_dir_names.len(),
                root@ == self@.path(projects_dir@, style),
                extras == self@.extra_dir_names.map_values(
                    |d: Seq<char>| joined(self@.path(projects_dir@, style), d, style),
                ),
                texts(directories@) == fixed + extras.take(i as int),
            decreases self.extra_dir_names.len() - i,
        {
            let ghost before = directories@;
            let dir = join(root.as_str(), self.extra_dir_names[i].as_str(), style);
            let ghost text = dir@;
            directories.push(dir);
            proof {
                assert(texts(directories@) =~= texts(before).push(text));
                assert(self@.extra_dir_names[i as int] == self.extra_dir_names@[i as int]@);
                assert(extras[i as int] == text);
                assert(extras.take(i + 1) =~= extras.take(i as int).push(text));
                assert(texts(directories@) =~= fixed + extras.take(i + 1));
            }
            i += 1;
        }
        assert(extras.take(i as int) =~= extras);
        ProjectPlan { directories, descriptor_path: join(root.as_str(), PROJECT_FILE_NAME, style) }
    }

    /// The projects under a root, in their natural order. `found` is what the
    /// caller met there: the failure to list the root, or, for each entry of
    /// the root, the project that its descriptor file describes, if the entry
    /// has one that can be read. A listing that failed fails the search; an
    /// entry without a readable descriptor is left out.
    pub fn find_projects(found: Result<Vec<Option<Project>>, IoFailure>) -> (r: Result<
        Vec<Project>,
        IoFailure,
    >)
        ensures
            match found {
                Err(e) => r == Err::<Vec<Project>, IoFailure>(e),
                Ok(candidates) => r is Ok && r->Ok_0@.to_multiset() == present(
                    candidates@,
                ).to_multiset() && ascending(r->Ok_0@),
            },
    {
        match found {
            Err(e) => Err(e),
            Ok(candidates) => {
                let ghost all = candidates@;
                let mut projects: Vec<Project> = Vec::new();
                proof {
                    assert(present(all.take(0)) =~= Seq::<Project>::empty()) by {
                        reveal(Seq::filter);
                    }
                }
                for candidate in it: candidates
                    invariant
                        it.seq() == all,
                        projects@ == present(all.take(it.index() as int)),
                {
                    proof {
                        lemma_present_step(all, it.index() as int);
                    }
                    match candidate {
                        Some(project) => projects.push(project),
                        None => {},
                    }
                }
                assert(all.take(all.len() as int) =~= all);
                Ok(sort_ascending(projects))
            },
        }
    }

    /// The request to reveal the project's dailies.
    pub fn open_dailies_folder(&self, projects_dir: &str, style: PathStyle) -> (r: OpenRequest)
        ensures
            r.path@ == self@.dailies_path(projects_dir@, style),
            r.program@ == program_for(style),
    {
        OpenRequest::in_file_browser(self.get_dailies_path(projects_dir, style), style)
    }

    /// The request to reveal the project's deliveries.
    pub fn open_deliveries_folder(&self, projects_dir: &str, style: PathStyle) -> (r: OpenRequest)
        ensures
            r.path@ == self@.deliveries_path(projects_dir@, style),
            r.program@ == program_for(style),
    {
        OpenRequest::in_file_browser(self.get_deliveries_path(projects_dir, style), style)
    }
}

} // verus!
