use rclamp::paths::PathStyle;
use rclamp::failure::IoFailure;
use rclamp::projects::Project;
use rclamp::tasks::{DirItem, TaskTreeNode};
use rclamp::workfiles::{CopyJob, Dcc, DccCandidate, File, FileError};

const POSIX: PathStyle = PathStyle::Posix;

fn strings(v: &[&str]) -> Vec<String> {
    v.iter().map(|s| String::from(*s)).collect()
}

fn project(name: &str) -> Project {
    Project::new(
        String::from(name),
        String::from("/projects"),
        String::from("00_pipeline"),
        String::from("02_work"),
        String::from("03_dailies"),
        String::from("04_deliveries"),
        strings(&["01_preproduction"]),
        strings(&["01_work", "02_output", "03_assets"]),
    )
}

fn task(name: &str, path: &str) -> TaskTreeNode {
    TaskTreeNode::new(String::from(name), String::from(path), "01_work", "02_output")
}

fn dcc(name: &str, extension: &str, template_path: &str) -> Dcc {
    Dcc {
        name: String::from(name),
        extension: String::from(extension),
        template_path: String::from(template_path),
    }
}

fn entry(path: &str, is_file: bool) -> DirItem {
    DirItem { path: String::from(path), is_file, is_dir: !is_file }
}

#[test]
fn work_path_is_the_work_directory_inside_the_task() {
    assert_eq!(task("comp", "/p/work/comp").get_work_path(POSIX), "/p/work/comp/01_work");
    assert_eq!(task("comp", "/p/work/comp").work_files_dir("scenes", POSIX), "/p/work/comp/scenes");
    assert_eq!(TaskTreeNode::marker_in("/p/work/comp", POSIX), "/p/work/comp/task.yaml");
}

#[test]
fn open_output_reveals_the_output_directory() {
    let r = task("comp", "/p/work/comp").open_output(PathStyle::Posix);
    assert_eq!(r.path, "/p/work/comp/02_output");
    assert_eq!(r.program, "finder");
    assert_eq!(task("comp", "/p/work/comp").open_output(PathStyle::Windows).program, "explorer");
}

#[test]
fn create_folder_names_the_directory_to_make() {
    assert_eq!(task("seq", "/p/work/seq").create_folder("shots", POSIX), "/p/work/seq/shots");
}

#[test]
fn create_task_plans_directory_descriptor_and_subdirectories() {
    let plan = task("seq", "/p/work/seq").create_task(String::from("comp"), &project("Demo"), POSIX);
    assert_eq!(plan.directory, "/p/work/seq/comp");
    assert_eq!(plan.descriptor_path, "/p/work/seq/comp/task.yaml");
    assert_eq!(plan.name, "comp");
    assert_eq!(
        plan.sub_directories,
        strings(&[
            "/p/work/seq/comp/01_work",
            "/p/work/seq/comp/02_output",
            "/p/work/seq/comp/03_assets"
        ])
    );
}

#[test]
fn create_task_without_subdirectories_plans_none() {
    let mut p = project("Demo");
    p.work_sub_dirs = Vec::new();
    let plan = task("seq", "/p/work/seq").create_task(String::from("comp"), &p, POSIX);
    assert_eq!(plan.sub_directories, Vec::<String>::new());
}

#[test]
fn find_workfiles_keeps_what_follows_the_convention() {
    let listing = vec![
        entry("/w/shot_v001.nk", true),
        entry("/w/notes.txt", true),
        entry("/w/backup_v002.nk", false),
        entry("/w/shot_v002.nk", true),
        DirItem { path: String::from("/w/link_v003.nk"), is_file: false, is_dir: false },
    ];
    let files =
        TaskTreeNode::find_workfiles(Ok(listing.into_iter().map(Ok).collect()), POSIX).unwrap();
    let paths: Vec<&str> = files.iter().map(|f| f.path.as_str()).collect();
    assert_eq!(paths, vec!["/w/shot_v001.nk", "/w/shot_v002.nk", "/w/link_v003.nk"]);
    assert_eq!(files[1].name, "shot");
    assert_eq!(files[1].version, 2);
    assert_eq!(files[1].extension, "nk");
}

#[test]
fn find_workfiles_on_an_empty_listing_finds_none() {
    assert_eq!(TaskTreeNode::find_workfiles(Ok(Vec::new()), POSIX), Ok(Vec::new()));
}

#[test]
fn find_workfiles_passes_a_failed_listing_on() {
    let e = IoFailure::new("no such directory");
    assert_eq!(TaskTreeNode::find_workfiles(Err(e.clone()), POSIX), Err(e));
}

#[test]
fn make_filename_without_a_logical_name() {
    let name = File::make_filename(
        &String::new(),
        &task("comp", "/p/work/comp"),
        &project("Demo"),
        &dcc("nuke", ".nk", "/t/nuke/template.nk"),
    );
    assert_eq!(name, "demo_comp_v001.nk");
}

#[test]
fn make_filename_with_a_logical_name() {
    let name = File::make_filename(
        &String::from("layout"),
        &task("comp", "/p/work/comp"),
        &project("Demo"),
        &dcc("nuke", ".nk", "/t/nuke/template.nk"),
    );
    assert_eq!(name, "demo_comp_layout_v001.nk");
}

#[test]
fn both_shapes_of_a_new_file_name_are_valid_and_distinct() {
    let t = task("comp", "/p/work/comp");
    let p = project("Demo");
    let d = dcc("nuke", ".nk", "/t/nuke/template.nk");
    let plain = File::make_filename(&String::new(), &t, &p, &d);
    let named = File::make_filename(&String::from("layout"), &t, &p, &d);
    assert_ne!(plain, named);
    assert!(plain.ends_with("_v001.nk"));
    assert!(named.ends_with("_v001.nk"));
    let a = File::from_path(File::make_path(t.clone(), plain, POSIX), POSIX).unwrap();
    assert_eq!((a.name.as_str(), a.version, a.extension.as_str()), ("demo_comp", 1, "nk"));
    let b = File::from_path(File::make_path(t, named, POSIX), POSIX).unwrap();
    assert_eq!((b.name.as_str(), b.version, b.extension.as_str()), ("demo_comp_layout", 1, "nk"));
}

#[test]
fn make_path_lies_among_the_work_files() {
    assert_eq!(
        File::make_path(task("comp", "/p/work/comp"), String::from("demo_comp_v001.nk"), POSIX),
        "/p/work/comp/01_work/demo_comp_v001.nk"
    );
}

#[test]
fn create_file_asks_for_the_copy_of_the_template() {
    let job = File::create_file(
        String::new(),
        task("comp", "/p/work/comp"),
        project("Demo"),
        dcc("nuke", ".nk", "/t/nuke/template.nk"),
        Ok(false),
        Ok(true),
        POSIX,
    );
    assert_eq!(
        job,
        Ok(CopyJob {
            from: String::from("/t/nuke/template.nk"),
            to: String::from("/p/work/comp/01_work/demo_comp_v001.nk"),
        })
    );
    let named = File::create_file(
        String::from("layout"),
        task("comp", "/p/work/comp"),
        project("Demo"),
        dcc("nuke", ".nk", "/t/nuke/template.nk"),
        Ok(false),
        Ok(true),
        POSIX,
    );
    assert_eq!(named.unwrap().to, "/p/work/comp/01_work/demo_comp_layout_v001.nk");
}

#[test]
fn create_file_looks_at_the_destination_first() {
    let run = |d, t| {
        File::create_file(
            String::new(),
            task("comp", "/p/work/comp"),
            project("Demo"),
            dcc("nuke", ".nk", "/t/nuke/template.nk"),
            d,
            t,
            POSIX,
        )
    };
    let e1 = IoFailure::new("first");
    let e2 = IoFailure::new("second");
    assert_eq!(run(Ok(true), Ok(true)), Err(FileError::AlreadyExists));
    assert_eq!(run(Ok(true), Ok(false)), Err(FileError::AlreadyExists));
    assert_eq!(run(Ok(true), Err(e2.clone())), Err(FileError::AlreadyExists));
    assert_eq!(run(Ok(false), Ok(false)), Err(FileError::TemplateMissing));
    assert_eq!(run(Err(e1.clone()), Ok(true)), Err(FileError::Io(e1.clone())));
    assert_eq!(run(Err(e1.clone()), Err(e2.clone())), Err(FileError::Io(e1)));
    assert_eq!(run(Ok(false), Err(e2.clone())), Err(FileError::Io(e2)));
}

#[test]
fn copy_file_decides_like_create_file() {
    let d = dcc("nuke", ".nk", "/t/nuke/template.nk");
    assert_eq!(
        File::copy_file(String::from("/x/y.nk"), d.clone(), Ok(false), Ok(true)),
        Ok(CopyJob { from: String::from("/t/nuke/template.nk"), to: String::from("/x/y.nk") })
    );
    assert_eq!(
        File::copy_file(String::from("/x/y.nk"), d.clone(), Ok(true), Ok(true)),
        Err(FileError::AlreadyExists)
    );
    assert_eq!(
        File::copy_file(String::from("/x/y.nk"), d, Ok(false), Ok(false)),
        Err(FileError::TemplateMissing)
    );
}

#[test]
fn template_paths_follow_the_extension() {
    assert_eq!(Dcc::config_in("/t/nuke", POSIX), "/t/nuke/app.yaml");
    assert_eq!(Dcc::template_in("/t/nuke", ".nk", POSIX), "/t/nuke/template.nk");
    assert_eq!(Dcc::template_in("/t/any", "", POSIX), "/t/any/template");
}

#[test]
fn find_dcc_keeps_complete_templates() {
    let found = vec![
        DccCandidate {
            item: entry("/t/nuke", false),
            config: Some(dcc("nuke", ".nk", "")),
            template_exists: true,
        },
        DccCandidate { item: entry("/t/readme.txt", true), config: None, template_exists: false },
        DccCandidate {
            item: entry("/t/file_with_config", true),
            config: Some(dcc("odd", ".x", "")),
            template_exists: true,
        },
        DccCandidate { item: entry("/t/empty", false), config: None, template_exists: true },
        DccCandidate {
            item: entry("/t/maya", false),
            config: Some(dcc("maya", ".ma", "somewhere/else")),
            template_exists: false,
        },
        DccCandidate {
            item: entry("/t/blender", false),
            config: Some(dcc("blender", ".blend", "ignored")),
            template_exists: true,
        },
    ];
    assert_eq!(
        Dcc::find_dcc(Ok(found), POSIX),
        Ok(vec![
            dcc("nuke", ".nk", "/t/nuke/template.nk"),
            dcc("blender", ".blend", "/t/blender/template.blend"),
        ])
    );
}

#[test]
fn find_dcc_passes_a_failed_listing_on() {
    let e = IoFailure::new("no templates directory");
    assert_eq!(Dcc::find_dcc(Err(e.clone()), POSIX), Err(e));
    assert_eq!(Dcc::find_dcc(Ok(Vec::new()), POSIX), Ok(Vec::new()));
}

#[test]
fn readable_leaves_out_what_could_not_be_read() {
    let entries = vec![
        Ok(entry("/w/a", true)),
        Err(IoFailure::new("first")),
        Ok(entry("/w/b", false)),
        Err(IoFailure::new("second")),
    ];
    assert_eq!(DirItem::readable(entries), vec![entry("/w/a", true), entry("/w/b", false)]);
    assert_eq!(DirItem::readable(Vec::new()), Vec::new());
}

#[test]
fn all_read_stops_at_the_first_failure() {
    let entries = vec![
        Ok(entry("/w/a", true)),
        Err(IoFailure::new("first")),
        Ok(entry("/w/b", false)),
        Err(IoFailure::new("second")),
    ];
    assert_eq!(DirItem::all_read(entries), Err(IoFailure::new("first")));
    let fine = vec![Ok(entry("/w/a", true)), Ok(entry("/w/b", false))];
    assert_eq!(DirItem::all_read(fine), Ok(vec![entry("/w/a", true), entry("/w/b", false)]));
    assert_eq!(DirItem::all_read(Vec::new()), Ok(Vec::new()));
}

#[test]
fn find_workfiles_leaves_out_entries_that_could_not_be_read() {
    let listing = vec![
        Err(IoFailure::new("stale handle")),
        Ok(entry("/w/shot_v001.nk", true)),
        Err(IoFailure::new("stale handle")),
    ];
    let files = TaskTreeNode::find_workfiles(Ok(listing), POSIX).unwrap();
    assert_eq!(files.len(), 1);
    assert_eq!(files[0].path, "/w/shot_v001.nk");
}

#[test]
fn task_paths_follow_the_separator_of_the_system() {
    let w = PathStyle::Windows;
    let t = task("comp", "C:\\p\\work\\comp");
    assert_eq!(t.get_work_path(w), "C:\\p\\work\\comp\\01_work");
    assert_eq!(t.create_folder("shots", w), "C:\\p\\work\\comp\\shots");
    assert_eq!(t.open_output(w).path, "C:\\p\\work\\comp\\02_output");
    assert_eq!(Dcc::template_in("C:\\t\\nuke", ".nk", w), "C:\\t\\nuke\\template.nk");
    let listing = vec![Ok(entry("C:\\p\\work\\comp\\01_work\\demo_comp_v003.nk", true))];
    let files = TaskTreeNode::find_workfiles(Ok(listing), w).unwrap();
    assert_eq!((files[0].name.as_str(), files[0].version), ("demo_comp", 3));
}
