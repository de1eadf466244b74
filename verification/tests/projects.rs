use rclamp::paths::PathStyle;
use rclamp::clients::{Client, DUPLICATE_CLIENT};
use rclamp::failure::IoFailure;
use rclamp::order::{reversed, sort_ascending, sort_descending, Ranked};
use rclamp::projects::{copy_projects, Project};
use rclamp::text::Rank;

const POSIX: PathStyle = PathStyle::Posix;

fn strings(v: &[&str]) -> Vec<String> {
    v.iter().map(|s| String::from(*s)).collect()
}

fn project(name: &str) -> Project {
    Project::new(
        String::from(name),
        String::from("/projects"),
        String::from("00_pipeline"),
        String::from("02_work"),
        String::from("03_dailies"),
        String::from("04_deliveries"),
        strings(&["01_preproduction", "05_misc"]),
        strings(&["01_work", "02_output", "03_assets"]),
    )
}

fn client(name: &str, short_name: &str) -> Client {
    Client { name: String::from(name), short_name: String::from(short_name) }
}

#[test]
fn new_project_derives_the_directory_name() {
    let p = project("My Film: Part 2");
    assert_eq!(p.name, "My Film: Part 2");
    assert_eq!(p.name_sanitized, "myfilmpart2");
    assert_eq!(p.pipeline_dir_name, "00_pipeline");
    assert_eq!(p.work_dir_name, "02_work");
    assert_eq!(p.dailies_dir_name, "03_dailies");
    assert_eq!(p.deliveries_dir_name, "04_deliveries");
    assert_eq!(p.extra_dir_names, strings(&["01_preproduction", "05_misc"]));
    assert_eq!(p.work_sub_dirs, strings(&["01_work", "02_output", "03_assets"]));
}

#[test]
fn project_paths_lie_under_the_projects_directory() {
    let p = project("Demo");
    assert_eq!(p.get_path("/projects", POSIX), "/projects/demo");
    assert_eq!(p.get_work_path("/projects", POSIX), "/projects/demo/02_work");
    assert_eq!(p.get_dailies_path("/projects", POSIX), "/projects/demo/03_dailies");
    assert_eq!(p.get_deliveries_path("/projects", POSIX), "/projects/demo/04_deliveries");
    assert_eq!(p.get_pipeline_path("/projects", POSIX), "/projects/demo/00_pipeline");
    assert_eq!(p.get_path("/projects/", POSIX), "/projects/demo");
    assert_eq!(p.get_work_path("", POSIX), "demo/02_work");
    assert_eq!(Project::descriptor_in("/projects/demo", POSIX), "/projects/demo/project.yaml");
}

#[test]
fn create_plans_the_directories_in_order() {
    let plan = project("Demo").create("/projects", POSIX);
    assert_eq!(
        plan.directories,
        strings(&[
            "/projects/demo",
            "/projects/demo/03_dailies",
            "/projects/demo/04_deliveries",
            "/projects/demo/02_work",
            "/projects/demo/01_preproduction",
            "/projects/demo/05_misc",
        ])
    );
    assert_eq!(plan.descriptor_path, "/projects/demo/project.yaml");
}

#[test]
fn create_under_a_relative_directory_stays_inside_the_project() {
    let plan = project("Demo").create("projects", POSIX);
    assert_eq!(plan.directories[0], "projects/demo");
    assert_eq!(plan.directories[1], "projects/demo/03_dailies");
    assert_eq!(plan.directories[4], "projects/demo/01_preproduction");
}

#[test]
fn find_projects_on_an_empty_root_finds_none() {
    assert_eq!(Project::find_projects(Ok(Vec::new())), Ok(Vec::new()));
}

#[test]
fn find_projects_leaves_out_entries_without_a_descriptor() {
    let found = Project::find_projects(Ok(vec![None, Some(project("Demo"))])).unwrap();
    assert_eq!(found, vec![project("Demo")]);
}

#[test]
fn find_projects_sorts_by_name() {
    let found = Project::find_projects(Ok(vec![
        Some(project("zeta")),
        None,
        Some(project("Alpha")),
        Some(project("beta")),
        None,
        Some(project("alpha")),
    ]))
    .unwrap();
    let names: Vec<&str> = found.iter().map(|p| p.name.as_str()).collect();
    assert_eq!(names, vec!["Alpha", "alpha", "beta", "zeta"]);
}

#[test]
fn find_projects_passes_a_failed_listing_on() {
    let e = IoFailure::new("no such directory");
    assert_eq!(Project::find_projects(Err(e.clone())), Err(e));
}

#[test]
fn projects_rank_by_name_then_by_the_further_fields() {
    let a = project("a");
    let b = project("b");
    assert_eq!(a.rank(&b), Rank::Before);
    assert_eq!(b.rank(&a), Rank::After);
    assert_eq!(a.rank(&a.clone()), Rank::Same);
    let mut a2 = project("a");
    a2.work_sub_dirs = strings(&["01_work", "02_output"]);
    assert_eq!(a2.rank(&a), Rank::Before);
    let mut a3 = project("a");
    a3.dailies_dir_name = String::from("99_dailies");
    assert_eq!(a.rank(&a3), Rank::Before);
}

#[test]
fn sort_and_reverse_keep_every_element() {
    let v = vec![project("c"), project("a"), project("b"), project("a")];
    let up: Vec<String> = sort_ascending(copy_projects(&v)).into_iter().map(|p| p.name).collect();
    assert_eq!(up, strings(&["a", "a", "b", "c"]));
    let down: Vec<String> = sort_descending(copy_projects(&v)).into_iter().map(|p| p.name).collect();
    assert_eq!(down, strings(&["c", "b", "a", "a"]));
    assert_eq!(reversed(vec![1, 2, 3]), vec![3, 2, 1]);
    assert_eq!(reversed(Vec::<u8>::new()), Vec::<u8>::new());
}

#[test]
fn open_folders_of_a_project() {
    let p = project("Demo");
    let d = p.open_dailies_folder("/projects", PathStyle::Posix);
    assert_eq!((d.path.as_str(), d.program.as_str()), ("/projects/demo/03_dailies", "finder"));
    let v = p.open_deliveries_folder("P:\\projects", PathStyle::Windows);
    assert_eq!(
        (v.path.as_str(), v.program.as_str()),
        ("P:\\projects\\demo\\04_deliveries", "explorer")
    );
}

#[test]
fn add_client_sanitizes_the_short_name() {
    let list = vec![client("Acme Corp", "acme")];
    let out = Client::add_client(&String::from("Big Studio"), &String::from("Big-St!"), Ok(list));
    assert_eq!(out, Ok(vec![client("Acme Corp", "acme"), client("Big Studio", "big_st")]));
}

#[test]
fn add_client_refuses_a_duplicate() {
    let list = || vec![client("Acme Corp", "acme")];
    let same_name = Client::add_client(&String::from("Acme Corp"), &String::from("ac"), Ok(list()));
    assert_eq!(same_name, Err(String::from("Client with same name already exists.")));
    let same_short = Client::add_client(&String::from("Other"), &String::from("ACME"), Ok(list()));
    assert_eq!(same_short, Err(String::from(DUPLICATE_CLIENT)));
}

#[test]
fn add_client_passes_a_failed_read_on() {
    let out = Client::add_client(
        &String::from("a"),
        &String::from("b"),
        Err(String::from("Failed to open file clients.yaml: not found")),
    );
    assert_eq!(out, Err(String::from("Failed to open file clients.yaml: not found")));
}

#[test]
fn check_for_duplicate_clients_looks_at_both_names() {
    let list = vec![client("Acme Corp", "acme"), client("Big Studio", "big")];
    assert!(Client::check_for_duplicate_clients(&list, &client("Big Studio", "x")));
    assert!(Client::check_for_duplicate_clients(&list, &client("x", "acme")));
    assert!(!Client::check_for_duplicate_clients(&list, &client("acme", "Acme Corp")));
    assert!(!Client::check_for_duplicate_clients(&Vec::new(), &client("", "")));
}

#[test]
fn remove_client_drops_every_client_of_that_name() {
    let list = vec![
        client("Acme Corp", "acme"),
        client("Big Studio", "big"),
        client("Acme Corp", "acme2"),
    ];
    let out = Client::remove_client(&client("Acme Corp", "whatever"), Ok(list));
    assert_eq!(out, Ok(vec![client("Big Studio", "big")]));
    let none = Client::remove_client(&client("x", ""), Ok(vec![client("y", "")]));
    assert_eq!(none, Ok(vec![client("y", "")]));
    assert_eq!(
        Client::remove_client(&client("x", ""), Err(String::from("unreadable"))),
        Err(String::from("unreadable"))
    );
    assert_eq!(Client::removal_failed("disk full"), "Failed remove client: disk full");
}

#[test]
fn project_paths_follow_the_separator_of_the_system() {
    let p = project("Demo");
    assert_eq!(p.get_path("P:\\projects", PathStyle::Windows), "P:\\projects\\demo");
    assert_eq!(p.get_work_path("P:\\projects\\", PathStyle::Windows), "P:\\projects\\demo\\02_work");
    assert_eq!(p.get_work_path("P:/projects/", PathStyle::Windows), "P:/projects/demo\\02_work");
    let plan = p.create("P:\\projects", PathStyle::Windows);
    assert_eq!(plan.directories[0], "P:\\projects\\demo");
    assert_eq!(plan.directories[4], "P:\\projects\\demo\\01_preproduction");
    assert_eq!(plan.descriptor_path, "P:\\projects\\demo\\project.yaml");
}
