use muxed::args::Args;
use muxed::paths::join_path;
use muxed::project_paths::ProjectPaths;

fn paths(args: &Args) -> ProjectPaths {
    ProjectPaths::from_args_with_home(args, "/tmp")
}

#[test]
fn expects_tmp_as_default_homedir() {
    let args: Args = Default::default();
    let project_paths = paths(&args);
    assert_eq!(project_paths.home_directory, "/tmp")
}

#[test]
fn expects_muxed_as_default_project_dir() {
    let args: Args = Default::default();
    let project_paths = paths(&args);
    assert_eq!(project_paths.project_directory, "/tmp/.muxed")
}

#[test]
fn expects_template_as_default_template_filename() {
    let args: Args = Default::default();
    let project_paths = paths(&args);
    assert_eq!(project_paths.template_file, "/tmp/.muxed/.template.yml")
}

#[test]
fn expects_spacey_as_project_dir() {
    let args = Args { flag_p: Some("/spacey".to_string()), ..Default::default() };
    let project_paths = paths(&args);
    assert_eq!(project_paths.project_directory, "/spacey")
}

#[test]
fn expects_projectname_as_yml_file() {
    let args = Args { arg_project: "projectname".to_string(), ..Default::default() };
    let project_paths = paths(&args);
    assert_eq!(project_paths.project_file, "/tmp/.muxed/projectname.yml")
}

#[test]
fn expects_template_as_yml_file() {
    let args = Args { flag_template: Some("custom_template".to_string()), ..Default::default() };
    let project_paths = paths(&args);
    assert_eq!(project_paths.template_file, "/tmp/.muxed/custom_template.yml")
}

#[test]
fn from_strs_joins_onto_the_home_directory() {
    let paths = ProjectPaths::from_strs("/tmp", "/tmp/.muxed", "/tmp/.muxed/projectname.yml", "/tmp/.muxed/.template.yml");
    assert_eq!(paths.home_directory, "/tmp");
    assert_eq!(paths.project_directory, "/tmp/.muxed");
    assert_eq!(paths.project_file, "/tmp/.muxed/projectname.yml");
    assert_eq!(paths.template_file, "/tmp/.muxed/.template.yml");

    let paths = ProjectPaths::from_strs("/home/u", ".muxed", "proj", "tpl.old");
    assert_eq!(paths.project_directory, "/home/u/.muxed");
    assert_eq!(paths.project_file, "/home/u/.muxed/proj.yml");
    assert_eq!(paths.template_file, "/home/u/.muxed/tpl.yml");
}

#[test]
fn default_args_have_a_numeric_project_name() {
    let args = Args::default();
    assert!(args.cmd_new && args.flag_d && !args.flag_f);
    assert!(!args.arg_project.is_empty());
    assert!(args.arg_project.parse::<u16>().is_ok());
}

#[test]
fn joining_paths() {
    assert_eq!(join_path("/a", "b"), "/a/b");
    assert_eq!(join_path("/a/", "b"), "/a/b");
    assert_eq!(join_path("/a", "/b"), "/b");
    assert_eq!(join_path("", "b"), "b");
    assert_eq!(join_path("a", ""), "a/");
}

#[test]
fn from_args_uses_a_home_directory() {
    let args = Args { arg_project: "p".to_string(), flag_p: Some("/x".to_string()), ..Default::default() };
    if let Ok(paths) = ProjectPaths::from_args(&args) {
        assert_eq!(paths.project_file, "/x/p.yml");
    }
}
