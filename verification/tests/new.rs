use muxed::muxednew;
use muxed::new::{modified_template, project_text, NewError, DEFAULT_TEMPLATE};
use std::path::{Path, PathBuf};

static TEST_TEMPLATE: &str = "file: {file}\nproject: {project}";

fn file_replacement(path: &Path) -> (&str, &str) {
    ("{file}", path.to_str().unwrap())
}

#[test]
fn expect_muxed_file_text() {
    let file = PathBuf::from("~/.muxed").join("superProject");
    let value = modified_template(TEST_TEMPLATE, &[file_replacement(&file)]);
    assert!(value.contains("file: ~/.muxed/superProject"));
    assert!(value.contains("project: {project}"));
}

#[test]
fn lib_expect_muxed_project_text() {
    let value = modified_template(TEST_TEMPLATE, &[("{project}", "superProject")]);
    assert!(value.contains("project: superProject"));
}

#[test]
fn lib_expect_no_file_name_placeholder() {
    let file = PathBuf::from("~/.my_dir").join("superProject");
    let value = modified_template(TEST_TEMPLATE, &[file_replacement(&file)]);
    let result = !value.contains("{file}");
    assert!(result);
}

#[test]
fn lib_expect_project_name_with_dir() {
    let file = PathBuf::from("~/.my_dir").join("superProject.yml");
    let value = modified_template(TEST_TEMPLATE, &[file_replacement(&file)]);
    let result = value.contains("file: ~/.my_dir/superProject.yml");
    assert!(result);
}

#[test]
fn lib_expect_project_name_with_dir_and_trailing_slash() {
    let file = PathBuf::from("~/.my_dir/").join("superProject.yml");
    let value = modified_template(TEST_TEMPLATE, &[file_replacement(&file)]);
    let result = value.contains("file: ~/.my_dir/superProject.yml");
    assert!(result);
}

#[test]
fn main_expect_muxed_project_text() {
    let file = PathBuf::from("~/.muxed").join("superProject");
    let value = muxednew::modified_template(muxednew::TEMPLATE, file.to_str().unwrap());
    let result = value.contains("superProject");
    assert!(result);
}

#[test]
fn expect_muxed_dir_text() {
    let file = PathBuf::from("~/.muxed").join("superProject");
    let value = muxednew::modified_template(muxednew::TEMPLATE, file.to_str().unwrap());
    let result = value.contains("~/.muxed/");
    assert!(result);
}

#[test]
fn main_expect_no_file_name_placeholder() {
    let file = PathBuf::from("~/.my_dir").join("superProject");
    let value = muxednew::modified_template(muxednew::TEMPLATE, file.to_str().unwrap());
    let result = !value.contains("{file}");
    assert!(result);
}

#[test]
fn main_expect_project_name_with_dir() {
    let file = PathBuf::from("~/.my_dir").join("superProject.yml");
    let value = muxednew::modified_template(muxednew::TEMPLATE, file.to_str().unwrap());
    let result = value.contains("# ~/.my_dir/superProject.yml");
    assert!(result);
}

#[test]
fn main_expect_project_name_with_dir_and_trailing_slash() {
    let file = PathBuf::from("~/.my_dir/").join("superProject.yml");
    let value = muxednew::modified_template(muxednew::TEMPLATE, file.to_str().unwrap());
    let result = value.contains("# ~/.my_dir/superProject.yml");
    assert!(result);
}

#[test]
fn replacements_apply_in_turn_and_to_every_occurrence() {
    let value = modified_template("{a}{a}-{b}", &[("{a}", "x{b}"), ("{b}", "y")]);
    assert_eq!(value, "xyxy-y");
    let value = modified_template("aaa", &[("aa", "b")]);
    assert_eq!(value, "ba");
    let value = modified_template("ab", &[("", "-")]);
    assert_eq!(value, "-a-b-");
    let value = modified_template("", &[("", "-")]);
    assert_eq!(value, "-");
    let value = modified_template("unchanged", &[]);
    assert_eq!(value, "unchanged");
}

#[test]
fn project_text_uses_the_default_template_unless_given_one() {
    let text = project_text(&None, "/p/x.yml", "x");
    assert!(text.starts_with("# /p/x.yml"));
    assert!(!text.contains("{project}"));
    assert_eq!(text, DEFAULT_TEMPLATE.replace("{file}", "/p/x.yml").replace("{project}", "x"));
    let own = project_text(&Some("This is a fake template file. {file} {project}".to_string()), "f", "p");
    assert_eq!(own, "This is a fake template file. f p");
}

#[test]
fn new_error_messages() {
    assert_eq!(NewError::Write("w".to_string()).message(), "Template write error: w");
    assert_eq!(NewError::Template("t".to_string()).message(), "Template error: t");
    assert_eq!(NewError::Io("i".to_string()).message(), "i");
}
