use junco_launcher_utils::filesystem::HomeExpansion;
use junco_launcher_utils::filesystem::RemoveOptions;
use junco_launcher_utils::filesystem::WriteOptions;
use junco_launcher_utils::filesystem::classify_home_path;
use junco_launcher_utils::filesystem::dir_exists;
use junco_launcher_utils::filesystem::file_exists;

#[test]
fn write_options_default_overwrites() {
    let options = WriteOptions::default();
    assert!(options.overwrite);
}

#[test]
fn remove_options_default_is_not_recursive() {
    let options = RemoveOptions::default();
    assert!(!options.recursive);
}

#[test]
fn current_directory_exists_as_directory() {
    assert!(dir_exists("."));
    assert!(!file_exists("."));
}

#[test]
fn nonexistent_path_exists_as_neither() {
    let path = "surely/not/a/path/that/exists/here";
    assert!(!dir_exists(path));
    assert!(!file_exists(path));
}

#[test]
fn empty_path_expands_to_empty() {
    assert_eq!(classify_home_path(""), HomeExpansion::EmptyInput);
}

#[test]
fn path_without_tilde_is_kept_verbatim() {
    assert_eq!(classify_home_path("/tmp/file.txt"), HomeExpansion::Verbatim);
    assert_eq!(classify_home_path("relative/path"), HomeExpansion::Verbatim);
}

#[test]
fn bare_tilde_is_the_home_directory() {
    assert_eq!(classify_home_path("~"), HomeExpansion::HomeItself);
}

#[test]
fn tilde_with_separator_goes_under_home() {
    assert_eq!(classify_home_path("~/downloads/file"), HomeExpansion::UnderHome);
    assert_eq!(classify_home_path("~\\downloads"), HomeExpansion::UnderHome);
}

#[test]
fn tilde_user_is_unsupported() {
    assert_eq!(classify_home_path("~user/file"), HomeExpansion::Unsupported);
}
