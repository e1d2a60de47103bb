use cover::locate::package_dir_from_output;

#[test]
fn manifest_path_is_trimmed_to_its_directory() {
    assert_eq!(
        package_dir_from_output("/home/u/proj/Cargo.toml\n"),
        "/home/u/proj"
    );
    assert_eq!(package_dir_from_output("proj/Cargo.toml"), "proj");
}

#[test]
fn root_manifest_keeps_the_root() {
    assert_eq!(package_dir_from_output("/Cargo.toml\n"), "/");
}

#[test]
fn bare_manifest_name_leaves_nothing() {
    assert_eq!(package_dir_from_output("Cargo.toml\n"), "");
    assert_eq!(package_dir_from_output(""), "");
}
