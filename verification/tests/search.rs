use nexoravm::search::{
    configured_qemu_parent, join_candidate, join_candidates, qemu_img_search_candidates, qemu_search_candidates,
};

fn parts(items: &[&str]) -> Vec<String> {
    items.iter().map(|s| s.to_string()).collect()
}

#[test]
fn qemu_is_looked_for_under_program_files_then_path() {
    let roots = parts(&["C:\\Program Files", "C:\\Program Files (x86)"]);
    let dirs = parts(&["/usr/bin"]);
    let found = qemu_search_candidates(&roots, &dirs);
    assert_eq!(
        found,
        vec![
            parts(&["C:\\Program Files", "qemu", "qemu-system-x86_64.exe"]),
            parts(&["C:\\Program Files", "qemu", "qemu-system-x86_64"]),
            parts(&["C:\\Program Files (x86)", "qemu", "qemu-system-x86_64.exe"]),
            parts(&["C:\\Program Files (x86)", "qemu", "qemu-system-x86_64"]),
            parts(&["/usr/bin", "qemu-system-x86_64.exe"]),
            parts(&["/usr/bin", "qemu-system-x86_64"]),
        ]
    );
    assert!(qemu_search_candidates(&Vec::new(), &Vec::new()).is_empty());
}

#[test]
fn qemu_img_is_looked_for_beside_qemu_first() {
    let found = qemu_img_search_candidates(
        &Some("D:\\qemu".to_string()),
        &parts(&["C:\\Program Files"]),
        &parts(&["/bin"]),
    );
    assert_eq!(
        found,
        vec![
            parts(&["D:\\qemu", "qemu-img.exe"]),
            parts(&["D:\\qemu", "qemu-img"]),
            parts(&["C:\\Program Files", "qemu", "qemu-img.exe"]),
            parts(&["/bin", "qemu-img.exe"]),
            parts(&["/bin", "qemu-img"]),
        ]
    );
    let without_parent = qemu_img_search_candidates(&None, &Vec::new(), &parts(&["/bin"]));
    assert_eq!(without_parent, vec![parts(&["/bin", "qemu-img.exe"]), parts(&["/bin", "qemu-img"])]);
}

#[test]
fn candidates_are_joined_as_std_joins_paths() {
    assert_eq!(join_candidate(&parts(&["/usr", "bin", "qemu-img"])), "/usr/bin/qemu-img");
    assert_eq!(join_candidate(&parts(&["/opt/"])), "/opt/");
    assert_eq!(join_candidate(&Vec::new()), "");
    let joined = join_candidates(&qemu_search_candidates(&parts(&["/pf"]), &parts(&["/bin"])));
    assert_eq!(
        joined,
        vec![
            "/pf/qemu/qemu-system-x86_64.exe",
            "/pf/qemu/qemu-system-x86_64",
            "/bin/qemu-system-x86_64.exe",
            "/bin/qemu-system-x86_64",
        ]
    );
}

#[test]
fn configured_parent_is_the_directory_of_the_trimmed_path() {
    assert_eq!(
        configured_qemu_parent(&Some("  /opt/qemu/qemu-system-x86_64 ".to_string())),
        Some("/opt/qemu".to_string())
    );
    assert_eq!(configured_qemu_parent(&Some("qemu".to_string())), Some(String::new()));
    assert_eq!(configured_qemu_parent(&Some("/".to_string())), None);
    assert_eq!(configured_qemu_parent(&None), None);
}
