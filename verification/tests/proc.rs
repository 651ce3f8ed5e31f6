use herdr_reviewr::proc::{appended_path, prepended_path};

const COMMON_BINS: [&str; 4] = ["/opt/homebrew/bin", "/usr/local/bin", "/usr/bin", "/bin"];

fn split(path: &str) -> Vec<String> {
    path.split(':').map(str::to_string).collect()
}

fn bins() -> Vec<String> {
    COMMON_BINS.iter().map(|b| b.to_string()).collect()
}

#[test]
fn prepended_path_puts_the_common_bins_in_front_of_the_inherited_path() {
    let got = prepended_path(Some("/usr/bin:/bin"));
    let mut expected = bins();
    expected.extend(["/usr/bin".to_string(), "/bin".to_string()]);
    assert_eq!(split(&got), expected);
}

#[test]
fn prepended_path_keeps_the_common_bins_when_nothing_is_inherited() {
    assert_eq!(split(&prepended_path(None)), bins());
    assert_eq!(prepended_path(Some("")), prepended_path(None));
}

#[test]
fn appended_path_leaves_the_users_own_entries_in_front() {
    let got = appended_path(Some("/me/.mise/shims:/usr/bin"));
    let mut expected = vec!["/me/.mise/shims".to_string(), "/usr/bin".to_string()];
    expected.extend(bins());
    assert_eq!(split(&got), expected);

    assert_eq!(split(&appended_path(None)), bins());

    // A set-but-empty PATH is the same as none.
    assert_eq!(appended_path(Some("")), appended_path(None));
}
