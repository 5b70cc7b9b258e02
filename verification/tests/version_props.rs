use neatkube::version::sort_versions;
use neatkube::version::version_le_exec;
use neatkube::tool::versions_from_entries;

fn strings(xs: &[&str]) -> Vec<String> {
    xs.iter().map(|x| x.to_string()).collect()
}

#[test]
fn numeric_aware_ordering() {
    // Numeric runs compare by magnitude, not character by character.
    assert!(version_le_exec("v1.9.3", "v1.10.0"));
    assert!(!version_le_exec("v1.10.0", "v1.9.3"));
    assert!(version_le_exec("v1.2.0", "v1.10.0"));
    assert!(version_le_exec("1.2", "1.2"));
    assert!(version_le_exec("1.2", "1.2.0"));
    assert!(!version_le_exec("1.2.0", "1.2"));
}

#[test]
fn text_runs_compare_lexicographically() {
    assert!(version_le_exec("1.0-alpha", "1.0-beta"));
    assert!(!version_le_exec("1.0-beta", "1.0-alpha"));
    // A number token sorts before a text token.
    assert!(version_le_exec("1.2", "1.x"));
    assert!(!version_le_exec("1.x", "1.2"));
}

#[test]
fn prereleases_sort_below_their_release() {
    assert!(version_le_exec("v1.0.0-alpha", "v1.0.0"));
    assert!(!version_le_exec("v1.0.0", "v1.0.0-alpha"));
    assert!(version_le_exec("v1.0.0-rc1", "v1.0.0"));
    assert!(version_le_exec("v1.0.0.rc2", "v1.0.0"));
    assert!(version_le_exec("v1.0.0-beta", "v1.0.0-rc1"));
    // Any other extension of a common prefix sorts above the bare version.
    assert!(version_le_exec("v1.0.0", "v1.0.0.1"));
    assert!(!version_le_exec("v1.0.0.1", "v1.0.0"));
    assert!(version_le_exec("v1.0.0", "v1.0.0x"));
    // A pre-release of a later version still sorts above an earlier release.
    assert!(version_le_exec("v1.0.0", "v1.0.1-rc1"));
}

#[test]
fn sorting_puts_prereleases_before_the_release() {
    let sorted = sort_versions(strings(&["v1.0.0", "v1.0.0-rc1", "v1.0.0-alpha"]));
    let views: Vec<&str> = sorted.iter().map(|s| s.as_str()).collect();
    assert_eq!(views, vec!["v1.0.0-alpha", "v1.0.0-rc1", "v1.0.0"]);
}

#[test]
fn leading_zeros_do_not_inflate_magnitude() {
    assert!(version_le_exec("v007", "v8"));
    assert!(!version_le_exec("v10", "v009"));
    // Equal magnitudes with different zero padding read as equal: both
    // directions hold.
    assert!(version_le_exec("v01", "v1"));
    assert!(version_le_exec("v1", "v01"));
}

#[test]
fn sorted_versions_end_with_the_maximum() {
    // The installed-version example: the maximum under semantic-version
    // ordering is v1.10.0, not the lexicographic maximum v1.9.3.
    let sorted = sort_versions(strings(&["v1.2.0", "v1.10.0", "v1.9.3"]));
    let views: Vec<&str> = sorted.iter().map(|s| s.as_str()).collect();
    assert_eq!(views, vec!["v1.2.0", "v1.9.3", "v1.10.0"]);
    assert_eq!(sorted.last().unwrap().as_str(), "v1.10.0");
}

#[test]
fn sorting_keeps_every_element() {
    let sorted = sort_versions(strings(&["3", "1", "2", "2"]));
    let views: Vec<&str> = sorted.iter().map(|s| s.as_str()).collect();
    assert_eq!(views, vec!["1", "2", "2", "3"]);
}

#[test]
fn entries_without_the_binary_are_excluded() {
    // A version directory that exists but misses the tool binary must not
    // count as installed.
    let entries = vec![
        ("v1.2.0".to_string(), true),
        ("v9.9.9".to_string(), false),
        ("v1.10.0".to_string(), true),
    ];
    let versions = versions_from_entries(entries);
    let views: Vec<&str> = versions.iter().map(|s| s.as_str()).collect();
    assert_eq!(views, vec!["v1.2.0", "v1.10.0"]);
}

#[test]
fn no_installed_entries_mean_no_versions() {
    let entries = vec![("v1.0.0".to_string(), false)];
    let versions = versions_from_entries(entries);
    assert!(versions.is_empty());
}
