use vestige_sync::template::{
    expand_filename, expand_filename_with, os_release_id, platform_of, PlaceholderValues,
    UnknownPlaceholder,
};

const OS: &str = "linux";

fn vals(hostname: &str, os: &str, user: &str) -> PlaceholderValues {
    PlaceholderValues {
        hostname: hostname.to_string(),
        os: os.to_string(),
        platform: os.to_string(),
        distro: "fedora".to_string(),
        user: user.to_string(),
    }
}

#[test]
fn literal_string_unchanged() {
    assert_eq!(expand_filename("my-desktop", OS, None, None).unwrap(), "my-desktop");
}

#[test]
fn expands_os() {
    let result = expand_filename("{os}", OS, None, None).unwrap();
    assert_eq!(result, OS);
}

#[test]
fn expands_user() {
    let result = expand_filename("{user}", OS, None, None).unwrap();
    // Where the user database has no entry, the expansion falls back to "unknown".
    let expected = whoami::username().unwrap_or_else(|_| "unknown".to_string());
    assert_eq!(result, expected);
}

#[test]
fn expands_hostname() {
    let result = expand_filename("{hostname}", OS, None, None).unwrap();
    let expected = hostname::get().unwrap().to_string_lossy().into_owned();
    assert_eq!(result, expected);
}

#[test]
fn expands_multiple() {
    let result = expand_filename("{hostname}-{os}", OS, None, None).unwrap();
    let expected = format!("{}-{}", hostname::get().unwrap().to_string_lossy(), OS);
    assert_eq!(result, expected);
}

#[test]
fn unknown_placeholder_errors() {
    let err = expand_filename("{foo}", OS, None, None).unwrap_err();
    assert_eq!(err.name, "foo");
    assert!(err.message().contains("unknown template placeholder"));
}

#[test]
fn mixed_known_and_unknown_errors() {
    let err = expand_filename("{hostname}-{bogus}", OS, None, None).unwrap_err();
    assert_eq!(err.name, "bogus");
}

#[test]
fn bare_braces_ignored() {
    // Unmatched braces or empty {} are left alone
    assert_eq!(expand_filename("hello{world", OS, None, None).unwrap(), "hello{world");
    assert_eq!(expand_filename("hello{}world", OS, None, None).unwrap(), "hello{}world");
}

#[test]
fn expand_with_given_values() {
    let r = expand_filename_with("{hostname}-{os}-{user}", &vals("box", "linux", "ann")).unwrap();
    assert_eq!(r, "box-linux-ann");
    let r = expand_filename_with("{user}{user}", &vals("box", "linux", "ann")).unwrap();
    assert_eq!(r, "annann");
    // A host name holding a later placeholder is replaced too, as str::replace in turn does.
    let r = expand_filename_with("{hostname}", &vals("{os}", "linux", "ann")).unwrap();
    assert_eq!(r, "linux");
}

#[test]
fn unknown_placeholder_message_text() {
    let e = UnknownPlaceholder { name: "foo".to_string() };
    assert_eq!(
        e.message(),
        "unknown template placeholder '{foo}'. Valid placeholders: {hostname}, {os}, {platform}, {distro}, {user}"
    );
}

#[test]
fn placeholder_scanning_edge_cases() {
    let e = expand_filename_with("{{foo}", &vals("h", "o", "u")).unwrap_err();
    assert_eq!(e.name, "{foo");
    let e = expand_filename_with("{}{x}", &vals("h", "o", "u")).unwrap_err();
    assert_eq!(e.name, "x");
    let e = expand_filename_with("{os}{OS}", &vals("h", "o", "u")).unwrap_err();
    assert_eq!(e.name, "OS");
    assert_eq!(expand_filename_with("}{os", &vals("h", "o", "u")).unwrap(), "}{os");
    assert_eq!(expand_filename_with("", &vals("h", "o", "u")).unwrap(), "");
}

#[test]
fn expands_platform_and_distro() {
    assert_eq!(expand_filename("{platform}", OS, None, None).unwrap(), "linux");
    let wsl = Some("Linux version 5.15.90.1-microsoft-standard-WSL2 (gcc)");
    assert_eq!(expand_filename("{platform}", OS, wsl, None).unwrap(), "wsl");
    assert_eq!(expand_filename("{platform}", "macos", wsl, None).unwrap(), "macos");
    let osr = Some("NAME=\"Fedora Linux\"\nID=fedora\nVERSION_ID=40\n");
    assert_eq!(expand_filename("{distro}", OS, None, osr).unwrap(), "fedora");
    assert_eq!(expand_filename("{distro}", OS, None, None).unwrap(), "unknown");
    assert_eq!(expand_filename("{os}-{platform}-{distro}", OS, wsl, osr).unwrap(), "linux-wsl-fedora");
}

#[test]
fn platform_names_wsl_only_on_linux() {
    assert_eq!(platform_of("linux", None), "linux");
    assert_eq!(platform_of("linux", Some("Linux version 6.8.0 (gcc) #1 SMP")), "linux");
    assert_eq!(platform_of("linux", Some("4.4.0-19041-Microsoft")), "wsl");
    assert_eq!(platform_of("linux", Some("5.15-microsoft-standard")), "wsl");
    assert_eq!(platform_of("windows", Some("Microsoft")), "windows");
    assert_eq!(platform_of("linux", Some("MICROSOFT")), "linux");
}

#[test]
fn os_release_id_reads_the_id_line() {
    assert_eq!(os_release_id("NAME=Fedora\nID=fedora\n"), Some("fedora".to_string()));
    assert_eq!(os_release_id("ID=\"ubuntu\"\nVERSION_ID=\"22.04\""), Some("ubuntu".to_string()));
    assert_eq!(os_release_id("ID='arch'"), Some("arch".to_string()));
    assert_eq!(os_release_id("VERSION_ID=40\nID_LIKE=debian\n"), None);
    assert_eq!(os_release_id("ID_LIKE=debian\nID=pop\n"), Some("pop".to_string()));
    assert_eq!(os_release_id(""), None);
    assert_eq!(os_release_id("ID="), Some("".to_string()));
    assert_eq!(os_release_id("ID=\""), Some("\"".to_string()));
}

#[test]
fn expand_with_platform_and_distro_values() {
    let v = PlaceholderValues {
        hostname: "box".to_string(),
        os: "linux".to_string(),
        platform: "wsl".to_string(),
        distro: "debian".to_string(),
        user: "ann".to_string(),
    };
    assert_eq!(expand_filename_with("{platform}_{distro}", &v).unwrap(), "wsl_debian");
    assert_eq!(expand_filename_with("{distro}{platform}{distro}", &v).unwrap(), "debianwsldebian");
}
