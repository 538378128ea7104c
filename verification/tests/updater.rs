use motu_mk5::updater::{
    deb_arch, extension_of, install_command, is_newer, is_yes, package_format, package_suffix_for,
    parse_release, parse_version, plan_update, PackageFormat, Release, UpdateError, UpdatePlan,
};

#[test]
fn versions_are_read_as_triples() {
    assert_eq!(parse_version("v1.2.3"), (1, 2, 3));
    assert_eq!(parse_version("0.10"), (0, 10, 0));
    assert_eq!(parse_version("v2.x.5"), (2, 5, 0));
    assert_eq!(parse_version(""), (0, 0, 0));
    assert_eq!(parse_version("v4294967296.1"), (1, 0, 0));
}

#[test]
fn newer_compares_major_minor_patch() {
    assert!(is_newer("v0.6.0", "0.5.1"));
    assert!(is_newer("0.5.10", "0.5.9"));
    assert!(!is_newer("0.5.1", "v0.5.1"));
    assert!(!is_newer("0.4.9", "0.5.0"));
    assert!(is_newer("1.0.0", "0.99.99"));
}

#[test]
fn debian_architecture_names() {
    assert_eq!(deb_arch("x86_64\n"), "amd64");
    assert_eq!(deb_arch(" aarch64 "), "arm64");
    assert_eq!(deb_arch("riscv64\n"), "riscv64");
}

#[test]
fn release_with_a_package_for_this_machine() {
    let body = r#"{"tag_name":"v0.6.0","assets":[
        {"name":"motu-mk5_0.6.0_arm64.deb","browser_download_url":"https://x/arm"},
        {"name":"motu-mk5_0.6.0_amd64.deb","browser_download_url":"https://x/amd"}]}"#;
    let rel = parse_release(body, "_amd64.deb").unwrap();
    assert_eq!(rel.version, "0.6.0");
    assert_eq!(rel.deb_name.as_deref(), Some("motu-mk5_0.6.0_amd64.deb"));
    assert_eq!(rel.deb_url.as_deref(), Some("https://x/amd"));
    let none = parse_release(body, "_riscv64.deb").unwrap();
    assert_eq!(none.version, "0.6.0");
    assert_eq!(none.deb_name, None);
    assert_eq!(none.deb_url, None);
}

#[test]
fn release_errors() {
    assert!(matches!(parse_release("<html>", "_amd64.deb"), Err(UpdateError::UnreadableResponse)));
    assert!(matches!(
        parse_release(r#"{"message":"API rate limit exceeded"}"#, "_amd64.deb"),
        Err(UpdateError::ApiError(m)) if m == "API rate limit exceeded"
    ));
    assert!(matches!(parse_release(r#"{"assets":[]}"#, "_amd64.deb"), Err(UpdateError::NoTagName)));
    assert!(matches!(parse_release("[1, 2]", "_amd64.deb"), Err(UpdateError::NoTagName)));
    assert!(matches!(parse_release(r#"{"tag_name": 7}"#, "_amd64.deb"), Err(UpdateError::NoTagName)));
}

#[test]
fn release_assets_that_are_not_a_list_offer_no_package() {
    let rel = parse_release(r#"{"tag_name":"0.7.1","assets":{"name":"x_amd64.deb"}}"#, "_amd64.deb").unwrap();
    assert_eq!(rel.version, "0.7.1");
    assert_eq!(rel.deb_name, None);
    let rel = parse_release(
        r#"{"tag_name":"v1.0.0","assets":[{"name":"motu-mk5_1.0.0_amd64.deb"},{"name":"b_amd64.deb","browser_download_url":"u"}]}"#,
        "_amd64.deb",
    )
    .unwrap();
    assert_eq!(rel.deb_name.as_deref(), Some("motu-mk5_1.0.0_amd64.deb"));
    assert_eq!(rel.deb_url, None);
}

#[test]
fn update_plans() {
    let newer = Release {
        version: "0.6.0".to_string(),
        deb_url: Some("https://x/motu.deb".to_string()),
        deb_name: Some("motu-mk5_0.6.0_amd64.deb".to_string()),
    };
    match plan_update(&newer, "0.5.1", PackageFormat::Deb) {
        UpdatePlan::Install { url, dest } => {
            assert_eq!(url, "https://x/motu.deb");
            assert_eq!(dest, "/tmp/motu-mk5_0.6.0_amd64.deb");
        }
        other => panic!("unexpected {other:?}"),
    }
    assert!(matches!(plan_update(&newer, "0.6.0", PackageFormat::Deb), UpdatePlan::UpToDate));
    let unnamed = Release { version: "1.0".to_string(), deb_url: Some("u".to_string()), deb_name: None };
    assert!(matches!(plan_update(&unnamed, "0.5.1", PackageFormat::Deb), UpdatePlan::Install { dest, .. } if dest == "/tmp/motu-mk5.deb"));
    let no_package = Release { version: "1.0".to_string(), deb_url: None, deb_name: None };
    assert!(matches!(plan_update(&no_package, "0.5.1", PackageFormat::Deb), UpdatePlan::NoPackage));
    assert!(is_yes("y\n"));
    assert!(is_yes(" Y "));
    assert!(!is_yes("yes\n"));
    assert!(!is_yes("\n"));
}

#[test]
fn package_format_follows_os_release() {
    assert_eq!(package_format(None), PackageFormat::Deb);
    assert_eq!(package_format(Some("ID=ubuntu\nVERSION_ID=\"24.04\"\n")), PackageFormat::Deb);
    assert_eq!(
        package_format(Some("NAME=\"Pop!_OS\"\nID=pop\nID_LIKE=\"ubuntu debian\"\n")),
        PackageFormat::Deb
    );
    assert_eq!(package_format(Some("ID=fedora\n")), PackageFormat::Rpm);
    assert_eq!(
        package_format(Some("ID=\"rocky\"\nID_LIKE=\"rhel centos fedora\"\n")),
        PackageFormat::Rpm
    );
    assert_eq!(package_format(Some("ID=arch\n")), PackageFormat::Arch);
    assert_eq!(package_format(Some("ID=manjaro\nID_LIKE=arch\n")), PackageFormat::Arch);
    assert_eq!(package_format(Some("ID=nixos\n")), PackageFormat::Deb);
    assert_eq!(package_format(Some("VERSION_ID=fedora\nID_LIKE=\"  fedora\"\n")), PackageFormat::Rpm);
}

#[test]
fn package_names_per_format() {
    assert_eq!(package_suffix_for(PackageFormat::Deb, "x86_64\n"), "_amd64.deb");
    assert_eq!(package_suffix_for(PackageFormat::Deb, "aarch64\n"), "_arm64.deb");
    assert_eq!(package_suffix_for(PackageFormat::Rpm, "x86_64\n"), ".x86_64.rpm");
    assert_eq!(package_suffix_for(PackageFormat::Arch, "aarch64\n"), "-aarch64.pkg.tar.zst");
    assert_eq!(extension_of(PackageFormat::Arch), ".pkg.tar.zst");
    assert_eq!(install_command(PackageFormat::Deb), vec!["sudo", "dpkg", "-i"]);
    assert_eq!(install_command(PackageFormat::Rpm), vec!["sudo", "dnf", "install"]);
    assert_eq!(install_command(PackageFormat::Arch), vec!["sudo", "pacman", "-U"]);
    let body = r#"{"tag_name":"v0.6.0","assets":[
        {"name":"motu-mk5_0.6.0-1_amd64.deb","browser_download_url":"https://x/deb"},
        {"name":"motu-mk5-0.6.0-1.x86_64.rpm","browser_download_url":"https://x/rpm"},
        {"name":"motu-mk5-0.6.0-1-x86_64.pkg.tar.zst","browser_download_url":"https://x/arch"}]}"#;
    let rpm = parse_release(body, &package_suffix_for(PackageFormat::Rpm, "x86_64")).unwrap();
    assert_eq!(rpm.deb_url.as_deref(), Some("https://x/rpm"));
    let arch = parse_release(body, &package_suffix_for(PackageFormat::Arch, "x86_64")).unwrap();
    assert_eq!(arch.deb_url.as_deref(), Some("https://x/arch"));
    let unnamed = Release { version: "1.0".to_string(), deb_url: Some("u".to_string()), deb_name: None };
    assert!(matches!(
        plan_update(&unnamed, "0.5.1", PackageFormat::Rpm),
        UpdatePlan::Install { dest, .. } if dest == "/tmp/motu-mk5.rpm"
    ));
}
