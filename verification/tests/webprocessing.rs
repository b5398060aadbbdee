use bedrock_updater::webprocessing::{
    find_download_link, find_version, find_version_numbers, get_current_version, get_download_link,
    get_server_version, get_version_from_string, is_newer_numbers, is_newer_version,
    numbers_from_captures, package_file_name, update_plan, version_from_captures, UpdateError,
    UpdatePlan, SERVER_URL,
};

const LINK: &str = "https://www.minecraft.net/bedrockdedicatedserver/bin-linux/bedrock-server-1.21.44.01.zip";

fn page_with(link: &str) -> String {
    format!(
        "<html><body><a aria-label=\"Download Minecraft Dedicated Server software for Windows\" href=\"https://example.com/win/bedrock-server-9.9.9.zip\">Windows</a>\
         <a aria-label=\"Download Minecraft Dedicated Server software for Ubuntu (Linux)\" href=\"{}\">Linux</a></body></html>",
        link
    )
}

#[test]
fn server_url_is_the_bedrock_download_page() {
    assert_eq!(SERVER_URL, "https://www.minecraft.net/en-us/download/server/bedrock");
}

#[test]
fn reads_the_version_from_a_link() {
    assert_eq!(get_version_from_string(&LINK.to_string()), "1.21.44");
    assert_eq!(get_server_version(&LINK.to_string()), "1.21.44");
}

#[test]
fn reads_the_version_from_a_package_path() {
    assert_eq!(get_version_from_string(&"bedrock-server-1.20.1.zip".to_string()), "1.20.1");
    assert_eq!(get_version_from_string(&"bedrock-server-1.2.3-stripped.zip".to_string()), "1.2.3");
}

#[test]
fn finds_no_version_where_none_is_named() {
    assert_eq!(find_version(&"bedrock-server.zip".to_string()), None);
    assert_eq!(find_version(&"bedrock-server-1.2.zip".to_string()), None);
    assert_eq!(find_version(&"bedrock-server-1.2.3".to_string()), None);
    assert_eq!(find_version(&"x/bedrock-server-10.0.3-y".to_string()), Some("10.0.3".to_string()));
}

#[test]
fn takes_group_one_of_a_match() {
    let caps = Some(vec![Some("bedrock-server-1.2.3.".to_string()), Some("1.2.3".to_string())]);
    assert_eq!(version_from_captures(&caps), Some("1.2.3".to_string()));
    assert_eq!(version_from_captures(&None), None);
    assert_eq!(version_from_captures(&Some(vec![Some("x".to_string())])), None);
    assert_eq!(version_from_captures(&Some(vec![Some("x".to_string()), None])), None);
}

#[test]
fn reads_version_numbers_from_groups() {
    let caps = Some(vec![
        Some("1.20.15".to_string()),
        Some("1".to_string()),
        Some("20".to_string()),
        Some("15".to_string()),
    ]);
    assert_eq!(numbers_from_captures(&caps), Some((1, 20, 15)));
    let too_big = Some(vec![
        Some("x".to_string()),
        Some("1".to_string()),
        Some("3000000000".to_string()),
        Some("15".to_string()),
    ]);
    assert_eq!(numbers_from_captures(&too_big), None);
    assert_eq!(numbers_from_captures(&None), None);
    assert_eq!(numbers_from_captures(&Some(vec![Some("1".to_string())])), None);
}

#[test]
fn reads_version_numbers_from_text() {
    assert_eq!(find_version_numbers(&"1.0.0".to_string()), Some((1, 0, 0)));
    assert_eq!(find_version_numbers(&"v10.21.3-beta".to_string()), Some((10, 21, 3)));
    assert_eq!(find_version_numbers(&"1.0".to_string()), None);
    assert_eq!(find_version_numbers(&"1.0.99999999999".to_string()), None);
}

#[test]
fn newer_when_later_in_version_order() {
    assert!(is_newer_numbers((1, 0, 0), (2, 0, 0)));
    assert!(is_newer_numbers((1, 0, 0), (1, 1, 0)));
    assert!(is_newer_numbers((1, 0, 0), (1, 0, 1)));
    assert!(!is_newer_numbers((1, 2, 3), (1, 2, 3)));
    assert!(!is_newer_numbers((2, 0, 0), (1, 0, 0)));
    assert!(!is_newer_numbers((1, 2, 0), (1, 1, 5)));
    assert!(!is_newer_numbers((1, 20, 15), (1, 19, 80)));
    assert!(is_newer_numbers((1, 19, 80), (1, 20, 15)));
    assert!(is_newer_numbers((1, 9, 9), (2, 0, 0)));
}

#[test]
fn compares_version_texts() {
    let v = |s: &str| s.to_string();
    assert!(is_newer_version(&v("1.0.0"), &v("1.21.44")));
    assert!(!is_newer_version(&v("1.21.44"), &v("1.21.44")));
    assert!(!is_newer_version(&v("1.21.44"), &v("1.20.10")));
    assert!(is_newer_version(&v("1.21.44"), &v("1.22.0")));
    assert!(!is_newer_version(&v("1.2.0"), &v("1.1.5")));
    assert!(!is_newer_version(&v("1.20.15"), &v("1.19.80")));
    assert!(is_newer_version(&v("1.19.80"), &v("1.20.15")));
}

#[test]
fn version_is_not_newer_than_itself() {
    for s in ["1.0.0", "0.0.0", "1.21.44", "2147483647.1.2"] {
        assert!(!is_newer_version(&s.to_string(), &s.to_string()));
    }
}

#[test]
fn greater_version_is_newer() {
    let pairs = [("1.0.0", "2.0.0"), ("1.9.9", "2.0.0"), ("1.2.9", "1.3.0"), ("1.2.3", "1.2.4")];
    for (current, new) in pairs {
        assert!(is_newer_version(&current.to_string(), &new.to_string()));
    }
}

#[test]
fn version_not_later_is_not_newer() {
    let pairs = [
        ("2.0.0", "1.0.0"),
        ("1.3.5", "1.2.5"),
        ("1.2.5", "1.2.4"),
        ("3.3.3", "3.3.3"),
        ("1.20.15", "1.19.80"),
        ("2.0.0", "1.99.99"),
    ];
    for (current, new) in pairs {
        assert!(!is_newer_version(&current.to_string(), &new.to_string()));
    }
}

#[test]
fn exactly_one_of_two_versions_is_newer_unless_equal() {
    let versions = ["1.0.0", "1.19.80", "1.20.15", "1.20.16", "2.0.0", "1.20.15-beta"];
    for a in versions {
        for b in versions {
            let (a_s, b_s) = (a.to_string(), b.to_string());
            let a_newer = is_newer_version(&b_s, &a_s);
            let b_newer = is_newer_version(&a_s, &b_s);
            let same = find_version_numbers(&a_s) == find_version_numbers(&b_s);
            assert_eq!([a_newer, b_newer, same].iter().filter(|x| **x).count(), 1, "{} {}", a, b);
        }
    }
}

#[test]
fn older_package_offered_is_left_alone() {
    let page = page_with("https://example.com/bedrock-server-1.19.80.01.zip");
    match update_plan(&page, Some("1.20.15".to_string())) {
        Ok(UpdatePlan::Unchanged { server_version }) => assert_eq!(server_version, "1.19.80"),
        other => panic!("unexpected plan {:?}", other),
    }
}

#[test]
fn current_version_defaults_to_one() {
    assert_eq!(get_current_version(None), "1.0.0");
    assert_eq!(get_current_version(Some("1.21.44".to_string())), "1.21.44");
}

#[test]
fn names_the_downloaded_package() {
    assert_eq!(package_file_name(&"1.21.44".to_string()), "bedrock-server-1.21.44.zip");
}

#[test]
fn finds_the_linux_download_link() {
    let page = page_with(LINK);
    assert_eq!(get_download_link(&page), LINK);
    assert_eq!(find_download_link(&page), Some(LINK.to_string()));
}

#[test]
fn finds_no_link_on_a_page_without_one() {
    let page = "<html><body><p>This is a simple webpage.</p></body></html>";
    assert_eq!(find_download_link(page), None);
    let no_href = "<a aria-label=\"Download Minecraft Dedicated Server software for Ubuntu (Linux)\">x</a>";
    assert_eq!(find_download_link(no_href), None);
}

#[test]
fn plans_a_download_of_a_newer_package() {
    let page = page_with(LINK);
    match update_plan(&page, Some("1.20.0".to_string())) {
        Ok(UpdatePlan::Download { link, server_version, file_name }) => {
            assert_eq!(link, LINK);
            assert_eq!(server_version, "1.21.44");
            assert_eq!(file_name, "bedrock-server-1.21.44.zip");
        }
        other => panic!("unexpected plan {:?}", other),
    }
    match update_plan(&page, None) {
        Ok(UpdatePlan::Download { server_version, .. }) => assert_eq!(server_version, "1.21.44"),
        other => panic!("unexpected plan {:?}", other),
    }
}

#[test]
fn installed_version_leaves_the_package_unchanged() {
    let page = page_with(LINK);
    match update_plan(&page, Some("1.21.44".to_string())) {
        Ok(UpdatePlan::Unchanged { server_version }) => assert_eq!(server_version, "1.21.44"),
        other => panic!("unexpected plan {:?}", other),
    }
}

#[test]
fn plan_errors_say_what_is_missing() {
    let plain = "<html><body><p>This is a simple webpage.</p></body></html>";
    assert_eq!(update_plan(plain, None).unwrap_err(), UpdateError::NoDownloadLink);
    let unversioned = page_with("https://example.com/server.zip");
    assert_eq!(update_plan(&unversioned, None).unwrap_err(), UpdateError::NoServerVersion);
    let page = page_with(LINK);
    assert_eq!(
        update_plan(&page, Some("garbage".to_string())).unwrap_err(),
        UpdateError::UnreadableVersion
    );
}
