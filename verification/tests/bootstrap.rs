use fvpnc::archive::{extraction_targets, unzip, Archive, ArchiveEntry, Extraction, Target};
use fvpnc::error::VpnError;
use fvpnc::utils::sanity::{
    check_creds, classify, config_paths, credentials_text, download_configs, download_csv,
    download_file, ensure_manifest, find_o_vpn_pattern, init_configurations, missing_notice,
    version_command, version_from, Answer, Bootstrap, Prompt, VpnConfig, BUNDLE_PATH, BUNDLE_URL,
    MANIFEST_URL, VERSION_PATTERN,
};
use std::io::Write;

fn paths(items: &[&str]) -> Vec<String> {
    items.iter().map(|s| s.to_string()).collect()
}

fn manifest_row(city: &str, protocol: &str, filename: &str) -> VpnConfig {
    VpnConfig {
        city: city.to_string(),
        protocol: protocol.to_string(),
        filename: filename.to_string(),
    }
}

fn entry(name: &str) -> ArchiveEntry {
    ArchiveEntry { name: name.to_string(), enclosed: Some(name.to_string()), size: 0, mode: None }
}

fn bundle(items: &[(&str, &[u8])]) -> Vec<u8> {
    let mut writer = zip::ZipWriter::new(std::io::Cursor::new(Vec::new()));
    let options = zip::write::FileOptions::default().unix_permissions(0o644);
    for (name, data) in items {
        if name.ends_with('/') {
            writer.add_directory(*name, options).unwrap();
        } else {
            writer.start_file(*name, options).unwrap();
            writer.write_all(data).unwrap();
        }
    }
    writer.finish().unwrap().into_inner()
}

fn plan_paths(plan: &Vec<Extraction>) -> Vec<(String, bool)> {
    plan.iter().map(|e| (e.target.path.clone(), e.write)).collect()
}

#[test]
fn expected_paths_use_the_protocol_in_lower_case() {
    let manifest = vec![
        manifest_row("london", "TCP", "uk-london.ovpn"),
        manifest_row("paris", "Udp", "fr-paris.ovpn"),
        manifest_row("berlin", "tcp", "de-berlin.ovpn"),
    ];
    assert_eq!(
        config_paths(&manifest),
        paths(&[
            "/etc/openvpn/tcp/uk-london.ovpn",
            "/etc/openvpn/udp/fr-paris.ovpn",
            "/etc/openvpn/tcp/de-berlin.ovpn"
        ])
    );
}

#[test]
fn nothing_missing_is_ready() {
    let manifest = vec![manifest_row("london", "tcp", "uk-london.ovpn")];
    let existing = paths(&["/etc/openvpn/tcp/uk-london.ovpn", "/etc/openvpn/tcp/other.ovpn"]);
    assert!(matches!(init_configurations(&manifest, &existing), Bootstrap::Ready));
    assert!(matches!(init_configurations(&Vec::new(), &Vec::new()), Bootstrap::Ready));
}

#[test]
fn missing_configs_are_listed_in_manifest_order() {
    let manifest = vec![
        manifest_row("london", "tcp", "uk-london.ovpn"),
        manifest_row("paris", "udp", "fr-paris.ovpn"),
        manifest_row("berlin", "tcp", "de-berlin.ovpn"),
    ];
    let existing = paths(&["/etc/openvpn/udp/fr-paris.ovpn"]);
    match init_configurations(&manifest, &existing) {
        Bootstrap::Ask { missing } => assert_eq!(
            missing,
            paths(&["/etc/openvpn/tcp/uk-london.ovpn", "/etc/openvpn/tcp/de-berlin.ovpn"])
        ),
        other => panic!("unexpected: {:?}", other),
    }
}

#[test]
fn a_config_of_the_other_protocol_does_not_count() {
    let manifest = vec![manifest_row("london", "tcp", "uk-london.ovpn")];
    let existing = paths(&["/etc/openvpn/udp/uk-london.ovpn"]);
    assert!(matches!(init_configurations(&manifest, &existing), Bootstrap::Ask { .. }));
}

#[test]
fn missing_notice_names_the_path() {
    assert_eq!(missing_notice("/etc/openvpn/tcp/x.ovpn"), "Missing config: /etc/openvpn/tcp/x.ovpn");
}

#[test]
fn classify_reads_normalized_replies() {
    assert_eq!(classify("y"), Answer::Download);
    assert_eq!(classify("n"), Answer::Decline);
    assert_eq!(classify(""), Answer::Unclear);
    assert_eq!(classify("yes"), Answer::Unclear);
    assert_eq!(classify("Y"), Answer::Unclear);
    assert_eq!(classify(" y"), Answer::Unclear);
}

#[test]
fn prompt_accepts_yes() {
    assert_eq!(Prompt::new().hear("y\n"), Answer::Download);
    assert_eq!(Prompt::new().hear("Y\n"), Answer::Download);
    assert_eq!(Prompt::new().hear("  y \r\n"), Answer::Download);
}

#[test]
fn prompt_accepts_no() {
    assert_eq!(Prompt::new().hear("n\n"), Answer::Decline);
    assert_eq!(Prompt::new().hear("N"), Answer::Decline);
}

#[test]
fn prompt_asks_again_on_anything_else() {
    assert_eq!(Prompt::new().hear("\n"), Answer::Unclear);
    assert_eq!(Prompt::new().hear("yes\n"), Answer::Unclear);
    assert_eq!(Prompt::new().hear("no\n"), Answer::Unclear);
}

#[test]
fn prompt_reads_everything_heard_so_far() {
    let mut prompt = Prompt::new();
    assert_eq!(prompt.hear("\n"), Answer::Unclear);
    assert_eq!(prompt.input, "\n");
    assert_eq!(prompt.hear("y\n"), Answer::Download);
    assert_eq!(prompt.input, "\ny\n");

    let mut prompt = Prompt::new();
    assert_eq!(prompt.hear("maybe\n"), Answer::Unclear);
    assert_eq!(prompt.hear("y\n"), Answer::Unclear);
    assert_eq!(prompt.input, "maybe\ny\n");
}

#[test]
fn credentials_are_checked_against_the_disk() {
    let r = check_creds(&Vec::new());
    assert!(r.create_dir && r.ask);
    let r = check_creds(&paths(&["/etc/fvpnc"]));
    assert!(!r.create_dir && r.ask);
    let r = check_creds(&paths(&["/etc/fvpnc", "/etc/fvpnc/creds.txt"]));
    assert!(!r.create_dir && !r.ask);
}

#[test]
fn credentials_file_has_two_lines() {
    assert_eq!(credentials_text("alice", "s3cret"), "alice\ns3cret");
    assert_eq!(credentials_text("", ""), "\n");
}

#[test]
fn version_is_read_from_the_banner() {
    let banner = "OpenVPN 2.5.9 x86_64-pc-linux-gnu [SSL (OpenSSL)] [LZO] built on Sep 29 2023\nlibrary versions: OpenSSL 3.0.2";
    assert_eq!(find_o_vpn_pattern(banner).unwrap(), "2.5.9");
    assert_eq!(find_o_vpn_pattern("x OpenVPN\t12.0.345-rc1").unwrap(), "12.0.345");
}

#[test]
fn first_version_in_the_banner_wins() {
    assert_eq!(find_o_vpn_pattern("OpenVPN 2.4 OpenVPN 2.6.1 OpenVPN 3.0.0").unwrap(), "2.6.1");
}

#[test]
fn banner_without_version_is_a_parse_error() {
    for banner in ["", "openvpn 2.5.9", "OpenVPN2.5.9", "OpenVPN 2.5", "command not found"] {
        match find_o_vpn_pattern(banner) {
            Err(VpnError::Parse(_)) => {}
            other => panic!("unexpected: {:?}", other),
        }
    }
}

#[test]
fn version_from_what_was_captured() {
    assert_eq!(version_from(Some(Some("2.5.9".to_string()))).unwrap(), "2.5.9");
    match version_from(Some(None)) {
        Err(VpnError::Parse(m)) => assert_eq!(m, "OpenVPN version not found"),
        other => panic!("unexpected: {:?}", other),
    }
    match version_from(None) {
        Err(VpnError::Parse(m)) => assert_eq!(m, "OpenVPN version not found"),
        other => panic!("unexpected: {:?}", other),
    }
}

#[test]
fn version_command_and_pattern() {
    let c = version_command();
    assert_eq!(c.program, "openvpn");
    assert_eq!(c.args, paths(&["--version"]));
    assert_eq!(VERSION_PATTERN, r"OpenVPN\s(\d+\.\d+\.\d+)");
}

#[test]
fn downloads_name_source_place_and_folder() {
    let d = download_csv();
    assert_eq!(d.url, MANIFEST_URL);
    assert_eq!(d.url, "https://raw.githubusercontent.com/CyR1en/fvpnc/master/res/vpn_config.csv");
    assert_eq!(d.path, "/etc/fvpnc/vpn_config.csv");
    assert_eq!(d.folder, "/etc/fvpnc");
    let d = download_configs();
    assert_eq!(d.url, BUNDLE_URL);
    assert_eq!(d.url, "https://vpn.ncapi.io/groupedServerList.zip");
    assert_eq!(d.path, BUNDLE_PATH);
    assert_eq!(d.path, "/tmp/groupedServerList.zip");
    assert_eq!(d.folder, "/tmp");
}

#[test]
fn download_to_a_path_without_folder_fails() {
    assert!(matches!(download_file("https://example.org/x", "/"), Err(VpnError::Io(_))));
    assert!(matches!(download_file("https://example.org/x", ""), Err(VpnError::Io(_))));
    let d = download_file("https://example.org/x", "a/b").unwrap();
    assert_eq!((d.url.as_str(), d.path.as_str(), d.folder.as_str()), ("https://example.org/x", "a/b", "a"));
}

#[test]
fn manifest_is_fetched_only_when_absent() {
    assert!(ensure_manifest(&paths(&["/etc/fvpnc/vpn_config.csv"])).is_none());
    let d = ensure_manifest(&paths(&["/etc/fvpnc"])).unwrap();
    assert_eq!(d.path, "/etc/fvpnc/vpn_config.csv");
}

#[test]
fn archive_lists_its_directory() {
    let bytes = bundle(&[("tcp/", b""), ("tcp/uk-london.ovpn", b"remote london"), ("udp/", b"")]);
    let archive = Archive::open(bytes).unwrap();
    let entries = archive.entries();
    assert_eq!(entries.len(), 3);
    assert_eq!(entries[0].name, "tcp/");
    assert_eq!(entries[1].name, "tcp/uk-london.ovpn");
    assert_eq!(entries[1].enclosed, Some("tcp/uk-london.ovpn".to_string()));
    assert_eq!(entries[1].size, 13);
    assert_eq!(entries[1].mode.map(|m| m & 0o777), Some(0o644));
    assert_eq!(entries[2].name, "udp/");
}

#[test]
fn archive_hands_out_contents() {
    let bytes = bundle(&[("tcp/", b""), ("tcp/uk-london.ovpn", b"remote london")]);
    let mut archive = Archive::open(bytes).unwrap();
    assert_eq!(archive.data(1).unwrap(), b"remote london".to_vec());
    assert_eq!(archive.data(0).unwrap(), Vec::<u8>::new());
    assert!(matches!(archive.data(2), Err(VpnError::Io(_))));
    assert_eq!(archive.entries().len(), 2);
}

#[test]
fn bytes_that_are_no_archive_fail() {
    assert!(matches!(Archive::open(b"not a zip file".to_vec()), Err(VpnError::Io(_))));
    assert!(matches!(Archive::open(Vec::new()), Err(VpnError::Io(_))));
}

#[test]
fn an_entry_that_leaves_its_directory_has_no_enclosed_name() {
    let bytes = bundle(&[("../escape.ovpn", b"x"), ("/abs.ovpn", b"y")]);
    let archive = Archive::open(bytes).unwrap();
    assert_eq!(archive.entries()[0].name, "../escape.ovpn");
    assert_eq!(archive.entries()[0].enclosed, None);
    assert_eq!(archive.entries()[1].enclosed, None);
    assert_eq!(extraction_targets(archive.entries()).unwrap().len(), 0);
}

#[test]
fn targets_follow_the_directory_entries() {
    let entries = vec![
        entry("tcp/"),
        entry("tcp/uk-london.ovpn"),
        entry("tcp/fr-paris.ovpn"),
        entry("udp/"),
        entry("udp/uk-london.ovpn"),
    ];
    let targets = extraction_targets(&entries).unwrap();
    let got: Vec<(usize, &str)> = targets.iter().map(|t| (t.index, t.path.as_str())).collect();
    assert_eq!(
        got,
        vec![
            (1, "/etc/openvpn/tcp/uk-london.ovpn"),
            (2, "/etc/openvpn/tcp/fr-paris.ovpn"),
            (4, "/etc/openvpn/udp/uk-london.ovpn"),
        ]
    );
}

#[test]
fn targets_keep_size_and_mode() {
    let entries = vec![ArchiveEntry {
        name: "a.ovpn".to_string(),
        enclosed: Some("a.ovpn".to_string()),
        size: 77,
        mode: Some(0o100600),
    }];
    let targets = extraction_targets(&entries).unwrap();
    assert_eq!(targets.len(), 1);
    assert_eq!(targets[0].path, "/etc/openvpn/a.ovpn");
    assert_eq!(targets[0].size, 77);
    assert_eq!(targets[0].mode, Some(0o100600));
}

#[test]
fn clutter_is_passed_over() {
    let entries = vec![
        entry("tcp/"),
        entry("tcp/.DS_Store"),
        entry(".DS_Store"),
        entry("__MACOSX/.DS_Store"),
        entry("tcp/a.ovpn"),
    ];
    let targets = extraction_targets(&entries).unwrap();
    assert_eq!(targets.len(), 1);
    assert_eq!(targets[0].index, 4);
    assert_eq!(targets[0].path, "/etc/openvpn/tcp/a.ovpn");
}

#[test]
fn the_directory_in_force_is_the_last_one_seen() {
    // Files are placed by the last directory entry, not by their own path.
    let entries = vec![entry("udp/"), entry("tcp/a.ovpn"), entry("b.ovpn"), entry("x/y/"), entry("c.ovpn")];
    let targets = extraction_targets(&entries).unwrap();
    let got: Vec<&str> = targets.iter().map(|t| t.path.as_str()).collect();
    assert_eq!(got, vec!["/etc/openvpn/udp/a.ovpn", "/etc/openvpn/udp/b.ovpn", "/etc/openvpn/x/y/c.ovpn"]);
}

#[test]
fn entries_without_enclosed_name_are_passed_over() {
    let entries = vec![
        ArchiveEntry { name: "../x".to_string(), enclosed: None, size: 1, mode: None },
        entry("ok.ovpn"),
    ];
    let targets = extraction_targets(&entries).unwrap();
    assert_eq!(targets.len(), 1);
    assert_eq!(targets[0].index, 1);
}

#[test]
fn a_path_that_names_no_file_fails_the_extraction() {
    for name in ["", ".", "..", "tcp/..", "tcp/."] {
        let entries = vec![entry("ok.ovpn"), entry(name)];
        assert!(matches!(extraction_targets(&entries), Err(VpnError::Io(_))), "{:?}", name);
    }
}

#[test]
fn unzip_writes_what_is_not_there() {
    let entries = vec![entry("tcp/"), entry("tcp/a.ovpn"), entry("tcp/b.ovpn")];
    let targets = extraction_targets(&entries).unwrap();
    let plan = unzip(&targets, &Vec::new());
    assert_eq!(
        plan_paths(&plan),
        vec![("/etc/openvpn/tcp/a.ovpn".to_string(), true), ("/etc/openvpn/tcp/b.ovpn".to_string(), true)]
    );
    assert_eq!(plan[0].target.index, 1);
    assert_eq!(plan[1].target.index, 2);
}

#[test]
fn unzip_never_overwrites() {
    let entries = vec![entry("tcp/"), entry("tcp/a.ovpn"), entry("tcp/b.ovpn")];
    let targets = extraction_targets(&entries).unwrap();
    let existing = paths(&["/etc/openvpn/tcp/b.ovpn", "/etc/openvpn/tcp/zzz.ovpn"]);
    let plan = unzip(&targets, &existing);
    assert_eq!(
        plan_paths(&plan),
        vec![("/etc/openvpn/tcp/a.ovpn".to_string(), true), ("/etc/openvpn/tcp/b.ovpn".to_string(), false)]
    );
    for step in &plan {
        assert!(!(step.write && existing.contains(&step.target.path)));
    }
}

#[test]
fn unzip_writes_a_path_once() {
    let entries = vec![entry("a.ovpn"), entry("x/a.ovpn"), entry("b.ovpn"), entry("a.ovpn")];
    let targets = extraction_targets(&entries).unwrap();
    let plan = unzip(&targets, &Vec::new());
    let writes: Vec<bool> = plan.iter().map(|e| e.write).collect();
    assert_eq!(writes, vec![true, false, true, false]);
}

#[test]
fn a_second_run_writes_nothing() {
    let entries = vec![entry("tcp/"), entry("tcp/a.ovpn"), entry("udp/"), entry("udp/a.ovpn"), entry("udp/a.ovpn")];
    let targets = extraction_targets(&entries).unwrap();
    let mut existing = paths(&["/etc/openvpn/udp/a.ovpn"]);
    let first = unzip(&targets, &existing);
    assert_eq!(first.iter().filter(|e| e.write).count(), 1);
    for step in &first {
        if step.write {
            existing.push(step.target.path.clone());
        }
    }
    let second = unzip(&targets, &existing);
    assert_eq!(second.len(), first.len());
    assert!(second.iter().all(|e| !e.write));
}

#[test]
fn extraction_is_reported_with_index_path_and_size() {
    let step = Extraction {
        target: Target { index: 12, path: "/etc/openvpn/tcp/a.ovpn".to_string(), size: 3456, mode: None },
        write: true,
    };
    assert_eq!(step.message(), "File 12 extracted to \"/etc/openvpn/tcp/a.ovpn\" (3456 bytes)");
    let step = Extraction {
        target: Target { index: 0, path: "".to_string(), size: 0, mode: Some(0o644) },
        write: false,
    };
    assert_eq!(step.message(), "File 0 extracted to \"\" (0 bytes)");
}

#[test]
fn missing_config_is_downloaded_and_extracted() {
    let manifest = vec![manifest_row("london", "tcp", "uk-london.ovpn")];
    let mut disk: Vec<String> = Vec::new();

    // exactly one entry is missing
    let missing = match init_configurations(&manifest, &disk) {
        Bootstrap::Ask { missing } => missing,
        other => panic!("unexpected: {:?}", other),
    };
    assert_eq!(missing, paths(&["/etc/openvpn/tcp/uk-london.ovpn"]));

    // the operator accepts
    assert_eq!(Prompt::new().hear("y\n"), Answer::Download);
    assert_eq!(download_configs().url, "https://vpn.ncapi.io/groupedServerList.zip");

    // the bundle is extracted
    let bytes = bundle(&[
        ("tcp/", b""),
        ("tcp/.DS_Store", b"junk"),
        ("tcp/uk-london.ovpn", b"remote london 1194"),
        ("udp/", b""),
        ("udp/uk-london.ovpn", b"remote london 1195"),
    ]);
    let mut archive = Archive::open(bytes).unwrap();
    let targets = extraction_targets(archive.entries()).unwrap();
    let plan = unzip(&targets, &disk);
    for step in &plan {
        assert!(step.write);
        let data = archive.data(step.target.index).unwrap();
        assert_eq!(data.len() as u64, step.target.size);
        disk.push(step.target.path.clone());
    }
    assert!(disk.contains(&"/etc/openvpn/tcp/uk-london.ovpn".to_string()));
    assert_eq!(archive.data(2).unwrap(), b"remote london 1194".to_vec());

    // and the next check finds everything in place
    assert!(matches!(init_configurations(&manifest, &disk), Bootstrap::Ready));
    assert!(unzip(&targets, &disk).iter().all(|e| !e.write));
}

#[test]
fn archive_keeps_long_contents_and_modes() {
    let mut body: Vec<u8> = Vec::new();
    let mut n: u32 = 0;
    while n < 5000 {
        body.extend_from_slice(b"remote 203.0.113.9 1194 udp\n");
        n += 1;
    }
    let mut writer = zip::ZipWriter::new(std::io::Cursor::new(Vec::new()));
    writer
        .start_file("udp/big.ovpn", zip::write::FileOptions::default().unix_permissions(0o600))
        .unwrap();
    writer.write_all(&body).unwrap();
    let bytes = writer.finish().unwrap().into_inner();
    assert!(bytes.len() < body.len());

    let mut archive = Archive::open(bytes).unwrap();
    assert_eq!(archive.entries()[0].size, body.len() as u64);
    assert_eq!(archive.entries()[0].mode.map(|m| m & 0o777), Some(0o600));
    assert_eq!(archive.data(0).unwrap(), body);
    let targets = extraction_targets(archive.entries()).unwrap();
    assert_eq!(targets[0].path, "/etc/openvpn/big.ovpn");
    assert_eq!(targets[0].mode.map(|m| m & 0o777), Some(0o600));
}

#[test]
fn an_empty_archive_plans_nothing() {
    let bytes = bundle(&[]);
    let archive = Archive::open(bytes).unwrap();
    assert_eq!(archive.entries().len(), 0);
    let targets = extraction_targets(archive.entries()).unwrap();
    assert!(targets.is_empty());
    assert!(unzip(&targets, &paths(&["/etc/openvpn/tcp/a.ovpn"])).is_empty());
}

#[test]
fn an_entry_with_an_encryption_record_and_no_flag_is_an_error() {
    // An AES record in the extra field of an entry whose encryption flag
    // is clear: the entry cannot be handed out without a password. The
    // record is written under a private identifier and then renamed in
    // the finished bytes.
    let mut writer = zip::ZipWriter::new(std::io::Cursor::new(Vec::new()));
    let options = zip::write::FileOptions::default().compression_method(zip::CompressionMethod::Stored);
    writer.start_file_with_extra_data("tcp/a.ovpn", options).unwrap();
    writer
        .write_all(&[0xFE, 0xCA, 0x07, 0x00, 0x02, 0x00, 0x41, 0x45, 0x01, 0x00, 0x00])
        .unwrap();
    writer.end_extra_data().unwrap();
    writer.write_all(b"remote").unwrap();
    let mut bytes = writer.finish().unwrap().into_inner();

    let plain = Archive::open(bytes.clone()).unwrap();
    assert_eq!(plain.entries().len(), 1);

    let mut renamed = 0;
    let mut i: usize = 0;
    while i + 8 <= bytes.len() {
        if bytes[i..i + 8] == [0xFE, 0xCA, 0x07, 0x00, 0x02, 0x00, 0x41, 0x45] {
            bytes[i] = 0x01;
            bytes[i + 1] = 0x99;
            renamed += 1;
        }
        i += 1;
    }
    assert_eq!(renamed, 2);
    assert!(matches!(Archive::open(bytes), Err(VpnError::Io(_))));
}

#[test]
fn the_same_bytes_list_the_same_directory() {
    let bytes = bundle(&[("tcp/", b""), ("tcp/a.ovpn", b"one"), ("udp/b.ovpn", b"two")]);
    let mut first = Archive::open(bytes.clone()).unwrap();
    let mut second = Archive::open(bytes).unwrap();
    assert_eq!(first.entries().len(), second.entries().len());
    let mut i: usize = 0;
    while i < first.entries().len() {
        assert_eq!(first.entries()[i].name, second.entries()[i].name);
        assert_eq!(first.entries()[i].size, second.entries()[i].size);
        assert_eq!(first.data(i).unwrap(), second.data(i).unwrap());
        i += 1;
    }
    assert_eq!(first.data(1).unwrap(), first.data(1).unwrap());
}
