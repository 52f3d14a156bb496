use fvpnc::cli::{parse, parse_stdin, resolve_proto, ParseStep};
use fvpnc::error::VpnError;
use fvpnc::utils::sanity::VpnConfig;
use fvpnc::utils::{config_dir, find_config, get_cities, Proto};

fn file_names(items: &[&str]) -> Vec<String> {
    items.iter().map(|s| s.to_string()).collect()
}

fn row(city: &str, protocol: &str, filename: &str) -> VpnConfig {
    VpnConfig {
        city: city.to_string(),
        protocol: protocol.to_string(),
        filename: filename.to_string(),
    }
}

#[test]
fn proto_names() {
    assert_eq!(Proto::UDP.to_string(), "udp");
    assert_eq!(Proto::TCP.to_string(), "tcp");
}

#[test]
fn config_dirs() {
    assert_eq!(config_dir(Proto::TCP), "/etc/openvpn/tcp");
    assert_eq!(config_dir(Proto::UDP), "/etc/openvpn/udp");
}

#[test]
fn find_config_returns_the_full_path() {
    let files = file_names(&["fr-paris.ovpn", "uk-london.ovpn"]);
    let found = find_config("london", Proto::TCP, Some(&files)).unwrap();
    assert_eq!(found, "/etc/openvpn/tcp/uk-london.ovpn");
    let found = find_config("paris", Proto::UDP, Some(&files)).unwrap();
    assert_eq!(found, "/etc/openvpn/udp/fr-paris.ovpn");
}

#[test]
fn find_config_path_holds_the_city() {
    let files = file_names(&["de-berlin.ovpn", "fr-paris.ovpn", "uk-london.ovpn"]);
    for city in ["berlin", "paris", "london"] {
        let found = find_config(city, Proto::TCP, Some(&files)).unwrap();
        assert!(found.contains(city));
    }
}

#[test]
fn find_config_takes_the_first_match() {
    let files = file_names(&["us-newyork-1.ovpn", "us-newyork-2.ovpn"]);
    let found = find_config("newyork", Proto::UDP, Some(&files)).unwrap();
    assert_eq!(found, "/etc/openvpn/udp/us-newyork-1.ovpn");
}

#[test]
fn find_config_unknown_city_is_not_found() {
    let files = file_names(&["fr-paris.ovpn", "uk-london.ovpn"]);
    match find_config("tokyo", Proto::TCP, Some(&files)) {
        Err(VpnError::NotFound(m)) => assert_eq!(m, "No config found for tokyo"),
        other => panic!("unexpected: {:?}", other),
    }
}

#[test]
fn find_config_empty_directory_is_not_found() {
    let files: Vec<String> = Vec::new();
    assert!(matches!(find_config("london", Proto::TCP, Some(&files)), Err(VpnError::NotFound(_))));
}

#[test]
fn find_config_missing_directory_is_not_found() {
    match find_config("london", Proto::TCP, None) {
        Err(VpnError::NotFound(m)) => assert_eq!(m, "No config found for london"),
        other => panic!("unexpected: {:?}", other),
    }
}

#[test]
fn find_config_matches_on_any_part_of_the_path() {
    // The match is on the whole path, so a city that is part of another
    // name, or of the directory itself, finds the first file.
    let files = file_names(&["uk-london.ovpn", "us-york.ovpn"]);
    assert_eq!(find_config("lon", Proto::TCP, Some(&files)).unwrap(), "/etc/openvpn/tcp/uk-london.ovpn");
    assert_eq!(find_config("tcp", Proto::TCP, Some(&files)).unwrap(), "/etc/openvpn/tcp/uk-london.ovpn");
    assert!(find_config("tcp", Proto::UDP, Some(&files)).is_err());
    assert_eq!(find_config("", Proto::UDP, Some(&files)).unwrap(), "/etc/openvpn/udp/uk-london.ovpn");
}

#[test]
fn find_config_is_case_sensitive() {
    let files = file_names(&["uk-london.ovpn"]);
    assert!(find_config("London", Proto::TCP, Some(&files)).is_err());
}

#[test]
fn cities_are_sorted_and_unique() {
    let manifest = vec![
        row("paris", "tcp", "fr-paris.ovpn"),
        row("london", "tcp", "uk-london.ovpn"),
        row("paris", "udp", "fr-paris.ovpn"),
        row("berlin", "udp", "de-berlin.ovpn"),
        row("london", "udp", "uk-london.ovpn"),
    ];
    assert_eq!(get_cities(&manifest), file_names(&["berlin", "london", "paris"]));
}

#[test]
fn cities_of_an_empty_manifest() {
    assert_eq!(get_cities(&Vec::new()), Vec::<String>::new());
}

#[test]
fn cities_order_is_by_code_point() {
    let manifest = vec![
        row("amsterdam", "tcp", "a"),
        row("Zurich", "tcp", "z"),
        row("amsterdam2", "tcp", "a2"),
        row("\u{e9}vry", "tcp", "e"),
    ];
    assert_eq!(get_cities(&manifest), file_names(&["Zurich", "amsterdam", "amsterdam2", "\u{e9}vry"]));
}

#[test]
fn cities_single_row() {
    assert_eq!(get_cities(&vec![row("oslo", "tcp", "no-oslo.ovpn")]), file_names(&["oslo"]));
}

#[test]
fn protocol_resolution() {
    assert_eq!(resolve_proto(true, false), Proto::UDP);
    assert_eq!(resolve_proto(false, true), Proto::TCP);
    assert_eq!(resolve_proto(true, true), Proto::TCP);
    assert_eq!(resolve_proto(false, false), Proto::TCP);
}

#[test]
fn parse_decides_what_follows() {
    assert_eq!(parse(true, true), ParseStep::Accept);
    assert_eq!(parse(true, false), ParseStep::Accept);
    assert_eq!(parse(false, true), ParseStep::Report);
    assert_eq!(parse(false, false), ParseStep::ReadStdin);
}

#[test]
fn parse_stdin_adds_one_trimmed_argument() {
    let args = file_names(&["fvpnc", "connect"]);
    let lines = file_names(&["  london  "]);
    assert_eq!(parse_stdin(args, &lines), file_names(&["fvpnc", "connect", "london"]));
}

#[test]
fn parse_stdin_joins_lines_with_line_feeds() {
    let args = file_names(&["fvpnc"]);
    let lines = file_names(&["connect", "london", ""]);
    assert_eq!(parse_stdin(args, &lines), file_names(&["fvpnc", "connect\nlondon"]));
}

#[test]
fn parse_stdin_without_input_adds_an_empty_argument() {
    let args = file_names(&["fvpnc", "status"]);
    assert_eq!(parse_stdin(args, &Vec::new()), file_names(&["fvpnc", "status", ""]));
}

#[test]
fn trimming_takes_off_exactly_the_white_space_characters() {
    let mut code: u32 = 0;
    while code <= 0x10FFFF {
        if let Some(c) = char::from_u32(code) {
            let white = (0x09..=0x0D).contains(&code)
                || code == 0x20
                || code == 0x85
                || code == 0xA0
                || code == 0x1680
                || (0x2000..=0x200A).contains(&code)
                || code == 0x2028
                || code == 0x2029
                || code == 0x202F
                || code == 0x205F
                || code == 0x3000;
            let line = format!("{}x{}", c, c);
            let expected = if white { "x".to_string() } else { line.clone() };
            let args = parse_stdin(Vec::new(), &vec![line]);
            assert_eq!(args.len(), 1);
            assert_eq!(args[0], expected, "U+{:04X}", code);
        }
        code += 1;
    }
}

#[test]
fn trimming_leaves_white_space_inside() {
    let args = parse_stdin(Vec::new(), &file_names(&[" \t connect  new york \u{3000}", "  "]));
    assert_eq!(args, file_names(&["connect  new york \u{3000}\n"]).iter().map(|s| s.trim_end().to_string()).collect::<Vec<String>>());
    let args = parse_stdin(Vec::new(), &file_names(&[" \u{a0}\u{2003} "]));
    assert_eq!(args, file_names(&[""]));
}
