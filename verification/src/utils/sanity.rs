//! What has to be in place before the launcher can act: the server
//! configs the manifest names, the credentials, and a VPN client.

use crate::controller::Command;
use crate::error::VpnError;
use crate::paths::{
    absent, base_name, contains_path, lemma_base_start_is, lemma_manifest_folder, missing_paths,
    parent_dir, parent_of, path_set, server_path, server_path_text, strip_slashes, CONFIG_CSV,
    CONFIG_DIR, CONFIG_PATH,
};
use crate::pattern::{capture, first_capture, pattern_compiles};
use crate::text::{joined, lowercased, same_text, texts, to_lowercase, trim, trimmed};
use vstd::pervasive::unreached;
use vstd::prelude::*;
use vstd::string::*;

verus! {

/// One row of the manifest: a server, the protocol its config is written
/// for, and the name of the config file.
#[derive(Debug)]
pub struct VpnConfig {
    pub city: String,
    pub protocol: String,
    pub filename: String,
}

/// Where the config of a manifest row is expected on disk: under the
/// server root, in the directory named by the protocol in lower case.
pub open spec fn expected_path(protocol: Seq<char>, filename: Seq<char>) -> Seq<char> {
    server_path_text(lowercased(protocol), filename)
}

/// The expected path of each of the first `n` rows.
pub open spec fn expected_paths(configs: Seq<VpnConfig>, n: int) -> Seq<Seq<char>>
    decreases n,
{
    if n <= 0 {
        Seq::empty()
    } else {
        expected_paths(configs, n - 1).push(
            expected_path(configs[n - 1].protocol@, configs[n - 1].filename@),
        )
    }
}

/// Where each row's config is expected on disk, row by row.
pub fn config_paths(configs: &Vec<VpnConfig>) -> (r: Vec<String>)
    ensures
        texts(r@) == expected_paths(configs@, configs.len() as int),
{
    let mut out: Vec<String> = Vec::new();
    let mut i: usize = 0;
    while i < configs.len()
        invariant
            i <= configs.len(),
            texts(out@) == expected_paths(configs@, i as int),
        decreases configs.len() - i,
    {
        let directory = to_lowercase(configs[i].protocol.as_str());
        let path = server_path(directory.as_str(), configs[i].filename.as_str());
        let ghost before = out@;
        out.push(path);
        assert(texts(out@) =~= texts(before).push(
            expected_path(configs@[i as int].protocol@, configs@[i as int].filename@),
        ));
        i = i + 1;
    }
    out
}

/// What the check of the server configs found.
#[derive(Debug)]
pub enum Bootstrap {
    /// Every config the manifest names is on disk.
    Ready,
    /// These configs are missing; the operator is to be asked whether to
    /// download them.
    Ask { missing: Vec<String> },
}

/// Checks the manifest against the disk.
///
/// `existing` lists the paths found on disk. The result is `Ready` when
/// the expected path of every row is among them. Otherwise it is `Ask`
/// with the expected paths that are not, one per row that lacks its file,
/// in manifest order.
pub fn init_configurations(configs: &Vec<VpnConfig>, existing: &Vec<String>) -> (r: Bootstrap)
    ensures
        match r {
            Bootstrap::Ready => absent(
                expected_paths(configs@, configs.len() as int),
                path_set(existing@),
                configs.len() as int,
            ).len() == 0,
            Bootstrap::Ask { missing } => missing.len() > 0 && texts(missing@) == absent(
                expected_paths(configs@, configs.len() as int),
                path_set(existing@),
                configs.len() as int,
            ),
        },
{
    let wanted = config_paths(configs);
    assert(wanted.len() == configs.len()) by {
        lemma_expected_len(configs@, configs.len() as int);
        assert(texts(wanted@).len() == wanted.len());
    }
    let missing = missing_paths(&wanted, existing);
    assert(texts(missing@).len() == missing.len());
    if missing.len() == 0 {
        Bootstrap::Ready
    } else {
        Bootstrap::Ask { missing }
    }
}

/// There is one expected path per row.
pub proof fn lemma_expected_len(configs: Seq<VpnConfig>, n: int)
    requires
        0 <= n,
    ensures
        expected_paths(configs, n).len() == n,
    decreases n,
{
    if n > 0 {
        lemma_expected_len(configs, n - 1);
    }
}

/// Nothing is reported missing exactly when every wanted path exists: a
/// check that follows a completed bootstrap asks for nothing, and so
/// leads to no download.
pub proof fn lemma_nothing_absent(wanted: Seq<Seq<char>>, existing: Set<Seq<char>>, n: int)
    requires
        0 <= n <= wanted.len(),
    ensures
        absent(wanted, existing, n).len() == 0 <==> forall|i: int|
            0 <= i < n ==> existing.contains(#[trigger] wanted[i]),
    decreases n,
{
    if n > 0 {
        lemma_nothing_absent(wanted, existing, n - 1);
        if existing.contains(wanted[n - 1]) && absent(wanted, existing, n).len() == 0 {
            assert forall|i: int| 0 <= i < n implies existing.contains(#[trigger] wanted[i]) by {
                if i < n - 1 {
                }
            }
        }
    }
}

/// The line that reports a missing config.
pub fn missing_notice(path: &str) -> (r: String)
    ensures
        r@ == "Missing config: "@ + path@,
{
    joined("Missing config: ", path)
}

/// The question put to the operator when configs are missing.
pub const DOWNLOAD_QUESTION: &'static str =
    "Would you like to download the missing configuration files? [Y/n]: ";

/// What the operator is told after declining the download.
pub const DECLINE_NOTICE: &'static str =
    "\n                      Please download the missing configuration files from https://vpn.ncapi.io/groupedServerList.zip\n                      and extract the contents to /etc/openvpn/tcp and /etc/openvpn/udp respectively.";

/// What the operator's reply amounts to.
#[derive(Clone, Copy, Debug, PartialEq, Eq)]
pub enum Answer {
    /// Download the bundle and extract it.
    Download,
    /// Do not download; the program is to stop with a failure status.
    Decline,
    /// Neither; the operator is to be heard again.
    Unclear,
}

/// What a reply amounts to once trimmed and put in lower case.
pub open spec fn answer_of(normalized: Seq<char>) -> Answer {
    if normalized == "y"@ {
        Answer::Download
    } else if normalized == "n"@ {
        Answer::Decline
    } else {
        Answer::Unclear
    }
}

/// Reads a reply that has been trimmed and put in lower case: `y` asks
/// for the download, `n` declines, anything else is unclear.
pub fn classify(normalized: &str) -> (r: Answer)
    ensures
        r == answer_of(normalized@),
{
    if same_text(normalized, "y") {
        Answer::Download
    } else if same_text(normalized, "n") {
        Answer::Decline
    } else {
        Answer::Unclear
    }
}

/// The operator's replies so far. Each line heard is added to what was
/// heard before, and the whole is read anew.
pub struct Prompt {
    pub input: String,
}

impl Prompt {
    /// A prompt that has heard nothing yet.
    pub fn new() -> (r: Prompt)
        ensures
            r.input@ == Seq::<char>::empty(),
    {
        Prompt { input: String::new() }
    }

    /// Hears one more line and says what everything heard so far amounts
    /// to, white space at both ends and letter case set aside.
    pub fn hear(&mut self, line: &str) -> (r: Answer)
        ensures
            final(self).input@ == old(self).input@ + line@,
            r == answer_of(lowercased(trimmed(final(self).input@))),
    {
        self.input.append(line);
        let bare = trim(self.input.as_str());
        let lower = to_lowercase(bare.as_str());
        classify(lower.as_str())
    }
}

/// What has to be set up before credentials can be handed to the client.
#[derive(Clone, Copy, Debug, PartialEq, Eq)]
pub struct CredsSetup {
    /// The launcher's directory is to be created.
    pub create_dir: bool,
    /// The operator is to be asked for user name and password, and the
    /// credentials file is to be written.
    pub ask: bool,
}

/// Checks for the launcher's directory and the credentials file among the
/// paths found on disk: what is not there is to be set up.
pub fn check_creds(existing: &Vec<String>) -> (r: CredsSetup)
    ensures
        r.create_dir == !path_set(existing@).contains(CONFIG_DIR@),
        r.ask == !path_set(existing@).contains(CONFIG_PATH@),
{
    CredsSetup {
        create_dir: !contains_path(existing, CONFIG_DIR),
        ask: !contains_path(existing, CONFIG_PATH),
    }
}

/// What the operator is told when the credentials are missing.
pub const CREDS_NOTICE: &'static str =
    "Login credentials could not be found, please go to https://account.fastvpn.com/ and find your credentials";

/// The contents of the credentials file: the user name, a line break, the
/// password.
pub fn credentials_text(username: &str, password: &str) -> (r: String)
    ensures
        r@ == username@ + "\n"@ + password@,
{
    let mut s = joined(username, "\n");
    s.append(password);
    s
}

/// The pattern that finds the client's version in its banner: the word
/// `OpenVPN`, one white-space character, and three dotted numbers, which
/// form the first capture group.
pub const VERSION_PATTERN: &'static str = "OpenVPN\\s(\\d+\\.\\d+\\.\\d+)";

/// The command that makes the client print its banner.
pub fn version_command() -> (r: Command)
    ensures
        r.program@ == "openvpn"@,
        texts(r.args@) == seq!["--version"@],
{
    let mut args: Vec<String> = Vec::new();
    args.push(String::from_str("--version"));
    assert(texts(args@) =~= seq!["--version"@]);
    Command { program: String::from_str("openvpn"), args }
}

/// Reads the version out of what the search of a banner captured: the
/// captured text where the pattern matched and its group took part, and
/// `Parse` otherwise.
pub fn version_from(found: Option<Option<String>>) -> (r: Result<String, VpnError>)
    ensures
        match found {
            Some(Some(text)) => r matches Ok(v) && v@ == text@,
            _ => r matches Err(VpnError::Parse(m)) && m@ == "OpenVPN version not found"@,
        },
{
    match found {
        Some(Some(text)) => Ok(text),
        _ => Err(VpnError::Parse(String::from_str("OpenVPN version not found"))),
    }
}

/// Finds the client's version in its banner.
///
/// The version is what the first group of [`VERSION_PATTERN`] captured at
/// the pattern's leftmost match in `input`. It is returned exactly when
/// there is such a match; a banner without one is answered with `Parse`.
/// Were the pattern not to compile, every banner would be answered with
/// a `Parse` that says so.
pub fn find_o_vpn_pattern(input: &str) -> (r: Result<String, VpnError>)
    ensures
        pattern_compiles(VERSION_PATTERN@) ==> match first_capture(VERSION_PATTERN@, input@, 1) {
            Some(Some(v)) => r matches Ok(t) && t@ == v,
            _ => r matches Err(VpnError::Parse(m)) && m@ == "OpenVPN version not found"@,
        },
        !pattern_compiles(VERSION_PATTERN@) ==> (r matches Err(VpnError::Parse(m)) && m@
            == "OpenVPN version pattern is not usable"@),
{
    match capture(VERSION_PATTERN, input, 1) {
        Ok(found) => version_from(found),
        Err(_) => Err(VpnError::Parse(String::from_str("OpenVPN version pattern is not usable"))),
    }
}

/// Where the manifest is published.
pub const MANIFEST_URL: &'static str =
    "https://raw.githubusercontent.com/CyR1en/fvpnc/master/res/vpn_config.csv";

/// Where the bundle of server configs is published.
pub const BUNDLE_URL: &'static str = "https://vpn.ncapi.io/groupedServerList.zip";

/// Where the bundle is kept between its download and its extraction.
pub const BUNDLE_PATH: &'static str = "/tmp/groupedServerList.zip";

/// A file to fetch: where from, where to, and the directory that has to
/// exist before it can be written.
#[derive(Debug)]
pub struct Download {
    pub url: String,
    pub path: String,
    pub folder: String,
}

/// Plans the download of `url` to `path`: the directory to make sure of
/// is the one that holds `path`. Fails with `Io` exactly when `path` has
/// no last component that can name a file.
pub fn download_file(url: &str, path: &str) -> (r: Result<Download, VpnError>)
    ensures
        match r {
            Ok(d) => d.url@ == url@ && d.path@ == path@ && parent_dir(path@) == Some(d.folder@),
            Err(e) => e is Io && parent_dir(path@) is None,
        },
{
    match parent_of(path) {
        Some(folder) => Ok(
            Download { url: String::from_str(url), path: String::from_str(path), folder },
        ),
        None => Err(VpnError::Io(joined("no directory holds ", path))),
    }
}

/// The bundle's temporary place lies directly in `/tmp`.
pub proof fn lemma_bundle_folder()
    ensures
        parent_dir(BUNDLE_PATH@) == Some("/tmp"@),
{
    reveal_strlit("/tmp/groupedServerList.zip");
    reveal_strlit("/tmp");
    reveal_strlit(".");
    reveal_strlit("..");
    let path = BUNDLE_PATH@;
    lemma_base_start_is(path, 5);
    let stem = path.subrange(0, 5);
    assert(stem.last() == '/');
    assert(stem.drop_last().last() == 'p');
    assert(strip_slashes(stem.drop_last()) == stem.drop_last());
    assert(strip_slashes(stem) == stem.drop_last());
    assert(stem.drop_last() =~= "/tmp"@);
    assert(base_name(path).len() == 21);
}

/// The download of the manifest to its place in the launcher's directory.
pub fn download_csv() -> (r: Download)
    ensures
        r.url@ == MANIFEST_URL@,
        r.path@ == CONFIG_CSV@,
        r.folder@ == CONFIG_DIR@,
{
    proof {
        lemma_manifest_folder();
    }
    match download_file(MANIFEST_URL, CONFIG_CSV) {
        Ok(d) => d,
        Err(_) => unreached(),
    }
}

/// The download of the bundle of server configs to its temporary place.
pub fn download_configs() -> (r: Download)
    ensures
        r.url@ == BUNDLE_URL@,
        r.path@ == BUNDLE_PATH@,
        r.folder@ == "/tmp"@,
{
    proof {
        lemma_bundle_folder();
    }
    match download_file(BUNDLE_URL, BUNDLE_PATH) {
        Ok(d) => d,
        Err(_) => unreached(),
    }
}

/// What to do about the manifest: nothing when it is among the paths
/// found on disk, else fetch it.
pub fn ensure_manifest(existing: &Vec<String>) -> (r: Option<Download>)
    ensures
        match r {
            None => path_set(existing@).contains(CONFIG_CSV@),
            Some(d) => !path_set(existing@).contains(CONFIG_CSV@) && d.url@ == MANIFEST_URL@
                && d.path@ == CONFIG_CSV@ && d.folder@ == CONFIG_DIR@,
        },
{
    if contains_path(existing, CONFIG_CSV) {
        None
    } else {
        Some(download_csv())
    }
}

} // verus!
