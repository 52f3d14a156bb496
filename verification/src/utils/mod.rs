//! The protocols, the server locator and the list of cities.

pub mod sanity;

use crate::error::VpnError;
use crate::paths::{server_path, server_path_text, SERVER_ROOT};
use crate::text::{
    joined, contains, lemma_contains_in_back, dedup_strings, lemma_without_repeats, lemma_without_repeats_members,
    sort_strings, str_contains, strictly_ascending, texts,
};
use crate::utils::sanity::VpnConfig;
use vstd::prelude::*;
use vstd::string::*;

verus! {

/// The transport a server config is written for.
#[derive(Clone, Copy, Debug, PartialEq, Eq)]
pub enum Proto {
    UDP,
    TCP,
}

impl Proto {
    /// The protocol's name as it appears in paths.
    pub open spec fn text(self) -> Seq<char> {
        match self {
            Proto::UDP => "udp"@,
            Proto::TCP => "tcp"@,
        }
    }

    /// The protocol's name in lower case: `udp` or `tcp`.
    pub fn to_string(&self) -> (r: String)
        ensures
            r@ == self.text(),
    {
        match self {
            Proto::UDP => String::from_str("udp"),
            Proto::TCP => String::from_str("tcp"),
        }
    }
}

/// The directory that holds the server configs of a protocol.
pub open spec fn config_dir_text(proto: Proto) -> Seq<char> {
    SERVER_ROOT@ + proto.text()
}

/// The directory that holds the server configs of `proto`.
pub fn config_dir(proto: Proto) -> (r: String)
    ensures
        r@ == config_dir_text(proto),
{
    joined(SERVER_ROOT, proto.to_string().as_str())
}

/// The path of the file named `file` in the directory of `proto`.
pub open spec fn config_path(proto: Proto, file: Seq<char>) -> Seq<char> {
    server_path_text(proto.text(), file)
}

/// The path of `file` under the directory of `proto` holds `city`.
pub open spec fn names_city(city: Seq<char>, proto: Proto, file: Seq<char>) -> bool {
    contains(config_path(proto, file), city)
}

/// What the locator answers, given the directory's listing: the path of
/// the first file whose whole path holds `city`, if there is one.
pub open spec fn located(city: Seq<char>, proto: Proto, files: Seq<Seq<char>>) -> Option<
    Seq<char>,
>
    decreases files.len(),
{
    if files.len() == 0 {
        None
    } else if names_city(city, proto, files[0]) {
        Some(config_path(proto, files[0]))
    } else {
        located(city, proto, files.drop_first())
    }
}

/// Finds the server config for a city.
///
/// `listing` holds the names of the files in the directory of `proto`, in
/// the order the directory gave them, or `None` when there is no such
/// directory. The answer is the full path of the first file whose full
/// path holds `city` as a run of characters. When no file qualifies, or
/// the directory is missing, the answer is `NotFound`.
pub fn find_config(city: &str, proto: Proto, listing: Option<&Vec<String>>) -> (r: Result<
    String,
    VpnError,
>)
    ensures
        match r {
            Ok(path) => {
                &&& listing matches Some(files)
                &&& located(city@, proto, texts(files@)) == Some(path@)
                &&& contains(path@, city@)
            },
            Err(e) => {
                &&& e matches VpnError::NotFound(m)
                &&& m@ == "No config found for "@ + city@
                &&& listing matches Some(files) ==> located(city@, proto, texts(files@)) is None
            },
        },
{
    match listing {
        Some(files) => {
            let dir = proto.to_string();
            let mut i: usize = 0;
            proof {
                assert(texts(files@).subrange(0, files.len() as int) =~= texts(files@));
            }
            while i < files.len()
                invariant
                    i <= files.len(),
                    listing == Some(files),
                    dir@ == proto.text(),
                    located(city@, proto, texts(files@)) == located(
                        city@,
                        proto,
                        texts(files@).subrange(i as int, files.len() as int),
                    ),
                decreases files.len() - i,
            {
                let path = server_path(dir.as_str(), files[i].as_str());
                let ghost rest = texts(files@).subrange(i as int, files.len() as int);
                assert(rest[0] == files@[i as int]@);
                assert(path@ == config_path(proto, rest[0]));
                if str_contains(path.as_str(), city) {
                    assert(rest.len() > 0);
                    assert(located(city@, proto, rest) == Some(path@));
                    return Ok(path);
                }
                assert(rest.drop_first() =~= texts(files@).subrange(i + 1, files.len() as int));
                i = i + 1;
            }
            Err(VpnError::NotFound(joined("No config found for ", city)))
        },
        None => Err(VpnError::NotFound(joined("No config found for ", city))),
    }
}

/// The locator answers with the path of file `i` once no earlier file
/// qualifies and file `i` does; and it answers nothing exactly when no
/// file qualifies.
pub proof fn lemma_located(city: Seq<char>, proto: Proto, files: Seq<Seq<char>>)
    ensures
        located(city, proto, files) is None <==> forall|k: int|
            0 <= k < files.len() ==> !names_city(city, proto, #[trigger] files[k]),
        located(city, proto, files) matches Some(path) ==> contains(path, city) && exists|i: int|
            0 <= i < files.len() && path == config_path(proto, #[trigger] files[i]),
    decreases files.len(),
{
    if files.len() > 0 {
        let rest = files.drop_first();
        lemma_located(city, proto, rest);
        assert forall|k: int| 0 <= k < rest.len() implies rest[k] == files[k + 1] by {}
        if names_city(city, proto, files[0]) {
        } else {
            if located(city, proto, files) is None {
                assert forall|k: int| 0 <= k < files.len() implies !names_city(
                    city,
                    proto,
                    #[trigger] files[k],
                ) by {
                    if k > 0 {
                        assert(rest[k - 1] == files[k]);
                    }
                }
            } else {
                let path = located(city, proto, rest)->0;
                let i = choose|i: int|
                    0 <= i < rest.len() && path == config_path(proto, #[trigger] rest[i]);
                assert(files[i + 1] == rest[i]);
            }
        }
    }
}

/// A city that a listed file's name holds is found, and the path found
/// holds the city.
pub proof fn lemma_listed_city_is_found(
    city: Seq<char>,
    proto: Proto,
    files: Seq<Seq<char>>,
    i: int,
)
    requires
        0 <= i < files.len(),
        contains(files[i], city),
    ensures
        located(city, proto, files) matches Some(path) && contains(path, city),
{
    lemma_contains_in_back(SERVER_ROOT@ + proto.text() + "/"@, files[i], city);
    assert(names_city(city, proto, files[i]));
    lemma_located(city, proto, files);
}

/// A city of the manifest is found, and the path found holds the city,
/// once the file of its row is in the directory and is named after it.
pub proof fn lemma_manifest_city_is_found(
    configs: Seq<VpnConfig>,
    row: int,
    proto: Proto,
    files: Seq<Seq<char>>,
)
    requires
        0 <= row < configs.len(),
        contains(configs[row].filename@, configs[row].city@),
        files.contains(configs[row].filename@),
    ensures
        located(configs[row].city@, proto, files) matches Some(path) && contains(
            path,
            configs[row].city@,
        ),
{
    let i = choose|i: int| 0 <= i < files.len() && files[i] == configs[row].filename@;
    lemma_listed_city_is_found(configs[row].city@, proto, files, i);
}

/// The cities of a manifest: the city of each row, each city once, in
/// ascending order.
pub fn get_cities(config: &Vec<VpnConfig>) -> (r: Vec<String>)
    ensures
        strictly_ascending(texts(r@)),
        forall|city: Seq<char>| #[trigger]
            texts(r@).contains(city) <==> exists|i: int|
                0 <= i < config.len() && (#[trigger] config[i]).city@ == city,
{
    let mut cities: Vec<String> = Vec::new();
    let mut i: usize = 0;
    while i < config.len()
        invariant
            i <= config.len(),
            cities.len() == i,
            forall|k: int| 0 <= k < i ==> (#[trigger] cities[k])@ == config[k].city@,
        decreases config.len() - i,
    {
        cities.push(config[i].city.clone());
        i = i + 1;
    }
    let ghost listed = texts(cities@);
    sort_strings(&mut cities);
    let ghost sorted = texts(cities@);
    dedup_strings(&mut cities);
    proof {
        lemma_without_repeats(sorted);
        listed.to_multiset_ensures();
        sorted.to_multiset_ensures();
        assert forall|city: Seq<char>| #[trigger]
            texts(cities@).contains(city) <==> exists|i: int|
                0 <= i < config.len() && (#[trigger] config[i]).city@ == city by {
            lemma_without_repeats_members(sorted, city);
            assert(sorted.to_multiset().count(city) == listed.to_multiset().count(city));
            assert(sorted.contains(city) <==> listed.contains(city));
            if listed.contains(city) {
                let k = choose|k: int| 0 <= k < listed.len() && listed[k] == city;
                assert(config[k].city@ == city);
            }
            if exists|i: int| 0 <= i < config.len() && (#[trigger] config[i]).city@ == city {
                let k = choose|i: int| 0 <= i < config.len() && (#[trigger] config[i]).city@ == city;
                assert(listed[k] == city);
            }
        }
    }
    cities
}

} // verus!
