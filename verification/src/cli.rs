//! The command line.
use vstd::prelude::*;
use vstd::string::*;

use crate::config::{Config, ConfigView};
use crate::text::str_eq;
use crate::ws::server::{address_text, listen_address};

verus! {

/// The texts of the arguments.
pub open spec fn words(args: Seq<String>) -> Seq<Seq<char>> {
    args.map_values(|s: String| s@)
}

/// The word behind the first `--config` that has one.
pub open spec fn config_path_in(words: Seq<Seq<char>>) -> Option<Seq<char>>
    decreases words.len(),
{
    if words.len() < 2 {
        None
    } else if words[0] == "--config"@ {
        Some(words[1])
    } else {
        config_path_in(words.drop_first())
    }
}

/// The path of the configuration file: what follows the first `--config`.
pub fn config_path(args: &Vec<String>) -> (path: Option<String>)
    ensures
        (match path {
            Some(p) => Some(p@),
            None => None,
        }) == config_path_in(words(args@)),
{
    let ghost all = words(args@);
    let mut i: usize = 0;
    assert(all.skip(0) =~= all);
    while i < args.len() && args.len() - i >= 2
        invariant
            i <= args@.len(),
            all == words(args@),
            config_path_in(all) == config_path_in(all.skip(i as int)),
        decreases args@.len() - i,
    {
        let ghost left = all.skip(i as int);
        assert(left[0] == args@[i as int]@);
        assert(left[1] == args@[i + 1]@);
        assert(left.drop_first() =~= all.skip(i + 1));
        if str_eq(args[i].as_str(), "--config") {
            return Some(args[i + 1].clone());
        }
        i = i + 1;
    }
    None
}

/// Whether the word behind the name of the program asks for a health check.
pub open spec fn asks_for_health_check(words: Seq<Seq<char>>) -> bool {
    words.len() > 1 && words[1] == "healthcheck"@
}

/// Whether the program is asked for a health check: its first argument says so.
pub fn is_healthcheck(args: &Vec<String>) -> (asked: bool)
    ensures
        asked == (args@.len() > 1 && args@[1]@ == "healthcheck"@),
        asked == asks_for_health_check(words(args@)),
{
    args.len() > 1 && str_eq(args[1].as_str(), "healthcheck")
}

/// The address of a health check: that of the server, or the local one where
/// the server listens on all addresses.
pub open spec fn healthcheck_address_of(config: ConfigView) -> Seq<char> {
    address_text(
        if config.addr == "0.0.0.0"@ {
            "127.0.0.1"@
        } else {
            config.addr
        },
        config.port,
    )
}

/// The address of a health check.
pub fn healthcheck_address(config: &Config) -> (text: String)
    ensures
        text@ == healthcheck_address_of(config@),
{
    if str_eq(config.websocket.addr.as_str(), "0.0.0.0") {
        listen_address("127.0.0.1", config.websocket.port)
    } else {
        listen_address(config.websocket.addr.as_str(), config.websocket.port)
    }
}

/// The path of the configuration file is the word behind the first `--config`
/// that has a word behind it; there is none if and only if there is no such
/// `--config`.
pub proof fn law_config_path_is_behind_the_first_option(words: Seq<Seq<char>>)
    ensures
        config_path_in(words) matches Some(path) ==> exists|i: int|
            0 <= i < words.len() - 1 && #[trigger] words[i] == "--config"@ && words[i + 1] == path
                && forall|j: int| 0 <= j < i ==> #[trigger] words[j] != "--config"@,
        config_path_in(words) is None ==> forall|i: int|
            0 <= i < words.len() - 1 ==> #[trigger] words[i] != "--config"@,
    decreases words.len(),
{
    if words.len() >= 2 {
        if words[0] == "--config"@ {
            assert(words[0] == "--config"@ && words[0int + 1] == words[1]);
        } else {
            let rest = words.drop_first();
            law_config_path_is_behind_the_first_option(rest);
            assert(rest.len() == words.len() - 1);
            if let Some(path) = config_path_in(words) {
                let i = choose|i: int|
                    0 <= i < rest.len() - 1 && #[trigger] rest[i] == "--config"@ && rest[i + 1]
                        == path && forall|j: int| 0 <= j < i ==> #[trigger] rest[j] != "--config"@;
                assert(words[i + 1] == rest[i] && words[i + 2] == rest[i + 1]);
                assert forall|j: int| 0 <= j < i + 1 implies #[trigger] words[j]
                    != "--config"@ by {
                    if j > 0 {
                        assert(rest[j - 1] == words[j]);
                    }
                }
                assert(words[i + 1] == "--config"@);
            } else {
                assert forall|i: int| 0 <= i < words.len() - 1 implies #[trigger] words[i]
                    != "--config"@ by {
                    if i > 0 {
                        assert(rest[i - 1] == words[i]);
                    }
                }
            }
        }
    }
}

/// A health check is asked for by one word, directly behind the name of the
/// program, whatever the name is and whatever else follows.
pub proof fn law_health_check_is_asked_for_by_one_word(
    name: Seq<char>,
    word: Seq<char>,
    rest: Seq<Seq<char>>,
)
    ensures
        asks_for_health_check(seq![name, word] + rest) <==> word == "healthcheck"@,
        !asks_for_health_check(seq![name]),
        !asks_for_health_check(Seq::empty()),
{
}

/// A health check goes to the port of the server, at the address that the server
/// listens on, or at the local one where it listens on all.
pub proof fn law_health_check_goes_to_the_server(config: ConfigView)
    ensures
        config.addr != "0.0.0.0"@ ==> healthcheck_address_of(config) == address_text(
            config.addr,
            config.port,
        ),
        config.addr == "0.0.0.0"@ ==> healthcheck_address_of(config) == address_text(
            "127.0.0.1"@,
            config.port,
        ),
{
}

} // verus!
