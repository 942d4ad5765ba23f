//! Where Steam caches account avatars. Decoding and shaping the image (and
//! checking that the file exists) is left to the caller.

use vstd::prelude::*;

use crate::path::{join_path, joinable_base, joined, lemma_join_again, relative_part};
use crate::text::concat2;

verus! {

/// The file name of the cached avatar of a SteamID64.
pub open spec fn avatar_file(steam_id64: Seq<char>) -> Seq<char> {
    steam_id64 + ".png"@
}

/// Path of the locally cached avatar PNG for a SteamID64:
/// `<steam_path>\\config\\avatarcache\\<steam_id64>.png`, each piece joined
/// on with one separator (see [`joined`]). The avatar exists only if this
/// file does.
pub fn avatar_path(steam_path: &str, steam_id64: &str) -> (r: String)
    ensures
        joinable_base(steam_path@) && relative_part(avatar_file(steam_id64@)) ==> exists|
            config: Seq<char>,
            cache: Seq<char>,
        |
            joined(config, steam_path@, "config"@) && joined(cache, config, "avatarcache"@)
                && joined(r@, cache, avatar_file(steam_id64@)),
{
    proof {
        reveal_strlit("config");
        reveal_strlit("avatarcache");
        assert("config"@ =~= seq!['c', 'o', 'n', 'f', 'i', 'g']);
        assert("avatarcache"@ =~= seq!['a', 'v', 'a', 't', 'a', 'r', 'c', 'a', 'c', 'h', 'e']);
    }
    let config = join_path(steam_path, "config");
    proof {
        if joinable_base(steam_path@) {
            lemma_join_again(config@, steam_path@, "config"@);
        }
    }
    let cache = join_path(config.as_str(), "avatarcache");
    proof {
        if joinable_base(steam_path@) {
            lemma_join_again(cache@, config@, "avatarcache"@);
        }
    }
    let file = concat2(steam_id64, ".png");
    join_path(cache.as_str(), file.as_str())
}

} // verus!
