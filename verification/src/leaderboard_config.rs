//! Where the service stores its data and where it listens.

use crate::text::copy_text;
use vstd::prelude::*;
use vstd::string::*;

verus! {

#[derive(Debug)]
pub struct LeaderboardConfig {
    pub database_url: String,
    pub app_leaderboard_host: String,
    pub app_leaderboard_port: String,
}

impl LeaderboardConfig {
    /// The address to listen on: host and port, joined by a colon.
    pub fn bind_address(&self) -> (r: String)
        ensures
            r@ == self.app_leaderboard_host@ + seq![':'] + self.app_leaderboard_port@,
    {
        proof {
            reveal_strlit(":");
        }
        copy_text(&self.app_leaderboard_host).concat(":").concat(
            self.app_leaderboard_port.as_str(),
        )
    }
}

} // verus!
