//! Match summaries for a Discord channel.

use crate::text::{decimal, decimal_text};
use vstd::prelude::*;

verus! {

/// The summary of a match. The ratings are given as they are to be shown.
pub open spec fn match_message(
    winner_name: Seq<char>,
    loser_name: Seq<char>,
    winner_score: u16,
    loser_score: u16,
    winner_rating: Seq<char>,
    loser_rating: Seq<char>,
) -> Seq<char> {
    ":trophy: **"@ + winner_name + "** ("@ + decimal(winner_score as nat) + ") beats **"@
        + loser_name + "** ("@ + decimal(loser_score as nat) + ")\n"@ + winner_name + ": **"@
        + winner_rating + "** rating\n"@ + loser_name + ": **"@ + loser_rating + "** rating"@
}

/// A message to be posted to a webhook.
pub struct WebhookPost {
    pub url: String,
    pub content: String,
}

/// The channel that summaries go to, if there is one.
pub struct Discord {
    pub webhook_url: Option<String>,
}

impl Discord {
    pub fn new(webhook_url: Option<String>) -> (r: Self)
        ensures
            r.webhook_url == webhook_url,
    {
        Discord { webhook_url }
    }

    /// What is to be posted when a match ends: nothing without a webhook, or
    /// with an empty one.
    pub fn notify_match(
        &self,
        winner_name: &str,
        loser_name: &str,
        winner_score: u16,
        loser_score: u16,
        winner_rating: &str,
        loser_rating: &str,
    ) -> (r: Option<WebhookPost>)
        ensures
            match r {
                Some(post) => {
                    &&& self.webhook_url is Some
                    &&& self.webhook_url->0@.len() > 0
                    &&& post.url@ == self.webhook_url->0@
                    &&& post.content@ == match_message(
                        winner_name@,
                        loser_name@,
                        winner_score,
                        loser_score,
                        winner_rating@,
                        loser_rating@,
                    )
                },
                None => self.webhook_url is None || self.webhook_url->0@.len() == 0,
            },
    {
        let url = match &self.webhook_url {
            Some(url) => url,
            None => {
                return None;
            },
        };
        if url.as_str().is_empty() {
            return None;
        }
        let winner_points = decimal_text(winner_score);
        let loser_points = decimal_text(loser_score);
        let mut content = ":trophy: **".to_owned();
        content.append(winner_name);
        content.append("** (");
        content.append(winner_points.as_str());
        content.append(") beats **");
        content.append(loser_name);
        content.append("** (");
        content.append(loser_points.as_str());
        content.append(")\n");
        content.append(winner_name);
        content.append(": **");
        content.append(winner_rating);
        content.append("** rating\n");
        content.append(loser_name);
        content.append(": **");
        content.append(loser_rating);
        content.append("** rating");
        Some(WebhookPost { url: url.clone(), content })
    }
}

} // verus!
