//! The messages posted to a Discord webhook when the server wakes up or shuts
//! down.
use vstd::prelude::*;
use crate::text::push_str;

verus! {

/// The colour of the embeds, as a 24-bit RGB number.
pub const EMBED_COLOR: u32 = 25344;

/// One embed of a message: a title and a colour.
pub struct DiscordEmbed {
    pub title: String,
    pub color: u32,
}

/// The body of a webhook message.
pub struct DiscordContent {
    pub content: Option<()>,
    pub embeds: Vec<DiscordEmbed>,
    pub username: String,
    pub avatar_url: String,
}

/// The name the messages are posted under.
pub open spec fn bot_name() -> Seq<char> {
    "SleepingServerStarter"@
}

/// The avatar the messages are posted with.
pub open spec fn avatar() -> Seq<char> {
    "https://raw.githubusercontent.com/vincss/mcsleepingserverstarter/feature/discord_notification/docs/sleepingLogo.png"@
}

/// Whether `c` is a message with no text and one embed titled `title`, under
/// the bot's name and avatar.
pub open spec fn is_message(c: DiscordContent, title: Seq<char>) -> bool {
    &&& c.content is None
    &&& c.embeds@.len() == 1
    &&& c.embeds@[0].title@ == title
    &&& c.embeds@[0].color == EMBED_COLOR
    &&& c.username@ == bot_name()
    &&& c.avatar_url@ == avatar()
}

fn message(title: String) -> (c: DiscordContent)
    ensures
        is_message(c, title@),
{
    let mut embeds: Vec<DiscordEmbed> = Vec::new();
    embeds.push(DiscordEmbed { title, color: EMBED_COLOR });
    DiscordContent {
        content: None,
        embeds,
        username: "SleepingServerStarter".to_owned(),
        avatar_url: "https://raw.githubusercontent.com/vincss/mcsleepingserverstarter/feature/discord_notification/docs/sleepingLogo.png".to_owned(),
    }
}

/// The message that a player woke the server up.
pub fn wake_up_message(player_name: &str) -> (c: DiscordContent)
    ensures
        is_message(c, "⏰ "@ + player_name@ + " woke up the server !"@),
{
    let mut title = String::new();
    push_str(&mut title, "⏰ ");
    push_str(&mut title, player_name);
    push_str(&mut title, " woke up the server !");
    message(title)
}

/// The message that the server has shut down.
pub fn shutdown_message() -> (c: DiscordContent)
    ensures
        is_message(c, "💤 Server has shut down."@),
{
    message("💤 Server has shut down.".to_owned())
}

} // verus!
