//! The server's settings, their defaults, and how settings read from a file
//! fall back on the defaults.
use vstd::prelude::*;
use crate::text::{decimal, push_decimal, push_str};

verus! {

/// Whether the web page serves a dynmap, and where from.
#[derive(Clone, Debug)]
pub enum WebServeDynmap {
    Bool(bool),
    String(String),
    Unset,
}

/// The version shown to clients, or none.
#[derive(Clone, Debug)]
pub enum Version {
    String(String),
    Bool(bool),
    Unset,
}

/// The settings of the server.
#[derive(Clone, Debug)]
#[allow(non_snake_case)]
pub struct Settings {
    pub serverName: String,
    pub serverPort: u16,
    pub bedrockPort: Option<u16>,
    pub maxPlayers: u16,
    pub loginMessage: String,
    pub serverOnlineMode: bool,
    pub webPort: u16,
    pub webStopOnStart: bool,
    pub webServeDynmap: Option<WebServeDynmap>,
    pub webSubPath: Option<String>,
    pub startMinecraft: bool,
    pub minecraftCommand: String,
    pub preventStop: Option<bool>,
    pub version: Option<Version>,
    pub favIcon: Option<String>,
    pub favIconPath: Option<String>,
    pub minecraftWorkingDirectory: Option<String>,
    pub discordWebhookUrl: Option<String>,
    pub blackListAddress: Option<Vec<String>>,
    pub whiteListedNames: Option<Vec<String>>,
    pub hideIpInLogs: Option<bool>,
}

/// `a` when it is set, else `b`.
pub open spec fn or_else<T>(a: Option<T>, b: Option<T>) -> Option<T> {
    match a {
        Some(x) => Some(x),
        None => b,
    }
}

fn pick<T>(a: Option<T>, b: Option<T>) -> (r: Option<T>)
    ensures
        r == or_else(a, b),
{
    match a {
        Some(x) => Some(x),
        None => b,
    }
}

/// The settings used when no settings file can be read.
pub fn default_settings() -> (s: Settings)
    ensures
        s.serverName@ == "A Minecraft Server"@,
        s.serverPort == 25565,
        s.maxPlayers == 20,
        s.loginMessage@ == "Welcome to the server!"@,
        s.serverOnlineMode,
        s.webPort == 0,
        !s.webStopOnStart,
        s.startMinecraft,
        s.minecraftCommand@ == "java -jar server.jar nogui"@,
        s.version == Some(Version::Bool(false)),
        s.favIcon is None,
        s.favIconPath is None,
        s.minecraftWorkingDirectory is None,
        s.discordWebhookUrl is None,
        s.blackListAddress is None,
        s.whiteListedNames is None,
        s.hideIpInLogs is None,
        s.bedrockPort is None,
        s.preventStop is None,
        s.webServeDynmap is None,
        s.webSubPath is None,
{
    Settings {
        serverName: "A Minecraft Server".to_owned(),
        serverPort: 25565,
        maxPlayers: 20,
        loginMessage: "Welcome to the server!".to_owned(),
        serverOnlineMode: true,
        webPort: 0,
        webStopOnStart: false,
        startMinecraft: true,
        minecraftCommand: "java -jar server.jar nogui".to_owned(),
        version: Some(Version::Bool(false)),
        favIcon: None,
        favIconPath: None,
        minecraftWorkingDirectory: None,
        discordWebhookUrl: None,
        blackListAddress: None,
        whiteListedNames: None,
        hideIpInLogs: None,
        bedrockPort: None,
        preventStop: None,
        webServeDynmap: None,
        webSubPath: None,
    }
}

/// The settings read from a file, each optional field that the file leaves
/// out taken from `defaults`; the required fields come from the file.
pub fn merge_settings(from_file: Settings, defaults: Settings) -> (s: Settings)
    ensures
        s.serverName == from_file.serverName,
        s.serverPort == from_file.serverPort,
        s.maxPlayers == from_file.maxPlayers,
        s.loginMessage == from_file.loginMessage,
        s.serverOnlineMode == from_file.serverOnlineMode,
        s.webPort == from_file.webPort,
        s.webStopOnStart == from_file.webStopOnStart,
        s.startMinecraft == from_file.startMinecraft,
        s.minecraftCommand == from_file.minecraftCommand,
        s.bedrockPort == or_else(from_file.bedrockPort, defaults.bedrockPort),
        s.webServeDynmap == or_else(from_file.webServeDynmap, defaults.webServeDynmap),
        s.webSubPath == or_else(from_file.webSubPath, defaults.webSubPath),
        s.preventStop == or_else(from_file.preventStop, defaults.preventStop),
        s.version == or_else(from_file.version, defaults.version),
        s.favIcon == or_else(from_file.favIcon, defaults.favIcon),
        s.favIconPath == or_else(from_file.favIconPath, defaults.favIconPath),
        s.minecraftWorkingDirectory == or_else(
            from_file.minecraftWorkingDirectory,
            defaults.minecraftWorkingDirectory,
        ),
        s.discordWebhookUrl == or_else(from_file.discordWebhookUrl, defaults.discordWebhookUrl),
        s.blackListAddress == or_else(from_file.blackListAddress, defaults.blackListAddress),
        s.whiteListedNames == or_else(from_file.whiteListedNames, defaults.whiteListedNames),
        s.hideIpInLogs == or_else(from_file.hideIpInLogs, defaults.hideIpInLogs),
{
    Settings {
        serverName: from_file.serverName,
        serverPort: from_file.serverPort,
        bedrockPort: pick(from_file.bedrockPort, defaults.bedrockPort),
        maxPlayers: from_file.maxPlayers,
        loginMessage: from_file.loginMessage,
        serverOnlineMode: from_file.serverOnlineMode,
        webPort: from_file.webPort,
        webStopOnStart: from_file.webStopOnStart,
        webServeDynmap: pick(from_file.webServeDynmap, defaults.webServeDynmap),
        webSubPath: pick(from_file.webSubPath, defaults.webSubPath),
        startMinecraft: from_file.startMinecraft,
        minecraftCommand: from_file.minecraftCommand,
        preventStop: pick(from_file.preventStop, defaults.preventStop),
        version: pick(from_file.version, defaults.version),
        favIcon: pick(from_file.favIcon, defaults.favIcon),
        favIconPath: pick(from_file.favIconPath, defaults.favIconPath),
        minecraftWorkingDirectory: pick(
            from_file.minecraftWorkingDirectory,
            defaults.minecraftWorkingDirectory,
        ),
        discordWebhookUrl: pick(from_file.discordWebhookUrl, defaults.discordWebhookUrl),
        blackListAddress: pick(from_file.blackListAddress, defaults.blackListAddress),
        whiteListedNames: pick(from_file.whiteListedNames, defaults.whiteListedNames),
        hideIpInLogs: pick(from_file.hideIpInLogs, defaults.hideIpInLogs),
    }
}

/// The name under which a settings file that could not be read is kept: the
/// path without its `.yml` ending, then `-invalid-`, the time in seconds and
/// `.yml`.
pub fn backup_file_name(settings_path: &str, secs: u64) -> (r: String)
    requires
        settings_path@.len() >= 4,
        settings_path@.subrange(settings_path@.len() - 4, settings_path@.len() as int) == ".yml"@,
    ensures
        r@ == settings_path@.subrange(0, settings_path@.len() - 4) + "-invalid-"@ + decimal(
            secs as nat,
        ) + ".yml"@,
{
    let n = settings_path.unicode_len();
    let stem = settings_path.substring_char(0, n - 4);
    let mut out = String::new();
    push_str(&mut out, stem);
    push_str(&mut out, "-invalid-");
    push_decimal(&mut out, secs);
    push_str(&mut out, ".yml");
    out
}

} // verus!
