use sleeping_starter::discord::{shutdown_message, wake_up_message, EMBED_COLOR};
use sleeping_starter::helper::{fav_icon_from, fav_icon_from_bytes, fav_icon_source, png_data_url, FavIconSource, ServerStatus};
use sleeping_starter::settings::{backup_file_name, default_settings, merge_settings, Version, WebServeDynmap};
use sleeping_starter::text::chars_of;

#[test]
fn defaults_are_the_documented_ones() {
    let d = default_settings();
    assert_eq!(d.serverName, "A Minecraft Server");
    assert_eq!(d.serverPort, 25565);
    assert_eq!(d.maxPlayers, 20);
    assert_eq!(d.loginMessage, "Welcome to the server!");
    assert!(d.serverOnlineMode);
    assert_eq!(d.webPort, 0);
    assert!(!d.webStopOnStart);
    assert!(d.startMinecraft);
    assert_eq!(d.minecraftCommand, "java -jar server.jar nogui");
    assert!(matches!(d.version, Some(Version::Bool(false))));
    assert!(d.favIcon.is_none() && d.favIconPath.is_none() && d.discordWebhookUrl.is_none());
    assert!(d.bedrockPort.is_none() && d.webServeDynmap.is_none() && d.hideIpInLogs.is_none());
}

#[test]
fn file_settings_fall_back_on_defaults() {
    let mut file = default_settings();
    file.serverName = "§aMine".to_string();
    file.serverPort = 25566;
    file.version = None;
    file.bedrockPort = Some(19132);
    file.webServeDynmap = Some(WebServeDynmap::Bool(true));
    let mut defaults = default_settings();
    defaults.bedrockPort = Some(1);
    defaults.favIcon = Some("data:x".to_string());
    let merged = merge_settings(file, defaults);
    assert_eq!(merged.serverName, "§aMine");
    assert_eq!(merged.serverPort, 25566);
    assert!(matches!(merged.version, Some(Version::Bool(false))));
    assert_eq!(merged.bedrockPort, Some(19132));
    assert!(matches!(merged.webServeDynmap, Some(WebServeDynmap::Bool(true))));
    assert_eq!(merged.favIcon.as_deref(), Some("data:x"));
    assert!(merged.whiteListedNames.is_none());
}

#[test]
fn backup_name_carries_the_time() {
    assert_eq!(backup_file_name("sleepingSettings.yml", 1700000000), "sleepingSettings-invalid-1700000000.yml");
    assert_eq!(backup_file_name("a.yml", 0), "a-invalid-0.yml");
    assert_eq!(backup_file_name("b.yml", u64::MAX), "b-invalid-18446744073709551615.yml");
}

#[test]
fn icon_bytes_become_a_data_url() {
    assert_eq!(fav_icon_from_bytes(&vec![0xfb, 0xff]), "data:image/png;base64,-_8=");
    assert_eq!(fav_icon_from_bytes(&b"Man".to_vec()), "data:image/png;base64,TWFu");
    assert_eq!(fav_icon_from_bytes(&vec![]), "data:image/png;base64,");
    assert_eq!(png_data_url("QQ=="), "data:image/png;base64,QQ==");
}

#[test]
fn icon_source_prefers_the_inline_icon() {
    let mut st = default_settings();
    assert_eq!(fav_icon_source(&st), FavIconSource::Default);
    st.favIconPath = Some("icon.png".to_string());
    assert_eq!(fav_icon_source(&st), FavIconSource::File("icon.png".to_string()));
    st.favIcon = Some("data:inline".to_string());
    assert_eq!(fav_icon_source(&st), FavIconSource::Inline("data:inline".to_string()));
}

#[test]
fn icon_falls_back_on_the_default() {
    let file = FavIconSource::File("icon.png".to_string());
    assert_eq!(fav_icon_from(&file, None, "dflt"), "dflt");
    assert_eq!(fav_icon_from(&file, Some(&vec![0x4d]), "dflt"), "data:image/png;base64,TQ==");
    assert_eq!(fav_icon_from(&FavIconSource::Default, Some(&vec![1]), "dflt"), "dflt");
    assert_eq!(fav_icon_from(&FavIconSource::Inline("x".to_string()), None, "dflt"), "x");
}

#[test]
fn webhook_messages() {
    let m = wake_up_message("Steve");
    assert!(m.content.is_none());
    assert_eq!(m.embeds.len(), 1);
    assert_eq!(m.embeds[0].title, "⏰ Steve woke up the server !");
    assert_eq!(m.embeds[0].color, EMBED_COLOR);
    assert_eq!(EMBED_COLOR, 25344);
    assert_eq!(m.username, "SleepingServerStarter");
    let s = shutdown_message();
    assert_eq!(s.embeds[0].title, "💤 Server has shut down.");
    assert!(s.avatar_url.ends_with("sleepingLogo.png"));
}

#[test]
fn chars_in_order() {
    assert_eq!(chars_of("a§b"), vec!['a', '§', 'b']);
    assert_ne!(ServerStatus::Running, ServerStatus::Sleeping);
}
