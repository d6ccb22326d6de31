use colored::Colorize;
use discordbot::logger::format_message;
use discordbot::util::get_server_and_channel_name;

#[test]
fn guild_message_matches_styled_layout() {
    let guild_result = Ok(("TestServer".to_string(), "general".to_string()));
    let expected = format!(
        "[{} | Channel {}]\n {}: {}",
        "TestServer".yellow().italic(),
        "general".purple().italic(),
        "Alice".blue().bold(),
        "Hello".green()
    );
    let s = format_message(guild_result, "Hello", "Alice");
    assert_eq!(s, expected);
}

#[test]
fn guild_message_keeps_all_pieces() {
    let guild_result = Ok(("TestServer".to_string(), "general".to_string()));
    let s = format_message(guild_result, "Hello", "Alice");
    assert!(s.contains("TestServer"));
    assert!(s.contains("Channel"));
    assert!(s.contains("general"));
    assert!(s.contains("Alice"));
    assert!(s.contains("Hello"));
}

#[test]
fn dm_message_is_marked_as_dm() {
    let s = format_message(Err("No guild ID".to_string()), "psst", "Bob");
    let expected = format!("[DM]\n {}: {}", "Bob".blue().bold(), "psst".green());
    assert_eq!(s, expected);
    assert!(s.starts_with("[DM]"));
}

#[test]
fn server_and_channel_resolution() {
    assert_eq!(
        get_server_and_channel_name(None, None),
        Err("No guild ID".to_string())
    );
    assert_eq!(
        get_server_and_channel_name(Some(9), None),
        Err("Guild not found".to_string())
    );
    assert_eq!(
        get_server_and_channel_name(
            Some(9),
            Some(("TestServer".to_string(), "general".to_string()))
        ),
        Ok(("TestServer".to_string(), "general".to_string()))
    );
}
