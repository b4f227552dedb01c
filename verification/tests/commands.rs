use okto::commands::{
    allowed, command_args, command_help_text, command_list_text, group_name, points_to_slash_commands, prefix_for,
    AccessFacts, CommandDetails, CommandOption, CommandOptionType, CommandType, DiscordCommandDetails, Handler,
    MANAGE_GUILD,
};

fn details(name: &str, description: &str, default_permission: bool) -> CommandDetails {
    CommandDetails {
        name: name.to_owned(),
        description: description.to_owned(),
        options: vec![],
        default_permission,
        available_in_dms: true,
    }
}

fn option(name: &str, required: bool) -> CommandOption {
    CommandOption {
        option_type: CommandOptionType::String,
        name: name.to_owned(),
        description: String::new(),
        required,
        min_value: None,
        max_value: None,
    }
}

#[test]
fn commands_are_found_by_name_and_replaced() {
    let mut h: Handler<u8> = Handler::new();
    assert!(h.add_command(&details("ping", "Ping the bot", true), 1).is_ok());
    assert!(h.add_command(&details("help", "Get help", true), 2).is_ok());
    assert_eq!(h.get("ping"), Some(&1));
    assert!(h.add_command(&details("ping", "Ping again", true), 3).is_ok());
    assert_eq!(h.get("ping"), Some(&3));
    assert_eq!(h.get("nope"), None);
    assert_eq!(h.get_command_list(), vec![&3, &2]);
}

#[test]
fn commands_need_a_short_description() {
    let mut h: Handler<u8> = Handler::new();
    assert_eq!(h.add_command(&details("x", "", true), 1).unwrap_err(), "Command x has no description");
    let long = "a".repeat(101);
    assert_eq!(
        h.add_command(&details("y", &long, true), 1).unwrap_err(),
        "Command y has a description longer than 100 characters"
    );
    assert!(h.add_command(&details("z", &"a".repeat(100), true), 1).is_ok());
    assert!(h.get("x").is_none());
    assert!(h.get("y").is_none());
}

#[test]
fn discord_gets_the_manage_server_permission_for_closed_commands() {
    let open = DiscordCommandDetails::from(details("a", "b", true));
    assert_eq!(open.default_member_permissions, None);
    let closed = DiscordCommandDetails::from(details("a", "b", false));
    assert_eq!(closed.default_member_permissions, Some(MANAGE_GUILD));
    assert!(closed.dm_permission);
}

#[test]
fn command_and_option_types_have_discords_numbers() {
    assert_eq!(CommandType::ChatInput.number(), 1);
    assert_eq!(CommandType::Message.number(), 3);
    assert_eq!(CommandOptionType::SubCommand.number(), 1);
    assert_eq!(CommandOptionType::Integer.number(), 4);
    assert_eq!(CommandOptionType::Number.number(), 10);
}

#[test]
fn help_texts() {
    let mut d = details("nextlaunch", "Get the next launch", true);
    assert_eq!(command_help_text(&d), "**Description:** Get the next launch");
    d.options = vec![option("lsp", false), option("launch", true)];
    assert_eq!(command_args(&d.options), "[lsp] <launch> ");
    assert_eq!(
        command_help_text(&d),
        "**Description:** Get the next launch\n**Arguments:** [lsp] <launch> "
    );
    assert_eq!(command_list_text(&vec!["ping".to_owned(), "help".to_owned()]), "\n- **/ping**\n- **/help**");
}

#[test]
fn group_names_come_from_the_file_name() {
    assert_eq!(group_name("src/commands/launches.rs"), "Launches");
    assert_eq!(group_name("general.rs"), "General");
    assert_eq!(group_name("src/commands/reminders/mod.rs"), "Mod");
}

#[test]
fn closed_commands_need_the_owner_or_a_permission() {
    let facts = AccessFacts {
        bot_owner: false,
        in_guild_channel: true,
        guild_owner: Some(1),
        user: 2,
        permissions: Some(0),
    };
    assert!(allowed(&vec![true, false], facts));
    assert!(!allowed(&vec![false, false], facts));
    assert!(allowed(&vec![false], AccessFacts { permissions: Some(8), ..facts }));
    assert!(allowed(&vec![false], AccessFacts { permissions: Some(32), ..facts }));
    assert!(allowed(&vec![false], AccessFacts { user: 1, ..facts }));
    assert!(allowed(&vec![false], AccessFacts { bot_owner: true, in_guild_channel: false, ..facts }));
    assert!(!allowed(&vec![false], AccessFacts { in_guild_channel: false, ..facts }));
    assert!(!allowed(&vec![false], AccessFacts { guild_owner: None, ..facts }));
}

#[test]
fn prefixes_and_slash_command_hints() {
    assert_eq!(prefix_for(true, Some("!".to_owned())), "!");
    assert_eq!(prefix_for(false, Some("!".to_owned())), ";");
    assert_eq!(prefix_for(true, None), ";");
    assert!(points_to_slash_commands(true, false));
    assert!(!points_to_slash_commands(true, true));
}

#[test]
fn group_positions_list_the_commands_of_a_file() {
    let files: Vec<String> = ["a.rs", "b.rs", "a.rs", "c.rs"].iter().map(|s| s.to_string()).collect();
    assert_eq!(okto::commands::group_positions(&files, "a.rs"), vec![0, 2]);
    assert_eq!(okto::commands::group_positions(&files, "d.rs"), Vec::<usize>::new());
}
