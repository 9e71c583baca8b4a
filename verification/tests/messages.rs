use fwd_deck::display::AppLaunchError;
use fwd_deck::targets::EditTargetError;
use fwd_deck::workspace::{quit_stale_cleanup_failure_message, quit_stop_failure_message, QuitStopFailure};
use fwd_deck::display::{
    format_optional_value, format_ssh_command, no_list_matches_message, normalize_list_query,
    truncate_display_width, watch_started_message,
};
use fwd_deck::edit::ConfigEditError;
use fwd_deck::ssh_import::{
    generate_import_tunnel_name, import_tunnel_configs, import_tunnel_name_from_id, parse_ssh_command, ImportNaming,
    ImportNamingError, SshImportError,
};

fn strings(values: &[&str]) -> Vec<String> {
    values.iter().map(|v| v.to_string()).collect()
}

#[test]
fn generated_import_name_is_prefix_and_eight_hex_digits() {
    let name = generate_import_tunnel_name();

    assert_eq!(name.len(), 15);
    assert!(name.starts_with("tunnel-"));
    assert!(name[7..].chars().all(|c| c.is_ascii_digit() || ('a'..='f').contains(&c)));
}

#[test]
fn import_name_takes_first_eight_characters_of_id() {
    assert_eq!(import_tunnel_name_from_id("0123456789abcdef"), "tunnel-01234567");
}

#[test]
fn truncate_display_width_keeps_value_that_fits() {
    assert_eq!(truncate_display_width("db", 8), "db");
    assert_eq!(truncate_display_width("abcdefgh", 8), "abcdefgh");
}

#[test]
fn truncate_display_width_cuts_and_marks_long_value() {
    assert_eq!(truncate_display_width("abcdefghij", 8), "abcde...");
}

#[test]
fn truncate_display_width_shortens_marker_for_tiny_width() {
    assert_eq!(truncate_display_width("abcdefghij", 2), "..");
    assert_eq!(truncate_display_width("abcdefghij", 0), "");
}

#[test]
fn truncate_display_width_counts_wide_characters_twice() {
    assert_eq!(truncate_display_width("日本語テキスト", 7), "日本...");
    assert_eq!(truncate_display_width("日本語", 6), "日本語");
}

#[test]
fn format_ssh_command_quotes_only_unsafe_arguments() {
    let args = strings(&["-N", "-L", "127.0.0.1:15432:db:5432", "user@bastion", "a b", "it's"]);

    assert_eq!(
        format_ssh_command(&args),
        "ssh -N -L 127.0.0.1:15432:db:5432 user@bastion 'a b' 'it'\\''s'"
    );
}

#[test]
fn format_ssh_command_without_arguments_is_ssh() {
    assert_eq!(format_ssh_command(&[]), "ssh");
}

#[test]
fn watch_started_message_names_tracked_tunnels() {
    assert_eq!(watch_started_message(&[], 5), "Watching tracked tunnels every 5s. Press Ctrl-C to stop.");
    assert_eq!(
        watch_started_message(&strings(&["api", "db"]), 10),
        "Watching tracked tunnels: api, db every 10s. Press Ctrl-C to stop."
    );
}

#[test]
fn no_list_matches_message_covers_tags_and_query() {
    let tags = strings(&["dev", "db"]);

    assert_eq!(no_list_matches_message(&[], None), "No tunnels are configured.");
    assert_eq!(no_list_matches_message(&[], Some("pg")), "No tunnels matched query: pg.");
    assert_eq!(no_list_matches_message(&tags, None), "No tunnels matched tags: dev, db.");
    assert_eq!(no_list_matches_message(&tags, Some("pg")), "No tunnels matched tags and query: dev, db / pg.");
}

#[test]
fn normalize_list_query_trims_and_lowers() {
    assert_eq!(normalize_list_query(Some("  PostgreSQL ".to_owned())), Some("postgresql".to_owned()));
    assert_eq!(normalize_list_query(Some("   ".to_owned())), None);
    assert_eq!(normalize_list_query(None), None);
}

#[test]
fn format_optional_value_shows_dash_for_missing_or_blank() {
    assert_eq!(format_optional_value(Some("primary db")), "primary db");
    assert_eq!(format_optional_value(Some("   ")), "-");
    assert_eq!(format_optional_value(None), "-");
}

#[test]
fn config_edit_error_messages_shorten_home() {
    let home = "/Users/example";
    let path = "/Users/example/project/fwd-deck.toml".to_owned();

    assert_eq!(
        ConfigEditError::Missing { path: path.clone() }.to_display_string(home),
        "Configuration file was not found: ~/project/fwd-deck.toml"
    );
    assert_eq!(
        ConfigEditError::DuplicateName { path: path.clone(), name: "db".to_owned() }.to_display_string(home),
        "Tunnel name already exists in configuration file: db (~/project/fwd-deck.toml)"
    );
    assert_eq!(
        ConfigEditError::DuplicateLocalPort { path: path.clone(), local_port: 15432, existing_name: "db".to_owned() }
            .to_display_string(home),
        "Local port already exists in configuration file: 15432 (db, ~/project/fwd-deck.toml)"
    );
    assert_eq!(
        ConfigEditError::NotFound { path, name: "api".to_owned() }.to_display_string(home),
        "Tunnel name was not found in configuration file: api (~/project/fwd-deck.toml)"
    );
}

#[test]
fn app_launch_error_messages() {
    assert_eq!(
        AppLaunchError::AppNotInstalled.to_display_string(),
        "Fwd Deck.app が見つかりません。\nmacOSアプリをインストールしてから再実行してください。\n\n  brew install --cask oiekjr/tap/fwd-deck-app"
    );
    assert_eq!(
        AppLaunchError::AppLaunchFailed { message: "/usr/bin/open exited with status 1.".to_owned() }
            .to_display_string(),
        "Fwd Deck.app を起動できませんでした。\n/usr/bin/open exited with status 1."
    );
}

#[test]
fn edit_target_error_messages() {
    assert_eq!(
        EditTargetError::MissingGlobalConfigPath.to_display_string("/Users/example"),
        "Failed to resolve the default global configuration path because HOME is not set"
    );
    assert_eq!(
        EditTargetError::Ambiguous { id: "db".to_owned() }.to_display_string("/Users/example"),
        "Tunnel name exists in multiple configuration files: db. Specify --scope in non-interactive mode"
    );
    assert_eq!(
        EditTargetError::Edit(ConfigEditError::Missing { path: "/Users/example/a.toml".to_owned() })
            .to_display_string("/Users/example"),
        "Configuration file was not found: ~/a.toml"
    );
}

#[test]
fn quit_failure_messages() {
    let failure = QuitStopFailure { id: "global:db".to_owned(), message: "denied".to_owned() };
    assert_eq!(quit_stop_failure_message(&failure), "global:db の停止に失敗したため、終了を中止しました。\n\ndenied");
    assert_eq!(
        quit_stale_cleanup_failure_message(&failure),
        "global:db の stale 状態を削除できなかったため、終了を中止しました。\n\ndenied"
    );
}

#[test]
fn import_names_tunnels_by_prefix_and_tags_them() {
    let import = parse_ssh_command(
        "ssh -N -L 15432:db.example.com:5432 -L 15433:db2.example.com:5432 ec2-user@bastion.example.com",
    )
    .expect("parse ssh command");

    let tunnels = import_tunnel_configs(&import, &ImportNaming::Prefix("imc".to_owned()), &strings(&["dev"]), true)
        .expect("names fit");

    assert_eq!(tunnels.len(), 2);
    assert_eq!(tunnels[0].name, "imc-1");
    assert_eq!(tunnels[1].name, "imc-2");
    assert_eq!(tunnels[0].tags, strings(&["imported", "dev"]));
    assert_eq!(tunnels[1].local_port, 15433);
    assert_eq!(tunnels[1].remote_host, "db2.example.com");
    assert_eq!(tunnels[0].ssh_user, "ec2-user");
}

#[test]
fn import_single_name_needs_single_forward() {
    let two = parse_ssh_command("ssh -L 1:a:1 -L 2:b:2 u@h").expect("parse ssh command");
    let one = parse_ssh_command("ssh -L 15432:db:5432 u@h").expect("parse ssh command");

    assert_eq!(
        import_tunnel_configs(&two, &ImportNaming::Name("db".to_owned()), &Vec::new(), false),
        Err(ImportNamingError::NameNeedsSingleForward)
    );
    let tunnels = import_tunnel_configs(&one, &ImportNaming::Name("db".to_owned()), &Vec::new(), false).expect("one");
    assert_eq!(tunnels[0].name, "db");
    assert!(tunnels[0].tags.is_empty());
    assert!(ImportNamingError::NameNeedsSingleForward.to_display_string().starts_with("--name"));
}

#[test]
fn import_generates_names_without_name_or_prefix() {
    let import = parse_ssh_command("ssh -L 15432:db:5432 u@h").expect("parse ssh command");

    let tunnels = import_tunnel_configs(&import, &ImportNaming::Generated, &Vec::new(), true).expect("generated");

    assert!(tunnels[0].name.starts_with("tunnel-"));
    assert_eq!(tunnels[0].name.len(), 15);
    assert_eq!(tunnels[0].tags, strings(&["imported"]));
}

#[test]
fn import_error_messages() {
    assert_eq!(SshImportError::EmptyCommand.to_display_string(), "SSHコマンドを入力してください");
    assert_eq!(
        SshImportError::InvalidPort { field: "local_port", value: "0".to_owned() }.to_display_string(),
        "local_port は1から65535のポート番号で指定してください: 0"
    );
    assert_eq!(
        SshImportError::UnsupportedForwardOption { option: "-R".to_owned() }.to_display_string(),
        "-R はSSHコマンド取り込みでは未対応です"
    );
}
