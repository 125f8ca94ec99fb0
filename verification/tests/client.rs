use vimcord::api::{Emoji, Guild, GuildMember, Message, PartialGuild, Role, User, DM};
use vimcord::app::App;
use vimcord::collections::KeyMap;
use vimcord::gateway::{
    dispatch_kind, heartbeat, heartbeat_interval, identify, members_chunk_fields, members_request,
    message_delete_action, next_sequence, not_found_log, ready_supplemental_action, subscription,
    typing_start_action, DispatchKind, GatewayEvent, JsonValue,
};
use vimcord::layout::{message_line_exec, timestamp_parts};
use vimcord::logs::{drain_lines, log_change, log_line, parse_log, LogChange, LogReader, PreviousLines};
use vimcord::num::{parse_u64, u64_text};
use vimcord::screens::{leave_target, replace_edited, LeaveTarget};
use vimcord::state::{
    AnyChannel, AppAction, AppState, Channel, ChildChannel, Effect, InputMode, KeywordAction,
    LogType, PermissionContext, VimState, Window,
};
use vimcord::submit::{handle_command, outgoing_text_exec, split_spaces_exec};
use vimcord::text::{join_strings, lower_contains, trim, trim_start};
use vimcord::layout::estimated_height_exec;
use vimcord::layout::chat_scroll;
use vimcord::layout::{input_title, status_with_typing_exec, typing_text_exec};
use vimcord::rest::{messages_url, oldest_first};
use vimcord::step::{handle_keys_events, key_action, Key};
use vimcord::logs::parse_log_ok_exec;
use vimcord::layout::pieces_exec;
use vimcord::channels::{group_channels, sort_by_position, GuildChannel};

fn user(id: &str, name: &str, global: Option<&str>) -> User {
    User {
        id: id.to_string(),
        username: name.to_string(),
        global_name: global.map(|g| g.to_string()),
    }
}

fn dm(id: &str, kind: u8, recipients: Vec<User>, name: Option<&str>, last: Option<&str>) -> DM {
    DM {
        id: id.to_string(),
        channel_type: kind,
        last_message_id: last.map(|l| l.to_string()),
        recipients,
        name: name.map(|n| n.to_string()),
    }
}

fn message(id: &str, channel: &str, author: User, content: Option<&str>) -> Message {
    Message {
        id: id.to_string(),
        channel_id: channel.to_string(),
        guild_id: None,
        author,
        content: content.map(|c| c.to_string()),
        timestamp: "2024-05-06T07:08:09.123+00:00".to_string(),
        mentions: Vec::new(),
    }
}

fn chat_app(channel_id: &str) -> App {
    let mut app = App::default();
    app.vim_mode = false;
    app.state = AppState::Chatting(Box::new(AnyChannel::Direct(dm(channel_id, 1, vec![], None, None))));
    app
}

fn obj(entries: Vec<(&str, JsonValue)>) -> JsonValue {
    JsonValue::Object(entries.into_iter().map(|(k, v)| (k.to_string(), v)).collect())
}

fn s(text: &str) -> JsonValue {
    JsonValue::Str(text.to_string())
}

fn n(v: u64) -> JsonValue {
    JsonValue::Number(Some(v), v.to_string())
}

// ---------------------------------------------------------------------------
// Names and mentions
// ---------------------------------------------------------------------------

#[test]
fn dm_name_of_one_to_one_conversation() {
    let d = dm("1", 1, vec![user("2", "bob", Some("Bobby"))], None, None);
    assert_eq!(d.get_name(), "Bobby (bob)");
    let d2 = dm("1", 1, vec![user("2", "bob", None)], None, None);
    assert_eq!(d2.get_name(), "bob");
}

#[test]
fn dm_name_of_group() {
    let d = dm("1", 3, vec![user("2", "bob", Some("Bobby")), user("3", "al", None)], None, None);
    assert_eq!(d.get_name(), "Bobby, al");
    let named = dm("1", 3, vec![user("2", "bob", None), user("3", "al", None)], Some("team"), None);
    assert_eq!(named.get_name(), "team (bob, al)");
}

#[test]
fn mentions_become_names() {
    let mut m = message("10", "5", user("1", "me", None), Some("hi <@123> and <@&77>"));
    m.mentions = vec![user("123", "bob", Some("Bobby"))];
    assert_eq!(m.map_mentions(None), "hi @Bobby and <@&77>");
    let g = Guild {
        id: "g".to_string(),
        name: "guild".to_string(),
        roles: vec![Role { id: "77".to_string(), name: "mods".to_string() }],
    };
    assert_eq!(m.map_mentions(Some(g)), "hi @Bobby and @mods");
}

#[test]
fn message_without_text() {
    let m = message("10", "5", user("1", "me", None), None);
    assert_eq!(m.map_mentions(None), "(*non-text*)");
}

// ---------------------------------------------------------------------------
// Keys
// ---------------------------------------------------------------------------

#[test]
fn typing_then_backspace_gives_back_the_text() {
    let mut app = chat_app("5");
    app.silent_typing = true;
    app.input = "héllo".to_string();
    app.cursor_position = 3;
    let step = handle_keys_events(&mut app, AppAction::InputChar('ü'), 0);
    assert!(step.keyword.is_none());
    assert_eq!(app.input, "héüllo");
    assert_eq!(app.cursor_position, 5);
    handle_keys_events(&mut app, AppAction::InputBackspace, 0);
    assert_eq!(app.input, "héllo");
    assert_eq!(app.cursor_position, 3);
}

#[test]
fn typing_tells_the_service_once_in_eight_seconds() {
    let mut app = chat_app("5");
    let first = handle_keys_events(&mut app, AppAction::InputChar('a'), 10_000);
    assert!(matches!(first.effects.as_slice(), [Effect::TriggerTyping { channel_id }] if channel_id == "5"));
    let second = handle_keys_events(&mut app, AppAction::InputChar('b'), 12_000);
    assert!(second.effects.is_empty());
    let third = handle_keys_events(&mut app, AppAction::InputChar('c'), 18_000);
    assert_eq!(third.effects.len(), 1);
}

#[test]
fn colon_asks_for_the_emoji_list() {
    let mut app = chat_app("5");
    let step = handle_keys_events(&mut app, AppAction::InputChar(':'), 0);
    assert!(matches!(step.effects.as_slice(), [Effect::Send(AppAction::SelectEmoji)]));
    assert_eq!(app.input, "");
}

fn vim_app(input: &str, cursor: usize) -> App {
    let mut app = App::default();
    app.state = AppState::Chatting(Box::new(AnyChannel::Direct(dm("5", 1, vec![], None, None))));
    app.vim_mode = true;
    app.vim_state = Some(VimState { operator: None, pending_keys: String::new() });
    app.mode = InputMode::Normal;
    app.input = input.to_string();
    app.cursor_position = cursor;
    app
}

fn key(app: &mut App, c: char) -> usize {
    let step = handle_keys_events(app, AppAction::InputChar(c), 0);
    assert!(step.keyword.is_none());
    step.effects.len()
}

#[test]
fn vim_normal_mode_keys() {
    let mut app = vim_app("héllo", 1);
    assert_eq!(key(&mut app, 'l'), 0);
    assert_eq!(app.cursor_position, 3);
    key(&mut app, 'h');
    assert_eq!(app.cursor_position, 1);
    handle_keys_events(&mut app, AppAction::SelectLeft, 0);
    assert_eq!(app.cursor_position, 0);
    handle_keys_events(&mut app, AppAction::SelectLeft, 0);
    assert_eq!(app.cursor_position, 0);
    app.cursor_position = 5;
    key(&mut app, 'l');
    assert_eq!(app.cursor_position, 5);
    key(&mut app, 'x');
    assert_eq!(app.input, "héll");
    assert_eq!(app.cursor_position, 4);
    assert_eq!(app.mode, InputMode::Normal);
    key(&mut app, 'a');
    assert_eq!((app.mode, app.cursor_position), (InputMode::Insert, 5));
    app.mode = InputMode::Normal;
    key(&mut app, 'I');
    assert_eq!((app.mode, app.cursor_position), (InputMode::Insert, 0));
    app.mode = InputMode::Normal;
    key(&mut app, 'A');
    assert_eq!((app.mode, app.cursor_position), (InputMode::Insert, 5));
    app.mode = InputMode::Normal;
    app.cursor_position = 1;
    key(&mut app, 'i');
    assert_eq!((app.mode, app.cursor_position), (InputMode::Insert, 1));
    app.mode = InputMode::Normal;
    key(&mut app, ':');
    assert_eq!(app.mode, InputMode::Command);
    assert_eq!(app.input, "");
    assert_eq!(app.saved_input.as_deref(), Some("héll"));
    assert_eq!(app.cursor_position, 0);
}

#[test]
fn vim_lines_and_words() {
    let mut app = vim_app("one two\nthree", 5);
    key(&mut app, 'I');
    assert_eq!(app.cursor_position, 0);
    app.mode = InputMode::Normal;
    app.cursor_position = 9;
    key(&mut app, 'I');
    assert_eq!(app.cursor_position, 8);
    app.mode = InputMode::Normal;
    app.cursor_position = 1;
    key(&mut app, 'A');
    assert_eq!(app.cursor_position, 7);
    app.mode = InputMode::Normal;
    app.cursor_position = 6;
    key(&mut app, 'l');
    assert_eq!(app.cursor_position, 6);
    app.cursor_position = 8;
    key(&mut app, 'h');
    assert_eq!(app.cursor_position, 8);
    app.cursor_position = 0;
    key(&mut app, 'w');
    assert_eq!(app.cursor_position, 4);
    key(&mut app, 'w');
    assert_eq!(app.cursor_position, 8);
    key(&mut app, 'b');
    assert_eq!(app.cursor_position, 4);
    key(&mut app, 'G');
    assert_eq!(app.cursor_position, 13);

    let mut app = vim_app("ab\ncd\nef", 7);
    key(&mut app, 'd');
    key(&mut app, 'd');
    assert_eq!((app.input.as_str(), app.cursor_position), ("ab\ncd", 3));

    let mut app = vim_app("one two\nthree", 5);
    key(&mut app, 'd');
    key(&mut app, 'w');
    assert_eq!(app.input, "one t\nthree");
    assert_eq!(app.cursor_position, 5);
    key(&mut app, 'd');
    key(&mut app, 'b');
    assert_eq!(app.input, "one \nthree");
    assert_eq!(app.cursor_position, 4);
    app.cursor_position = 3;
    key(&mut app, 'd');
    key(&mut app, 'd');
    assert_eq!(app.input, "three");
    assert_eq!(app.cursor_position, 0);
    key(&mut app, 'd');
    key(&mut app, 'd');
    assert_eq!(app.input, "");
    key(&mut app, 'd');
    key(&mut app, 'q');
    assert_eq!(app.vim_state.as_ref().unwrap().operator, None);

    let mut app = vim_app("ab\ncd", 1);
    key(&mut app, 'o');
    assert_eq!((app.input.as_str(), app.cursor_position, app.mode), ("ab\n\ncd", 3, InputMode::Insert));
    let mut app = vim_app("ab\ncd", 4);
    key(&mut app, 'O');
    assert_eq!((app.input.as_str(), app.cursor_position, app.mode), ("ab\n\ncd", 3, InputMode::Insert));

    let mut edit = vim_app("ab\ncdef", 1);
    edit.state = AppState::SelectingGuild;
    key(&mut edit, 'j');
    assert_eq!(edit.cursor_position, 4);
    edit.cursor_position = 7;
    key(&mut edit, 'k');
    assert_eq!(edit.cursor_position, 2);
}

#[test]
fn vim_selects_edits_and_deletes_messages() {
    let me = user("1", "me", None);
    let mut app = vim_app("", 0);
    app.current_user = Some(me.clone());
    app.messages = vec![
        message("10", "5", me.clone(), Some("mine")),
        message("11", "5", user("2", "bob", None), Some("his")),
    ];
    key(&mut app, 'k');
    assert_eq!(app.selection_index, 1);
    key(&mut app, 'k');
    assert_eq!(app.selection_index, 2);
    key(&mut app, 'k');
    assert_eq!(app.selection_index, 2);
    assert_eq!(key(&mut app, 'i'), 0);
    assert_eq!(app.mode, InputMode::Insert);
    app.mode = InputMode::Normal;
    key(&mut app, 'j');
    assert_eq!(app.selection_index, 1);
    let step = handle_keys_events(&mut app, AppAction::InputChar('a'), 0);
    assert!(matches!(step.effects.as_slice(),
        [Effect::Send(AppAction::TransitionToEditing(_, m, text, 'a'))] if m.id == "10" && text == "mine"));
    assert_eq!(app.mode, InputMode::Normal);
    key(&mut app, 'd');
    let step = handle_keys_events(&mut app, AppAction::InputChar('d'), 0);
    assert!(matches!(step.effects.as_slice(),
        [Effect::Send(AppAction::ApiDeleteMessage(c, m))] if c == "5" && m == "10"));
    key(&mut app, 'G');
    assert_eq!(app.selection_index, 0);
}

#[test]
fn vim_slash_opens_the_search_line() {
    let mut app = App::default();
    app.state = AppState::SelectingGuild;
    app.vim_mode = true;
    app.mode = InputMode::Normal;
    app.input = "ab".to_string();
    app.cursor_position = 0;
    handle_keys_events(&mut app, AppAction::InputChar('/'), 0);
    assert_eq!(app.mode, InputMode::Search);
    assert_eq!(app.saved_input.as_deref(), Some("ab"));
}

#[test]
fn escape_goes_back_one_screen() {
    let mut app = App::default();
    app.state = AppState::SelectingDM;
    let step = handle_keys_events(&mut app, AppAction::InputEscape, 0);
    assert!(matches!(step.effects.as_slice(), [Effect::Send(AppAction::TransitionToHome)]));

    let mut chat = chat_app("42");
    let step = handle_keys_events(&mut chat, AppAction::InputEscape, 0);
    assert!(matches!(step.effects.as_slice(), [Effect::LeaveChat { channel_id }] if channel_id == "42"));

    let mut logs = App::default();
    logs.state = AppState::Logs(Window::Guild);
    let step = handle_keys_events(&mut logs, AppAction::InputEscape, 0);
    assert!(matches!(step.effects.as_slice(), [Effect::Send(AppAction::TransitionToGuilds)]));
}

#[test]
fn escape_leaves_insert_mode() {
    let mut app = App::default();
    app.state = AppState::Chatting(Box::new(AnyChannel::Direct(dm("5", 1, vec![], None, None))));
    app.mode = InputMode::Insert;
    app.input = "abc".to_string();
    app.cursor_position = 3;
    let step = handle_keys_events(&mut app, AppAction::InputEscape, 0);
    assert_eq!(app.mode, InputMode::Normal);
    assert_eq!(app.cursor_position, 2);
    assert!(step.effects.is_empty());

    let mut end = App::default();
    end.vim_mode = true;
    end.mode = InputMode::Command;
    end.input = "q".to_string();
    end.saved_input = Some("ab".to_string());
    end.cursor_position = 1;
    let step = handle_keys_events(&mut end, AppAction::InputEscape, 0);
    assert!(step.effects.is_empty());
    assert_eq!(end.mode, InputMode::Normal);
    assert_eq!(end.input, "q");
}

#[test]
fn ctrl_c_stops() {
    let mut app = App::default();
    let step = handle_keys_events(&mut app, AppAction::SigInt, 0);
    assert!(matches!(step.keyword, Some(KeywordAction::Break)));
}

#[test]
fn delete_removes_the_character_under_the_cursor() {
    let mut app = chat_app("5");
    app.silent_typing = true;
    app.input = "abc".to_string();
    app.cursor_position = 1;
    handle_keys_events(&mut app, AppAction::InputDelete, 0);
    assert_eq!(app.input, "ac");
    assert_eq!(app.cursor_position, 1);
    app.cursor_position = 9;
    handle_keys_events(&mut app, AppAction::InputDelete, 0);
    assert_eq!(app.input, "a");
    assert_eq!(app.cursor_position, 1);
}

#[test]
fn paste_inserts_at_the_cursor() {
    let mut app = chat_app("5");
    app.silent_typing = true;
    app.input = "ad".to_string();
    app.cursor_position = 1;
    handle_keys_events(&mut app, AppAction::Paste("bc".to_string()), 0);
    assert_eq!(app.input, "abcd");
    assert_eq!(app.cursor_position, 3);
}

// ---------------------------------------------------------------------------
// Lists
// ---------------------------------------------------------------------------

#[test]
fn down_then_up_comes_back() {
    let mut app = App::default();
    app.state = AppState::SelectingDM;
    app.dms = vec![dm("1", 1, vec![], None, None), dm("2", 1, vec![], None, None), dm("3", 1, vec![], None, None)];
    app.selection_index = 2;
    handle_keys_events(&mut app, AppAction::SelectNext, 0);
    assert_eq!(app.selection_index, 0);
    handle_keys_events(&mut app, AppAction::SelectPrevious, 0);
    assert_eq!(app.selection_index, 2);
}

#[test]
fn home_screen_choices() {
    let mut app = App::default();
    app.state = AppState::Home;
    app.selection_index = 1;
    let step = handle_keys_events(&mut app, AppAction::InputSubmit, 0);
    assert!(matches!(step.effects.as_slice(), [Effect::Send(AppAction::TransitionToDM)]));
    app.selection_index = 2;
    let step = handle_keys_events(&mut app, AppAction::InputSubmit, 0);
    assert!(matches!(step.keyword, Some(KeywordAction::Break)));
}

#[test]
fn enter_opens_the_filtered_dm() {
    let mut app = App::default();
    app.vim_mode = false;
    app.state = AppState::SelectingDM;
    app.dms = vec![
        dm("1", 1, vec![user("a", "alice", None)], None, None),
        dm("2", 1, vec![user("b", "Bob", None)], None, None),
    ];
    app.search_input = "BO".to_string();
    app.selection_index = 0;
    let step = handle_keys_events(&mut app, AppAction::InputSubmit, 0);
    match step.effects.as_slice() {
        [Effect::OpenDm(d)] => assert_eq!(d.id, "2"),
        other => panic!("unexpected effects {other:?}"),
    }
    assert_eq!(app.status_message, "Loading messages for Bob...");
}

#[test]
fn enter_on_an_empty_list_skips_drawing() {
    let mut app = App::default();
    app.vim_mode = false;
    app.state = AppState::SelectingGuild;
    app.guilds = vec![PartialGuild { id: "1".to_string(), name: "Rust".to_string() }];
    app.search_input = "zzz".to_string();
    let step = handle_keys_events(&mut app, AppAction::InputSubmit, 0);
    assert!(matches!(step.keyword, Some(KeywordAction::Continue)));
}

#[test]
fn enter_opens_a_readable_channel() {
    let mut app = App::default();
    app.vim_mode = false;
    let guild = Guild { id: "g1".to_string(), name: "G".to_string(), roles: vec![] };
    app.state = AppState::SelectingChannel(Box::new(guild));
    app.context = Some(PermissionContext { readable_channel_ids: vec!["c2".to_string()] });
    app.channels = vec![Channel {
        id: "cat".to_string(),
        name: "Text".to_string(),
        channel_type: 4,
        guild_id: Some("g1".to_string()),
        children: Some(vec![
            ChildChannel { id: "c1".to_string(), name: "secret".to_string(), channel_type: 0, guild_id: None },
            ChildChannel { id: "c2".to_string(), name: "general".to_string(), channel_type: 0, guild_id: None },
        ]),
    }];
    app.selection_index = 0;
    let step = handle_keys_events(&mut app, AppAction::InputSubmit, 0);
    assert!(matches!(step.keyword, Some(KeywordAction::Continue)));
    app.selection_index = 1;
    let step = handle_keys_events(&mut app, AppAction::InputSubmit, 0);
    match step.effects.as_slice() {
        [Effect::OpenChannel { guild_id, channel }] => {
            assert_eq!(guild_id, "g1");
            assert_eq!(channel.id, "c2");
        },
        other => panic!("unexpected effects {other:?}"),
    }
    assert_eq!(app.status_message, "Loading messages for general...");
}

// ---------------------------------------------------------------------------
// Sending
// ---------------------------------------------------------------------------

#[test]
fn sending_turns_names_into_mentions() {
    let mut app = chat_app("5");
    app.guild_members = vec![GuildMember { user: user("42", "bob", None), nick: None, roles: vec![] }];
    app.input = "@bob hi @zed ".to_string();
    app.cursor_position = 3;
    let step = handle_keys_events(&mut app, AppAction::InputSubmit, 0);
    match step.effects.as_slice() {
        [Effect::SendMessage { channel_id, content }] => {
            assert_eq!(channel_id, "5");
            assert_eq!(content, "<@42> hi @zed ");
        },
        other => panic!("unexpected effects {other:?}"),
    }
    assert_eq!(app.input, "");
    assert_eq!(app.cursor_position, 0);
}

#[test]
fn name_scan_that_runs_past_the_end() {
    let members = vec![GuildMember { user: user("42", "bob", None), nick: None, roles: vec![] }];
    assert_eq!(outgoing_text_exec("@bob", &members), Some("<@42>".to_string()));
    assert_eq!(outgoing_text_exec("hi @bob", &members), None);
    assert_eq!(outgoing_text_exec("no names", &members), Some("no names".to_string()));
}

#[test]
fn empty_input_sends_nothing() {
    let mut app = chat_app("5");
    let step = handle_keys_events(&mut app, AppAction::InputSubmit, 0);
    assert!(step.effects.is_empty());
}

#[test]
fn editing_submits_the_new_text() {
    let mut app = App::default();
    app.vim_mode = false;
    let ch = AnyChannel::Direct(dm("5", 1, vec![], None, None));
    let m = message("99", "5", user("1", "me", None), Some("old"));
    handle_keys_events(&mut app, AppAction::TransitionToEditing(Box::new(ch), m, "old".to_string(), 'a'), 0);
    assert_eq!(app.cursor_position, 1);
    assert_eq!(app.input, "old");
    app.input = "new".to_string();
    let step = handle_keys_events(&mut app, AppAction::InputSubmit, 0);
    match step.effects.as_slice() {
        [Effect::SubmitEdit { message_id, content, .. }] => {
            assert_eq!(message_id, "99");
            assert_eq!(content, "new");
        },
        other => panic!("unexpected effects {other:?}"),
    }
}

// ---------------------------------------------------------------------------
// Emojis
// ---------------------------------------------------------------------------

#[test]
fn picking_an_emoji_replaces_the_filter() {
    let mut app = chat_app("5");
    app.silent_typing = true;
    app.emoji_map = vec![("smile".to_string(), "😄".to_string()), ("sad".to_string(), "😢".to_string())];
    app.input = "hi ".to_string();
    app.cursor_position = 3;
    handle_keys_events(&mut app, AppAction::SelectEmoji, 0);
    assert!(matches!(app.state, AppState::EmojiSelection(_)));
    assert_eq!(app.input, "hi :");
    handle_keys_events(&mut app, AppAction::InputChar('s'), 0);
    handle_keys_events(&mut app, AppAction::InputChar('m'), 0);
    assert_eq!(app.emoji_filter, "sm");
    handle_keys_events(&mut app, AppAction::InputSubmit, 0);
    assert_eq!(app.input, "hi 😄 ");
    assert_eq!(app.cursor_position, "hi 😄 ".len());
    assert!(matches!(app.state, AppState::Chatting(_)));
}

#[test]
fn guild_emoji_is_written_with_its_id() {
    let mut app = chat_app("5");
    app.silent_typing = true;
    app.custom_emojis = vec![Emoji { id: "9".to_string(), name: "party".to_string(), animated: Some(true) }];
    handle_keys_events(&mut app, AppAction::SelectEmoji, 0);
    handle_keys_events(&mut app, AppAction::InputChar('p'), 0);
    handle_keys_events(&mut app, AppAction::InputSubmit, 0);
    assert_eq!(app.input, "<a:party:9> ");
}

#[test]
fn leaving_the_emoji_list_gives_back_the_text() {
    let mut app = chat_app("5");
    app.silent_typing = true;
    app.input = "ab".to_string();
    app.cursor_position = 0;
    handle_keys_events(&mut app, AppAction::SelectEmoji, 0);
    assert_eq!(app.input, ":ab");
    let ch = AnyChannel::Direct(dm("5", 1, vec![], None, None));
    handle_keys_events(&mut app, AppAction::TransitionToChat(Box::new(ch)), 0);
    assert_eq!(app.input, "ab");
}

#[test]
fn back_to_the_chat_after_emojis_or_editing() {
    let ch = || Box::new(AnyChannel::Direct(dm("5", 1, vec![], None, None)));
    let mut app = chat_app("5");
    app.silent_typing = true;
    app.input = "hi yo".to_string();
    app.cursor_position = 3;
    app.selection_index = 2;
    handle_keys_events(&mut app, AppAction::SelectEmoji, 0);
    assert_eq!(app.input, "hi :yo");
    handle_keys_events(&mut app, AppAction::InputChar('s'), 0);
    let step = handle_keys_events(&mut app, AppAction::TransitionToChat(ch()), 0);
    assert!(step.keyword.is_none() && step.effects.is_empty());
    assert!(matches!(app.state, AppState::Chatting(_)));
    assert_eq!(app.input, "hi yo");
    assert_eq!((app.cursor_position, app.selection_index), (0, 0));
    assert_eq!(app.emoji_filter, "");
    assert_eq!(app.emoji_filter_start, None);

    let mut app = chat_app("5");
    app.input = "draft".to_string();
    app.cursor_position = 5;
    let m = message("9", "5", user("1", "me", None), Some("old"));
    handle_keys_events(&mut app, AppAction::TransitionToEditing(ch(), m, "old".to_string(), 'i'), 0);
    assert_eq!(app.input, "old");
    let step = handle_keys_events(&mut app, AppAction::TransitionToChat(ch()), 0);
    assert!(step.keyword.is_none() && step.effects.is_empty());
    assert_eq!(app.input, "draft");
    assert_eq!(app.saved_input, None);
    assert_eq!((app.cursor_position, app.selection_index), (0, 0));
}

#[test]
fn selection_is_kept_on_the_shown_list() {
    let mut app = App::default();
    app.state = AppState::SelectingGuild;
    app.guilds = vec![
        PartialGuild { id: "1".to_string(), name: "Rust".to_string() },
        PartialGuild { id: "2".to_string(), name: "Go".to_string() },
        PartialGuild { id: "3".to_string(), name: "Rustaceans".to_string() },
    ];
    app.search_input = "RUST".to_string();
    app.selection_index = 7;
    app.clamp_selection();
    assert_eq!(app.selection_index, 1);
    app.search_input = "zzz".to_string();
    app.clamp_selection();
    assert_eq!(app.selection_index, 0);
    app.state = AppState::Home;
    app.selection_index = 9;
    app.clamp_selection();
    assert_eq!(app.selection_index, 2);
    app.state = AppState::SelectingDM;
    app.dms = vec![dm("1", 1, vec![user("2", "alice", None)], None, None)];
    app.search_input = String::new();
    app.selection_index = 4;
    app.clamp_selection();
    assert_eq!(app.selection_index, 0);
    let mut chat = chat_app("5");
    chat.selection_index = 4;
    chat.clamp_selection();
    assert_eq!(chat.selection_index, 4);
}

fn gc(id: &str, kind: u8, parent: Option<&str>, position: Option<i64>) -> GuildChannel {
    GuildChannel {
        id: id.to_string(),
        name: format!("n{id}"),
        channel_type: kind,
        guild_id: Some("g".to_string()),
        parent_id: parent.map(|p| p.to_string()),
        position,
    }
}

#[test]
fn channels_are_ordered_and_grouped() {
    let raw = vec![
        gc("b", 0, Some("cat"), Some(2)),
        gc("cat", 4, None, Some(1)),
        gc("a", 0, Some("cat"), Some(1)),
        gc("top", 0, None, Some(0)),
        gc("c", 2, Some("cat"), None),
        gc("late", 0, None, Some(1)),
    ];
    let sorted = sort_by_position(&raw);
    let ids: Vec<&str> = sorted.iter().map(|c| c.id.as_str()).collect();
    assert_eq!(ids, vec!["top", "c", "cat", "a", "late", "b"]);
    let list = group_channels(&raw);
    let ids: Vec<&str> = list.iter().map(|c| c.id.as_str()).collect();
    assert_eq!(ids, vec!["top", "cat", "late"]);
    assert!(list[0].children.is_none());
    let kids: Vec<&str> = list[1].children.as_ref().unwrap().iter().map(|c| c.id.as_str()).collect();
    assert_eq!(kids, vec!["c", "a", "b"]);
    assert_eq!(list[1].name, "ncat");
    assert!(list[2].children.is_none());
}

#[test]
fn erasing_the_filter_closes_the_emoji_list() {
    let mut app = chat_app("5");
    app.silent_typing = true;
    handle_keys_events(&mut app, AppAction::SelectEmoji, 0);
    handle_keys_events(&mut app, AppAction::InputChar('x'), 0);
    assert!(matches!(app.state, AppState::EmojiSelection(_)));
    handle_keys_events(&mut app, AppAction::InputBackspace, 0);
    assert!(matches!(app.state, AppState::Chatting(_)));
    assert_eq!(
        app.status_message,
        "Chatting in channel. Press Enter to send message. Esc to return to channels"
    );
}

// ---------------------------------------------------------------------------
// Commands
// ---------------------------------------------------------------------------

#[test]
fn quit_command_stops() {
    let (kw, effects) = handle_command("Quit now");
    assert!(matches!(kw, Some(KeywordAction::Break)));
    assert!(effects.is_empty());
    let (kw, _) = handle_command("q");
    assert!(matches!(kw, Some(KeywordAction::Break)));
}

#[test]
fn debug_and_logs_commands() {
    let (kw, effects) = handle_command("debug a  b");
    assert!(kw.is_none());
    assert!(matches!(effects.as_slice(), [Effect::Log { kind: LogType::Debug, text }] if text == "a  b"));
    let (_, effects) = handle_command("logs");
    assert!(matches!(effects.as_slice(), [Effect::Send(AppAction::TransitionToLogs)]));
}

#[test]
fn status_command_and_its_usage() {
    let (_, effects) = handle_command("status dnd busy");
    assert!(matches!(effects.as_slice(), [Effect::SetStatus { status, text }] if status == "dnd" && text == "busy"));
    let (_, effects) = handle_command("status dnd");
    match effects.as_slice() {
        [Effect::Log { kind: LogType::Error, text }] => assert_eq!(
            text,
            "Failed to change status: Bad usage: \"status <online|dnd|idle|invisible|offline> <text>\": [\"dnd\"]"
        ),
        other => panic!("unexpected effects {other:?}"),
    }
}

#[test]
fn search_line_becomes_the_filter() {
    let mut app = App::default();
    app.state = AppState::SelectingDM;
    app.mode = InputMode::Search;
    app.input = "bob".to_string();
    app.saved_input = Some("draft".to_string());
    app.cursor_position = 3;
    handle_keys_events(&mut app, AppAction::InputSubmit, 0);
    assert_eq!(app.search_input, "bob");
    assert_eq!(app.input, "draft");
    assert_eq!(app.mode, InputMode::Normal);
}

#[test]
fn split_then_join_gives_the_line_back() {
    let pieces = split_spaces_exec("a  b ");
    assert_eq!(pieces, vec!["a".to_string(), "".to_string(), "b".to_string(), "".to_string()]);
    assert_eq!(join_strings(&pieces, " "), "a  b ");
}

// ---------------------------------------------------------------------------
// Messages from the service
// ---------------------------------------------------------------------------

#[test]
fn deleted_message_stays_hidden_after_reload() {
    let mut app = chat_app("5");
    let a = message("1", "5", user("u", "u", None), Some("a"));
    let b = message("2", "5", user("u", "u", None), Some("b"));
    app.messages = vec![b.clone(), a.clone()];
    handle_keys_events(&mut app, AppAction::GatewayMessageDelete("2".to_string(), "5".to_string()), 0);
    assert_eq!(app.messages, vec![a.clone()]);
    let step = handle_keys_events(&mut app, AppAction::ApiUpdateMessages("5".to_string(), vec![b, a.clone()]), 0);
    assert_eq!(app.messages, vec![a]);
    assert!(matches!(step.effects.last(), Some(Effect::CloseNotifications { .. })));
}

#[test]
fn typing_entries_expire_after_ten_seconds() {
    let mut app = chat_app("5");
    handle_keys_events(&mut app, AppAction::GatewayTypingStart("5".to_string(), "u1".to_string(), Some("Ann".to_string())), 1_000);
    handle_keys_events(&mut app, AppAction::GatewayTypingStart("5".to_string(), "u2".to_string(), None), 5_000);
    let step = handle_keys_events(&mut app, AppAction::Tick, 12_000);
    assert!(matches!(step.keyword, Some(KeywordAction::Continue)));
    assert_eq!(app.typing_users.users_in("5"), vec!["u2".to_string()]);
    assert_eq!(app.user_names.get("u1"), Some(&"Ann".to_string()));
}

#[test]
fn sender_stops_typing() {
    let mut app = App::default();
    app.state = AppState::Home;
    handle_keys_events(&mut app, AppAction::GatewayTypingStart("5".to_string(), "u1".to_string(), None), 0);
    handle_keys_events(&mut app, AppAction::GatewayMessageCreate(message("3", "5", user("u1", "x", None), Some("hi"))), 0);
    assert!(app.typing_users.users_in("5").is_empty());
}

#[test]
fn new_message_in_the_open_chat_is_acknowledged() {
    let mut app = chat_app("5");
    let step = handle_keys_events(&mut app, AppAction::GatewayMessageCreate(message("30", "5", user("u", "x", None), Some("hi"))), 0);
    assert!(matches!(step.effects.as_slice(), [Effect::AckMessage { channel_id, message_id }] if channel_id == "5" && message_id == "30"));
    assert_eq!(app.messages.len(), 1);
}

#[test]
fn dms_are_sorted_newest_first() {
    let mut app = App::default();
    handle_keys_events(&mut app, 
        AppAction::ApiUpdateDMs(vec![
            dm("a", 1, vec![], None, Some("5")),
            dm("b", 1, vec![], None, None),
            dm("c", 1, vec![], None, Some("9")),
        ]),
        0,
    );
    let ids: Vec<&str> = app.dms.iter().map(|d| d.id.as_str()).collect();
    assert_eq!(ids, vec!["c", "a", "b"]);
    assert_eq!(app.status_message, "DMs loaded. Select one to chat. (Esc to return to Home)");
}

#[test]
fn edited_message_replaces_the_old_one() {
    let a = message("1", "5", user("u", "u", None), Some("a"));
    let b = message("2", "5", user("u", "u", None), Some("b"));
    let edited = message("2", "5", user("u", "u", None), Some("B"));
    let out = replace_edited(vec![a.clone(), b], edited.clone());
    assert_eq!(out, vec![a, edited]);
}

#[test]
fn keymap_gives_back_what_was_put() {
    let mut m: KeyMap<String> = KeyMap::new();
    m.insert("k".to_string(), "v1".to_string());
    m.insert("k".to_string(), "v2".to_string());
    assert_eq!(m.get("k"), Some(&"v2".to_string()));
    assert!(!m.contains_key("x"));
}

#[test]
fn leaving_a_chat_goes_where_the_channel_belongs() {
    assert!(matches!(leave_target(None), LeaveTarget::Stay));
    let dmc = AnyChannel::Direct(dm("1", 1, vec![], None, None));
    assert!(matches!(leave_target(Some(dmc)), LeaveTarget::Dms));
    let gc = AnyChannel::Guild(Channel {
        id: "c".to_string(),
        name: "c".to_string(),
        channel_type: 0,
        guild_id: Some("g9".to_string()),
        children: None,
    });
    assert!(matches!(leave_target(Some(gc)), LeaveTarget::Guild(g) if g == "g9"));
}

// ---------------------------------------------------------------------------
// Gateway
// ---------------------------------------------------------------------------

#[test]
fn greeting_gives_the_heartbeat() {
    let ev = GatewayEvent { op: 10, d: Some(obj(vec![("heartbeat_interval", n(45000))])), s: None, t: None };
    assert_eq!(heartbeat_interval(&ev), Ok(45000));
    let ev = GatewayEvent { op: 10, d: Some(obj(vec![])), s: None, t: None };
    assert_eq!(heartbeat_interval(&ev), Ok(41250));
    let ev = GatewayEvent { op: 0, d: None, s: Some(3), t: None };
    assert_eq!(heartbeat_interval(&ev), Err("Expected Hello".to_string()));
    assert_eq!(next_sequence(Some(1), &ev), Some(3));
}

#[test]
fn dispatch_names() {
    assert_eq!(dispatch_kind("MESSAGE_CREATE"), DispatchKind::MessageCreate);
    assert_eq!(dispatch_kind("TYPING_START"), DispatchKind::TypingStart);
    assert_eq!(dispatch_kind("SOMETHING"), DispatchKind::Other);
}

#[test]
fn deleted_message_event() {
    let d = obj(vec![("id", s("7")), ("channel_id", s("5"))]);
    assert!(matches!(message_delete_action(&d), Some(AppAction::GatewayMessageDelete(a, b)) if a == "7" && b == "5"));
    assert!(message_delete_action(&obj(vec![("id", s("7"))])).is_none());
}

#[test]
fn typing_event_name_falls_back() {
    let d = obj(vec![
        ("channel_id", s("5")),
        ("user_id", s("u")),
        ("timestamp", n(1)),
        ("member", obj(vec![("user", obj(vec![("username", s("memb"))]))])),
        ("user", obj(vec![("username", s("plain"))])),
    ]);
    assert!(matches!(typing_start_action(&d), Some(AppAction::GatewayTypingStart(_, _, Some(name))) if name == "memb"));
    let no_time = obj(vec![("channel_id", s("5")), ("user_id", s("u"))]);
    assert!(typing_start_action(&no_time).is_none());
}

#[test]
fn presences_after_connecting() {
    let presence = |id: &str, status: &str, text: Option<&str>| {
        let mut acts = vec![];
        if let Some(t) = text {
            acts.push(obj(vec![("type", n(4)), ("state", s(t))]));
        }
        obj(vec![("user_id", s(id)), ("status", s(status)), ("activities", JsonValue::Array(acts))])
    };
    let d = obj(vec![(
        "merged_presences",
        obj(vec![
            ("guilds", JsonValue::Array(vec![JsonValue::Array(vec![presence("a", "idle", Some("away"))])])),
            ("friends", JsonValue::Array(vec![presence("a", "dnd", None), presence("b", "online", None)])),
        ]),
    )]);
    match ready_supplemental_action(&d) {
        AppAction::GatewayReadySupplemental(st, tx) => {
            assert_eq!(st.get("a"), Some(&"dnd".to_string()));
            assert_eq!(st.get("b"), Some(&"online".to_string()));
            assert_eq!(tx.get("a"), Some(&"away".to_string()));
            assert!(tx.get("b").is_none());
        },
        other => panic!("unexpected action {other:?}"),
    }
}

#[test]
fn member_chunk_fields_and_missing_members() {
    let d = obj(vec![
        ("guild_id", s("g")),
        ("chunk_index", n(0)),
        ("chunk_count", n(2)),
        ("not_found", JsonValue::Array(vec![s("x")])),
    ]);
    assert_eq!(members_chunk_fields(&d), Some(("g".to_string(), "0".to_string(), "2".to_string())));
    assert_eq!(
        not_found_log(&d),
        Some("Error in GUILD_MEMBERS_CHUNK event: not found: [\"x\"]".to_string())
    );
    assert_eq!(not_found_log(&obj(vec![])), None);
}

fn member<'a>(v: &'a JsonValue, key: &str) -> &'a JsonValue {
    match v {
        JsonValue::Object(es) => &es.iter().find(|(k, _)| k == key).unwrap().1,
        _ => panic!("not an object"),
    }
}

#[test]
fn identify_describes_the_client() {
    let v = identify("tok", "L", "S");
    assert!(matches!(member(&v, "op"), JsonValue::Number(Some(2), t) if t == "2"));
    let d = member(&v, "d");
    assert!(matches!(member(d, "token"), JsonValue::Str(t) if t == "tok"));
    assert!(matches!(member(d, "capabilities"), JsonValue::Number(Some(30717), _)));
    assert!(matches!(member(d, "compress"), JsonValue::Bool(false)));
    let p = member(d, "properties");
    assert!(matches!(member(p, "os"), JsonValue::Str(t) if t == "Windows"));
    assert!(matches!(member(p, "client_launch_id"), JsonValue::Str(t) if t == "L"));
    assert!(matches!(member(p, "client_heartbeat_session_id"), JsonValue::Str(t) if t == "S"));
    assert!(matches!(member(p, "client_event_source"), JsonValue::Null));
    let pr = member(d, "presence");
    assert!(matches!(member(pr, "status"), JsonValue::Str(t) if t == "online"));
    assert!(matches!(member(pr, "activities"), JsonValue::Array(a) if a.is_empty()));
    let c = member(d, "client_state");
    assert!(matches!(member(c, "user_settings_version"), JsonValue::Number(None, t) if t == "-1"));
    assert!(matches!(member(c, "guild_versions"), JsonValue::Object(e) if e.is_empty()));
}

#[test]
fn emoji_list_and_filters() {
    let mut app = chat_app("5");
    app.emoji_map = vec![
        ("smile".to_string(), "S".to_string()),
        ("sad".to_string(), "D".to_string()),
        ("heart".to_string(), "H".to_string()),
    ];
    app.custom_emojis = vec![Emoji { id: "9".to_string(), name: "ship".to_string(), animated: None }];
    app.emoji_filter = "s".to_string();
    let u = app.offered_unicode();
    assert_eq!(u.iter().map(|e| e.0.as_str()).collect::<Vec<_>>(), vec!["smile", "sad"]);
    assert_eq!(app.offered_custom().len(), 1);
    app.emoji_index = 7;
    app.clamp_emoji_index();
    assert_eq!(app.emoji_index, 2);
    app.emoji_filter = "zz".to_string();
    app.clamp_emoji_index();
    assert_eq!(app.emoji_index, 0);
    assert!(lower_contains("Hello World", "wORld"));
    assert!(!lower_contains("Hello", "bye"));
}

#[test]
fn moving_up_in_a_channel_list_with_nothing_shown() {
    let mut app = App::default();
    app.state = AppState::SelectingChannel(Box::new(Guild {
        id: "g".to_string(),
        name: "G".to_string(),
        roles: vec![],
    }));
    app.channels = vec![Channel {
        id: "c".to_string(),
        name: "c".to_string(),
        channel_type: 0,
        guild_id: None,
        children: None,
    }];
    app.selection_index = 3;
    assert!(app.accepts(&AppAction::SelectPrevious));
    handle_keys_events(&mut app, AppAction::SelectPrevious, 0);
    assert_eq!(app.selection_index, 2);
    assert!(!app.accepts(&AppAction::SelectNext));
}

#[test]
fn requests_to_the_gateway() {
    match members_request("g1") {
        JsonValue::Object(es) => {
            assert_eq!(es[0].0, "op");
            assert!(matches!(&es[0].1, JsonValue::Number(Some(8), t) if t == "8"));
        },
        other => panic!("unexpected request {other:?}"),
    }
    match heartbeat(Some(251)) {
        JsonValue::Object(es) => assert!(matches!(&es[1].1, JsonValue::Number(Some(251), t) if t == "251")),
        other => panic!("unexpected heartbeat {other:?}"),
    }
    match subscription("g", "c") {
        JsonValue::Object(es) => assert!(matches!(&es[0].1, JsonValue::Number(Some(14), _))),
        other => panic!("unexpected subscription {other:?}"),
    }
}

// ---------------------------------------------------------------------------
// Logs, numbers and layout
// ---------------------------------------------------------------------------

#[test]
fn log_line_reads_back() {
    let line = log_line("2024-01-02 03:04:05", LogType::Error, "boom");
    assert_eq!(line, "[2024-01-02 03:04:05] ERROR: boom\n");
    assert_eq!(
        parse_log(&line),
        Some(("2024-01-02".to_string(), "03:04:05".to_string(), "ERROR".to_string(), "boom\n".to_string()))
    );
    assert_eq!(parse_log("no bracket"), None);
    let line = log_line("2024-01-02 03:04:05", LogType::Warning, "disk  \u{3000}");
    let trimmed = trim(&line);
    assert_eq!(
        parse_log(&trimmed),
        Some(("2024-01-02".to_string(), "03:04:05".to_string(), "WARN".to_string(), "disk".to_string()))
    );
}

#[test]
fn whitespace_is_trimmed_as_std_does() {
    for text in ["  a b \t\n", "\u{a0}\u{2003}x\u{3000}", "", "   ", "\u{180e}y\u{200b}", "\u{85}z\u{2029}"] {
        assert_eq!(trim(text), text.trim());
        assert_eq!(trim_start(text), text.trim_start());
    }
}

#[test]
fn appended_log_bytes_become_lines() {
    let mut buffer = b"  one \n\n two\npart".to_vec();
    let lines = drain_lines(&mut buffer);
    assert_eq!(lines, vec!["one".to_string(), "two".to_string()]);
    assert_eq!(buffer, b"part".to_vec());
    assert_eq!(log_change(10, 12), LogChange::Grew);
    assert_eq!(log_change(10, 3), LogChange::Shrank);
}

#[test]
fn reading_the_log_backwards() {
    let log = b"first\nsecond\nthird\n".to_vec();
    let mut reader = LogReader::new(log.len() as u64);
    let mut got = PreviousLines::new();
    while reader.wants_more(&got, 2) {
        let (at, len) = reader.next_read();
        let chunk = log[at as usize..(at + len) as usize].to_vec();
        got.feed(chunk, 2);
    }
    let lines = reader.finish(got, 2);
    assert_eq!(lines, vec!["third".to_string(), "second".to_string()]);
}

#[test]
fn numbers_round_trip() {
    assert_eq!(u64_text(0), "0");
    assert_eq!(u64_text(1234567890), "1234567890");
    assert_eq!(parse_u64(&u64_text(u64::MAX)), Some(u64::MAX));
}

#[test]
fn message_layout() {
    assert_eq!(
        timestamp_parts("2024-05-06T07:08:09.123+00:00"),
        ("2024-05-06".to_string(), "07:08:09".to_string())
    );
    let m = message("1", "5", user("u", "bob", Some("Bobby")), Some("hello"));
    assert_eq!(message_line_exec(&m, false), "[2024-05-06 07:08:09] Bobby: hello");
    assert_eq!(message_line_exec(&m, true), "[2024-05-06 07:08:09] bob: hello");
}

// ---------------------------------------------------------------------------
// Screen layout, addresses, keys and guards
// ---------------------------------------------------------------------------

#[test]
fn estimated_rows_of_wrapped_text() {
    assert_eq!(estimated_height_exec("[d t] a: hello world", 10), Some(4));
    assert_eq!(estimated_height_exec("abcdefghijklmno", 10), Some(3));
    assert_eq!(estimated_height_exec("", 10), Some(1));
    assert_eq!(estimated_height_exec("a\nb", 10), Some(2));
    assert_eq!(estimated_height_exec("anything", 3), Some(1));
}

#[test]
fn chat_scrolls_to_the_selection_or_the_bottom() {
    let heights = vec![2usize, 3, 1];
    assert_eq!(chat_scroll(&heights, 0, 0, 4), 2);
    assert_eq!(chat_scroll(&heights, 3, 2, 4), 0);
    assert_eq!(chat_scroll(&heights, 1, 0, 4), 2);
    assert_eq!(chat_scroll(&heights, 2, 1, 4), 1);
}

#[test]
fn who_is_typing() {
    assert_eq!(typing_text_exec(&vec!["Ann".to_string()]), "Ann is typing...");
    assert_eq!(typing_text_exec(&vec!["A".to_string(), "B".to_string()]), "A, B are typing...");
    let four: Vec<String> = ["a", "b", "c", "d"].iter().map(|s| s.to_string()).collect();
    assert_eq!(typing_text_exec(&four), "Several people are typing...");
    assert_eq!(status_with_typing_exec("S", &vec![]), "S");
    assert_eq!(status_with_typing_exec("S", &vec!["Ann".to_string()]), "S | Ann is typing...");
    assert_eq!(input_title(InputMode::Command, "S"), "Command Line");
    assert_eq!(input_title(InputMode::Search, "S"), "Searching");
    assert_eq!(input_title(InputMode::Normal, "S"), "Input: S");
}

#[test]
fn message_addresses() {
    assert_eq!(
        messages_url("5", None, Some("9"), None, Some("100")),
        "https://discord.com/api/v10/channels/5/messages?before=9&limit=100"
    );
    assert_eq!(
        messages_url("5", Some("1"), None, Some("2"), None),
        "https://discord.com/api/v10/channels/5/messages?around=1&after=2&"
    );
    let a = message("1", "5", user("u", "u", None), None);
    let b = message("2", "5", user("u", "u", None), None);
    assert_eq!(oldest_first(vec![b.clone(), a.clone()]), vec![a, b]);
}

#[test]
fn keys_become_actions() {
    assert!(matches!(key_action(Key::Char('c'), true), Some(AppAction::SigInt)));
    assert!(matches!(key_action(Key::Char('c'), false), Some(AppAction::InputChar('c'))));
    assert!(matches!(key_action(Key::Up, false), Some(AppAction::SelectPrevious)));
    assert!(matches!(key_action(Key::Enter, false), Some(AppAction::InputSubmit)));
    assert!(key_action(Key::Other, false).is_none());
}

#[test]
fn actions_that_would_fail_are_refused() {
    let mut app = chat_app("5");
    app.input = "é".to_string();
    app.cursor_position = 1;
    assert!(!app.accepts(&AppAction::InputChar('a')));
    assert!(!app.accepts(&AppAction::InputBackspace));
    app.cursor_position = 2;
    assert!(app.accepts(&AppAction::InputChar('a')));
    let mut list = App::default();
    list.state = AppState::SelectingDM;
    list.vim_mode = false;
    list.dms = vec![dm("1", 1, vec![user("a", "al", None)], None, None)];
    list.selection_index = 4;
    assert!(!list.accepts(&AppAction::InputSubmit));
    list.selection_index = 0;
    assert!(list.accepts(&AppAction::InputSubmit));
    let mut sending = chat_app("5");
    sending.input = "hi @bob".to_string();
    assert!(!sending.accepts(&AppAction::InputSubmit));
}

#[test]
fn log_lines_that_cannot_be_split() {
    assert!(parse_log_ok_exec("[a b] INFO: x"));
    assert!(!parse_log_ok_exec("]x"));
    assert!(!parse_log_ok_exec("é]x"));
    assert!(parse_log_ok_exec("no bracket"));
}

#[test]
fn command_pieces() {
    assert_eq!(pieces_exec("a\nb\n", '\n'), vec!["a".to_string(), "b".to_string(), "".to_string()]);
}
