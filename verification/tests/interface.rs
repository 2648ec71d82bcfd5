use ratatui::{
    backend::TestBackend,
    layout::{Alignment, Position, Rect},
    style::{Modifier, Style},
    text::{Line, Span},
    widgets::{Block, List, ListItem, Paragraph, Tabs, Wrap},
    Frame, Terminal,
};
use tui_input::Input;
use tunebeacon::{
    config::Config,
    domain::{PlaybackStatus, Player, RawTrack, Verification, VerificationStatus},
    editor::{Key, KeyCode, KeyKind, ALT, CONTROL, SHIFT},
    runtime::RuntimeState,
    screen::{
        detail, draw_input_field, lay_out_field, now_playing_areas, page_inner, screen_areas,
        yes_no, Area, Page,
    },
    tui::{App, ArtworkChange, Effect, Tab},
};

fn app(tab: Tab) -> App {
    let mut config = Config::default();
    config.mqtt.password = Some("do-not-render-this".to_owned());
    config.webhook.bearer_token = Some("do-not-render-token".to_owned());
    let mut app = App::new(config, RuntimeState::default());
    app.tab = tab;
    app
}

fn rect(area: Area) -> Rect {
    Rect::new(area.x, area.y, area.width, area.height)
}

fn area(rect: Rect) -> Area {
    Area {
        x: rect.x,
        y: rect.y,
        width: rect.width,
        height: rect.height,
    }
}

fn draw_page(frame: &mut Frame, page: Page) {
    frame.render_widget(Paragraph::new(page.header), rect(page.header_area));
    for field in page.fields {
        let style = if field.selected {
            Style::default().add_modifier(Modifier::REVERSED)
        } else {
            Style::default()
        };
        frame.render_widget(
            Paragraph::new(field.label).style(style),
            rect(field.label_area),
        );
        frame.render_widget(
            Paragraph::new(field.value)
                .style(style)
                .scroll((0, field.scroll)),
            rect(field.value_area),
        );
        if let Some((x, y)) = field.cursor {
            frame.set_cursor_position((x, y));
        }
    }
    if let Some((help_area, help)) = page.help {
        frame.render_widget(Paragraph::new(help), rect(help_area));
    }
}

fn draw(frame: &mut Frame, app: &App) {
    let (top, page, bottom) = screen_areas(area(frame.area()));
    frame.render_widget(
        Tabs::new(["Now playing", "Players", "MQTT", "Webhook", "Verification"])
            .select(app.tab.index())
            .block(Block::bordered().title(" TuneBeacon ")),
        rect(top),
    );
    match app.tab {
        Tab::NowPlaying => {
            let (artwork, metadata) = now_playing_areas(page);
            frame.render_widget(Block::bordered().title(" Artwork "), rect(artwork));
            frame.render_widget(Paragraph::new("No artwork"), rect(page_inner(artwork)));
            let lines: Vec<Line> = app
                .now_playing_lines()
                .into_iter()
                .map(|(label, value)| {
                    Line::from(vec![
                        Span::styled(label, Style::default().bold()),
                        Span::raw(value),
                    ])
                })
                .collect();
            frame.render_widget(
                Paragraph::new(lines)
                    .block(Block::bordered().title(" Metadata "))
                    .wrap(Wrap { trim: true }),
                rect(metadata),
            );
        }
        Tab::Players => {
            let items: Vec<ListItem> = app
                .player_rows()
                .into_iter()
                .map(|(_, text)| ListItem::new(text))
                .collect();
            frame.render_widget(List::new(items).block(Block::bordered()), rect(page));
        }
        Tab::Mqtt => {
            frame.render_widget(Block::bordered().title(" MQTT settings "), rect(page));
            if let Some(page) = app.mqtt_page(page_inner(page)) {
                draw_page(frame, page);
            }
        }
        Tab::Webhook => {
            frame.render_widget(Block::bordered().title(" Webhook settings "), rect(page));
            if let Some(page) = app.webhook_page(page_inner(page)) {
                draw_page(frame, page);
            }
        }
        Tab::Verification => {
            let lines: Vec<Line> = app
                .verification_lines()
                .into_iter()
                .map(Line::from)
                .collect();
            frame.render_widget(
                Paragraph::new(lines)
                    .block(Block::bordered().title(" MusicBrainz verification "))
                    .wrap(Wrap { trim: true }),
                rect(page),
            );
        }
    }
    frame.render_widget(
        Paragraph::new(app.footer()).alignment(Alignment::Center),
        rect(bottom),
    );
}

fn terminal(width: u16, height: u16, app: &App) -> Terminal<TestBackend> {
    let mut terminal = Terminal::new(TestBackend::new(width, height)).unwrap();
    terminal.draw(|frame| draw(frame, app)).unwrap();
    terminal
}

fn shown(terminal: &Terminal<TestBackend>) -> String {
    terminal
        .backend()
        .buffer()
        .content()
        .iter()
        .map(ratatui::buffer::Cell::symbol)
        .collect()
}

fn render(width: u16, height: u16, app: App) -> String {
    shown(&terminal(width, height, &app))
}

fn player(key: &str) -> Player {
    Player {
        key: key.to_owned(),
        identity: key.to_uppercase(),
        bus_name: format!("org.mpris.MediaPlayer2.{key}"),
        desktop_entry: None,
        status: PlaybackStatus::Playing,
        track: Some(RawTrack {
            title: "Song".to_owned(),
            artists: vec!["One".to_owned(), "Two".to_owned()],
            album: "Album".to_owned(),
            ..RawTrack::default()
        }),
    }
}

fn press(app: &mut App, code: KeyCode) -> Effect {
    app.handle_key(Key::new(code, 0))
}

fn type_text(app: &mut App, text: &str) {
    for c in text.chars() {
        press(app, KeyCode::Char(c));
    }
}

#[test]
fn normal_and_narrow_layouts_render() {
    let normal = render(100, 30, app(Tab::NowPlaying));
    assert!(normal.contains("Nothing eligible is playing"));
    assert!(normal.contains("Artwork"));

    let narrow = render(45, 18, app(Tab::Verification));
    assert!(narrow.contains("Privacy mode"));
    assert!(narrow.contains("MusicBrainz"));
}

#[test]
fn mqtt_layout_never_renders_password() {
    let rendered = render(90, 24, app(Tab::Mqtt));
    assert!(!rendered.contains("do-not-render-this"));
    assert!(rendered.contains("••••"));
}

#[test]
fn webhook_layout_masks_token_and_highlights_empty_url() {
    let mut app = app(Tab::Webhook);
    app.config.webhook.url.clear();
    let terminal = terminal(90, 24, &app);
    let rendered = shown(&terminal);
    assert!(!rendered.contains("do-not-render-token"));
    assert!(rendered.contains("••••"));
    let selected_blank = terminal.backend().buffer().cell((20, 6)).unwrap();
    assert!(selected_blank.modifier.contains(Modifier::REVERSED));
}

#[test]
fn webhook_editor_supports_non_destructive_cursor_movement() {
    let mut app = app(Tab::Webhook);
    app.config.webhook.url = "https://example.test/hook".to_owned();
    app.handle_webhook_key(Key::new(KeyCode::Enter, 0));
    app.handle_key(Key::new(KeyCode::Left, 0));
    app.handle_key(Key::new(KeyCode::Char('X'), SHIFT));
    assert_eq!(app.config.webhook.url, "https://example.test/hooXk");
}

#[test]
fn mqtt_editor_places_visible_cursor_after_input() {
    let mut app = app(Tab::Mqtt);
    app.editing = true;
    app.config.mqtt.host = "broker".to_owned();
    app.mqtt_input = Input::from("broker");
    let mut terminal = terminal(90, 24, &app);
    assert!(terminal.backend().cursor_visible());
    terminal
        .backend_mut()
        .assert_cursor_position(Position::new(19, 6));
}

#[test]
fn empty_selected_field_uses_reverse_video() {
    let mut app = app(Tab::Mqtt);
    app.mqtt_field = 1;
    app.config.mqtt.username = None;
    let terminal = terminal(90, 24, &app);
    let selected_blank = terminal.backend().buffer().cell((20, 7)).unwrap();
    assert!(selected_blank.modifier.contains(Modifier::REVERSED));
}

#[test]
fn mqtt_input_supports_non_destructive_cursor_movement() {
    let mut app = app(Tab::Mqtt);
    app.config.mqtt.host = "broker".to_owned();
    app.handle_mqtt_key(Key::new(KeyCode::Enter, 0));
    app.handle_key(Key::new(KeyCode::Left, 0));
    app.handle_key(Key::new(KeyCode::Left, 0));
    app.handle_key(Key::new(KeyCode::Char('X'), SHIFT));
    assert_eq!(app.config.mqtt.host, "brokXer");
    assert_eq!(app.mqtt_input.cursor(), 5);
}

#[test]
fn status_messages_expire() {
    let mut app = app(Tab::NowPlaying);
    app.show_message("saved test".to_owned(), 0, 17);
    app.expire_message(17);
    assert!(app.message.is_empty());
    assert!(app.message_expires_at.is_none());
}

#[test]
fn messages_stay_for_as_long_as_they_are_meant_to() {
    let mut app = app(Tab::NowPlaying);
    assert_eq!(app.footer(), "1–5/←→ tabs  s save  q quit");
    app.note_saved("/tmp/x", 5);
    assert_eq!(app.message_expires_at, Some(2_000_000_005));
    app.expire_message(2_000_000_004);
    assert_eq!(app.footer(), "saved /tmp/x");
    app.expire_message(2_000_000_005);
    assert_eq!(app.message, "");
    app.note_mqtt_test(&Ok(()), 0);
    assert_eq!(app.message, "MQTT connection succeeded");
    assert_eq!(app.message_expires_at, Some(4_000_000_000));
    app.note_mqtt_test(&Err("refused".to_owned()), 0);
    assert_eq!(app.message, "MQTT test failed: refused");
    app.note_webhook_test(&Ok(()), 0);
    assert_eq!(app.message, "Webhook test POST succeeded");
    app.note_webhook_test(&Err("refused".to_owned()), 0);
    assert_eq!(app.message, "Webhook test failed: refused");
    app.note_artwork_failure("bad", 0);
    assert_eq!(app.message, "artwork unavailable: bad");
    app.note_encoding_failure("bad", u64::MAX);
    assert_eq!(app.message, "artwork encoding failed: bad");
    assert_eq!(app.message_expires_at, Some(u64::MAX));
}

#[test]
fn keys_lead_from_page_to_page() {
    let mut app = app(Tab::NowPlaying);
    for (c, tab) in [
        ('2', Tab::Players),
        ('3', Tab::Mqtt),
        ('4', Tab::Webhook),
        ('5', Tab::Verification),
        ('1', Tab::NowPlaying),
    ] {
        assert_eq!(press(&mut app, KeyCode::Char(c)), Effect::Nothing);
        assert_eq!(app.tab, tab);
    }
    press(&mut app, KeyCode::Left);
    assert_eq!(app.tab, Tab::Verification);
    press(&mut app, KeyCode::Right);
    press(&mut app, KeyCode::Right);
    assert_eq!(app.tab, Tab::Players);
    assert_eq!(press(&mut app, KeyCode::Char('s')), Effect::Save);
    assert_eq!(press(&mut app, KeyCode::Char('q')), Effect::Quit);
    app.tab = Tab::NowPlaying;
    assert_eq!(press(&mut app, KeyCode::Enter), Effect::Nothing);
}

#[test]
fn players_are_allowed_denied_and_reordered() {
    let mut app = app(Tab::Players);
    assert_eq!(press(&mut app, KeyCode::Char(' ')), Effect::Nothing);
    press(&mut app, KeyCode::Down);
    assert_eq!(app.player_cursor, 0);
    app.state.players = vec![player("a"), player("b"), player("c")];
    for _ in 0..2 {
        assert_eq!(press(&mut app, KeyCode::Char('a')), Effect::Sync);
        press(&mut app, KeyCode::Down);
    }
    press(&mut app, KeyCode::Down);
    assert_eq!(app.player_cursor, 2);
    assert_eq!(press(&mut app, KeyCode::Char(' ')), Effect::Sync);
    assert_eq!(app.config.players.allowlist, vec!["a", "b", "c"]);
    let up = Key::new(KeyCode::Up, SHIFT);
    let down = Key::new(KeyCode::Down, SHIFT);
    assert_eq!(app.handle_key(up), Effect::Sync);
    assert_eq!(app.config.players.allowlist, vec!["a", "c", "b"]);
    app.handle_key(up);
    app.handle_key(up);
    assert_eq!(app.config.players.allowlist, vec!["c", "a", "b"]);
    app.handle_key(down);
    assert_eq!(app.config.players.allowlist, vec!["a", "c", "b"]);
    app.handle_key(down);
    app.handle_key(down);
    assert_eq!(app.config.players.allowlist, vec!["a", "b", "c"]);
    assert_eq!(press(&mut app, KeyCode::Char(' ')), Effect::Sync);
    assert_eq!(app.config.players.allowlist, vec!["a", "b"]);
    press(&mut app, KeyCode::Up);
    assert_eq!(app.player_cursor, 1);
    app.move_priority(isize::MIN);
    assert_eq!(app.config.players.allowlist, vec!["b", "a"]);
    app.move_priority(isize::MAX);
    assert_eq!(app.config.players.allowlist, vec!["b", "a"]);
    app.player_cursor = 9;
    app.move_priority(1);
    assert_eq!(app.config.players.allowlist, vec!["b", "a"]);
}

#[test]
fn switches_of_the_broker() {
    let mut app = app(Tab::Mqtt);
    assert_eq!(press(&mut app, KeyCode::Char('e')), Effect::Sync);
    assert!(app.config.mqtt.enabled);
    press(&mut app, KeyCode::Char('l'));
    assert!(app.config.mqtt.tls);
    press(&mut app, KeyCode::Char('r'));
    assert!(app.config.mqtt.retain);
    let mut seen = Vec::new();
    for _ in 0..3 {
        press(&mut app, KeyCode::Char('o'));
        seen.push(app.config.mqtt.qos);
    }
    assert_eq!(seen, vec![2, 0, 1]);
    app.config.mqtt.qos = 254;
    press(&mut app, KeyCode::Char('o'));
    assert_eq!(app.config.mqtt.qos, 0);
    press(&mut app, KeyCode::Char('o'));
    assert_eq!(press(&mut app, KeyCode::Char('c')), Effect::TestMqtt);
    for _ in 0..6 {
        press(&mut app, KeyCode::Tab);
    }
    assert_eq!(app.mqtt_field, 4);
    press(&mut app, KeyCode::Up);
    assert_eq!(app.mqtt_field, 3);
    let page = app
        .mqtt_page(Area {
            x: 0,
            y: 0,
            width: 60,
            height: 20,
        })
        .unwrap();
    assert_eq!(page.header, "Enabled: yes   TLS: yes   QoS: 1   Retain: yes");
    assert_eq!(page.fields.len(), 5);
    assert_eq!(page.fields[4].label, "      Port: ");
    assert_eq!(page.fields[4].value, "1883");
    assert!(page.fields[3].selected);
    assert_eq!(page.fields[2].value, "•".repeat(18));
    assert_eq!(page.help.unwrap().0.y, 8);
}

#[test]
fn ports_are_numbers() {
    let mut app = app(Tab::Mqtt);
    app.mqtt_field = 4;
    assert_eq!(app.mqtt_field_value(), "1883");
    press(&mut app, KeyCode::Enter);
    type_text(&mut app, "x");
    assert_eq!(app.mqtt_input.value(), "1883");
    type_text(&mut app, "9");
    assert_eq!(app.config.mqtt.port, 18839);
    type_text(&mut app, "9");
    assert_eq!(app.mqtt_input.value(), "188399");
    assert_eq!(app.config.mqtt.port, 18839);
    app.handle_key(Key::new(KeyCode::Char('u'), CONTROL));
    assert_eq!(app.mqtt_input.value(), "");
    assert_eq!(app.config.mqtt.port, 18839);
    type_text(&mut app, "80");
    assert_eq!(app.config.mqtt.port, 80);
    assert_eq!(press(&mut app, KeyCode::Esc), Effect::Nothing);
    assert!(!app.editing);
}

#[test]
fn each_field_takes_what_is_typed() {
    let mut app = app(Tab::Mqtt);
    app.config.mqtt.topic = String::new();
    app.config.mqtt.password = None;
    for (index, text) in ["host", "user", "pass", "topic"].iter().enumerate() {
        app.mqtt_field = index;
        press(&mut app, KeyCode::Enter);
        type_text(&mut app, text);
        press(&mut app, KeyCode::Enter);
        assert_eq!(app.mqtt_field_value(), *text);
    }
    assert_eq!(app.config.mqtt.host, "host");
    assert_eq!(app.config.mqtt.username.as_deref(), Some("user"));
    assert_eq!(app.config.mqtt.password.as_deref(), Some("pass"));
    assert_eq!(app.config.mqtt.topic, "topic");

    app.tab = Tab::Webhook;
    app.config.webhook.bearer_token = None;
    press(&mut app, KeyCode::Down);
    press(&mut app, KeyCode::Down);
    assert_eq!(app.webhook_field, 1);
    press(&mut app, KeyCode::Enter);
    type_text(&mut app, "q1");
    assert!(app.editing);
    assert_eq!(app.config.webhook.bearer_token.as_deref(), Some("q1"));
    press(&mut app, KeyCode::Backspace);
    press(&mut app, KeyCode::Enter);
    assert_eq!(app.webhook_field_value(), "q");
    press(&mut app, KeyCode::Up);
    assert_eq!(app.webhook_field, 0);
    assert_eq!(press(&mut app, KeyCode::Char('e')), Effect::Sync);
    assert!(app.config.webhook.enabled);
    assert_eq!(press(&mut app, KeyCode::Char('c')), Effect::TestWebhook);
}

#[test]
fn editing_keys_work_in_the_middle_of_a_line() {
    let mut app = app(Tab::Webhook);
    app.config.webhook.url = "abc def".to_owned();
    press(&mut app, KeyCode::Enter);
    assert_eq!(press(&mut app, KeyCode::Home), Effect::Sync);
    assert_eq!(press(&mut app, KeyCode::Home), Effect::Nothing);
    press(&mut app, KeyCode::Delete);
    assert_eq!(app.config.webhook.url, "bc def");
    press(&mut app, KeyCode::End);
    press(&mut app, KeyCode::Backspace);
    assert_eq!(app.config.webhook.url, "bc de");
    app.handle_key(Key::new(KeyCode::Char('w'), CONTROL));
    assert_eq!(app.config.webhook.url, "bc ");
    app.handle_key(Key::new(KeyCode::Char('y'), CONTROL));
    assert_eq!(app.config.webhook.url, "bc de");
    press(&mut app, KeyCode::Right);
    press(&mut app, KeyCode::Up);
    app.handle_key(Key::new(KeyCode::Char('@'), CONTROL + ALT));
    assert_eq!(app.config.webhook.url, "bc de@");
    let released = Key {
        code: KeyCode::Char('z'),
        modifiers: 0,
        kind: KeyKind::Release,
    };
    assert_eq!(app.handle_key(released), Effect::Nothing);
    assert_eq!(app.config.webhook.url, "bc de@");
    let repeated = Key {
        kind: KeyKind::Repeat,
        ..released
    };
    assert_eq!(app.handle_key(repeated), Effect::Sync);
    assert_eq!(app.config.webhook.url, "bc de@z");
}

#[test]
fn fallback_is_switched_on_its_own_page() {
    let mut app = app(Tab::Verification);
    assert_eq!(press(&mut app, KeyCode::Char('x')), Effect::Nothing);
    assert_eq!(press(&mut app, KeyCode::Char('f')), Effect::Sync);
    assert!(app.config.verification.publish_unverified);
    assert!(app.verification_lines()[0].starts_with("UNSAFE FALLBACK"));
    assert_eq!(press(&mut app, KeyCode::Char(' ')), Effect::Sync);
    assert!(!app.config.verification.publish_unverified);
    assert!(app.verification_lines()[0].starts_with("Privacy mode"));
    assert_eq!(app.verification_lines().len(), 8);
}

#[test]
fn what_is_playing_is_shown() {
    let mut app = app(Tab::NowPlaying);
    app.state.selected = Some(player("spotify"));
    let values: Vec<String> = app
        .now_playing_lines()
        .into_iter()
        .map(|(label, value)| format!("{label}{value}"))
        .collect();
    assert_eq!(
        values,
        vec![
            "        Track: Song",
            "      Artists: One, Two",
            "        Album: Album",
            "       Player: SPOTIFY (spotify)",
            " Verification: pending",
            "         MQTT: disabled",
            "      Webhook: disabled",
        ]
    );
    app.state.verification = Some(Verification::failed(VerificationStatus::NotFound));
    app.config.mqtt.enabled = true;
    app.state.mqtt.detail = "refused".to_owned();
    app.state.webhook.delivered = true;
    app.state.selected.as_mut().unwrap().track = None;
    let lines = app.now_playing_lines();
    assert_eq!(lines[0].1, "—");
    assert_eq!(lines[1].1, "");
    assert_eq!(lines[4].1, "not_found");
    assert_eq!(lines[5].1, "refused");
    assert_eq!(lines[6].1, "delivered");
    app.state.mqtt.connected = true;
    assert_eq!(app.now_playing_lines()[5].1, "connected");
    assert_eq!(detail("A", "b").0, "            A: ");
}

#[test]
fn players_are_listed_with_their_priority() {
    let mut app = app(Tab::Players);
    assert_eq!(
        app.player_rows()[0].1,
        "No MPRIS players discovered in this D-Bus session."
    );
    app.state.players = vec![player("spotify"), player("vlc")];
    app.state.players[1].status = PlaybackStatus::Unknown;
    app.config.players.allowlist = vec!["other".to_owned(), "vlc".to_owned()];
    app.player_cursor = 1;
    let rows = app.player_rows();
    assert_eq!(
        rows[0].1,
        "    [ ] denied  spotify              playing    SPOTIFY"
    );
    assert_eq!(
        rows[1].1,
        "[✓] priority 2  vlc                  unknown    VLC"
    );
    assert!(!rows[0].0);
    assert!(rows[1].0);
    assert!(render(90, 24, app).contains("priority 2"));
}

#[test]
fn fields_are_drawn_where_there_is_room() {
    let inner = Area {
        x: 1,
        y: 4,
        width: 30,
        height: 3,
    };
    let field = lay_out_field(inner, 0, false, "Host", "broker", false, None).unwrap();
    assert_eq!(field.label, "      Host: ");
    assert_eq!(
        field.value_area,
        Area {
            x: 13,
            y: 6,
            width: 18,
            height: 1
        }
    );
    assert_eq!(field.cursor, None);
    assert!(lay_out_field(inner, 1, false, "Host", "broker", false, None).is_none());
    assert!(lay_out_field(inner, usize::MAX, false, "Host", "broker", false, None).is_none());
    // The cursor stays in the field even when it is told to leave it.
    let field = lay_out_field(inner, 0, true, "Host", "broker", false, Some((100, 3))).unwrap();
    assert_eq!(field.cursor, Some((30, 6)));
    assert_eq!(field.scroll, 3);
    let narrow = Area { width: 8, ..inner };
    let field = lay_out_field(narrow, 0, true, "Host", "broker", false, Some((0, 0))).unwrap();
    assert_eq!(field.value_area.width, 0);
    assert_eq!(field.cursor, None);
}

#[test]
fn long_and_wide_lines_scroll() {
    let inner = Area {
        x: 0,
        y: 0,
        width: 16,
        height: 5,
    };
    let line = Input::from("abcdef");
    let field = draw_input_field(inner, 0, 0, true, "URL", "", false, &line).unwrap();
    assert_eq!(field.value, "abcdef");
    assert_eq!(field.scroll, 3);
    assert_eq!(field.cursor, Some((15, 2)));
    let field = draw_input_field(inner, 0, 0, true, "URL", "", true, &line).unwrap();
    assert_eq!(field.value, "••••••");
    assert_eq!(field.scroll, 3);
    // A wide character fills two columns.
    let line = Input::from("日");
    let field = draw_input_field(inner, 0, 0, true, "URL", "", false, &line).unwrap();
    assert_eq!(field.cursor, Some((14, 2)));
    let field = draw_input_field(inner, 0, 0, true, "URL", "", true, &line).unwrap();
    assert_eq!(field.cursor, Some((13, 2)));
    let field = draw_input_field(inner, 0, 1, true, "URL", "set", false, &line).unwrap();
    assert_eq!(field.value, "set");
    assert!(!field.selected);
}

#[test]
fn secrets_show_their_length_alone() {
    let mut one = app(Tab::Mqtt);
    let mut other = app(Tab::Mqtt);
    one.config.mqtt.password = Some("abc".to_owned());
    other.config.mqtt.password = Some("xyz".to_owned());
    one.config.mqtt.host = "h".to_owned();
    other.config.mqtt.host = "h".to_owned();
    assert_eq!(shown(&terminal(80, 24, &one)), shown(&terminal(80, 24, &other)));
    one.mqtt_field = 2;
    other.mqtt_field = 2;
    press(&mut one, KeyCode::Enter);
    press(&mut other, KeyCode::Enter);
    assert_eq!(shown(&terminal(80, 24, &one)), shown(&terminal(80, 24, &other)));
}

#[test]
fn areas_are_divided() {
    let whole = Area {
        x: 0,
        y: 0,
        width: 90,
        height: 24,
    };
    let (top, page, bottom) = screen_areas(whole);
    assert_eq!((top.y, top.height), (0, 3));
    assert_eq!((page.y, page.height), (3, 19));
    assert_eq!((bottom.y, bottom.height), (22, 2));
    assert_eq!(
        page_inner(page),
        Area {
            x: 1,
            y: 4,
            width: 88,
            height: 17
        }
    );
    let (left, right) = now_playing_areas(page);
    assert_eq!((left.x, left.width), (0, 36));
    assert_eq!((right.x, right.width), (36, 54));
    let (above, below) = now_playing_areas(Area { width: 69, ..page });
    assert_eq!(above.width, 69);
    assert_eq!(below.y, above.y + above.height);
    assert_eq!(
        page_inner(Area {
            x: 5,
            y: 6,
            width: 0,
            height: 1
        }),
        Area {
            x: 5,
            y: 7,
            width: 0,
            height: 0
        }
    );
    let nowhere = page_inner(Area {
        x: 0,
        y: 0,
        width: 1,
        height: 9,
    });
    assert!(app(Tab::Mqtt).mqtt_page(nowhere).is_none());
    assert!(app(Tab::Webhook).webhook_page(nowhere).is_none());
    assert_eq!(yes_no(true), "yes");
}

#[test]
fn page_of_the_webhook_says_how_it_stands() {
    let mut app = app(Tab::Webhook);
    app.state.webhook.detail = "delivered".to_owned();
    let inner = Area {
        x: 0,
        y: 0,
        width: 60,
        height: 5,
    };
    let page = app.webhook_page(inner).unwrap();
    assert_eq!(page.header, "Enabled: no   Status: disabled");
    assert!(page.help.is_none());
    app.config.webhook.enabled = true;
    let page = app.webhook_page(Area { height: 6, ..inner }).unwrap();
    assert_eq!(page.header, "Enabled: yes   Status: delivered");
    assert_eq!(
        page.help.unwrap().1,
        "↑/↓ field  Enter edit  e enable  c send diagnostic test POST"
    );
}

#[test]
fn covers_follow_what_is_playing() {
    let mut app = app(Tab::NowPlaying);
    assert!(matches!(app.update_artwork(), ArtworkChange::Keep));
    app.state.selected = Some(player("spotify"));
    let mut verification = Verification::failed(VerificationStatus::Verified);
    verification.release_group_id = Some("group".to_owned());
    app.state.verification = Some(verification);
    match app.update_artwork() {
        ArtworkChange::Load(url) => {
            assert_eq!(
                url,
                "https://coverartarchive.org/release-group/group/front"
            );
            assert!(app.awaits_artwork(&url));
        }
        _ => panic!("no cover"),
    }
    assert!(matches!(app.update_artwork(), ArtworkChange::Keep));
    app.state
        .selected
        .as_mut()
        .unwrap()
        .track
        .as_mut()
        .unwrap()
        .art_url = Some("file:///a.png".to_owned());
    assert!(matches!(
        app.update_artwork(),
        ArtworkChange::Load(url) if url == "file:///a.png"
    ));
    assert!(!app.awaits_artwork("other"));
    app.state = RuntimeState::default();
    assert!(matches!(app.update_artwork(), ArtworkChange::Clear));
    assert!(!app.awaits_artwork("file:///a.png"));
}
