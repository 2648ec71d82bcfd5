//! What the terminal interface keeps, and what a key does to it.

use vstd::prelude::*;

use crate::artwork::preferred_art_url;
use crate::config::Config;
use crate::editor::{edit_line, line_text, new_line, Key, KeyCode};
use crate::runtime::RuntimeState;
use crate::text::{parse_unsigned, same_opt_text, text_or_empty, to_decimal};

verus! {

/// The pages of the interface.
#[derive(Clone, Copy, Debug, PartialEq, Eq, Structural)]
pub enum Tab {
    NowPlaying,
    Players,
    Mqtt,
    Webhook,
    Verification,
}

impl Tab {
    /// The place of a page, from zero on.
    pub open spec fn place(self) -> int {
        match self {
            Tab::NowPlaying => 0,
            Tab::Players => 1,
            Tab::Mqtt => 2,
            Tab::Webhook => 3,
            Tab::Verification => 4,
        }
    }

    /// The page at a place.
    pub open spec fn at(place: int) -> Tab {
        if place == 0 {
            Tab::NowPlaying
        } else if place == 1 {
            Tab::Players
        } else if place == 2 {
            Tab::Mqtt
        } else if place == 3 {
            Tab::Webhook
        } else {
            Tab::Verification
        }
    }

    /// The page to the left; the first one has the last one to its left.
    pub open spec fn left(self) -> Tab {
        Tab::at((self.place() + 4) % 5)
    }

    /// The page to the right; the last one has the first one to its right.
    pub open spec fn right(self) -> Tab {
        Tab::at((self.place() + 1) % 5)
    }

    /// The place of a page, from zero on.
    pub fn index(self) -> (index: usize)
        ensures
            index == self.place(),
    {
        match self {
            Tab::NowPlaying => 0,
            Tab::Players => 1,
            Tab::Mqtt => 2,
            Tab::Webhook => 3,
            Tab::Verification => 4,
        }
    }

    /// The page at a place.
    pub fn from_index(index: usize) -> (tab: Self)
        requires
            index < 5,
        ensures
            tab == Tab::at(index as int),
            tab.place() == index,
    {
        match index {
            0 => Tab::NowPlaying,
            1 => Tab::Players,
            2 => Tab::Mqtt,
            3 => Tab::Webhook,
            _ => Tab::Verification,
        }
    }
}

/// The pages stand in a ring: left undoes right, and five steps lead back.
pub proof fn law_pages_stand_in_a_ring(tab: Tab)
    ensures
        tab.right().left() == tab,
        tab.left().right() == tab,
        tab.right().right().right().right().right() == tab,
        Tab::at(tab.place()) == tab,
{
}

/// What the program does after a key.
#[derive(Clone, Copy, Debug, PartialEq, Eq, Structural)]
pub enum Effect {
    Nothing,
    Quit,
    /// The settings are written to disk.
    Save,
    /// The settings are handed to what is running.
    Sync,
    TestMqtt,
    TestWebhook,
}

/// What the terminal interface keeps. Moments are nanoseconds of a clock that never goes back.
#[derive(Debug)]
pub struct App {
    pub tab: Tab,
    pub config: Config,
    pub state: RuntimeState,
    pub player_cursor: usize,
    pub mqtt_field: usize,
    pub mqtt_input: tui_input::Input,
    pub webhook_field: usize,
    pub webhook_input: tui_input::Input,
    pub editing: bool,
    pub message: String,
    pub message_expires_at: Option<u64>,
    pub artwork_url: Option<String>,
}

/// The contents of an [`App`].
#[verifier::ext_equal]
pub ghost struct AppView {
    pub tab: Tab,
    pub config: crate::config::ConfigView,
    pub state: crate::runtime::RuntimeStateView,
    pub player_cursor: usize,
    pub mqtt_field: usize,
    pub mqtt_line: crate::editor::LineView,
    pub webhook_field: usize,
    pub webhook_line: crate::editor::LineView,
    pub editing: bool,
    pub message: Seq<char>,
    pub message_expires_at: Option<u64>,
    pub artwork_url: Option<Seq<char>>,
}

impl View for App {
    type V = AppView;

    open spec fn view(&self) -> AppView {
        AppView {
            tab: self.tab,
            config: self.config@,
            state: self.state@,
            player_cursor: self.player_cursor,
            mqtt_field: self.mqtt_field,
            mqtt_line: crate::editor::line_of(self.mqtt_input),
            webhook_field: self.webhook_field,
            webhook_line: crate::editor::line_of(self.webhook_input),
            editing: self.editing,
            message: self.message@,
            message_expires_at: self.message_expires_at,
            artwork_url: crate::text::opt_text(self.artwork_url),
        }
    }
}

/// The first place of a key in a list; the length of the list when it is not there.
pub open spec fn place_of(list: Seq<Seq<char>>, key: Seq<char>) -> int
    decreases list.len(),
{
    if list.len() == 0 {
        0
    } else if list[0] == key {
        0
    } else {
        1 + place_of(list.skip(1), key)
    }
}

proof fn lemma_place_of(list: Seq<Seq<char>>, key: Seq<char>)
    ensures
        0 <= place_of(list, key) <= list.len(),
        place_of(list, key) < list.len() ==> list[place_of(list, key)] == key,
        forall|i: int| 0 <= i < place_of(list, key) ==> #[trigger] list[i] != key,
        place_of(list, key) < list.len() <==> list.contains(key),
    decreases list.len(),
{
    if list.len() > 0 && list[0] != key {
        let rest = list.skip(1);
        lemma_place_of(rest, key);
        assert forall|i: int| 0 <= i < place_of(list, key) implies #[trigger] list[i] != key by {
            if i > 0 {
                assert(rest[i - 1] == list[i]);
            }
        }
        if list.contains(key) {
            let i = choose|i: int| 0 <= i < list.len() && list[i] == key;
            assert(rest[i - 1] == key);
        }
    }
}

/// The first place of a key in a list.
pub fn find_key(list: &Vec<String>, key: &String) -> (place: Option<usize>)
    ensures
        match place {
            Some(place) => place == place_of(crate::text::texts(list@), key@) && place < list@.len(),
            None => place_of(crate::text::texts(list@), key@) == list@.len(),
        },
{
    let ghost all = crate::text::texts(list@);
    assert(all.skip(0) =~= all);
    for i in 0..list.len()
        invariant
            all == crate::text::texts(list@),
            place_of(all, key@) == i + place_of(all.skip(i as int), key@),
    {
        assert(all.skip(i as int)[0] == list@[i as int]@);
        assert(all.skip(i as int).skip(1) =~= all.skip(i as int + 1));
        if list[i] == *key {
            return Some(i);
        }
    }
    None
}

/// A list of allowed players after one was allowed or denied: it leaves the list it is on, or
/// joins it at the end.
pub open spec fn toggled(list: Seq<Seq<char>>, key: Seq<char>) -> Seq<Seq<char>> {
    let place = place_of(list, key);
    if place < list.len() {
        list.remove(place)
    } else {
        list.push(key)
    }
}

/// A place moved by some steps; it stops at either end of the numbers.
pub open spec fn moved_place(place: int, direction: int) -> int {
    if place + direction < 0 {
        0
    } else if place + direction > usize::MAX {
        usize::MAX as int
    } else {
        place + direction
    }
}

/// A list of allowed players after the one with this key moved by some steps. It changes places
/// with the one it meets there, and stays where it is when there is none.
pub open spec fn reordered(list: Seq<Seq<char>>, key: Seq<char>, direction: int) -> Seq<Seq<char>> {
    let place = place_of(list, key);
    let target = moved_place(place, direction);
    if place < list.len() && target < list.len() {
        list.update(place, list[target]).update(target, list[place])
    } else {
        list
    }
}

/// The value of a field on the page of the broker.
pub open spec fn mqtt_value(mqtt: crate::config::MqttConfigView, field: usize) -> Seq<char> {
    if field == 0 {
        mqtt.host
    } else if field == 1 {
        crate::text::or_empty(mqtt.username)
    } else if field == 2 {
        crate::text::or_empty(mqtt.password)
    } else if field == 3 {
        mqtt.topic
    } else if field == 4 {
        crate::text::decimal(mqtt.port as nat)
    } else {
        Seq::empty()
    }
}

/// The broker's settings with another value in a field. What is no port leaves the port alone.
pub open spec fn with_mqtt_value(
    mqtt: crate::config::MqttConfigView,
    field: usize,
    value: Seq<char>,
) -> crate::config::MqttConfigView {
    if field == 0 {
        crate::config::MqttConfigView { host: value, ..mqtt }
    } else if field == 1 {
        crate::config::MqttConfigView { username: Some(value), ..mqtt }
    } else if field == 2 {
        crate::config::MqttConfigView { password: Some(value), ..mqtt }
    } else if field == 3 {
        crate::config::MqttConfigView { topic: value, ..mqtt }
    } else if field == 4 {
        match crate::text::parsed_unsigned(value, u16::MAX as nat) {
            Some(port) => crate::config::MqttConfigView { port: port as u16, ..mqtt },
            None => mqtt,
        }
    } else {
        mqtt
    }
}

/// The value of a field on the page of the webhook.
pub open spec fn webhook_value(webhook: crate::config::WebhookConfigView, field: usize) -> Seq<
    char,
> {
    if field == 0 {
        webhook.url
    } else if field == 1 {
        crate::text::or_empty(webhook.bearer_token)
    } else {
        Seq::empty()
    }
}

/// The webhook's settings with another value in a field.
pub open spec fn with_webhook_value(
    webhook: crate::config::WebhookConfigView,
    field: usize,
    value: Seq<char>,
) -> crate::config::WebhookConfigView {
    if field == 0 {
        crate::config::WebhookConfigView { url: value, ..webhook }
    } else if field == 1 {
        crate::config::WebhookConfigView { bearer_token: Some(value), ..webhook }
    } else {
        webhook
    }
}

/// A digit.
pub open spec fn is_digit(c: char) -> bool {
    '0' <= c <= '9'
}

impl AppView {
    /// The interface as it opens: on the first page, with nothing selected or said.
    pub open spec fn opened(
        config: crate::config::ConfigView,
        state: crate::runtime::RuntimeStateView,
    ) -> AppView {
        AppView {
            tab: Tab::NowPlaying,
            config,
            state,
            player_cursor: 0,
            mqtt_field: 0,
            mqtt_line: crate::editor::LineView::of(Seq::empty()),
            webhook_field: 0,
            webhook_line: crate::editor::LineView::of(Seq::empty()),
            editing: false,
            message: Seq::empty(),
            message_expires_at: None,
            artwork_url: None,
        }
    }

    /// There is a number behind that of the quality of service, and a field is selected on each
    /// page.
    pub open spec fn is_sound(self) -> bool {
        self.config.mqtt.qos < 255 && self.mqtt_field <= 4 && self.webhook_field <= 1
    }

    /// The interface with these settings for the broker.
    pub open spec fn with_mqtt(self, mqtt: crate::config::MqttConfigView) -> AppView {
        AppView { config: crate::config::ConfigView { mqtt, ..self.config }, ..self }
    }

    /// The interface with these settings for the webhook.
    pub open spec fn with_webhook(self, webhook: crate::config::WebhookConfigView) -> AppView {
        AppView { config: crate::config::ConfigView { webhook, ..self.config }, ..self }
    }

    /// The interface with this list of allowed players.
    pub open spec fn with_allowlist(self, allowlist: Seq<Seq<char>>) -> AppView {
        AppView { config: crate::config::ConfigView { allowlist, ..self.config }, ..self }
    }

    /// The key of the player under the cursor.
    pub open spec fn pointed_at(self) -> Option<Seq<char>> {
        if self.player_cursor < self.state.players.len() {
            Some(self.state.players[self.player_cursor as int].key)
        } else {
            None
        }
    }

    /// The interface after the player under the cursor moved by some steps.
    pub open spec fn priority_moved(self, direction: int) -> AppView {
        match self.pointed_at() {
            Some(key) => self.with_allowlist(reordered(self.config.allowlist, key, direction)),
            None => self,
        }
    }

    /// What a key does on the page of the players.
    pub open spec fn after_player_key(self, key: Key) -> (AppView, Effect) {
        match key.code {
            KeyCode::Up => if key.shift() {
                (self.priority_moved(-1), Effect::Sync)
            } else {
                (
                    AppView {
                        player_cursor: if self.player_cursor == 0 {
                            0
                        } else {
                            (self.player_cursor - 1) as usize
                        },
                        ..self
                    },
                    Effect::Nothing,
                )
            },
            KeyCode::Down => if key.shift() {
                (self.priority_moved(1), Effect::Sync)
            } else {
                (
                    AppView {
                        player_cursor: if self.state.players.len() == 0 {
                            0
                        } else if self.player_cursor + 1 <= self.state.players.len() - 1 {
                            (self.player_cursor + 1) as usize
                        } else {
                            (self.state.players.len() - 1) as usize
                        },
                        ..self
                    },
                    Effect::Nothing,
                )
            },
            KeyCode::Char(c) => if c == ' ' || c == 'a' {
                match self.pointed_at() {
                    Some(player) => (
                        self.with_allowlist(toggled(self.config.allowlist, player)),
                        Effect::Sync,
                    ),
                    None => (self, Effect::Nothing),
                }
            } else {
                (self, Effect::Nothing)
            },
            _ => (self, Effect::Nothing),
        }
    }

    /// What a key does on the page of the broker.
    pub open spec fn after_mqtt_key(self, key: Key) -> (AppView, Effect) {
        let mqtt = self.config.mqtt;
        match key.code {
            KeyCode::Up => (
                AppView {
                    mqtt_field: if self.mqtt_field == 0 {
                        0
                    } else {
                        (self.mqtt_field - 1) as usize
                    },
                    ..self
                },
                Effect::Nothing,
            ),
            KeyCode::Down | KeyCode::Tab => (
                AppView {
                    mqtt_field: if self.mqtt_field >= 4 {
                        4
                    } else {
                        (self.mqtt_field + 1) as usize
                    },
                    ..self
                },
                Effect::Nothing,
            ),
            KeyCode::Enter => (
                AppView {
                    editing: true,
                    mqtt_line: crate::editor::LineView::of(mqtt_value(mqtt, self.mqtt_field)),
                    ..self
                },
                Effect::Nothing,
            ),
            KeyCode::Char(c) => if c == 'e' {
                (
                    self.with_mqtt(
                        crate::config::MqttConfigView { enabled: !mqtt.enabled, ..mqtt },
                    ),
                    Effect::Sync,
                )
            } else if c == 'l' {
                (
                    self.with_mqtt(crate::config::MqttConfigView { tls: !mqtt.tls, ..mqtt }),
                    Effect::Sync,
                )
            } else if c == 'r' {
                (
                    self.with_mqtt(crate::config::MqttConfigView { retain: !mqtt.retain, ..mqtt }),
                    Effect::Sync,
                )
            } else if c == 'o' {
                (
                    self.with_mqtt(
                        crate::config::MqttConfigView { qos: ((mqtt.qos + 1) % 3) as u8, ..mqtt },
                    ),
                    Effect::Sync,
                )
            } else if c == 'c' {
                (self, Effect::TestMqtt)
            } else {
                (self, Effect::Nothing)
            },
            _ => (self, Effect::Nothing),
        }
    }

    /// What a key does on the page of the webhook.
    pub open spec fn after_webhook_key(self, key: Key) -> (AppView, Effect) {
        let webhook = self.config.webhook;
        match key.code {
            KeyCode::Up => (AppView { webhook_field: 0, ..self }, Effect::Nothing),
            KeyCode::Down | KeyCode::Tab => (
                AppView { webhook_field: 1, ..self },
                Effect::Nothing,
            ),
            KeyCode::Enter => (
                AppView {
                    editing: true,
                    webhook_line: crate::editor::LineView::of(
                        webhook_value(webhook, self.webhook_field),
                    ),
                    ..self
                },
                Effect::Nothing,
            ),
            KeyCode::Char(c) => if c == 'e' {
                (
                    self.with_webhook(
                        crate::config::WebhookConfigView { enabled: !webhook.enabled, ..webhook },
                    ),
                    Effect::Sync,
                )
            } else if c == 'c' {
                (self, Effect::TestWebhook)
            } else {
                (self, Effect::Nothing)
            },
            _ => (self, Effect::Nothing),
        }
    }

    /// What a key does on the page of the verification.
    pub open spec fn after_verification_key(self, key: Key) -> (AppView, Effect) {
        if key.code == KeyCode::Char('f') || key.code == KeyCode::Char(' ') {
            (
                AppView {
                    config: crate::config::ConfigView {
                        publish_unverified: !self.config.publish_unverified,
                        ..self.config
                    },
                    ..self
                },
                Effect::Sync,
            )
        } else {
            (self, Effect::Nothing)
        }
    }

    /// The key types something into the port that is no digit.
    pub open spec fn is_refused(self, key: Key) -> bool {
        &&& self.tab == Tab::Mqtt
        &&& self.mqtt_field == 4
        &&& key.code is Char
        &&& !is_digit(key.code->Char_0)
        &&& !key.control()
    }

    /// What a key does while a field is edited: what it makes of the line goes into the field.
    pub open spec fn after_editing_key(self, key: Key) -> (AppView, Effect) {
        if key.code == KeyCode::Esc || key.code == KeyCode::Enter {
            (AppView { editing: false, ..self }, Effect::Nothing)
        } else if self.is_refused(key) {
            (self, Effect::Nothing)
        } else if self.tab == Tab::Mqtt {
            let next = crate::editor::line_after(self.mqtt_line, key);
            let app = AppView { mqtt_line: next.1, ..self };
            if next.0 {
                (
                    app.with_mqtt(
                        with_mqtt_value(self.config.mqtt, self.mqtt_field, next.1.text),
                    ),
                    Effect::Sync,
                )
            } else {
                (app, Effect::Nothing)
            }
        } else if self.tab == Tab::Webhook {
            let next = crate::editor::line_after(self.webhook_line, key);
            let app = AppView { webhook_line: next.1, ..self };
            if next.0 {
                (
                    app.with_webhook(
                        with_webhook_value(self.config.webhook, self.webhook_field, next.1.text),
                    ),
                    Effect::Sync,
                )
            } else {
                (app, Effect::Nothing)
            }
        } else {
            (self, Effect::Nothing)
        }
    }

    /// What a key does.
    pub open spec fn after_key(self, key: Key) -> (AppView, Effect) {
        if self.editing {
            self.after_editing_key(key)
        } else if key.code == KeyCode::Char('q') {
            (self, Effect::Quit)
        } else if key.code == KeyCode::Char('1') {
            (AppView { tab: Tab::NowPlaying, ..self }, Effect::Nothing)
        } else if key.code == KeyCode::Char('2') {
            (AppView { tab: Tab::Players, ..self }, Effect::Nothing)
        } else if key.code == KeyCode::Char('3') {
            (AppView { tab: Tab::Mqtt, ..self }, Effect::Nothing)
        } else if key.code == KeyCode::Char('4') {
            (AppView { tab: Tab::Webhook, ..self }, Effect::Nothing)
        } else if key.code == KeyCode::Char('5') {
            (AppView { tab: Tab::Verification, ..self }, Effect::Nothing)
        } else if key.code == KeyCode::Left {
            (AppView { tab: self.tab.left(), ..self }, Effect::Nothing)
        } else if key.code == KeyCode::Right {
            (AppView { tab: self.tab.right(), ..self }, Effect::Nothing)
        } else if key.code == KeyCode::Char('s') {
            (self, Effect::Save)
        } else {
            match self.tab {
                Tab::NowPlaying => (self, Effect::Nothing),
                Tab::Players => self.after_player_key(key),
                Tab::Mqtt => self.after_mqtt_key(key),
                Tab::Webhook => self.after_webhook_key(key),
                Tab::Verification => self.after_verification_key(key),
            }
        }
    }
}

impl App {
    /// The interface as it opens: on the first page, with nothing selected or said.
    pub fn new(config: Config, state: RuntimeState) -> (app: Self)
        ensures
            app@ == AppView::opened(config@, state@),
            app@ == (AppView {
                tab: Tab::NowPlaying,
                config: config@,
                state: state@,
                player_cursor: 0,
                mqtt_field: 0,
                mqtt_line: crate::editor::LineView::of(Seq::empty()),
                webhook_field: 0,
                webhook_line: crate::editor::LineView::of(Seq::empty()),
                editing: false,
                message: Seq::empty(),
                message_expires_at: None,
                artwork_url: None,
            }),
    {
        App {
            tab: Tab::NowPlaying,
            config,
            state,
            player_cursor: 0,
            mqtt_field: 0,
            mqtt_input: new_line(String::new()),
            webhook_field: 0,
            webhook_input: new_line(String::new()),
            editing: false,
            message: String::new(),
            message_expires_at: None,
            artwork_url: None,
        }
    }

    /// The value of the selected field on the page of the broker.
    pub fn mqtt_field_value(&self) -> (value: String)
        ensures
            value@ == mqtt_value(self@.config.mqtt, self.mqtt_field),
    {
        match self.mqtt_field {
            0 => self.config.mqtt.host.clone(),
            1 => text_or_empty(&self.config.mqtt.username),
            2 => text_or_empty(&self.config.mqtt.password),
            3 => self.config.mqtt.topic.clone(),
            4 => to_decimal(self.config.mqtt.port as u64),
            _ => String::new(),
        }
    }

    /// Puts a value into the selected field on the page of the broker.
    pub fn apply_mqtt_input(&mut self, value: String)
        ensures
            final(self)@ == old(self)@.with_mqtt(
                with_mqtt_value(old(self)@.config.mqtt, old(self)@.mqtt_field, value@),
            ),
    {
        match self.mqtt_field {
            0 => {
                self.config.mqtt.host = value;
            },
            1 => {
                self.config.mqtt.username = Some(value);
            },
            2 => {
                self.config.mqtt.password = Some(value);
            },
            3 => {
                self.config.mqtt.topic = value;
            },
            4 => {
                if let Some(port) = parse_unsigned(value.as_str(), 65535) {
                    self.config.mqtt.port = port as u16;
                }
            },
            _ => {},
        }
    }

    /// The value of the selected field on the page of the webhook.
    pub fn webhook_field_value(&self) -> (value: String)
        ensures
            value@ == webhook_value(self@.config.webhook, self.webhook_field),
    {
        match self.webhook_field {
            0 => self.config.webhook.url.clone(),
            1 => text_or_empty(&self.config.webhook.bearer_token),
            _ => String::new(),
        }
    }

    /// Puts a value into the selected field on the page of the webhook.
    pub fn apply_webhook_input(&mut self, value: String)
        ensures
            final(self)@ == old(self)@.with_webhook(
                with_webhook_value(old(self)@.config.webhook, old(self)@.webhook_field, value@),
            ),
    {
        match self.webhook_field {
            0 => {
                self.config.webhook.url = value;
            },
            1 => {
                self.config.webhook.bearer_token = Some(value);
            },
            _ => {},
        }
    }

    /// Moves the player under the cursor by some steps in the list of allowed players.
    pub fn move_priority(&mut self, direction: isize)
        ensures
            final(self)@ == old(self)@.priority_moved(direction as int),
    {
        if self.player_cursor >= self.state.players.len() {
            return ;
        }
        let key = self.state.players[self.player_cursor].key.clone();
        let ghost list = crate::text::texts(self.config.players.allowlist@);
        assert(self@.state.players[self.player_cursor as int].key == key@);
        if let Some(index) = find_key(&self.config.players.allowlist, &key) {
            let target: usize = if direction >= 0 {
                let steps: usize = direction as usize;
                if index <= usize::MAX - steps {
                    index + steps
                } else {
                    usize::MAX
                }
            } else {
                let steps: usize = (-(direction + 1)) as usize;
                if index > steps {
                    index - steps - 1
                } else {
                    0
                }
            };
            assert(target == moved_place(index as int, direction as int));
            if target < self.config.players.allowlist.len() {
                let here = self.config.players.allowlist[index].clone();
                let there = self.config.players.allowlist[target].clone();
                self.config.players.allowlist.set(index, there);
                self.config.players.allowlist.set(target, here);
            }
        }
        assert(self@.config.allowlist =~= reordered(list, key@, direction as int));
    }

    /// What a key does on the page of the players.
    pub fn handle_player_key(&mut self, key: Key) -> (effect: Effect)
        ensures
            (final(self)@, effect) == old(self)@.after_player_key(key),
    {
        match key.code {
            KeyCode::Up => if key.has_shift() {
                self.move_priority(-1);
                Effect::Sync
            } else {
                if self.player_cursor > 0 {
                    self.player_cursor = self.player_cursor - 1;
                }
                Effect::Nothing
            },
            KeyCode::Down => if key.has_shift() {
                self.move_priority(1);
                Effect::Sync
            } else {
                let count: usize = self.state.players.len();
                assert(self@.state.players.len() == count);
                self.player_cursor =
                if count == 0 {
                    0
                } else if self.player_cursor < count - 1 {
                    self.player_cursor + 1
                } else {
                    count - 1
                };
                Effect::Nothing
            },
            KeyCode::Char(c) => if c == ' ' || c == 'a' {
                self.toggle_player()
            } else {
                Effect::Nothing
            },
            _ => Effect::Nothing,
        }
    }

    /// Allows or denies the player under the cursor.
    fn toggle_player(&mut self) -> (effect: Effect)
        ensures
            match old(self)@.pointed_at() {
                Some(player) => final(self)@ == old(self)@.with_allowlist(
                    toggled(old(self)@.config.allowlist, player),
                ) && effect == Effect::Sync,
                None => final(self)@ == old(self)@ && effect == Effect::Nothing,
            },
    {
        if self.player_cursor >= self.state.players.len() {
            return Effect::Nothing;
        }
        let key = self.state.players[self.player_cursor].key.clone();
        let ghost list = crate::text::texts(self.config.players.allowlist@);
        assert(self@.state.players[self.player_cursor as int].key == key@);
        match find_key(&self.config.players.allowlist, &key) {
            Some(index) => {
                self.config.players.allowlist.remove(index);
            },
            None => {
                self.config.players.allowlist.push(key.clone());
            },
        }
        assert(self@.config.allowlist =~= toggled(list, key@));
        Effect::Sync
    }

    /// What a key does on the page of the broker.
    pub fn handle_mqtt_key(&mut self, key: Key) -> (effect: Effect)
        requires
            old(self)@.is_sound(),
        ensures
            (final(self)@, effect) == old(self)@.after_mqtt_key(key),
            final(self)@.is_sound(),
    {
        match key.code {
            KeyCode::Up => {
                if self.mqtt_field > 0 {
                    self.mqtt_field = self.mqtt_field - 1;
                }
                Effect::Nothing
            },
            KeyCode::Down | KeyCode::Tab => {
                if self.mqtt_field < 4 {
                    self.mqtt_field = self.mqtt_field + 1;
                }
                Effect::Nothing
            },
            KeyCode::Enter => {
                self.editing = true;
                self.mqtt_input = new_line(self.mqtt_field_value());
                Effect::Nothing
            },
            KeyCode::Char(c) => if c == 'e' {
                self.config.mqtt.enabled = !self.config.mqtt.enabled;
                Effect::Sync
            } else if c == 'l' {
                self.config.mqtt.tls = !self.config.mqtt.tls;
                Effect::Sync
            } else if c == 'r' {
                self.config.mqtt.retain = !self.config.mqtt.retain;
                Effect::Sync
            } else if c == 'o' {
                self.config.mqtt.qos = (self.config.mqtt.qos + 1) % 3;
                Effect::Sync
            } else if c == 'c' {
                Effect::TestMqtt
            } else {
                Effect::Nothing
            },
            _ => Effect::Nothing,
        }
    }

    /// What a key does on the page of the webhook.
    pub fn handle_webhook_key(&mut self, key: Key) -> (effect: Effect)
        requires
            old(self)@.is_sound(),
        ensures
            (final(self)@, effect) == old(self)@.after_webhook_key(key),
            final(self)@.is_sound(),
    {
        match key.code {
            KeyCode::Up => {
                if self.webhook_field > 0 {
                    self.webhook_field = self.webhook_field - 1;
                }
                Effect::Nothing
            },
            KeyCode::Down | KeyCode::Tab => {
                if self.webhook_field < 1 {
                    self.webhook_field = self.webhook_field + 1;
                }
                Effect::Nothing
            },
            KeyCode::Enter => {
                self.editing = true;
                self.webhook_input = new_line(self.webhook_field_value());
                Effect::Nothing
            },
            KeyCode::Char(c) => if c == 'e' {
                self.config.webhook.enabled = !self.config.webhook.enabled;
                Effect::Sync
            } else if c == 'c' {
                Effect::TestWebhook
            } else {
                Effect::Nothing
            },
            _ => Effect::Nothing,
        }
    }

    /// What a key does while a field is edited.
    fn handle_editing_key(&mut self, key: Key) -> (effect: Effect)
        requires
            old(self)@.is_sound(),
        ensures
            (final(self)@, effect) == old(self)@.after_editing_key(key),
            final(self)@.is_sound(),
    {
        if key.code == KeyCode::Esc || key.code == KeyCode::Enter {
            self.editing = false;
            return Effect::Nothing;
        }
        if let KeyCode::Char(c) = key.code {
            if self.tab == Tab::Mqtt && self.mqtt_field == 4 && !('0' <= c && c <= '9')
                && !key.has_control() {
                return Effect::Nothing;
            }
        }
        match self.tab {
            Tab::Mqtt => {
                if edit_line(&mut self.mqtt_input, key) {
                    let value = line_text(&self.mqtt_input).to_owned();
                    self.apply_mqtt_input(value);
                    Effect::Sync
                } else {
                    Effect::Nothing
                }
            },
            Tab::Webhook => {
                if edit_line(&mut self.webhook_input, key) {
                    let value = line_text(&self.webhook_input).to_owned();
                    self.apply_webhook_input(value);
                    Effect::Sync
                } else {
                    Effect::Nothing
                }
            },
            _ => Effect::Nothing,
        }
    }

    /// What a key does.
    pub fn handle_key(&mut self, key: Key) -> (effect: Effect)
        requires
            old(self)@.is_sound(),
        ensures
            (final(self)@, effect) == old(self)@.after_key(key),
            final(self)@.is_sound(),
    {
        if self.editing {
            return self.handle_editing_key(key);
        }
        match key.code {
            KeyCode::Char('q') => {
                return Effect::Quit;
            },
            KeyCode::Char('1') => {
                self.tab = Tab::NowPlaying;
            },
            KeyCode::Char('2') => {
                self.tab = Tab::Players;
            },
            KeyCode::Char('3') => {
                self.tab = Tab::Mqtt;
            },
            KeyCode::Char('4') => {
                self.tab = Tab::Webhook;
            },
            KeyCode::Char('5') => {
                self.tab = Tab::Verification;
            },
            KeyCode::Left => {
                self.tab = Tab::from_index((self.tab.index() + 4) % 5);
            },
            KeyCode::Right => {
                self.tab = Tab::from_index((self.tab.index() + 1) % 5);
            },
            KeyCode::Char('s') => {
                return Effect::Save;
            },
            _ => {
                match self.tab {
                    Tab::NowPlaying => {},
                    Tab::Players => {
                        return self.handle_player_key(key);
                    },
                    Tab::Mqtt => {
                        return self.handle_mqtt_key(key);
                    },
                    Tab::Webhook => {
                        return self.handle_webhook_key(key);
                    },
                    Tab::Verification => {
                        if key.code == KeyCode::Char('f') || key.code == KeyCode::Char(' ') {
                            self.config.verification.publish_unverified =
                            !self.config.verification.publish_unverified;
                            return Effect::Sync;
                        }
                    },
                }
            },
        }
        Effect::Nothing
    }
}

/// A moment some nanoseconds later, as far as there is one.
pub open spec fn later(now: u64, duration: u64) -> u64 {
    if now + duration <= u64::MAX {
        (now + duration) as u64
    } else {
        u64::MAX
    }
}

/// Two seconds in nanoseconds: how long it is said that the settings were saved.
pub const SAVED_DURATION: u64 = 2000000000;

/// Four seconds in nanoseconds: how long anything else is said.
pub const NOTICE_DURATION: u64 = 4000000000;

impl AppView {
    /// The interface with something said for a while.
    pub open spec fn saying(self, message: Seq<char>, duration: u64, now: u64) -> AppView {
        AppView { message, message_expires_at: Some(later(now, duration)), ..self }
    }

    /// The interface at a moment: what was said for long enough is gone.
    pub open spec fn at_moment(self, now: u64) -> AppView {
        match self.message_expires_at {
            Some(deadline) => if now >= deadline {
                AppView { message: Seq::empty(), message_expires_at: None, ..self }
            } else {
                self
            },
            None => self,
        }
    }

    /// The address of the cover that belongs to what is playing: the player's own, and else that
    /// of the release group that was found.
    pub open spec fn wanted_artwork(self) -> Option<Seq<char>> {
        crate::artwork::preferred_art(
            match self.state.selected {
                Some(player) => match player.track {
                    Some(track) => track.art_url,
                    None => None,
                },
                None => None,
            },
            match self.state.verification {
                Some(verification) => verification.release_group_id,
                None => None,
            },
        )
    }
}

/// What becomes of the cover.
#[derive(Debug)]
pub enum ArtworkChange {
    Keep,
    /// No cover is shown.
    Clear,
    /// No cover is shown until this one is loaded.
    Load(String),
}

impl App {
    /// Says something for a while.
    pub fn show_message(&mut self, message: String, duration: u64, now: u64)
        ensures
            final(self)@ == old(self)@.saying(message@, duration, now),
    {
        self.message = message;
        self.message_expires_at =
        if duration <= u64::MAX - now {
            Some(now + duration)
        } else {
            Some(u64::MAX)
        };
    }

    /// Stops saying what was said for long enough.
    pub fn expire_message(&mut self, now: u64)
        ensures
            final(self)@ == old(self)@.at_moment(now),
    {
        if let Some(deadline) = self.message_expires_at {
            if now >= deadline {
                self.message = String::new();
                self.message_expires_at = None;
            }
        }
    }

    /// Says that the settings were saved.
    pub fn note_saved(&mut self, path: &str, now: u64)
        ensures
            final(self)@ == old(self)@.saying("saved "@ + path@, SAVED_DURATION, now),
    {
        let mut message = "saved ".to_owned();
        message.append(path);
        self.show_message(message, SAVED_DURATION, now);
    }

    /// Says how trying out the broker went.
    pub fn note_mqtt_test(&mut self, result: &Result<(), String>, now: u64)
        ensures
            final(self)@ == old(self)@.saying(
                match result {
                    Ok(_) => "MQTT connection succeeded"@,
                    Err(reason) => "MQTT test failed: "@ + reason@,
                },
                NOTICE_DURATION,
                now,
            ),
    {
        let message = match result {
            Ok(_) => "MQTT connection succeeded".to_owned(),
            Err(reason) => {
                let mut message = "MQTT test failed: ".to_owned();
                message.append(reason.as_str());
                message
            },
        };
        self.show_message(message, NOTICE_DURATION, now);
    }

    /// Says how trying out the webhook went.
    pub fn note_webhook_test(&mut self, result: &Result<(), String>, now: u64)
        ensures
            final(self)@ == old(self)@.saying(
                match result {
                    Ok(_) => "Webhook test POST succeeded"@,
                    Err(reason) => "Webhook test failed: "@ + reason@,
                },
                NOTICE_DURATION,
                now,
            ),
    {
        let message = match result {
            Ok(_) => "Webhook test POST succeeded".to_owned(),
            Err(reason) => {
                let mut message = "Webhook test failed: ".to_owned();
                message.append(reason.as_str());
                message
            },
        };
        self.show_message(message, NOTICE_DURATION, now);
    }

    /// Says that a cover could not be read.
    pub fn note_artwork_failure(&mut self, reason: &str, now: u64)
        ensures
            final(self)@ == old(self)@.saying(
                "artwork unavailable: "@ + reason@,
                NOTICE_DURATION,
                now,
            ),
    {
        let mut message = "artwork unavailable: ".to_owned();
        message.append(reason);
        self.show_message(message, NOTICE_DURATION, now);
    }

    /// Says that a cover could not be made fit for the terminal.
    pub fn note_encoding_failure(&mut self, reason: &str, now: u64)
        ensures
            final(self)@ == old(self)@.saying(
                "artwork encoding failed: "@ + reason@,
                NOTICE_DURATION,
                now,
            ),
    {
        let mut message = "artwork encoding failed: ".to_owned();
        message.append(reason);
        self.show_message(message, NOTICE_DURATION, now);
    }

    /// Takes note of which cover belongs to what is playing, and says what becomes of the one that
    /// is shown.
    pub fn update_artwork(&mut self) -> (change: ArtworkChange)
        ensures
            final(self)@ == (AppView { artwork_url: old(self)@.wanted_artwork(), ..old(self)@ }),
            match change {
                ArtworkChange::Keep => old(self)@.wanted_artwork() == old(self)@.artwork_url,
                ArtworkChange::Clear => old(self)@.wanted_artwork() != old(self)@.artwork_url
                    && old(self)@.wanted_artwork() is None,
                ArtworkChange::Load(url) => old(self)@.wanted_artwork() != old(self)@.artwork_url
                    && old(self)@.wanted_artwork() == Some(url@),
            },
    {
        let own: Option<&str> = match &self.state.selected {
            Some(player) => match &player.track {
                Some(track) => match &track.art_url {
                    Some(url) => Some(url.as_str()),
                    None => None,
                },
                None => None,
            },
            None => None,
        };
        let group: Option<&str> = match &self.state.verification {
            Some(verification) => match &verification.release_group_id {
                Some(id) => Some(id.as_str()),
                None => None,
            },
            None => None,
        };
        let next = preferred_art_url(own, group);
        if same_opt_text(&next, &self.artwork_url) {
            return ArtworkChange::Keep;
        }
        self.artwork_url = next.clone();
        match next {
            Some(url) => ArtworkChange::Load(url),
            None => ArtworkChange::Clear,
        }
    }

    /// Whether what was loaded or made fit is still the cover that is wanted.
    pub fn awaits_artwork(&self, url: &str) -> (awaited: bool)
        ensures
            awaited == (self@.artwork_url == Some(url@)),
    {
        match &self.artwork_url {
            Some(wanted) => crate::text::same_text(wanted.as_str(), url),
            None => false,
        }
    }
}

/// What is said stays for as long as it is meant to, and no longer.
pub proof fn law_messages_expire(
    app: AppView,
    message: Seq<char>,
    duration: u64,
    said_at: u64,
    now: u64,
)
    requires
        said_at + duration <= u64::MAX,
    ensures
        ({
            let saying = app.saying(message, duration, said_at);
            &&& now >= said_at + duration ==> saying.at_moment(now).message == Seq::<char>::empty()
                && saying.at_moment(now).message_expires_at is None
            &&& now < said_at + duration ==> saying.at_moment(now) == saying
        }),
{
}

/// While a field is edited keys are text: none quits, saves or changes the page, and nothing but
/// that line and the settings on its page changes.
pub proof fn law_editing_is_contained(app: AppView, key: Key)
    requires
        app.editing,
    ensures
        ({
            let next = app.after_key(key).0;
            &&& app.after_key(key).1 == Effect::Nothing || app.after_key(key).1 == Effect::Sync
            &&& next.tab == app.tab
            &&& next.config.allowlist == app.config.allowlist
            &&& next.config.publish_unverified == app.config.publish_unverified
            &&& next.config.lastfm == app.config.lastfm
            &&& next.config.listenbrainz == app.config.listenbrainz
            &&& app.tab != Tab::Mqtt ==> next.config.mqtt == app.config.mqtt
            &&& app.tab != Tab::Webhook ==> next.config.webhook == app.config.webhook
        }),
{
}

/// Settings never change unnoticed: whenever a key changes them, they are handed to what is
/// running.
pub proof fn law_changed_settings_are_handed_on(app: AppView, key: Key)
    requires
        app.after_key(key).1 != Effect::Sync,
    ensures
        app.after_key(key).0.config == app.config,
{
}

/// What is not verified is told only after the user asked for it: the one way to switch that on is
/// its own key on its own page.
pub proof fn law_fallback_is_switched_on_explicitly(app: AppView, key: Key)
    requires
        app.after_key(key).0.config.publish_unverified != app.config.publish_unverified,
    ensures
        !app.editing,
        app.tab == Tab::Verification,
        key.code == KeyCode::Char('f') || key.code == KeyCode::Char(' '),
{
}

/// Players are heard only after the user allowed them: the list changes on the page of the players
/// alone, and nobody joins it but the player under the cursor.
pub proof fn law_players_are_allowed_explicitly(app: AppView, key: Key, player: Seq<char>)
    requires
        app.after_key(key).0.config.allowlist.contains(player),
        !app.config.allowlist.contains(player),
    ensures
        !app.editing,
        app.tab == Tab::Players,
        app.pointed_at() == Some(player),
        key.code == KeyCode::Char(' ') || key.code == KeyCode::Char('a'),
{
    let list = app.config.allowlist;
    let next = app.after_key(key).0.config.allowlist;
    let i = choose|i: int| 0 <= i < next.len() && next[i] == player;
    if let Some(pointed) = app.pointed_at() {
        lemma_place_of(list, pointed);
        let place = place_of(list, pointed);
        if next == reordered(list, pointed, -1) && next != list {
            let target = moved_place(place, -1);
            assert(next[i] == list[place] || next[i] == list[target] || next[i] == list[i]);
        } else if next == reordered(list, pointed, 1) && next != list {
            let target = moved_place(place, 1);
            assert(next[i] == list[place] || next[i] == list[target] || next[i] == list[i]);
        } else if next == toggled(list, pointed) && next != list && place < list.len() {
            assert(next[i] == list[if i < place {
                i
            } else {
                i + 1
            }]);
        }
    }
}

/// Allowing a player is undone by denying it, and a player is allowed after the key exactly when
/// it was denied before.
pub proof fn law_allowing_is_undone_by_denying(list: Seq<Seq<char>>, key: Seq<char>)
    requires
        list.no_duplicates(),
    ensures
        toggled(list, key).contains(key) == !list.contains(key),
        toggled(list, key).no_duplicates(),
        !list.contains(key) ==> toggled(toggled(list, key), key) == list,
{
    lemma_place_of(list, key);
    let place = place_of(list, key);
    let next = toggled(list, key);
    lemma_place_of(next, key);
    if place < list.len() {
        assert forall|i: int| 0 <= i < next.len() implies #[trigger] next[i] != key by {
            let j = if i < place {
                i
            } else {
                i + 1
            };
            assert(next[i] == list[j] && j != place);
        }
        assert forall|i: int, j: int| 0 <= i < next.len() && 0 <= j < next.len() && i
            != j implies next[i] != next[j] by {
            let a = if i < place {
                i
            } else {
                i + 1
            };
            let b = if j < place {
                j
            } else {
                j + 1
            };
            assert(next[i] == list[a] && next[j] == list[b] && a != b);
        }
    } else {
        assert(next[list.len() as int] == key);
        assert forall|i: int, j: int| 0 <= i < next.len() && 0 <= j < next.len() && i
            != j implies next[i] != next[j] by {
            if i == list.len() {
                assert(next[j] == list[j]);
                assert(list.contains(list[j]));
            } else if j == list.len() {
                assert(next[i] == list[i]);
                assert(list.contains(list[i]));
            }
        }
        assert(place_of(next, key) == list.len());
        assert(next.remove(list.len() as int) =~= list);
    }
}

/// Moving a player keeps the list: nobody joins it or leaves it, and a step up is undone by a step
/// down, wherever there was room for it.
pub proof fn law_priorities_only_change_places(list: Seq<Seq<char>>, key: Seq<char>)
    requires
        list.no_duplicates(),
        list.len() <= usize::MAX,
    ensures
        reordered(list, key, -1).to_multiset() == list.to_multiset(),
        reordered(list, key, 1).to_multiset() == list.to_multiset(),
        place_of(list, key) > 0 ==> reordered(reordered(list, key, -1), key, 1) == list,
{
    lemma_place_of(list, key);
    let place = place_of(list, key);
    let up = reordered(list, key, -1);
    lemma_swap_keeps(list, key, -1);
    lemma_swap_keeps(list, key, 1);
    if 0 < place < list.len() {
        lemma_place_of(up, key);
        assert(up[place - 1] == key);
        assert forall|i: int| 0 <= i < place - 1 implies #[trigger] up[i] != key by {
            assert(up[i] == list[i]);
        }
        assert(place_of(up, key) == place - 1);
        assert(reordered(up, key, 1) =~= list);
    } else if place == list.len() {
        lemma_place_of(up, key);
    }
}

proof fn lemma_swap_keeps(list: Seq<Seq<char>>, key: Seq<char>, direction: int)
    ensures
        reordered(list, key, direction).to_multiset() == list.to_multiset(),
{
    broadcast use vstd::seq_lib::group_to_multiset_ensures;

    lemma_place_of(list, key);
    let place = place_of(list, key);
    let target = moved_place(place, direction);
    if place < list.len() && target < list.len() {
        let once = list.update(place, list[target]);
        vstd::seq_lib::to_multiset_update(list, place, list[target]);
        vstd::seq_lib::to_multiset_update(once, target, list[place]);
        assert(reordered(list, key, direction).to_multiset() =~= list.to_multiset());
    }
}

/// The fields on the page of the broker are the host, the user, the password, the topic and the
/// port, and each takes what is put into it: it then holds that, the other fields hold what they
/// held, and the switches stay.
pub proof fn law_fields_of_the_broker_take_what_is_typed(
    mqtt: crate::config::MqttConfigView,
    field: usize,
    other: usize,
    value: Seq<char>,
)
    requires
        field <= 4,
        other <= 4,
    ensures
        mqtt_value(mqtt, 0) == mqtt.host,
        mqtt.username is Some ==> mqtt_value(mqtt, 1) == mqtt.username->0,
        mqtt.username is None ==> mqtt_value(mqtt, 1).len() == 0,
        mqtt.password is Some ==> mqtt_value(mqtt, 2) == mqtt.password->0,
        mqtt.password is None ==> mqtt_value(mqtt, 2).len() == 0,
        mqtt_value(mqtt, 3) == mqtt.topic,
        mqtt_value(mqtt, 4) == crate::text::decimal(mqtt.port as nat),
        ({
            let next = with_mqtt_value(mqtt, field, value);
            &&& field < 4 ==> mqtt_value(next, field) == value
            &&& field != other ==> mqtt_value(next, other) == mqtt_value(mqtt, other)
            &&& field != 1 ==> next.username == mqtt.username
            &&& field != 2 ==> next.password == mqtt.password
            &&& next.enabled == mqtt.enabled && next.tls == mqtt.tls && next.qos == mqtt.qos
                && next.retain == mqtt.retain
            &&& field == 4 ==> match crate::text::parsed_unsigned(value, 65535) {
                Some(port) => next.port == port,
                None => next.port == mqtt.port,
            }
        }),
{
}

/// The fields on the page of the webhook are the address and the token, and each takes what is put
/// into it and leaves the other alone.
pub proof fn law_fields_of_the_webhook_take_what_is_typed(
    webhook: crate::config::WebhookConfigView,
    field: usize,
    value: Seq<char>,
)
    requires
        field <= 1,
    ensures
        webhook_value(webhook, 0) == webhook.url,
        webhook.bearer_token is Some ==> webhook_value(webhook, 1) == webhook.bearer_token->0,
        webhook.bearer_token is None ==> webhook_value(webhook, 1).len() == 0,
        ({
            let next = with_webhook_value(webhook, field, value);
            &&& webhook_value(next, field) == value
            &&& field == 0 ==> next.bearer_token == webhook.bearer_token
            &&& field == 1 ==> next.url == webhook.url
            &&& next.enabled == webhook.enabled
        }),
{
}

/// While a field is edited, a key that changes the line puts the whole line into the field that is
/// edited, and a key that does not leaves the settings alone; the escape key and the enter key end
/// it, and into a port no key types anything but digits.
pub proof fn law_the_line_goes_into_its_field(app: AppView, key: Key)
    requires
        app.is_sound(),
        app.editing,
    ensures
        ({
            let next = app.after_key(key).0;
            let effect = app.after_key(key).1;
            let ends = key.code == KeyCode::Esc || key.code == KeyCode::Enter;
            let refused = app.tab == Tab::Mqtt && app.mqtt_field == 4 && key.code is Char && !('0'
                <= key.code->Char_0 <= '9') && !key.control();
            let broker = crate::editor::line_after(app.mqtt_line, key);
            let hook = crate::editor::line_after(app.webhook_line, key);
            &&& ends ==> !next.editing && next.config == app.config && effect == Effect::Nothing
                && next.mqtt_line == app.mqtt_line && next.webhook_line == app.webhook_line
            &&& !ends ==> next.editing
            &&& !ends && refused ==> next == app && effect == Effect::Nothing
            &&& !ends && !refused && app.tab == Tab::Mqtt ==> {
                &&& next.mqtt_line == broker.1
                &&& next.webhook_line == app.webhook_line
                &&& effect == Effect::Sync <==> broker.0
                &&& broker.0 && app.mqtt_field < 4 ==> mqtt_value(
                    next.config.mqtt,
                    app.mqtt_field,
                ) == broker.1.text
                &&& broker.0 && app.mqtt_field == 4 ==> match crate::text::parsed_unsigned(
                    broker.1.text,
                    65535,
                ) {
                    Some(port) => next.config.mqtt.port == port,
                    None => next.config.mqtt.port == app.config.mqtt.port,
                }
                &&& !broker.0 ==> next.config == app.config
                &&& next.config.webhook == app.config.webhook
            }
            &&& !ends && app.tab == Tab::Webhook ==> {
                &&& next.webhook_line == hook.1
                &&& next.mqtt_line == app.mqtt_line
                &&& effect == Effect::Sync <==> hook.0
                &&& hook.0 ==> webhook_value(next.config.webhook, app.webhook_field) == hook.1.text
                &&& !hook.0 ==> next.config == app.config
                &&& next.config.mqtt == app.config.mqtt
            }
            &&& !ends && app.tab != Tab::Mqtt && app.tab != Tab::Webhook ==> next == app && effect
                == Effect::Nothing
            &&& next.mqtt_field == app.mqtt_field && next.webhook_field == app.webhook_field
                && next.player_cursor == app.player_cursor && next.message == app.message
                && next.artwork_url == app.artwork_url && next.state == app.state
        }),
{
}

/// The keys that work on every page: five digits and two arrows lead to the pages, `s` saves and
/// `q` quits; none of these changes anything but the page.
pub proof fn law_keys_lead_to_the_pages(app: AppView, modifiers: u8)
    requires
        !app.editing,
    ensures
        ({
            let press = |code: KeyCode|
                app.after_key(Key { code, modifiers, kind: crate::editor::KeyKind::Press });
            &&& press(KeyCode::Char('1')) == (AppView { tab: Tab::NowPlaying, ..app },
                Effect::Nothing,
            )
            &&& press(KeyCode::Char('2')) == (AppView { tab: Tab::Players, ..app }, Effect::Nothing)
            &&& press(KeyCode::Char('3')) == (AppView { tab: Tab::Mqtt, ..app }, Effect::Nothing)
            &&& press(KeyCode::Char('4')) == (AppView { tab: Tab::Webhook, ..app }, Effect::Nothing)
            &&& press(KeyCode::Char('5')) == (AppView { tab: Tab::Verification, ..app },
                Effect::Nothing,
            )
            &&& press(KeyCode::Char('q')) == (app, Effect::Quit)
            &&& press(KeyCode::Char('s')) == (app, Effect::Save)
            &&& press(KeyCode::Left).1 == Effect::Nothing
            &&& press(KeyCode::Right).1 == Effect::Nothing
            &&& app.tab == Tab::NowPlaying ==> press(KeyCode::Right).0.tab == Tab::Players
                && press(KeyCode::Left).0.tab == Tab::Verification
            &&& app.tab == Tab::Players ==> press(KeyCode::Right).0.tab == Tab::Mqtt && press(
                KeyCode::Left,
            ).0.tab == Tab::NowPlaying
            &&& app.tab == Tab::Mqtt ==> press(KeyCode::Right).0.tab == Tab::Webhook && press(
                KeyCode::Left,
            ).0.tab == Tab::Players
            &&& app.tab == Tab::Webhook ==> press(KeyCode::Right).0.tab == Tab::Verification
                && press(KeyCode::Left).0.tab == Tab::Mqtt
            &&& app.tab == Tab::Verification ==> press(KeyCode::Right).0.tab == Tab::NowPlaying
                && press(KeyCode::Left).0.tab == Tab::Webhook
            &&& press(KeyCode::Right).0 == (AppView { tab: press(KeyCode::Right).0.tab, ..app })
            &&& press(KeyCode::Left).0 == (AppView { tab: press(KeyCode::Left).0.tab, ..app })
        }),
{
}

/// Quitting, saving and trying out are asked for by their own keys alone, and never while a field
/// is edited.
pub proof fn law_effects_have_their_keys(app: AppView, key: Key)
    ensures
        app.after_key(key).1 == Effect::Quit <==> !app.editing && key.code == KeyCode::Char('q'),
        app.after_key(key).1 == Effect::Save <==> !app.editing && key.code == KeyCode::Char('s'),
        app.after_key(key).1 == Effect::TestMqtt <==> !app.editing && app.tab == Tab::Mqtt
            && key.code == KeyCode::Char('c'),
        app.after_key(key).1 == Effect::TestWebhook <==> !app.editing && app.tab == Tab::Webhook
            && key.code == KeyCode::Char('c'),
{
}

/// The switches on the page of the broker: each turns what it is for and nothing else, twice leads
/// back, and the quality of service goes round.
pub proof fn law_switches_of_the_broker(app: AppView, modifiers: u8)
    requires
        !app.editing,
        app.tab == Tab::Mqtt,
        app.is_sound(),
    ensures
        ({
            let press = |code: KeyCode|
                app.after_key(Key { code, modifiers, kind: crate::editor::KeyKind::Press });
            let mqtt = app.config.mqtt;
            &&& press(KeyCode::Char('e')) == (
                app.with_mqtt(crate::config::MqttConfigView { enabled: !mqtt.enabled, ..mqtt }),
                Effect::Sync,
            )
            &&& press(KeyCode::Char('l')) == (
                app.with_mqtt(crate::config::MqttConfigView { tls: !mqtt.tls, ..mqtt }),
                Effect::Sync,
            )
            &&& press(KeyCode::Char('r')) == (
                app.with_mqtt(crate::config::MqttConfigView { retain: !mqtt.retain, ..mqtt }),
                Effect::Sync,
            )
            &&& press(KeyCode::Char('o')).1 == Effect::Sync
            &&& press(KeyCode::Char('o')).0.config.mqtt == (crate::config::MqttConfigView {
                qos: press(KeyCode::Char('o')).0.config.mqtt.qos,
                ..mqtt
            })
            &&& mqtt.qos == 0 ==> press(KeyCode::Char('o')).0.config.mqtt.qos == 1
            &&& mqtt.qos == 1 ==> press(KeyCode::Char('o')).0.config.mqtt.qos == 2
            &&& mqtt.qos == 2 ==> press(KeyCode::Char('o')).0.config.mqtt.qos == 0
            &&& press(KeyCode::Char('o')).0.config.mqtt.qos <= 2
            &&& press(KeyCode::Up).0.mqtt_field == (if app.mqtt_field == 0 {
                0
            } else {
                app.mqtt_field - 1
            })
            &&& press(KeyCode::Down).0.mqtt_field == (if app.mqtt_field == 4 {
                4
            } else {
                app.mqtt_field + 1
            })
            &&& press(KeyCode::Tab) == press(KeyCode::Down)
            &&& press(KeyCode::Up).0.config == app.config && press(KeyCode::Down).0.config
                == app.config
            &&& press(KeyCode::Enter).0.editing
            &&& press(KeyCode::Enter).0.mqtt_line.text == mqtt_value(mqtt, app.mqtt_field)
            &&& press(KeyCode::Enter).0.mqtt_line.cursor == mqtt_value(mqtt, app.mqtt_field).len()
            &&& press(KeyCode::Enter).0.config == app.config
            &&& press(KeyCode::Enter).0.mqtt_field == app.mqtt_field
        }),
{
}

/// The switches on the page of the webhook.
pub proof fn law_switches_of_the_webhook(app: AppView, modifiers: u8)
    requires
        !app.editing,
        app.tab == Tab::Webhook,
        app.is_sound(),
    ensures
        ({
            let press = |code: KeyCode|
                app.after_key(Key { code, modifiers, kind: crate::editor::KeyKind::Press });
            let webhook = app.config.webhook;
            &&& press(KeyCode::Char('e')) == (
                app.with_webhook(
                    crate::config::WebhookConfigView { enabled: !webhook.enabled, ..webhook },
                ),
                Effect::Sync,
            )
            &&& press(KeyCode::Up).0.webhook_field == 0
            &&& press(KeyCode::Down).0.webhook_field == 1
            &&& press(KeyCode::Tab) == press(KeyCode::Down)
            &&& press(KeyCode::Up).0.config == app.config && press(KeyCode::Down).0.config
                == app.config
            &&& press(KeyCode::Enter).0.editing
            &&& press(KeyCode::Enter).0.webhook_line.text == webhook_value(
                webhook,
                app.webhook_field,
            )
            &&& press(KeyCode::Enter).0.webhook_line.cursor == webhook_value(
                webhook,
                app.webhook_field,
            ).len()
            &&& press(KeyCode::Enter).0.config == app.config
            &&& press(KeyCode::Enter).0.webhook_field == app.webhook_field
        }),
{
}

/// The settings of an output taken into an interface are taken into the settings, and leave all
/// other settings alone.
pub proof fn law_other_settings_stay(
    app: AppView,
    mqtt: crate::config::MqttConfigView,
    webhook: crate::config::WebhookConfigView,
    allowlist: Seq<Seq<char>>,
)
    ensures
        ({
            let a = app.with_mqtt(mqtt);
            let b = app.with_webhook(webhook);
            let c = app.with_allowlist(allowlist);
            &&& a.config.mqtt == mqtt && a.config.webhook == app.config.webhook
                && a.config.allowlist == app.config.allowlist && a.config.publish_unverified
                == app.config.publish_unverified && a.config.lastfm == app.config.lastfm
                && a.config.listenbrainz == app.config.listenbrainz && a.tab == app.tab
            &&& b.config.webhook == webhook && b.config.mqtt == app.config.mqtt
                && b.config.allowlist == app.config.allowlist && b.config.publish_unverified
                == app.config.publish_unverified && b.config.lastfm == app.config.lastfm
                && b.config.listenbrainz == app.config.listenbrainz && b.tab == app.tab
            &&& c.config.allowlist == allowlist && c.config.mqtt == app.config.mqtt
                && c.config.webhook == app.config.webhook && c.config.publish_unverified
                == app.config.publish_unverified && c.config.lastfm == app.config.lastfm
                && c.config.listenbrainz == app.config.listenbrainz && c.tab == app.tab
        }),
{
}

/// On the page of the players the arrows move the cursor, one player at a time and never past the
/// ends of the list; with the shift key they move the player under the cursor by one place in the
/// allowlist, and two keys allow or deny it.
pub proof fn law_keys_of_the_players(app: AppView, key: Key)
    requires
        !app.editing,
        app.tab == Tab::Players,
        app.state.players.len() <= usize::MAX,
    ensures
        ({
            let next = app.after_key(key).0;
            let effect = app.after_key(key).1;
            let count = app.state.players.len();
            &&& key.code == KeyCode::Up && !key.shift() ==> {
                &&& app.player_cursor > 0 ==> next.player_cursor == app.player_cursor - 1
                &&& app.player_cursor == 0 ==> next.player_cursor == 0
                &&& next.config == app.config && effect == Effect::Nothing
            }
            &&& key.code == KeyCode::Down && !key.shift() ==> {
                &&& app.player_cursor + 1 < count ==> next.player_cursor == app.player_cursor + 1
                &&& count > 0 && app.player_cursor + 1 >= count ==> next.player_cursor == count - 1
                &&& count == 0 ==> next.player_cursor == 0
                &&& next.config == app.config && effect == Effect::Nothing
            }
            &&& key.code == KeyCode::Up && key.shift() && app.player_cursor < count ==> next
                == app.with_allowlist(
                reordered(
                    app.config.allowlist,
                    app.state.players[app.player_cursor as int].key,
                    -1,
                ),
            )
            &&& key.code == KeyCode::Down && key.shift() && app.player_cursor < count ==> next
                == app.with_allowlist(
                reordered(app.config.allowlist, app.state.players[app.player_cursor as int].key, 1),
            )
            &&& (key.code == KeyCode::Char(' ') || key.code == KeyCode::Char('a'))
                && app.player_cursor < count ==> effect == Effect::Sync && next
                == app.with_allowlist(
                toggled(app.config.allowlist, app.state.players[app.player_cursor as int].key),
            )
            &&& app.player_cursor >= count && (key.code is Char || key.shift()) && key.code
                != KeyCode::Char('q') ==> next.config == app.config
        }),
{
}

/// Allowing puts a player at the end of the list, and denying takes away that player alone: all
/// others keep their order.
pub proof fn law_allowed_players_join_at_the_end(list: Seq<Seq<char>>, key: Seq<char>)
    ensures
        !list.contains(key) ==> toggled(list, key) == list.push(key),
        list.contains(key) ==> exists|at: int|
            {
                &&& 0 <= at < list.len()
                &&& list[at] == key
                &&& toggled(list, key) == #[trigger] list.take(at) + list.skip(at + 1)
                &&& !list.take(at).contains(key)
            },
{
    lemma_place_of(list, key);
    if list.contains(key) {
        let at = place_of(list, key);
        assert(list.remove(at) =~= list.take(at) + list.skip(at + 1));
        if list.take(at).contains(key) {
            let i = choose|i: int| 0 <= i < at && list.take(at)[i] == key;
            assert(list[i] == key);
        }
    }
}

/// A step up swaps a player with the one in front, a step down with the one behind; at the ends,
/// and for whoever is not on the list, nothing changes.
pub proof fn law_a_step_swaps_neighbours(list: Seq<Seq<char>>, key: Seq<char>, at: int)
    requires
        list.no_duplicates(),
        list.len() <= usize::MAX,
        0 <= at < list.len(),
        list[at] == key,
    ensures
        at > 0 ==> reordered(list, key, -1) == list.update(at, list[at - 1]).update(at - 1, key),
        at == 0 ==> reordered(list, key, -1) == list,
        at < list.len() - 1 ==> reordered(list, key, 1) == list.update(at, list[at + 1]).update(
            at + 1,
            key,
        ),
        at == list.len() - 1 ==> reordered(list, key, 1) == list,
{
    lemma_place_of(list, key);
    let place = place_of(list, key);
    assert(list.contains(key));
    assert(place == at);
    if at == 0 {
        assert(list.update(0, list[0]).update(0, list[0]) =~= list);
    }
}

/// On the page of the verification two keys turn the fallback, and nothing else does anything
/// there.
pub proof fn law_the_fallback_is_turned(app: AppView, key: Key)
    requires
        !app.editing,
        app.tab == Tab::Verification,
    ensures
        ({
            let next = app.after_key(key).0;
            let turned = key.code == KeyCode::Char('f') || key.code == KeyCode::Char(' ');
            &&& turned ==> next.config.publish_unverified == !app.config.publish_unverified
                && app.after_key(key).1 == Effect::Sync
            &&& turned ==> next.config.mqtt == app.config.mqtt && next.config.webhook
                == app.config.webhook && next.config.allowlist == app.config.allowlist
                && next.config.lastfm == app.config.lastfm && next.config.listenbrainz
                == app.config.listenbrainz
            &&& !turned ==> next.config == app.config
        }),
{
}

/// On the first page no key changes anything but the page.
pub proof fn law_the_first_page_only_shows(app: AppView, key: Key)
    requires
        !app.editing,
        app.tab == Tab::NowPlaying,
    ensures
        app.after_key(key).0 == (AppView { tab: app.after_key(key).0.tab, ..app }),
{
}

/// The interface opens on the first page, with the settings and the state that it was given,
/// nothing edited, nothing said, and the first of everything selected.
pub proof fn law_the_interface_opens_fresh(
    config: crate::config::ConfigView,
    state: crate::runtime::RuntimeStateView,
)
    ensures
        ({
            let app = AppView::opened(config, state);
            &&& app.tab == Tab::NowPlaying
            &&& app.config == config && app.state == state
            &&& app.player_cursor == 0 && app.mqtt_field == 0 && app.webhook_field == 0
            &&& !app.editing
            &&& app.message.len() == 0 && app.message_expires_at is None
            &&& app.artwork_url is None
            &&& app.mqtt_line.text.len() == 0 && app.webhook_line.text.len() == 0
        }),
{
}

/// The cover that is wanted is that of the selected player's track where it has one, local or not,
/// else that of the release group that was found, and else none.
pub proof fn law_the_wanted_cover_is_that_of_the_track(app: AppView)
    ensures
        ({
            let own = app.state.selected is Some && app.state.selected->0.track is Some
                && app.state.selected->0.track->0.art_url is Some;
            let group = app.state.verification is Some
                && app.state.verification->0.release_group_id is Some;
            &&& own ==> app.wanted_artwork() == app.state.selected->0.track->0.art_url
            &&& !own && group ==> app.wanted_artwork() == Some(
                "https://coverartarchive.org/release-group/"@
                    + app.state.verification->0.release_group_id->0 + "/front"@,
            )
            &&& !own && !group ==> app.wanted_artwork() is None
        }),
{
}

/// What is said is said in the words given, until a moment that lies so much later; it changes
/// nothing else.
pub proof fn law_messages_are_said_for_a_while(
    app: AppView,
    message: Seq<char>,
    duration: u64,
    now: u64,
)
    requires
        now + duration <= u64::MAX,
    ensures
        ({
            let saying = app.saying(message, duration, now);
            &&& saying.message == message
            &&& saying.message_expires_at is Some
            &&& saying.message_expires_at->0 == now + duration
            &&& saying.config == app.config && saying.state == app.state && saying.tab == app.tab
                && saying.editing == app.editing && saying.artwork_url == app.artwork_url
        }),
        SAVED_DURATION == 2 * 1000000000,
        NOTICE_DURATION == 4 * 1000000000,
{
}

/// The view of an interface shows every field as it is.
pub proof fn law_views_show_every_field(app: App)
    ensures
        app@.tab == app.tab,
        app@.config == app.config@,
        app@.state == app.state@,
        app@.player_cursor == app.player_cursor,
        app@.mqtt_field == app.mqtt_field,
        app@.mqtt_line == crate::editor::line_of(app.mqtt_input),
        app@.webhook_field == app.webhook_field,
        app@.webhook_line == crate::editor::line_of(app.webhook_input),
        app@.editing == app.editing,
        app@.message == app.message@,
        app@.message_expires_at == app.message_expires_at,
        crate::domain::shows(app@.artwork_url, app.artwork_url),
{
}

} // verus!
