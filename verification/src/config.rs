//! The settings, and which of them can be run with.

use vstd::prelude::*;

use crate::text::{clone_texts, same_opt_text, same_texts, to_decimal};
use crate::web::{has_web_scheme, parse_url, WebUrl};

verus! {

/// The version of the settings that this program writes and reads.
pub const CONFIG_VERSION: u8 = 1;

/// All settings.
#[derive(Debug)]
pub struct Config {
    pub version: u8,
    pub players: PlayerConfig,
    pub verification: VerificationConfig,
    pub mqtt: MqttConfig,
    pub webhook: WebhookConfig,
    pub lastfm: LastFmConfig,
    pub listenbrainz: ListenBrainzConfig,
}

/// Who is heard.
#[derive(Debug)]
pub struct PlayerConfig {
    /// Stable player keys in descending priority. Empty means no player is trusted.
    pub allowlist: Vec<String>,
}

/// What is published without having been found.
#[derive(Clone, Copy, Debug, PartialEq, Eq, Structural)]
pub struct VerificationConfig {
    /// Publish what the player reports, with an explicit failure status, when the lookup fails.
    pub publish_unverified: bool,
}

/// Where messages go over MQTT.
#[derive(Debug)]
pub struct MqttConfig {
    pub enabled: bool,
    pub host: String,
    pub port: u16,
    pub tls: bool,
    pub username: Option<String>,
    pub password: Option<String>,
    pub topic: String,
    pub qos: u8,
    pub retain: bool,
}

/// Where messages are posted.
#[derive(Debug)]
pub struct WebhookConfig {
    pub enabled: bool,
    pub url: String,
    pub bearer_token: Option<String>,
}

/// The Last.fm account.
#[derive(Debug)]
pub struct LastFmConfig {
    pub enabled: bool,
    pub api_key: String,
    pub shared_secret: String,
    pub session_key: String,
    pub username: String,
}

/// The ListenBrainz account.
#[derive(Debug)]
pub struct ListenBrainzConfig {
    pub enabled: bool,
    pub token: String,
    pub username: String,
}

/// The contents of a [`MqttConfig`].
#[verifier::ext_equal]
pub ghost struct MqttConfigView {
    pub enabled: bool,
    pub host: Seq<char>,
    pub port: u16,
    pub tls: bool,
    pub username: Option<Seq<char>>,
    pub password: Option<Seq<char>>,
    pub topic: Seq<char>,
    pub qos: u8,
    pub retain: bool,
}

/// The contents of a [`WebhookConfig`].
#[verifier::ext_equal]
pub ghost struct WebhookConfigView {
    pub enabled: bool,
    pub url: Seq<char>,
    pub bearer_token: Option<Seq<char>>,
}

/// The contents of a [`LastFmConfig`].
#[verifier::ext_equal]
pub ghost struct LastFmConfigView {
    pub enabled: bool,
    pub api_key: Seq<char>,
    pub shared_secret: Seq<char>,
    pub session_key: Seq<char>,
    pub username: Seq<char>,
}

/// The contents of a [`ListenBrainzConfig`].
#[verifier::ext_equal]
pub ghost struct ListenBrainzConfigView {
    pub enabled: bool,
    pub token: Seq<char>,
    pub username: Seq<char>,
}

/// The contents of a [`Config`].
#[verifier::ext_equal]
pub ghost struct ConfigView {
    pub version: u8,
    pub allowlist: Seq<Seq<char>>,
    pub publish_unverified: bool,
    pub mqtt: MqttConfigView,
    pub webhook: WebhookConfigView,
    pub lastfm: LastFmConfigView,
    pub listenbrainz: ListenBrainzConfigView,
}

impl View for MqttConfig {
    type V = MqttConfigView;

    open spec fn view(&self) -> MqttConfigView {
        MqttConfigView {
            enabled: self.enabled,
            host: self.host@,
            port: self.port,
            tls: self.tls,
            username: crate::text::opt_text(self.username),
            password: crate::text::opt_text(self.password),
            topic: self.topic@,
            qos: self.qos,
            retain: self.retain,
        }
    }
}

impl View for WebhookConfig {
    type V = WebhookConfigView;

    open spec fn view(&self) -> WebhookConfigView {
        WebhookConfigView {
            enabled: self.enabled,
            url: self.url@,
            bearer_token: crate::text::opt_text(self.bearer_token),
        }
    }
}

impl View for LastFmConfig {
    type V = LastFmConfigView;

    open spec fn view(&self) -> LastFmConfigView {
        LastFmConfigView {
            enabled: self.enabled,
            api_key: self.api_key@,
            shared_secret: self.shared_secret@,
            session_key: self.session_key@,
            username: self.username@,
        }
    }
}

impl View for ListenBrainzConfig {
    type V = ListenBrainzConfigView;

    open spec fn view(&self) -> ListenBrainzConfigView {
        ListenBrainzConfigView {
            enabled: self.enabled,
            token: self.token@,
            username: self.username@,
        }
    }
}

impl View for Config {
    type V = ConfigView;

    open spec fn view(&self) -> ConfigView {
        ConfigView {
            version: self.version,
            allowlist: crate::text::texts(self.players.allowlist@),
            publish_unverified: self.verification.publish_unverified,
            mqtt: self.mqtt@,
            webhook: self.webhook@,
            lastfm: self.lastfm@,
            listenbrainz: self.listenbrainz@,
        }
    }
}

impl Clone for PlayerConfig {
    fn clone(&self) -> (copy: Self)
        ensures
            copy.allowlist@ == self.allowlist@,
    {
        PlayerConfig { allowlist: clone_texts(&self.allowlist) }
    }
}

impl Clone for MqttConfig {
    fn clone(&self) -> (copy: Self)
        ensures
            copy@ == self@,
    {
        MqttConfig {
            enabled: self.enabled,
            host: self.host.clone(),
            port: self.port,
            tls: self.tls,
            username: self.username.clone(),
            password: self.password.clone(),
            topic: self.topic.clone(),
            qos: self.qos,
            retain: self.retain,
        }
    }
}

impl Clone for WebhookConfig {
    fn clone(&self) -> (copy: Self)
        ensures
            copy@ == self@,
    {
        WebhookConfig {
            enabled: self.enabled,
            url: self.url.clone(),
            bearer_token: self.bearer_token.clone(),
        }
    }
}

impl Clone for LastFmConfig {
    fn clone(&self) -> (copy: Self)
        ensures
            copy@ == self@,
    {
        LastFmConfig {
            enabled: self.enabled,
            api_key: self.api_key.clone(),
            shared_secret: self.shared_secret.clone(),
            session_key: self.session_key.clone(),
            username: self.username.clone(),
        }
    }
}

impl Clone for ListenBrainzConfig {
    fn clone(&self) -> (copy: Self)
        ensures
            copy@ == self@,
    {
        ListenBrainzConfig {
            enabled: self.enabled,
            token: self.token.clone(),
            username: self.username.clone(),
        }
    }
}

impl Clone for Config {
    fn clone(&self) -> (copy: Self)
        ensures
            copy@ == self@,
    {
        Config {
            version: self.version,
            players: self.players.clone(),
            verification: self.verification,
            mqtt: self.mqtt.clone(),
            webhook: self.webhook.clone(),
            lastfm: self.lastfm.clone(),
            listenbrainz: self.listenbrainz.clone(),
        }
    }
}

impl PartialEq for PlayerConfig {
    fn eq(&self, other: &Self) -> (same: bool) {
        same_texts(&self.allowlist, &other.allowlist)
    }
}

impl vstd::std_specs::cmp::PartialEqSpecImpl for PlayerConfig {
    open spec fn obeys_eq_spec() -> bool {
        true
    }

    open spec fn eq_spec(&self, other: &Self) -> bool {
        crate::text::texts(self.allowlist@) == crate::text::texts(other.allowlist@)
    }
}

impl Eq for PlayerConfig {

}

impl PartialEq for MqttConfig {
    fn eq(&self, other: &Self) -> (same: bool) {
        self.enabled == other.enabled && self.host == other.host && self.port == other.port
            && self.tls == other.tls && same_opt_text(&self.username, &other.username)
            && same_opt_text(&self.password, &other.password) && self.topic == other.topic
            && self.qos == other.qos && self.retain == other.retain
    }
}

impl vstd::std_specs::cmp::PartialEqSpecImpl for MqttConfig {
    open spec fn obeys_eq_spec() -> bool {
        true
    }

    open spec fn eq_spec(&self, other: &Self) -> bool {
        self@ == other@
    }
}

impl Eq for MqttConfig {

}

impl PartialEq for WebhookConfig {
    fn eq(&self, other: &Self) -> (same: bool) {
        self.enabled == other.enabled && self.url == other.url && same_opt_text(
            &self.bearer_token,
            &other.bearer_token,
        )
    }
}

impl vstd::std_specs::cmp::PartialEqSpecImpl for WebhookConfig {
    open spec fn obeys_eq_spec() -> bool {
        true
    }

    open spec fn eq_spec(&self, other: &Self) -> bool {
        self@ == other@
    }
}

impl Eq for WebhookConfig {

}

impl PartialEq for LastFmConfig {
    fn eq(&self, other: &Self) -> (same: bool) {
        self.enabled == other.enabled && self.api_key == other.api_key && self.shared_secret
            == other.shared_secret && self.session_key == other.session_key && self.username
            == other.username
    }
}

impl vstd::std_specs::cmp::PartialEqSpecImpl for LastFmConfig {
    open spec fn obeys_eq_spec() -> bool {
        true
    }

    open spec fn eq_spec(&self, other: &Self) -> bool {
        self@ == other@
    }
}

impl Eq for LastFmConfig {

}

impl PartialEq for ListenBrainzConfig {
    fn eq(&self, other: &Self) -> (same: bool) {
        self.enabled == other.enabled && self.token == other.token && self.username
            == other.username
    }
}

impl vstd::std_specs::cmp::PartialEqSpecImpl for ListenBrainzConfig {
    open spec fn obeys_eq_spec() -> bool {
        true
    }

    open spec fn eq_spec(&self, other: &Self) -> bool {
        self@ == other@
    }
}

impl Eq for ListenBrainzConfig {

}

impl PartialEq for Config {
    fn eq(&self, other: &Self) -> (same: bool) {
        self.version == other.version && self.players == other.players && self.verification
            == other.verification && self.mqtt == other.mqtt && self.webhook == other.webhook
            && self.lastfm == other.lastfm && self.listenbrainz == other.listenbrainz
    }
}

impl vstd::std_specs::cmp::PartialEqSpecImpl for Config {
    open spec fn obeys_eq_spec() -> bool {
        true
    }

    open spec fn eq_spec(&self, other: &Self) -> bool {
        self@ == other@
    }
}

impl Eq for Config {

}

/// Asks the operating system for the name of this machine with `hostname::get`. Nothing is
/// promised of the answer: it is the machine's, and a name that is not UTF-8 counts as none.
#[verifier::external_body]
pub(crate) fn host_name() -> (name: Option<String>)
{
    hostname::get().ok().and_then(|name| name.into_string().ok())
}

/// The topic for a machine of this name, or of no name.
pub open spec fn topic_of(host: Option<Seq<char>>) -> Seq<char> {
    let name = match host {
        Some(name) if name.len() > 0 => name,
        _ => "unknown"@,
    };
    "tunebeacon/"@ + name + "/now-playing"@
}

/// The topic for a machine of this name, or of no name.
pub fn topic_for(host: Option<String>) -> (topic: String)
    ensures
        topic@ == topic_of(crate::text::opt_text(host)),
{
    let name = match host {
        Some(name) => if name.as_str().is_empty() {
            "unknown".to_owned()
        } else {
            name
        },
        None => "unknown".to_owned(),
    };
    let mut topic = "tunebeacon/".to_owned();
    topic.append(name.as_str());
    topic.append("/now-playing");
    topic
}

/// The topic that bears the name of this machine.
pub fn default_topic() -> (topic: String)
    ensures
        exists|host: Option<Seq<char>>| topic@ == #[trigger] topic_of(host),
{
    let host = host_name();
    let ghost known = crate::text::opt_text(host);
    let topic = topic_for(host);
    assert(topic@ == topic_of(known));
    topic
}

impl Default for PlayerConfig {
    fn default() -> (players: Self)
        ensures
            players.allowlist@.len() == 0,
    {
        PlayerConfig { allowlist: Vec::new() }
    }
}

impl Default for VerificationConfig {
    fn default() -> (verification: Self)
        ensures
            !verification.publish_unverified,
    {
        VerificationConfig { publish_unverified: false }
    }
}

impl MqttConfigView {
    /// Switched off, with nothing filled in but the standard port and the topic.
    pub open spec fn initial(topic: Seq<char>) -> MqttConfigView {
        MqttConfigView {
            enabled: false,
            host: Seq::empty(),
            port: 1883,
            tls: false,
            username: None,
            password: None,
            topic,
            qos: 1,
            retain: false,
        }
    }
}

impl Default for MqttConfig {
    fn default() -> (mqtt: Self)
        ensures
            exists|host: Option<Seq<char>>|
                mqtt@ == MqttConfigView::initial(#[trigger] topic_of(host)),
    {
        MqttConfig {
            enabled: false,
            host: String::new(),
            port: 1883,
            tls: false,
            username: None,
            password: None,
            topic: default_topic(),
            qos: 1,
            retain: false,
        }
    }
}

impl WebhookConfigView {
    /// Switched off, with nothing filled in.
    pub open spec fn initial() -> WebhookConfigView {
        WebhookConfigView { enabled: false, url: Seq::empty(), bearer_token: None }
    }
}

impl Default for WebhookConfig {
    fn default() -> (webhook: Self)
        ensures
            webhook@ == WebhookConfigView::initial(),
    {
        WebhookConfig { enabled: false, url: String::new(), bearer_token: None }
    }
}

impl LastFmConfigView {
    /// Switched off, with nothing filled in.
    pub open spec fn initial() -> LastFmConfigView {
        LastFmConfigView {
            enabled: false,
            api_key: Seq::empty(),
            shared_secret: Seq::empty(),
            session_key: Seq::empty(),
            username: Seq::empty(),
        }
    }
}

impl Default for LastFmConfig {
    fn default() -> (lastfm: Self)
        ensures
            lastfm@ == LastFmConfigView::initial(),
    {
        LastFmConfig {
            enabled: false,
            api_key: String::new(),
            shared_secret: String::new(),
            session_key: String::new(),
            username: String::new(),
        }
    }
}

impl ListenBrainzConfigView {
    /// Switched off, with nothing filled in.
    pub open spec fn initial() -> ListenBrainzConfigView {
        ListenBrainzConfigView { enabled: false, token: Seq::empty(), username: Seq::empty() }
    }
}

impl Default for ListenBrainzConfig {
    fn default() -> (listenbrainz: Self)
        ensures
            listenbrainz@ == ListenBrainzConfigView::initial(),
    {
        ListenBrainzConfig { enabled: false, token: String::new(), username: String::new() }
    }
}

impl ConfigView {
    /// Nobody is heard, nothing unverified is published, and no output is on.
    pub open spec fn initial(topic: Seq<char>) -> ConfigView {
        ConfigView {
            version: CONFIG_VERSION,
            allowlist: Seq::empty(),
            publish_unverified: false,
            mqtt: MqttConfigView::initial(topic),
            webhook: WebhookConfigView::initial(),
            lastfm: LastFmConfigView::initial(),
            listenbrainz: ListenBrainzConfigView::initial(),
        }
    }
}

impl Default for Config {
    fn default() -> (config: Self)
        ensures
            exists|host: Option<Seq<char>>|
                config@ == ConfigView::initial(#[trigger] topic_of(host)),
    {
        let config = Config {
            version: CONFIG_VERSION,
            players: PlayerConfig::default(),
            verification: VerificationConfig::default(),
            mqtt: MqttConfig::default(),
            webhook: WebhookConfig::default(),
            lastfm: LastFmConfig::default(),
            listenbrainz: ListenBrainzConfig::default(),
        };
        proof {
            let host = choose|host: Option<Seq<char>>|
                config.mqtt@ == MqttConfigView::initial(#[trigger] topic_of(host));
            assert(config@ =~= ConfigView::initial(topic_of(host)));
        }
        config
    }
}

/// Why settings cannot be run with.
#[derive(Debug)]
pub enum ConfigError {
    UnsupportedVersion(u8),
    InvalidQos,
    NoOutput,
    MissingMqttHost,
    MissingMqttTopic,
    ZeroMqttPort,
    MissingWebhookUrl,
    InvalidWebhookUrl(String),
    WebhookScheme,
    MissingLastFmApiKey,
    MissingLastFmSecret,
    MissingLastFmSession,
    MissingListenBrainzToken,
}

/// The contents of a [`ConfigError`].
pub ghost enum ConfigErrorView {
    UnsupportedVersion(u8),
    InvalidQos,
    NoOutput,
    MissingMqttHost,
    MissingMqttTopic,
    ZeroMqttPort,
    MissingWebhookUrl,
    InvalidWebhookUrl(Seq<char>),
    WebhookScheme,
    MissingLastFmApiKey,
    MissingLastFmSecret,
    MissingLastFmSession,
    MissingListenBrainzToken,
}

impl View for ConfigError {
    type V = ConfigErrorView;

    open spec fn view(&self) -> ConfigErrorView {
        match self {
            ConfigError::UnsupportedVersion(version) => ConfigErrorView::UnsupportedVersion(
                *version,
            ),
            ConfigError::InvalidQos => ConfigErrorView::InvalidQos,
            ConfigError::NoOutput => ConfigErrorView::NoOutput,
            ConfigError::MissingMqttHost => ConfigErrorView::MissingMqttHost,
            ConfigError::MissingMqttTopic => ConfigErrorView::MissingMqttTopic,
            ConfigError::ZeroMqttPort => ConfigErrorView::ZeroMqttPort,
            ConfigError::MissingWebhookUrl => ConfigErrorView::MissingWebhookUrl,
            ConfigError::InvalidWebhookUrl(reason) => ConfigErrorView::InvalidWebhookUrl(reason@),
            ConfigError::WebhookScheme => ConfigErrorView::WebhookScheme,
            ConfigError::MissingLastFmApiKey => ConfigErrorView::MissingLastFmApiKey,
            ConfigError::MissingLastFmSecret => ConfigErrorView::MissingLastFmSecret,
            ConfigError::MissingLastFmSession => ConfigErrorView::MissingLastFmSession,
            ConfigError::MissingListenBrainzToken => ConfigErrorView::MissingListenBrainzToken,
        }
    }
}

impl ConfigErrorView {
    /// The error in words.
    pub open spec fn message(self) -> Seq<char> {
        match self {
            ConfigErrorView::UnsupportedVersion(version) => "unsupported config version "@
                + crate::text::decimal(version as nat) + " (expected 1)"@,
            ConfigErrorView::InvalidQos => "mqtt.qos must be 0, 1, or 2"@,
            ConfigErrorView::NoOutput =>
                "daemon mode requires MQTT, webhook, Last.fm, or ListenBrainz to be enabled"@,
            ConfigErrorView::MissingMqttHost => "daemon mode requires mqtt.host to be configured"@,
            ConfigErrorView::MissingMqttTopic =>
                "daemon mode requires mqtt.topic to be configured"@,
            ConfigErrorView::ZeroMqttPort => "daemon mode requires a nonzero mqtt.port"@,
            ConfigErrorView::MissingWebhookUrl =>
                "daemon mode requires webhook.url to be configured"@,
            ConfigErrorView::InvalidWebhookUrl(reason) => "webhook.url is invalid: "@ + reason,
            ConfigErrorView::WebhookScheme => "webhook.url must use http or https"@,
            ConfigErrorView::MissingLastFmApiKey => "lastfm.api_key must be configured"@,
            ConfigErrorView::MissingLastFmSecret => "lastfm.shared_secret must be configured"@,
            ConfigErrorView::MissingLastFmSession => "lastfm.session_key must be authorized"@,
            ConfigErrorView::MissingListenBrainzToken => "listenbrainz.token must be configured"@,
        }
    }
}

impl ConfigError {
    /// The error in words.
    pub fn to_text(&self) -> (text: String)
        ensures
            text@ == self@.message(),
    {
        match self {
            ConfigError::UnsupportedVersion(version) => {
                let mut text = "unsupported config version ".to_owned();
                text.append(to_decimal(*version as u64).as_str());
                text.append(" (expected 1)");
                text
            },
            ConfigError::InvalidQos => "mqtt.qos must be 0, 1, or 2".to_owned(),
            ConfigError::NoOutput =>
                "daemon mode requires MQTT, webhook, Last.fm, or ListenBrainz to be enabled".to_owned(),
            ConfigError::MissingMqttHost =>
                "daemon mode requires mqtt.host to be configured".to_owned(),
            ConfigError::MissingMqttTopic =>
                "daemon mode requires mqtt.topic to be configured".to_owned(),
            ConfigError::ZeroMqttPort => "daemon mode requires a nonzero mqtt.port".to_owned(),
            ConfigError::MissingWebhookUrl =>
                "daemon mode requires webhook.url to be configured".to_owned(),
            ConfigError::InvalidWebhookUrl(reason) => {
                let mut text = "webhook.url is invalid: ".to_owned();
                text.append(reason.as_str());
                text
            },
            ConfigError::WebhookScheme => "webhook.url must use http or https".to_owned(),
            ConfigError::MissingLastFmApiKey => "lastfm.api_key must be configured".to_owned(),
            ConfigError::MissingLastFmSecret =>
                "lastfm.shared_secret must be configured".to_owned(),
            ConfigError::MissingLastFmSession =>
                "lastfm.session_key must be authorized".to_owned(),
            ConfigError::MissingListenBrainzToken =>
                "listenbrainz.token must be configured".to_owned(),
        }
    }
}

/// The contents of the outcome of a check.
pub open spec fn check_outcome(result: Result<(), ConfigError>) -> Result<(), ConfigErrorView> {
    match result {
        Ok(()) => Ok(()),
        Err(error) => Err(error@),
    }
}

/// The version is the current one and the quality of service one that MQTT has.
pub open spec fn schema_check(config: ConfigView) -> Result<(), ConfigErrorView> {
    if config.version != CONFIG_VERSION {
        Err(ConfigErrorView::UnsupportedVersion(config.version))
    } else if config.mqtt.qos > 2 {
        Err(ConfigErrorView::InvalidQos)
    } else {
        Ok(())
    }
}

/// The broker's host and the topic are named and the port is not zero.
pub open spec fn mqtt_check(mqtt: MqttConfigView) -> Result<(), ConfigErrorView> {
    if crate::text::is_blank(mqtt.host) {
        Err(ConfigErrorView::MissingMqttHost)
    } else if crate::text::is_blank(mqtt.topic) {
        Err(ConfigErrorView::MissingMqttTopic)
    } else if mqtt.port == 0 {
        Err(ConfigErrorView::ZeroMqttPort)
    } else {
        Ok(())
    }
}

/// The application's credentials and the session are there.
pub open spec fn lastfm_check(lastfm: LastFmConfigView) -> Result<(), ConfigErrorView> {
    if crate::text::is_blank(lastfm.api_key) {
        Err(ConfigErrorView::MissingLastFmApiKey)
    } else if crate::text::is_blank(lastfm.shared_secret) {
        Err(ConfigErrorView::MissingLastFmSecret)
    } else if crate::text::is_blank(lastfm.session_key) {
        Err(ConfigErrorView::MissingLastFmSession)
    } else {
        Ok(())
    }
}

/// The user's token is there.
pub open spec fn listenbrainz_check(
    listenbrainz: ListenBrainzConfigView,
) -> Result<(), ConfigErrorView> {
    if crate::text::is_blank(listenbrainz.token) {
        Err(ConfigErrorView::MissingListenBrainzToken)
    } else {
        Ok(())
    }
}

/// A parsed address can be posted to when it is reached over HTTP.
pub open spec fn web_url_check(parsed: crate::web::ParsedUrl) -> Result<
    (Seq<char>, Seq<char>),
    ConfigErrorView,
> {
    match parsed {
        Ok(url) => if crate::web::is_web_scheme(url.0) {
            Ok(url)
        } else {
            Err(ConfigErrorView::WebhookScheme)
        },
        Err(reason) => Err(ConfigErrorView::InvalidWebhookUrl(reason)),
    }
}

/// An address, given what parsing its trimmed text yields.
pub open spec fn webhook_url_check(value: Seq<char>, parsed: crate::web::ParsedUrl) -> Result<
    (Seq<char>, Seq<char>),
    ConfigErrorView,
> {
    if crate::text::is_blank(value) {
        Err(ConfigErrorView::MissingWebhookUrl)
    } else {
        web_url_check(parsed)
    }
}

/// The contents of the outcome of checking an address.
pub open spec fn url_check_outcome(result: Result<WebUrl, ConfigError>) -> Result<
    (Seq<char>, Seq<char>),
    ConfigErrorView,
> {
    match result {
        Ok(url) => Ok((url.scheme@, url.address@)),
        Err(error) => Err(error@),
    }
}

/// Everything that running without a terminal needs, given what parsing the trimmed address of
/// the webhook yields: the schema, at least one output, and each enabled output complete.
pub open spec fn daemon_check(config: ConfigView, parsed: crate::web::ParsedUrl) -> Result<
    (),
    ConfigErrorView,
> {
    if schema_check(config) is Err {
        schema_check(config)
    } else if !config.mqtt.enabled && !config.webhook.enabled && !config.lastfm.enabled
        && !config.listenbrainz.enabled {
        Err(ConfigErrorView::NoOutput)
    } else if config.mqtt.enabled && mqtt_check(config.mqtt) is Err {
        mqtt_check(config.mqtt)
    } else if config.webhook.enabled && webhook_url_check(config.webhook.url, parsed) is Err {
        Err(webhook_url_check(config.webhook.url, parsed)->Err_0)
    } else if config.lastfm.enabled && lastfm_check(config.lastfm) is Err {
        lastfm_check(config.lastfm)
    } else if config.listenbrainz.enabled {
        listenbrainz_check(config.listenbrainz)
    } else {
        Ok(())
    }
}

impl Config {
    /// Checks the version and the quality of service.
    pub fn validate(&self) -> (result: Result<(), ConfigError>)
        ensures
            check_outcome(result) == schema_check(self@),
    {
        if self.version != CONFIG_VERSION {
            return Err(ConfigError::UnsupportedVersion(self.version));
        }
        if self.mqtt.qos > 2 {
            return Err(ConfigError::InvalidQos);
        }
        Ok(())
    }

    /// Checks everything that running without a terminal needs.
    pub fn validate_daemon(&self) -> (result: Result<(), ConfigError>)
        ensures
            check_outcome(result) == daemon_check(
                self@,
                crate::web::url_parsed(crate::text::trimmed(self.webhook.url@)),
            ),
    {
        let parsed = parse_url(self.webhook.url.as_str().trim());
        self.validate_daemon_with(parsed)
    }

    /// Checks everything that running without a terminal needs, given what parsing the trimmed
    /// address of the webhook yields.
    pub fn validate_daemon_with(&self, parsed: Result<WebUrl, String>) -> (result: Result<
        (),
        ConfigError,
    >)
        ensures
            check_outcome(result) == daemon_check(self@, crate::web::url_outcome(parsed)),
    {
        match self.validate() {
            Ok(()) => {},
            Err(error) => {
                return Err(error);
            },
        }
        if !self.mqtt.enabled && !self.webhook.enabled && !self.lastfm.enabled
            && !self.listenbrainz.enabled {
            return Err(ConfigError::NoOutput);
        }
        if self.mqtt.enabled {
            if self.mqtt.host.as_str().trim().is_empty() {
                return Err(ConfigError::MissingMqttHost);
            }
            if self.mqtt.topic.as_str().trim().is_empty() {
                return Err(ConfigError::MissingMqttTopic);
            }
            if self.mqtt.port == 0 {
                return Err(ConfigError::ZeroMqttPort);
            }
        }
        if self.webhook.enabled {
            match validate_parsed_webhook_url(self.webhook.url.as_str(), parsed) {
                Ok(_) => {},
                Err(error) => {
                    return Err(error);
                },
            }
        }
        if self.lastfm.enabled {
            match validate_lastfm(&self.lastfm) {
                Ok(()) => {},
                Err(error) => {
                    return Err(error);
                },
            }
        }
        if self.listenbrainz.enabled {
            return validate_listenbrainz(&self.listenbrainz);
        }
        Ok(())
    }
}

/// Checks the credentials that signed Last.fm calls need.
pub fn validate_lastfm(config: &LastFmConfig) -> (result: Result<(), ConfigError>)
    ensures
        check_outcome(result) == lastfm_check(config@),
{
    if config.api_key.as_str().trim().is_empty() {
        return Err(ConfigError::MissingLastFmApiKey);
    }
    if config.shared_secret.as_str().trim().is_empty() {
        return Err(ConfigError::MissingLastFmSecret);
    }
    if config.session_key.as_str().trim().is_empty() {
        return Err(ConfigError::MissingLastFmSession);
    }
    Ok(())
}

/// Checks the token that ListenBrainz calls need.
pub fn validate_listenbrainz(config: &ListenBrainzConfig) -> (result: Result<(), ConfigError>)
    ensures
        check_outcome(result) == listenbrainz_check(config@),
{
    if config.token.as_str().trim().is_empty() {
        return Err(ConfigError::MissingListenBrainzToken);
    }
    Ok(())
}

/// Checks the address of a webhook: it must be there, be an address, and be reached over HTTP.
pub fn validate_webhook_url(value: &str) -> (result: Result<WebUrl, ConfigError>)
    ensures
        url_check_outcome(result) == webhook_url_check(
            value@,
            crate::web::url_parsed(crate::text::trimmed(value@)),
        ),
{
    let value = value.trim();
    if value.is_empty() {
        return Err(ConfigError::MissingWebhookUrl);
    }
    check_parsed_url(parse_url(value))
}

/// Checks the address of a webhook, given what parsing its trimmed text yields.
pub fn validate_parsed_webhook_url(value: &str, parsed: Result<WebUrl, String>) -> (result: Result<
    WebUrl,
    ConfigError,
>)
    ensures
        url_check_outcome(result) == webhook_url_check(value@, crate::web::url_outcome(parsed)),
{
    if value.trim().is_empty() {
        return Err(ConfigError::MissingWebhookUrl);
    }
    check_parsed_url(parsed)
}

/// Checks that a parsed address is reached over HTTP.
fn check_parsed_url(parsed: Result<WebUrl, String>) -> (result: Result<WebUrl, ConfigError>)
    ensures
        url_check_outcome(result) == web_url_check(crate::web::url_outcome(parsed)),
{
    match parsed {
        Ok(url) => if has_web_scheme(&url) {
            Ok(url)
        } else {
            Err(ConfigError::WebhookScheme)
        },
        Err(reason) => Err(ConfigError::InvalidWebhookUrl(reason)),
    }
}

/// The name of the file that new settings are written to before they replace the old ones.
pub open spec fn temporary_name(file_name: Option<Seq<char>>, process_id: u32) -> Seq<char> {
    let name = match file_name {
        Some(name) => name,
        None => "config"@,
    };
    "."@ + name + ".tmp-"@ + crate::text::decimal(process_id as nat)
}

/// The name of the file that new settings are written to before they replace the old ones.
pub fn temporary_file_name(file_name: Option<&str>, process_id: u32) -> (name: String)
    ensures
        name@ == temporary_name(crate::text::opt_str(file_name), process_id),
{
    let mut name = ".".to_owned();
    match file_name {
        Some(given) => name.append(given),
        None => name.append("config"),
    }
    name.append(".tmp-");
    name.append(to_decimal(process_id as u64).as_str());
    name
}

/// Out of the box nobody is heard, nothing unverified is published and no output is on; the
/// settings are sound, and they are not enough to run without a terminal.
pub proof fn law_defaults_are_private(host: Option<Seq<char>>, parsed: crate::web::ParsedUrl)
    ensures
        ({
            let config = ConfigView::initial(topic_of(host));
            &&& config.allowlist.len() == 0
            &&& !config.publish_unverified
            &&& !config.mqtt.enabled && !config.webhook.enabled && !config.lastfm.enabled
            &&& !config.listenbrainz.enabled
            &&& schema_check(config) is Ok
            &&& daemon_check(config, parsed) == Err::<(), ConfigErrorView>(ConfigErrorView::NoOutput)
        }),
{
}

/// Settings that can be run with have at least one output, and each output that is on is complete.
pub proof fn law_daemon_needs_every_enabled_output_complete(
    config: ConfigView,
    parsed: crate::web::ParsedUrl,
)
    ensures
        daemon_check(config, parsed) is Ok <==> {
            &&& schema_check(config) is Ok
            &&& config.mqtt.enabled || config.webhook.enabled || config.lastfm.enabled
                || config.listenbrainz.enabled
            &&& config.mqtt.enabled ==> mqtt_check(config.mqtt) is Ok
            &&& config.webhook.enabled ==> webhook_url_check(config.webhook.url, parsed) is Ok
            &&& config.lastfm.enabled ==> lastfm_check(config.lastfm) is Ok
            &&& config.listenbrainz.enabled ==> listenbrainz_check(config.listenbrainz) is Ok
        },
{
}

/// Settings can be run with exactly when their version is the current one, the quality of service
/// is one of the three there are, some output is on, and of the outputs that are on the broker has
/// a host, a topic and a port, the webhook has an address that is reached over HTTP, and the
/// accounts have all their credentials.
pub proof fn law_what_the_daemon_needs(config: ConfigView, parsed: crate::web::ParsedUrl)
    ensures
        daemon_check(config, parsed) is Ok <==> {
            &&& config.version == 1
            &&& config.mqtt.qos <= 2
            &&& config.mqtt.enabled || config.webhook.enabled || config.lastfm.enabled
                || config.listenbrainz.enabled
            &&& config.mqtt.enabled ==> is_filled_in(config.mqtt.host) && is_filled_in(
                config.mqtt.topic,
            ) && config.mqtt.port != 0
            &&& config.webhook.enabled ==> is_filled_in(config.webhook.url) && parsed is Ok && (
            parsed->Ok_0.0 == "http"@ || parsed->Ok_0.0 == "https"@)
            &&& config.lastfm.enabled ==> is_filled_in(config.lastfm.api_key) && is_filled_in(
                config.lastfm.shared_secret,
            ) && is_filled_in(config.lastfm.session_key)
            &&& config.listenbrainz.enabled ==> is_filled_in(config.listenbrainz.token)
        },
        schema_check(config) is Ok <==> config.version == 1 && config.mqtt.qos <= 2,
        lastfm_check(config.lastfm) is Ok <==> is_filled_in(config.lastfm.api_key) && is_filled_in(
            config.lastfm.shared_secret,
        ) && is_filled_in(config.lastfm.session_key),
        listenbrainz_check(config.listenbrainz) is Ok <==> is_filled_in(config.listenbrainz.token),
        webhook_url_check(config.webhook.url, parsed) is Ok ==> webhook_url_check(
            config.webhook.url,
            parsed,
        )->Ok_0 == parsed->Ok_0,
{
    crate::text::law_blank_means_white_space(config.mqtt.host);
    crate::text::law_blank_means_white_space(config.mqtt.topic);
    crate::text::law_blank_means_white_space(config.webhook.url);
    crate::text::law_blank_means_white_space(config.lastfm.api_key);
    crate::text::law_blank_means_white_space(config.lastfm.shared_secret);
    crate::text::law_blank_means_white_space(config.lastfm.session_key);
    crate::text::law_blank_means_white_space(config.listenbrainz.token);
}

/// A setting holds a character that is no white space.
pub open spec fn is_filled_in(text: Seq<char>) -> bool {
    exists|i: int| 0 <= i < text.len() && !crate::text::is_white_space(#[trigger] text[i])
}

/// What is said is what is missing: an error names a setting that is indeed the reason.
pub proof fn law_errors_name_what_is_missing(config: ConfigView, parsed: crate::web::ParsedUrl)
    requires
        daemon_check(config, parsed) is Err,
    ensures
        match daemon_check(config, parsed)->Err_0 {
            ConfigErrorView::UnsupportedVersion(version) => version == config.version && version
                != 1,
            ConfigErrorView::InvalidQos => config.mqtt.qos > 2,
            ConfigErrorView::NoOutput => !config.mqtt.enabled && !config.webhook.enabled
                && !config.lastfm.enabled && !config.listenbrainz.enabled,
            ConfigErrorView::MissingMqttHost => config.mqtt.enabled && !is_filled_in(
                config.mqtt.host,
            ),
            ConfigErrorView::MissingMqttTopic => config.mqtt.enabled && !is_filled_in(
                config.mqtt.topic,
            ),
            ConfigErrorView::ZeroMqttPort => config.mqtt.enabled && config.mqtt.port == 0,
            ConfigErrorView::MissingWebhookUrl => config.webhook.enabled && !is_filled_in(
                config.webhook.url,
            ),
            ConfigErrorView::InvalidWebhookUrl(reason) => config.webhook.enabled && parsed
                == Err::<(Seq<char>, Seq<char>), Seq<char>>(reason),
            ConfigErrorView::WebhookScheme => config.webhook.enabled && parsed is Ok
                && parsed->Ok_0.0 != "http"@ && parsed->Ok_0.0 != "https"@,
            ConfigErrorView::MissingLastFmApiKey => config.lastfm.enabled && !is_filled_in(
                config.lastfm.api_key,
            ),
            ConfigErrorView::MissingLastFmSecret => config.lastfm.enabled && !is_filled_in(
                config.lastfm.shared_secret,
            ),
            ConfigErrorView::MissingLastFmSession => config.lastfm.enabled && !is_filled_in(
                config.lastfm.session_key,
            ),
            ConfigErrorView::MissingListenBrainzToken => config.listenbrainz.enabled
                && !is_filled_in(config.listenbrainz.token),
        },
{
    crate::text::law_blank_means_white_space(config.mqtt.host);
    crate::text::law_blank_means_white_space(config.mqtt.topic);
    crate::text::law_blank_means_white_space(config.webhook.url);
    crate::text::law_blank_means_white_space(config.lastfm.api_key);
    crate::text::law_blank_means_white_space(config.lastfm.shared_secret);
    crate::text::law_blank_means_white_space(config.lastfm.session_key);
    crate::text::law_blank_means_white_space(config.listenbrainz.token);
}

/// A topic bears the name of the machine, and a machine without a name goes by another word.
pub proof fn law_topics_bear_the_name_of_the_machine(host: Seq<char>)
    ensures
        host.len() > 0 ==> topic_of(Some(host)) == "tunebeacon/"@ + host + "/now-playing"@,
        topic_of(None) == "tunebeacon/"@ + "unknown"@ + "/now-playing"@,
        topic_of(Some(Seq::empty())) == topic_of(None),
{
}

/// Views show every setting as it is.
pub proof fn law_views_show_every_setting(config: Config)
    ensures
        config@.version == config.version,
        config@.allowlist.len() == config.players.allowlist@.len(),
        forall|i: int|
            0 <= i < config.players.allowlist@.len() ==> #[trigger] config@.allowlist[i]
                == config.players.allowlist@[i]@,
        config@.publish_unverified == config.verification.publish_unverified,
        config@.mqtt.enabled == config.mqtt.enabled && config@.mqtt.host == config.mqtt.host@
            && config@.mqtt.port == config.mqtt.port && config@.mqtt.tls == config.mqtt.tls
            && config@.mqtt.topic == config.mqtt.topic@ && config@.mqtt.qos == config.mqtt.qos
            && config@.mqtt.retain == config.mqtt.retain,
        crate::domain::shows(config@.mqtt.username, config.mqtt.username),
        crate::domain::shows(config@.mqtt.password, config.mqtt.password),
        config@.webhook.enabled == config.webhook.enabled && config@.webhook.url
            == config.webhook.url@,
        crate::domain::shows(config@.webhook.bearer_token, config.webhook.bearer_token),
        config@.lastfm.enabled == config.lastfm.enabled && config@.lastfm.api_key
            == config.lastfm.api_key@ && config@.lastfm.shared_secret
            == config.lastfm.shared_secret@ && config@.lastfm.session_key
            == config.lastfm.session_key@ && config@.lastfm.username == config.lastfm.username@,
        config@.listenbrainz.enabled == config.listenbrainz.enabled && config@.listenbrainz.token
            == config.listenbrainz.token@ && config@.listenbrainz.username
            == config.listenbrainz.username@,
{
}

/// Out of the box the settings hold no credentials, the standard port and the middle quality of
/// service, and nothing is kept by the broker.
pub proof fn law_defaults_hold_no_credentials(topic: Seq<char>)
    ensures
        ({
            let config = ConfigView::initial(topic);
            &&& config.version == 1
            &&& config.mqtt.host.len() == 0 && config.mqtt.username is None
                && config.mqtt.password is None && config.mqtt.port == 1883 && config.mqtt.qos == 1
                && !config.mqtt.retain && !config.mqtt.tls && config.mqtt.topic == topic
            &&& config.webhook.url.len() == 0 && config.webhook.bearer_token is None
            &&& config.lastfm.api_key.len() == 0 && config.lastfm.shared_secret.len() == 0
                && config.lastfm.session_key.len() == 0 && config.lastfm.username.len() == 0
            &&& config.listenbrainz.token.len() == 0 && config.listenbrainz.username.len() == 0
        }),
{
}

/// The outcome of a check is shown as it is, error by error.
pub proof fn law_outcomes_are_shown_as_they_are(error: ConfigError, url: WebUrl)
    ensures
        check_outcome(Ok(())) is Ok,
        check_outcome(Err(error)) == Err::<(), ConfigErrorView>(error@),
        url_check_outcome(Ok(url)) == Ok::<(Seq<char>, Seq<char>), ConfigErrorView>(
            (url.scheme@, url.address@),
        ),
        url_check_outcome(Err(error)) == Err::<(Seq<char>, Seq<char>), ConfigErrorView>(error@),
        error is UnsupportedVersion <==> error@ is UnsupportedVersion,
        error is InvalidQos <==> error@ is InvalidQos,
        error is NoOutput <==> error@ is NoOutput,
        error is MissingMqttHost <==> error@ is MissingMqttHost,
        error is MissingMqttTopic <==> error@ is MissingMqttTopic,
        error is ZeroMqttPort <==> error@ is ZeroMqttPort,
        error is MissingWebhookUrl <==> error@ is MissingWebhookUrl,
        error is InvalidWebhookUrl <==> error@ is InvalidWebhookUrl,
        error is WebhookScheme <==> error@ is WebhookScheme,
        error is MissingLastFmApiKey <==> error@ is MissingLastFmApiKey,
        error is MissingLastFmSecret <==> error@ is MissingLastFmSecret,
        error is MissingLastFmSession <==> error@ is MissingLastFmSession,
        error is MissingListenBrainzToken <==> error@ is MissingListenBrainzToken,
{
}

/// Each error has the words for what is missing.
pub proof fn law_errors_have_their_words(version: u8, reason: Seq<char>)
    ensures
        ConfigErrorView::UnsupportedVersion(version).message() == "unsupported config version "@
            + crate::text::decimal(version as nat) + " (expected 1)"@,
        ConfigErrorView::InvalidQos.message() == "mqtt.qos must be 0, 1, or 2"@,
        ConfigErrorView::MissingMqttHost.message()
            == "daemon mode requires mqtt.host to be configured"@,
        ConfigErrorView::MissingMqttTopic.message()
            == "daemon mode requires mqtt.topic to be configured"@,
        ConfigErrorView::ZeroMqttPort.message() == "daemon mode requires a nonzero mqtt.port"@,
        ConfigErrorView::MissingWebhookUrl.message()
            == "daemon mode requires webhook.url to be configured"@,
        ConfigErrorView::InvalidWebhookUrl(reason).message() == "webhook.url is invalid: "@
            + reason,
        ConfigErrorView::WebhookScheme.message() == "webhook.url must use http or https"@,
        ConfigErrorView::MissingLastFmApiKey.message() == "lastfm.api_key must be configured"@,
        ConfigErrorView::MissingLastFmSecret.message()
            == "lastfm.shared_secret must be configured"@,
        ConfigErrorView::MissingLastFmSession.message() == "lastfm.session_key must be authorized"@,
        ConfigErrorView::MissingListenBrainzToken.message()
            == "listenbrainz.token must be configured"@,
{
}

/// New settings are written to a hidden file beside the old ones, which tells both the file and the
/// process.
pub proof fn law_temporary_files_are_hidden(name: Seq<char>, process_id: u32)
    ensures
        temporary_name(Some(name), process_id) == "."@ + name + ".tmp-"@ + crate::text::decimal(
            process_id as nat,
        ),
        temporary_name(None, process_id) == temporary_name(Some("config"@), process_id),
        temporary_name(Some(name), process_id) != name,
{
    reveal_strlit(".");
    reveal_strlit(".tmp-");
    assert(temporary_name(Some(name), process_id).len() > name.len());
}

} // verus!
