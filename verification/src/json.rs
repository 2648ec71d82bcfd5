//! JSON as it is read from web services and as it is sent to them.

use vstd::prelude::*;

use crate::domain::{NowPlayingMessage, Timestamp, Verification};

verus! {

/// What stands at a place of a JSON text.
#[derive(Debug)]
pub enum JsonAt {
    /// The text is no JSON; the reason.
    Invalid(String),
    /// The text is JSON and has nothing at that place.
    Missing,
    Null,
    Bool(bool),
    /// A number, as far as it is a whole one that a machine integer holds.
    Number { unsigned: Option<u64>, signed: Option<i64> },
    Text(String),
    Array,
    Object,
}

/// The contents of a [`JsonAt`].
pub ghost enum JsonAtView {
    Invalid(Seq<char>),
    Missing,
    Null,
    Bool(bool),
    Number { unsigned: Option<u64>, signed: Option<i64> },
    Text(Seq<char>),
    Array,
    Object,
}

impl View for JsonAt {
    type V = JsonAtView;

    open spec fn view(&self) -> JsonAtView {
        match self {
            JsonAt::Invalid(reason) => JsonAtView::Invalid(reason@),
            JsonAt::Missing => JsonAtView::Missing,
            JsonAt::Null => JsonAtView::Null,
            JsonAt::Bool(value) => JsonAtView::Bool(*value),
            JsonAt::Number { unsigned, signed } => JsonAtView::Number {
                unsigned: *unsigned,
                signed: *signed,
            },
            JsonAt::Text(text) => JsonAtView::Text(text@),
            JsonAt::Array => JsonAtView::Array,
            JsonAt::Object => JsonAtView::Object,
        }
    }
}

/// What `serde_json` finds in a text at the place that a JSON pointer names.
pub uninterp spec fn json_found(body: Seq<char>, pointer: Seq<char>) -> JsonAtView;

/// Parses a text with `serde_json::from_str` and looks up a place in it with
/// `serde_json::Value::pointer`. What is found depends on the text and the pointer alone; the
/// grammar of JSON, and the wording of the parser's errors, are not restated here.
#[verifier::external_body]
pub(crate) fn json_at(body: &str, pointer: &str) -> (found: JsonAt)
    ensures
        found@ == json_found(body@, pointer@),
{
    match serde_json::from_str::<serde_json::Value>(body) {
        Err(error) => JsonAt::Invalid(error.to_string()),
        Ok(value) => match value.pointer(pointer) {
            None => JsonAt::Missing,
            Some(serde_json::Value::Null) => JsonAt::Null,
            Some(serde_json::Value::Bool(value)) => JsonAt::Bool(*value),
            Some(serde_json::Value::Number(number)) => JsonAt::Number {
                unsigned: number.as_u64(),
                signed: number.as_i64(),
            },
            Some(serde_json::Value::String(text)) => JsonAt::Text(text.clone()),
            Some(serde_json::Value::Array(_)) => JsonAt::Array,
            Some(serde_json::Value::Object(_)) => JsonAt::Object,
        },
    }
}

impl JsonAtView {
    /// The text, if there is one.
    pub open spec fn text(self) -> Option<Seq<char>> {
        match self {
            JsonAtView::Text(text) => Some(text),
            _ => None,
        }
    }

    /// The whole number with a sign, if there is one.
    pub open spec fn signed(self) -> Option<i64> {
        match self {
            JsonAtView::Number { unsigned, signed } => signed,
            _ => None,
        }
    }

    /// The text is JSON and has something at the place.
    pub open spec fn present(self) -> bool {
        !(self is Invalid) && !(self is Missing)
    }
}

impl JsonAt {
    /// The text, if there is one.
    pub fn as_text(&self) -> (text: Option<&str>)
        ensures
            crate::text::opt_str(text) == self@.text(),
    {
        match self {
            JsonAt::Text(text) => Some(text.as_str()),
            _ => None,
        }
    }

    /// The whole number with a sign, if there is one.
    pub fn as_signed(&self) -> (number: Option<i64>)
        ensures
            number == self@.signed(),
    {
        match self {
            JsonAt::Number { signed, .. } => *signed,
            _ => None,
        }
    }

    /// Whether the text is JSON and has something at the place.
    pub fn is_present(&self) -> (there: bool)
        ensures
            there == self@.present(),
    {
        match self {
            JsonAt::Invalid(_) => false,
            JsonAt::Missing => false,
            _ => true,
        }
    }
}

/// A JSON value that is sent.
#[derive(Debug)]
pub enum Json {
    Text(String),
    Number(u64),
    Signed(i64),
    /// A moment, written as a text in the form of RFC 3339.
    Moment(Timestamp),
    Array(Vec<Json>),
    Object(Vec<(String, Json)>),
}

/// The contents of a [`Json`].
pub ghost enum JsonView {
    Text(Seq<char>),
    Number(u64),
    Signed(i64),
    Moment(Timestamp),
    Array(Seq<JsonView>),
    Object(Seq<(Seq<char>, JsonView)>),
}

/// The contents of a value, and of all that stands in it.
pub open spec fn contents(json: Json) -> JsonView
    decreases json,
{
    match json {
        Json::Text(text) => JsonView::Text(text@),
        Json::Number(number) => JsonView::Number(number),
        Json::Signed(number) => JsonView::Signed(number),
        Json::Moment(moment) => JsonView::Moment(moment),
        Json::Array(items) => JsonView::Array(
            Seq::new(
                items@.len(),
                |i: int|
                    if 0 <= i < items@.len() {
                        contents(items@[i])
                    } else {
                        JsonView::Number(0)
                    },
            ),
        ),
        Json::Object(fields) => JsonView::Object(
            Seq::new(
                fields@.len(),
                |i: int|
                    if 0 <= i < fields@.len() {
                        (fields@[i].0@, contents(fields@[i].1))
                    } else {
                        (Seq::empty(), JsonView::Number(0))
                    },
            ),
        ),
    }
}

impl View for Json {
    type V = JsonView;

    open spec fn view(&self) -> JsonView {
        contents(*self)
    }
}

/// The contents of the fields of an object.
pub open spec fn field_views(fields: Seq<(String, Json)>) -> Seq<(Seq<char>, JsonView)> {
    fields.map_values(|field: (String, Json)| (field.0@, field.1@))
}

/// The contents of the items of an array.
pub open spec fn item_views(items: Seq<Json>) -> Seq<JsonView> {
    items.map_values(|item: Json| item@)
}

/// An object with these fields.
pub(crate) fn object(fields: Vec<(String, Json)>) -> (json: Json)
    ensures
        json@ == JsonView::Object(field_views(fields@)),
{
    let json = Json::Object(fields);
    assert(json@->Object_0 =~= field_views(fields@));
    json
}

/// An array of these items.
pub(crate) fn array(items: Vec<Json>) -> (json: Json)
    ensures
        json@ == JsonView::Array(item_views(items@)),
{
    let json = Json::Array(items);
    assert(json@->Array_0 =~= item_views(items@));
    json
}

/// Adds a field to the fields of an object.
pub(crate) fn push_field(fields: &mut Vec<(String, Json)>, name: &str, value: Json)
    ensures
        field_views(final(fields)@) == field_views(old(fields)@).push((name@, value@)),
{
    let ghost before = fields@;
    fields.push((name.to_owned(), value));
    assert(field_views(fields@) =~= field_views(before).push((name@, value@)));
}

/// A field with a text, if there is a text.
pub open spec fn optional_text(name: Seq<char>, value: Option<Seq<char>>) -> Seq<
    (Seq<char>, JsonView),
> {
    match value {
        Some(text) => seq![(name, JsonView::Text(text))],
        None => Seq::empty(),
    }
}

/// A field with a number, if there is a number.
pub open spec fn optional_number(name: Seq<char>, value: Option<u64>) -> Seq<
    (Seq<char>, JsonView),
> {
    match value {
        Some(number) => seq![(name, JsonView::Number(number))],
        None => Seq::empty(),
    }
}

/// Adds a field with a text, if there is a text.
pub(crate) fn push_optional_text(
    fields: &mut Vec<(String, Json)>,
    name: &str,
    value: &Option<String>,
)
    ensures
        field_views(final(fields)@) == field_views(old(fields)@) + optional_text(
            name@,
            crate::text::opt_text(*value),
        ),
{
    let ghost before = field_views(fields@);
    if let Some(text) = value {
        push_field(fields, name, Json::Text(text.clone()));
    }
    assert(field_views(fields@) =~= before + optional_text(name@, crate::text::opt_text(*value)));
}

/// Adds a field with a number, if there is a number.
pub(crate) fn push_optional_number(
    fields: &mut Vec<(String, Json)>,
    name: &str,
    value: Option<u64>,
)
    ensures
        field_views(final(fields)@) == field_views(old(fields)@) + optional_number(name@, value),
{
    let ghost before = field_views(fields@);
    if let Some(number) = value {
        push_field(fields, name, Json::Number(number));
    }
    assert(field_views(fields@) =~= before + optional_number(name@, value));
}

/// Texts as an array.
pub open spec fn text_array(parts: Seq<Seq<char>>) -> JsonView {
    JsonView::Array(parts.map_values(|part: Seq<char>| JsonView::Text(part)))
}

/// Texts as an array.
pub(crate) fn texts_to_json(parts: &Vec<String>) -> (json: Json)
    ensures
        json@ == text_array(crate::text::texts(parts@)),
{
    let mut items: Vec<Json> = Vec::new();
    for i in 0..parts.len()
        invariant
            items@.len() == i,
            forall|j: int|
                0 <= j < i ==> (#[trigger] items@[j])@ == JsonView::Text(parts@[j]@),
    {
        items.push(Json::Text(parts[i].clone()));
    }
    assert(item_views(items@) =~= crate::text::texts(parts@).map_values(
        |part: Seq<char>| JsonView::Text(part),
    ));
    array(items)
}

/// A verification as it is sent: the status, and what else is known.
pub open spec fn verification_view(verification: crate::domain::VerificationView) -> JsonView {
    JsonView::Object(
        seq![("status"@, JsonView::Text(verification.status.label()))] + optional_number(
            "score"@,
            match verification.score {
                Some(score) => Some(score as u64),
                None => None,
            },
        ) + optional_text("recording_id"@, verification.recording_id) + optional_text(
            "release_id"@,
            verification.release_id,
        ) + optional_text("release_group_id"@, verification.release_group_id),
    )
}

/// A message as it is sent: flat and versioned, without what is not known.
pub open spec fn message_view(message: crate::domain::NowPlayingMessageView) -> JsonView {
    JsonView::Object(
        seq![
            ("schema_version"@, JsonView::Number(message.schema_version as u64)),
            ("observed_at"@, JsonView::Moment(message.observed_at)),
            ("track"@, JsonView::Text(message.track)),
            ("artists"@, text_array(message.artists)),
            ("album"@, JsonView::Text(message.album)),
        ] + optional_number("duration_ms"@, message.duration_ms) + optional_text(
            "art_url"@,
            message.art_url,
        ) + seq![
            (
                "player"@,
                JsonView::Object(
                    seq![
                        ("key"@, JsonView::Text(message.player.key)),
                        ("identity"@, JsonView::Text(message.player.identity)),
                    ],
                ),
            ),
            ("verification"@, verification_view(message.verification)),
        ],
    )
}

/// A verification as it is sent.
pub fn verification_json(verification: &Verification) -> (json: Json)
    ensures
        json@ == verification_view(verification@),
{
    let mut fields: Vec<(String, Json)> = Vec::new();
    push_field(&mut fields, "status", Json::Text(verification.status.to_text()));
    assert(field_views(fields@) =~= seq![
        ("status"@, JsonView::Text(verification.status.label())),
    ]);
    push_optional_number(
        &mut fields,
        "score",
        match verification.score {
            Some(score) => Some(score as u64),
            None => None,
        },
    );
    push_optional_text(&mut fields, "recording_id", &verification.recording_id);
    push_optional_text(&mut fields, "release_id", &verification.release_id);
    push_optional_text(&mut fields, "release_group_id", &verification.release_group_id);
    object(fields)
}

/// A message as it is sent.
pub fn message_json(message: &NowPlayingMessage) -> (json: Json)
    ensures
        json@ == message_view(message@),
        reads(json@, "schema_version"@, Some(JsonView::Number(message.schema_version as u64))),
        reads(json@, "observed_at"@, Some(JsonView::Moment(message.observed_at))),
        reads(json@, "track"@, Some(JsonView::Text(message.track@))),
        reads(json@, "album"@, Some(JsonView::Text(message.album@))),
        reads(json@, "art_url"@, known_text(crate::text::opt_text(message.art_url))),
        reads(json@, "verification"@, Some(verification_view(message.verification@))),
{
    proof {
        law_message_reads_back(message@);
    }
    let mut fields: Vec<(String, Json)> = Vec::new();
    push_field(&mut fields, "schema_version", Json::Number(message.schema_version as u64));
    push_field(&mut fields, "observed_at", Json::Moment(message.observed_at));
    push_field(&mut fields, "track", Json::Text(message.track.clone()));
    push_field(&mut fields, "artists", texts_to_json(&message.artists));
    push_field(&mut fields, "album", Json::Text(message.album.clone()));
    assert(field_views(fields@) =~= seq![
        ("schema_version"@, JsonView::Number(message.schema_version as u64)),
        ("observed_at"@, JsonView::Moment(message.observed_at)),
        ("track"@, JsonView::Text(message.track@)),
        ("artists"@, text_array(crate::text::texts(message.artists@))),
        ("album"@, JsonView::Text(message.album@)),
    ]);
    push_optional_number(&mut fields, "duration_ms", message.duration_ms);
    push_optional_text(&mut fields, "art_url", &message.art_url);
    let ghost known = field_views(fields@);
    let mut player: Vec<(String, Json)> = Vec::new();
    push_field(&mut player, "key", Json::Text(message.player.key.clone()));
    push_field(&mut player, "identity", Json::Text(message.player.identity.clone()));
    assert(field_views(player@) =~= seq![
        ("key"@, JsonView::Text(message.player.key@)),
        ("identity"@, JsonView::Text(message.player.identity@)),
    ]);
    push_field(&mut fields, "player", object(player));
    push_field(&mut fields, "verification", verification_json(&message.verification));
    let ghost player_view = JsonView::Object(
        seq![
            ("key"@, JsonView::Text(message.player.key@)),
            ("identity"@, JsonView::Text(message.player.identity@)),
        ],
    );
    assert(field_views(fields@) =~= known + seq![
        ("player"@, player_view),
        ("verification"@, verification_view(message.verification@)),
    ]);
    object(fields)
}

/// An object has a field of this name.
pub open spec fn has_field(json: JsonView, name: Seq<char>) -> bool {
    json is Object && exists|i: int|
        0 <= i < json->Object_0.len() && (#[trigger] json->Object_0[i]).0 == name
}

/// What is not known of a track is left out of the message, and what is known is there.
pub proof fn law_unknown_fields_are_left_out(message: crate::domain::NowPlayingMessageView)
    ensures
        has_field(message_view(message), "duration_ms"@) == (message.duration_ms is Some),
        has_field(message_view(message), "art_url"@) == (message.art_url is Some),
        has_field(message_view(message), "verification"@),
        message_view(message)->Object_0.last() == (
            "verification"@,
            verification_view(message.verification),
        ),
        has_field(verification_view(message.verification), "score"@) == (
        message.verification.score is Some),
        has_field(verification_view(message.verification), "recording_id"@) == (
        message.verification.recording_id is Some),
        has_field(verification_view(message.verification), "release_id"@) == (
        message.verification.release_id is Some),
        has_field(verification_view(message.verification), "release_group_id"@) == (
        message.verification.release_group_id is Some),
{
    reveal_strlit("schema_version");
    reveal_strlit("observed_at");
    reveal_strlit("track");
    reveal_strlit("artists");
    reveal_strlit("album");
    reveal_strlit("duration_ms");
    reveal_strlit("art_url");
    reveal_strlit("player");
    reveal_strlit("verification");
    let fields = message_view(message)->Object_0;
    assert("observed_at"@[0] != "duration_ms"@[0]);
    assert("artists"@[3] != "art_url"@[3]);
    if message.duration_ms is Some {
        assert(fields[5].0 == "duration_ms"@);
    }
    if message.art_url is Some {
        let at: int = if message.duration_ms is Some {
            6
        } else {
            5
        };
        assert(fields[at].0 == "art_url"@);
    }
    assert(fields.last().0 == "verification"@);
    lemma_unknown_identifiers_are_left_out(message.verification);
}

proof fn lemma_unknown_identifiers_are_left_out(verification: crate::domain::VerificationView)
    ensures
        ({
            let json = verification_view(verification);
            &&& has_field(json, "score"@) == (verification.score is Some)
            &&& has_field(json, "recording_id"@) == (verification.recording_id is Some)
            &&& has_field(json, "release_id"@) == (verification.release_id is Some)
            &&& has_field(json, "release_group_id"@) == (verification.release_group_id is Some)
        }),
{
    reveal_strlit("status");
    reveal_strlit("score");
    reveal_strlit("recording_id");
    reveal_strlit("release_id");
    reveal_strlit("release_group_id");
    let fields = verification_view(verification)->Object_0;
    let scores: int = if verification.score is Some {
        1
    } else {
        0
    };
    let recordings: int = if verification.recording_id is Some {
        1
    } else {
        0
    };
    let releases: int = if verification.release_id is Some {
        1
    } else {
        0
    };
    let before_release: int = 1 + scores + recordings;
    let before_group: int = before_release + releases;
    assert forall|i: int| 0 <= i < fields.len() implies (#[trigger] fields[i]).0 == (if i == 0 {
        "status"@
    } else if i < 1 + scores {
        "score"@
    } else if i < before_release {
        "recording_id"@
    } else if i < before_group {
        "release_id"@
    } else {
        "release_group_id"@
    }) by {}
    if verification.score is Some {
        assert(fields[1].0 == "score"@);
    }
    if verification.recording_id is Some {
        assert(fields[1 + scores].0 == "recording_id"@);
    }
    if verification.release_id is Some {
        assert(fields[before_release].0 == "release_id"@);
    }
    if verification.release_group_id is Some {
        assert(fields[before_group].0 == "release_group_id"@);
    }
    assert("status"@.len() == 6 && "score"@.len() == 5 && "recording_id"@.len() == 12);
    assert("release_id"@.len() == 10 && "release_group_id"@.len() == 16);
}

/// Read by name, an object gives this value: the field is there once, with it; or, where there is
/// no value, the field is not there.
pub open spec fn reads(json: JsonView, name: Seq<char>, value: Option<JsonView>) -> bool {
    &&& json is Object
    &&& match value {
        Some(value) => {
            &&& exists|i: int|
                0 <= i < json->Object_0.len() && #[trigger] json->Object_0[i] == (name, value)
            &&& forall|i: int, j: int|
                0 <= i < json->Object_0.len() && 0 <= j < json->Object_0.len()
                    && #[trigger] json->Object_0[i].0 == name && #[trigger] json->Object_0[j].0
                    == name ==> i == j
        },
        None => forall|i: int|
            0 <= i < json->Object_0.len() ==> (#[trigger] json->Object_0[i]).0 != name,
    }
}

/// An object gives one value for a name.
pub proof fn law_objects_give_one_value(
    json: JsonView,
    name: Seq<char>,
    one: Option<JsonView>,
    other: Option<JsonView>,
)
    requires
        reads(json, name, one),
        reads(json, name, other),
    ensures
        one == other,
{
    let fields = json->Object_0;
    if let Some(a) = one {
        let i = choose|i: int| 0 <= i < fields.len() && #[trigger] fields[i] == (name, a);
        assert(fields[i].0 == name);
        if let Some(b) = other {
            let j = choose|j: int| 0 <= j < fields.len() && #[trigger] fields[j] == (name, b);
            assert(fields[j].0 == name);
        }
    } else if let Some(b) = other {
        let j = choose|j: int| 0 <= j < fields.len() && #[trigger] fields[j] == (name, b);
        assert(fields[j].0 == name);
    }
}

/// A verification that is sent, read by name, gives back the verification: the word for its
/// status, and the score and each identifier exactly where they are known.
pub proof fn law_verification_reads_back(verification: crate::domain::VerificationView)
    ensures
        ({
            let json = verification_view(verification);
            &&& verification.status == crate::domain::VerificationStatus::Pending ==> reads(
                json,
                "status"@,
                Some(JsonView::Text("pending"@)),
            )
            &&& verification.status == crate::domain::VerificationStatus::Verified ==> reads(
                json,
                "status"@,
                Some(JsonView::Text("verified"@)),
            )
            &&& verification.status == crate::domain::VerificationStatus::NotFound ==> reads(
                json,
                "status"@,
                Some(JsonView::Text("not_found"@)),
            )
            &&& verification.status == crate::domain::VerificationStatus::Ambiguous ==> reads(
                json,
                "status"@,
                Some(JsonView::Text("ambiguous"@)),
            )
            &&& verification.status == crate::domain::VerificationStatus::Unavailable ==> reads(
                json,
                "status"@,
                Some(JsonView::Text("unavailable"@)),
            )
            &&& reads(
                json,
                "score"@,
                match verification.score {
                    Some(score) => Some(JsonView::Number(score as u64)),
                    None => None,
                },
            )
            &&& reads(json, "recording_id"@, known_text(verification.recording_id))
            &&& reads(json, "release_id"@, known_text(verification.release_id))
            &&& reads(json, "release_group_id"@, known_text(verification.release_group_id))
        }),
{
    reveal_strlit("status");
    reveal_strlit("score");
    reveal_strlit("recording_id");
    reveal_strlit("release_id");
    reveal_strlit("release_group_id");
    assert("status"@.len() == 6 && "score"@.len() == 5 && "recording_id"@.len() == 12);
    assert("release_id"@.len() == 10 && "release_group_id"@.len() == 16);
    let json = verification_view(verification);
    let fields = json->Object_0;
    let scores: int = if verification.score is Some {
        1
    } else {
        0
    };
    let before_release: int = 1 + scores + if verification.recording_id is Some {
        1int
    } else {
        0
    };
    let before_group: int = before_release + if verification.release_id is Some {
        1int
    } else {
        0
    };
    assert forall|i: int| 0 <= i < fields.len() implies (#[trigger] fields[i]).0 == (if i == 0 {
        "status"@
    } else if i < 1 + scores {
        "score"@
    } else if i < before_release {
        "recording_id"@
    } else if i < before_group {
        "release_id"@
    } else {
        "release_group_id"@
    }) by {}
    assert(fields[0] == ("status"@, JsonView::Text(verification.status.label())));
    if let Some(score) = verification.score {
        assert(fields[1] == ("score"@, JsonView::Number(score as u64)));
    }
    if let Some(id) = verification.recording_id {
        assert(fields[1 + scores] == ("recording_id"@, JsonView::Text(id)));
    }
    if let Some(id) = verification.release_id {
        assert(fields[before_release] == ("release_id"@, JsonView::Text(id)));
    }
    if let Some(id) = verification.release_group_id {
        assert(fields[before_group] == ("release_group_id"@, JsonView::Text(id)));
    }
}

/// A text that may be known, as a value.
pub open spec fn known_text(text: Option<Seq<char>>) -> Option<JsonView> {
    match text {
        Some(text) => Some(JsonView::Text(text)),
        None => None,
    }
}

/// The message that is sent, read by name, gives back the message: each field under its own name,
/// the artists in their order, and what is not known not at all.
pub proof fn law_message_reads_back(message: crate::domain::NowPlayingMessageView)
    ensures
        ({
            let json = message_view(message);
            &&& reads(
                json,
                "schema_version"@,
                Some(JsonView::Number(message.schema_version as u64)),
            )
            &&& reads(json, "observed_at"@, Some(JsonView::Moment(message.observed_at)))
            &&& reads(json, "track"@, Some(JsonView::Text(message.track)))
            &&& reads(json, "album"@, Some(JsonView::Text(message.album)))
            &&& exists|items: Seq<JsonView>|
                {
                    &&& #[trigger] reads(json, "artists"@, Some(JsonView::Array(items)))
                    &&& items.len() == message.artists.len()
                    &&& forall|i: int|
                        0 <= i < items.len() ==> #[trigger] items[i] == JsonView::Text(
                            message.artists[i],
                        )
                }
            &&& reads(
                json,
                "duration_ms"@,
                match message.duration_ms {
                    Some(duration) => Some(JsonView::Number(duration)),
                    None => None,
                },
            )
            &&& reads(json, "art_url"@, known_text(message.art_url))
            &&& exists|player: JsonView|
                {
                    &&& #[trigger] reads(json, "player"@, Some(player))
                    &&& reads(player, "key"@, Some(JsonView::Text(message.player.key)))
                    &&& reads(player, "identity"@, Some(JsonView::Text(message.player.identity)))
                }
            &&& reads(json, "verification"@, Some(verification_view(message.verification)))
        }),
{
    reveal_strlit("schema_version");
    reveal_strlit("observed_at");
    reveal_strlit("track");
    reveal_strlit("artists");
    reveal_strlit("album");
    reveal_strlit("duration_ms");
    reveal_strlit("art_url");
    reveal_strlit("player");
    reveal_strlit("verification");
    reveal_strlit("key");
    reveal_strlit("identity");
    assert("observed_at"@[0] != "duration_ms"@[0]);
    assert("artists"@[3] != "art_url"@[3]);
    assert("track"@[0] != "album"@[0]);
    assert("schema_version"@.len() == 14 && "observed_at"@.len() == 11 && "track"@.len() == 5);
    assert("artists"@.len() == 7 && "album"@.len() == 5 && "duration_ms"@.len() == 11);
    assert("art_url"@.len() == 7 && "player"@.len() == 6 && "verification"@.len() == 12);
    assert("key"@.len() == 3 && "identity"@.len() == 8);
    let json = message_view(message);
    let fields = json->Object_0;
    let before_art: int = 5 + if message.duration_ms is Some {
        1int
    } else {
        0
    };
    let before_player: int = before_art + if message.art_url is Some {
        1int
    } else {
        0
    };
    assert forall|i: int| 0 <= i < fields.len() implies (#[trigger] fields[i]).0 == (if i == 0 {
        "schema_version"@
    } else if i == 1 {
        "observed_at"@
    } else if i == 2 {
        "track"@
    } else if i == 3 {
        "artists"@
    } else if i == 4 {
        "album"@
    } else if i < before_art {
        "duration_ms"@
    } else if i < before_player {
        "art_url"@
    } else if i == before_player {
        "player"@
    } else {
        "verification"@
    }) by {}
    assert(fields.len() == before_player + 2);
    assert(fields[0].1 == JsonView::Number(message.schema_version as u64));
    assert(fields[1].1 == JsonView::Moment(message.observed_at));
    assert(fields[2].1 == JsonView::Text(message.track));
    assert(fields[4].1 == JsonView::Text(message.album));
    let items = fields[3].1->Array_0;
    assert(fields[3] == ("artists"@, JsonView::Array(items)));
    assert(reads(json, "artists"@, Some(JsonView::Array(items))));
    if let Some(duration) = message.duration_ms {
        assert(fields[5] == ("duration_ms"@, JsonView::Number(duration)));
    }
    if let Some(url) = message.art_url {
        assert(fields[before_art] == ("art_url"@, JsonView::Text(url)));
    }
    let player = fields[before_player].1;
    assert(fields[before_player] == ("player"@, player));
    assert(player->Object_0[0] == ("key"@, JsonView::Text(message.player.key)));
    assert(player->Object_0[1] == ("identity"@, JsonView::Text(message.player.identity)));
    assert(reads(player, "key"@, Some(JsonView::Text(message.player.key))));
    assert(reads(player, "identity"@, Some(JsonView::Text(message.player.identity))));
    assert(reads(json, "player"@, Some(player)));
    assert(fields[before_player + 1] == (
        "verification"@,
        verification_view(message.verification),
    ));
    assert(reads(json, "schema_version"@, Some(fields[0].1)));
    assert(reads(json, "observed_at"@, Some(fields[1].1)));
    assert(reads(json, "track"@, Some(fields[2].1)));
    assert(reads(json, "album"@, Some(fields[4].1)));
    assert(reads(json, "verification"@, Some(fields[before_player + 1].1)));
}

/// Messages that differ are sent differently: whoever receives the JSON can tell every field of the
/// message from it.
pub proof fn law_different_messages_are_sent_differently(
    one: crate::domain::NowPlayingMessageView,
    other: crate::domain::NowPlayingMessageView,
)
    requires
        message_view(one) == message_view(other),
    ensures
        one.schema_version == other.schema_version,
        one.observed_at == other.observed_at,
        one.track == other.track,
        one.artists == other.artists,
        one.album == other.album,
        one.duration_ms == other.duration_ms,
        one.art_url == other.art_url,
        one.player.key == other.player.key,
        one.player.identity == other.player.identity,
        one.verification.score == other.verification.score,
        one.verification.recording_id == other.verification.recording_id,
        one.verification.release_id == other.verification.release_id,
        one.verification.release_group_id == other.verification.release_group_id,
{
    law_message_reads_back(one);
    law_message_reads_back(other);
    law_verification_reads_back(one.verification);
    law_verification_reads_back(other.verification);
    let json = message_view(one);
    law_objects_give_one_value(
        json,
        "schema_version"@,
        Some(JsonView::Number(one.schema_version as u64)),
        Some(JsonView::Number(other.schema_version as u64)),
    );
    law_objects_give_one_value(
        json,
        "observed_at"@,
        Some(JsonView::Moment(one.observed_at)),
        Some(JsonView::Moment(other.observed_at)),
    );
    law_objects_give_one_value(
        json,
        "track"@,
        Some(JsonView::Text(one.track)),
        Some(JsonView::Text(other.track)),
    );
    law_objects_give_one_value(
        json,
        "album"@,
        Some(JsonView::Text(one.album)),
        Some(JsonView::Text(other.album)),
    );
    law_objects_give_one_value(
        json,
        "duration_ms"@,
        match one.duration_ms {
            Some(duration) => Some(JsonView::Number(duration)),
            None => None,
        },
        match other.duration_ms {
            Some(duration) => Some(JsonView::Number(duration)),
            None => None,
        },
    );
    law_objects_give_one_value(json, "art_url"@, known_text(one.art_url), known_text(other.art_url));
    let these = choose|items: Seq<JsonView>|
        {
            &&& #[trigger] reads(json, "artists"@, Some(JsonView::Array(items)))
            &&& items.len() == one.artists.len()
            &&& forall|i: int|
                0 <= i < items.len() ==> #[trigger] items[i] == JsonView::Text(one.artists[i])
        };
    let those = choose|items: Seq<JsonView>|
        {
            &&& #[trigger] reads(json, "artists"@, Some(JsonView::Array(items)))
            &&& items.len() == other.artists.len()
            &&& forall|i: int|
                0 <= i < items.len() ==> #[trigger] items[i] == JsonView::Text(other.artists[i])
        };
    law_objects_give_one_value(
        json,
        "artists"@,
        Some(JsonView::Array(these)),
        Some(JsonView::Array(those)),
    );
    assert forall|i: int| 0 <= i < one.artists.len() implies one.artists[i] == other.artists[i] by {
        assert(these[i] == JsonView::Text(one.artists[i]));
        assert(those[i] == JsonView::Text(other.artists[i]));
    }
    assert(one.artists =~= other.artists);
    let this = choose|player: JsonView|
        {
            &&& #[trigger] reads(json, "player"@, Some(player))
            &&& reads(player, "key"@, Some(JsonView::Text(one.player.key)))
            &&& reads(player, "identity"@, Some(JsonView::Text(one.player.identity)))
        };
    let that = choose|player: JsonView|
        {
            &&& #[trigger] reads(json, "player"@, Some(player))
            &&& reads(player, "key"@, Some(JsonView::Text(other.player.key)))
            &&& reads(player, "identity"@, Some(JsonView::Text(other.player.identity)))
        };
    law_objects_give_one_value(json, "player"@, Some(this), Some(that));
    law_objects_give_one_value(
        this,
        "key"@,
        Some(JsonView::Text(one.player.key)),
        Some(JsonView::Text(other.player.key)),
    );
    law_objects_give_one_value(
        this,
        "identity"@,
        Some(JsonView::Text(one.player.identity)),
        Some(JsonView::Text(other.player.identity)),
    );
    let here = verification_view(one.verification);
    let there = verification_view(other.verification);
    law_objects_give_one_value(json, "verification"@, Some(here), Some(there));
    law_objects_give_one_value(
        here,
        "score"@,
        match one.verification.score {
            Some(score) => Some(JsonView::Number(score as u64)),
            None => None,
        },
        match other.verification.score {
            Some(score) => Some(JsonView::Number(score as u64)),
            None => None,
        },
    );
    law_objects_give_one_value(
        here,
        "recording_id"@,
        known_text(one.verification.recording_id),
        known_text(other.verification.recording_id),
    );
    law_objects_give_one_value(
        here,
        "release_id"@,
        known_text(one.verification.release_id),
        known_text(other.verification.release_id),
    );
    law_objects_give_one_value(
        here,
        "release_group_id"@,
        known_text(one.verification.release_group_id),
        known_text(other.verification.release_group_id),
    );
}

/// What stands at a place is a text, a number or something at all exactly when it is one.
pub proof fn law_places_hold_what_they_hold(found: JsonAtView)
    ensures
        found is Text <==> found.text() is Some,
        found is Text ==> found.text() == Some(found->Text_0),
        found is Number ==> found.signed() == found->signed,
        !(found is Number) ==> found.signed() is None,
        found.present() <==> found is Null || found is Bool || found is Number || found is Text
            || found is Array || found is Object,
{
}

/// The contents of an object are its fields in their order, and those of an array its items; the
/// contents of anything else are what it is.
pub proof fn law_contents_are_shown_one_by_one(
    fields: Vec<(String, Json)>,
    items: Vec<Json>,
    text: String,
    number: u64,
    signed: i64,
    moment: Timestamp,
    at: int,
)
    ensures
        Json::Object(fields)@ is Object && Json::Object(fields)@->Object_0.len() == fields@.len(),
        0 <= at < fields@.len() ==> Json::Object(fields)@->Object_0[at] == (
            fields@[at].0@,
            fields@[at].1@,
        ),
        Json::Array(items)@ is Array && Json::Array(items)@->Array_0.len() == items@.len(),
        0 <= at < items@.len() ==> Json::Array(items)@->Array_0[at] == items@[at]@,
        Json::Text(text)@ == JsonView::Text(text@),
        Json::Number(number)@ == JsonView::Number(number),
        Json::Signed(signed)@ == JsonView::Signed(signed),
        Json::Moment(moment)@ == JsonView::Moment(moment),
        field_views(fields@).len() == fields@.len(),
        0 <= at < fields@.len() ==> field_views(fields@)[at] == (fields@[at].0@, fields@[at].1@),
        item_views(items@).len() == items@.len(),
        0 <= at < items@.len() ==> item_views(items@)[at] == items@[at]@,
{
}

/// What was found at a place is shown as it is.
pub proof fn law_found_values_are_shown(found: JsonAt)
    ensures
        match found {
            JsonAt::Invalid(reason) => found@ == JsonAtView::Invalid(reason@),
            JsonAt::Missing => found@ is Missing,
            JsonAt::Null => found@ is Null,
            JsonAt::Bool(value) => found@ == JsonAtView::Bool(value),
            JsonAt::Number { unsigned, signed } => found@ == (JsonAtView::Number {
                unsigned,
                signed,
            }),
            JsonAt::Text(text) => found@ == JsonAtView::Text(text@),
            JsonAt::Array => found@ is Array,
            JsonAt::Object => found@ is Object,
        },
{
}

} // verus!
