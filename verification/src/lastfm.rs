//! What is said to Last.fm, and what its answers mean.

use vstd::prelude::*;

use crate::config::{validate_lastfm, LastFmConfig};
use crate::delivery::{
    note_attempt, ApiFailure, Exchange, FailureKind, NextAttempt,
};
use crate::digest::{md5_of, to_hex};
use crate::domain::NowPlayingMessage;
use crate::json::{json_at, JsonAt};
use crate::playback::ScrobbleAction;
use crate::submissions::Submissions;
use crate::text::{comes_before, parse_unsigned, same_text, to_decimal, to_signed_decimal};
use crate::web::HttpStatus;

verus! {

/// Where calls are posted to.
pub const API_ENDPOINT: &'static str = "https://ws.audioscrobbler.com/2.0/";

/// Where a user approves of an application.
pub const AUTH_ENDPOINT: &'static str = "https://www.last.fm/api/auth/";

/// How the account stands: whether it is authenticated, and what happened last.
#[derive(Debug)]
pub struct LastFmStatus {
    pub authenticated: bool,
    pub detail: String,
}

impl View for LastFmStatus {
    type V = crate::delivery::AccountView;

    open spec fn view(&self) -> crate::delivery::AccountView {
        crate::delivery::AccountView { authenticated: self.authenticated, detail: self.detail@ }
    }
}

impl Clone for LastFmStatus {
    fn clone(&self) -> (copy: Self)
        ensures
            copy@ == self@,
    {
        LastFmStatus { authenticated: self.authenticated, detail: self.detail.clone() }
    }
}

impl Default for LastFmStatus {
    fn default() -> (status: Self)
        ensures
            status.authenticated == false,
            status.detail@ == Seq::<char>::empty(),
    {
        LastFmStatus { authenticated: false, detail: String::new() }
    }
}

/// A request for approval: the token, and the page on which the user approves of it.
#[derive(Debug)]
pub struct Authorization {
    pub token: String,
    pub url: String,
}

impl View for Authorization {
    type V = (Seq<char>, Seq<char>);

    open spec fn view(&self) -> (Seq<char>, Seq<char>) {
        (self.token@, self.url@)
    }
}

impl Clone for Authorization {
    fn clone(&self) -> (copy: Self)
        ensures
            copy@ == self@,
    {
        Authorization { token: self.token.clone(), url: self.url.clone() }
    }
}

impl PartialEq for Authorization {
    fn eq(&self, other: &Self) -> (same: bool) {
        self.token == other.token && self.url == other.url
    }
}

impl vstd::std_specs::cmp::PartialEqSpecImpl for Authorization {
    open spec fn obeys_eq_spec() -> bool {
        true
    }

    open spec fn eq_spec(&self, other: &Self) -> bool {
        self@ == other@
    }
}

impl Eq for Authorization {

}

/// An approved session: whose it is, and the key that signs calls for it.
#[derive(Debug)]
pub struct AuthorizedSession {
    pub username: String,
    pub session_key: String,
}

impl View for AuthorizedSession {
    type V = (Seq<char>, Seq<char>);

    open spec fn view(&self) -> (Seq<char>, Seq<char>) {
        (self.username@, self.session_key@)
    }
}

impl Clone for AuthorizedSession {
    fn clone(&self) -> (copy: Self)
        ensures
            copy@ == self@,
    {
        AuthorizedSession { username: self.username.clone(), session_key: self.session_key.clone() }
    }
}

impl PartialEq for AuthorizedSession {
    fn eq(&self, other: &Self) -> (same: bool) {
        self.username == other.username && self.session_key == other.session_key
    }
}

impl vstd::std_specs::cmp::PartialEqSpecImpl for AuthorizedSession {
    open spec fn obeys_eq_spec() -> bool {
        true
    }

    open spec fn eq_spec(&self, other: &Self) -> bool {
        self@ == other@
    }
}

impl Eq for AuthorizedSession {

}

/// A name and its value.
pub type Pair = (Seq<char>, Seq<char>);

/// The contents of the fields of a call.
pub open spec fn pair_views(fields: Seq<(String, String)>) -> Seq<(Seq<char>, Seq<char>)> {
    fields.map_values(|field: (String, String)| (field.0@, field.1@))
}

/// Adds a field to a call.
fn push_pair(fields: &mut Vec<(String, String)>, name: &str, value: String)
    ensures
        pair_views(final(fields)@) == pair_views(old(fields)@).push((name@, value@)),
{
    let ghost before = fields@;
    fields.push((name.to_owned(), value));
    assert(pair_views(fields@) =~= pair_views(before).push((name@, value@)));
}

/// What a call says of a track: the first artist and the title, and what else is known.
pub open spec fn fields_of(message: crate::domain::NowPlayingMessageView) -> Seq<Pair> {
    let named = seq![
        (
            "artist"@,
            if message.artists.len() == 0 {
                Seq::empty()
            } else {
                message.artists[0]
            },
        ),
        ("track"@, message.track),
    ];
    let with_album = if crate::text::is_blank(message.album) {
        named
    } else {
        named.push(("album"@, message.album))
    };
    let with_duration = match message.duration_ms {
        Some(duration) => with_album.push(
            ("duration"@, crate::text::decimal(duration as nat / 1000)),
        ),
        None => with_album,
    };
    match message.verification.recording_id {
        Some(id) => with_duration.push(("mbid"@, id)),
        None => with_duration,
    }
}

/// What a call says of a track.
pub fn track_fields(message: &NowPlayingMessage) -> (fields: Vec<(String, String)>)
    ensures
        pair_views(fields@) == fields_of(message@),
{
    let mut fields: Vec<(String, String)> = Vec::new();
    let artist = if message.artists.len() == 0 {
        String::new()
    } else {
        message.artists[0].clone()
    };
    push_pair(&mut fields, "artist", artist);
    push_pair(&mut fields, "track", message.track.clone());
    assert(pair_views(fields@) =~= seq![("artist"@, artist@), ("track"@, message.track@)]);
    assert(artist@ =~= (if message@.artists.len() == 0 {
        Seq::empty()
    } else {
        message@.artists[0]
    }));
    if !message.album.as_str().trim().is_empty() {
        push_pair(&mut fields, "album", message.album.clone());
    }
    if let Some(duration_ms) = message.duration_ms {
        push_pair(&mut fields, "duration", to_decimal(duration_ms / 1000));
    }
    if let Some(recording_id) = &message.verification.recording_id {
        push_pair(&mut fields, "mbid", recording_id.clone());
    }
    fields
}

/// Fields of this name are signed.
pub open spec fn is_signed(name: Seq<char>) -> bool {
    name != "api_sig"@ && name != "callback"@ && name != "format"@
}

/// Fields in the order of their names, with one more: it takes the place of one with its name.
pub open spec fn placed(sorted: Seq<Pair>, field: Pair) -> Seq<Pair>
    decreases sorted.len(),
{
    if sorted.len() == 0 {
        seq![field]
    } else if sorted.last().0 == field.0 {
        sorted.drop_last().push(field)
    } else if crate::text::text_less(sorted.last().0, field.0) {
        sorted.push(field)
    } else {
        placed(sorted.drop_last(), field).push(sorted.last())
    }
}

/// The signed fields in the order of their names.
pub open spec fn signed_order(fields: Seq<Pair>) -> Seq<Pair>
    decreases fields.len(),
{
    if fields.len() == 0 {
        Seq::empty()
    } else if is_signed(fields.last().0) {
        placed(signed_order(fields.drop_last()), fields.last())
    } else {
        signed_order(fields.drop_last())
    }
}

/// Names and values, one behind the other.
pub open spec fn run_together(fields: Seq<Pair>) -> Seq<char>
    decreases fields.len(),
{
    if fields.len() == 0 {
        Seq::empty()
    } else {
        run_together(fields.drop_last()) + fields.last().0 + fields.last().1
    }
}

/// The text whose digest signs a call.
pub open spec fn signed_text(fields: Seq<Pair>, secret: Seq<char>) -> Seq<char> {
    run_together(signed_order(fields)) + secret
}

/// The signature of a call.
pub open spec fn signature_of(fields: Seq<Pair>, secret: Seq<char>) -> Seq<char> {
    crate::digest::hex(
        crate::digest::md5_digest(vstd::utf8::encode_utf8(signed_text(fields, secret))),
    )
}

/// Names stand in strictly rising order.
pub open spec fn names_rise(fields: Seq<Pair>) -> bool {
    forall|i: int, j: int|
        0 <= i < j < fields.len() ==> crate::text::text_less(
            (#[trigger] fields[i]).0,
            (#[trigger] fields[j]).0,
        )
}

/// The value that the last field of this name has.
pub open spec fn last_value(fields: Seq<Pair>, name: Seq<char>) -> Option<Seq<char>>
    decreases fields.len(),
{
    if fields.len() == 0 {
        None
    } else if fields.last().0 == name {
        Some(fields.last().1)
    } else {
        last_value(fields.drop_last(), name)
    }
}

proof fn lemma_placed(sorted: Seq<Pair>, field: Pair, name: Seq<char>)
    requires
        names_rise(sorted),
    ensures
        names_rise(placed(sorted, field)),
        last_value(placed(sorted, field), name) == (if name == field.0 {
            Some(field.1)
        } else {
            last_value(sorted, name)
        }),
        forall|i: int|
            0 <= i < placed(sorted, field).len() ==> (#[trigger] placed(sorted, field)[i]).0
                == field.0 || exists|j: int|
                0 <= j < sorted.len() && (#[trigger] sorted[j]).0 == placed(sorted, field)[i].0,
    decreases sorted.len(),
{
    let result = placed(sorted, field);
    if sorted.len() == 0 {
        assert(result.drop_last() =~= sorted);
    } else {
        let front = sorted.drop_last();
        let last = sorted.last();
        crate::text::lemma_text_order_total(last.0, field.0);
        assert(names_rise(front)) by {
            assert forall|i: int, j: int| 0 <= i < j < front.len() implies crate::text::text_less(
                (#[trigger] front[i]).0,
                (#[trigger] front[j]).0,
            ) by {
                assert(front[i] == sorted[i] && front[j] == sorted[j]);
            }
        }
        if last.0 == field.0 {
            assert(result.drop_last() =~= front);
            assert forall|i: int, j: int| 0 <= i < j < result.len() implies crate::text::text_less(
                (#[trigger] result[i]).0,
                (#[trigger] result[j]).0,
            ) by {
                assert(result[i].0 == sorted[i].0 && result[j].0 == sorted[j].0);
            }
            assert forall|i: int| 0 <= i < result.len() && (#[trigger] result[i]).0
                != field.0 implies exists|j: int|
                0 <= j < sorted.len() && (#[trigger] sorted[j]).0 == result[i].0 by {
                assert(sorted[i].0 == result[i].0);
            }
        } else if crate::text::text_less(last.0, field.0) {
            assert(result.drop_last() =~= sorted);
            assert forall|i: int, j: int| 0 <= i < j < result.len() implies crate::text::text_less(
                (#[trigger] result[i]).0,
                (#[trigger] result[j]).0,
            ) by {
                if j == sorted.len() && i < sorted.len() - 1 {
                    assert(crate::text::text_less(sorted[i].0, sorted[sorted.len() - 1].0));
                    crate::text::lemma_text_order_transitive(sorted[i].0, last.0, field.0);
                } else if j < sorted.len() {
                    assert(crate::text::text_less(sorted[i].0, sorted[j].0));
                }
            }
            assert forall|i: int| 0 <= i < result.len() && (#[trigger] result[i]).0
                != field.0 implies exists|j: int|
                0 <= j < sorted.len() && (#[trigger] sorted[j]).0 == result[i].0 by {
                assert(sorted[i].0 == result[i].0);
            }
        } else {
            lemma_placed(front, field, name);
            let inner = placed(front, field);
            assert(result.drop_last() =~= inner);
            assert forall|i: int, j: int| 0 <= i < j < result.len() implies crate::text::text_less(
                (#[trigger] result[i]).0,
                (#[trigger] result[j]).0,
            ) by {
                if j == inner.len() {
                    assert(result[i] == inner[i]);
                    if inner[i].0 != field.0 {
                        let k = choose|k: int|
                            0 <= k < front.len() && (#[trigger] front[k]).0 == inner[i].0;
                        assert(crate::text::text_less(sorted[k].0, sorted[sorted.len() - 1].0));
                    }
                } else {
                    assert(result[i] == inner[i] && result[j] == inner[j]);
                }
            }
            assert forall|i: int| 0 <= i < result.len() && (#[trigger] result[i]).0
                != field.0 implies exists|j: int|
                0 <= j < sorted.len() && (#[trigger] sorted[j]).0 == result[i].0 by {
                if i < inner.len() {
                    assert(result[i] == inner[i]);
                    let k = choose|k: int|
                        0 <= k < front.len() && (#[trigger] front[k]).0 == inner[i].0;
                    assert(sorted[k].0 == result[i].0);
                } else {
                    assert(sorted[sorted.len() - 1].0 == result[i].0);
                }
            }
        }
    }
}

/// What is signed is each name once, in rising order, with the last value that it was given; the
/// signature itself, the callback and the format are no part of it.
pub proof fn law_signature_covers_each_name_once(fields: Seq<Pair>, name: Seq<char>)
    ensures
        names_rise(signed_order(fields)),
        is_signed(name) ==> last_value(signed_order(fields), name) == last_value(fields, name),
        !is_signed(name) ==> last_value(signed_order(fields), name) is None,
    decreases fields.len(),
{
    if fields.len() > 0 {
        law_signature_covers_each_name_once(fields.drop_last(), name);
        if is_signed(fields.last().0) {
            lemma_placed(signed_order(fields.drop_last()), fields.last(), name);
        }
    }
}

/// A name that has a value stands somewhere, and a name that stands somewhere has a value.
proof fn lemma_last_value(fields: Seq<Pair>, name: Seq<char>)
    ensures
        match last_value(fields, name) {
            Some(value) => fields.contains((name, value)),
            None => forall|i: int| 0 <= i < fields.len() ==> (#[trigger] fields[i]).0 != name,
        },
    decreases fields.len(),
{
    if fields.len() > 0 {
        let front = fields.drop_last();
        lemma_last_value(front, name);
        if fields.last().0 == name {
            assert(fields[fields.len() - 1] == (name, fields.last().1));
        } else {
            match last_value(front, name) {
                Some(value) => {
                    let i = choose|i: int| 0 <= i < front.len() && front[i] == (name, value);
                    assert(fields[i] == (name, value));
                },
                None => {
                    assert forall|i: int| 0 <= i < fields.len() implies (#[trigger] fields[i]).0
                        != name by {
                        if i < front.len() {
                            assert(front[i] == fields[i]);
                        }
                    }
                },
            }
        }
    }
}

/// Fields in rising order of their names are settled by the values that the names have.
proof fn lemma_rising_fields_are_settled(a: Seq<Pair>, b: Seq<Pair>)
    requires
        names_rise(a),
        names_rise(b),
        forall|name: Seq<char>| #[trigger] last_value(a, name) == last_value(b, name),
    ensures
        a == b,
    decreases a.len(),
{
    if a.len() == 0 {
        if b.len() > 0 {
            assert(last_value(b, b.last().0) is Some);
            assert(last_value(a, b.last().0) is None);
        }
        assert(a =~= b);
    } else if b.len() == 0 {
        assert(last_value(a, a.last().0) is Some);
        assert(last_value(b, a.last().0) is None);
    } else {
        let x = a.last().0;
        let y = b.last().0;
        assert(last_value(a, x) is Some && last_value(b, y) is Some);
        lemma_last_value(b, x);
        lemma_last_value(a, y);
        crate::text::lemma_text_order_total(x, y);
        if x != y {
            let i = choose|i: int| 0 <= i < b.len() && b[i] == (x, last_value(b, x)->0);
            let j = choose|j: int| 0 <= j < a.len() && a[j] == (y, last_value(a, y)->0);
            assert(i < b.len() - 1 && j < a.len() - 1);
            assert(crate::text::text_less(b[i].0, b[b.len() - 1].0));
            assert(crate::text::text_less(a[j].0, a[a.len() - 1].0));
        }
        let rest = a.drop_last();
        let others = b.drop_last();
        assert(names_rise(rest)) by {
            assert forall|i: int, j: int| 0 <= i < j < rest.len() implies crate::text::text_less(
                (#[trigger] rest[i]).0,
                (#[trigger] rest[j]).0,
            ) by {
                assert(rest[i] == a[i] && rest[j] == a[j]);
            }
        }
        assert(names_rise(others)) by {
            assert forall|i: int, j: int| 0 <= i < j < others.len() implies crate::text::text_less(
                (#[trigger] others[i]).0,
                (#[trigger] others[j]).0,
            ) by {
                assert(others[i] == b[i] && others[j] == b[j]);
            }
        }
        assert forall|name: Seq<char>| #[trigger] last_value(rest, name) == last_value(
            others,
            name,
        ) by {
            assert(last_value(a, name) == last_value(b, name));
            if name == x {
                lemma_last_value(rest, name);
                lemma_last_value(others, name);
                crate::text::lemma_text_order_total(x, x);
                if let Some(value) = last_value(rest, name) {
                    let i = choose|i: int| 0 <= i < rest.len() && rest[i] == (name, value);
                    assert(crate::text::text_less(a[i].0, a[a.len() - 1].0));
                }
                if let Some(value) = last_value(others, name) {
                    let i = choose|i: int| 0 <= i < others.len() && others[i] == (name, value);
                    assert(crate::text::text_less(b[i].0, b[b.len() - 1].0));
                }
            }
        }
        lemma_rising_fields_are_settled(rest, others);
        assert(last_value(a, x) == last_value(b, x));
        assert(a =~= rest.push(a.last()));
        assert(b =~= others.push(b.last()));
    }
}

/// The order in which fields are given does not matter, as long as each has a name of its own:
/// the same fields in any order have the same signature.
pub proof fn law_order_of_fields_does_not_matter(
    these: Seq<Pair>,
    those: Seq<Pair>,
    secret: Seq<char>,
)
    requires
        forall|field: Pair| #[trigger] these.contains(field) <==> those.contains(field),
        forall|i: int, j: int|
            0 <= i < j < these.len() ==> (#[trigger] these[i]).0 != (#[trigger] these[j]).0,
    ensures
        signed_order(these) == signed_order(those),
        signed_text(these, secret) == signed_text(those, secret),
        signature_of(these, secret) == signature_of(those, secret),
{
    assert forall|name: Seq<char>| #[trigger] last_value(signed_order(these), name) == last_value(
        signed_order(those),
        name,
    ) by {
        law_signature_covers_each_name_once(these, name);
        law_signature_covers_each_name_once(those, name);
        lemma_last_value(these, name);
        lemma_last_value(those, name);
        match (last_value(these, name), last_value(those, name)) {
            (Some(value), Some(other)) => {
                assert(these.contains((name, value)) && these.contains((name, other)));
                let i = choose|i: int| 0 <= i < these.len() && these[i] == (name, value);
                let j = choose|j: int| 0 <= j < these.len() && these[j] == (name, other);
                if i < j {
                    assert(these[i].0 != these[j].0);
                } else if j < i {
                    assert(these[j].0 != these[i].0);
                }
            },
            (Some(value), None) => {
                assert(those.contains((name, value)));
                let j = choose|j: int| 0 <= j < those.len() && those[j] == (name, value);
                assert(those[j].0 != name);
            },
            (None, Some(other)) => {
                assert(these.contains((name, other)));
                let i = choose|i: int| 0 <= i < these.len() && these[i] == (name, other);
                assert(these[i].0 != name);
            },
            (None, None) => {},
        }
    }
    law_signature_covers_each_name_once(these, Seq::empty());
    law_signature_covers_each_name_once(those, Seq::empty());
    lemma_rising_fields_are_settled(signed_order(these), signed_order(those));
}

/// Puts a field in its place among fields in the order of their names.
fn place(sorted: &mut Vec<(String, String)>, name: &String, value: &String)
    ensures
        pair_views(final(sorted)@) == placed(pair_views(old(sorted)@), (name@, value@)),
{
    let ghost all = pair_views(sorted@);
    let ghost field: Pair = (name@, value@);
    let mut at: usize = sorted.len();
    proof {
        assert(all.take(at as int) =~= all);
        assert(placed(all, field) =~= placed(all.take(at as int), field) + all.skip(at as int));
    }
    while at > 0 && comes_before(name.as_str(), sorted[at - 1].0.as_str())
        invariant
            at <= sorted@.len(),
            all == pair_views(sorted@),
            field == (name@, value@),
            placed(all, field) == placed(all.take(at as int), field) + all.skip(at as int),
        decreases at,
    {
        proof {
            let front = all.take(at as int);
            assert(front.last() == (sorted@[at - 1].0@, sorted@[at - 1].1@));
            crate::text::lemma_text_order_total(front.last().0, field.0);
            assert(front.drop_last() =~= all.take(at as int - 1));
            assert(placed(front, field) + all.skip(at as int) =~= placed(
                all.take(at as int - 1),
                field,
            ) + all.skip(at as int - 1));
        }
        at = at - 1;
    }
    let ghost front = all.take(at as int);
    if at > 0 {
        assert(front.last() == (sorted@[at - 1].0@, sorted@[at - 1].1@));
        proof {
            crate::text::lemma_text_order_total(front.last().0, field.0);
        }
        if sorted[at - 1].0 == *name {
            sorted.remove(at - 1);
            sorted.insert(at - 1, (name.clone(), value.clone()));
            assert(pair_views(sorted@) =~= front.drop_last().push(field) + all.skip(at as int));
            return ;
        }
    }
    sorted.insert(at, (name.clone(), value.clone()));
    assert(placed(front, field) =~= front.push(field));
    assert(pair_views(sorted@) =~= front.push(field) + all.skip(at as int));
}

/// The text whose digest signs a call.
pub fn signature_input(fields: &[(String, String)], shared_secret: &str) -> (input: String)
    ensures
        input@ == signed_text(pair_views(fields@), shared_secret@),
{
    let mut sorted: Vec<(String, String)> = Vec::new();
    let ghost all = pair_views(fields@);
    assert(pair_views(sorted@) =~= signed_order(all.take(0)));
    for i in 0..fields.len()
        invariant
            all == pair_views(fields@),
            pair_views(sorted@) == signed_order(all.take(i as int)),
    {
        assert(all.take(i as int + 1).drop_last() =~= all.take(i as int));
        let name = &fields[i].0;
        assert(all.take(i as int + 1).last() == (name@, fields@[i as int].1@));
        if !(same_text(name.as_str(), "api_sig") || same_text(name.as_str(), "callback")
            || same_text(name.as_str(), "format")) {
            place(&mut sorted, name, &fields[i].1);
        }
    }
    assert(all.take(all.len() as int) =~= all);
    let ghost ordered = pair_views(sorted@);
    let mut input = String::new();
    for i in 0..sorted.len()
        invariant
            ordered == pair_views(sorted@),
            input@ == run_together(ordered.take(i as int)),
    {
        assert(ordered.take(i as int + 1).drop_last() =~= ordered.take(i as int));
        assert(ordered.take(i as int + 1).last() == (sorted@[i as int].0@, sorted@[i as int].1@));
        input.append(sorted[i].0.as_str());
        input.append(sorted[i].1.as_str());
    }
    assert(ordered.take(ordered.len() as int) =~= ordered);
    input.append(shared_secret);
    input
}

/// The signature of a call: the digest of its fields in the order of their names and the shared
/// secret.
pub fn api_signature(fields: &[(String, String)], shared_secret: &str) -> (signature: String)
    ensures
        signature@ == signature_of(pair_views(fields@), shared_secret@),
{
    let input = signature_input(fields, shared_secret);
    to_hex(&md5_of(input.as_str()))
}

/// The fields with their signature and the format of the answer.
pub open spec fn with_signature(fields: Seq<Pair>, secret: Seq<char>) -> Seq<Pair> {
    fields.push(("api_sig"@, signature_of(fields, secret))).push(("format"@, "json"@))
}

/// Adds the signature and the format of the answer.
fn sign(fields: &mut Vec<(String, String)>, shared_secret: &str)
    ensures
        pair_views(final(fields)@) == with_signature(pair_views(old(fields)@), shared_secret@),
{
    let signature = api_signature(fields.as_slice(), shared_secret);
    push_pair(fields, "api_sig", signature);
    push_pair(fields, "format", "json".to_owned());
}

/// The fields of a call in the name of the account.
pub open spec fn account_call(
    fields: Seq<Pair>,
    config: crate::config::LastFmConfigView,
) -> Seq<Pair> {
    with_signature(
        fields.push(("api_key"@, config.api_key)).push(("sk"@, config.session_key)),
        config.shared_secret,
    )
}

/// Adds what a call in the name of the account needs.
fn authenticate(fields: &mut Vec<(String, String)>, config: &LastFmConfig)
    ensures
        pair_views(final(fields)@) == account_call(pair_views(old(fields)@), config@),
{
    push_pair(fields, "api_key", config.api_key.clone());
    push_pair(fields, "sk", config.session_key.clone());
    sign(fields, config.shared_secret.as_str());
}

/// The call that announces what is playing.
pub open spec fn now_playing_fields(
    message: crate::domain::NowPlayingMessageView,
    config: crate::config::LastFmConfigView,
) -> Seq<Pair> {
    account_call(fields_of(message).push(("method"@, "track.updateNowPlaying"@)), config)
}

/// The call that tells of a listen.
pub open spec fn scrobble_fields(
    message: crate::domain::NowPlayingMessageView,
    started_at: i64,
    config: crate::config::LastFmConfigView,
) -> Seq<Pair> {
    account_call(
        fields_of(message).push(("method"@, "track.scrobble"@)).push(
            ("timestamp"@, crate::text::signed_decimal(started_at as int)),
        ),
        config,
    )
}

/// The call that announces what is playing.
pub fn now_playing_call(message: &NowPlayingMessage, config: &LastFmConfig) -> (fields: Vec<
    (String, String),
>)
    ensures
        pair_views(fields@) == now_playing_fields(message@, config@),
{
    let mut fields = track_fields(message);
    push_pair(&mut fields, "method", "track.updateNowPlaying".to_owned());
    authenticate(&mut fields, config);
    fields
}

/// The call that tells of a listen.
pub fn scrobble_call(
    message: &NowPlayingMessage,
    started_at: i64,
    config: &LastFmConfig,
) -> (fields: Vec<(String, String)>)
    ensures
        pair_views(fields@) == scrobble_fields(message@, started_at, config@),
{
    let mut fields = track_fields(message);
    push_pair(&mut fields, "method", "track.scrobble".to_owned());
    push_pair(&mut fields, "timestamp", to_signed_decimal(started_at));
    authenticate(&mut fields, config);
    fields
}

/// What an error code of the service calls for.
pub open spec fn kind_of_code(code: i64) -> FailureKind {
    if code == 9 {
        FailureKind::Authentication
    } else if code == 11 || code == 16 {
        FailureKind::Retryable
    } else {
        FailureKind::Permanent
    }
}

/// What an answer calls for that says nothing itself: the server's own failures may pass.
pub open spec fn kind_of_status(status: HttpStatus) -> FailureKind {
    if status.server_error() {
        FailureKind::Retryable
    } else {
        FailureKind::Permanent
    }
}

/// What an answer calls for that says nothing itself.
fn status_kind(status: &HttpStatus) -> (kind: FailureKind)
    ensures
        kind == kind_of_status(*status),
{
    if status.is_server_error() {
        FailureKind::Retryable
    } else {
        FailureKind::Permanent
    }
}

/// What an answer means: it must be JSON, must not name an error, and must be granted.
pub open spec fn reply_check(
    status: HttpStatus,
    error: crate::json::JsonAtView,
    message: crate::json::JsonAtView,
) -> Result<(), crate::delivery::ApiFailureView> {
    if error is Invalid {
        Err(
            crate::delivery::ApiFailureView {
                kind: kind_of_status(status),
                message: "invalid Last.fm response (HTTP "@ + status.text@ + "): "@
                    + error->Invalid_0,
            },
        )
    } else if let Some(code) = error.signed() {
        Err(
            crate::delivery::ApiFailureView {
                kind: kind_of_code(code),
                message: "Last.fm error "@ + crate::text::signed_decimal(code as int) + ": "@
                    + match message.text() {
                    Some(text) => text,
                    None => "Last.fm API error"@,
                },
            },
        )
    } else if status.code != 200 {
        Err(
            crate::delivery::ApiFailureView {
                kind: kind_of_status(status),
                message: "Last.fm returned HTTP "@ + status.text@,
            },
        )
    } else {
        Ok(())
    }
}

/// Says what an answer means, from what stands in it at `/error` and at `/message`.
pub fn classify_reply(status: &HttpStatus, error: &JsonAt, message: &JsonAt) -> (result: Result<
    (),
    ApiFailure,
>)
    ensures
        crate::delivery::fared(result) == reply_check(*status, error@, message@),
{
    if let JsonAt::Invalid(reason) = error {
        let mut text = "invalid Last.fm response (HTTP ".to_owned();
        text.append(status.text.as_str());
        text.append("): ");
        text.append(reason.as_str());
        return Err(ApiFailure { kind: status_kind(status), message: text });
    }
    if let Some(code) = error.as_signed() {
        let kind = if code == 9 {
            FailureKind::Authentication
        } else if code == 11 || code == 16 {
            FailureKind::Retryable
        } else {
            FailureKind::Permanent
        };
        let mut text = "Last.fm error ".to_owned();
        text.append(to_signed_decimal(code).as_str());
        text.append(": ");
        match message.as_text() {
            Some(detail) => text.append(detail),
            None => text.append("Last.fm API error"),
        }
        return Err(ApiFailure { kind, message: text });
    }
    if status.code != 200 {
        let mut text = "Last.fm returned HTTP ".to_owned();
        text.append(status.text.as_str());
        return Err(ApiFailure { kind: status_kind(status), message: text });
    }
    Ok(())
}

/// What came of a call. What could not be sent or read may be tried again.
pub open spec fn call_check(exchange: Exchange) -> Result<(), crate::delivery::ApiFailureView> {
    match exchange {
        Exchange::RequestFailed(reason) => Err(
            crate::delivery::ApiFailureView {
                kind: FailureKind::Retryable,
                message: "Last.fm request failed: "@ + reason@,
            },
        ),
        Exchange::ReadFailed(reason) => Err(
            crate::delivery::ApiFailureView {
                kind: FailureKind::Retryable,
                message: "failed to read Last.fm response: "@ + reason@,
            },
        ),
        Exchange::Answered { status, body } => reply_check(
            status,
            crate::json::json_found(body@, "/error"@),
            crate::json::json_found(body@, "/message"@),
        ),
    }
}

/// Says what came of a call.
pub fn call_outcome(exchange: &Exchange) -> (result: Result<(), ApiFailure>)
    ensures
        crate::delivery::fared(result) == call_check(*exchange),
{
    match exchange {
        Exchange::RequestFailed(reason) => {
            let mut text = "Last.fm request failed: ".to_owned();
            text.append(reason.as_str());
            Err(ApiFailure { kind: FailureKind::Retryable, message: text })
        },
        Exchange::ReadFailed(reason) => {
            let mut text = "failed to read Last.fm response: ".to_owned();
            text.append(reason.as_str());
            Err(ApiFailure { kind: FailureKind::Retryable, message: text })
        },
        Exchange::Answered { status, body } => {
            let error = json_at(body.as_str(), "/error");
            let message = json_at(body.as_str(), "/message");
            classify_reply(status, &error, &message)
        },
    }
}

/// How many listens the answer accepts: a number, or a text that holds one; else none.
pub open spec fn accepted_listens(found: crate::json::JsonAtView) -> nat {
    match found {
        crate::json::JsonAtView::Number { unsigned, signed } => match unsigned {
            Some(number) => number as nat,
            None => 0,
        },
        crate::json::JsonAtView::Text(text) => match crate::text::parsed_unsigned(
            text,
            u64::MAX as nat,
        ) {
            Some(number) => number,
            None => 0,
        },
        _ => 0,
    }
}

/// What the answer to a listen means that was granted: it must accept the listen, and else says
/// why not.
pub open spec fn acceptance_check(
    accepted: crate::json::JsonAtView,
    reason: crate::json::JsonAtView,
    other_reason: crate::json::JsonAtView,
) -> Result<(), crate::delivery::ApiFailureView> {
    if accepted_listens(accepted) > 0 {
        Ok(())
    } else {
        Err(
            crate::delivery::ApiFailureView {
                kind: FailureKind::Permanent,
                message: match (if reason.present() {
                    reason
                } else {
                    other_reason
                }).text() {
                    Some(text) => text,
                    None => "Last.fm ignored the scrobble"@,
                },
            },
        )
    }
}

/// Says whether a listen was accepted, from what stands in the answer.
pub fn classify_acceptance(
    accepted: &JsonAt,
    reason: &JsonAt,
    other_reason: &JsonAt,
) -> (result: Result<(), ApiFailure>)
    ensures
        crate::delivery::fared(result) == acceptance_check(accepted@, reason@, other_reason@),
{
    let count: u64 = match accepted {
        JsonAt::Number { unsigned, .. } => match unsigned {
            Some(number) => *number,
            None => 0,
        },
        JsonAt::Text(text) => match parse_unsigned(text.as_str(), u64::MAX) {
            Some(number) => number,
            None => 0,
        },
        _ => 0,
    };
    if count > 0 {
        return Ok(());
    }
    let stated = if reason.is_present() {
        reason.as_text()
    } else {
        other_reason.as_text()
    };
    Err(
        ApiFailure {
            kind: FailureKind::Permanent,
            message: match stated {
                Some(text) => text.to_owned(),
                None => "Last.fm ignored the scrobble".to_owned(),
            },
        },
    )
}

/// What came of telling of a listen.
pub open spec fn scrobble_check(exchange: Exchange) -> Result<
    (),
    crate::delivery::ApiFailureView,
> {
    match (call_check(exchange), exchange) {
        (Ok(_), Exchange::Answered { status, body }) => acceptance_check(
            crate::json::json_found(body@, "/scrobbles/@attr/accepted"@),
            crate::json::json_found(body@, "/scrobbles/scrobble/ignoredMessage/#text"@),
            crate::json::json_found(body@, "/scrobbles/scrobble/ignoredmessage/#text"@),
        ),
        (result, _) => result,
    }
}

/// Says what came of telling of a listen.
pub fn scrobble_outcome(exchange: &Exchange) -> (result: Result<(), ApiFailure>)
    ensures
        crate::delivery::fared(result) == scrobble_check(*exchange),
{
    let called = call_outcome(exchange);
    if called.is_err() {
        return called;
    }
    match exchange {
        Exchange::Answered { body, .. } => {
            let accepted = json_at(body.as_str(), "/scrobbles/@attr/accepted");
            let reason = json_at(body.as_str(), "/scrobbles/scrobble/ignoredMessage/#text");
            let other_reason = json_at(body.as_str(), "/scrobbles/scrobble/ignoredmessage/#text");
            classify_acceptance(&accepted, &reason, &other_reason)
        },
        _ => called,
    }
}

/// The settings do not allow for any call; the reason, as the account's failure.
pub open spec fn settings_check(config: crate::config::LastFmConfigView) -> Result<
    (),
    crate::delivery::ApiFailureView,
> {
    match crate::config::lastfm_check(config) {
        Ok(_) => Ok(()),
        Err(error) => Err(
            crate::delivery::ApiFailureView {
                kind: FailureKind::Permanent,
                message: error.message(),
            },
        ),
    }
}

/// Whether the settings allow for calls in the name of the account.
pub fn check_settings(config: &LastFmConfig) -> (result: Result<(), ApiFailure>)
    ensures
        crate::delivery::fared(result) == settings_check(config@),
{
    match validate_lastfm(config) {
        Ok(_) => Ok(()),
        Err(error) => Err(ApiFailure { kind: FailureKind::Permanent, message: error.to_text() }),
    }
}

/// The call that an action makes.
pub open spec fn fields_for(
    action: crate::playback::ScrobbleActionView,
    config: crate::config::LastFmConfigView,
) -> Seq<Pair> {
    match action {
        crate::playback::ScrobbleActionView::NowPlaying(message) => now_playing_fields(
            message,
            config,
        ),
        crate::playback::ScrobbleActionView::Scrobble { message, started_at } => scrobble_fields(
            message,
            started_at,
            config,
        ),
    }
}

/// The call that an action makes.
pub fn call_for(action: &ScrobbleAction, config: &LastFmConfig) -> (fields: Vec<(String, String)>)
    ensures
        pair_views(fields@) == fields_for(action@, config@),
{
    match action {
        ScrobbleAction::NowPlaying(message) => now_playing_call(message, config),
        ScrobbleAction::Scrobble { message, started_at } => scrobble_call(
            message,
            *started_at,
            config,
        ),
    }
}

/// Over a whole course of events the calls are those of the requests, in their order, and a listen
/// that is told again is told with the very same fields.
pub proof fn law_repeated_calls_are_the_same(
    events: Seq<crate::submissions::SubmissionEvent>,
    config: crate::config::LastFmConfigView,
    at: int,
)
    requires
        crate::submissions::is_course(events),
        0 <= at < calls_made(events, config).len() - 1,
        crate::submissions::requests(events)[at].next is After,
    ensures
        calls_made(events, config)[at + 1] == calls_made(events, config)[at],
{
    crate::submissions::law_repeated_requests_are_the_same(events, at);
}

/// The calls that are made in a course of events.
pub open spec fn calls_made(
    events: Seq<crate::submissions::SubmissionEvent>,
    config: crate::config::LastFmConfigView,
) -> Seq<Seq<Pair>> {
    crate::submissions::requests(events).map_values(
        |request: crate::submissions::Request| fields_for(request.action, config),
    )
}

/// What came of the call that an action makes: a listen must be accepted too.
pub open spec fn action_check(
    action: crate::playback::ScrobbleActionView,
    exchange: Exchange,
) -> Result<(), crate::delivery::ApiFailureView> {
    match action {
        crate::playback::ScrobbleActionView::NowPlaying(_) => call_check(exchange),
        crate::playback::ScrobbleActionView::Scrobble { .. } => scrobble_check(exchange),
    }
}

/// Says what came of the call that an action makes.
pub fn outcome_for(action: &ScrobbleAction, exchange: &Exchange) -> (result: Result<
    (),
    ApiFailure,
>)
    ensures
        crate::delivery::fared(result) == action_check(action@, *exchange),
{
    match action {
        ScrobbleAction::NowPlaying(_) => call_outcome(exchange),
        ScrobbleAction::Scrobble { .. } => scrobble_outcome(exchange),
    }
}

/// What is said of the account once the action succeeded.
pub open spec fn success_text(action: crate::playback::ScrobbleActionView) -> Seq<char> {
    if action is Scrobble {
        "scrobbled"@
    } else {
        "now playing sent"@
    }
}

impl LastFmStatus {
    /// How the account stands before anything was sent.
    pub fn waiting() -> (status: Self)
        ensures
            status@ == crate::delivery::AccountView::waiting(),
    {
        LastFmStatus { authenticated: false, detail: "waiting for a track".to_owned() }
    }

    /// Takes note that the settings do not allow for any call.
    pub fn reject(&mut self, failure: &ApiFailure)
        ensures
            final(self).authenticated == old(self).authenticated,
            final(self).detail@ == failure.message@,
    {
        self.detail = failure.message.clone();
    }

    /// Begins to submit, where the settings allow for it; where they do not, there is nothing to
    /// submit with, and the account says why.
    pub fn open(&mut self, config: &LastFmConfig) -> (submissions: Option<Submissions>)
        ensures
            match submissions {
                Some(submissions) => settings_check(config@) is Ok && submissions@
                    == crate::submissions::SubmissionsView::empty() && final(self)@ == old(self)@,
                None => settings_check(config@) is Err && final(self)@ == (
                crate::delivery::AccountView {
                    detail: settings_check(config@)->Err_0.message,
                    ..old(self)@
                }),
            },
    {
        match check_settings(config) {
            Ok(_) => Some(Submissions::new()),
            Err(failure) => {
                self.reject(&failure);
                None
            },
        }
    }

    /// Takes note of how a request for the first action that waits fared, and says what follows.
    pub fn note(
        &mut self,
        submissions: &mut Submissions,
        result: &Result<(), ApiFailure>,
    ) -> (next: NextAttempt)
        requires
            old(submissions)@.queue.len() > 0,
        ensures
            next == old(submissions)@.next(crate::delivery::fared(*result)),
            final(submissions)@ == old(submissions)@.tried(crate::delivery::fared(*result)),
            final(self)@ == old(self)@.after_attempt(
                old(submissions)@.queue[0] is Scrobble,
                crate::delivery::fared(*result),
                success_text(old(submissions)@.queue[0]),
                "retrying scrobble: "@,
            ),
    {
        let (repeated, success) = match submissions.current() {
            Some(ScrobbleAction::Scrobble { .. }) => (true, "scrobbled"),
            _ => (false, "now playing sent"),
        };
        let next = note_attempt(
            &mut self.authenticated,
            &mut self.detail,
            &mut submissions.attempts,
            repeated,
            result,
            success,
            "retrying scrobble: ",
        );
        submissions.conclude(next);
        next
    }
}

/// Why no account could be connected.
#[derive(Debug)]
pub enum AuthorizationError {
    MissingCredentials,
    Call(ApiFailure),
    IncompleteToken,
    /// The page on which the user approves has no address; the reason.
    Address(String),
    IncompleteSession,
    MissingAccountName,
    MissingSessionKey,
}

/// The contents of an [`AuthorizationError`].
pub ghost enum AuthorizationErrorView {
    MissingCredentials,
    Call(crate::delivery::ApiFailureView),
    IncompleteToken,
    Address(Seq<char>),
    IncompleteSession,
    MissingAccountName,
    MissingSessionKey,
}

impl View for AuthorizationError {
    type V = AuthorizationErrorView;

    open spec fn view(&self) -> AuthorizationErrorView {
        match self {
            AuthorizationError::MissingCredentials => AuthorizationErrorView::MissingCredentials,
            AuthorizationError::Call(failure) => AuthorizationErrorView::Call(failure@),
            AuthorizationError::IncompleteToken => AuthorizationErrorView::IncompleteToken,
            AuthorizationError::Address(reason) => AuthorizationErrorView::Address(reason@),
            AuthorizationError::IncompleteSession => AuthorizationErrorView::IncompleteSession,
            AuthorizationError::MissingAccountName => AuthorizationErrorView::MissingAccountName,
            AuthorizationError::MissingSessionKey => AuthorizationErrorView::MissingSessionKey,
        }
    }
}

impl AuthorizationErrorView {
    /// The error in words.
    pub open spec fn message(self) -> Seq<char> {
        match self {
            AuthorizationErrorView::MissingCredentials =>
                "enter the Last.fm API key and shared secret first"@,
            AuthorizationErrorView::Call(failure) => failure.message,
            AuthorizationErrorView::IncompleteToken => "Last.fm token response was incomplete"@,
            AuthorizationErrorView::Address(reason) => reason,
            AuthorizationErrorView::IncompleteSession => "Last.fm session response was incomplete"@,
            AuthorizationErrorView::MissingAccountName =>
                "Last.fm session response did not include an account name"@,
            AuthorizationErrorView::MissingSessionKey =>
                "Last.fm session response did not include a session key"@,
        }
    }
}

impl AuthorizationError {
    /// The error in words.
    pub fn to_text(&self) -> (text: String)
        ensures
            text@ == self@.message(),
    {
        match self {
            AuthorizationError::MissingCredentials =>
                "enter the Last.fm API key and shared secret first".to_owned(),
            AuthorizationError::Call(failure) => failure.message.clone(),
            AuthorizationError::IncompleteToken => "Last.fm token response was incomplete".to_owned(),
            AuthorizationError::Address(reason) => reason.clone(),
            AuthorizationError::IncompleteSession =>
                "Last.fm session response was incomplete".to_owned(),
            AuthorizationError::MissingAccountName =>
                "Last.fm session response did not include an account name".to_owned(),
            AuthorizationError::MissingSessionKey =>
                "Last.fm session response did not include a session key".to_owned(),
        }
    }
}

/// The call that asks for a token.
pub open spec fn token_fields(config: crate::config::LastFmConfigView) -> Seq<Pair> {
    with_signature(
        seq![("api_key"@, config.api_key), ("method"@, "auth.getToken"@)],
        config.shared_secret,
    )
}

/// The call that asks for a token, where the application's credentials are there.
pub open spec fn token_request(config: crate::config::LastFmConfigView) -> Result<
    Seq<Pair>,
    AuthorizationErrorView,
> {
    if crate::text::is_blank(config.api_key) || crate::text::is_blank(config.shared_secret) {
        Err(AuthorizationErrorView::MissingCredentials)
    } else {
        Ok(token_fields(config))
    }
}

/// A token is asked for exactly when both the key and the secret of the application are filled in.
pub proof fn law_tokens_need_credentials(config: crate::config::LastFmConfigView)
    ensures
        token_request(config) is Ok <==> crate::config::is_filled_in(config.api_key)
            && crate::config::is_filled_in(config.shared_secret),
        token_request(config) is Ok ==> token_request(config)->Ok_0 == token_fields(config),
        token_request(config) is Err ==> token_request(config)->Err_0
            == AuthorizationErrorView::MissingCredentials,
{
    crate::text::law_blank_means_white_space(config.api_key);
    crate::text::law_blank_means_white_space(config.shared_secret);
}

/// The call that asks for a token; the application's credentials must be there.
pub fn token_call(config: &LastFmConfig) -> (call: Result<
    Vec<(String, String)>,
    AuthorizationError,
>)
    ensures
        match call {
            Ok(fields) => token_request(config@) == Ok::<Seq<Pair>, AuthorizationErrorView>(
                pair_views(fields@),
            ),
            Err(error) => token_request(config@) == Err::<Seq<Pair>, AuthorizationErrorView>(
                error@,
            ),
        },
        match call {
            Ok(fields) => !crate::text::is_blank(config.api_key@) && !crate::text::is_blank(
                config.shared_secret@,
            ) && pair_views(fields@) == token_fields(config@),
            Err(error) => (crate::text::is_blank(config.api_key@) || crate::text::is_blank(
                config.shared_secret@,
            )) && error@ == AuthorizationErrorView::MissingCredentials,
        },
{
    if config.api_key.as_str().trim().is_empty() || config.shared_secret.as_str().trim().is_empty() {
        return Err(AuthorizationError::MissingCredentials);
    }
    let mut fields: Vec<(String, String)> = Vec::new();
    push_pair(&mut fields, "api_key", config.api_key.clone());
    push_pair(&mut fields, "method", "auth.getToken".to_owned());
    assert(pair_views(fields@) =~= seq![
        ("api_key"@, config.api_key@),
        ("method"@, "auth.getToken"@),
    ]);
    sign(&mut fields, config.shared_secret.as_str());
    Ok(fields)
}

/// The call that asks for a session.
pub open spec fn session_fields(
    config: crate::config::LastFmConfigView,
    token: Seq<char>,
) -> Seq<Pair> {
    with_signature(
        seq![("api_key"@, config.api_key), ("method"@, "auth.getSession"@), ("token"@, token)],
        config.shared_secret,
    )
}

/// The call that asks for a session with a token that the user approved of.
pub fn session_call(config: &LastFmConfig, token: &str) -> (fields: Vec<(String, String)>)
    ensures
        pair_views(fields@) == session_fields(config@, token@),
{
    let mut fields: Vec<(String, String)> = Vec::new();
    push_pair(&mut fields, "api_key", config.api_key.clone());
    push_pair(&mut fields, "method", "auth.getSession".to_owned());
    push_pair(&mut fields, "token", token.to_owned());
    assert(pair_views(fields@) =~= seq![
        ("api_key"@, config.api_key@),
        ("method"@, "auth.getSession"@),
        ("token"@, token@),
    ]);
    sign(&mut fields, config.shared_secret.as_str());
    fields
}

/// The address that `url` makes of one with more pairs in its query, or why it has none.
pub uninterp spec fn url_with_query(
    address: Seq<char>,
    pairs: Seq<(Seq<char>, Seq<char>)>,
) -> Result<Seq<char>, Seq<char>>;

/// The outcome of adding to an address.
pub open spec fn address_outcome(outcome: Result<String, String>) -> Result<Seq<char>, Seq<char>> {
    match outcome {
        Ok(address) => Ok(address@),
        Err(reason) => Err(reason@),
    }
}

/// Parses an address with `url::Url::parse` and adds pairs to its query with
/// `url::Url::query_pairs_mut` and its `extend_pairs`. The outcome depends on the address and the
/// pairs alone; how they are encoded, the URL standard says and is not restated here.
#[verifier::external_body]
fn append_query(address: &str, pairs: &Vec<(String, String)>) -> (outcome: Result<String, String>)
    ensures
        address_outcome(outcome) == url_with_query(address@, pair_views(pairs@)),
{
    match url::Url::parse(address) {
        Ok(mut url) => {
            url.query_pairs_mut().extend_pairs(pairs);
            Ok(url.into())
        },
        Err(error) => Err(error.to_string()),
    }
}

/// The page on which the user approves of a token.
pub open spec fn approval_page(api_key: Seq<char>, token: Seq<char>) -> Result<
    Seq<char>,
    Seq<char>,
> {
    url_with_query(
        AUTH_ENDPOINT@,
        seq![("api_key"@, crate::text::trimmed(api_key)), ("token"@, token)],
    )
}

/// A token that an answer names.
pub open spec fn token_named(found: crate::json::JsonAtView) -> Option<Seq<char>> {
    match found.text() {
        Some(token) => if token.len() > 0 {
            Some(token)
        } else {
            None
        },
        None => None,
    }
}

/// The outcome of asking for a token.
pub open spec fn authorization_outcome(
    outcome: Result<Authorization, AuthorizationError>,
) -> Result<(Seq<char>, Seq<char>), AuthorizationErrorView> {
    match outcome {
        Ok(authorization) => Ok(authorization@),
        Err(error) => Err(error@),
    }
}

/// The outcome of asking for a session.
pub open spec fn session_outcome(
    outcome: Result<AuthorizedSession, AuthorizationError>,
) -> Result<(Seq<char>, Seq<char>), AuthorizationErrorView> {
    match outcome {
        Ok(session) => Ok(session@),
        Err(error) => Err(error@),
    }
}

/// The request for approval that a token makes, with the page on which the user approves of it.
pub open spec fn approval_for(
    token: crate::json::JsonAtView,
    page: Result<Seq<char>, Seq<char>>,
) -> Result<(Seq<char>, Seq<char>), AuthorizationErrorView> {
    match token_named(token) {
        Some(token) => match page {
            Ok(url) => Ok((token, url)),
            Err(reason) => Err(AuthorizationErrorView::Address(reason)),
        },
        None => Err(AuthorizationErrorView::IncompleteToken),
    }
}

/// The token that stands in an answer, if one does.
pub fn token_in(found: &JsonAt) -> (token: Option<String>)
    ensures
        crate::text::opt_text(token) == token_named(found@),
{
    match found.as_text() {
        Some(text) => if text.is_empty() {
            None
        } else {
            Some(text.to_owned())
        },
        None => None,
    }
}

/// The request for approval that an answer makes.
pub open spec fn authorization_check(
    config: crate::config::LastFmConfigView,
    exchange: Exchange,
) -> Result<(Seq<char>, Seq<char>), AuthorizationErrorView> {
    match (call_check(exchange), exchange) {
        (Ok(_), Exchange::Answered { status, body }) => {
            let token = crate::json::json_found(body@, "/token"@);
            approval_for(token, approval_page(config.api_key, crate::text::or_empty(token_named(token))))
        },
        (Err(failure), _) => Err(AuthorizationErrorView::Call(failure)),
        (Ok(_), _) => Err(AuthorizationErrorView::IncompleteToken),
    }
}

/// The request for approval that an answer makes.
pub fn begin_authorization(config: &LastFmConfig, exchange: &Exchange) -> (outcome: Result<
    Authorization,
    AuthorizationError,
>)
    ensures
        authorization_outcome(outcome) == authorization_check(config@, *exchange),
{
    if let Err(failure) = call_outcome(exchange) {
        return Err(AuthorizationError::Call(failure));
    }
    match exchange {
        Exchange::Answered { body, .. } => {
            let found = json_at(body.as_str(), "/token");
            match token_in(&found) {
                Some(token) => {
                    let mut pairs: Vec<(String, String)> = Vec::new();
                    push_pair(&mut pairs, "api_key", config.api_key.as_str().trim().to_owned());
                    push_pair(&mut pairs, "token", token.clone());
                    assert(pair_views(pairs@) =~= seq![
                        ("api_key"@, crate::text::trimmed(config.api_key@)),
                        ("token"@, token@),
                    ]);
                    match append_query(AUTH_ENDPOINT, &pairs) {
                        Ok(url) => Ok(Authorization { token, url }),
                        Err(reason) => Err(AuthorizationError::Address(reason)),
                    }
                },
                None => Err(AuthorizationError::IncompleteToken),
            }
        },
        _ => Err(AuthorizationError::IncompleteToken),
    }
}

/// The session that an answer names: it must have an account name and a key.
pub open spec fn session_named(
    session: crate::json::JsonAtView,
    name: crate::json::JsonAtView,
    key: crate::json::JsonAtView,
) -> Result<(Seq<char>, Seq<char>), AuthorizationErrorView> {
    if !session.present() {
        Err(AuthorizationErrorView::IncompleteSession)
    } else if name.text() is None {
        Err(AuthorizationErrorView::MissingAccountName)
    } else if key.text() is None {
        Err(AuthorizationErrorView::MissingSessionKey)
    } else {
        Ok((name.text()->0, key.text()->0))
    }
}

/// The session that stands in an answer.
pub fn session_in(session: &JsonAt, name: &JsonAt, key: &JsonAt) -> (outcome: Result<
    AuthorizedSession,
    AuthorizationError,
>)
    ensures
        session_outcome(outcome) == session_named(session@, name@, key@),
{
    if !session.is_present() {
        return Err(AuthorizationError::IncompleteSession);
    }
    match name.as_text() {
        Some(username) => match key.as_text() {
            Some(session_key) => Ok(
                AuthorizedSession {
                    username: username.to_owned(),
                    session_key: session_key.to_owned(),
                },
            ),
            None => Err(AuthorizationError::MissingSessionKey),
        },
        None => Err(AuthorizationError::MissingAccountName),
    }
}

/// The session that an answer names.
pub open spec fn session_check(exchange: Exchange) -> Result<
    (Seq<char>, Seq<char>),
    AuthorizationErrorView,
> {
    match (call_check(exchange), exchange) {
        (Ok(_), Exchange::Answered { status, body }) => session_named(
            crate::json::json_found(body@, "/session"@),
            crate::json::json_found(body@, "/session/name"@),
            crate::json::json_found(body@, "/session/key"@),
        ),
        (Err(failure), _) => Err(AuthorizationErrorView::Call(failure)),
        (Ok(_), _) => Err(AuthorizationErrorView::IncompleteSession),
    }
}

/// The session that an answer names, once the user has approved.
pub fn complete_authorization(exchange: &Exchange) -> (outcome: Result<
    AuthorizedSession,
    AuthorizationError,
>)
    ensures
        session_outcome(outcome) == session_check(*exchange),
{
    if let Err(failure) = call_outcome(exchange) {
        return Err(AuthorizationError::Call(failure));
    }
    match exchange {
        Exchange::Answered { body, .. } => {
            let session = json_at(body.as_str(), "/session");
            let name = json_at(body.as_str(), "/session/name");
            let key = json_at(body.as_str(), "/session/key");
            session_in(&session, &name, &key)
        },
        _ => Err(AuthorizationError::IncompleteSession),
    }
}

/// What a call says of a track, read by name: the first artist alone, the title, and the album, the
/// duration in whole seconds and the identifier of the recording exactly where they are known.
pub proof fn law_track_fields_read_back(message: crate::domain::NowPlayingMessageView)
    ensures
        ({
            let fields = fields_of(message);
            &&& message.artists.len() > 0 ==> last_value(fields, "artist"@) == Some(
                message.artists[0],
            )
            &&& message.artists.len() == 0 ==> last_value(fields, "artist"@) == Some(
                Seq::<char>::empty(),
            )
            &&& last_value(fields, "track"@) == Some(message.track)
            &&& last_value(fields, "album"@) == (if exists|i: int|
                0 <= i < message.album.len() && !crate::text::is_white_space(
                    #[trigger] message.album[i],
                ) {
                Some(message.album)
            } else {
                None
            })
            &&& last_value(fields, "duration"@) == (match message.duration_ms {
                Some(duration) => Some(crate::text::decimal((duration / 1000) as nat)),
                None => None,
            })
            &&& last_value(fields, "mbid"@) == message.verification.recording_id
        }),
{
    lemma_names_differ();
    crate::text::law_blank_means_white_space(message.album);
    let fields = fields_of(message);
    reveal_with_fuel(last_value, 6);
    let named = seq![
        (
            "artist"@,
            if message.artists.len() == 0 {
                Seq::<char>::empty()
            } else {
                message.artists[0]
            },
        ),
        ("track"@, message.track),
    ];
    let with_album = if crate::text::is_blank(message.album) {
        named
    } else {
        named.push(("album"@, message.album))
    };
    let with_duration = match message.duration_ms {
        Some(duration) => with_album.push(
            ("duration"@, crate::text::decimal(duration as nat / 1000)),
        ),
        None => with_album,
    };
    assert(named.drop_last() =~= seq![named[0]]);
    assert(named.drop_last().drop_last() =~= Seq::<Pair>::empty());
    lemma_pushed(named, ("album"@, message.album));
    if let Some(duration) = message.duration_ms {
        lemma_pushed(with_album, ("duration"@, crate::text::decimal(duration as nat / 1000)));
    }
    if let Some(id) = message.verification.recording_id {
        lemma_pushed(with_duration, ("mbid"@, id));
    }
}

proof fn lemma_pushed(fields: Seq<Pair>, field: Pair)
    ensures
        forall|name: Seq<char>| #[trigger]
            last_value(fields.push(field), name) == (if name == field.0 {
                Some(field.1)
            } else {
                last_value(fields, name)
            }),
{
    assert(fields.push(field).drop_last() =~= fields);
}

proof fn lemma_names_differ()
    ensures
        "artist"@ != "track"@ && "artist"@ != "album"@ && "artist"@ != "duration"@ && "artist"@
            != "mbid"@,
        "track"@ != "album"@ && "track"@ != "duration"@ && "track"@ != "mbid"@,
        "album"@ != "duration"@ && "album"@ != "mbid"@ && "duration"@ != "mbid"@,
        "method"@ != "artist"@ && "method"@ != "track"@ && "method"@ != "album"@ && "method"@
            != "duration"@ && "method"@ != "mbid"@,
        "timestamp"@ != "artist"@ && "timestamp"@ != "track"@ && "timestamp"@ != "album"@
            && "timestamp"@ != "duration"@ && "timestamp"@ != "mbid"@ && "timestamp"@ != "method"@,
        "api_key"@ != "artist"@ && "api_key"@ != "track"@ && "api_key"@ != "album"@ && "api_key"@
            != "duration"@ && "api_key"@ != "mbid"@ && "api_key"@ != "method"@ && "api_key"@
            != "timestamp"@ && "api_key"@ != "token"@,
        "sk"@ != "artist"@ && "sk"@ != "track"@ && "sk"@ != "album"@ && "sk"@ != "duration"@
            && "sk"@ != "mbid"@ && "sk"@ != "method"@ && "sk"@ != "timestamp"@ && "sk"@
            != "api_key"@,
        "api_sig"@ != "artist"@ && "api_sig"@ != "track"@ && "api_sig"@ != "album"@ && "api_sig"@
            != "duration"@ && "api_sig"@ != "mbid"@ && "api_sig"@ != "method"@ && "api_sig"@
            != "timestamp"@ && "api_sig"@ != "api_key"@ && "api_sig"@ != "sk"@ && "api_sig"@
            != "token"@,
        "format"@ != "artist"@ && "format"@ != "track"@ && "format"@ != "album"@ && "format"@
            != "duration"@ && "format"@ != "mbid"@ && "format"@ != "method"@ && "format"@
            != "timestamp"@ && "format"@ != "api_key"@ && "format"@ != "sk"@ && "format"@
            != "api_sig"@ && "format"@ != "token"@,
        "token"@ != "method"@,
{
    reveal_strlit("artist");
    reveal_strlit("track");
    reveal_strlit("album");
    reveal_strlit("duration");
    reveal_strlit("mbid");
    reveal_strlit("method");
    reveal_strlit("timestamp");
    reveal_strlit("api_key");
    reveal_strlit("sk");
    reveal_strlit("api_sig");
    reveal_strlit("format");
    reveal_strlit("token");
    assert("artist"@.len() == 6 && "track"@.len() == 5 && "album"@.len() == 5);
    assert("duration"@.len() == 8 && "mbid"@.len() == 4 && "method"@.len() == 6);
    assert("timestamp"@.len() == 9 && "api_key"@.len() == 7 && "sk"@.len() == 2);
    assert("api_sig"@.len() == 7 && "format"@.len() == 6 && "token"@.len() == 5);
    assert("track"@[0] == 't' && "album"@[0] == 'a' && "token"@[1] == 'o' && "track"@[1] == 'r');
    assert("artist"@[0] == 'a' && "method"@[0] == 'm' && "format"@[0] == 'f');
    assert("api_key"@[4] == 'k' && "api_sig"@[4] == 's');
}

/// A call in the name of the account, read by name: it says all that is known of the track, which
/// method it calls, who calls, and in which session; a listen says in addition when its playback
/// began, and an announcement does not. Each is signed over just these fields with the shared
/// secret, which itself is not sent.
pub proof fn law_calls_read_back(
    message: crate::domain::NowPlayingMessageView,
    started_at: i64,
    config: crate::config::LastFmConfigView,
    name: Seq<char>,
)
    ensures
        ({
            let announcement = now_playing_fields(message, config);
            let listen = scrobble_fields(message, started_at, config);
            &&& last_value(announcement, "method"@) == Some("track.updateNowPlaying"@)
            &&& last_value(listen, "method"@) == Some("track.scrobble"@)
            &&& last_value(listen, "timestamp"@) == Some(
                crate::text::signed_decimal(started_at as int),
            )
            &&& last_value(announcement, "timestamp"@) is None
            &&& last_value(announcement, "api_key"@) == Some(config.api_key)
            &&& last_value(listen, "api_key"@) == Some(config.api_key)
            &&& last_value(announcement, "sk"@) == Some(config.session_key)
            &&& last_value(listen, "sk"@) == Some(config.session_key)
            &&& last_value(announcement, "format"@) == Some("json"@)
            &&& last_value(listen, "format"@) == Some("json"@)
            &&& last_value(announcement, "api_sig"@) == Some(
                signature_of(announcement.take(announcement.len() - 2), config.shared_secret),
            )
            &&& last_value(listen, "api_sig"@) == Some(
                signature_of(listen.take(listen.len() - 2), config.shared_secret),
            )
            &&& name == "artist"@ || name == "track"@ || name == "album"@ || name == "duration"@
                || name == "mbid"@ ==> last_value(announcement, name) == last_value(
                fields_of(message),
                name,
            ) && last_value(listen, name) == last_value(fields_of(message), name)
        }),
{
    lemma_names_differ();
    let track = fields_of(message);
    let a1 = track.push(("method"@, "track.updateNowPlaying"@));
    let s0 = track.push(("method"@, "track.scrobble"@));
    let moment = ("timestamp"@, crate::text::signed_decimal(started_at as int));
    let s1 = s0.push(moment);
    lemma_pushed(track, ("method"@, "track.updateNowPlaying"@));
    lemma_pushed(track, ("method"@, "track.scrobble"@));
    lemma_pushed(s0, moment);
    lemma_account_call(a1, config);
    lemma_account_call(s1, config);
    lemma_track_has_no_moment(message);
}

proof fn lemma_account_call(fields: Seq<Pair>, config: crate::config::LastFmConfigView)
    ensures
        ({
            let call = account_call(fields, config);
            &&& last_value(call, "api_key"@) == Some(config.api_key)
            &&& last_value(call, "sk"@) == Some(config.session_key)
            &&& last_value(call, "format"@) == Some("json"@)
            &&& last_value(call, "api_sig"@) == Some(
                signature_of(call.take(call.len() - 2), config.shared_secret),
            )
            &&& forall|name: Seq<char>|
                name != "api_key"@ && name != "sk"@ && name != "api_sig"@ && name != "format"@
                    ==> #[trigger] last_value(call, name) == last_value(fields, name)
        }),
{
    lemma_names_differ();
    let one = fields.push(("api_key"@, config.api_key));
    let two = one.push(("sk"@, config.session_key));
    let signature = ("api_sig"@, signature_of(two, config.shared_secret));
    let three = two.push(signature);
    let four = three.push(("format"@, "json"@));
    lemma_pushed(fields, ("api_key"@, config.api_key));
    lemma_pushed(one, ("sk"@, config.session_key));
    lemma_pushed(two, signature);
    lemma_pushed(three, ("format"@, "json"@));
    assert(four =~= account_call(fields, config));
    assert(four.take(four.len() - 2) =~= two);
    assert forall|name: Seq<char>|
        name != "api_key"@ && name != "sk"@ && name != "api_sig"@ && name
            != "format"@ implies #[trigger] last_value(four, name) == last_value(fields, name) by {
        assert(last_value(four, name) == last_value(three, name));
        assert(last_value(three, name) == last_value(two, name));
        assert(last_value(two, name) == last_value(one, name));
    }
}

proof fn lemma_track_has_no_moment(message: crate::domain::NowPlayingMessageView)
    ensures
        last_value(fields_of(message), "timestamp"@) is None,
{
    lemma_names_differ();
    reveal_with_fuel(last_value, 6);
    let named = seq![
        (
            "artist"@,
            if message.artists.len() == 0 {
                Seq::<char>::empty()
            } else {
                message.artists[0]
            },
        ),
        ("track"@, message.track),
    ];
    assert(named.drop_last() =~= seq![named[0]]);
    assert(named.drop_last().drop_last() =~= Seq::<Pair>::empty());
    let with_album = if crate::text::is_blank(message.album) {
        named
    } else {
        named.push(("album"@, message.album))
    };
    lemma_pushed(named, ("album"@, message.album));
    let with_duration = match message.duration_ms {
        Some(duration) => with_album.push(
            ("duration"@, crate::text::decimal(duration as nat / 1000)),
        ),
        None => with_album,
    };
    if let Some(duration) = message.duration_ms {
        lemma_pushed(with_album, ("duration"@, crate::text::decimal(duration as nat / 1000)));
    }
    if let Some(id) = message.verification.recording_id {
        lemma_pushed(with_duration, ("mbid"@, id));
    }
}

/// A token and a session are asked for with the key of the application, under their own methods;
/// the session with the token that was approved. Both are signed with the shared secret.
pub proof fn law_authorization_calls_read_back(
    config: crate::config::LastFmConfigView,
    token: Seq<char>,
)
    ensures
        ({
            let first = token_fields(config);
            let second = session_fields(config, token);
            &&& last_value(first, "api_key"@) == Some(config.api_key)
            &&& last_value(second, "api_key"@) == Some(config.api_key)
            &&& last_value(first, "method"@) == Some("auth.getToken"@)
            &&& last_value(second, "method"@) == Some("auth.getSession"@)
            &&& last_value(second, "token"@) == Some(token)
            &&& last_value(first, "format"@) == Some("json"@)
            &&& last_value(second, "format"@) == Some("json"@)
            &&& last_value(first, "api_sig"@) == Some(
                signature_of(first.take(first.len() - 2), config.shared_secret),
            )
            &&& last_value(second, "api_sig"@) == Some(
                signature_of(second.take(second.len() - 2), config.shared_secret),
            )
        }),
{
    lemma_names_differ();
    let empty = Seq::<Pair>::empty();
    let key = ("api_key"@, config.api_key);
    let a = empty.push(key);
    let first = a.push(("method"@, "auth.getToken"@));
    let b = a.push(("method"@, "auth.getSession"@));
    let second = b.push(("token"@, token));
    lemma_pushed(empty, key);
    lemma_pushed(a, ("method"@, "auth.getToken"@));
    lemma_pushed(a, ("method"@, "auth.getSession"@));
    lemma_pushed(b, ("token"@, token));
    assert(first =~= seq![key, ("method"@, "auth.getToken"@)]);
    assert(second =~= seq![key, ("method"@, "auth.getSession"@), ("token"@, token)]);
    lemma_signed_call(first, config.shared_secret);
    lemma_signed_call(second, config.shared_secret);
}

proof fn lemma_signed_call(fields: Seq<Pair>, secret: Seq<char>)
    ensures
        ({
            let call = with_signature(fields, secret);
            &&& last_value(call, "format"@) == Some("json"@)
            &&& last_value(call, "api_sig"@) == Some(
                signature_of(call.take(call.len() - 2), secret),
            )
            &&& forall|name: Seq<char>|
                name != "api_sig"@ && name != "format"@ ==> #[trigger] last_value(call, name)
                    == last_value(fields, name)
        }),
{
    lemma_names_differ();
    let signature = ("api_sig"@, signature_of(fields, secret));
    let one = fields.push(signature);
    let two = one.push(("format"@, "json"@));
    lemma_pushed(fields, signature);
    lemma_pushed(one, ("format"@, "json"@));
    assert(two.take(two.len() - 2) =~= fields);
    assert forall|name: Seq<char>|
        name != "api_sig"@ && name != "format"@ implies #[trigger] last_value(two, name)
        == last_value(fields, name) by {
        assert(last_value(two, name) == last_value(one, name));
    }
}

/// What is signed ends with the secret, and begins with the fields, each name with its value.
pub proof fn law_the_secret_is_signed(fields: Seq<Pair>, secret: Seq<char>, field: Pair)
    ensures
        signed_text(fields, secret) == run_together(signed_order(fields)) + secret,
        run_together(fields.push(field)) == run_together(fields) + field.0 + field.1,
        run_together(Seq::empty()) == Seq::<char>::empty(),
        signature_of(fields, secret) == crate::digest::hex(
            crate::digest::md5_digest(
                vstd::utf8::encode_utf8(run_together(signed_order(fields)) + secret),
            ),
        ),
{
    assert(fields.push(field).drop_last() =~= fields);
}

/// What an answer calls for. Of the service's own errors, nine asks for another authorization,
/// eleven and sixteen may pass, and no other helps; without an error a refusal may pass where the
/// server itself failed. An answer is good exactly when it is JSON, names no error, and has the
/// status two hundred.
pub proof fn law_answers_are_told_apart(
    status: HttpStatus,
    error: crate::json::JsonAtView,
    message: crate::json::JsonAtView,
)
    ensures
        reply_check(status, error, message) is Ok <==> !(error is Invalid) && error.signed() is None
            && status.code == 200,
        match reply_check(status, error, message) {
            Ok(_) => true,
            Err(failure) => {
                if error is Number && error.signed() is Some {
                    let code = error.signed()->0;
                    &&& failure.kind == FailureKind::Authentication <==> code == 9
                    &&& failure.kind == FailureKind::Retryable <==> code == 11 || code == 16
                    &&& message is Text ==> failure.message == "Last.fm error "@
                        + crate::text::signed_decimal(code as int) + ": "@ + message->Text_0
                } else {
                    &&& failure.kind == FailureKind::Retryable <==> status.code as int / 100 == 5
                    &&& failure.kind != FailureKind::Authentication
                }
            },
        },
{
}

/// A listen is accepted exactly when the call was good and the answer counts at least one accepted
/// listen, as a number or in a text; otherwise it is refused for good, in the service's own words
/// where it has some.
pub proof fn law_listens_must_be_accepted(
    accepted: crate::json::JsonAtView,
    reason: crate::json::JsonAtView,
    other_reason: crate::json::JsonAtView,
)
    ensures
        ({
            let counted = match accepted {
                crate::json::JsonAtView::Number { unsigned, signed } => unsigned is Some
                    && unsigned->0 > 0,
                crate::json::JsonAtView::Text(text) => crate::text::parsed_unsigned(
                    text,
                    u64::MAX as nat,
                ) is Some && crate::text::parsed_unsigned(text, u64::MAX as nat)->0 > 0,
                _ => false,
            };
            let result = acceptance_check(accepted, reason, other_reason);
            &&& result is Ok <==> counted
            &&& !counted ==> result->Err_0.kind == FailureKind::Permanent
            &&& !counted && reason is Text ==> result->Err_0.message == reason->Text_0
            &&& !counted && (reason is Missing || reason is Invalid) && other_reason is Text
                ==> result->Err_0.message == other_reason->Text_0
            &&& !counted && !(reason is Text) && !(reason is Missing) && !(reason is Invalid)
                ==> result->Err_0.message == "Last.fm ignored the scrobble"@
        }),
{
}

/// An announcement makes the call of an announcement, and a listen that of a listen, with its own
/// message and its own beginning; only a listen must be accepted too.
pub proof fn law_each_action_makes_its_call(
    message: crate::domain::NowPlayingMessageView,
    started_at: i64,
    config: crate::config::LastFmConfigView,
    exchange: Exchange,
)
    ensures
        ({
            let announcement = crate::playback::ScrobbleActionView::NowPlaying(message);
            let listen = crate::playback::ScrobbleActionView::Scrobble { message, started_at };
            &&& last_value(fields_for(announcement, config), "method"@) == Some(
                "track.updateNowPlaying"@,
            )
            &&& last_value(fields_for(listen, config), "method"@) == Some("track.scrobble"@)
            &&& last_value(fields_for(listen, config), "timestamp"@) == Some(
                crate::text::signed_decimal(started_at as int),
            )
            &&& last_value(fields_for(listen, config), "track"@) == Some(message.track)
            &&& last_value(fields_for(announcement, config), "track"@) == Some(message.track)
            &&& action_check(announcement, exchange) is Ok <==> call_check(exchange) is Ok
            &&& action_check(listen, exchange) is Ok ==> call_check(exchange) is Ok
        }),
{
    law_calls_read_back(message, started_at, config, "track"@);
    law_track_fields_read_back(message);
}

/// Nothing that failed on its way is taken for an answer: what could not be sent or read may be
/// tried again, with its reason.
pub proof fn law_lost_calls_may_be_repeated(reason: String)
    ensures
        ({
            let sent = call_check(Exchange::RequestFailed(reason));
            let read = call_check(Exchange::ReadFailed(reason));
            &&& sent is Err && sent->Err_0.kind == FailureKind::Retryable
            &&& read is Err && read->Err_0.kind == FailureKind::Retryable
            &&& sent->Err_0.message == "Last.fm request failed: "@ + reason@
            &&& read->Err_0.message == "failed to read Last.fm response: "@ + reason@
            &&& scrobble_check(Exchange::RequestFailed(reason)) == sent
            &&& scrobble_check(Exchange::ReadFailed(reason)) == read
        }),
{
}

/// A session is the one that the answer names: the account's name and its key, each in its place,
/// and none where one of them is missing. A token is one that is not empty, with the page that was
/// made for it.
pub proof fn law_sessions_and_tokens_are_those_named(
    session: crate::json::JsonAtView,
    name: crate::json::JsonAtView,
    key: crate::json::JsonAtView,
    token: crate::json::JsonAtView,
    page: Result<Seq<char>, Seq<char>>,
    api_key: Seq<char>,
)
    ensures
        session_named(session, name, key) is Ok <==> !(session is Missing) && !(session is Invalid)
            && name is Text && key is Text,
        session_named(session, name, key) is Ok ==> session_named(session, name, key)->Ok_0 == (
            name->Text_0,
            key->Text_0,
        ),
        approval_for(token, page) is Ok <==> token is Text && token->Text_0.len() > 0 && page is Ok,
        approval_for(token, page) is Ok ==> approval_for(token, page)->Ok_0 == (
            token->Text_0,
            page->Ok_0,
        ),
        token is Text ==> approval_page(api_key, token->Text_0) == url_with_query(
            "https://www.last.fm/api/auth/"@,
            seq![("api_key"@, crate::text::trimmed(api_key)), ("token"@, token->Text_0)],
        ),
{
}

/// Views show every field as it is, and outcomes are shown as they are.
pub proof fn law_views_show_every_field(
    status: LastFmStatus,
    authorization: Authorization,
    session: AuthorizedSession,
    fields: Seq<(String, String)>,
    error: AuthorizationError,
)
    ensures
        status@.authenticated == status.authenticated && status@.detail == status.detail@,
        authorization@ == (authorization.token@, authorization.url@),
        session@ == (session.username@, session.session_key@),
        pair_views(fields).len() == fields.len(),
        forall|i: int|
            0 <= i < fields.len() ==> #[trigger] pair_views(fields)[i] == (
                fields[i].0@,
                fields[i].1@,
            ),
        authorization_outcome(Ok(authorization)) == Ok::<
            (Seq<char>, Seq<char>),
            AuthorizationErrorView,
        >(authorization@),
        authorization_outcome(Err(error)) == Err::<(Seq<char>, Seq<char>), AuthorizationErrorView>(
            error@,
        ),
        session_outcome(Ok(session)) == Ok::<(Seq<char>, Seq<char>), AuthorizationErrorView>(
            session@,
        ),
        session_outcome(Err(error)) == Err::<(Seq<char>, Seq<char>), AuthorizationErrorView>(
            error@,
        ),
{
}

/// Answers are read at their own places: the error and its message, how many listens were accepted
/// and why none was, the token, and the session with the account's name and its key.
pub proof fn law_answers_are_read_at_their_places(
    config: crate::config::LastFmConfigView,
    status: HttpStatus,
    body: String,
)
    ensures
        ({
            let answer = Exchange::Answered { status, body };
            let at = |place: Seq<char>| crate::json::json_found(body@, place);
            &&& call_check(answer) == reply_check(status, at("/error"@), at("/message"@))
            &&& call_check(answer) is Ok ==> scrobble_check(answer) == acceptance_check(
                at("/scrobbles/@attr/accepted"@),
                at("/scrobbles/scrobble/ignoredMessage/#text"@),
                at("/scrobbles/scrobble/ignoredmessage/#text"@),
            )
            &&& call_check(answer) is Err ==> scrobble_check(answer) == call_check(answer)
            &&& call_check(answer) is Ok ==> session_check(answer) == session_named(
                at("/session"@),
                at("/session/name"@),
                at("/session/key"@),
            )
            &&& call_check(answer) is Ok && at("/token"@) is Text && at("/token"@)->Text_0.len()
                > 0 ==> authorization_check(config, answer) == approval_for(
                at("/token"@),
                approval_page(config.api_key, at("/token"@)->Text_0),
            )
            &&& call_check(answer) is Ok && !(at("/token"@) is Text) ==> authorization_check(
                config,
                answer,
            ) is Err
            &&& call_check(answer) is Err ==> session_check(answer) is Err && authorization_check(
                config,
                answer,
            ) is Err
        }),
{
}

/// A success is told in the words for what succeeded, and settings that lack something are refused
/// for good with the reason.
pub proof fn law_successes_are_told_apart(
    message: crate::domain::NowPlayingMessageView,
    started_at: i64,
    config: crate::config::LastFmConfigView,
)
    ensures
        success_text(crate::playback::ScrobbleActionView::NowPlaying(message))
            == "now playing sent"@,
        success_text(crate::playback::ScrobbleActionView::Scrobble { message, started_at })
            == "scrobbled"@,
        settings_check(config) is Ok <==> crate::config::lastfm_check(config) is Ok,
        settings_check(config) is Err ==> settings_check(config)->Err_0.kind
            == FailureKind::Permanent && settings_check(config)->Err_0.message
            == crate::config::lastfm_check(config)->Err_0.message(),
{
}

/// Each error of an authorization has its words.
pub proof fn law_errors_have_their_words(
    failure: crate::delivery::ApiFailureView,
    reason: Seq<char>,
)
    ensures
        AuthorizationErrorView::MissingCredentials.message()
            == "enter the Last.fm API key and shared secret first"@,
        AuthorizationErrorView::Call(failure).message() == failure.message,
        AuthorizationErrorView::IncompleteToken.message()
            == "Last.fm token response was incomplete"@,
        AuthorizationErrorView::Address(reason).message() == reason,
        AuthorizationErrorView::IncompleteSession.message()
            == "Last.fm session response was incomplete"@,
        AuthorizationErrorView::MissingAccountName.message()
            == "Last.fm session response did not include an account name"@,
        AuthorizationErrorView::MissingSessionKey.message()
            == "Last.fm session response did not include a session key"@,
{
}

/// A signature covers neither itself, nor the form of the answer, nor the name of a callback, and
/// it covers every other field: the value that was given last under its name.
pub proof fn law_three_fields_are_not_signed(fields: Seq<Pair>, field: Pair)
    ensures
        field.0 == "api_sig"@ || field.0 == "format"@ || field.0 == "callback"@ ==> signed_order(
            fields.push(field),
        ) == signed_order(fields),
        field.0 != "api_sig"@ && field.0 != "format"@ && field.0 != "callback"@ ==> last_value(
            signed_order(fields.push(field)),
            field.0,
        ) == Some(field.1),
        names_rise(signed_order(fields)),
    decreases fields.len(),
{
    assert(fields.push(field).drop_last() =~= fields);
    if fields.len() > 0 {
        law_three_fields_are_not_signed(fields.drop_last(), fields.last());
        lemma_placed(signed_order(fields.drop_last()), fields.last(), field.0);
    }
    lemma_placed(signed_order(fields), field, field.0);
}

/// A refusal is told in words: that the answer is no JSON and why, the service's own error with its
/// number, or the status alone.
pub proof fn law_refusals_have_their_words(
    status: HttpStatus,
    error: crate::json::JsonAtView,
    message: crate::json::JsonAtView,
)
    ensures
        error is Invalid ==> reply_check(status, error, message)->Err_0.message
            == "invalid Last.fm response (HTTP "@ + status.text@ + "): "@ + error->Invalid_0,
        error.signed() is Some && !(message is Text) ==> reply_check(
            status,
            error,
            message,
        )->Err_0.message == "Last.fm error "@ + crate::text::signed_decimal(
            error.signed()->0 as int,
        ) + ": "@ + "Last.fm API error"@,
        !(error is Invalid) && error.signed() is None && status.code != 200 ==> reply_check(
            status,
            error,
            message,
        )->Err_0.message == "Last.fm returned HTTP "@ + status.text@,
{
}

} // verus!
