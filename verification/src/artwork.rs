//! Where the cover of a track comes from, and what of it is kept.

use vstd::prelude::*;

use crate::digest::{sha256_of, to_hex};
use crate::domain::cover_art_url;
use crate::text::{strip_prefix, to_decimal};
use crate::web::{has_web_scheme, parse_url, WebUrl};

verus! {

/// The largest cover that is kept.
pub const MAX_ART_BYTES: u64 = 12582912;

/// The cover to show: the player's own address, and else that of the release group.
pub open spec fn preferred_art(
    mpris_url: Option<Seq<char>>,
    release_group_id: Option<Seq<char>>,
) -> Option<Seq<char>> {
    match mpris_url {
        Some(url) => Some(url),
        None => match release_group_id {
            Some(id) => Some(crate::domain::cover_art(id)),
            None => None,
        },
    }
}

/// The cover to show: the player's own address, and else that of the release group.
pub fn preferred_art_url(mpris_url: Option<&str>, release_group_id: Option<&str>) -> (url: Option<
    String,
>)
    ensures
        crate::text::opt_text(url) == preferred_art(
            crate::text::opt_str(mpris_url),
            crate::text::opt_str(release_group_id),
        ),
{
    match mpris_url {
        Some(url) => Some(url.to_owned()),
        None => match release_group_id {
            Some(id) => Some(cover_art_url(id)),
            None => None,
        },
    }
}

/// The value of a hexadecimal digit in either case.
pub open spec fn nibble(value: u8) -> Option<u8> {
    if 48 <= value <= 57 {
        Some((value - 48) as u8)
    } else if 97 <= value <= 102 {
        Some((value - 87) as u8)
    } else if 65 <= value <= 70 {
        Some((value - 55) as u8)
    } else {
        None
    }
}

/// The value of a hexadecimal digit in either case.
pub fn hex_nibble(value: u8) -> (digit: Option<u8>)
    ensures
        digit == nibble(value),
{
    if 48 <= value && value <= 57 {
        Some(value - 48)
    } else if 97 <= value && value <= 102 {
        Some(value - 87)
    } else if 65 <= value && value <= 70 {
        Some(value - 55)
    } else {
        None
    }
}

/// A percent sign with two hexadecimal digits behind it stands at the start.
pub open spec fn is_escape(bytes: Seq<u8>) -> bool {
    bytes.len() >= 3 && bytes[0] == 37 && nibble(bytes[1]) is Some && nibble(bytes[2]) is Some
}

/// The bytes with each escape replaced by the byte it stands for; everything else stays.
pub open spec fn unescaped(bytes: Seq<u8>) -> Seq<u8>
    decreases bytes.len(),
{
    if bytes.len() == 0 {
        Seq::empty()
    } else if is_escape(bytes) {
        seq![(nibble(bytes[1])->0 * 16 + nibble(bytes[2])->0) as u8] + unescaped(bytes.skip(3))
    } else {
        seq![bytes[0]] + unescaped(bytes.skip(1))
    }
}

/// The bytes with each escape replaced by the byte it stands for.
pub fn percent_decode_bytes(bytes: &[u8]) -> (decoded: Vec<u8>)
    ensures
        decoded@ == unescaped(bytes@),
{
    let mut decoded: Vec<u8> = Vec::new();
    let mut index: usize = 0;
    assert(bytes@.skip(0) == bytes@);
    while index < bytes.len()
        invariant
            index <= bytes@.len(),
            decoded@ + unescaped(bytes@.skip(index as int)) == unescaped(bytes@),
        decreases bytes.len() - index,
    {
        let ghost rest = bytes@.skip(index as int);
        let ghost so_far = decoded@;
        assert(rest.skip(1) =~= bytes@.skip(index as int + 1));
        if bytes[index] == 37 && bytes.len() - index > 2 {
            if let (Some(high), Some(low)) = (
                hex_nibble(bytes[index + 1]),
                hex_nibble(bytes[index + 2]),
            ) {
                decoded.push(high * 16 + low);
                assert(rest.skip(3) =~= bytes@.skip(index as int + 3));
                assert(so_far + (seq![(high * 16 + low) as u8] + unescaped(rest.skip(3)))
                    =~= decoded@ + unescaped(rest.skip(3)));
                index = index + 3;
                continue ;
            }
        }
        decoded.push(bytes[index]);
        assert(so_far + (seq![rest[0]] + unescaped(rest.skip(1))) =~= decoded@ + unescaped(
            rest.skip(1),
        ));
        index = index + 1;
    }
    assert(decoded@ + unescaped(bytes@.skip(index as int)) =~= decoded@);
    decoded
}

/// What `String::from_utf8_lossy` makes of bytes.
pub uninterp spec fn utf8_lossy(bytes: Seq<u8>) -> Seq<char>;

/// Reads bytes as text with `String::from_utf8_lossy`: bytes that are UTF-8 are read as such, and
/// in others the parts that are not are replaced in a way that is not restated here.
#[verifier::external_body]
fn lossy_text(bytes: &Vec<u8>) -> (text: String)
    ensures
        text@ == utf8_lossy(bytes@),
        vstd::utf8::valid_utf8(bytes@) ==> text@ == vstd::utf8::decode_utf8(bytes@),
{
    String::from_utf8_lossy(bytes).into_owned()
}

/// A path of a file address with its escapes replaced.
pub fn percent_decode(value: &str) -> (path: String)
    ensures
        path@ == utf8_lossy(unescaped(vstd::utf8::encode_utf8(value@))),
        vstd::utf8::valid_utf8(unescaped(vstd::utf8::encode_utf8(value@))) ==> path@
            == vstd::utf8::decode_utf8(unescaped(vstd::utf8::encode_utf8(value@))),
{
    let decoded = percent_decode_bytes(value.as_bytes());
    lossy_text(&decoded)
}

/// Where a cover is read from.
#[derive(Debug)]
pub enum ArtworkSource {
    /// A file of this machine.
    Local { path: String },
    /// A web address, with the name of the file that keeps what it holds.
    Remote { address: String, file: String },
}

/// Why a cover cannot be read.
#[derive(Debug)]
pub enum ArtworkError {
    MissingFile,
    InvalidUrl(String),
    UnsupportedScheme,
    /// The headers announce more than is kept.
    AnnouncedTooLarge,
    /// There is more than is kept.
    TooLarge,
    /// What was read is no picture; the reason.
    NotAnImage(String),
}

/// The contents of an [`ArtworkSource`].
pub ghost enum ArtworkSourceView {
    Local { path: Seq<char> },
    Remote { address: Seq<char>, file: Seq<char> },
}

/// The contents of an [`ArtworkError`].
pub ghost enum ArtworkErrorView {
    MissingFile,
    InvalidUrl(Seq<char>),
    UnsupportedScheme,
    AnnouncedTooLarge,
    TooLarge,
    NotAnImage(Seq<char>),
}

impl View for ArtworkSource {
    type V = ArtworkSourceView;

    open spec fn view(&self) -> ArtworkSourceView {
        match self {
            ArtworkSource::Local { path } => ArtworkSourceView::Local { path: path@ },
            ArtworkSource::Remote { address, file } => ArtworkSourceView::Remote {
                address: address@,
                file: file@,
            },
        }
    }
}

impl View for ArtworkError {
    type V = ArtworkErrorView;

    open spec fn view(&self) -> ArtworkErrorView {
        match self {
            ArtworkError::MissingFile => ArtworkErrorView::MissingFile,
            ArtworkError::InvalidUrl(reason) => ArtworkErrorView::InvalidUrl(reason@),
            ArtworkError::UnsupportedScheme => ArtworkErrorView::UnsupportedScheme,
            ArtworkError::AnnouncedTooLarge => ArtworkErrorView::AnnouncedTooLarge,
            ArtworkError::TooLarge => ArtworkErrorView::TooLarge,
            ArtworkError::NotAnImage(reason) => ArtworkErrorView::NotAnImage(reason@),
        }
    }
}

impl ArtworkErrorView {
    /// The error in words, with its cause.
    pub open spec fn message(self) -> Seq<char> {
        match self {
            ArtworkErrorView::MissingFile => "local artwork does not exist"@,
            ArtworkErrorView::InvalidUrl(reason) => reason,
            ArtworkErrorView::UnsupportedScheme => "unsupported artwork URL scheme"@,
            ArtworkErrorView::AnnouncedTooLarge => "artwork exceeds "@ + crate::text::decimal(
                (MAX_ART_BYTES / 1024 / 1024) as nat,
            ) + " MiB"@,
            ArtworkErrorView::TooLarge => "artwork exceeds download limit"@,
            ArtworkErrorView::NotAnImage(reason) => "artwork is not a supported image: "@ + reason,
        }
    }
}

impl ArtworkError {
    /// The error in words, with its cause.
    pub fn to_text(&self) -> (text: String)
        ensures
            text@ == self@.message(),
    {
        match self {
            ArtworkError::MissingFile => "local artwork does not exist".to_owned(),
            ArtworkError::InvalidUrl(reason) => reason.clone(),
            ArtworkError::UnsupportedScheme => "unsupported artwork URL scheme".to_owned(),
            ArtworkError::AnnouncedTooLarge => {
                let mut text = "artwork exceeds ".to_owned();
                text.append(to_decimal(MAX_ART_BYTES / 1024 / 1024).as_str());
                text.append(" MiB");
                text
            },
            ArtworkError::TooLarge => "artwork exceeds download limit".to_owned(),
            ArtworkError::NotAnImage(reason) => {
                let mut text = "artwork is not a supported image: ".to_owned();
                text.append(reason.as_str());
                text
            },
        }
    }
}

/// The contents of the outcome of looking for a cover.
pub open spec fn source_outcome(source: Result<ArtworkSource, ArtworkError>) -> Result<
    ArtworkSourceView,
    ArtworkErrorView,
> {
    match source {
        Ok(source) => Ok(source@),
        Err(error) => Err(error@),
    }
}

/// The name of the file that keeps the cover at an address, given the digest of the address.
pub open spec fn art_file(digest: Seq<u8>) -> Seq<char> {
    crate::digest::hex(digest) + ".img"@
}

/// Where the cover at an address is read from, given what the address parses to, what its digest
/// is, and what its path reads as when it is a file of this machine.
pub open spec fn art_source(
    url: Seq<char>,
    parsed: crate::web::ParsedUrl,
    digest: Seq<u8>,
    local_path: Seq<char>,
) -> Result<ArtworkSourceView, ArtworkErrorView> {
    if "file://"@.is_prefix_of(url) {
        Ok(ArtworkSourceView::Local { path: local_path })
    } else {
        match parsed {
            Err(reason) => Err(ArtworkErrorView::InvalidUrl(reason)),
            Ok(address) => if crate::web::is_web_scheme(address.0) {
                Ok(ArtworkSourceView::Remote { address: address.1, file: art_file(digest) })
            } else {
                Err(ArtworkErrorView::UnsupportedScheme)
            },
        }
    }
}

/// Where the cover at an address is read from.
pub fn artwork_source(url: &str) -> (source: Result<ArtworkSource, ArtworkError>)
    ensures
        source_outcome(source) == art_source(
            url@,
            crate::web::url_parsed(url@),
            crate::digest::sha256(vstd::utf8::encode_utf8(url@)),
            utf8_lossy(unescaped(vstd::utf8::encode_utf8(url@.skip("file://"@.len() as int)))),
        ),
{
    if let Some(path) = strip_prefix(url, "file://") {
        return Ok(ArtworkSource::Local { path: percent_decode(path.as_str()) });
    }
    let digest = sha256_of(&crate::text::utf8_bytes(url));
    remote_artwork_source(parse_url(url), &digest)
}

/// Where the cover at an address that is no local file is read from, given what the address
/// parses to and what its digest is.
pub fn remote_artwork_source(parsed: Result<WebUrl, String>, digest: &Vec<u8>) -> (source: Result<
    ArtworkSource,
    ArtworkError,
>)
    ensures
        source_outcome(source) == (match crate::web::url_outcome(parsed) {
            Err(reason) => Err(ArtworkErrorView::InvalidUrl(reason)),
            Ok(address) => if crate::web::is_web_scheme(address.0) {
                Ok(ArtworkSourceView::Remote { address: address.1, file: art_file(digest@) })
            } else {
                Err(ArtworkErrorView::UnsupportedScheme)
            },
        }),
{
    match parsed {
        Err(reason) => Err(ArtworkError::InvalidUrl(reason)),
        Ok(address) => {
            if !has_web_scheme(&address) {
                return Err(ArtworkError::UnsupportedScheme);
            }
            let mut file = to_hex(digest);
            file.append(".img");
            Ok(ArtworkSource::Remote { address: address.address, file })
        },
    }
}

/// The size that the headers announce is one that is kept. A header that is missing or no number
/// announces nothing.
pub open spec fn announced_size_fits(content_length: Option<Seq<char>>) -> bool {
    match content_length {
        Some(text) => match crate::text::parsed_unsigned(text, u64::MAX as nat) {
            Some(length) => length <= MAX_ART_BYTES,
            None => true,
        },
        None => true,
    }
}

/// The contents of the outcome of a check.
pub open spec fn check_outcome(outcome: Result<(), ArtworkError>) -> Result<(), ArtworkErrorView> {
    match outcome {
        Ok(_) => Ok(()),
        Err(error) => Err(error@),
    }
}

/// Checks the size that the headers announce, before anything is read.
pub fn check_announced_size(content_length: Option<&str>) -> (outcome: Result<(), ArtworkError>)
    ensures
        check_outcome(outcome) == (if announced_size_fits(crate::text::opt_str(content_length)) {
            Ok(())
        } else {
            Err(ArtworkErrorView::AnnouncedTooLarge)
        }),
{
    if let Some(text) = content_length {
        if let Some(length) = crate::text::parse_unsigned(text, u64::MAX) {
            if length > MAX_ART_BYTES {
                return Err(ArtworkError::AnnouncedTooLarge);
            }
        }
    }
    Ok(())
}

/// Why `image` cannot read a picture from bytes; nothing when it can.
pub uninterp spec fn image_refusal(bytes: Seq<u8>) -> Option<Seq<char>>;

/// Reads a picture with `image::load_from_memory` and says why that failed, if it did. The outcome
/// depends on the bytes alone; which bytes are pictures, the formats say and is not restated here.
#[verifier::external_body]
fn refuse_image(bytes: &Vec<u8>) -> (refusal: Option<String>)
    ensures
        crate::text::opt_text(refusal) == image_refusal(bytes@),
{
    image::load_from_memory(bytes).err().map(|error| error.to_string())
}

/// What was read is kept when it is not too large and is a picture.
pub open spec fn download_check(size: nat, refusal: Option<Seq<char>>) -> Result<
    (),
    ArtworkErrorView,
> {
    if size > MAX_ART_BYTES {
        Err(ArtworkErrorView::TooLarge)
    } else {
        match refusal {
            Some(reason) => Err(ArtworkErrorView::NotAnImage(reason)),
            None => Ok(()),
        }
    }
}

/// Checks what was read: it must not be too large and must be a picture.
pub fn check_download(bytes: &Vec<u8>) -> (outcome: Result<(), ArtworkError>)
    ensures
        check_outcome(outcome) == download_check(bytes@.len(), image_refusal(bytes@)),
{
    if bytes.len() as u64 > MAX_ART_BYTES {
        return Err(ArtworkError::TooLarge);
    }
    judge_download(bytes.len() as u64, refuse_image(bytes))
}

/// Checks what was read, given its size and why it is no picture.
pub fn judge_download(size: u64, refusal: Option<String>) -> (outcome: Result<(), ArtworkError>)
    ensures
        check_outcome(outcome) == download_check(size as nat, crate::text::opt_text(refusal)),
{
    if size > MAX_ART_BYTES {
        return Err(ArtworkError::TooLarge);
    }
    match refusal {
        Some(reason) => Err(ArtworkError::NotAnImage(reason)),
        None => Ok(()),
    }
}

/// A path without percent signs is read as it stands.
pub proof fn law_plain_bytes_are_kept(bytes: Seq<u8>)
    requires
        forall|i: int| 0 <= i < bytes.len() ==> #[trigger] bytes[i] != 37,
    ensures
        unescaped(bytes) == bytes,
    decreases bytes.len(),
{
    if bytes.len() > 0 {
        assert forall|i: int| 0 <= i < bytes.skip(1).len() implies #[trigger] bytes.skip(1)[i]
            != 37 by {
            assert(bytes.skip(1)[i] == bytes[i + 1]);
        }
        law_plain_bytes_are_kept(bytes.skip(1));
        assert(bytes =~= seq![bytes[0]] + bytes.skip(1));
    } else {
        assert(unescaped(bytes) =~= bytes);
    }
}

/// Every byte can be written as an escape: an escape in front of other bytes reads as its byte in
/// front of what those read as.
pub proof fn law_escapes_are_read(byte: u8, high: u8, low: u8, rest: Seq<u8>)
    requires
        nibble(high) == Some((byte / 16) as u8),
        nibble(low) == Some((byte % 16) as u8),
    ensures
        unescaped(seq![37u8, high, low] + rest) == seq![byte] + unescaped(rest),
{
    let whole = seq![37u8, high, low] + rest;
    assert(whole.skip(3) =~= rest);
    assert(is_escape(whole));
}

/// A cover is the player's own wherever it names one, and else that of the release group.
pub proof fn law_own_covers_come_first(own: Option<Seq<char>>, group: Option<Seq<char>>)
    ensures
        own is Some ==> preferred_art(own, group) == own,
        own is None && group is Some ==> preferred_art(own, group) == Some(
            "https://coverartarchive.org/release-group/"@ + group->0 + "/front"@,
        ),
        own is None && group is None ==> preferred_art(own, group) is None,
{
}

/// A file of this machine is read from its own path, and every other address only over HTTP: it is
/// fetched as it was parsed, and kept under the digest of the address.
pub proof fn law_covers_come_from_files_or_the_web(
    url: Seq<char>,
    parsed: crate::web::ParsedUrl,
    digest: Seq<u8>,
    path: Seq<char>,
)
    ensures
        ({
            let local = url.len() >= 7 && url.take(7) == "file://"@;
            let source = art_source(url, parsed, digest, path);
            &&& local ==> source == Ok::<ArtworkSourceView, ArtworkErrorView>(
                ArtworkSourceView::Local { path },
            )
            &&& source is Ok && !local ==> {
                &&& parsed is Ok
                &&& parsed->Ok_0.0 == "http"@ || parsed->Ok_0.0 == "https"@
                &&& source->Ok_0 == (ArtworkSourceView::Remote {
                    address: parsed->Ok_0.1,
                    file: crate::digest::hex(digest) + ".img"@,
                })
            }
            &&& !local && parsed is Ok && (parsed->Ok_0.0 == "http"@ || parsed->Ok_0.0
                == "https"@) ==> source is Ok
            &&& !local && parsed is Err ==> source == Err::<ArtworkSourceView, ArtworkErrorView>(
                ArtworkErrorView::InvalidUrl(parsed->Err_0),
            )
        }),
{
    reveal_strlit("file://");
    if url.len() >= 7 {
        assert(url.take(7) =~= url.subrange(0, 7));
    }
}

/// Twelve mebibytes are the most that is kept of a cover, whether announced or read; what is kept
/// is a picture.
pub proof fn law_covers_are_small_pictures(
    announced: Option<Seq<char>>,
    size: nat,
    refusal: Option<Seq<char>>,
)
    ensures
        download_check(size, refusal) is Ok <==> size <= 12 * 1024 * 1024 && refusal is None,
        size > 12 * 1024 * 1024 ==> download_check(size, refusal)->Err_0
            == ArtworkErrorView::TooLarge,
        !announced_size_fits(announced) <==> announced is Some && crate::text::parsed_unsigned(
            announced->0,
            u64::MAX as nat,
        ) is Some && crate::text::parsed_unsigned(announced->0, u64::MAX as nat)->0 > 12 * 1024
            * 1024,
{
}

/// What two hexadecimal digits behind a percent sign stand for, in either case.
pub proof fn law_digits_of_escapes_count(value: u8)
    ensures
        48 <= value <= 57 ==> nibble(value) == Some((value - 48) as u8),
        65 <= value <= 70 ==> nibble(value) == Some((value - 55) as u8),
        97 <= value <= 102 ==> nibble(value) == Some((value - 87) as u8),
        !(48 <= value <= 57 || 65 <= value <= 70 || 97 <= value <= 102) ==> nibble(value) is None,
{
}

/// Each error has its words.
pub proof fn law_errors_have_their_words(reason: Seq<char>)
    ensures
        ArtworkErrorView::MissingFile.message() == "local artwork does not exist"@,
        ArtworkErrorView::InvalidUrl(reason).message() == reason,
        ArtworkErrorView::UnsupportedScheme.message() == "unsupported artwork URL scheme"@,
        ArtworkErrorView::AnnouncedTooLarge.message() == "artwork exceeds "@
            + crate::text::decimal(12) + " MiB"@,
        ArtworkErrorView::TooLarge.message() == "artwork exceeds download limit"@,
        ArtworkErrorView::NotAnImage(reason).message() == "artwork is not a supported image: "@
            + reason,
{
}

/// A percent sign and two hexadecimal digits stand for one byte, and any other byte for itself.
pub proof fn law_escapes_stand_for_bytes(first: u8, high: u8, low: u8, rest: Seq<u8>)
    ensures
        unescaped(Seq::empty()).len() == 0,
        first != 37 ==> unescaped(seq![first] + rest) == seq![first] + unescaped(rest),
        nibble(high) is Some && nibble(low) is Some ==> unescaped(seq![37u8, high, low] + rest)
            == seq![(16 * nibble(high)->0 + nibble(low)->0) as u8] + unescaped(rest),
        !(nibble(high) is Some && nibble(low) is Some) ==> unescaped(
            seq![37u8, high, low] + rest,
        ) == seq![37u8] + unescaped(seq![high, low] + rest),
        unescaped(seq![37u8]) == seq![37u8],
{
    reveal_with_fuel(unescaped, 3);
    let plain = seq![first] + rest;
    assert(plain.skip(1) =~= rest);
    let escape = seq![37u8, high, low] + rest;
    assert(escape[0] == 37 && escape[1] == high && escape[2] == low);
    assert(escape.skip(3) =~= rest);
    assert(escape.skip(1) =~= seq![high, low] + rest);
    assert(seq![37u8].skip(1) =~= Seq::<u8>::empty());
    assert(unescaped(seq![37u8]) =~= seq![37u8]);
}

} // verus!
