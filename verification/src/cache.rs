//! What the cache on disk is filed under, how long it holds, and which files leave it.

use vstd::prelude::*;

use crate::digest::{sha256_of, to_hex};
use crate::domain::{RawTrack, Verification, VerificationStatus};
use crate::text::utf8_bytes;
use crate::verification::normalize;

verus! {

/// The version of the comparison, so that outcomes of an older one are not found again.
pub const MATCHER_VERSION: u8 = 3;

/// How many seconds a verified track stays verified: thirty days.
pub const SUCCESS_TTL: u64 = 2592000;

/// How many seconds any other outcome holds: an hour.
pub const FAILURE_TTL: u64 = 3600;

/// For each artist a zero byte and the name.
pub open spec fn artist_bytes(artists: Seq<Seq<char>>) -> Seq<u8>
    decreases artists.len(),
{
    if artists.len() == 0 {
        Seq::empty()
    } else {
        artist_bytes(artists.drop_last()) + seq![0u8] + vstd::utf8::encode_utf8(artists.last())
    }
}

/// The bytes of a duration, if there is one.
pub open spec fn duration_bytes(duration_ms: Option<u64>) -> Seq<u8> {
    match duration_ms {
        Some(duration) => vstd::bytes::spec_u64_to_le_bytes(duration),
        None => Seq::empty(),
    }
}

/// The bytes that an outcome is filed under, made from normalized texts: the version of the
/// comparison, the title, each artist, the album and the duration, with zero bytes between.
pub open spec fn key_bytes(
    title: Seq<char>,
    artists: Seq<Seq<char>>,
    album: Seq<char>,
    duration_ms: Option<u64>,
) -> Seq<u8> {
    seq![MATCHER_VERSION] + vstd::utf8::encode_utf8(title) + artist_bytes(artists) + seq![0u8]
        + vstd::utf8::encode_utf8(album) + duration_bytes(duration_ms)
}

/// The bytes that the outcome for a track is filed under.
pub open spec fn track_bytes(track: crate::domain::RawTrackView) -> Seq<u8> {
    key_bytes(
        crate::verification::normalized(track.title),
        crate::verification::all_normalized(track.artists),
        crate::verification::normalized(track.album),
        track.duration_ms,
    )
}

/// The bytes that an outcome is filed under, made from normalized texts.
pub fn cache_key_bytes(
    title: &str,
    artists: &Vec<String>,
    album: &str,
    duration_ms: Option<u64>,
) -> (bytes: Vec<u8>)
    ensures
        bytes@ == key_bytes(title@, crate::text::texts(artists@), album@, duration_ms),
{
    let mut bytes: Vec<u8> = vec![MATCHER_VERSION];
    let mut title_bytes = utf8_bytes(title);
    bytes.append(&mut title_bytes);
    let ghost head = bytes@;
    let ghost names = crate::text::texts(artists@);
    assert(head =~= head + artist_bytes(names.take(0)));
    for i in 0..artists.len()
        invariant
            names == crate::text::texts(artists@),
            bytes@ == head + artist_bytes(names.take(i as int)),
    {
        assert(names.take(i as int + 1).drop_last() =~= names.take(i as int));
        assert(names.take(i as int + 1).last() == artists@[i as int]@);
        bytes.push(0);
        let mut name_bytes = utf8_bytes(artists[i].as_str());
        bytes.append(&mut name_bytes);
        assert(bytes@ =~= head + artist_bytes(names.take(i as int + 1)));
    }
    assert(names.take(artists@.len() as int) == names);
    bytes.push(0);
    let mut album_bytes = utf8_bytes(album);
    bytes.append(&mut album_bytes);
    if let Some(duration) = duration_ms {
        let mut duration_part = vstd::bytes::u64_to_le_bytes(duration);
        bytes.append(&mut duration_part);
    }
    assert(bytes@ =~= key_bytes(title@, names, album@, duration_ms));
    bytes
}

/// The name of the file that holds the outcome for a track.
pub open spec fn file_name_for(track: crate::domain::RawTrackView) -> Seq<char> {
    crate::digest::hex(crate::digest::sha256(track_bytes(track))) + ".json"@
}

/// The name of the file that holds the outcome for a track.
pub fn cache_file_name(track: &RawTrack) -> (name: String)
    ensures
        name@ == file_name_for(track@),
{
    let title = normalize(track.title.as_str());
    let mut artists: Vec<String> = Vec::new();
    for i in 0..track.artists.len()
        invariant
            artists@.len() == i,
            forall|j: int|
                0 <= j < i ==> (#[trigger] artists@[j])@ == crate::verification::normalized(
                    track.artists@[j]@,
                ),
    {
        artists.push(normalize(track.artists[i].as_str()));
    }
    assert(crate::text::texts(artists@) =~= crate::verification::all_normalized(track@.artists));
    let album = normalize(track.album.as_str());
    let bytes = cache_key_bytes(title.as_str(), &artists, album.as_str(), track.duration_ms);
    let mut name = to_hex(&sha256_of(&bytes));
    name.append(".json");
    name
}

/// Tracks that agree in normalized title, artists and album and in duration are filed under one
/// name: neither artwork nor the time of the report is part of it.
pub proof fn law_cache_name_follows_the_normalized_track(
    one: crate::domain::RawTrackView,
    other: crate::domain::RawTrackView,
)
    requires
        crate::verification::normalized(one.title) == crate::verification::normalized(other.title),
        crate::verification::all_normalized(one.artists) == crate::verification::all_normalized(
            other.artists,
        ),
        crate::verification::normalized(one.album) == crate::verification::normalized(other.album),
        one.duration_ms == other.duration_ms,
    ensures
        file_name_for(one) == file_name_for(other),
{
}

/// An outcome as it is kept on disk.
#[derive(Debug)]
pub struct CacheEntry {
    pub saved_at_unix: u64,
    pub verification: Verification,
}

/// How many seconds an outcome holds.
pub open spec fn time_to_live(status: VerificationStatus) -> u64 {
    if status == VerificationStatus::Verified {
        SUCCESS_TTL
    } else {
        FAILURE_TTL
    }
}

/// An outcome that was kept at `saved` still holds at `now`. One that was kept later than now
/// holds.
pub open spec fn still_holds(saved: u64, now: u64, status: VerificationStatus) -> bool {
    now - saved < time_to_live(status)
}

impl CacheEntry {
    /// The outcome, while it still holds.
    pub fn usable(&self, now: u64) -> (verification: Option<Verification>)
        ensures
            crate::domain::opt_verification(verification) == (if still_holds(
                self.saved_at_unix,
                now,
                self.verification.status,
            ) {
                Some(self.verification@)
            } else {
                None
            }),
    {
        let age: u64 = if now >= self.saved_at_unix {
            now - self.saved_at_unix
        } else {
            0
        };
        let ttl: u64 = if self.verification.status == VerificationStatus::Verified {
            SUCCESS_TTL
        } else {
            FAILURE_TTL
        };
        if age < ttl {
            Some(self.verification.clone())
        } else {
            None
        }
    }
}

/// An outcome stops holding for good.
pub proof fn law_cached_outcome_ends(saved: u64, now: u64, later: u64, status: VerificationStatus)
    requires
        now <= later,
    ensures
        still_holds(saved, later, status) ==> still_holds(saved, now, status),
        saved <= now ==> (still_holds(saved, now, status) <==> now < saved + time_to_live(status)),
{
}

/// A file of the cache: when it was last written, in nanoseconds from the epoch, and how many
/// bytes it has.
#[derive(Clone, Copy, Debug, PartialEq, Eq, Structural)]
pub struct CachedFile {
    pub modified: i128,
    pub size: u64,
}

/// How many bytes files have together.
pub open spec fn total_size(files: Seq<CachedFile>) -> nat
    decreases files.len(),
{
    if files.len() == 0 {
        0
    } else {
        total_size(files.drop_last()) + files.last().size as nat
    }
}

/// The file at position `a` leaves before the one at position `b`: the older one first.
pub open spec fn leaves_before(files: Seq<CachedFile>, a: int, b: int) -> bool {
    files[a].modified < files[b].modified || (files[a].modified == files[b].modified && a < b)
}

/// The positions of all files, each once, in the order in which they leave.
pub open spec fn is_leaving_order(files: Seq<CachedFile>, order: Seq<usize>) -> bool {
    &&& order.len() == files.len()
    &&& forall|i: int| 0 <= i < order.len() ==> #[trigger] order[i] < files.len()
    &&& forall|i: int, j: int|
        0 <= i < j < order.len() ==> leaves_before(
            files,
            #[trigger] order[i] as int,
            #[trigger] order[j] as int,
        )
    &&& forall|k: usize| k < files.len() ==> #[trigger] order.contains(k)
}

/// The positions of all files, the oldest first.
pub fn leaving_order(files: &Vec<CachedFile>) -> (order: Vec<usize>)
    ensures
        is_leaving_order(files@, order@),
{
    let mut order: Vec<usize> = Vec::new();
    assert(files@.take(0) =~= Seq::<CachedFile>::empty());
    for k in 0..files.len()
        invariant
            is_leaving_order(files@.take(k as int), order@),
    {
        let ghost known = files@.take(k as int);
        let ghost more = files@.take(k as int + 1);
        let ghost earlier = order@;
        let mut at: usize = k;
        while at > 0 && files[order[at - 1]].modified > files[k].modified
            invariant
                at <= k < files.len(),
                known == files@.take(k as int),
                order@ == earlier,
                is_leaving_order(known, earlier),
                forall|i: int|
                    at <= i < k ==> files@[#[trigger] earlier[i] as int].modified
                        > files@[k as int].modified,
            decreases at,
        {
            assert(known[earlier[at as int - 1] as int] == files@[earlier[at as int - 1] as int]);
            at = at - 1;
        }
        order.insert(at, k);
        proof {
            assert(order@ == earlier.insert(at as int, k));
            assert forall|i: int| 0 <= i < k implies files@[#[trigger] earlier[i] as int]
                == known[earlier[i] as int] && more[earlier[i] as int] == files@[earlier[i] as int] by {
            }
            assert forall|i: int, j: int| 0 <= i < j < order@.len() implies leaves_before(
                more,
                #[trigger] order@[i] as int,
                #[trigger] order@[j] as int,
            ) by {
                let a = if i < at {
                    i
                } else {
                    i - 1
                };
                let b = if j < at {
                    j
                } else {
                    j - 1
                };
                if i != at && j != at {
                    assert(leaves_before(known, earlier[a] as int, earlier[b] as int));
                } else if i == at {
                    assert(order@[j] == earlier[b]);
                } else {
                    assert(order@[i] == earlier[a]);
                    if at > 0 && a < at - 1 {
                        assert(leaves_before(
                            known,
                            earlier[a] as int,
                            earlier[at as int - 1] as int,
                        ));
                    }
                }
            }
            assert forall|m: usize| m < more.len() implies #[trigger] order@.contains(m) by {
                if m == k {
                    assert(order@[at as int] == m);
                } else {
                    assert(earlier.contains(m));
                    let w = choose|w: int| 0 <= w < earlier.len() && earlier[w] == m;
                    if w < at {
                        assert(order@[w] == m);
                    } else {
                        assert(order@[w + 1] == m);
                    }
                }
            }
            assert(is_leaving_order(more, order@));
        }
    }
    assert(files@.take(files@.len() as int) == files@);
    order
}

/// A pruning of the cache that is under way.
#[derive(Debug)]
pub struct Pruning {
    /// The files that have not been tried yet, the next one last: position and size.
    pub pending: Vec<(usize, u64)>,
    /// How many bytes the files have together that are still there.
    pub total: u64,
    pub limit: u64,
}

/// How many bytes the files have together that have not been tried yet.
pub open spec fn pending_size(pending: Seq<(usize, u64)>) -> nat
    decreases pending.len(),
{
    if pending.len() == 0 {
        0
    } else {
        pending_size(pending.drop_last()) + pending.last().1 as nat
    }
}

/// The files as they are pending: the one that leaves first is the last.
pub open spec fn pending_in(files: Seq<CachedFile>, order: Seq<usize>) -> Seq<(usize, u64)> {
    Seq::new(
        order.len(),
        |i: int|
            (order[order.len() - 1 - i], files[order[order.len() - 1 - i] as int].size),
    )
}

/// One file less, wherever it stood, has its bytes less.
proof fn lemma_pending_without(pending: Seq<(usize, u64)>, at: int)
    requires
        0 <= at < pending.len(),
    ensures
        pending_size(pending) == pending_size(pending.remove(at)) + pending[at].1,
    decreases pending.len(),
{
    if at == pending.len() - 1 {
        assert(pending.remove(at) =~= pending.drop_last());
    } else {
        lemma_pending_without(pending.drop_last(), at);
        assert(pending.remove(at).drop_last() =~= pending.drop_last().remove(at));
        assert(pending.remove(at).last() == pending.last());
    }
}

/// At first all bytes are pending.
proof fn lemma_all_is_pending(files: Seq<CachedFile>, order: Seq<usize>)
    requires
        is_leaving_order(files, order),
        files.len() <= usize::MAX,
    ensures
        pending_size(pending_in(files, order)) == total_size(files),
    decreases files.len(),
{
    if files.len() > 0 {
        assert(order.len() > 0 && order[0] < files.len());
        let last = (files.len() - 1) as usize;
        assert(order.contains(last));
        let at = choose|at: int| 0 <= at < order.len() && order[at] == last;
        let fewer = files.drop_last();
        let rest = order.remove(at);
        assert forall|i: int| 0 <= i < rest.len() implies #[trigger] rest[i] < fewer.len() by {
            let k = if i < at {
                i
            } else {
                i + 1
            };
            assert(rest[i] == order[k]);
            if k < at {
                assert(leaves_before(files, order[k] as int, order[at] as int));
            } else {
                assert(leaves_before(files, order[at] as int, order[k] as int));
            }
        }
        assert forall|i: int, j: int| 0 <= i < j < rest.len() implies leaves_before(
            fewer,
            #[trigger] rest[i] as int,
            #[trigger] rest[j] as int,
        ) by {
            let a = if i < at {
                i
            } else {
                i + 1
            };
            let b = if j < at {
                j
            } else {
                j + 1
            };
            assert(rest[i] == order[a] && rest[j] == order[b]);
            assert(leaves_before(files, order[a] as int, order[b] as int));
        }
        assert forall|k: usize| k < fewer.len() implies #[trigger] rest.contains(k) by {
            assert(order.contains(k));
            let w = choose|w: int| 0 <= w < order.len() && order[w] == k;
            if w < at {
                assert(rest[w] == k);
            } else {
                assert(rest[w - 1] == k);
            }
        }
        lemma_all_is_pending(fewer, rest);
        let back = order.len() - 1 - at;
        lemma_pending_without(pending_in(files, order), back);
        assert(pending_in(files, order).remove(back) =~= pending_in(fewer, rest));
    }
}

/// A pruning: the files that have not been tried yet, the bytes that are still there, and the
/// limit.
#[verifier::ext_equal]
pub ghost struct PruningView {
    pub pending: Seq<(usize, u64)>,
    pub total: u64,
    pub limit: u64,
}

impl View for Pruning {
    type V = PruningView;

    open spec fn view(&self) -> PruningView {
        PruningView { pending: self.pending@, total: self.total, limit: self.limit }
    }
}

impl PruningView {
    /// Nothing is left to do: the files fit, or all were tried.
    pub open spec fn is_done(self) -> bool {
        self.total <= self.limit || self.pending.len() == 0
    }

    /// The file that leaves next.
    pub open spec fn next_file(self) -> Option<(usize, u64)> {
        if self.is_done() {
            None
        } else {
            Some(self.pending.last())
        }
    }

    /// The pruning after the next file was tried.
    pub open spec fn after_try(self, removed: bool) -> PruningView {
        let size = self.pending.last().1;
        PruningView {
            pending: self.pending.drop_last(),
            total: if !removed {
                self.total
            } else if self.total >= size {
                (self.total - size) as u64
            } else {
                0
            },
            limit: self.limit,
        }
    }

    /// The pruning after so many files in a row were removed.
    pub open spec fn after_removals(self, count: nat) -> PruningView
        decreases count,
    {
        if count == 0 {
            self
        } else {
            self.after_removals((count - 1) as nat).after_try(true)
        }
    }

    /// The pruning once it is done, when every file that is tried can be removed.
    pub open spec fn done(self) -> PruningView
        decreases self.pending.len(),
    {
        if self.is_done() {
            self
        } else {
            self.after_try(true).done()
        }
    }
}

/// The bytes of all files, added up.
fn sum_sizes(files: &Vec<CachedFile>) -> (total: u64)
    requires
        total_size(files@) <= u64::MAX,
    ensures
        total == total_size(files@),
{
    let mut total: u64 = 0;
    for i in 0..files.len()
        invariant
            total == total_size(files@.take(i as int)),
            total_size(files@) <= u64::MAX,
    {
        proof {
            lemma_total_size_grows(files@, i as int + 1);
            assert(files@.take(i as int + 1).drop_last() =~= files@.take(i as int));
        }
        total = total + files[i].size;
    }
    assert(files@.take(files@.len() as int) == files@);
    total
}

/// Some of the files have no more bytes than all of them.
proof fn lemma_total_size_grows(files: Seq<CachedFile>, n: int)
    requires
        0 <= n <= files.len(),
    ensures
        total_size(files.take(n)) <= total_size(files),
    decreases files.len() - n,
{
    if n < files.len() {
        lemma_total_size_grows(files, n + 1);
        assert(files.take(n + 1).drop_last() =~= files.take(n));
    } else {
        assert(files.take(n) == files);
    }
}

impl Pruning {
    /// Begins to prune: nothing is pending when the files fit, and else all files are, the oldest
    /// next.
    pub fn new(files: &Vec<CachedFile>, limit: u64) -> (pruning: Self)
        requires
            total_size(files@) <= u64::MAX,
        ensures
            pruning@.limit == limit,
            pruning@.total == total_size(files@),
            pruning@.total <= limit ==> pruning@.pending.len() == 0,
            pruning@.total > limit ==> pending_size(pruning@.pending) == pruning@.total,
            pruning@.done().total <= limit,
            pruning@.total > limit ==> exists|order: Seq<usize>|
                {
                    &&& #[trigger] is_leaving_order(files@, order)
                    &&& pruning@.pending == pending_in(files@, order)
                },
    {
        let total: u64 = sum_sizes(files);
        let mut pending: Vec<(usize, u64)> = Vec::new();
        if total > limit {
            let order = leaving_order(files);
            let count: usize = order.len();
            for i in 0..count
                invariant
                    count == order@.len(),
                    is_leaving_order(files@, order@),
                    pending@.len() == i,
                    forall|j: int|
                        0 <= j < i ==> #[trigger] pending@[j] == (
                            order@[count - 1 - j],
                            files@[order@[count - 1 - j] as int].size,
                        ),
            {
                let at: usize = order[count - 1 - i];
                pending.push((at, files[at].size));
            }
            proof {
                assert(pending@ =~= pending_in(files@, order@));
                lemma_all_is_pending(files@, order@);
            }
        }
        let pruning = Pruning { pending, total, limit };
        proof {
            law_pruning_makes_the_files_fit(pruning@);
        }
        pruning
    }

    /// The position of the file that leaves next, if one has to.
    pub fn next(&self) -> (at: Option<usize>)
        ensures
            match self@.next_file() {
                Some(file) => at == Some(file.0),
                None => at is None,
            },
    {
        let count: usize = self.pending.len();
        if self.total <= self.limit || count == 0 {
            None
        } else {
            Some(self.pending[count - 1].0)
        }
    }

    /// Takes note of whether the file could be removed that left next.
    pub fn tried(&mut self, removed: bool)
        requires
            !old(self)@.is_done(),
        ensures
            final(self)@ == old(self)@.after_try(removed),
    {
        let ghost before = self.pending@;
        if let Some((_, size)) = self.pending.pop() {
            if removed {
                if self.total >= size {
                    self.total = self.total - size;
                } else {
                    self.total = 0;
                }
            }
        }
        assert(self.pending@ =~= before.drop_last());
    }
}

/// Pruning makes the files fit: when each file that is tried can be removed, what stays has no
/// more bytes than the limit.
pub proof fn law_pruning_makes_the_files_fit(pruning: PruningView)
    requires
        pruning.total <= pending_size(pruning.pending) + pruning.limit,
    ensures
        pruning.done().total <= pruning.limit,
        pruning.total <= pruning.limit ==> pruning.done() == pruning,
    decreases pruning.pending.len(),
{
    if !pruning.is_done() {
        law_pruning_makes_the_files_fit(pruning.after_try(true));
    }
}

/// How many files leave until a pruning is done.
pub open spec fn removals(pruning: PruningView) -> nat
    decreases pruning.pending.len(),
{
    if pruning.is_done() {
        0
    } else {
        1 + removals(pruning.after_try(true))
    }
}

/// No file leaves that need not: the files that leave are the shortest run of the oldest ones
/// whose removal makes the rest fit. As long as fewer are gone, what is left has more bytes than
/// the limit.
pub proof fn law_the_shortest_run_leaves(pruning: PruningView, fewer: nat)
    requires
        pruning.total == pending_size(pruning.pending),
    ensures
        removals(pruning) <= pruning.pending.len(),
        pruning.done() == pruning.after_removals(removals(pruning)),
        pruning.done().pending == pruning.pending.take(
            pruning.pending.len() - removals(pruning),
        ),
        pruning.done().total == pending_size(pruning.done().pending),
        pruning.done().total <= pruning.limit,
        fewer < removals(pruning) ==> pruning.after_removals(fewer).total == pending_size(
            pruning.pending.take(pruning.pending.len() - fewer),
        ) && pruning.after_removals(fewer).total > pruning.limit,
    decreases pruning.pending.len(),
{
    let len = pruning.pending.len();
    assert(pruning.pending.take(len as int) =~= pruning.pending);
    if !pruning.is_done() {
        let next = pruning.after_try(true);
        let after = removals(next);
        law_the_shortest_run_leaves(next, if fewer > 0 {
            (fewer - 1) as nat
        } else {
            0
        });
        lemma_removals_shift(pruning, after);
        if fewer > 0 {
            lemma_removals_shift(pruning, (fewer - 1) as nat);
            if fewer < removals(pruning) {
                assert(next.pending.take(next.pending.len() - (fewer - 1)) =~= pruning.pending.take(
                    len - fewer,
                ));
            }
        }
        assert(next.pending.take(next.pending.len() - after) =~= pruning.pending.take(
            len - removals(pruning),
        ));
    }
}

/// One removal and then some more are one more.
proof fn lemma_removals_shift(pruning: PruningView, count: nat)
    ensures
        pruning.after_removals(count + 1) == pruning.after_try(true).after_removals(count),
    decreases count,
{
    if count > 0 {
        lemma_removals_shift(pruning, (count - 1) as nat);
    } else {
        assert(pruning.after_removals(0) == pruning);
        assert(pruning.after_removals(1) == pruning.after_removals(0).after_try(true));
    }
}

/// The file name tells tracks apart by their bytes: tracks that agree in all but one of title,
/// one artist, album and duration, each normalized, have different bytes, and so another digest to
/// be filed under; and every track's bytes begin with the version of the comparison.
pub proof fn law_bytes_tell_tracks_apart(
    track: crate::domain::RawTrackView,
    title: Seq<char>,
    album: Seq<char>,
    at: int,
    artist: Seq<char>,
    duration_ms: Option<u64>,
)
    ensures
        ({
            let other = |text: Seq<char>| crate::verification::normalized(text);
            &&& track_bytes(track).len() > 0 && track_bytes(track)[0] == 3
            &&& other(title) != other(track.title) ==> track_bytes(
                crate::domain::RawTrackView { title, ..track },
            ) != track_bytes(track)
            &&& other(album) != other(track.album) ==> track_bytes(
                crate::domain::RawTrackView { album, ..track },
            ) != track_bytes(track)
            &&& duration_ms != track.duration_ms ==> track_bytes(
                crate::domain::RawTrackView { duration_ms, ..track },
            ) != track_bytes(track)
            &&& 0 <= at < track.artists.len() && other(artist) != other(track.artists[at])
                ==> track_bytes(
                crate::domain::RawTrackView { artists: track.artists.update(at, artist), ..track },
            ) != track_bytes(track)
            &&& track_bytes(
                crate::domain::RawTrackView { artists: track.artists.push(artist), ..track },
            ) != track_bytes(track)
        }),
{
    let t = vstd::utf8::encode_utf8(crate::verification::normalized(track.title));
    let a = artist_bytes(crate::verification::all_normalized(track.artists));
    let l = vstd::utf8::encode_utf8(crate::verification::normalized(track.album));
    let d = duration_bytes(track.duration_ms);
    let head = seq![MATCHER_VERSION];
    let gap = seq![0u8];
    let bytes = track_bytes(track);
    assert(bytes =~= head + t + (a + gap + l + d));
    assert(bytes =~= (head + t + a + gap) + l + d);
    assert(bytes =~= (head + t) + a + (gap + l + d));
    assert(bytes =~= (head + t + a + gap + l) + d + Seq::<u8>::empty());
    assert(bytes[0] == 3);
    let t2 = vstd::utf8::encode_utf8(crate::verification::normalized(title));
    let other_title = crate::domain::RawTrackView { title, ..track };
    assert(track_bytes(other_title) =~= head + t2 + (a + gap + l + d));
    if t2 == t {
        lemma_encoding_is_one_to_one(
            crate::verification::normalized(title),
            crate::verification::normalized(track.title),
        );
    } else {
        lemma_middle_tells_apart(head, t, t2, a + gap + l + d);
    }
    let l2 = vstd::utf8::encode_utf8(crate::verification::normalized(album));
    let other_album = crate::domain::RawTrackView { album, ..track };
    assert(track_bytes(other_album) =~= (head + t + a + gap) + l2 + d);
    if l2 == l {
        lemma_encoding_is_one_to_one(
            crate::verification::normalized(album),
            crate::verification::normalized(track.album),
        );
    } else {
        lemma_middle_tells_apart(head + t + a + gap, l, l2, d);
    }
    let d2 = duration_bytes(duration_ms);
    let other_duration = crate::domain::RawTrackView { duration_ms, ..track };
    assert(track_bytes(other_duration) =~= (head + t + a + gap + l) + d2 + Seq::<u8>::empty());
    if duration_ms != track.duration_ms {
        vstd::bytes::lemma_auto_spec_u64_to_from_le_bytes();
        if duration_ms is Some && track.duration_ms is Some && d2 == d {
            assert(vstd::bytes::spec_u64_from_le_bytes(d2) == duration_ms->0);
            assert(vstd::bytes::spec_u64_from_le_bytes(d) == track.duration_ms->0);
        }
        if duration_ms is Some {
            assert(d2.len() == 8);
        }
        if track.duration_ms is Some {
            assert(d.len() == 8);
        }
        assert(d2 != d);
        lemma_middle_tells_apart(head + t + a + gap + l, d, d2, Seq::empty());
    }
    let names = crate::verification::all_normalized(track.artists);
    let name = crate::verification::normalized(artist);
    if 0 <= at < track.artists.len() {
        let artists = track.artists.update(at, artist);
        assert(crate::verification::all_normalized(artists) =~= names.update(at, name));
        let a2 = artist_bytes(names.update(at, name));
        let other_artist = crate::domain::RawTrackView { artists, ..track };
        assert(track_bytes(other_artist) =~= (head + t) + a2 + (gap + l + d));
        if name != crate::verification::normalized(track.artists[at]) {
            lemma_artists_tell_apart(names, at, name);
            lemma_middle_tells_apart(head + t, a, a2, gap + l + d);
        }
    }
    let more = track.artists.push(artist);
    assert(crate::verification::all_normalized(more) =~= names.push(name));
    assert(names.push(name).drop_last() =~= names);
    let a3 = artist_bytes(names.push(name));
    assert(a3.len() > a.len());
    let other_artists = crate::domain::RawTrackView { artists: more, ..track };
    assert(track_bytes(other_artists) =~= (head + t) + a3 + (gap + l + d));
    lemma_middle_tells_apart(head + t, a, a3, gap + l + d);
}

proof fn lemma_middle_tells_apart(front: Seq<u8>, one: Seq<u8>, other: Seq<u8>, back: Seq<u8>)
    requires
        one != other,
    ensures
        front + one + back != front + other + back,
{
    if front + one + back == front + other + back {
        let a = front + one + back;
        let b = front + other + back;
        assert(a.len() == b.len());
        assert(one =~= a.subrange(front.len() as int, front.len() as int + one.len()));
        assert(other =~= b.subrange(front.len() as int, front.len() as int + other.len()));
    }
}

proof fn lemma_encoding_is_one_to_one(one: Seq<char>, other: Seq<char>)
    requires
        vstd::utf8::encode_utf8(one) == vstd::utf8::encode_utf8(other),
    ensures
        one == other,
{
    vstd::utf8::encode_utf8_decode_utf8(one);
    vstd::utf8::encode_utf8_decode_utf8(other);
}

proof fn lemma_artists_tell_apart(names: Seq<Seq<char>>, at: int, name: Seq<char>)
    requires
        0 <= at < names.len(),
        names[at] != name,
    ensures
        artist_bytes(names.update(at, name)) != artist_bytes(names),
    decreases names.len(),
{
    let changed = names.update(at, name);
    let gap = seq![0u8];
    let last = vstd::utf8::encode_utf8(names.last());
    if at == names.len() - 1 {
        assert(changed.drop_last() =~= names.drop_last());
        let front = artist_bytes(names.drop_last()) + gap;
        let other = vstd::utf8::encode_utf8(name);
        if other == last {
            lemma_encoding_is_one_to_one(name, names[at]);
        }
        lemma_middle_tells_apart(front, last, other, Seq::empty());
        assert(artist_bytes(names) =~= front + last + Seq::<u8>::empty());
        assert(artist_bytes(changed) =~= front + other + Seq::<u8>::empty());
    } else {
        assert(changed.drop_last() =~= names.drop_last().update(at, name));
        lemma_artists_tell_apart(names.drop_last(), at, name);
        let empty = Seq::<u8>::empty();
        lemma_middle_tells_apart(
            empty,
            artist_bytes(names.drop_last()),
            artist_bytes(changed.drop_last()),
            gap + last,
        );
        assert(artist_bytes(names) =~= empty + artist_bytes(names.drop_last()) + (gap + last));
        assert(artist_bytes(changed) =~= empty + artist_bytes(changed.drop_last()) + (gap + last));
    }
}

/// A verified track holds for thirty days and any other outcome for an hour, to the second; what
/// was kept later than now holds.
pub proof fn law_outcomes_hold_for_their_time(saved: u64, now: u64, status: VerificationStatus)
    ensures
        status == VerificationStatus::Verified ==> (still_holds(saved, now, status) <==> now - saved
            < 30 * 24 * 3600),
        status != VerificationStatus::Verified ==> (still_holds(saved, now, status) <==> now - saved
            < 3600),
        now <= saved ==> still_holds(saved, now, status),
{
}

/// In the order in which files leave no file stands behind a younger one, and every file stands in
/// it once.
pub proof fn law_older_files_leave_first(
    files: Seq<CachedFile>,
    order: Seq<usize>,
    first: int,
    second: int,
)
    requires
        is_leaving_order(files, order),
        0 <= first < second < order.len(),
    ensures
        order.len() == files.len(),
        order[first] != order[second],
        files[order[first] as int].modified <= files[order[second] as int].modified,
{
    assert(leaves_before(files, order[first] as int, order[second] as int));
}

/// One file is tried at a time, and only while there are more bytes than allowed: a file that could
/// be removed takes its bytes with it, and one that could not changes nothing but that it was
/// tried.
pub proof fn law_one_file_is_tried_at_a_time(pruning: PruningView, removed: bool)
    ensures
        pruning.next_file() is Some <==> pruning.total > pruning.limit && pruning.pending.len() > 0,
        pruning.next_file() is Some ==> pruning.next_file()->0 == pruning.pending.last(),
        pruning.pending.len() > 0 ==> {
            let next = pruning.after_try(removed);
            let size = pruning.pending.last().1;
            &&& next.limit == pruning.limit
            &&& next.pending.push(pruning.pending.last()) == pruning.pending
            &&& !removed ==> next.total == pruning.total
            &&& removed && size <= pruning.total ==> next.total + size == pruning.total
            &&& removed && size > pruning.total ==> next.total == 0
        },
{
    if pruning.pending.len() > 0 {
        assert(pruning.after_try(removed).pending.push(pruning.pending.last())
            =~= pruning.pending);
    }
}

/// The file of a track bears the digest of the track's bytes in hexadecimal, and the ending of its
/// kind.
pub proof fn law_files_are_named_by_their_digest(track: crate::domain::RawTrackView)
    ensures
        file_name_for(track) == crate::digest::hex(crate::digest::sha256(track_bytes(track)))
            + ".json"@,
{
}

/// Bytes add up file by file.
pub proof fn law_sizes_add_up(
    files: Seq<CachedFile>,
    file: CachedFile,
    pending: Seq<(usize, u64)>,
    next: (usize, u64),
    order: Seq<usize>,
)
    ensures
        total_size(files.push(file)) == total_size(files) + file.size,
        total_size(Seq::empty()) == 0,
        pending_size(pending.push(next)) == pending_size(pending) + next.1,
        pending_size(Seq::empty()) == 0,
        order.len() > 0 ==> pending_in(files, order).last() == (
            order[0],
            files[order[0] as int].size,
        ),
        pending_in(files, order).len() == order.len(),
{
    assert(files.push(file).drop_last() =~= files);
    assert(pending.push(next).drop_last() =~= pending);
}

} // verus!
