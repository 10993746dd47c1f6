//! A user's conduct: which commendations and bans count, how often a sender's have counted
//! before, and the rank that a score gives.
//!
//! Times are UTC, in seconds and nanoseconds since the epoch. A score is given in
//! hundredths. The weights themselves are real numbers and are computed by the caller.
use crate::proto::{clone_opt, opt_view, views};
use crate::text::same;
use vstd::prelude::*;

verus! {

/// How old an event may be and still count: three years of 365.25 days, in seconds.
pub const COUNTED_SECONDS: i64 = 94672800;

/// Bans shorter than this are no misconduct, in seconds.
pub const ONE_HOUR_IN_SECONDS: u64 = 3600;

/// A point in time.
#[derive(Debug, Clone, Copy, PartialEq, Eq, Structural)]
pub struct Timestamp {
    pub secs: i64,
    /// Below two thousand million: a leap second counts on.
    pub nanos: u32,
}

/// Nanoseconds since the epoch.
pub open spec fn nanos_of(t: Timestamp) -> int {
    t.secs * 1_000_000_000 + t.nanos
}

/// The rank that a score gives.
#[derive(Debug, Clone, Copy, PartialEq, Eq, Structural)]
pub enum ConductRank {
    Trash,
    /// No customization of chat messages.
    Dirt,
    /// Hidden from chat.
    Concrete,
    Copper,
    Bronze,
    Silver,
    Gold,
    /// Gets no negative points.
    Platinum,
    Diamond,
    /// May send GIFs.
    Obsidian,
    Opal,
}

/// What a rank multiplies points by, in hundredths.
pub open spec fn multiplier_of(rank: ConductRank) -> u32 {
    match rank {
        ConductRank::Trash => 50,
        ConductRank::Copper => 75,
        ConductRank::Bronze => 85,
        ConductRank::Gold => 110,
        ConductRank::Diamond => 120,
        ConductRank::Opal => 150,
        _ => 100,
    }
}

impl ConductRank {
    /// What this rank multiplies points by, in hundredths.
    pub fn score_multiplier(&self) -> (r: u32)
        ensures
            r == multiplier_of(*self),
    {
        match self {
            ConductRank::Trash => 50,
            ConductRank::Copper => 75,
            ConductRank::Bronze => 85,
            ConductRank::Gold => 110,
            ConductRank::Diamond => 120,
            ConductRank::Opal => 150,
            _ => 100,
        }
    }
}

/// The rank of a score in hundredths.
pub open spec fn rank_of_score(score: int) -> ConductRank {
    if score <= -400 {
        ConductRank::Trash
    } else if score <= -300 {
        ConductRank::Dirt
    } else if score <= -200 {
        ConductRank::Concrete
    } else if score <= -100 {
        ConductRank::Copper
    } else if score <= 0 {
        ConductRank::Bronze
    } else if score <= 100 {
        ConductRank::Silver
    } else if score <= 200 {
        ConductRank::Gold
    } else if score <= 300 {
        ConductRank::Platinum
    } else if score <= 400 {
        ConductRank::Diamond
    } else if score <= 450 {
        ConductRank::Obsidian
    } else {
        ConductRank::Opal
    }
}

/// The rank of a score in hundredths.
pub fn conduct_rank(score: i64) -> (r: ConductRank)
    ensures
        r == rank_of_score(score as int),
{
    if score <= -400 {
        ConductRank::Trash
    } else if score <= -300 {
        ConductRank::Dirt
    } else if score <= -200 {
        ConductRank::Concrete
    } else if score <= -100 {
        ConductRank::Copper
    } else if score <= 0 {
        ConductRank::Bronze
    } else if score <= 100 {
        ConductRank::Silver
    } else if score <= 200 {
        ConductRank::Gold
    } else if score <= 300 {
        ConductRank::Platinum
    } else if score <= 400 {
        ConductRank::Diamond
    } else if score <= 450 {
        ConductRank::Obsidian
    } else {
        ConductRank::Opal
    }
}

/// A commendation of a user.
#[derive(Debug)]
pub struct CommendationRecord {
    pub id: String,
    pub sender_id: String,
    pub created_at: Timestamp,
    pub message_id: Option<String>,
}

/// What a [`CommendationRecord`] says.
#[verifier::ext_equal]
pub struct CommendationRecordView {
    pub id: Seq<char>,
    pub sender_id: Seq<char>,
    pub created_at: Timestamp,
    pub message_id: Option<Seq<char>>,
}

impl View for CommendationRecord {
    type V = CommendationRecordView;

    open spec fn view(&self) -> CommendationRecordView {
        CommendationRecordView {
            id: self.id@,
            sender_id: self.sender_id@,
            created_at: self.created_at,
            message_id: opt_view(self.message_id),
        }
    }
}

impl Clone for CommendationRecord {
    fn clone(&self) -> (r: Self)
        ensures
            r@ == self@,
    {
        CommendationRecord {
            id: self.id.clone(),
            sender_id: self.sender_id.clone(),
            created_at: self.created_at,
            message_id: clone_opt(&self.message_id),
        }
    }
}

/// A ban of a user.
#[derive(Debug)]
pub struct BanRecord {
    pub id: String,
    pub duration_seconds: u64,
    pub created_at: Timestamp,
}

/// What a [`BanRecord`] says.
#[verifier::ext_equal]
pub struct BanRecordView {
    pub id: Seq<char>,
    pub duration_seconds: u64,
    pub created_at: Timestamp,
}

impl View for BanRecord {
    type V = BanRecordView;

    open spec fn view(&self) -> BanRecordView {
        BanRecordView {
            id: self.id@,
            duration_seconds: self.duration_seconds,
            created_at: self.created_at,
        }
    }
}

impl Clone for BanRecord {
    fn clone(&self) -> (r: Self)
        ensures
            r@ == self@,
    {
        BanRecord {
            id: self.id.clone(),
            duration_seconds: self.duration_seconds,
            created_at: self.created_at,
        }
    }
}

/// Whole seconds between two points in time, the fraction dropped.
pub open spec fn seconds_between(event: Timestamp, now: Timestamp) -> int {
    let d = nanos_of(now) - nanos_of(event);
    if d >= 0 {
        d / 1_000_000_000
    } else {
        -((-d) / 1_000_000_000)
    }
}

/// Whether an event still counts: it is younger than three years, or lies ahead.
pub open spec fn counts(event: Timestamp, now: Timestamp) -> bool {
    seconds_between(event, now) < COUNTED_SECONDS
}

/// Whole seconds between two points in time.
pub fn elapsed_seconds(event: Timestamp, now: Timestamp) -> (r: i128)
    ensures
        r == seconds_between(event, now),
{
    let d: i128 = (now.secs as i128 * 1_000_000_000i128 + now.nanos as i128) - (event.secs as i128
        * 1_000_000_000i128 + event.nanos as i128);
    if d >= 0 {
        d / 1_000_000_000i128
    } else {
        let e: i128 = -d;
        -(e / 1_000_000_000i128)
    }
}

/// The order of two points in time.
pub open spec fn not_after(a: Timestamp, b: Timestamp) -> bool {
    a.secs < b.secs || (a.secs == b.secs && a.nanos <= b.nanos)
}

fn is_not_after(a: Timestamp, b: Timestamp) -> (r: bool)
    ensures
        r == not_after(a, b),
{
    a.secs < b.secs || (a.secs == b.secs && a.nanos <= b.nanos)
}

/// The commendations with one behind those that are not later.
pub open spec fn insert_by_time(
    list: Seq<CommendationRecordView>,
    c: CommendationRecordView,
) -> Seq<CommendationRecordView>
    decreases list.len(),
{
    if list.len() == 0 || not_after(list.last().created_at, c.created_at) {
        list.push(c)
    } else {
        insert_by_time(list.drop_last(), c).push(list.last())
    }
}

/// The commendations by time; those of one time keep their order.
pub open spec fn by_time(list: Seq<CommendationRecordView>) -> Seq<CommendationRecordView>
    decreases list.len(),
{
    if list.len() == 0 {
        Seq::empty()
    } else {
        insert_by_time(by_time(list.drop_last()), list.last())
    }
}

/// How many commendations of a sender count.
pub open spec fn counted_from(
    list: Seq<CommendationRecordView>,
    sender: Seq<char>,
    now: Timestamp,
) -> nat
    decreases list.len(),
{
    if list.len() == 0 {
        0
    } else {
        counted_from(list.drop_last(), sender, now) + if list.last().sender_id == sender && counts(
            list.last().created_at,
            now,
        ) {
            1nat
        } else {
            0
        }
    }
}

/// What a commendation that counts is weighed by: its age in seconds, and the how manieth
/// of its sender it is.
#[derive(Debug, Clone, Copy, PartialEq, Eq, Structural)]
pub struct Weighing {
    pub elapsed: i128,
    pub occurrence: usize,
}

/// What the commendations that count are weighed by, in order of time.
pub open spec fn weighings(list: Seq<CommendationRecordView>, now: Timestamp) -> Seq<Weighing>
    decreases list.len(),
{
    if list.len() == 0 {
        Seq::empty()
    } else {
        let front = weighings(list.drop_last(), now);
        let c = list.last();
        if counts(c.created_at, now) {
            front.push(
                Weighing {
                    elapsed: seconds_between(c.created_at, now) as i128,
                    occurrence: counted_from(list, c.sender_id, now) as usize,
                },
            )
        } else {
            front
        }
    }
}

fn insert_commendation(list: &mut Vec<CommendationRecord>, c: CommendationRecord)
    ensures
        views(final(list)@) == insert_by_time(views(old(list)@), c@),
{
    let ghost all = views(list@);
    let mut i: usize = list.len();
    assert(all.take(i as int) =~= all);
    assert(insert_by_time(all, c@) =~= insert_by_time(all.take(i as int), c@) + all.skip(
        i as int,
    ));
    while i > 0 && !is_not_after(list[i - 1].created_at, c.created_at)
        invariant
            i <= list@.len(),
            all == views(list@),
            insert_by_time(all, c@) == insert_by_time(all.take(i as int), c@) + all.skip(
                i as int,
            ),
        decreases i,
    {
        proof {
            let t = all.take(i as int);
            assert(t.last() == all[i - 1]);
            assert(all[i - 1] == list@[i - 1]@);
            assert(t.drop_last() =~= all.take(i - 1));
            assert(insert_by_time(all.take(i - 1), c@).push(all[i - 1]) + all.skip(i as int)
                =~= insert_by_time(all.take(i - 1), c@) + all.skip(i - 1));
        }
        i = i - 1;
    }
    proof {
        if i > 0 {
            assert(all.take(i as int).last() == all[i - 1]);
            assert(all[i - 1] == list@[i - 1]@);
        }
        assert(all.take(i as int).push(c@) + all.skip(i as int) =~= all.insert(i as int, c@));
    }
    list.insert(i, c);
    assert(views(list@) =~= all.insert(i as int, c@));
}

/// The commendations by time.
pub fn sort_commendations(list: &Vec<CommendationRecord>) -> (r: Vec<CommendationRecord>)
    ensures
        views(r@) == by_time(views(list@)),
{
    let ghost all = views(list@);
    let mut out: Vec<CommendationRecord> = Vec::new();
    let mut i: usize = 0;
    assert(views(out@) =~= by_time(all.take(0)));
    while i < list.len()
        invariant
            i <= list@.len(),
            all == views(list@),
            views(out@) == by_time(all.take(i as int)),
        decreases list@.len() - i,
    {
        assert(all.take(i + 1).drop_last() =~= all.take(i as int));
        insert_commendation(&mut out, list[i].clone());
        i = i + 1;
    }
    assert(all.take(i as int) =~= all);
    out
}

fn count_sender(list: &Vec<CommendationRecord>, n: usize, sender: &str, now: Timestamp) -> (r:
    usize)
    requires
        n <= list@.len(),
    ensures
        r == counted_from(views(list@).take(n as int), sender@, now),
        r <= n,
{
    let ghost all = views(list@);
    let mut count: usize = 0;
    let mut i: usize = 0;
    while i < n
        invariant
            i <= n <= list@.len(),
            all == views(list@),
            count <= i,
            count == counted_from(all.take(i as int), sender@, now),
        decreases n - i,
    {
        assert(all.take(i + 1).drop_last() =~= all.take(i as int));
        assert(all.take(i + 1).last() == list@[i as int]@);
        if same(list[i].sender_id.as_str(), sender) && elapsed_seconds(list[i].created_at, now)
            < COUNTED_SECONDS as i128 {
            count = count + 1;
        }
        i = i + 1;
    }
    count
}

/// What a user's commendations are weighed by: those that count, in order of time, each
/// with its age and how many of its sender have counted by then.
pub fn weigh_commendations(commendations: &Vec<CommendationRecord>, now: Timestamp) -> (r: Vec<
    Weighing,
>)
    ensures
        r@ == weighings(by_time(views(commendations@)), now),
{
    let list = sort_commendations(commendations);
    let ghost all = views(list@);
    let mut out: Vec<Weighing> = Vec::new();
    let mut i: usize = 0;
    assert(out@ =~= weighings(all.take(0), now));
    while i < list.len()
        invariant
            i <= list@.len(),
            all == views(list@),
            out@ == weighings(all.take(i as int), now),
        decreases list@.len() - i,
    {
        assert(all.take(i + 1).drop_last() =~= all.take(i as int));
        assert(all.take(i + 1).last() == list@[i as int]@);
        let elapsed = elapsed_seconds(list[i].created_at, now);
        if elapsed < COUNTED_SECONDS as i128 {
            let occurrence = count_sender(&list, i + 1, list[i].sender_id.as_str(), now);
            out.push(Weighing { elapsed, occurrence });
        }
        i = i + 1;
    }
    assert(all.take(i as int) =~= all);
    out
}

/// The ages of the bans that count, in seconds: an hour or longer, and recent enough.
pub open spec fn ban_ages(bans: Seq<BanRecordView>, now: Timestamp) -> Seq<i128>
    decreases bans.len(),
{
    if bans.len() == 0 {
        Seq::empty()
    } else {
        let front = ban_ages(bans.drop_last(), now);
        let b = bans.last();
        if b.duration_seconds >= ONE_HOUR_IN_SECONDS && counts(b.created_at, now) {
            front.push(seconds_between(b.created_at, now) as i128)
        } else {
            front
        }
    }
}

/// The ages of the bans that count, in seconds.
pub fn weigh_bans(bans: &Vec<BanRecord>, now: Timestamp) -> (r: Vec<i128>)
    ensures
        r@ == ban_ages(views(bans@), now),
{
    let ghost all = views(bans@);
    let mut out: Vec<i128> = Vec::new();
    let mut i: usize = 0;
    assert(out@ =~= ban_ages(all.take(0), now));
    while i < bans.len()
        invariant
            i <= bans@.len(),
            all == views(bans@),
            out@ == ban_ages(all.take(i as int), now),
        decreases bans@.len() - i,
    {
        assert(all.take(i + 1).drop_last() =~= all.take(i as int));
        assert(all.take(i + 1).last() == bans@[i as int]@);
        if bans[i].duration_seconds >= ONE_HOUR_IN_SECONDS {
            let elapsed = elapsed_seconds(bans[i].created_at, now);
            if elapsed < COUNTED_SECONDS as i128 {
                out.push(elapsed);
            }
        }
        i = i + 1;
    }
    assert(all.take(i as int) =~= all);
    out
}

/// The place of a rank, from the worst up.
pub open spec fn rank_number(rank: ConductRank) -> int {
    match rank {
        ConductRank::Trash => 0,
        ConductRank::Dirt => 1,
        ConductRank::Concrete => 2,
        ConductRank::Copper => 3,
        ConductRank::Bronze => 4,
        ConductRank::Silver => 5,
        ConductRank::Gold => 6,
        ConductRank::Platinum => 7,
        ConductRank::Diamond => 8,
        ConductRank::Obsidian => 9,
        ConductRank::Opal => 10,
    }
}

/// A better score never gives a worse rank.
pub proof fn law_rank_rises_with_score(a: int, b: int)
    requires
        a <= b,
    ensures
        rank_number(rank_of_score(a)) <= rank_number(rank_of_score(b)),
{
}

/// A short ban or an old one does not count: without it the ages are the same.
pub proof fn law_short_bans_do_not_count(bans: Seq<BanRecordView>, i: int, now: Timestamp)
    requires
        0 <= i < bans.len(),
        bans[i].duration_seconds < ONE_HOUR_IN_SECONDS || !counts(bans[i].created_at, now),
    ensures
        ban_ages(bans.remove(i), now) == ban_ages(bans, now),
    decreases bans.len(),
{
    let front = bans.drop_last();
    let without = bans.remove(i);
    if i < front.len() {
        assert(front[i] == bans[i]);
        law_short_bans_do_not_count(front, i, now);
        assert(without.drop_last() =~= front.remove(i));
        assert(without.last() == bans.last());
    } else {
        assert(without =~= front);
    }
}

/// The commendations that count, in order.
pub open spec fn counting(list: Seq<CommendationRecordView>, now: Timestamp) -> Seq<
    CommendationRecordView,
>
    decreases list.len(),
{
    if list.len() == 0 {
        Seq::empty()
    } else {
        let front = counting(list.drop_last(), now);
        if counts(list.last().created_at, now) {
            front.push(list.last())
        } else {
            front
        }
    }
}

/// No commendation stands before an earlier one.
spec fn ordered(list: Seq<CommendationRecordView>) -> bool {
    forall|i: int, j: int| #![trigger list[i], list[j]]
        0 <= i < j < list.len() ==> not_after(list[i].created_at, list[j].created_at)
}

proof fn lemma_insert_keeps_order(
    list: Seq<CommendationRecordView>,
    c: CommendationRecordView,
)
    requires
        ordered(list),
    ensures
        ordered(insert_by_time(list, c)),
        insert_by_time(list, c).len() == list.len() + 1,
        forall|t: Timestamp|
            not_after(c.created_at, t) && (forall|i: int|
                0 <= i < list.len() ==> not_after((#[trigger] list[i]).created_at, t))
                ==> forall|i: int|
                0 <= i < insert_by_time(list, c).len() ==> #[trigger] not_after(
                    insert_by_time(list, c)[i].created_at,
                    t,
                ),
    decreases list.len(),
{
    let all = insert_by_time(list, c);
    if list.len() == 0 || not_after(list.last().created_at, c.created_at) {
        assert forall|i: int, j: int| #![trigger all[i], all[j]]
            0 <= i < j < all.len() implies not_after(all[i].created_at, all[j].created_at) by {
            if j == list.len() {
                assert(all[i] == list[i]);
                assert(list[list.len() - 1] == list.last());
                if i < list.len() - 1 {
                    assert(not_after(list[i].created_at, list[list.len() - 1].created_at));
                }
            } else {
                assert(all[i] == list[i] && all[j] == list[j]);
            }
        }
        assert forall|t: Timestamp|
            not_after(c.created_at, t) && (forall|i: int|
                0 <= i < list.len() ==> not_after((#[trigger] list[i]).created_at, t)) implies forall|
            i: int,
        |
            0 <= i < all.len() ==> #[trigger] not_after(all[i].created_at, t) by {
            assert forall|i: int| 0 <= i < all.len() implies #[trigger] not_after(
                all[i].created_at,
                t,
            ) by {
                if i < list.len() {
                    assert(all[i] == list[i]);
                }
            }
        }
    } else {
        let front = list.drop_last();
        let last = list.last();
        assert(list[list.len() - 1] == last);
        assert(ordered(front));
        lemma_insert_keeps_order(front, c);
        let f = insert_by_time(front, c);
        assert forall|i: int| 0 <= i < front.len() implies not_after(
            (#[trigger] front[i]).created_at,
            last.created_at,
        ) by {
            assert(not_after(list[i].created_at, list[list.len() - 1].created_at));
        }
        assert(not_after(c.created_at, last.created_at));
        assert forall|i: int, j: int| #![trigger all[i], all[j]]
            0 <= i < j < all.len() implies not_after(all[i].created_at, all[j].created_at) by {
            if j < f.len() {
                assert(all[i] == f[i] && all[j] == f[j]);
            } else {
                assert(all[i] == f[i]);
                assert(not_after(f[i].created_at, last.created_at));
            }
        }
        assert forall|t: Timestamp|
            not_after(c.created_at, t) && (forall|i: int|
                0 <= i < list.len() ==> not_after((#[trigger] list[i]).created_at, t)) implies forall|
            i: int,
        |
            0 <= i < all.len() ==> #[trigger] not_after(all[i].created_at, t) by {
            assert forall|i: int| 0 <= i < front.len() implies not_after(
                (#[trigger] front[i]).created_at,
                t,
            ) by {
                assert(front[i] == list[i]);
            }
            assert forall|i: int| 0 <= i < all.len() implies #[trigger] not_after(
                all[i].created_at,
                t,
            ) by {
                if i < f.len() {
                    assert(all[i] == f[i]);
                    assert(not_after(f[i].created_at, t));
                } else {
                    assert(not_after(list[list.len() - 1].created_at, t));
                }
            }
        }
    }
}

proof fn lemma_by_time_is_ordered(list: Seq<CommendationRecordView>)
    ensures
        ordered(by_time(list)),
    decreases list.len(),
{
    if list.len() > 0 {
        lemma_by_time_is_ordered(list.drop_last());
        lemma_insert_keeps_order(by_time(list.drop_last()), list.last());
    }
}

proof fn lemma_counting_within(list: Seq<CommendationRecordView>, now: Timestamp, t: Timestamp)
    requires
        forall|i: int| 0 <= i < list.len() ==> not_after((#[trigger] list[i]).created_at, t),
    ensures
        forall|i: int|
            0 <= i < counting(list, now).len() ==> not_after(
                (#[trigger] counting(list, now)[i]).created_at,
                t,
            ),
    decreases list.len(),
{
    if list.len() > 0 {
        let front = list.drop_last();
        assert forall|i: int| 0 <= i < front.len() implies not_after(
            (#[trigger] front[i]).created_at,
            t,
        ) by {
            assert(front[i] == list[i]);
        }
        lemma_counting_within(front, now, t);
        let f = counting(front, now);
        let all = counting(list, now);
        assert(list[list.len() - 1] == list.last());
        assert forall|i: int| 0 <= i < all.len() implies not_after(
            (#[trigger] all[i]).created_at,
            t,
        ) by {
            if i < f.len() {
                assert(all[i] == f[i]);
            }
        }
    }
}

proof fn lemma_counting_insert(
    list: Seq<CommendationRecordView>,
    c: CommendationRecordView,
    now: Timestamp,
)
    requires
        ordered(list),
    ensures
        counting(insert_by_time(list, c), now) == (if counts(c.created_at, now) {
            insert_by_time(counting(list, now), c)
        } else {
            counting(list, now)
        }),
    decreases list.len(),
{
    let kept = counting(list, now);
    if list.len() == 0 || not_after(list.last().created_at, c.created_at) {
        assert(list.push(c).drop_last() =~= list);
        assert forall|i: int| 0 <= i < list.len() implies not_after(
            (#[trigger] list[i]).created_at,
            c.created_at,
        ) by {
            assert(list[list.len() - 1] == list.last());
            if i < list.len() - 1 {
                assert(not_after(list[i].created_at, list[list.len() - 1].created_at));
            }
        }
        lemma_counting_within(list, now, c.created_at);
        if kept.len() > 0 {
            assert(not_after(kept[kept.len() - 1].created_at, c.created_at));
        }
    } else {
        let front = list.drop_last();
        let last = list.last();
        assert(ordered(front));
        lemma_counting_insert(front, c, now);
        let f = insert_by_time(front, c);
        assert(f.push(last).drop_last() =~= f);
        let k = counting(front, now);
        if counts(last.created_at, now) {
            assert(k.push(last).drop_last() =~= k);
        }
    }
}

proof fn lemma_counting_by_time(list: Seq<CommendationRecordView>, now: Timestamp)
    ensures
        counting(by_time(list), now) == by_time(counting(list, now)),
    decreases list.len(),
{
    if list.len() > 0 {
        let front = list.drop_last();
        lemma_counting_by_time(front, now);
        lemma_by_time_is_ordered(front);
        lemma_counting_insert(by_time(front), list.last(), now);
        let k = counting(front, now);
        if counts(list.last().created_at, now) {
            assert(k.push(list.last()).drop_last() =~= k);
        }
    }
}

proof fn lemma_counted_from(
    list: Seq<CommendationRecordView>,
    sender: Seq<char>,
    now: Timestamp,
)
    ensures
        counted_from(counting(list, now), sender, now) == counted_from(list, sender, now),
    decreases list.len(),
{
    if list.len() > 0 {
        let front = list.drop_last();
        lemma_counted_from(front, sender, now);
        let k = counting(front, now);
        if counts(list.last().created_at, now) {
            assert(k.push(list.last()).drop_last() =~= k);
        }
    }
}

proof fn lemma_weighings(list: Seq<CommendationRecordView>, now: Timestamp)
    ensures
        weighings(counting(list, now), now) == weighings(list, now),
    decreases list.len(),
{
    if list.len() > 0 {
        let front = list.drop_last();
        lemma_weighings(front, now);
        let k = counting(front, now);
        if counts(list.last().created_at, now) {
            assert(k.push(list.last()).drop_last() =~= k);
            lemma_counted_from(list, list.last().sender_id, now);
        }
    }
}

proof fn lemma_counting_without(
    list: Seq<CommendationRecordView>,
    i: int,
    now: Timestamp,
)
    requires
        0 <= i < list.len(),
        !counts(list[i].created_at, now),
    ensures
        counting(list.remove(i), now) == counting(list, now),
    decreases list.len(),
{
    let front = list.drop_last();
    let without = list.remove(i);
    if i < front.len() {
        assert(front[i] == list[i]);
        lemma_counting_without(front, i, now);
        assert(without.drop_last() =~= front.remove(i));
        assert(without.last() == list.last());
    } else {
        assert(without =~= front);
    }
}

/// An old commendation does not count: without it the others weigh the same.
pub proof fn law_old_commendations_do_not_count(
    list: Seq<CommendationRecordView>,
    i: int,
    now: Timestamp,
)
    requires
        0 <= i < list.len(),
        !counts(list[i].created_at, now),
    ensures
        weighings(by_time(list.remove(i)), now) == weighings(by_time(list), now),
{
    lemma_counting_without(list, i, now);
    lemma_counting_by_time(list, now);
    lemma_counting_by_time(list.remove(i), now);
    lemma_weighings(by_time(list), now);
    lemma_weighings(by_time(list.remove(i)), now);
}

} // verus!
