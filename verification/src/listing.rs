//! Listing the milestones of a group together with the progress of its members.

use vstd::prelude::*;
use vstd::string::StringExecFns;
use crate::find::{first_index, lemma_first_index_is};
use crate::group::{get_member_name, member_name_of, member_values, Member, MemberValue};
use crate::group_milestones::{milestone_values, BoardValue, MilestoneBoard};
use crate::json::{Json, JsonValue};
use crate::milestone::{GroupMilestone, MilestoneValue};
use crate::percent::{Percent, FULL_UNITS};
use crate::store::{ProgressStore, RecordValue};
use crate::text::same_text;

verus! {

/// The progress of one member toward a milestone, as it is listed.
#[derive(Debug, PartialEq, Eq)]
pub struct MemberMilestoneProgress {
    pub member_name: String,
    pub current_progress: Json,
    pub percent_complete: Percent,
    pub last_updated: i64,
}

/// The content of a listed progress; `units` is the percentage in millionths
/// of a percentage point.
pub struct MemberProgressValue {
    pub member_name: Seq<char>,
    pub detail: JsonValue,
    pub units: nat,
    pub last_updated: i64,
}

impl View for MemberMilestoneProgress {
    type V = MemberProgressValue;

    open spec fn view(&self) -> MemberProgressValue {
        MemberProgressValue {
            member_name: self.member_name@,
            detail: self.current_progress@,
            units: self.percent_complete.value(),
            last_updated: self.last_updated,
        }
    }
}

/// A milestone with the progress of the group toward it.
#[derive(Debug, PartialEq, Eq)]
pub struct MilestoneWithProgress {
    pub milestone: GroupMilestone,
    /// The mean of the members' percentages.
    pub group_progress: Percent,
    pub member_progress: Vec<MemberMilestoneProgress>,
}

/// The content of a listed milestone.
pub struct EntryValue {
    pub milestone: MilestoneValue,
    pub group_units: nat,
    pub member_progress: Seq<MemberProgressValue>,
}

/// The contents of a sequence of listed progress.
pub open spec fn row_values(rows: Seq<MemberMilestoneProgress>) -> Seq<MemberProgressValue> {
    Seq::new(rows.len(), |i: int| rows[i]@)
}

impl View for MilestoneWithProgress {
    type V = EntryValue;

    open spec fn view(&self) -> EntryValue {
        EntryValue {
            milestone: self.milestone@,
            group_units: self.group_progress.value(),
            member_progress: row_values(self.member_progress@),
        }
    }
}

/// The contents of a sequence of listed milestones.
pub open spec fn listing_values(entries: Seq<MilestoneWithProgress>) -> Seq<EntryValue> {
    Seq::new(entries.len(), |i: int| entries[i]@)
}

/// The answer to a request for the milestones of a group.
#[derive(Debug, PartialEq, Eq)]
pub struct MilestoneListResponse {
    pub milestones: Vec<MilestoneWithProgress>,
}

/// Which milestones a listing is to show.
#[derive(Clone, Debug, PartialEq, Eq)]
pub struct GetMilestonesParams {
    /// Show only the milestones of this type.
    pub milestone_type: Option<String>,
    /// Show the completed milestones as well.
    pub include_completed: bool,
}

/// Completed milestones are shown unless the request says otherwise.
pub fn default_true() -> (r: bool)
    ensures
        r,
{
    true
}

/// The progress that is listed for a milestone: its records, in the order of
/// the store, each under the name of its member. A record of someone who is
/// no member of the group is not listed.
pub open spec fn member_rows(members: Seq<MemberValue>, records: Seq<RecordValue>, milestone_id: i32) -> Seq<
    MemberProgressValue,
>
    decreases records.len(),
{
    if records.len() == 0 {
        Seq::empty()
    } else {
        let front = member_rows(members, records.drop_last(), milestone_id);
        let record = records.last();
        if record.milestone_id == milestone_id {
            match member_name_of(members, record.member_id) {
                Some(name) => front.push(
                    MemberProgressValue {
                        member_name: name,
                        detail: record.detail,
                        units: record.units,
                        last_updated: record.last_updated,
                    },
                ),
                None => front,
            }
        } else {
            front
        }
    }
}

/// The sum of the listed percentages.
pub open spec fn total_units(rows: Seq<MemberProgressValue>) -> nat
    decreases rows.len(),
{
    if rows.len() == 0 {
        0
    } else {
        total_units(rows.drop_last()) + rows.last().units
    }
}

/// The progress of the group: the mean of the listed percentages, rounded
/// down to a millionth of a percentage point, and zero where nothing is
/// listed. Members without a record do not count toward it.
pub open spec fn mean_units(rows: Seq<MemberProgressValue>) -> nat {
    if rows.len() == 0 {
        0
    } else {
        total_units(rows) / rows.len()
    }
}

/// The sum of percentages in range is at most as many times one hundred percent.
pub proof fn lemma_total_units_bound(rows: Seq<MemberProgressValue>)
    requires
        forall|i: int| 0 <= i < rows.len() ==> (#[trigger] rows[i]).units <= FULL_UNITS,
    ensures
        total_units(rows) <= rows.len() * FULL_UNITS,
        mean_units(rows) <= FULL_UNITS,
    decreases rows.len(),
{
    if rows.len() > 0 {
        let front = rows.drop_last();
        assert forall|i: int| 0 <= i < front.len() implies (#[trigger] front[i]).units
            <= FULL_UNITS by {}
        lemma_total_units_bound(front);
        assert(front.len() * FULL_UNITS + FULL_UNITS == rows.len() * FULL_UNITS)
            by (nonlinear_arith)
            requires
                front.len() + 1 == rows.len(),
        ;
        let total = total_units(rows) as int;
        let n = rows.len() as int;
        assert(total / n <= FULL_UNITS) by (nonlinear_arith)
            requires
                total <= n * FULL_UNITS,
                n > 0,
                total >= 0,
        ;
    }
}

/// Lists the progress of the members toward a milestone.
pub fn list_member_progress(members: &Vec<Member>, store: &ProgressStore, milestone_id: i32) -> (r:
    Vec<MemberMilestoneProgress>)
    ensures
        row_values(r@) == member_rows(member_values(members@), store@, milestone_id),
{
    let ghost names = member_values(members@);
    let mut rows: Vec<MemberMilestoneProgress> = Vec::new();
    let mut i: usize = 0;
    while i < store.len()
        invariant
            i <= store@.len(),
            names == member_values(members@),
            row_values(rows@) == member_rows(names, store@.take(i as int), milestone_id),
        decreases store@.len() - i,
    {
        proof {
            assert(store@.take(i + 1).drop_last() =~= store@.take(i as int));
        }
        let record = store.record(i);
        if record.milestone_id == milestone_id {
            match get_member_name(members, record.member_id) {
                Some(name) => {
                    let row = MemberMilestoneProgress {
                        member_name: String::from_str(name),
                        current_progress: record.current_progress.clone(),
                        percent_complete: record.percent_complete,
                        last_updated: record.last_updated,
                    };
                    rows.push(row);
                },
                None => {},
            }
        }
        i += 1;
    }
    assert(store@.take(store@.len() as int) =~= store@);
    rows
}

/// Computes the progress of a group from the listed progress of its members.
pub fn group_progress(rows: &Vec<MemberMilestoneProgress>) -> (r: Percent)
    ensures
        r.value() == mean_units(row_values(rows@)),
        r.in_range(),
{
    if rows.len() == 0 {
        return Percent::zero();
    }
    let ghost all = row_values(rows@);
    let mut total: u128 = 0;
    let mut i: usize = 0;
    while i < rows.len()
        invariant
            i <= rows.len(),
            all == row_values(rows@),
            total == total_units(all.take(i as int)),
            total <= i * FULL_UNITS,
            forall|j: int| 0 <= j < i ==> (#[trigger] all[j]).units <= FULL_UNITS,
        decreases rows.len() - i,
    {
        proof {
            assert(all.take(i + 1).drop_last() =~= all.take(i as int));
            assert(i * FULL_UNITS + FULL_UNITS == (i + 1) * FULL_UNITS) by (nonlinear_arith);
            assert((i + 1) * FULL_UNITS <= 0x1_0000_0000_0000_0000 * FULL_UNITS)
                by (nonlinear_arith)
                requires
                    i + 1 <= 0x1_0000_0000_0000_0000,
            ;
        }
        total = total + rows[i].percent_complete.units() as u128;
        i += 1;
    }
    proof {
        assert(all.take(rows.len() as int) =~= all);
        lemma_total_units_bound(all);
    }
    let mean: u128 = total / (rows.len() as u128);
    Percent::from_units(mean as u64)
}

/// The type that a request asks for, if it asks for one.
pub open spec fn wanted_type(query: GetMilestonesParams) -> Option<Seq<char>> {
    match query.milestone_type {
        Some(t) => Some(t@),
        None => None,
    }
}

/// Whether a milestone is shown: it is of the type that is asked for, if one
/// is, and it is not completed unless completed milestones are asked for too.
pub open spec fn shown(
    milestone: MilestoneValue,
    milestone_type: Option<Seq<char>>,
    include_completed: bool,
) -> bool {
    (match milestone_type {
        Some(t) => milestone.milestone_type == t,
        None => true,
    }) && (include_completed || !milestone.completed)
}

/// A milestone as it is listed: with the progress of the members and with
/// the progress of the group, which is the mean of theirs.
pub open spec fn entry_of(board: BoardValue, milestone: MilestoneValue) -> EntryValue {
    let rows = match milestone.milestone_id {
        Some(id) => member_rows(board.members, board.progress, id),
        None => Seq::empty(),
    };
    EntryValue { milestone, group_units: mean_units(rows), member_progress: rows }
}

/// The milestones among `milestones` that are shown, as they are listed, in
/// the order in which they stand.
pub open spec fn entries_of(
    board: BoardValue,
    milestones: Seq<MilestoneValue>,
    milestone_type: Option<Seq<char>>,
    include_completed: bool,
) -> Seq<EntryValue>
    decreases milestones.len(),
{
    if milestones.len() == 0 {
        Seq::empty()
    } else {
        let front = entries_of(board, milestones.drop_last(), milestone_type, include_completed);
        if shown(milestones.last(), milestone_type, include_completed) {
            front.push(entry_of(board, milestones.last()))
        } else {
            front
        }
    }
}

/// Whether `a` may stand before `b` in a listing: milestones that are not
/// completed come first, and among equals the one created later.
pub open spec fn may_precede(a: MilestoneValue, b: MilestoneValue) -> bool {
    if a.completed != b.completed {
        !a.completed
    } else {
        a.created_at >= b.created_at
    }
}

/// Whether a listing is in order.
pub open spec fn in_order(entries: Seq<EntryValue>) -> bool {
    forall|i: int, j: int|
        0 <= i < j < entries.len() ==> may_precede(
            (#[trigger] entries[i]).milestone,
            (#[trigger] entries[j]).milestone,
        )
}

/// Whether an entry may stand behind the milestone `milestone`.
pub open spec fn may_follow(milestone: MilestoneValue) -> spec_fn(EntryValue) -> bool {
    |e: EntryValue| may_precede(milestone, e.milestone)
}

/// A listing in order with one more entry put in its place: before the first
/// entry that it may precede, and last where there is none.
pub open spec fn placed(entries: Seq<EntryValue>, entry: EntryValue) -> Seq<EntryValue> {
    entries.insert(first_index(entries, may_follow(entry.milestone)), entry)
}

/// A listing put in order: its entries are put in their places one by one,
/// the last one first.
pub open spec fn arranged(entries: Seq<EntryValue>) -> Seq<EntryValue>
    decreases entries.len(),
{
    if entries.len() == 0 {
        Seq::empty()
    } else {
        placed(arranged(entries.drop_first()), entries[0])
    }
}

fn precedes(a: &GroupMilestone, b: &GroupMilestone) -> (r: bool)
    ensures
        r == may_precede(a@, b@),
{
    if a.completed != b.completed {
        !a.completed
    } else {
        a.created_at >= b.created_at
    }
}

/// Puts a listing in order: milestones that are not completed first, and
/// among equals the one created later first.
pub fn sort_entries(entries: Vec<MilestoneWithProgress>) -> (r: Vec<MilestoneWithProgress>)
    ensures
        listing_values(r@) == arranged(listing_values(entries@)),
        in_order(listing_values(r@)),
        listing_values(r@).to_multiset() == listing_values(entries@).to_multiset(),
{
    let ghost all = listing_values(entries@);
    let mut input = entries;
    let mut sorted: Vec<MilestoneWithProgress> = Vec::new();
    proof {
        assert(listing_values(sorted@).to_multiset() =~= vstd::multiset::Multiset::<
            EntryValue,
        >::empty()) by {
            broadcast use vstd::seq_lib::group_to_multiset_ensures;

        }
    }
    while input.len() > 0
        invariant
            input.len() <= all.len(),
            listing_values(input@) == all.take(input.len() as int),
            listing_values(sorted@) == arranged(all.skip(input.len() as int)),
            in_order(listing_values(sorted@)),
            listing_values(input@).to_multiset().add(listing_values(sorted@).to_multiset())
                == all.to_multiset(),
        decreases input.len(),
    {
        let ghost rest = listing_values(input@);
        let ghost done = listing_values(sorted@);
        let entry = input.pop().unwrap();
        proof {
            assert(rest =~= listing_values(input@).push(entry@));
            vstd::seq_lib::to_multiset_build(listing_values(input@), entry@);
        }
        let mut at: usize = 0;
        while at < sorted.len() && !precedes(&entry.milestone, &sorted[at].milestone)
            invariant
                at <= sorted.len(),
                done == listing_values(sorted@),
                forall|j: int|
                    0 <= j < at ==> !may_precede(entry@.milestone, (#[trigger] done[j]).milestone),
            decreases sorted.len() - at,
        {
            at += 1;
        }
        proof {
            assert forall|j: int| 0 <= j < at implies !may_follow(entry@.milestone)(
                #[trigger] done[j],
            ) by {}
            lemma_first_index_is(done, may_follow(entry@.milestone), at as int);
            let behind = all.skip(input.len() as int);
            assert(behind[0] == entry@) by {
                assert(rest[input.len() as int] == entry@);
            }
            assert(behind.drop_first() =~= all.skip(input.len() + 1));
        }
        sorted.insert(at, entry);
        proof {
            let after = listing_values(sorted@);
            assert(after =~= done.insert(at as int, entry@));
            vstd::seq_lib::to_multiset_insert(done, at as int, entry@);
            assert forall|i: int, j: int| 0 <= i < j < after.len() implies may_precede(
                (#[trigger] after[i]).milestone,
                (#[trigger] after[j]).milestone,
            ) by {
                if i == at && j - 1 > at {
                    assert(may_precede(done[at as int].milestone, done[j - 1].milestone));
                }
            }
        }
    }
    proof {
        assert(listing_values(input@).to_multiset() =~= vstd::multiset::Multiset::<
            EntryValue,
        >::empty()) by {
            broadcast use vstd::seq_lib::group_to_multiset_ensures;

        }
        assert(all.skip(0) =~= all);
    }
    sorted
}

/// Lists the milestones of a group that a request asks for, each with the
/// progress of the members and of the group: the milestones that are not
/// completed first, and among equals the newer one first.
pub fn get_group_milestones(board: &MilestoneBoard, query: &GetMilestonesParams) -> (r:
    MilestoneListResponse)
    ensures
        listing_values(r.milestones@) == arranged(
            entries_of(board@, board@.milestones, wanted_type(*query), query.include_completed),
        ),
        in_order(listing_values(r.milestones@)),
        listing_values(r.milestones@).to_multiset() == entries_of(
            board@,
            board@.milestones,
            wanted_type(*query),
            query.include_completed,
        ).to_multiset(),
{
    let milestones = board.milestones();
    let ghost all = board@.milestones;
    let ghost asked = wanted_type(*query);
    let mut entries: Vec<MilestoneWithProgress> = Vec::new();
    let mut i: usize = 0;
    while i < milestones.len()
        invariant
            i <= milestones.len(),
            all == milestone_values(milestones@),
            all == board@.milestones,
            asked == wanted_type(*query),
            listing_values(entries@) == entries_of(
                board@,
                all.take(i as int),
                asked,
                query.include_completed,
            ),
        decreases milestones.len() - i,
    {
        proof {
            assert(all.take(i + 1).drop_last() =~= all.take(i as int));
        }
        let milestone = &milestones[i];
        let of_type = match &query.milestone_type {
            Some(t) => same_text(milestone.milestone_type.as_str(), t.as_str()),
            None => true,
        };
        if of_type && (query.include_completed || !milestone.completed) {
            let member_progress = match milestone.milestone_id {
                Some(id) => list_member_progress(board.members(), board.progress(), id),
                None => Vec::new(),
            };
            proof {
                if milestone.milestone_id is None {
                    assert(row_values(member_progress@) =~= Seq::<MemberProgressValue>::empty());
                }
            }
            let entry = MilestoneWithProgress {
                milestone: milestone.clone(),
                group_progress: group_progress(&member_progress),
                member_progress,
            };
            entries.push(entry);
        }
        i += 1;
    }
    assert(all.take(milestones.len() as int) =~= all);
    MilestoneListResponse { milestones: sort_entries(entries) }
}

} // verus!
