//! Listing valuable drops page by page.

use vstd::prelude::*;
use vstd::string::StringExecFns;
use crate::text::{decimal_text, digits_of, same_text};

verus! {

/// Where a page of drops stands in the whole result.
#[derive(Debug, PartialEq, Eq)]
pub struct PaginationInfo {
    /// Number of drops that match the filter.
    pub total_count: i64,
    /// Number of drops before this page.
    pub offset: i64,
    /// Largest number of drops on a page.
    pub limit: i32,
    /// Whether drops remain behind this page.
    pub has_more: bool,
}

/// Quantity of a drop where none is given.
pub fn default_quantity() -> (r: i32)
    ensures
        r == 1,
{
    1
}

/// Page size where none is given.
pub fn default_limit() -> (r: i32)
    ensures
        r == 25,
{
    25
}

/// Sort field where none is given.
pub fn default_sort_field() -> (r: String)
    ensures
        r@ == "timestamp"@,
{
    String::from_str("timestamp")
}

/// Sort direction where none is given.
pub fn default_sort_direction() -> (r: String)
    ensures
        r@ == "desc"@,
{
    String::from_str("desc")
}

/// Describes the page of `returned` drops that starts at `offset`, out of
/// `total_count` matching drops.
pub fn page_info(total_count: i64, offset: i64, limit: i32, returned: usize) -> (r: PaginationInfo)
    ensures
        r.total_count == total_count,
        r.offset == offset,
        r.limit == limit,
        r.has_more == (offset + returned < total_count),
{
    let end: i128 = offset as i128 + returned as i128;
    PaginationInfo { total_count, offset, limit, has_more: end < total_count as i128 }
}

/// The page that is returned where nothing can match.
pub fn empty_page(offset: i64, limit: i32) -> (r: PaginationInfo)
    ensures
        r == (PaginationInfo { total_count: 0, offset, limit, has_more: false }),
{
    PaginationInfo { total_count: 0, offset, limit, has_more: false }
}

/// The column to sort by: the requested one where drops can be sorted by it,
/// else the time of the drop.
pub open spec fn sort_column_of(requested: Seq<char>) -> Seq<char> {
    if requested == "timestamp"@ || requested == "item_value"@ || requested == "item_name"@
        || requested == "source_name"@ {
        requested
    } else {
        "timestamp"@
    }
}

/// The column to sort by; no other text than these four ever reaches a query.
pub fn sort_column(requested: &str) -> (r: &'static str)
    ensures
        r@ == sort_column_of(requested@),
{
    if same_text(requested, "item_value") {
        "item_value"
    } else if same_text(requested, "item_name") {
        "item_name"
    } else if same_text(requested, "source_name") {
        "source_name"
    } else {
        "timestamp"
    }
}

/// The direction to sort in: ascending only where `asc` is asked for.
pub fn sort_direction(requested: &str) -> (r: &'static str)
    ensures
        r@ == (if requested@ == "asc"@ { "ASC"@ } else { "DESC"@ }),
{
    if same_text(requested, "asc") {
        "ASC"
    } else {
        "DESC"
    }
}

/// The value of `quantity` items worth `item_value` each, where it fits.
pub fn total_value(quantity: i32, item_value: i64) -> (r: Option<i64>)
    ensures
        r == (if i64::MIN <= quantity * item_value <= i64::MAX {
            Some((quantity * item_value) as i64)
        } else {
            None::<i64>
        }),
{
    assert(-0x8000_0000 * 0x8000_0000_0000_0000 <= quantity * item_value <= 0x8000_0000
        * 0x8000_0000_0000_0000) by (nonlinear_arith)
        requires
            -0x8000_0000 <= quantity < 0x8000_0000,
            -0x8000_0000_0000_0000 <= item_value < 0x8000_0000_0000_0000,
    ;
    let product: i128 = quantity as i128 * item_value as i128;
    if product < i64::MIN as i128 || product > i64::MAX as i128 {
        None
    } else {
        Some(product as i64)
    }
}

/// A request to note a valuable drop by hand.
#[derive(Clone, Debug, PartialEq, Eq)]
pub struct AddValuableDropRequest {
    /// Name of the member who received the drop.
    pub member_name: String,
    pub item_id: i32,
    pub item_name: String,
    pub item_quantity: i32,
    /// Value of one item.
    pub item_value: i64,
    /// Where the item came from.
    pub source_name: String,
    pub x_coord: Option<i32>,
    pub y_coord: Option<i32>,
    pub z_coord: Option<i32>,
    /// When the drop was received; now, where the request does not say.
    pub timestamp: Option<i64>,
}

impl AddValuableDropRequest {
    /// The time at which the drop is noted.
    pub fn time_or(&self, now: i64) -> (r: i64)
        ensures
            r == (match self.timestamp {
                Some(t) => t,
                None => now,
            }),
    {
        match self.timestamp {
            Some(t) => t,
            None => now,
        }
    }
}

/// Which drops a listing is to show, and how.
#[derive(Clone, Debug, PartialEq, Eq)]
pub struct GetValuableDropsParams {
    pub member_name: Option<String>,
    pub min_value: Option<i64>,
    pub source_name: Option<String>,
    pub item_name: Option<String>,
    pub start_date: Option<i64>,
    pub end_date: Option<i64>,
    pub offset: i64,
    pub limit: i32,
    pub sort: String,
    pub direction: String,
}

/// The conditions that a listing of drops puts on them.
#[derive(Clone, Copy, Debug, PartialEq, Eq)]
pub struct DropFilters {
    pub member: bool,
    pub min_value: bool,
    pub source_name: bool,
    pub item_name: bool,
    pub start_date: bool,
    pub end_date: bool,
}

impl GetValuableDropsParams {
    /// The conditions that the request puts on the drops.
    pub fn filters(&self) -> (r: DropFilters)
        ensures
            r == (DropFilters {
                member: self.member_name is Some,
                min_value: self.min_value is Some,
                source_name: self.source_name is Some,
                item_name: self.item_name is Some,
                start_date: self.start_date is Some,
                end_date: self.end_date is Some,
            }),
    {
        DropFilters {
            member: self.member_name.is_some(),
            min_value: self.min_value.is_some(),
            source_name: self.source_name.is_some(),
            item_name: self.item_name.is_some(),
            start_date: self.start_date.is_some(),
            end_date: self.end_date.is_some(),
        }
    }
}

/// A part of a query that ends in the number of a parameter.
pub open spec fn numbered(part: Seq<char>, number: nat) -> Seq<char> {
    part + digits_of(number)
}

/// `parts` with `part` behind it where `present` holds. The parameter of the
/// part gets the next number; the first parameter of every query is the group.
pub open spec fn with_filter(parts: Seq<Seq<char>>, present: bool, part: Seq<char>) -> Seq<Seq<char>> {
    if present {
        parts.push(numbered(part, parts.len() + 1))
    } else {
        parts
    }
}

/// The query that selects the drops of a group, before any condition.
pub open spec fn select_drops() -> Seq<char> {
    "SELECT d.drop_id, m.member_name, d.item_id, d.item_name, d.item_quantity, d.item_value, d.source_name, d.x_coord, d.y_coord, d.z_coord, d.timestamp, COUNT(*) OVER() AS total_count FROM groupironman.valuable_drops d JOIN groupironman.members m ON d.member_id = m.member_id WHERE m.group_id = $1"@
}

/// The parts of the query for a page of drops: the selection, one condition
/// for each filter with the number of its parameter, the order, and the
/// limit and the offset with the numbers of theirs.
pub open spec fn query_parts(filters: DropFilters, sort: Seq<char>, direction: Seq<char>) -> Seq<
    Seq<char>,
> {
    let selected = seq![select_drops()];
    let by_member = with_filter(selected, filters.member, "AND d.member_id = $"@);
    let by_value = with_filter(by_member, filters.min_value, "AND d.item_value >= $"@);
    let by_source = with_filter(by_value, filters.source_name, "AND d.source_name ILIKE $"@);
    let by_item = with_filter(by_source, filters.item_name, "AND d.item_name ILIKE $"@);
    let by_start = with_filter(by_item, filters.start_date, "AND d.timestamp >= $"@);
    let filtered = with_filter(by_start, filters.end_date, "AND d.timestamp <= $"@);
    filtered.push(
        "ORDER BY "@ + sort_column_of(sort) + " "@ + (if direction == "asc"@ {
            "ASC"@
        } else {
            "DESC"@
        }),
    ).push(numbered("LIMIT $"@, filtered.len() + 1)).push(
        numbered("OFFSET $"@, filtered.len() + 2),
    )
}

/// The parts of a query put together, with one space between two of them.
pub open spec fn joined(parts: Seq<Seq<char>>) -> Seq<char>
    decreases parts.len(),
{
    if parts.len() == 0 {
        Seq::empty()
    } else if parts.len() == 1 {
        parts[0]
    } else {
        joined(parts.drop_last()) + " "@ + parts.last()
    }
}

/// A query under construction: its text, and the number of its parts.
struct QueryText {
    text: String,
    count: usize,
    parts: Ghost<Seq<Seq<char>>>,
}

impl QueryText {
    spec fn well_formed(self) -> bool {
        &&& self.parts@.len() == self.count
        &&& 0 < self.count < 100
        &&& self.text@ == joined(self.parts@)
    }

    fn start(first: &str) -> (r: QueryText)
        ensures
            r.well_formed(),
            r.parts@ == seq![first@],
    {
        let ghost parts = seq![first@];
        QueryText { text: String::from_str(first), count: 1, parts: Ghost(parts) }
    }

    fn add(&mut self, part: String)
        requires
            old(self).well_formed(),
            old(self).count < 99,
        ensures
            final(self).well_formed(),
            final(self).parts@ == old(self).parts@.push(part@),
    {
        proof {
            assert(self.parts@.push(part@).drop_last() =~= self.parts@);
        }
        self.text.append(" ");
        self.text.append(part.as_str());
        self.count = self.count + 1;
        let ghost parts = self.parts@.push(part@);
        self.parts = Ghost(parts);
    }

    fn add_numbered(&mut self, present: bool, part: &str)
        requires
            old(self).well_formed(),
            old(self).count < 99,
        ensures
            final(self).well_formed(),
            final(self).parts@ == with_filter(old(self).parts@, present, part@),
    {
        if present {
            let mut clause = String::from_str(part);
            let number = decimal_text(self.count + 1);
            clause.append(number.as_str());
            self.add(clause);
        }
    }
}

/// Writes the query for a page of drops. No text of the request reaches the
/// query but through a numbered parameter: the column to sort by is one of
/// the four known ones, and the direction one of the two.
pub fn drops_query(filters: &DropFilters, sort: &str, direction: &str) -> (r: String)
    ensures
        r@ == joined(query_parts(*filters, sort@, direction@)),
{
    let mut query = QueryText::start(
        "SELECT d.drop_id, m.member_name, d.item_id, d.item_name, d.item_quantity, d.item_value, d.source_name, d.x_coord, d.y_coord, d.z_coord, d.timestamp, COUNT(*) OVER() AS total_count FROM groupironman.valuable_drops d JOIN groupironman.members m ON d.member_id = m.member_id WHERE m.group_id = $1",
    );
    query.add_numbered(filters.member, "AND d.member_id = $");
    query.add_numbered(filters.min_value, "AND d.item_value >= $");
    query.add_numbered(filters.source_name, "AND d.source_name ILIKE $");
    query.add_numbered(filters.item_name, "AND d.item_name ILIKE $");
    query.add_numbered(filters.start_date, "AND d.timestamp >= $");
    query.add_numbered(filters.end_date, "AND d.timestamp <= $");
    let mut order = String::from_str("ORDER BY ");
    order.append(sort_column(sort));
    order.append(" ");
    order.append(sort_direction(direction));
    let placed = query.count;
    query.add(order);
    let mut limit = String::from_str("LIMIT $");
    limit.append(decimal_text(placed + 1).as_str());
    query.add(limit);
    let mut offset = String::from_str("OFFSET $");
    offset.append(decimal_text(placed + 2).as_str());
    query.add(offset);
    query.text
}

} // verus!
