use vstd::prelude::*;
use crate::html::{
    children_of, is_data_row, is_element_named, kind_cell_of, name_cell_of, size_cell_of, HtmlNode,
    parse_document, parsed_document, KindCell, ListingError, ListingFailure, RecordRef,
};
use crate::record::{Record, RecordType, RecordView};

verus! {

/// The records of one index page, in document order.
#[derive(Debug)]
pub struct Listing {
    pub is_root: bool,
    pub records: Vec<Record>,
}

pub struct ListingView {
    pub is_root: bool,
    pub records: Seq<RecordView>,
}

impl View for Listing {
    type V = ListingView;

    open spec fn view(&self) -> ListingView {
        ListingView { is_root: self.is_root, records: records_view(self.records@) }
    }
}

pub open spec fn records_view(v: Seq<Record>) -> Seq<RecordView> {
    v.map_values(|r: Record| r@)
}

/// What one child of the table body contributes to the listing.
pub enum RowOutcome {
    Skip,
    Entry(RecordView),
    Failed(ListingFailure),
}

/// A `tr` with a `td` cell and an icon cell is a data row; its kind, name
/// and size must all be read, else the whole listing fails.
pub open spec fn row_outcome(row: HtmlNode, base: Seq<char>) -> RowOutcome {
    if !is_element_named(row, "tr"@) || !is_data_row(row) {
        RowOutcome::Skip
    } else {
        match kind_cell_of(row) {
            KindCell::NotIcon => RowOutcome::Skip,
            KindCell::Malformed => RowOutcome::Failed(ListingFailure::MalformedRow),
            KindCell::Unrecognized(m) => RowOutcome::Failed(ListingFailure::InvalidMarker(m)),
            KindCell::Kind(k) => match (name_cell_of(row), size_cell_of(row)) {
                (Some(n), Some(s)) => if n.len() > 0 {
                    RowOutcome::Entry(RecordView { kind: k, uri: base + n, name: n, file_size: s })
                } else {
                    RowOutcome::Failed(ListingFailure::MalformedRow)
                },
                _ => RowOutcome::Failed(ListingFailure::MalformedRow),
            },
        }
    }
}

/// The records of a run of rows, or the failure of its first failing row.
pub open spec fn parse_rows(rows: Seq<HtmlNode>, base: Seq<char>) -> Result<Seq<RecordView>, ListingFailure>
    decreases rows.len(),
{
    if rows.len() == 0 {
        Ok(Seq::empty())
    } else {
        match parse_rows(rows.drop_last(), base) {
            Err(e) => Err(e),
            Ok(rs) => match row_outcome(rows.last(), base) {
                RowOutcome::Skip => Ok(rs),
                RowOutcome::Entry(r) => Ok(rs.push(r)),
                RowOutcome::Failed(e) => Err(e),
            },
        }
    }
}

/// How many levels below the root element a page is read: `body`, `table`,
/// `tbody`, `tr`, `td`, the link or icon, and the link's text. Deeper nodes
/// are never read, and are not copied out of the parser.
pub const DOCUMENT_LEVELS: usize = 7;

/// The tags from the root element down to the listing's table body.
pub open spec fn listing_path() -> Seq<Seq<char>> {
    seq!["body"@, "table"@, "tbody"@]
}

/// The first node, in document order, reached from `nodes[start..]` along
/// `listing_path()[depth..]`, each step going to a child.
pub open spec fn find_from(nodes: Seq<HtmlNode>, start: int, depth: int) -> Option<HtmlNode>
    decreases 3 - depth, nodes.len() - start,
{
    if depth < 0 || depth >= 3 || start < 0 || start >= nodes.len() {
        None
    } else if is_element_named(nodes[start], listing_path()[depth]) {
        if depth == 2 {
            Some(nodes[start])
        } else {
            match find_from(children_of(nodes[start]), 0, depth + 1) {
                Some(x) => Some(x),
                None => find_from(nodes, start + 1, depth),
            }
        }
    } else {
        find_from(nodes, start + 1, depth)
    }
}

/// The listing's table body: the first `body > table > tbody` under the root element.
pub open spec fn listing_table(root: HtmlNode) -> Option<HtmlNode> {
    find_from(children_of(root), 0, 0)
}

pub open spec fn has_parent_entry(records: Seq<RecordView>) -> bool {
    exists|i: int| 0 <= i < records.len() && (#[trigger] records[i]).kind == RecordType::ParentDirectory
}

/// The listing that a parsed page yields, with `base` as the directory URL.
pub open spec fn listing_of(root: HtmlNode, base: Seq<char>) -> Result<ListingView, ListingFailure> {
    match listing_table(root) {
        None => Err(ListingFailure::TableNotFound),
        Some(table) => match parse_rows(children_of(table), base) {
            Err(e) => Err(e),
            Ok(rs) => Ok(ListingView { is_root: !has_parent_entry(rs), records: rs }),
        },
    }
}

/// The records that a parsed page yields, before `is_root` is derived.
pub open spec fn records_of(root: HtmlNode, base: Seq<char>) -> Result<Seq<RecordView>, ListingFailure> {
    match listing_table(root) {
        None => Err(ListingFailure::TableNotFound),
        Some(table) => parse_rows(children_of(table), base),
    }
}

pub open spec fn records_agree(r: Result<Vec<Record>, ListingError>, s: Result<Seq<RecordView>, ListingFailure>) -> bool {
    match r {
        Ok(v) => s == Ok::<Seq<RecordView>, ListingFailure>(records_view(v@)),
        Err(e) => s == Err::<Seq<RecordView>, ListingFailure>(e@),
    }
}

pub open spec fn listing_agrees(r: Result<Listing, ListingError>, s: Result<ListingView, ListingFailure>) -> bool {
    match r {
        Ok(l) => s == Ok::<ListingView, ListingFailure>(l@),
        Err(e) => s == Err::<ListingView, ListingFailure>(e@),
    }
}

pub open spec fn opt_ref(r: Option<&HtmlNode>) -> Option<HtmlNode> {
    match r {
        Some(n) => Some(*n),
        None => None,
    }
}

fn path_tag(depth: usize) -> (r: &'static str)
    requires
        depth < 3,
    ensures
        r@ == listing_path()[depth as int],
{
    if depth == 0 {
        "body"
    } else if depth == 1 {
        "table"
    } else {
        "tbody"
    }
}

fn find_table<'a>(parent: &'a HtmlNode, depth: usize) -> (r: Option<&'a HtmlNode>)
    requires
        depth < 3,
    ensures
        opt_ref(r) == find_from(children_of(*parent), 0, depth as int),
    decreases 3 - depth,
{
    let n = parent.child_count();
    let mut start: usize = 0;
    while start < n
        invariant
            n == children_of(*parent).len(),
            start <= n,
            depth < 3,
            find_from(children_of(*parent), 0, depth as int) == find_from(
                children_of(*parent),
                start as int,
                depth as int,
            ),
        decreases n - start,
    {
        let node = parent.child(start);
        if node.is_named(path_tag(depth)) {
            if depth == 2 {
                return Some(node);
            }
            let found = find_table(node, depth + 1);
            if found.is_some() {
                return found;
            }
        }
        start = start + 1;
    }
    None
}

proof fn lemma_prefix_failure(rows: Seq<HtmlNode>, base: Seq<char>, k: int)
    requires
        0 <= k <= rows.len(),
        parse_rows(rows.take(k), base) is Err,
    ensures
        parse_rows(rows, base) == parse_rows(rows.take(k), base),
    decreases rows.len() - k,
{
    if k < rows.len() {
        assert(rows.take(k + 1).drop_last() =~= rows.take(k));
        lemma_prefix_failure(rows, base, k + 1);
    } else {
        assert(rows.take(k) =~= rows);
    }
}

fn has_parent(records: &Vec<Record>) -> (r: bool)
    ensures
        r == has_parent_entry(records_view(records@)),
{
    let mut i: usize = 0;
    while i < records.len()
        invariant
            i <= records@.len(),
            forall|j: int| 0 <= j < i ==> (#[trigger] records@[j]).kind != RecordType::ParentDirectory,
        decreases records@.len() - i,
    {
        if records[i].kind == RecordType::ParentDirectory {
            assert(records_view(records@)[i as int] == records@[i as int]@);
            return true;
        }
        i = i + 1;
    }
    assert forall|j: int| 0 <= j < records_view(records@).len() implies (#[trigger] records_view(records@)[j]).kind
        != RecordType::ParentDirectory by {
        assert(records_view(records@)[j] == records@[j]@);
    }
    false
}

/// How many of the rows are data rows that yield a record.
pub open spec fn entry_count(rows: Seq<HtmlNode>, base: Seq<char>) -> nat
    decreases rows.len(),
{
    if rows.len() == 0 {
        0
    } else {
        entry_count(rows.drop_last(), base) + if row_outcome(rows.last(), base) is Entry {
            1nat
        } else {
            0nat
        }
    }
}

proof fn lemma_count_prefix(rows: Seq<HtmlNode>, base: Seq<char>, k: int)
    requires
        0 <= k < rows.len(),
    ensures
        entry_count(rows.take(k), base) + (if row_outcome(rows[k], base) is Entry {
            1nat
        } else {
            0nat
        }) <= entry_count(rows, base),
    decreases rows.len(),
{
    let pre = rows.drop_last();
    if k == rows.len() - 1 {
        assert(rows.take(k) =~= pre);
    } else {
        lemma_count_prefix(pre, base, k);
        assert(rows.take(k) =~= pre.take(k));
    }
}

/// Rows that parse yield exactly one record per data row, in document order:
/// the record of row `k` stands after those of the data rows before it.
pub proof fn lemma_one_record_per_data_row(rows: Seq<HtmlNode>, base: Seq<char>)
    requires
        parse_rows(rows, base) is Ok,
    ensures
        parse_rows(rows, base)->Ok_0.len() == entry_count(rows, base),
        forall|k: int|
            0 <= k < rows.len() && (#[trigger] row_outcome(rows[k], base)) is Entry ==> parse_rows(rows, base)->Ok_0[entry_count(
                rows.take(k),
                base,
            ) as int] == row_outcome(rows[k], base)->Entry_0,
    decreases rows.len(),
{
    if rows.len() > 0 {
        let pre = rows.drop_last();
        assert(parse_rows(pre, base) is Ok);
        lemma_one_record_per_data_row(pre, base);
        let rs = parse_rows(pre, base)->Ok_0;
        let out = parse_rows(rows, base)->Ok_0;
        assert(out.len() == entry_count(rows, base));
        assert forall|k: int|
            0 <= k < rows.len() && (#[trigger] row_outcome(rows[k], base)) is Entry implies out[entry_count(
                rows.take(k),
                base,
            ) as int] == row_outcome(rows[k], base)->Entry_0 by {
            if k < pre.len() {
                assert(rows.take(k) =~= pre.take(k));
                assert(rows[k] == pre[k]);
                lemma_count_prefix(pre, base, k);
                assert(out[entry_count(pre.take(k), base) as int] == rs[entry_count(pre.take(k), base) as int]);
            } else {
                assert(rows.take(k) =~= pre);
            }
        }
    }
}

/// A page that parses yields exactly one record per data row of its listing
/// table, in document order.
pub proof fn lemma_listing_records(root: HtmlNode, base: Seq<char>)
    requires
        listing_of(root, base) is Ok,
    ensures
        ({
            let rows = children_of(listing_table(root)->0);
            let records = listing_of(root, base)->Ok_0.records;
            &&& records.len() == entry_count(rows, base)
            &&& forall|k: int|
                0 <= k < rows.len() && (#[trigger] row_outcome(rows[k], base)) is Entry ==> records[entry_count(
                    rows.take(k),
                    base,
                ) as int] == row_outcome(rows[k], base)->Entry_0
        }),
{
    lemma_one_record_per_data_row(children_of(listing_table(root)->0), base);
}

/// `is_root` holds exactly where no record of the listing is the parent directory.
pub proof fn lemma_is_root(root: HtmlNode, base: Seq<char>)
    requires
        listing_of(root, base) is Ok,
    ensures
        listing_of(root, base)->Ok_0.is_root <==> forall|i: int|
            0 <= i < listing_of(root, base)->Ok_0.records.len() ==> (#[trigger] listing_of(
                root,
                base,
            )->Ok_0.records[i]).kind != RecordType::ParentDirectory,
{
}

impl Default for Listing {
    fn default() -> (r: Listing)
        ensures
            r@.records.len() == 0,
            r@.is_root,
    {
        Listing::new()
    }
}

impl Listing {
    /// An empty listing.
    pub fn new() -> (r: Listing)
        ensures
            r@.records.len() == 0,
            r@.is_root,
    {
        Listing { is_root: true, records: Vec::new() }
    }

    /// Reads one row: `None` where it is not a data row.
    pub fn read_record(&self, row: &HtmlNode, dir_url: &str) -> (r: Result<Option<Record>, ListingError>)
        ensures
            match row_outcome(*row, dir_url@) {
                RowOutcome::Skip => r matches Ok(None),
                RowOutcome::Entry(v) => r matches Ok(Some(rec)) && rec@ == v,
                RowOutcome::Failed(f) => r matches Err(e) && e@ == f,
            },
    {
        if !row.is_named("tr") || !row.is_data_row() {
            return Ok(None);
        }
        let kind = match row.kind() {
            Ok(Some(k)) => k,
            Ok(None) => return Ok(None),
            Err(e) => return Err(e),
        };
        let name = match row.name() {
            Some(n) => n,
            None => return Err(ListingError::MalformedRow),
        };
        let file_size = match row.size() {
            Some(s) => s,
            None => return Err(ListingError::MalformedRow),
        };
        if name.as_str().is_empty() {
            return Err(ListingError::MalformedRow);
        }
        let mut uri = dir_url.to_owned();
        uri.append(name.as_str());
        Ok(Some(Record { kind, uri, name, file_size }))
    }

    /// Reads the records of a parsed page, in document order.
    pub fn read_records(&self, doc: &HtmlNode, dir_url: &str) -> (r: Result<Vec<Record>, ListingError>)
        ensures
            records_agree(r, records_of(*doc, dir_url@)),
    {
        let table = match find_table(doc, 0) {
            Some(t) => t,
            None => return Err(ListingError::TableNotFound),
        };
        let ghost rows = children_of(*table);
        let n = table.child_count();
        let mut records: Vec<Record> = Vec::new();
        let mut i: usize = 0;
        proof {
            assert(rows.take(0) =~= Seq::<HtmlNode>::empty());
            assert(records_view(records@) =~= Seq::<RecordView>::empty());
        }
        while i < n
            invariant
                listing_table(*doc) == Some(*table),
                rows == children_of(*table),
                n == rows.len(),
                i <= n,
                parse_rows(rows.take(i as int), dir_url@) == Ok::<Seq<RecordView>, ListingFailure>(
                    records_view(records@),
                ),
            decreases n - i,
        {
            let row = table.child(i);
            proof {
                assert(rows.take(i + 1).drop_last() =~= rows.take(i as int));
                assert(rows.take(i + 1).last() == rows[i as int]);
            }
            match self.read_record(row, dir_url) {
                Ok(Some(rec)) => {
                    let ghost before = records@;
                    records.push(rec);
                    proof {
                        assert(records_view(records@) =~= records_view(before).push(rec@));
                    }
                },
                Ok(None) => {},
                Err(e) => {
                    proof {
                        assert(parse_rows(rows.take(i + 1), dir_url@) == Err::<Seq<RecordView>, ListingFailure>(e@));
                        lemma_prefix_failure(rows, dir_url@, i + 1);
                        assert(parse_rows(rows, dir_url@) == Err::<Seq<RecordView>, ListingFailure>(e@));
                    }
                    return Err(e);
                },
            }
            i = i + 1;
        }
        proof {
            assert(rows.take(n as int) =~= rows);
        }
        Ok(records)
    }

    /// The listing of a parsed page; `is_root` holds where no record is the parent directory.
    pub fn from_document(doc: &HtmlNode, dir_url: &str) -> (r: Result<Listing, ListingError>)
        ensures
            listing_agrees(r, listing_of(*doc, dir_url@)),
    {
        let reader = Listing::new();
        match reader.read_records(doc, dir_url) {
            Ok(records) => {
                let is_root = !has_parent(&records);
                Ok(Listing { is_root, records })
            },
            Err(e) => Err(e),
        }
    }

    /// Parses an index page and reads its listing from the page's tree cut
    /// `DOCUMENT_LEVELS` below the root element.
    pub fn read(&self, body: &str, dir_url: &str) -> (r: Result<Listing, ListingError>)
        ensures
            listing_agrees(r, listing_of(parsed_document(body@, DOCUMENT_LEVELS as nat), dir_url@)),
    {
        let doc = parse_document(body, DOCUMENT_LEVELS);
        Listing::from_document(&doc, dir_url)
    }
}


} // verus!
