use vstd::prelude::*;
use crate::record::{kind_of_marker, same_text, RecordType, RecordTypeError};

verus! {

/// A parsed HTML node, holding as plain values what the listing logic reads.
/// Comments, doctypes and processing instructions are `Other`.
pub enum HtmlNode {
    Element { name: String, attrs: Vec<(String, String)>, children: Vec<HtmlNode> },
    Text { text: String },
    Other,
}

/// Why a listing page could not be read.
#[derive(Debug)]
pub enum ListingError {
    /// The page has no `body > table > tbody`.
    TableNotFound,
    /// A data row departs from the fixed autoindex layout.
    MalformedRow,
    /// A data row's icon marker names no record kind.
    InvalidRecordType(RecordTypeError),
}

/// `ListingError` with its text as a sequence of characters.
pub enum ListingFailure {
    TableNotFound,
    MalformedRow,
    InvalidMarker(Seq<char>),
}

impl ListingError {
    pub open spec fn view(&self) -> ListingFailure {
        match self {
            ListingError::TableNotFound => ListingFailure::TableNotFound,
            ListingError::MalformedRow => ListingFailure::MalformedRow,
            ListingError::InvalidRecordType(RecordTypeError::InvalidRecordType(m)) => ListingFailure::InvalidMarker(m@),
        }
    }
}

/// What the icon cell of a row says.
pub enum KindCell {
    /// Cell 0 is absent or is not an icon cell: the row is not a data row.
    NotIcon,
    Kind(RecordType),
    /// The icon cell holds no icon element.
    Malformed,
    Unrecognized(Seq<char>),
}

pub open spec fn children_of(n: HtmlNode) -> Seq<HtmlNode> {
    match n {
        HtmlNode::Element { children, .. } => children@,
        _ => Seq::empty(),
    }
}

pub open spec fn is_element_named(n: HtmlNode, tag: Seq<char>) -> bool {
    match n {
        HtmlNode::Element { name, .. } => name@ == tag,
        _ => false,
    }
}

pub open spec fn text_of(n: HtmlNode) -> Option<Seq<char>> {
    match n {
        HtmlNode::Text { text } => Some(text@),
        _ => None,
    }
}

/// The value of the first attribute at or after `i` whose key is `key`.
pub open spec fn attr_from(attrs: Seq<(String, String)>, key: Seq<char>, i: int) -> Option<Seq<char>>
    decreases attrs.len() - i,
{
    if i < 0 || i >= attrs.len() {
        None
    } else if attrs[i].0@ == key {
        Some(attrs[i].1@)
    } else {
        attr_from(attrs, key, i + 1)
    }
}

pub open spec fn attr_of(n: HtmlNode, key: Seq<char>) -> Option<Seq<char>> {
    match n {
        HtmlNode::Element { attrs, .. } => attr_from(attrs@, key, 0),
        _ => None,
    }
}

/// Some attribute of the element has this key and value.
pub open spec fn has_attr(n: HtmlNode, key: Seq<char>, value: Seq<char>) -> bool {
    match n {
        HtmlNode::Element { attrs, .. } => exists|i: int|
            0 <= i < attrs@.len() && (#[trigger] attrs@[i]).0@ == key && attrs@[i].1@ == value,
        _ => false,
    }
}

/// A row is eligible when one of its children is a `td` cell.
pub open spec fn is_data_row(row: HtmlNode) -> bool {
    exists|i: int| 0 <= i < children_of(row).len() && is_element_named(#[trigger] children_of(row)[i], "td"@)
}

/// Cell 0 is an icon cell (`valign="top"`) whose first child is the icon;
/// the icon's `alt` text is the marker, `[   ]` where it has none.
pub open spec fn kind_cell_of(row: HtmlNode) -> KindCell {
    let cells = children_of(row);
    if cells.len() == 0 || !has_attr(cells[0], "valign"@, "top"@) {
        KindCell::NotIcon
    } else {
        let icon = children_of(cells[0]);
        if icon.len() == 0 || !(icon[0] is Element) {
            KindCell::Malformed
        } else {
            let marker = match attr_of(icon[0], "alt"@) {
                Some(v) => v,
                None => "[   ]"@,
            };
            match kind_of_marker(marker) {
                Some(k) => KindCell::Kind(k),
                None => KindCell::Unrecognized(marker),
            }
        }
    }
}

/// Cell 1: the first child node of its first child node is the name's text.
pub open spec fn name_cell_of(row: HtmlNode) -> Option<Seq<char>> {
    let cells = children_of(row);
    if cells.len() <= 1 || children_of(cells[1]).len() == 0 {
        None
    } else {
        let inner = children_of(children_of(cells[1])[0]);
        if inner.len() == 0 {
            None
        } else {
            text_of(inner[0])
        }
    }
}

/// Cell 3: its first child node is the size's text.
pub open spec fn size_cell_of(row: HtmlNode) -> Option<Seq<char>> {
    let cells = children_of(row);
    if cells.len() <= 3 || children_of(cells[3]).len() == 0 {
        None
    } else {
        text_of(children_of(cells[3])[0])
    }
}

pub open spec fn opt_view(r: Option<String>) -> Option<Seq<char>> {
    match r {
        Some(s) => Some(s@),
        None => None,
    }
}

/// The kind read from a row agrees with what its icon cell says.
pub open spec fn kind_agrees(r: Result<Option<RecordType>, ListingError>, c: KindCell) -> bool {
    match c {
        KindCell::NotIcon => r == Ok::<Option<RecordType>, ListingError>(None),
        KindCell::Kind(k) => r == Ok::<Option<RecordType>, ListingError>(Some(k)),
        KindCell::Malformed => r matches Err(ListingError::MalformedRow),
        KindCell::Unrecognized(m) => r matches Err(e) && e@ == ListingFailure::InvalidMarker(m),
    }
}

/// The three fields of an autoindex row, read by fixed position. The layout is
/// rigid: a row that departs from it is an error, never a guessed value.
pub trait RecordRef {
    spec fn kind_cell(&self) -> KindCell;

    spec fn name_cell(&self) -> Option<Seq<char>>;

    spec fn size_cell(&self) -> Option<Seq<char>>;

    fn name(&self) -> (r: Option<String>)
        ensures
            opt_view(r) == self.name_cell(),
    ;

    fn kind(&self) -> (r: Result<Option<RecordType>, ListingError>)
        ensures
            kind_agrees(r, self.kind_cell()),
    ;

    fn size(&self) -> (r: Option<String>)
        ensures
            opt_view(r) == self.size_cell(),
    ;
}

impl HtmlNode {
    pub fn child_count(&self) -> (r: usize)
        ensures
            r == children_of(*self).len(),
    {
        match self {
            HtmlNode::Element { children, .. } => children.len(),
            _ => 0,
        }
    }

    pub fn child(&self, i: usize) -> (r: &HtmlNode)
        requires
            i < children_of(*self).len(),
        ensures
            *r == children_of(*self)[i as int],
    {
        match self {
            HtmlNode::Element { children, .. } => &children[i],
            _ => self,
        }
    }

    pub fn is_named(&self, tag: &str) -> (r: bool)
        ensures
            r == is_element_named(*self, tag@),
    {
        match self {
            HtmlNode::Element { name, .. } => same_text(name.as_str(), tag),
            _ => false,
        }
    }

    pub fn is_element(&self) -> (r: bool)
        ensures
            r == (*self is Element),
    {
        match self {
            HtmlNode::Element { .. } => true,
            _ => false,
        }
    }

    pub fn text(&self) -> (r: Option<String>)
        ensures
            opt_view(r) == text_of(*self),
    {
        match self {
            HtmlNode::Text { text } => Some(text.clone()),
            _ => None,
        }
    }

    /// The value of the first attribute named `key`.
    pub fn attr(&self, key: &str) -> (r: Option<String>)
        ensures
            opt_view(r) == attr_of(*self, key@),
    {
        match self {
            HtmlNode::Element { attrs, .. } => {
                let mut i: usize = 0;
                while i < attrs.len()
                    invariant
                        i <= attrs@.len(),
                        attr_of(*self, key@) == attr_from(attrs@, key@, 0),
                        attr_from(attrs@, key@, 0) == attr_from(attrs@, key@, i as int),
                    decreases attrs@.len() - i,
                {
                    let pair = &attrs[i];
                    if same_text(pair.0.as_str(), key) {
                        assert(attrs@[i as int].0@ == key@);
                        return Some(pair.1.clone());
                    }
                    i = i + 1;
                }
                None
            },
            _ => None,
        }
    }

    pub fn has_attr(&self, key: &str, value: &str) -> (r: bool)
        ensures
            r == has_attr(*self, key@, value@),
    {
        match self {
            HtmlNode::Element { attrs, .. } => {
                let mut i: usize = 0;
                while i < attrs.len()
                    invariant
                        i <= attrs@.len(),
                        *self matches HtmlNode::Element { attrs: a, .. } && a == attrs,
                        forall|j: int| 0 <= j < i ==> !((#[trigger] attrs@[j]).0@ == key@ && attrs@[j].1@ == value@),
                    decreases attrs@.len() - i,
                {
                    let pair = &attrs[i];
                    if same_text(pair.0.as_str(), key) && same_text(pair.1.as_str(), value) {
                        assert(attrs@[i as int].0@ == key@ && attrs@[i as int].1@ == value@);
                        return true;
                    }
                    i = i + 1;
                }
                false
            },
            _ => false,
        }
    }

    pub fn is_data_row(&self) -> (r: bool)
        ensures
            r == is_data_row(*self),
    {
        let n = self.child_count();
        let mut i: usize = 0;
        while i < n
            invariant
                n == children_of(*self).len(),
                i <= n,
                forall|j: int| 0 <= j < i ==> !is_element_named(#[trigger] children_of(*self)[j], "td"@),
            decreases n - i,
        {
            if self.child(i).is_named("td") {
                return true;
            }
            i = i + 1;
        }
        false
    }
}

impl RecordRef for HtmlNode {
    open spec fn kind_cell(&self) -> KindCell {
        kind_cell_of(*self)
    }

    open spec fn name_cell(&self) -> Option<Seq<char>> {
        name_cell_of(*self)
    }

    open spec fn size_cell(&self) -> Option<Seq<char>> {
        size_cell_of(*self)
    }

    fn name(&self) -> (r: Option<String>) {
        if self.child_count() <= 1 {
            return None;
        }
        let cell = self.child(1);
        if cell.child_count() == 0 {
            return None;
        }
        let link = cell.child(0);
        if link.child_count() == 0 {
            return None;
        }
        link.child(0).text()
    }

    fn kind(&self) -> (r: Result<Option<RecordType>, ListingError>) {
        if self.child_count() == 0 || !self.child(0).has_attr("valign", "top") {
            return Ok(None);
        }
        let cell = self.child(0);
        if cell.child_count() == 0 || !cell.child(0).is_element() {
            return Err(ListingError::MalformedRow);
        }
        let marker = match cell.child(0).attr("alt") {
            Some(v) => v,
            None => String::from_str("[   ]"),
        };
        match RecordType::from_str(marker.as_str()) {
            Ok(k) => Ok(Some(k)),
            Err(e) => Err(ListingError::InvalidRecordType(e)),
        }
    }

    fn size(&self) -> (r: Option<String>) {
        if self.child_count() <= 3 {
            return None;
        }
        let cell = self.child(3);
        if cell.child_count() == 0 {
            return None;
        }
        cell.child(0).text()
    }
}

/// The tree that the HTML parser builds from a page, from its root element
/// down to `levels` levels below it; an element at the last level is kept
/// without its children.
pub uninterp spec fn parsed_document(html: Seq<char>, levels: nat) -> HtmlNode;

/// Relies on scraper::Html::parse_document (html5ever), whose tree depends on
/// the text alone, and on Html::root_element, which finds the `html` element
/// that the parser always builds.
#[verifier::external_body]
pub(crate) fn parse_document(html: &str, levels: usize) -> (r: HtmlNode)
    ensures
        r == parsed_document(html@, levels as nat),
{
    element_node(scraper::Html::parse_document(html).root_element(), levels)
}

/// Relies on scraper's ElementRef, Node and Element accessors: copies an element,
/// its attributes (in source order, under scraper's `deterministic` feature),
/// and its child nodes in order, down to `levels` levels.
#[verifier::external_body]
fn element_node(e: scraper::ElementRef, levels: usize) -> HtmlNode {
    let children = match levels.checked_sub(1) {
        None => Vec::new(),
        Some(below) => e.children().map(|c| match scraper::ElementRef::wrap(c) {
            Some(child) => element_node(child, below),
            None => match c.value() {
                scraper::Node::Text(t) => HtmlNode::Text { text: t.to_string() },
                _ => HtmlNode::Other,
            },
        }).collect(),
    };
    let attrs = e.value().attrs().map(|(k, v)| (k.to_string(), v.to_string())).collect();
    HtmlNode::Element { name: e.value().name().to_string(), attrs, children }
}

#[verifier::external_type_specification]
#[verifier::external_body]
pub struct ExElementRef<'a>(scraper::ElementRef<'a>);

} // verus!
