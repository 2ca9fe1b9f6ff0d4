//! Listings: the rows that the answers to the listing requests hold.
//!
//! An answer is an XML document in which one element is repeated, once for
//! each bucket or object. A row holds, for each wanted tag, the text of the
//! first element with that tag inside one such element, or nothing where it
//! has none.

use crate::text::texts_of;
use vstd::prelude::*;

verus! {

/// One node of an XML document, as far as listings look at it.
#[derive(Debug)]
pub struct XmlNode {
    /// How deep the node lies: the number of nodes from the root of the
    /// document down to it, both counted.
    pub depth: usize,
    /// Whether the node is an element.
    pub is_element: bool,
    /// The local name of an element; empty for any other node.
    pub name: String,
    /// The text of a text node or a comment; for an element, the text of its
    /// first child where that is a text node.
    pub text: Option<String>,
}

/// Mathematical value of an `XmlNode`.
pub struct XmlNodeView {
    pub depth: nat,
    pub is_element: bool,
    pub name: Seq<char>,
    pub text: Option<Seq<char>>,
}

impl View for XmlNode {
    type V = XmlNodeView;

    open spec fn view(&self) -> XmlNodeView {
        XmlNodeView {
            depth: self.depth as nat,
            is_element: self.is_element,
            name: self.name@,
            text: match self.text {
                Some(t) => Some(t@),
                None => None,
            },
        }
    }
}

/// Values of the nodes of a vector, in order.
pub open spec fn node_views(nodes: Seq<XmlNode>) -> Seq<XmlNodeView> {
    Seq::new(nodes.len(), |i: int| nodes[i]@)
}

/// The nodes of the XML document `text` in document order, the root first, as
/// the `roxmltree` crate reads them; `None` where it does not accept the text.
pub uninterp spec fn xml_nodes(text: Seq<char>) -> Option<Seq<XmlNodeView>>;

/// Calls `Document::parse` and walks `descendants`.
///
/// Trusted: the nodes are those named `xml_nodes`; each is described by
/// `ancestors().count()`, `is_element`, `tag_name().name()` and `text`.
#[verifier::external_body]
pub(crate) fn parse_xml(text: &str) -> (r: Option<Vec<XmlNode>>)
    ensures
        match r {
            Some(nodes) => xml_nodes(text@) == Some(node_views(nodes@)),
            None => xml_nodes(text@) is None,
        },
{
    let document = roxmltree::Document::parse(text).ok()?;
    let describe = |node: roxmltree::Node| XmlNode {
        depth: node.ancestors().count(),
        is_element: node.is_element(),
        name: node.tag_name().name().to_string(),
        text: node.text().map(String::from),
    };
    Some(document.descendants().map(describe).collect())
}

/// Whether `node` is an element with the local name `name`.
pub open spec fn is_named(node: XmlNodeView, name: Seq<char>) -> bool {
    node.is_element && node.name == name
}

/// The first position at or after `from` whose node lies no deeper than
/// `depth`; the number of nodes where there is none.
pub open spec fn run_end(nodes: Seq<XmlNodeView>, depth: nat, from: int) -> int
    decreases nodes.len() - from,
{
    if from >= nodes.len() {
        nodes.len() as int
    } else if nodes[from].depth <= depth {
        from
    } else {
        run_end(nodes, depth, from + 1)
    }
}

/// Where the subtree of the node at position `i` ends: it and its descendants
/// are the nodes from `i` up to, not including, this position.
pub open spec fn subtree_end(nodes: Seq<XmlNodeView>, i: int) -> int {
    run_end(nodes, nodes[i].depth, i + 1)
}

/// The first position from `from` up to, not including, `to` whose node is an
/// element named `name`.
pub open spec fn first_named(nodes: Seq<XmlNodeView>, name: Seq<char>, from: int, to: int)
    -> Option<int>
    decreases to - from,
{
    if from >= to {
        None
    } else if is_named(nodes[from], name) {
        Some(from)
    } else {
        first_named(nodes, name, from + 1, to)
    }
}

/// The text under `tag` inside the node at position `i`: that of the first
/// element named `tag` in its subtree, itself included; empty where there is
/// no such element or it has no text.
pub open spec fn field_text(nodes: Seq<XmlNodeView>, i: int, tag: Seq<char>) -> Seq<char> {
    match first_named(nodes, tag, i, subtree_end(nodes, i)) {
        Some(j) => match nodes[j].text {
            Some(t) => t,
            None => Seq::empty(),
        },
        None => Seq::empty(),
    }
}

/// The row of the node at position `i`: one text for each of `tags`.
pub open spec fn row_at(nodes: Seq<XmlNodeView>, i: int, tags: Seq<Seq<char>>) -> Seq<Seq<char>> {
    Seq::new(tags.len(), |k: int| field_text(nodes, i, tags[k]))
}

/// The rows of the first `upto` nodes: one for each element named `repeated`,
/// in document order.
pub open spec fn rows_before(
    nodes: Seq<XmlNodeView>,
    repeated: Seq<char>,
    tags: Seq<Seq<char>>,
    upto: int,
) -> Seq<Seq<Seq<char>>>
    decreases upto,
{
    if upto <= 0 {
        Seq::empty()
    } else if is_named(nodes[upto - 1], repeated) {
        rows_before(nodes, repeated, tags, upto - 1).push(row_at(nodes, upto - 1, tags))
    } else {
        rows_before(nodes, repeated, tags, upto - 1)
    }
}

/// The rows of a document: one for each element named `repeated`.
pub open spec fn listing_rows(
    nodes: Seq<XmlNodeView>,
    repeated: Seq<char>,
    tags: Seq<Seq<char>>,
) -> Seq<Seq<Seq<char>>> {
    rows_before(nodes, repeated, tags, nodes.len() as int)
}

/// The texts of the rows of a vector.
pub open spec fn row_texts(rows: Seq<Vec<String>>) -> Seq<Seq<Seq<char>>> {
    Seq::new(rows.len(), |i: int| texts_of(rows[i]@))
}

/// Tells whether `node` is an element with the local name `name`.
fn has_name(node: &XmlNode, name: &String) -> (r: bool)
    ensures
        r == is_named(node@, name@),
{
    node.is_element && node.name == *name
}

/// Finds the text under `tag` inside the node at position `i`.
fn find_field(nodes: &Vec<XmlNode>, i: usize, tag: &String) -> (r: String)
    requires
        i < nodes@.len(),
    ensures
        r@ == field_text(node_views(nodes@), i as int, tag@),
{
    let ghost views = node_views(nodes@);
    let n = nodes.len();
    let depth = nodes[i].depth;
    proof {
        assert(views[i as int] == nodes@[i as int]@);
        lemma_run_end_bounds(views, views[i as int].depth, i + 1);
    }
    if has_name(&nodes[i], tag) {
        return match &nodes[i].text {
            Some(t) => t.clone(),
            None => String::new(),
        };
    }
    let mut j: usize = i + 1;
    while j < nodes.len() && nodes[j].depth > depth
        invariant
            i < j <= nodes@.len(),
            views == node_views(nodes@),
            depth == views[i as int].depth,
            run_end(views, depth as nat, i + 1) == run_end(views, depth as nat, j as int),
            first_named(views, tag@, i as int, subtree_end(views, i as int)) == first_named(
                views,
                tag@,
                j as int,
                subtree_end(views, i as int),
            ),
            j <= subtree_end(views, i as int),
        decreases nodes@.len() - j,
    {
        proof {
            assert(views[j as int] == nodes@[j as int]@);
            lemma_run_end_bounds(views, depth as nat, j + 1);
        }
        if has_name(&nodes[j], tag) {
            return match &nodes[j].text {
                Some(t) => t.clone(),
                None => String::new(),
            };
        }
        j = j + 1;
    }
    proof {
        if j < nodes@.len() {
            assert(views[j as int] == nodes@[j as int]@);
        }
        assert(subtree_end(views, i as int) == j);
    }
    String::new()
}

/// The end of a run lies at or behind its start, and inside the document.
pub proof fn lemma_run_end_bounds(nodes: Seq<XmlNodeView>, depth: nat, from: int)
    requires
        0 <= from <= nodes.len(),
    ensures
        from <= run_end(nodes, depth, from) <= nodes.len(),
    decreases nodes.len() - from,
{
    if from < nodes.len() && nodes[from].depth > depth {
        lemma_run_end_bounds(nodes, depth, from + 1);
    }
}

/// A tag that no element inside an entry carries gives an empty field.
pub proof fn lemma_absent_tag_gives_empty_field(nodes: Seq<XmlNodeView>, i: int, tag: Seq<char>)
    requires
        0 <= i < nodes.len(),
        forall|j: int| i <= j < subtree_end(nodes, i) ==> !is_named(#[trigger] nodes[j], tag),
    ensures
        field_text(nodes, i, tag).len() == 0,
{
    lemma_none_named(nodes, tag, i, subtree_end(nodes, i));
}

/// Where no node of a range is an element with a name, none is found.
proof fn lemma_none_named(nodes: Seq<XmlNodeView>, name: Seq<char>, from: int, to: int)
    requires
        forall|j: int| from <= j < to ==> !is_named(#[trigger] nodes[j], name),
    ensures
        first_named(nodes, name, from, to) is None,
    decreases to - from,
{
    if from < to {
        assert(!is_named(nodes[from], name));
        lemma_none_named(nodes, name, from + 1, to);
    }
}

/// Every row holds one text for each tag.
pub proof fn lemma_rows_have_all_fields(
    nodes: Seq<XmlNodeView>,
    repeated: Seq<char>,
    tags: Seq<Seq<char>>,
    upto: int,
)
    ensures
        forall|q: int|
            0 <= q < rows_before(nodes, repeated, tags, upto).len() ==> (#[trigger] rows_before(
                nodes,
                repeated,
                tags,
                upto,
            )[q]).len() == tags.len(),
    decreases upto,
{
    if upto > 0 {
        lemma_rows_have_all_fields(nodes, repeated, tags, upto - 1);
        let before = rows_before(nodes, repeated, tags, upto - 1);
        let rows = rows_before(nodes, repeated, tags, upto);
        assert forall|q: int| 0 <= q < rows.len() implies (#[trigger] rows[q]).len()
            == tags.len() by {
            if q < before.len() {
                assert(rows[q] == before[q]);
            } else {
                assert(rows[q] == row_at(nodes, upto - 1, tags));
            }
        }
    }
}

/// Reads the rows of a document from its nodes: for each element named
/// `repeated`, the texts under `tags`.
pub fn extract_rows(nodes: &Vec<XmlNode>, repeated: &String, tags: &Vec<String>) -> (r: Vec<
    Vec<String>,
>)
    ensures
        row_texts(r@) == listing_rows(node_views(nodes@), repeated@, texts_of(tags@)),
{
    let ghost views = node_views(nodes@);
    let ghost names = texts_of(tags@);
    let mut rows: Vec<Vec<String>> = Vec::new();
    let mut i: usize = 0;
    while i < nodes.len()
        invariant
            i <= nodes@.len(),
            views == node_views(nodes@),
            names == texts_of(tags@),
            row_texts(rows@) == rows_before(views, repeated@, names, i as int),
        decreases nodes@.len() - i,
    {
        proof {
            assert(views[i as int] == nodes@[i as int]@);
        }
        if has_name(&nodes[i], repeated) {
            let mut row: Vec<String> = Vec::new();
            let mut k: usize = 0;
            while k < tags.len()
                invariant
                    i < nodes@.len(),
                    k <= tags@.len(),
                    views == node_views(nodes@),
                    names == texts_of(tags@),
                    row@.len() == k,
                    forall|q: int|
                        0 <= q < k ==> (#[trigger] row@[q])@ == field_text(
                            views,
                            i as int,
                            names[q],
                        ),
                decreases tags@.len() - k,
            {
                let text = find_field(nodes, i, &tags[k]);
                proof {
                    assert(names[k as int] == tags@[k as int]@);
                }
                row.push(text);
                k = k + 1;
            }
            let ghost before = row_texts(rows@);
            proof {
                assert(texts_of(row@) =~= row_at(views, i as int, names));
            }
            rows.push(row);
            proof {
                assert(row_texts(rows@) =~= before.push(row_at(views, i as int, names)));
            }
        }
        i = i + 1;
    }
    rows
}

/// One bucket of a listing.
#[derive(Debug)]
pub struct BucketList {
    pub name: String,
    pub creation_date: String,
    pub location: String,
    pub bucket_type: String,
}

/// One object of a listing.
#[derive(Debug)]
pub struct ObjectList {
    pub key: String,
    pub last_modified: String,
    pub size: String,
    pub storage_class: String,
}

/// The tags of a bucket, in the order of the fields of `BucketList`.
pub open spec fn bucket_tags() -> Seq<Seq<char>> {
    seq!["Name"@, "CreationDate"@, "Location"@, "BucketType"@]
}

/// The tags of an object, in the order of the fields of `ObjectList`.
pub open spec fn object_tags() -> Seq<Seq<char>> {
    seq!["Key"@, "LastModified"@, "Size"@, "StorageClass"@]
}

/// The row that a bucket stands for.
pub open spec fn bucket_row(bucket: BucketList) -> Seq<Seq<char>> {
    seq![bucket.name@, bucket.creation_date@, bucket.location@, bucket.bucket_type@]
}

/// The row that an object stands for.
pub open spec fn object_row(object: ObjectList) -> Seq<Seq<char>> {
    seq![object.key@, object.last_modified@, object.size@, object.storage_class@]
}

/// The rows that the buckets of a vector stand for.
pub open spec fn bucket_rows(buckets: Seq<BucketList>) -> Seq<Seq<Seq<char>>> {
    Seq::new(buckets.len(), |i: int| bucket_row(buckets[i]))
}

/// The rows that the objects of a vector stand for.
pub open spec fn object_rows(objects: Seq<ObjectList>) -> Seq<Seq<Seq<char>>> {
    Seq::new(objects.len(), |i: int| object_row(objects[i]))
}

/// Puts four tags into a vector.
fn four_tags(a: &str, b: &str, c: &str, d: &str) -> (r: Vec<String>)
    ensures
        texts_of(r@) == seq![a@, b@, c@, d@],
{
    let mut tags: Vec<String> = Vec::new();
    tags.push(a.to_owned());
    tags.push(b.to_owned());
    tags.push(c.to_owned());
    tags.push(d.to_owned());
    assert(texts_of(tags@) =~= seq![a@, b@, c@, d@]);
    tags
}

/// Reads the buckets from the nodes of the answer to a bucket listing: one
/// for each `Bucket` element.
pub fn buckets_in(nodes: &Vec<XmlNode>) -> (r: Vec<BucketList>)
    ensures
        bucket_rows(r@) == listing_rows(node_views(nodes@), "Bucket"@, bucket_tags()),
{
    let tags = four_tags("Name", "CreationDate", "Location", "BucketType");
    let rows = extract_rows(nodes, &"Bucket".to_owned(), &tags);
    let ghost target = listing_rows(node_views(nodes@), "Bucket"@, bucket_tags());
    proof {
        assert(row_texts(rows@) == target);
        lemma_rows_have_all_fields(
            node_views(nodes@),
            "Bucket"@,
            bucket_tags(),
            nodes@.len() as int,
        );
        assert forall|q: int| 0 <= q < rows@.len() implies (#[trigger] rows@[q])@.len() == 4 by {
            assert(target[q].len() == 4);
            assert(row_texts(rows@)[q] == texts_of(rows@[q]@));
        }
    }
    let mut buckets: Vec<BucketList> = Vec::new();
    let mut i: usize = 0;
    while i < rows.len()
        invariant
            i <= rows@.len(),
            buckets@.len() == i,
            row_texts(rows@) == target,
            forall|q: int| 0 <= q < rows@.len() ==> (#[trigger] rows@[q])@.len() == 4,
            forall|q: int| 0 <= q < i ==> bucket_row(#[trigger] buckets@[q]) == target[q],
        decreases rows@.len() - i,
    {
        let row = &rows[i];
        let bucket = BucketList {
            name: row[0].clone(),
            creation_date: row[1].clone(),
            location: row[2].clone(),
            bucket_type: row[3].clone(),
        };
        proof {
            assert(target[i as int] == texts_of(rows@[i as int]@));
            assert(bucket_row(bucket) =~= texts_of(rows@[i as int]@));
        }
        buckets.push(bucket);
        i = i + 1;
    }
    proof {
        assert(bucket_rows(buckets@) =~= target);
    }
    buckets
}

/// Reads the objects from the nodes of the answer to an object listing: one
/// for each `Contents` element.
pub fn objects_in(nodes: &Vec<XmlNode>) -> (r: Vec<ObjectList>)
    ensures
        object_rows(r@) == listing_rows(node_views(nodes@), "Contents"@, object_tags()),
{
    let tags = four_tags("Key", "LastModified", "Size", "StorageClass");
    let rows = extract_rows(nodes, &"Contents".to_owned(), &tags);
    let ghost target = listing_rows(node_views(nodes@), "Contents"@, object_tags());
    proof {
        assert(row_texts(rows@) == target);
        lemma_rows_have_all_fields(
            node_views(nodes@),
            "Contents"@,
            object_tags(),
            nodes@.len() as int,
        );
        assert forall|q: int| 0 <= q < rows@.len() implies (#[trigger] rows@[q])@.len() == 4 by {
            assert(target[q].len() == 4);
            assert(row_texts(rows@)[q] == texts_of(rows@[q]@));
        }
    }
    let mut objects: Vec<ObjectList> = Vec::new();
    let mut i: usize = 0;
    while i < rows.len()
        invariant
            i <= rows@.len(),
            objects@.len() == i,
            row_texts(rows@) == target,
            forall|q: int| 0 <= q < rows@.len() ==> (#[trigger] rows@[q])@.len() == 4,
            forall|q: int| 0 <= q < i ==> object_row(#[trigger] objects@[q]) == target[q],
        decreases rows@.len() - i,
    {
        let row = &rows[i];
        let object = ObjectList {
            key: row[0].clone(),
            last_modified: row[1].clone(),
            size: row[2].clone(),
            storage_class: row[3].clone(),
        };
        proof {
            assert(target[i as int] == texts_of(rows@[i as int]@));
            assert(object_row(object) =~= texts_of(rows@[i as int]@));
        }
        objects.push(object);
        i = i + 1;
    }
    proof {
        assert(object_rows(objects@) =~= target);
    }
    objects
}

/// The buckets in the answer to a bucket listing, or `None` where the answer
/// is no XML document.
pub fn parse_bucket_list(xml: &str) -> (r: Option<Vec<BucketList>>)
    ensures
        match r {
            Some(buckets) => xml_nodes(xml@) is Some && bucket_rows(buckets@) == listing_rows(
                xml_nodes(xml@)->0,
                "Bucket"@,
                bucket_tags(),
            ),
            None => xml_nodes(xml@) is None,
        },
{
    match parse_xml(xml) {
        Some(nodes) => Some(buckets_in(&nodes)),
        None => None,
    }
}

/// The objects in the answer to an object listing, or `None` where the answer
/// is no XML document.
pub fn parse_object_list(xml: &str) -> (r: Option<Vec<ObjectList>>)
    ensures
        match r {
            Some(objects) => xml_nodes(xml@) is Some && object_rows(objects@) == listing_rows(
                xml_nodes(xml@)->0,
                "Contents"@,
                object_tags(),
            ),
            None => xml_nodes(xml@) is None,
        },
{
    match parse_xml(xml) {
        Some(nodes) => Some(objects_in(&nodes)),
        None => None,
    }
}

} // verus!
