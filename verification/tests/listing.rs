use obsctl::listing::{
    buckets_in, extract_rows, objects_in, parse_bucket_list, parse_object_list, XmlNode,
};

const BUCKETS: &str = "<?xml version=\"1.0\" encoding=\"UTF-8\" standalone=\"yes\"?>\
<ListAllMyBucketsResult xmlns=\"http://obs.myhwclouds.com/doc/2015-06-27/\">\
<Owner><ID>783fc6652cf246c096ea836694f71855</ID></Owner>\
<Buckets>\
<Bucket><Name>examplebucket01</Name><CreationDate>2018-06-21T09:15:01.032Z</CreationDate>\
<Location>region</Location><BucketType>OBJECT</BucketType></Bucket>\
<Bucket><Name>examplebucket02</Name><CreationDate>2018-06-22T03:56:33.700Z</CreationDate>\
<Location>region</Location></Bucket>\
</Buckets></ListAllMyBucketsResult>";

const OBJECTS: &str = "<ListBucketResult xmlns=\"http://obs.myhwclouds.com/doc/2015-06-27/\">\
<Name>examplebucket</Name><Prefix/><Marker/><MaxKeys>1000</MaxKeys>\
<IsTruncated>false</IsTruncated>\
<Contents><Key>object001</Key><LastModified>2015-07-01T00:32:16.482Z</LastModified>\
<ETag>\"2fa3bcaaec668adc5da177e67a122d7c\"</ETag><Size>12041</Size>\
<Owner><ID>b4bf1b36d9ca43d984fbcb9491b6fce9</ID></Owner>\
<StorageClass>STANDARD</StorageClass></Contents>\
<Contents><Key>dir/object &amp; more</Key><Size>0</Size></Contents>\
</ListBucketResult>";

fn element(depth: usize, name: &str, text: Option<&str>) -> XmlNode {
    XmlNode { depth, is_element: true, name: name.to_string(), text: text.map(String::from) }
}

fn text_node(depth: usize, text: &str) -> XmlNode {
    XmlNode { depth, is_element: false, name: String::new(), text: Some(text.to_string()) }
}

fn strings(items: &[&str]) -> Vec<String> {
    items.iter().map(|s| s.to_string()).collect()
}

#[test]
fn buckets_of_a_listing() {
    let buckets = parse_bucket_list(BUCKETS).unwrap();
    assert_eq!(buckets.len(), 2);
    assert_eq!(buckets[0].name, "examplebucket01");
    assert_eq!(buckets[0].creation_date, "2018-06-21T09:15:01.032Z");
    assert_eq!(buckets[0].location, "region");
    assert_eq!(buckets[0].bucket_type, "OBJECT");
    assert_eq!(buckets[1].name, "examplebucket02");
    assert_eq!(buckets[1].creation_date, "2018-06-22T03:56:33.700Z");
    // A tag that is absent gives an empty field, not an error.
    assert_eq!(buckets[1].bucket_type, "");
}

#[test]
fn objects_of_a_listing() {
    let objects = parse_object_list(OBJECTS).unwrap();
    assert_eq!(objects.len(), 2);
    assert_eq!(objects[0].key, "object001");
    assert_eq!(objects[0].last_modified, "2015-07-01T00:32:16.482Z");
    assert_eq!(objects[0].size, "12041");
    assert_eq!(objects[0].storage_class, "STANDARD");
    assert_eq!(objects[1].key, "dir/object & more");
    assert_eq!(objects[1].last_modified, "");
    assert_eq!(objects[1].size, "0");
    assert_eq!(objects[1].storage_class, "");
}

#[test]
fn listing_without_entries() {
    let xml = "<ListAllMyBucketsResult><Buckets/></ListAllMyBucketsResult>";
    assert_eq!(parse_bucket_list(xml).unwrap().len(), 0);
    assert_eq!(parse_object_list(xml).unwrap().len(), 0);
    assert_eq!(parse_object_list(BUCKETS).unwrap().len(), 0);
}

#[test]
fn text_that_is_no_document_is_refused() {
    for text in ["", "not xml", "<a>", "<a></b>", "<a/><b/>"] {
        assert!(parse_bucket_list(text).is_none());
        assert!(parse_object_list(text).is_none());
    }
}

#[test]
fn empty_elements_and_nested_markup_give_empty_fields() {
    let xml = "<r><Bucket><Name></Name><Location><Deep>x</Deep></Location>\
               <BucketType><!-- c -->t</BucketType></Bucket></r>";
    let buckets = parse_bucket_list(xml).unwrap();
    assert_eq!(buckets.len(), 1);
    assert_eq!(buckets[0].name, "");
    assert_eq!(buckets[0].creation_date, "");
    // Only the text that comes first in an element counts.
    assert_eq!(buckets[0].location, "");
    assert_eq!(buckets[0].bucket_type, "");
}

#[test]
fn field_is_found_at_any_depth_of_its_entry_and_not_beyond() {
    let xml = "<r><Contents><Meta><Key>inner</Key></Meta><Size>1</Size></Contents>\
               <Key>outside</Key>\
               <Contents><Size>2</Size></Contents><Key>later</Key></r>";
    let objects = parse_object_list(xml).unwrap();
    assert_eq!(objects.len(), 2);
    assert_eq!(objects[0].key, "inner");
    assert_eq!(objects[0].size, "1");
    assert_eq!(objects[1].key, "");
    assert_eq!(objects[1].size, "2");
}

#[test]
fn first_of_several_elements_with_one_tag_counts() {
    let xml = "<r><Bucket><Name>first</Name><Name>second</Name></Bucket></r>";
    assert_eq!(parse_bucket_list(xml).unwrap()[0].name, "first");
}

#[test]
fn entry_inside_an_entry_is_an_entry_of_its_own() {
    let xml = "<r><Bucket><Name>outer</Name><Bucket><Name>inner</Name>\
               <Location>here</Location></Bucket></Bucket></r>";
    let buckets = parse_bucket_list(xml).unwrap();
    assert_eq!(buckets.len(), 2);
    assert_eq!(buckets[0].name, "outer");
    assert_eq!(buckets[0].location, "here");
    assert_eq!(buckets[1].name, "inner");
    assert_eq!(buckets[1].location, "here");
}

#[test]
fn prefixed_names_are_compared_by_their_local_part() {
    let xml = "<o:r xmlns:o=\"urn:o\"><o:Bucket><o:Name>n</o:Name></o:Bucket></o:r>";
    let buckets = parse_bucket_list(xml).unwrap();
    assert_eq!(buckets.len(), 1);
    assert_eq!(buckets[0].name, "n");
}

#[test]
fn rows_from_nodes() {
    let nodes = vec![
        XmlNode { depth: 1, is_element: false, name: String::new(), text: None },
        element(2, "r", None),
        element(3, "Item", Some("own text")),
        text_node(4, "own text"),
        element(4, "A", Some("a1")),
        text_node(5, "a1"),
        element(4, "B", None),
        element(3, "A", Some("outside")),
        text_node(4, "outside"),
        element(3, "Item", None),
        element(4, "B", Some("b2")),
        text_node(5, "b2"),
    ];
    let rows = extract_rows(&nodes, &"Item".to_string(), &strings(&["A", "B", "Item", "C"]));
    assert_eq!(
        rows,
        vec![strings(&["a1", "", "own text", ""]), strings(&["", "b2", "", ""])]
    );
    assert_eq!(extract_rows(&nodes, &"None".to_string(), &strings(&["A"])), Vec::<Vec<String>>::new());
    assert_eq!(extract_rows(&nodes, &"Item".to_string(), &vec![]), vec![strings(&[]), strings(&[])]);
    assert_eq!(extract_rows(&vec![], &"Item".to_string(), &strings(&["A"])), Vec::<Vec<String>>::new());
}

#[test]
fn nodes_that_are_no_elements_are_never_matched() {
    let nodes = vec![
        element(1, "Bucket", None),
        XmlNode { depth: 2, is_element: false, name: "Name".to_string(), text: Some("no".to_string()) },
        element(2, "Name", Some("yes")),
    ];
    let buckets = buckets_in(&nodes);
    assert_eq!(buckets.len(), 1);
    assert_eq!(buckets[0].name, "yes");
    assert_eq!(objects_in(&nodes).len(), 0);
}
