//! The completion manifest of a multipart upload: the uploaded parts in
//! ascending order of their numbers, and the XML text that carries them.

use crate::text::{append_decimal, decimal};
use vstd::prelude::*;
use vstd::string::StringExecFns;

verus! {

/// One uploaded part: its number and the entity tag that the service gave it.
#[derive(Debug)]
pub struct Part {
    pub part_number: u32,
    pub etag: String,
}

/// Mathematical value of a `Part`.
pub struct PartView {
    pub part_number: nat,
    pub etag: Seq<char>,
}

impl View for Part {
    type V = PartView;

    open spec fn view(&self) -> PartView {
        PartView { part_number: self.part_number as nat, etag: self.etag@ }
    }
}

/// The parts that complete a multipart upload, in ascending order of their
/// numbers.
#[derive(Debug)]
pub struct CompleteMultipartUpload {
    pub parts: Vec<Part>,
}

/// Values of the parts of a vector, in order.
pub open spec fn views_of(parts: Seq<Part>) -> Seq<PartView> {
    Seq::new(parts.len(), |i: int| parts[i]@)
}

impl View for CompleteMultipartUpload {
    type V = Seq<PartView>;

    open spec fn view(&self) -> Seq<PartView> {
        views_of(self.parts@)
    }
}

/// No part stands before one with a smaller number.
pub open spec fn is_ascending(parts: Seq<PartView>) -> bool {
    forall|i: int, j: int|
        0 <= i < j < parts.len() ==> (#[trigger] parts[i]).part_number <= (
        #[trigger] parts[j]).part_number
}

/// The parts of `parts` that have the number `n`, in the order in which they
/// stand there.
pub open spec fn with_number(parts: Seq<PartView>, n: nat) -> Seq<PartView>
    decreases parts.len(),
{
    if parts.len() == 0 {
        Seq::empty()
    } else if parts.last().part_number == n {
        with_number(parts.drop_last(), n).push(parts.last())
    } else {
        with_number(parts.drop_last(), n)
    }
}

/// `sorted` holds the parts of `parts` in ascending order of their numbers,
/// parts of one number in the order that they have in `parts`.
pub open spec fn is_sorted_form_of(sorted: Seq<PartView>, parts: Seq<PartView>) -> bool {
    &&& is_ascending(sorted)
    &&& sorted.len() == parts.len()
    &&& forall|n: nat| with_number(sorted, n) == with_number(parts, n)
}

/// No two parts of `parts` have the same number.
pub open spec fn has_distinct_numbers(parts: Seq<PartView>) -> bool {
    forall|i: int, j: int|
        0 <= i < j < parts.len() ==> (#[trigger] parts[i]).part_number != (
        #[trigger] parts[j]).part_number
}

/// The parts of one number in a concatenation are those of its two halves.
pub proof fn lemma_with_number_concat(a: Seq<PartView>, b: Seq<PartView>, n: nat)
    ensures
        with_number(a + b, n) == with_number(a, n) + with_number(b, n),
    decreases b.len(),
{
    if b.len() == 0 {
        assert(a + b =~= a);
        assert(with_number(a, n) + with_number(b, n) =~= with_number(a, n));
    } else {
        assert((a + b).drop_last() =~= a + b.drop_last());
        lemma_with_number_concat(a, b.drop_last(), n);
        assert(with_number(a + b, n) =~= with_number(a, n) + with_number(b, n));
    }
}

/// Every part found under a number has that number and stands in the
/// sequence; where no part has the number, none is found.
pub proof fn lemma_with_number_members(parts: Seq<PartView>, n: nat)
    ensures
        forall|k: int|
            0 <= k < with_number(parts, n).len() ==> (#[trigger] with_number(
                parts,
                n,
            )[k]).part_number == n && parts.contains(with_number(parts, n)[k]),
        (forall|i: int| 0 <= i < parts.len() ==> (#[trigger] parts[i]).part_number != n)
            ==> with_number(parts, n).len() == 0,
        with_number(parts, n).len() <= parts.len(),
    decreases parts.len(),
{
    if parts.len() > 0 {
        let rest = parts.drop_last();
        lemma_with_number_members(rest, n);
        assert forall|k: int| 0 <= k < with_number(parts, n).len() implies (#[trigger] with_number(
            parts,
            n,
        )[k]).part_number == n && parts.contains(with_number(parts, n)[k]) by {
            if k < with_number(rest, n).len() {
                let p = with_number(rest, n)[k];
                assert(rest.contains(p));
                let i = choose|i: int| 0 <= i < rest.len() && rest[i] == p;
                assert(parts[i] == p);
            } else {
                assert(parts[parts.len() - 1] == parts.last());
            }
        }
        if forall|i: int| 0 <= i < parts.len() ==> (#[trigger] parts[i]).part_number != n {
            assert(parts[parts.len() - 1].part_number != n);
            assert forall|i: int| 0 <= i < rest.len() implies (#[trigger] rest[i]).part_number
                != n by {
                assert(rest[i] == parts[i]);
            }
        }
    }
}

/// Every part of a sequence is found under its number.
pub proof fn lemma_with_number_holds(parts: Seq<PartView>, i: int)
    requires
        0 <= i < parts.len(),
    ensures
        with_number(parts, parts[i].part_number).contains(parts[i]),
    decreases parts.len(),
{
    let n = parts[i].part_number;
    let rest = parts.drop_last();
    if i == parts.len() - 1 {
        let found = with_number(parts, n);
        assert(found[found.len() - 1] == parts[i]);
    } else {
        lemma_with_number_holds(rest, i);
        assert(rest[i] == parts[i]);
        let k = choose|k: int| 0 <= k < with_number(rest, n).len() && with_number(rest, n)[k]
            == parts[i];
        assert(with_number(parts, n)[k] == parts[i]);
    }
}

/// The sorted form of a sequence holds the same parts as the sequence.
pub proof fn lemma_sorted_form_has_same_parts(sorted: Seq<PartView>, parts: Seq<PartView>)
    requires
        is_sorted_form_of(sorted, parts),
    ensures
        forall|p: PartView| sorted.contains(p) <==> parts.contains(p),
{
    assert forall|p: PartView| sorted.contains(p) <==> parts.contains(p) by {
        let n = p.part_number;
        assert(with_number(sorted, n) == with_number(parts, n));
        lemma_with_number_members(sorted, n);
        lemma_with_number_members(parts, n);
        if sorted.contains(p) {
            let i = choose|i: int| 0 <= i < sorted.len() && sorted[i] == p;
            lemma_with_number_holds(sorted, i);
            let k = choose|k: int| 0 <= k < with_number(sorted, n).len() && with_number(sorted, n)[k]
                == p;
            assert(parts.contains(with_number(parts, n)[k]));
        }
        if parts.contains(p) {
            let i = choose|i: int| 0 <= i < parts.len() && parts[i] == p;
            lemma_with_number_holds(parts, i);
            let k = choose|k: int| 0 <= k < with_number(parts, n).len() && with_number(parts, n)[k]
                == p;
            assert(sorted.contains(with_number(sorted, n)[k]));
        }
    }
}

/// A sequence is determined by the order of its numbers and the parts under
/// each number: two ascending sequences with the same parts under every number
/// are equal.
pub proof fn lemma_sorted_form_unique(x: Seq<PartView>, y: Seq<PartView>)
    requires
        is_ascending(x),
        is_ascending(y),
        forall|n: nat| with_number(x, n) == with_number(y, n),
    ensures
        x == y,
    decreases x.len(),
{
    if x.len() == 0 {
        if y.len() > 0 {
            let m = y.last().part_number;
            assert(with_number(y, m).len() > 0);
            assert(with_number(x, m).len() == 0);
        }
        assert(x =~= y);
    } else {
        let m = x.last().part_number;
        assert(with_number(x, m).last() == x.last());
        assert(with_number(y, m).len() > 0);
        if y.len() == 0 {
            assert(with_number(y, m).len() == 0);
        }
        let m2 = y.last().part_number;
        assert(with_number(y, m2).last() == y.last());
        lemma_with_number_members(x, m2);
        lemma_with_number_members(y, m);
        assert(m2 <= m) by {
            let p = with_number(x, m2)[0];
            assert(x.contains(p));
            let i = choose|i: int| 0 <= i < x.len() && x[i] == p;
            if i < x.len() - 1 {
                assert(x[i].part_number <= x[x.len() - 1].part_number);
            }
        }
        assert(m <= m2) by {
            let p = with_number(y, m)[0];
            assert(y.contains(p));
            let i = choose|i: int| 0 <= i < y.len() && y[i] == p;
            if i < y.len() - 1 {
                assert(y[i].part_number <= y[y.len() - 1].part_number);
            }
        }
        assert(x.last() == y.last());
        let x1 = x.drop_last();
        let y1 = y.drop_last();
        assert(is_ascending(x1)) by {
            assert forall|i: int, j: int| 0 <= i < j < x1.len() implies (
            #[trigger] x1[i]).part_number <= (#[trigger] x1[j]).part_number by {
                assert(x[i].part_number <= x[j].part_number);
            }
        }
        assert(is_ascending(y1)) by {
            assert forall|i: int, j: int| 0 <= i < j < y1.len() implies (
            #[trigger] y1[i]).part_number <= (#[trigger] y1[j]).part_number by {
                assert(y[i].part_number <= y[j].part_number);
            }
        }
        assert forall|n: nat| with_number(x1, n) == with_number(y1, n) by {
            assert(with_number(x, n) == with_number(y, n));
            if n == m {
                assert(with_number(x1, n) =~= with_number(x, n).drop_last());
                assert(with_number(y1, n) =~= with_number(y, n).drop_last());
            }
        }
        lemma_sorted_form_unique(x1, y1);
        assert(x =~= x1.push(x.last()));
        assert(y =~= y1.push(y.last()));
    }
}

/// Where no two parts share a number, the parts under a number are the one
/// part that has it, if any has.
pub proof fn lemma_with_number_of_distinct(parts: Seq<PartView>, n: nat)
    requires
        has_distinct_numbers(parts),
    ensures
        forall|i: int|
            0 <= i < parts.len() && (#[trigger] parts[i]).part_number == n ==> with_number(
                parts,
                n,
            ) == seq![parts[i]],
    decreases parts.len(),
{
    if parts.len() > 0 {
        let rest = parts.drop_last();
        assert(has_distinct_numbers(rest)) by {
            assert forall|i: int, j: int| 0 <= i < j < rest.len() implies (
            #[trigger] rest[i]).part_number != (#[trigger] rest[j]).part_number by {
                assert(parts[i].part_number != parts[j].part_number);
            }
        }
        lemma_with_number_of_distinct(rest, n);
        lemma_with_number_members(rest, n);
        assert forall|i: int|
            0 <= i < parts.len() && (#[trigger] parts[i]).part_number == n implies with_number(
            parts,
            n,
        ) == seq![parts[i]] by {
            let last = parts.len() - 1;
            if i == last {
                assert forall|k: int| 0 <= k < rest.len() implies (#[trigger] rest[k]).part_number
                    != n by {
                    assert(parts[k].part_number != parts[last].part_number);
                }
                assert(with_number(parts, n) =~= seq![parts[i]]);
            } else {
                assert(rest[i] == parts[i]);
                assert(parts[i].part_number != parts[last].part_number);
                assert(with_number(parts, n) =~= seq![parts[i]]);
            }
        }
    }
}

/// What an XML text node holds for the character `c`: an entity for `<`, `>`
/// and `&`, the character itself for any other.
pub open spec fn escaped_char(c: char) -> Seq<char> {
    if c == '<' {
        "&lt;"@
    } else if c == '>' {
        "&gt;"@
    } else if c == '&' {
        "&amp;"@
    } else {
        seq![c]
    }
}

/// `text` as the content of an XML text node.
pub open spec fn escaped_text(text: Seq<char>) -> Seq<char>
    decreases text.len(),
{
    if text.len() == 0 {
        Seq::empty()
    } else {
        escaped_text(text.drop_last()) + escaped_char(text.last())
    }
}

/// The `ETag` element of a part; an empty tag is written as an empty element.
pub open spec fn etag_xml(etag: Seq<char>) -> Seq<char> {
    if etag.len() == 0 {
        "<ETag/>"@
    } else {
        "<ETag>"@ + escaped_text(etag) + "</ETag>"@
    }
}

/// The `Part` element of a part.
pub open spec fn part_xml(part: PartView) -> Seq<char> {
    "<Part><PartNumber>"@ + decimal(part.part_number) + "</PartNumber>"@ + etag_xml(part.etag)
        + "</Part>"@
}

/// The `Part` elements of `parts`, one after the other.
pub open spec fn parts_xml(parts: Seq<PartView>) -> Seq<char>
    decreases parts.len(),
{
    if parts.len() == 0 {
        Seq::empty()
    } else {
        parts_xml(parts.drop_last()) + part_xml(parts.last())
    }
}

/// The body of the request that completes an upload: one `Part` element for
/// each part, in the order of `parts`, inside one `CompleteMultipartUpload`
/// element, which is an empty element where there is no part.
pub open spec fn manifest_xml(parts: Seq<PartView>) -> Seq<char> {
    if parts.len() == 0 {
        "<CompleteMultipartUpload/>"@
    } else {
        "<CompleteMultipartUpload>"@ + parts_xml(parts) + "</CompleteMultipartUpload>"@
    }
}

/// Calls `quick_xml::escape::partial_escape`.
///
/// Trusted: it replaces each `<`, `>` and `&` by its entity and keeps every
/// other character.
#[verifier::external_body]
pub(crate) fn escape_text(text: &str) -> (r: String)
    ensures
        r@ == escaped_text(text@),
{
    quick_xml::escape::partial_escape(text).into_owned()
}

/// Appends the `Part` element of `part` to `xml`.
fn append_part_xml(xml: &mut String, part: &Part)
    ensures
        final(xml)@ == old(xml)@ + part_xml(part@),
{
    xml.append("<Part><PartNumber>");
    append_decimal(xml, part.part_number as u64);
    xml.append("</PartNumber>");
    if part.etag.as_str().is_empty() {
        xml.append("<ETag/>");
    } else {
        xml.append("<ETag>");
        let escaped = escape_text(part.etag.as_str());
        xml.append(escaped.as_str());
        xml.append("</ETag>");
    }
    xml.append("</Part>");
    assert(xml@ =~= old(xml)@ + part_xml(part@));
}

impl CompleteMultipartUpload {
    /// Puts uploaded parts, in whatever order they were finished, into the
    /// order of the manifest: ascending by number, parts of one number in
    /// the order in which they came.
    pub fn from_parts(parts: Vec<Part>) -> (r: CompleteMultipartUpload)
        ensures
            is_sorted_form_of(r@, views_of(parts@)),
    {
        let ghost input = views_of(parts@);
        let mut sorted: Vec<Part> = Vec::new();
        for part in it: parts
            invariant
                it.seq() == parts@,
                input == views_of(parts@),
                is_ascending(views_of(sorted@)),
                sorted@.len() == it.index(),
                forall|n: nat|
                    with_number(views_of(sorted@), n) == with_number(input.take(it.index()), n),
        {
            let ghost before = views_of(sorted@);
            let ghost taken = it.index();
            let mut at: usize = sorted.len();
            while at > 0 && sorted[at - 1].part_number > part.part_number
                invariant
                    at <= sorted@.len(),
                    forall|k: int|
                        at <= k < sorted@.len() ==> (#[trigger] sorted@[k]).part_number
                            > part.part_number,
                decreases at,
            {
                at = at - 1;
            }
            let ghost value = part@;
            sorted.insert(at, part);
            proof {
                let after = views_of(sorted@);
                let low = before.take(at as int);
                let high = before.skip(at as int);
                assert(before =~= low + high);
                assert(after =~= low + seq![value] + high);
                assert(is_ascending(after)) by {
                    assert forall|i: int, j: int| 0 <= i < j < after.len() implies (
                    #[trigger] after[i]).part_number <= (#[trigger] after[j]).part_number by {
                        if j < at {
                            assert(before[i].part_number <= before[j].part_number);
                        } else if j == at {
                            if at > 0 {
                                assert(before[i].part_number <= before[at - 1].part_number);
                            }
                        } else if i < at {
                            assert(before[j - 1] == sorted@[j]@);
                            if at > 0 {
                                assert(before[i].part_number <= before[at - 1].part_number);
                            }
                        } else if i == at {
                            assert(before[j - 1] == sorted@[j]@);
                        } else {
                            assert(before[i - 1].part_number <= before[j - 1].part_number);
                        }
                    }
                }
                assert(input.take(taken + 1).drop_last() =~= input.take(taken));
                assert(input.take(taken + 1).last() == value);
                assert forall|n: nat|
                    with_number(after, n) == with_number(input.take(taken + 1), n) by {
                    assert(with_number(before, n) == with_number(input.take(taken), n));
                    lemma_with_number_concat(low, high, n);
                    lemma_with_number_concat(low, seq![value], n);
                    lemma_with_number_concat(low + seq![value], high, n);
                    assert(seq![value].drop_last() =~= Seq::<PartView>::empty());
                    assert(seq![value].last() == value);
                    assert(with_number(Seq::<PartView>::empty(), n).len() == 0);
                    assert(with_number(seq![value].drop_last(), n).len() == 0);
                    if value.part_number == n {
                        lemma_with_number_members(high, n);
                        assert(with_number(high, n).len() == 0);
                        assert(with_number(seq![value], n) =~= seq![value]);
                        assert(with_number(after, n) =~= with_number(before, n).push(value));
                    } else {
                        assert(with_number(seq![value], n) =~= Seq::<PartView>::empty());
                        assert(with_number(after, n) =~= with_number(before, n));
                    }
                }
            }
        }
        proof {
            assert(input.take(parts@.len() as int) =~= input);
        }
        CompleteMultipartUpload { parts: sorted }
    }

    /// Writes the manifest as the body of the request that completes the
    /// upload.
    pub fn to_xml(&self) -> (r: String)
        ensures
            r@ == manifest_xml(self@),
    {
        let mut xml = String::new();
        if self.parts.len() == 0 {
            xml.append("<CompleteMultipartUpload/>");
            return xml;
        }
        xml.append("<CompleteMultipartUpload>");
        let mut i: usize = 0;
        while i < self.parts.len()
            invariant
                i <= self.parts@.len(),
                xml@ == "<CompleteMultipartUpload>"@ + parts_xml(self@.take(i as int)),
            decreases self.parts@.len() - i,
        {
            append_part_xml(&mut xml, &self.parts[i]);
            proof {
                assert(self@.take(i + 1).drop_last() =~= self@.take(i as int));
                assert(self@.take(i + 1).last() == self.parts@[i as int]@);
                assert(xml@ =~= "<CompleteMultipartUpload>"@ + parts_xml(self@.take(i + 1)));
            }
            i = i + 1;
        }
        xml.append("</CompleteMultipartUpload>");
        proof {
            assert(self@.take(self.parts@.len() as int) =~= self@);
        }
        xml
    }
}

/// The manifest does not depend on the order in which the parts were
/// uploaded: two sequences that hold the same parts, each number once, have
/// the same sorted form.
pub proof fn lemma_manifest_ignores_completion_order(
    first: Seq<PartView>,
    second: Seq<PartView>,
    sorted_first: Seq<PartView>,
    sorted_second: Seq<PartView>,
)
    requires
        has_distinct_numbers(first),
        has_distinct_numbers(second),
        forall|p: PartView| first.contains(p) <==> second.contains(p),
        is_sorted_form_of(sorted_first, first),
        is_sorted_form_of(sorted_second, second),
    ensures
        sorted_first == sorted_second,
{
    assert forall|n: nat| with_number(sorted_first, n) == with_number(sorted_second, n) by {
        assert(with_number(sorted_first, n) == with_number(first, n));
        assert(with_number(sorted_second, n) == with_number(second, n));
        lemma_with_number_of_distinct(first, n);
        lemma_with_number_of_distinct(second, n);
        lemma_with_number_members(first, n);
        lemma_with_number_members(second, n);
        if exists|i: int| 0 <= i < first.len() && (#[trigger] first[i]).part_number == n {
            let i = choose|i: int| 0 <= i < first.len() && (#[trigger] first[i]).part_number == n;
            assert(first.contains(first[i]));
            assert(second.contains(first[i]));
            let j = choose|j: int| 0 <= j < second.len() && second[j] == first[i];
            assert(second[j].part_number == n);
        } else {
            if exists|j: int| 0 <= j < second.len() && (#[trigger] second[j]).part_number == n {
                let j = choose|j: int|
                    0 <= j < second.len() && (#[trigger] second[j]).part_number == n;
                assert(second.contains(second[j]));
                assert(first.contains(second[j]));
                let i = choose|i: int| 0 <= i < first.len() && first[i] == second[j];
                assert(first[i].part_number == n);
            }
            assert(with_number(first, n) =~= with_number(second, n));
        }
    }
    lemma_sorted_form_unique(sorted_first, sorted_second);
}

} // verus!
