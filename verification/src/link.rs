//! The continuation links of a paginated response.
//!
//! A response names its neighbouring pages in a header value: a list of
//! entries separated by commas, each a target in angle brackets followed by
//! parameters that semicolons introduce, as in
//! `<https://example.test/page/2>; rel="next"`. The relation of an entry is
//! the value of its first `rel` parameter.

use crate::text::{
    chars_of, find, has_prefix, lemma_split_len, position, same_text, split, split_at_each,
    starts_with, string_of, trim, trimmed,
};
use vstd::prelude::*;
use vstd::slice::slice_subrange;

verus! {

/// One entry of a link header: a target and the relation it stands in.
#[derive(Debug)]
pub struct Link {
    pub url: String,
    pub rel: String,
}

/// A link as plain text.
pub struct LinkView {
    pub url: Seq<char>,
    pub rel: Seq<char>,
}

impl View for Link {
    type V = LinkView;

    open spec fn view(&self) -> LinkView {
        LinkView { url: self.url@, rel: self.rel@ }
    }
}

impl DeepView for Link {
    type V = LinkView;

    open spec fn deep_view(&self) -> LinkView {
        self@
    }
}

/// `value` without its double quotes, where it stands between a pair of them.
pub open spec fn unquoted(value: Seq<char>) -> Seq<char> {
    if value.len() >= 2 && value[0] == '"' && value.last() == '"' {
        value.subrange(1, value.len() - 1)
    } else {
        value
    }
}

/// The relation that `param` gives, where it is a `rel` parameter: blanks
/// around the parameter do not count, the name is `rel` in lower case and
/// directly followed by `=`, and quotes around the value are taken off.
pub open spec fn relation_of(param: Seq<char>) -> Option<Seq<char>> {
    let inner = trim(param);
    if starts_with(inner, "rel="@) {
        Some(unquoted(inner.skip("rel="@.len() as int)))
    } else {
        None
    }
}

/// The relation that the first `rel` parameter among `params` gives.
pub open spec fn first_relation(params: Seq<Seq<char>>) -> Option<Seq<char>>
    decreases params.len(),
{
    if params.len() == 0 {
        None
    } else if relation_of(params[0]) is Some {
        relation_of(params[0])
    } else {
        first_relation(params.drop_first())
    }
}

/// The link that `entry` holds. Its target is the text strictly between the
/// first `<` and the first `>`; its parameters are what the semicolons after
/// the target introduce. There is none where the brackets are missing or in
/// the wrong order, or where no parameter gives a relation.
pub open spec fn link_of(entry: Seq<char>) -> Option<LinkView> {
    let lt = position(entry, '<');
    let gt = position(entry, '>');
    if 0 <= lt < gt < entry.len() {
        match first_relation(split(entry.skip(gt + 1), ';').drop_first()) {
            Some(rel) => Some(LinkView { url: entry.subrange(lt + 1, gt), rel }),
            None => None,
        }
    } else {
        None
    }
}

/// The links of a header value, in the order of its entries; an entry that
/// holds none is passed over.
pub open spec fn links_of(header: Seq<char>) -> Seq<LinkView> {
    split(header, ',').filter_map(|entry: Seq<char>| link_of(entry))
}

/// The target of the first of `links` whose relation is exactly `rel`.
pub open spec fn target_of(links: Seq<LinkView>, rel: Seq<char>) -> Option<Seq<char>>
    decreases links.len(),
{
    if links.len() == 0 {
        None
    } else if links[0].rel == rel {
        Some(links[0].url)
    } else {
        target_of(links.drop_first(), rel)
    }
}

/// The address of the page after this one, as a header value names it: the
/// target of its first entry with the relation `next`.
pub open spec fn next_cursor(header: Seq<char>) -> Option<Seq<char>> {
    target_of(links_of(header), "next"@)
}

/// What [`target_of`] finds belongs to a link with the relation asked for,
/// and no link before that one has this relation; where it finds nothing, no
/// link has it.
pub proof fn lemma_target_is_first_match(links: Seq<LinkView>, rel: Seq<char>)
    ensures
        match target_of(links, rel) {
            Some(url) => exists|i: int|
                {
                    &&& 0 <= i < links.len()
                    &&& (#[trigger] links[i]).rel == rel
                    &&& links[i].url == url
                    &&& forall|j: int| 0 <= j < i ==> (#[trigger] links[j]).rel != rel
                },
            None => forall|i: int| 0 <= i < links.len() ==> (#[trigger] links[i]).rel != rel,
        },
    decreases links.len(),
{
    if links.len() == 0 {
    } else if links[0].rel == rel {
        assert(links[0].url == target_of(links, rel)->Some_0);
    } else {
        let rest = links.drop_first();
        lemma_target_is_first_match(rest, rel);
        match target_of(rest, rel) {
            Some(url) => {
                let i = choose|i: int|
                    {
                        &&& 0 <= i < rest.len()
                        &&& (#[trigger] rest[i]).rel == rel
                        &&& rest[i].url == url
                        &&& forall|j: int| 0 <= j < i ==> (#[trigger] rest[j]).rel != rel
                    };
                assert(links[i + 1] == rest[i]);
                assert forall|j: int| 0 <= j < i + 1 implies (#[trigger] links[j]).rel != rel by {
                    if j > 0 {
                        assert(links[j] == rest[j - 1]);
                    }
                }
            },
            None => {
                assert forall|i: int| 0 <= i < links.len() implies (#[trigger] links[i]).rel
                    != rel by {
                    if i > 0 {
                        assert(links[i] == rest[i - 1]);
                    }
                }
            },
        }
    }
}

/// `value` without its double quotes, where it stands between a pair of them.
fn unquote(value: &[char]) -> (inner: &[char])
    ensures
        inner@ == unquoted(value@),
{
    let n = value.len();
    if n >= 2 && value[0] == '"' && value[n - 1] == '"' {
        slice_subrange(value, 1, n - 1)
    } else {
        value
    }
}

/// The relation that `param` gives, where it is a `rel` parameter.
fn relation(param: &[char]) -> (rel: Option<&[char]>)
    ensures
        match rel {
            Some(r) => relation_of(param@) == Some(r@),
            None => relation_of(param@) is None,
        },
{
    let inner = trimmed(param);
    let name = chars_of("rel=");
    if has_prefix(inner, name.as_slice()) {
        Some(unquote(slice_subrange(inner, name.len(), inner.len())))
    } else {
        None
    }
}

/// The link that `entry` holds.
pub fn parse_link(entry: &[char]) -> (found: Option<Link>)
    ensures
        found.deep_view() == link_of(entry@),
{
    let lt = find(entry, '<');
    let gt = find(entry, '>');
    if !(lt < gt && gt < entry.len()) {
        return None;
    }
    let segments = split_at_each(slice_subrange(entry, gt + 1, entry.len()), ';');
    let ghost params = split(entry@.skip(gt + 1), ';').drop_first();
    let mut i: usize = 1;
    proof {
        lemma_split_len(entry@.skip(gt + 1), ';');
    }
    assert(segments.deep_view().len() == segments@.len());
    assert(params.skip(0) == params);
    while i < segments.len()
        invariant
            1 <= i <= segments@.len(),
            segments@.len() == params.len() + 1,
            0 <= lt < gt < entry@.len(),
            lt == position(entry@, '<'),
            gt == position(entry@, '>'),
            segments.deep_view() == split(entry@.skip(gt + 1), ';'),
            params == split(entry@.skip(gt + 1), ';').drop_first(),
            first_relation(params) == first_relation(params.skip(i - 1)),
        decreases segments@.len() - i,
    {
        let ghost rest = params.skip(i - 1);
        assert(rest[0] == segments[i as int]@) by {
            assert(segments.deep_view()[i as int] == segments[i as int].deep_view());
            assert(segments[i as int].deep_view() == segments[i as int]@);
        }
        assert(rest.drop_first() == params.skip(i as int));
        match relation(segments[i].as_slice()) {
            Some(rel) => {
                return Some(
                    Link {
                        url: string_of(slice_subrange(entry, lt + 1, gt)),
                        rel: string_of(rel),
                    },
                );
            },
            None => {},
        }
        i += 1;
    }
    assert(params.skip(i - 1).len() == 0);
    None
}

/// The links of a header value, in the order of its entries. An entry that
/// holds no link is passed over.
pub fn parse_link_header(header: &str) -> (links: Vec<Link>)
    ensures
        links.deep_view() == links_of(header@),
{
    let chars = chars_of(header);
    let entries = split_at_each(chars.as_slice(), ',');
    let ghost link_in = |entry: Seq<char>| link_of(entry);
    let mut links: Vec<Link> = Vec::new();
    let mut i: usize = 0;
    assert(links.deep_view() == entries.deep_view().take(0).filter_map(link_in));
    while i < entries.len()
        invariant
            i <= entries@.len(),
            link_in == |entry: Seq<char>| link_of(entry),
            entries.deep_view() == split(header@, ','),
            links.deep_view() == entries.deep_view().take(i as int).filter_map(link_in),
        decreases entries@.len() - i,
    {
        let ghost before = links.deep_view();
        let ghost upto = entries.deep_view().take(i + 1);
        assert(upto.drop_last() == entries.deep_view().take(i as int));
        assert(upto.last() == entries[i as int]@) by {
            assert(entries.deep_view()[i as int] == entries[i as int].deep_view());
            assert(entries[i as int].deep_view() == entries[i as int]@);
        }
        match parse_link(entries[i].as_slice()) {
            Some(link) => {
                links.push(link);
                assert(links.deep_view() == before + seq![link@]);
            },
            None => {},
        }
        i += 1;
    }
    assert(entries.deep_view().take(i as int) == entries.deep_view());
    links
}

/// The address of the page after this one, as the header value
/// `link_header` names it, or `None` where it names no such page.
pub fn get_next_page(link_header: String) -> (next: Option<String>)
    ensures
        next.deep_view() == next_cursor(link_header@),
{
    let links = parse_link_header(link_header.as_str());
    let wanted = chars_of("next");
    let mut i: usize = 0;
    assert(links.deep_view().skip(0) == links.deep_view());
    while i < links.len()
        invariant
            i <= links@.len(),
            wanted@ == "next"@,
            links.deep_view() == links_of(link_header@),
            target_of(links.deep_view(), "next"@) == target_of(
                links.deep_view().skip(i as int),
                "next"@,
            ),
        decreases links@.len() - i,
    {
        let ghost rest = links.deep_view().skip(i as int);
        assert(rest[0] == links[i as int]@);
        assert(rest.drop_first() == links.deep_view().skip(i + 1));
        let rel = chars_of(links[i].rel.as_str());
        if same_text(rel.as_slice(), wanted.as_slice()) {
            return Some(links[i].url.clone());
        }
        i += 1;
    }
    None
}

} // verus!
