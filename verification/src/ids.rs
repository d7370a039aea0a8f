//! Random identifiers.

use vstd::prelude::*;

use crate::keyed;
use crate::keyed::{position, Keyed};
use crate::text::{chars_of, concat, copy_range, string_of};

verus! {

/// Whether a character is a lower-case hexadecimal digit.
pub open spec fn is_lower_hex(c: char) -> bool {
    ('0' <= c && c <= '9') || ('a' <= c && c <= 'f')
}

/// Whether a text is `n` lower-case hexadecimal digits.
pub open spec fn is_hex_text(s: Seq<char>, n: nat) -> bool {
    s.len() == n && forall|i: int| 0 <= i < n ==> is_lower_hex(#[trigger] s[i])
}

/// Whether a position of a hyphenated identifier holds a hyphen.
pub open spec fn hyphen_at(i: int) -> bool {
    i == 8 || i == 13 || i == 18 || i == 23
}

/// Whether a text is a hyphenated identifier: hexadecimal groups of 8, 4, 4, 4 and 12 digits.
pub open spec fn is_hyphenated(s: Seq<char>) -> bool {
    &&& s.len() == 36
    &&& forall|i: int|
        0 <= i < 36 ==> if hyphen_at(i) {
            #[trigger] s[i] == '-'
        } else {
            is_lower_hex(s[i])
        }
}

/// `uuid::Uuid::new_v4`, printed with hyphens: 36 characters in lower case. Which identifier
/// comes is random.
#[verifier::external_body]
pub(crate) fn new_uuid() -> (r: String)
    ensures
        is_hyphenated(r@),
{
    uuid::Uuid::new_v4().to_string()
}

/// `uuid::Uuid::simple` of a `uuid::Uuid::new_v4`: 32 hexadecimal digits in lower case.
/// Which identifier comes is random.
#[verifier::external_body]
pub(crate) fn new_simple_uuid() -> (r: String)
    ensures
        is_hex_text(r@, 32),
{
    uuid::Uuid::new_v4().simple().to_string()
}

/// A text without its hyphens.
pub open spec fn unhyphenated(s: Seq<char>) -> Seq<char>
    decreases s.len(),
{
    if s.len() == 0 {
        s
    } else if s.last() == '-' {
        unhyphenated(s.drop_last())
    } else {
        unhyphenated(s.drop_last()).push(s.last())
    }
}

/// How many hyphens stand before a position of a hyphenated identifier.
spec fn hyphens_before(i: int) -> int {
    (if i > 8 { 1int } else { 0 }) + (if i > 13 { 1int } else { 0 }) + (if i > 18 {
        1int
    } else {
        0
    }) + (if i > 23 { 1int } else { 0 })
}

proof fn lemma_unhyphenated_prefix(s: Seq<char>, i: int)
    requires
        is_hyphenated(s),
        0 <= i <= 36,
    ensures
        is_hex_text(unhyphenated(s.take(i)), (i - hyphens_before(i)) as nat),
    decreases i,
{
    if i > 0 {
        lemma_unhyphenated_prefix(s, i - 1);
        assert(s.take(i).drop_last() =~= s.take(i - 1));
        assert(s.take(i).last() == s[i - 1]);
        assert(is_lower_hex(s[i - 1]) || s[i - 1] == '-');
        assert(hyphen_at(i - 1) == (s[i - 1] == '-'));
    }
}

/// Without its hyphens an identifier is 32 hexadecimal digits.
pub proof fn lemma_unhyphenated(s: Seq<char>)
    requires
        is_hyphenated(s),
    ensures
        is_hex_text(unhyphenated(s), 32),
{
    lemma_unhyphenated_prefix(s, 36);
    assert(s.take(36) =~= s);
}

/// A text without its hyphens.
pub fn without_hyphens(s: &str) -> (r: String)
    ensures
        r@ == unhyphenated(s@),
{
    let cs: Vec<char> = chars_of(s);
    let mut out: Vec<char> = Vec::new();
    let mut i: usize = 0;
    while i < cs.len()
        invariant
            i <= cs.len(),
            out@ == unhyphenated(cs@.take(i as int)),
        decreases cs.len() - i,
    {
        if cs[i] != '-' {
            out.push(cs[i]);
        }
        i += 1;
        assert(cs@.take(i as int).drop_last() =~= cs@.take(i - 1));
        assert(cs@.take(i as int).last() == cs@[i - 1]);
    }
    assert(cs@.take(i as int) =~= cs@);
    string_of(out.as_slice())
}

/// A fresh identifier of 32 hexadecimal digits.
pub fn new_hex_id() -> (r: String)
    ensures
        is_hex_text(r@, 32),
{
    let id: String = new_uuid();
    proof {
        lemma_unhyphenated(id@);
    }
    without_hyphens(id.as_str())
}

/// A slug, an underscore and the first eight characters of a random text.
pub open spec fn extended_slug(slug: Seq<char>, random: Seq<char>) -> Seq<char> {
    slug + "_"@ + random.take(8)
}

/// A slug, an underscore and the first eight characters of a random text.
pub fn extend_slug(slug: &str, random: &str) -> (r: String)
    requires
        random@.len() >= 8,
    ensures
        r@ == extended_slug(slug@, random@),
{
    let cs: Vec<char> = chars_of(random);
    let head: Vec<char> = copy_range(&cs, 0, 8);
    let tail: String = string_of(head.as_slice());
    assert(tail@ =~= random@.take(8));
    concat(concat(slug, "_").as_str(), tail.as_str())
}

/// The id of a new record: the slug of its name, or, where that is taken, the slug, an underscore
/// and the first eight characters of a random text.
pub open spec fn registry_id<T: Keyed>(s: Seq<T>, slug: Seq<char>, random: Seq<char>) -> Seq<char> {
    if keyed::key_pos(s, slug) is Some {
        extended_slug(slug, random)
    } else {
        slug
    }
}

/// Whether a text is an id that a new record may get.
pub open spec fn is_registry_id<T: Keyed>(s: Seq<T>, slug: Seq<char>, id: Seq<char>) -> bool {
    exists|random: Seq<char>|
        is_hex_text(random, 32) && id == #[trigger] registry_id(s, slug, random)
}

/// The id of a new record.
pub fn new_registry_id<T: Keyed>(records: &Vec<T>, slug: &str, random: &str) -> (r: String)
    requires
        random@.len() >= 8,
    ensures
        r@ == registry_id(records@, slug@, random@),
{
    match position(records, slug) {
        Some(_) => extend_slug(slug, random),
        None => slug.to_owned(),
    }
}

/// A free slug becomes the id as it is. A taken one is only extended, so that the new id differs
/// from it.
pub proof fn law_registry_id<T: Keyed>(s: Seq<T>, slug: Seq<char>, random: Seq<char>)
    requires
        random.len() >= 8,
    ensures
        keyed::key_pos(s, slug) is None ==> registry_id(s, slug, random) == slug,
        keyed::key_pos(s, slug) is Some ==> {
            let id = registry_id(s, slug, random);
            &&& id != slug
            &&& id.len() == slug.len() + 9
            &&& (slug + "_"@).is_prefix_of(id)
        },
{
    reveal_strlit("_");
    if keyed::key_pos(s, slug) is Some {
        let id = registry_id(s, slug, random);
        assert(id.take((slug.len() + 1) as int) =~= slug + "_"@);
    }
}

/// A fresh identifier of 64 hexadecimal digits.
pub fn new_long_hex_id() -> (r: String)
    ensures
        is_hex_text(r@, 64),
{
    let head: String = new_hex_id();
    let tail: String = new_hex_id();
    let r: String = concat(head.as_str(), tail.as_str());
    assert forall|i: int| 0 <= i < 64 implies is_lower_hex(#[trigger] r@[i]) by {
        if i < 32 {
            assert(r@[i] == head@[i]);
        } else {
            assert(r@[i] == tail@[i - 32]);
        }
    }
    r
}

} // verus!
