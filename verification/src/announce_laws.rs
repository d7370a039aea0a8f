//! What the home tells the network: laws over its announcement.

use vstd::prelude::*;
use vstd::string::*;

use crate::storage::OnboardingModel;
use crate::text;
use crate::zeroconf::{
    announcement_of, base_url_of, escaped_name, instance_name, ipv4_from, is_record, normal_host,
    properties_of, AnnouncementModel, HostAddress, ServiceRecord,
};

verus! {

/// The value of a property of an announcement, if it has it.
pub open spec fn property(
    s: Seq<(Seq<char>, Seq<char>)>,
    name: Seq<char>,
) -> Option<Seq<char>>
    decreases s.len(),
{
    if s.len() == 0 {
        None
    } else if s[0].0 == name {
        Some(s[0].1)
    } else {
        property(s.skip(1), name)
    }
}

proof fn lemma_property(s: Seq<(Seq<char>, Seq<char>)>, i: int)
    requires
        0 <= i < s.len(),
        forall|j: int| 0 <= j < i ==> (#[trigger] s[j]).0 != s[i].0,
    ensures
        property(s, s[i].0) == Some(s[i].1),
    decreases i,
{
    if i > 0 {
        assert(s[0].0 != s[i].0);
        assert(s.skip(1)[i - 1] == s[i]);
        assert forall|j: int| 0 <= j < i - 1 implies (#[trigger] s.skip(1)[j]).0
            != s.skip(1)[i - 1].0 by {
            assert(s.skip(1)[j] == s[j + 1]);
        }
        lemma_property(s.skip(1), i - 1);
    }
}

/// The address under which the home can be reached is made of its first address of version 4 or,
/// where it has none, of its first address, and of its port. Without an address there is none.
pub proof fn law_base_url(addresses: Seq<HostAddress>, port: u16, i: int)
    requires
        0 <= i < addresses.len(),
    ensures
        addresses[i].is_ipv4 && (forall|j: int| 0 <= j < i ==> !(#[trigger] addresses[j]).is_ipv4)
            ==> base_url_of(addresses, port) == "http://"@ + addresses[i].text@ + ":"@
            + text::decimal(port as nat),
        (forall|j: int| 0 <= j < addresses.len() ==> !(#[trigger] addresses[j]).is_ipv4)
            ==> base_url_of(addresses, port) == "http://"@ + addresses[0].text@ + ":"@
            + text::decimal(port as nat),
        base_url_of(Seq::empty(), port).len() == 0,
{
    lemma_ipv4(addresses, 0);
}

proof fn lemma_ipv4(s: Seq<HostAddress>, i: int)
    requires
        0 <= i,
    ensures
        match ipv4_from(s, i) {
            Some(t) => exists|k: int|
                i <= k < s.len() && (#[trigger] s[k]).is_ipv4 && s[k].text@ == t && forall|j: int|
                    i <= j < k ==> !(#[trigger] s[j]).is_ipv4,
            None => forall|j: int| i <= j < s.len() ==> !(#[trigger] s[j]).is_ipv4,
        },
    decreases s.len() - i,
{
    if i < s.len() {
        if s[i].is_ipv4 {
            assert(s[i].is_ipv4);
        } else {
            lemma_ipv4(s, i + 1);
        }
    }
}

/// The home announces itself under its name or, before it has one, under that of the product. It
/// tells its id, where it can be reached and that it asks for a password; an outer address it has
/// not. The port and the addresses are those of the server.
pub proof fn law_announcement(
    o: OnboardingModel,
    product_name: Seq<char>,
    port: u16,
    instance_id: Seq<char>,
    addresses: Seq<HostAddress>,
)
    ensures
        ({
            let a = announcement_of(o, product_name, port, instance_id, addresses);
            let name = if o.location_name is Some {
                o.location_name->0
            } else {
                product_name
            };
            &&& property(a.properties, "location_name"@) == Some(name)
            &&& property(a.properties, "uuid"@) == Some(instance_id)
            &&& property(a.properties, "internal_url"@) == Some(base_url_of(addresses, port))
            &&& property(a.properties, "base_url"@) == Some(base_url_of(addresses, port))
            &&& property(a.properties, "external_url"@) == Some(Seq::<char>::empty())
            &&& property(a.properties, "requires_api_password"@) == Some("true"@)
            &&& a.instance_name.is_prefix_of(name)
            &&& text::byte_count(name) <= 63 ==> a.instance_name == name
            &&& a.host_name == instance_id + ".local."@
            &&& a.port == port
            &&& a.addresses.len() == addresses.len()
            &&& forall|i: int|
                0 <= i < addresses.len() ==> #[trigger] a.addresses[i] == addresses[i].text@
        }),
{
    let a = announcement_of(o, product_name, port, instance_id, addresses);
    let name = if o.location_name is Some {
        o.location_name->0
    } else {
        product_name
    };
    crate::zeroconf::law_instance_name(name);
    let p = properties_of(o, product_name, port, instance_id, addresses);
    lemma_property_names();
    assert(p[0].0 == "location_name"@ && p[1].0 == "uuid"@ && p[2].0 == "version"@ && p[3].0
        == "external_url"@ && p[4].0 == "internal_url"@ && p[5].0 == "base_url"@ && p[6].0
        == "requires_api_password"@);
    lemma_property(p, 0);
    lemma_property(p, 1);
    lemma_property(p, 3);
    lemma_property(p, 4);
    lemma_property(p, 5);
    lemma_property(p, 6);
}

proof fn lemma_property_names()
    ensures
        "location_name"@.len() == 13,
        "uuid"@.len() == 4,
        "version"@.len() == 7,
        "external_url"@.len() == 12,
        "internal_url"@.len() == 12,
        "external_url"@ != "internal_url"@,
        "base_url"@.len() == 8,
        "requires_api_password"@.len() == 21,
{
    reveal_strlit("location_name");
    reveal_strlit("uuid");
    reveal_strlit("version");
    reveal_strlit("external_url");
    reveal_strlit("internal_url");
    reveal_strlit("base_url");
    reveal_strlit("requires_api_password");
    assert("external_url"@[0] == 'e' && "internal_url"@[0] == 'i');
}

/// The record of an announcement has its port, its addresses and its properties, and a name that
/// ends with the type of the service. A dot and a backslash in the name stand behind a backslash.
pub proof fn law_record(
    r: ServiceRecord,
    a: AnnouncementModel,
    addresses: Set<Seq<char>>,
    s: Seq<char>,
    c: char,
)
    ensures
        is_record(r, a, addresses) ==> {
            &&& r.port == a.port
            &&& r.properties@.len() == a.properties.len()
            &&& forall|i: int|
                0 <= i < r.properties@.len() ==> (#[trigger] r.properties@[i]).0@
                    == a.properties[i].0 && r.properties@[i].1@ == a.properties[i].1
            &&& a.service_type.is_suffix_of(r.full_name@)
            &&& !".local.local."@.is_suffix_of(a.host_name) ==> r.host_name@ == a.host_name
            &&& forall|t: Seq<char>| #[trigger] addresses.contains(t) ==> exists|k: int|
                0 <= k < r.addresses@.len() && (#[trigger] r.addresses@[k])@ == t
        },
        escaped_name(s.push(c)) == if c == '.' || c == '\\' {
            escaped_name(s).push('\\').push(c)
        } else {
            escaped_name(s).push(c)
        },
        escaped_name(Seq::empty()).len() == 0,
{
    assert(s.push(c).drop_last() =~= s);
    if is_record(r, a, addresses) {
        let pairs = crate::zeroconf::pairs_view(r.properties@);
        assert forall|i: int| 0 <= i < r.properties@.len() implies (#[trigger] r.properties@[i]).0@
            == a.properties[i].0 && r.properties@[i].1@ == a.properties[i].1 by {
            assert(pairs[i] == a.properties[i]);
        }
        let head = escaped_name(a.instance_name) + "."@;
        assert(r.full_name@.skip(head.len() as int) =~= a.service_type);
        assert(a.service_type.is_suffix_of(r.full_name@)) by {
            assert(r.full_name@.subrange(
                r.full_name@.len() - a.service_type.len(),
                r.full_name@.len() as int,
            ) =~= a.service_type);
        }
        let texts = crate::zeroconf::texts_view(r.addresses@);
        assert forall|t: Seq<char>| #[trigger] addresses.contains(t) implies exists|k: int|
            0 <= k < r.addresses@.len() && (#[trigger] r.addresses@[k])@ == t by {
            assert(texts.to_set().contains(t));
            assert(texts.contains(t));
            let k = choose|k: int| 0 <= k < texts.len() && texts[k] == t;
            assert(r.addresses@[k]@ == t);
        }
    }
}

/// A name that is too long is cut off as late as can be: one character more would not fit.
pub proof fn law_name_cut(s: Seq<char>)
    ensures
        text::byte_count(s) > 63 ==> instance_name(s).len() < s.len() && text::byte_count(
            s.take(instance_name(s).len() as int + 1),
        ) > 63,
{
    if text::byte_count(s) > 63 {
        lemma_fitting(s, 0);
        let n = instance_name(s).len() as int;
        if n == s.len() {
            assert(s.take(n) =~= s);
            crate::zeroconf::law_instance_name(s);
            assert(instance_name(s) =~= s) by {
                assert(instance_name(s).is_prefix_of(s));
            }
        }
    }
}

proof fn lemma_fitting(s: Seq<char>, i: int)
    requires
        0 <= i <= s.len(),
    ensures
        ({
            let n = crate::zeroconf::fitting(s, i).len() as int;
            &&& i <= n <= s.len()
            &&& n < s.len() ==> text::byte_count(s.take(n + 1)) > 63
        }),
    decreases s.len() - i,
{
    if i < s.len() && text::byte_count(s.take(i + 1)) <= 63 {
        lemma_fitting(s, i + 1);
    }
}

/// A host name that ends with the local domain twice has it once.
pub proof fn law_host_name(host: Seq<char>)
    ensures
        normal_host(host + ".local.local."@) == host + ".local."@,
{
    reveal_strlit(".local.local.");
    reveal_strlit(".local.");
    let s = host + ".local.local."@;
    assert(s.subrange(s.len() - 13, s.len() as int) =~= ".local.local."@);
    assert(".local.local."@.is_suffix_of(s));
    assert(s.take(s.len() - 6) =~= host + ".local."@);
}

} // verus!
