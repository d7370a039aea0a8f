//! How the controller announces itself on the network.

use vstd::prelude::*;
use vstd::string::*;
use vstd::utf8::*;

use crate::app_core::VERSION;
use crate::config::AppConfig;
use crate::storage::{OnboardingModel, OnboardingState};
use crate::text;
use crate::text::{byte_len, chars_of, concat, decimal_string, starts_with, str_eq};

verus! {

/// The service type of the announcement.
pub const ZEROCONF_TYPE: &'static str = "_home-assistant._tcp.local.";

/// The most bytes that the name of an instance takes.
pub const MAX_NAME_BYTES: usize = 63;

/// A network address of the host, as text, the interface that has it, and what kind it is.
pub struct HostAddress {
    pub interface: String,
    pub text: String,
    pub is_ipv4: bool,
    pub is_loopback: bool,
    pub is_unspecified: bool,
}

impl Clone for HostAddress {
    fn clone(&self) -> (r: Self)
        ensures
            r == *self,
    {
        HostAddress {
            interface: self.interface.clone(),
            text: self.text.clone(),
            is_ipv4: self.is_ipv4,
            is_loopback: self.is_loopback,
            is_unspecified: self.is_unspecified,
        }
    }
}

/// Whether an address is among others.
pub open spec fn holds_address(s: Seq<HostAddress>, text: Seq<char>) -> bool {
    exists|i: int| 0 <= i < s.len() && (#[trigger] s[i]).text@ == text
}

/// Whether an interface is excluded: whether its name starts with one of some texts.
pub open spec fn is_excluded(interface: Seq<char>, excluded: Seq<Seq<char>>) -> bool {
    exists|i: int| 0 <= i < excluded.len() && (#[trigger] excluded[i]).is_prefix_of(interface)
}

/// Whether others can reach an address.
pub open spec fn reachable(a: HostAddress, excluded: Seq<Seq<char>>) -> bool {
    !a.is_loopback && !a.is_unspecified && !is_excluded(a.interface@, excluded)
}

/// The addresses to announce: those that others can reach, each once.
pub open spec fn announced(
    s: Seq<HostAddress>,
    excluded: Seq<Seq<char>>,
) -> Seq<HostAddress>
    decreases s.len(),
{
    if s.len() == 0 {
        s
    } else {
        let before = announced(s.drop_last(), excluded);
        let a = s.last();
        if !reachable(a, excluded) || holds_address(before, a.text@) {
            before
        } else {
            before.push(a)
        }
    }
}

/// Whether an interface is excluded.
fn excludes(excluded: &Vec<String>, interface: &str) -> (r: bool)
    ensures
        r == is_excluded(interface@, excluded.deep_view()),
{
    let mut i: usize = 0;
    while i < excluded.len()
        invariant
            i <= excluded@.len(),
            forall|k: int|
                0 <= k < i ==> !(#[trigger] excluded.deep_view()[k]).is_prefix_of(interface@),
        decreases excluded@.len() - i,
    {
        assert(excluded.deep_view()[i as int] == excluded@[i as int]@);
        if starts_with(interface, excluded[i].as_str()) {
            return true;
        }
        i += 1;
    }
    false
}

fn has_address(v: &Vec<HostAddress>, text: &str) -> (r: bool)
    ensures
        r == holds_address(v@, text@),
{
    let mut i: usize = 0;
    while i < v.len()
        invariant
            i <= v.len(),
            forall|k: int| 0 <= k < i ==> (#[trigger] v@[k]).text@ != text@,
        decreases v.len() - i,
    {
        if str_eq(v[i].text.as_str(), text) {
            return true;
        }
        i += 1;
    }
    false
}

/// The addresses to announce, from those of all interfaces.
pub fn announce_addresses(all: &Vec<HostAddress>, excluded: &Vec<String>) -> (r: Vec<HostAddress>)
    ensures
        r@ == announced(all@, excluded.deep_view()),
{
    let mut out: Vec<HostAddress> = Vec::new();
    let mut i: usize = 0;
    assert(all@.take(0) =~= Seq::empty());
    while i < all.len()
        invariant
            i <= all.len(),
            out@ == announced(all@.take(i as int), excluded.deep_view()),
        decreases all.len() - i,
    {
        proof {
            assert(all@.take(i + 1).drop_last() =~= all@.take(i as int));
            assert(all@.take(i + 1).last() == all@[i as int]);
        }
        let a: &HostAddress = &all[i];
        if !a.is_loopback && !a.is_unspecified && !excludes(excluded, a.interface.as_str())
            && !has_address(&out, a.text.as_str()) {
            out.push(a.clone());
        }
        i += 1;
    }
    assert(all@.take(i as int) =~= all@);
    out
}

/// Announced addresses can be reached by others, none is on an excluded interface, and none is
/// announced twice. Every address that others can reach is announced.
pub proof fn law_announced(s: Seq<HostAddress>, excluded: Seq<Seq<char>>)
    ensures
        ({
            let r = announced(s, excluded);
            &&& forall|i: int|
                0 <= i < r.len() ==> !(#[trigger] r[i]).is_loopback && !r[i].is_unspecified
                    && !is_excluded(r[i].interface@, excluded)
            &&& forall|i: int, j: int|
                0 <= i < j < r.len() ==> (#[trigger] r[i]).text@ != (#[trigger] r[j]).text@
            &&& forall|i: int|
                0 <= i < s.len() && reachable(#[trigger] s[i], excluded) ==> holds_address(
                    r,
                    s[i].text@,
                )
        }),
    decreases s.len(),
{
    if s.len() > 0 {
        law_announced(s.drop_last(), excluded);
        let before = announced(s.drop_last(), excluded);
        let r = announced(s, excluded);
        assert forall|i: int, j: int| 0 <= i < j < r.len() implies (#[trigger] r[i]).text@ != (
        #[trigger] r[j]).text@ by {
            if j == before.len() {
                assert(before[i].text@ != s.last().text@);
            }
        }
        assert forall|i: int|
            0 <= i < s.len() && reachable(#[trigger] s[i], excluded) implies holds_address(
            r,
            s[i].text@,
        ) by {
            if i < s.len() - 1 {
                assert(s.drop_last()[i] == s[i]);
            }
            if i < s.len() - 1 || holds_address(before, s[i].text@) {
                let k = choose|k: int|
                    0 <= k < before.len() && (#[trigger] before[k]).text@ == s[i].text@;
                assert(r[k].text@ == s[i].text@);
            } else {
                assert(r[r.len() - 1].text@ == s[i].text@);
            }
        }
    }
}

/// The longest part of a text from its start, of at least `i` characters, that is not too long.
pub open spec fn fitting(s: Seq<char>, i: int) -> Seq<char>
    decreases s.len() - i,
{
    if 0 <= i < s.len() && text::byte_count(s.take(i + 1)) <= MAX_NAME_BYTES {
        fitting(s, i + 1)
    } else {
        s.take(i)
    }
}

/// A name, cut to the bytes that it may take.
pub open spec fn instance_name(s: Seq<char>) -> Seq<char> {
    if text::byte_count(s) <= MAX_NAME_BYTES {
        s
    } else {
        fitting(s, 0)
    }
}

/// A name, cut to the bytes that it may take; no character is cut in two.
pub fn truncate_instance_name(value: &str) -> (r: String)
    ensures
        r@ == instance_name(value@),
{
    if byte_len(value) <= MAX_NAME_BYTES {
        return value.to_owned();
    }
    let cs: Vec<char> = chars_of(value);
    let mut out: String = String::new();
    let mut i: usize = 0;
    assert(out@ =~= value@.take(0));
    while i < cs.len()
        invariant
            i <= cs.len(),
            cs@ == value@,
            text::byte_count(value@) > MAX_NAME_BYTES,
            out@ == value@.take(i as int),
            fitting(value@, 0) == fitting(value@, i as int),
        decreases cs.len() - i,
    {
        let mut next: String = out.clone();
        next.push(cs[i]);
        assert(next@ =~= value@.take(i + 1));
        if byte_len(next.as_str()) > MAX_NAME_BYTES {
            return out;
        }
        out = next;
        i += 1;
    }
    out
}

proof fn lemma_fitting(s: Seq<char>, i: int)
    requires
        0 <= i <= s.len(),
        text::byte_count(s.take(i)) <= MAX_NAME_BYTES,
    ensures
        fitting(s, i).is_prefix_of(s),
        text::byte_count(fitting(s, i)) <= MAX_NAME_BYTES,
    decreases s.len() - i,
{
    if i < s.len() && text::byte_count(s.take(i + 1)) <= MAX_NAME_BYTES {
        lemma_fitting(s, i + 1);
    }
}

/// A cut name is the start of the whole one and takes no more bytes than it may.
pub proof fn law_instance_name(s: Seq<char>)
    ensures
        instance_name(s).is_prefix_of(s),
        text::byte_count(instance_name(s)) <= MAX_NAME_BYTES,
{
    if text::byte_count(s) > MAX_NAME_BYTES {
        assert(s.take(0) =~= Seq::empty());
        assert(text::byte_count(s.take(0)) == 0) by {
            vstd::utf8::is_ascii_chars_encode_utf8(s.take(0));
        }
        lemma_fitting(s, 0);
    }
}

/// What is announced.
pub struct ServiceAnnouncement {
    pub service_type: String,
    pub instance_name: String,
    pub host_name: String,
    pub addresses: Vec<String>,
    pub port: u16,
    /// Named texts.
    pub properties: Vec<(String, String)>,
}

/// The mathematical value of a [`ServiceAnnouncement`].
pub struct AnnouncementModel {
    pub service_type: Seq<char>,
    pub instance_name: Seq<char>,
    pub host_name: Seq<char>,
    pub addresses: Seq<Seq<char>>,
    pub port: u16,
    pub properties: Seq<(Seq<char>, Seq<char>)>,
}

impl View for ServiceAnnouncement {
    type V = AnnouncementModel;

    open spec fn view(&self) -> AnnouncementModel {
        AnnouncementModel {
            service_type: self.service_type@,
            instance_name: self.instance_name@,
            host_name: self.host_name@,
            addresses: texts_view(self.addresses@),
            port: self.port,
            properties: pairs_view(self.properties@),
        }
    }
}

/// Why nothing can be announced.
#[derive(Clone, Copy, Debug, PartialEq, Eq, Structural)]
pub enum AnnounceError {
    /// There is no address.
    NoAddress,
    /// Multicast DNS has no record for it.
    NoRecord,
}

/// A service as `mdns_sd` registers it.
#[verifier::external_type_specification]
#[verifier::external_body]
pub struct ExServiceInfo(mdns_sd::ServiceInfo);

/// An error of `mdns_sd`.
#[verifier::external_type_specification]
#[verifier::external_body]
pub struct ExMdnsError(mdns_sd::Error);

/// What a service says of itself.
pub struct ServiceRecord {
    pub full_name: String,
    pub host_name: String,
    pub port: u16,
    /// In no particular order.
    pub addresses: Vec<String>,
    pub properties: Vec<(String, String)>,
}

/// The addresses that `mdns_sd::ServiceInfo::new` reads from texts, as texts again; nothing where
/// one of the texts is no address.
pub uninterp spec fn mdns_addresses(texts: Seq<Seq<char>>) -> Option<Set<Seq<char>>>;

/// The name of an instance as part of a full name: with a backslash before each dot and each
/// backslash.
pub open spec fn escaped_name(s: Seq<char>) -> Seq<char>
    decreases s.len(),
{
    if s.len() == 0 {
        s
    } else if s.last() == '.' || s.last() == '\\' {
        escaped_name(s.drop_last()).push('\\').push(s.last())
    } else {
        escaped_name(s.drop_last()).push(s.last())
    }
}

/// The name of a host, whose domain is named once.
pub open spec fn normal_host(s: Seq<char>) -> Seq<char> {
    if ".local.local."@.is_suffix_of(s) {
        s.take(s.len() - 6)
    } else {
        s
    }
}

/// Whether a property can be announced.
pub open spec fn fits_record(name: Seq<char>, value: Seq<char>) -> bool {
    &&& is_ascii_chars(name)
    &&& !name.contains('=')
    &&& text::byte_count(name) + 1 + text::byte_count(value) <= 255
}

/// Whether all of some properties can be announced.
pub open spec fn all_fit(properties: Seq<(Seq<char>, Seq<char>)>) -> bool {
    forall|i: int|
        0 <= i < properties.len() ==> fits_record((#[trigger] properties[i]).0, properties[i].1)
}

/// Whether no two properties have the same name, upper and lower case being the same.
pub open spec fn distinct_names(properties: Seq<(Seq<char>, Seq<char>)>) -> bool {
    forall|i: int, j: int|
        0 <= i < j < properties.len() ==> text::lowercased((#[trigger] properties[i]).0)
            != text::lowercased((#[trigger] properties[j]).0)
}

/// Whether a record is the one of an announcement whose addresses are given.
pub open spec fn is_record(
    r: ServiceRecord,
    a: AnnouncementModel,
    addresses: Set<Seq<char>>,
) -> bool {
    &&& r.full_name@ == escaped_name(a.instance_name) + "."@ + a.service_type
    &&& r.host_name@ == normal_host(a.host_name)
    &&& r.port == a.port
    &&& texts_view(r.addresses@).to_set() == addresses
    &&& pairs_view(r.properties@) == a.properties
}

/// Calls `mdns_sd::ServiceInfo::new`, and reads what the service says of itself: its full name,
/// the host, the port, the addresses and the properties. The call fails on an address that does not
/// parse and on a property that does not fit, and on nothing else. Which texts are addresses is not
/// stated, nor what becomes of a type with a subtype or of two properties of one name.
#[verifier::external_body]
fn service_info(a: &ServiceAnnouncement) -> (r: Result<
    (mdns_sd::ServiceInfo, ServiceRecord),
    mdns_sd::Error,
>)
    requires
        !text::has_text(a.service_type@, "._sub."@),
        distinct_names(pairs_view(a.properties@)),
    ensures
        match r {
            Ok(s) => mdns_addresses(texts_view(a.addresses@)) is Some && all_fit(
                pairs_view(a.properties@),
            ) && is_record(s.1, a@, mdns_addresses(texts_view(a.addresses@))->0),
            Err(_) => mdns_addresses(texts_view(a.addresses@)) is None || !all_fit(
                pairs_view(a.properties@),
            ),
        },
{
    let (ips, texts) = (a.addresses.as_slice(), a.properties.as_slice());
    let (ty, name) = (&a.service_type, &a.instance_name);
    let info = mdns_sd::ServiceInfo::new(ty, name, &a.host_name, ips, a.port, texts)?;
    let all = info.get_properties().iter();
    let record = ServiceRecord {
        full_name: info.get_fullname().to_string(),
        host_name: info.get_hostname().to_string(),
        port: info.get_port(),
        addresses: info.get_addresses().iter().map(|x| x.to_string()).collect(),
        properties: all.map(|x| (x.key().to_string(), x.val_str().to_string())).collect(),
    };
    Ok((info, record))
}

/// The name of the home: as onboarding has it, or else that of the product.
pub open spec fn home_name(o: OnboardingModel, product_name: Seq<char>) -> Seq<char> {
    match o.location_name {
        Some(n) => n,
        None => product_name,
    }
}

/// The first address at or after `i` of the older kind.
pub open spec fn ipv4_from(s: Seq<HostAddress>, i: int) -> Option<Seq<char>>
    decreases s.len() - i,
{
    if i < 0 || i >= s.len() {
        None
    } else if s[i].is_ipv4 {
        Some(s[i].text@)
    } else {
        ipv4_from(s, i + 1)
    }
}

/// Where the controller is reached: at the first address of the older kind, or else at the first.
pub open spec fn base_url_of(addresses: Seq<HostAddress>, port: u16) -> Seq<char> {
    if addresses.len() == 0 {
        Seq::empty()
    } else {
        "http://"@ + (match ipv4_from(addresses, 0) {
            Some(a) => a,
            None => addresses[0].text@,
        }) + ":"@ + text::decimal(port as nat)
    }
}

fn base_url(addresses: &Vec<HostAddress>, port: u16) -> (r: String)
    ensures
        r@ == base_url_of(addresses@, port),
{
    if addresses.len() == 0 {
        return String::new();
    }
    let mut chosen: usize = 0;
    let mut i: usize = 0;
    while i < addresses.len()
        invariant_except_break
            chosen == 0,
        invariant
            addresses@.len() > 0,
            i <= addresses@.len(),
            ipv4_from(addresses@, 0) == ipv4_from(addresses@, i as int),
        ensures
            chosen < addresses@.len(),
            addresses@[chosen as int].text@ == match ipv4_from(addresses@, 0) {
                Some(a) => a,
                None => addresses@[0].text@,
            },
        decreases addresses@.len() - i,
    {
        if addresses[i].is_ipv4 {
            chosen = i;
            break;
        }
        i += 1;
    }
    let mut out: String = "http://".to_owned();
    out.append(addresses[chosen].text.as_str());
    out.append(":");
    out.append(decimal_string(port as u64).as_str());
    out
}

/// The properties that are announced: names and texts.
pub open spec fn properties_of(
    o: OnboardingModel,
    product_name: Seq<char>,
    port: u16,
    instance_id: Seq<char>,
    addresses: Seq<HostAddress>,
) -> Seq<(Seq<char>, Seq<char>)> {
    let url = base_url_of(addresses, port);
    Seq::empty().push(("location_name"@, home_name(o, product_name))).push(
        ("uuid"@, instance_id),
    ).push(("version"@, VERSION@)).push(("external_url"@, Seq::empty())).push(
        ("internal_url"@, url),
    ).push(("base_url"@, url)).push(("requires_api_password"@, "true"@))
}

/// Texts as mathematical values.
pub open spec fn texts_view(s: Seq<String>) -> Seq<Seq<char>> {
    Seq::new(s.len(), |i: int| s[i]@)
}

/// Named texts as mathematical values.
pub open spec fn pairs_view(s: Seq<(String, String)>) -> Seq<(Seq<char>, Seq<char>)> {
    Seq::new(s.len(), |i: int| (s[i].0@, s[i].1@))
}

/// The properties that are announced.
pub fn build_properties(
    config: &AppConfig,
    onboarding: &OnboardingState,
    instance_id: &str,
    addresses: &Vec<HostAddress>,
) -> (r: Vec<(String, String)>)
    ensures
        pairs_view(r@) == properties_of(
            onboarding@,
            config.ui.product_name@,
            config.server.port,
            instance_id@,
            addresses@,
        ),
{
    let location_name: String = match &onboarding.location_name {
        Some(n) => n.clone(),
        None => config.ui.product_name.clone(),
    };
    let url: String = base_url(addresses, config.server.port);
    let mut out: Vec<(String, String)> = Vec::new();
    out.push(("location_name".to_owned(), location_name));
    out.push(("uuid".to_owned(), instance_id.to_owned()));
    out.push(("version".to_owned(), VERSION.to_owned()));
    out.push(("external_url".to_owned(), String::new()));
    out.push(("internal_url".to_owned(), url.clone()));
    out.push(("base_url".to_owned(), url));
    out.push(("requires_api_password".to_owned(), "true".to_owned()));
    assert(pairs_view(out@) =~= properties_of(
        onboarding@,
        config.ui.product_name@,
        config.server.port,
        instance_id@,
        addresses@,
    ));
    out
}

/// What is announced.
pub open spec fn announcement_of(
    o: OnboardingModel,
    product_name: Seq<char>,
    port: u16,
    instance_id: Seq<char>,
    addresses: Seq<HostAddress>,
) -> AnnouncementModel {
    AnnouncementModel {
        service_type: ZEROCONF_TYPE@,
        instance_name: instance_name(home_name(o, product_name)),
        host_name: instance_id + ".local."@,
        addresses: Seq::new(addresses.len(), |i: int| addresses[i].text@),
        port,
        properties: properties_of(o, product_name, port, instance_id, addresses),
    }
}

/// What is announced.
pub fn announcement(
    config: &AppConfig,
    onboarding: &OnboardingState,
    instance_id: &str,
    addresses: &Vec<HostAddress>,
) -> (r: ServiceAnnouncement)
    ensures
        r@ == announcement_of(
            onboarding@,
            config.ui.product_name@,
            config.server.port,
            instance_id@,
            addresses@,
        ),
{
    let name: &str = match &onboarding.location_name {
        Some(n) => n.as_str(),
        None => config.ui.product_name.as_str(),
    };
    let mut texts: Vec<String> = Vec::new();
    let mut i: usize = 0;
    while i < addresses.len()
        invariant
            i <= addresses.len(),
            texts@.len() == i,
            forall|k: int| 0 <= k < i ==> (#[trigger] texts@[k])@ == addresses@[k].text@,
        decreases addresses.len() - i,
    {
        texts.push(addresses[i].text.clone());
        i += 1;
    }
    assert(texts_view(texts@) =~= Seq::new(
        addresses@.len(),
        |k: int| addresses@[k].text@,
    ));
    ServiceAnnouncement {
        service_type: ZEROCONF_TYPE.to_owned(),
        instance_name: truncate_instance_name(name),
        host_name: concat(instance_id, ".local."),
        addresses: texts,
        port: config.server.port,
        properties: build_properties(config, onboarding, instance_id, addresses),
    }
}

/// The service type has no subtype.
proof fn lemma_no_subtype()
    ensures
        !text::has_text(ZEROCONF_TYPE@, "._sub."@),
{
    reveal_strlit("_home-assistant._tcp.local.");
    reveal_strlit("._sub.");
    let s = ZEROCONF_TYPE@;
    let part = "._sub."@;
    assert(part.len() == 6 && part[0] == '.' && part[1] == '_' && part[2] == 's');
    assert(s.len() == 27);
    assert forall|i: int| 0 <= i && i + part.len() <= s.len() implies #[trigger] s.subrange(
        i,
        i + part.len(),
    ) != part by {
        let here = s.subrange(i, i + part.len());
        assert(here[0] == s[i] && here[2] == s[i + 2]);
        if i == 15 {
            assert(s[17] == 't');
        } else if i == 20 {
            assert(s[22] == 'o');
        } else {
            assert(s[i] != '.');
        }
    }
}

/// The announced properties have names of their own.
proof fn lemma_names(
    o: OnboardingModel,
    product_name: Seq<char>,
    port: u16,
    instance_id: Seq<char>,
    addresses: Seq<HostAddress>,
)
    ensures
        distinct_names(properties_of(o, product_name, port, instance_id, addresses)),
{
    reveal_strlit("location_name");
    reveal_strlit("uuid");
    reveal_strlit("version");
    reveal_strlit("external_url");
    reveal_strlit("internal_url");
    reveal_strlit("base_url");
    reveal_strlit("requires_api_password");
    assert(text::lowercased("location_name"@).len() == 13);
    assert(text::lowercased("uuid"@).len() == 4);
    assert(text::lowercased("version"@).len() == 7);
    assert(text::lowercased("external_url"@).len() == 12);
    assert(text::lowercased("internal_url"@).len() == 12);
    assert(text::lowercased("base_url"@).len() == 8);
    assert(text::lowercased("requires_api_password"@).len() == 21);
    assert(text::lowercased("external_url"@)[0] == 'e');
    assert(text::lowercased("internal_url"@)[0] == 'i');
}

/// A service to register, and what it says of itself.
pub struct ServiceRegistration {
    pub info: mdns_sd::ServiceInfo,
    pub record: ServiceRecord,
}

/// The service to register. There is none without an address, where an address is none, or where a
/// property does not fit.
pub fn build_service_info(
    config: &AppConfig,
    onboarding: &OnboardingState,
    instance_id: &str,
    addresses: &Vec<HostAddress>,
) -> (r: Result<ServiceRegistration, AnnounceError>)
    ensures
        ({
            let a = announcement_of(
                onboarding@,
                config.ui.product_name@,
                config.server.port,
                instance_id@,
                addresses@,
            );
            match r {
                Ok(s) => addresses@.len() > 0 && mdns_addresses(a.addresses) is Some && all_fit(
                    a.properties,
                ) && is_record(s.record, a, mdns_addresses(a.addresses)->0),
                Err(AnnounceError::NoAddress) => addresses@.len() == 0,
                Err(AnnounceError::NoRecord) => addresses@.len() > 0 && !(mdns_addresses(
                    a.addresses,
                ) is Some && all_fit(a.properties)),
            }
        }),
{
    if addresses.len() == 0 {
        return Err(AnnounceError::NoAddress);
    }
    let a: ServiceAnnouncement = announcement(config, onboarding, instance_id, addresses);
    proof {
        lemma_no_subtype();
        lemma_names(
            onboarding@,
            config.ui.product_name@,
            config.server.port,
            instance_id@,
            addresses@,
        );
        assert(a@.service_type == ZEROCONF_TYPE@);
        assert(a@.properties == pairs_view(a.properties@));
    }
    match service_info(&a) {
        Ok((info, record)) => Ok(ServiceRegistration { info, record }),
        Err(_) => Err(AnnounceError::NoRecord),
    }
}

} // verus!
