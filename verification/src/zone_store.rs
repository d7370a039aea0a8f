//! The zones that the user has defined, and the zone of the home.

use vstd::prelude::*;

use crate::ids;
use crate::ids::{extend_slug, new_registry_id, new_simple_uuid};
use crate::json;
use crate::json::{Json, JsonView, ObjectBuilder, Real};
use crate::keyed;
use crate::keyed::{copy_all, position, remove_key, Keyed, Record};
use crate::storage::{OnboardingModel, OnboardingState};
use crate::text;
use crate::text::{chars_of, concat, slugify, str_eq};

verus! {

/// A zone that the user has defined.
pub struct StoredZone {
    /// The slug of the name; the entity id is `zone.` and this.
    pub zone_id: String,
    pub name: String,
    pub latitude: Option<Real>,
    pub longitude: Option<Real>,
    /// The radius in metres.
    pub radius: Real,
    /// Whether the zone is left out of presence.
    pub passive: bool,
    pub icon: Option<String>,
}

impl Keyed for StoredZone {
    open spec fn key(&self) -> Seq<char> {
        self.zone_id@
    }

    fn key_str(&self) -> (r: &str) {
        self.zone_id.as_str()
    }
}

impl Clone for StoredZone {
    fn clone(&self) -> (r: Self)
        ensures
            r == *self,
    {
        StoredZone {
            zone_id: self.zone_id.clone(),
            name: self.name.clone(),
            latitude: self.latitude.clone(),
            longitude: self.longitude.clone(),
            radius: self.radius.clone(),
            passive: self.passive,
            icon: self.icon.clone(),
        }
    }
}

impl Record for StoredZone {
    fn dup(&self) -> (r: Self) {
        self.clone()
    }
}

/// The radius of a zone for which none is given, in metres.
pub const DEFAULT_RADIUS: &'static str = "100.0";

/// Whether a slug has no character but underscores.
pub open spec fn blank_slug(slug: Seq<char>) -> bool {
    forall|i: int| 0 <= i < slug.len() ==> #[trigger] slug[i] == '_'
}

/// Whether a slug has no character but underscores.
fn is_blank_slug(slug: &str) -> (r: bool)
    ensures
        r == blank_slug(slug@),
{
    let cs: Vec<char> = chars_of(slug);
    let mut i: usize = 0;
    while i < cs.len()
        invariant
            i <= cs.len(),
            cs@ == slug@,
            forall|j: int| 0 <= j < i ==> #[trigger] slug@[j] == '_',
        decreases cs.len() - i,
    {
        if cs[i] != '_' {
            assert(slug@[i as int] != '_');
            return false;
        }
        i += 1;
    }
    true
}

/// Why a zone cannot be made.
#[derive(Clone, Copy, Debug, PartialEq, Eq, Structural)]
pub enum ZoneError {
    /// The name holds no letter or number, so that it gives no id.
    EmptyZoneId,
}

/// A new zone.
pub open spec fn is_new_zone(
    z: StoredZone,
    name: String,
    latitude: Option<Real>,
    longitude: Option<Real>,
    radius: Option<Real>,
    passive: Option<bool>,
    icon: Option<String>,
) -> bool {
    &&& z.name == name
    &&& z.latitude == latitude
    &&& z.longitude == longitude
    &&& z.radius@ == match radius {
        Some(v) => v@,
        None => DEFAULT_RADIUS@,
    }
    &&& z.passive == match passive {
        Some(v) => v,
        None => false,
    }
    &&& z.icon == icon
}

/// A zone after a change. What is not given stays.
pub open spec fn updated_zone(
    zone: StoredZone,
    name: Option<String>,
    latitude: Option<Option<Real>>,
    longitude: Option<Option<Real>>,
    radius: Option<Real>,
    passive: Option<bool>,
    icon: Option<Option<String>>,
) -> StoredZone {
    StoredZone {
        zone_id: zone.zone_id,
        name: match name {
            Some(v) => v,
            None => zone.name,
        },
        latitude: match latitude {
            Some(v) => v,
            None => zone.latitude,
        },
        longitude: match longitude {
            Some(v) => v,
            None => zone.longitude,
        },
        radius: match radius {
            Some(v) => v,
            None => zone.radius,
        },
        passive: match passive {
            Some(v) => v,
            None => zone.passive,
        },
        icon: match icon {
            Some(v) => v,
            None => zone.icon,
        },
    }
}

/// The id that stands for the zone of the home.
pub const HOME_ID: &'static str = "home";

/// The id of a new zone: the slug of its name, extended by a random text where another zone, or
/// the zone of the home, has that slug.
pub open spec fn zone_id_of(
    s: Seq<StoredZone>,
    slug: Seq<char>,
    random: Seq<char>,
) -> Seq<char> {
    if slug == HOME_ID@ {
        ids::extended_slug(slug, random)
    } else {
        ids::registry_id(s, slug, random)
    }
}

/// Whether a text is an id that a new zone may get.
pub open spec fn is_zone_id(s: Seq<StoredZone>, slug: Seq<char>, id: Seq<char>) -> bool {
    exists|random: Seq<char>|
        ids::is_hex_text(random, 32) && id == #[trigger] zone_id_of(s, slug, random)
}

/// Whether none of some zones has the id of the home.
pub open spec fn without_home(s: Seq<StoredZone>) -> bool {
    forall|i: int| 0 <= i < s.len() ==> (#[trigger] s[i]).zone_id@ != HOME_ID@
}

/// The zones that the user has defined. The zone of the home is not among them.
pub struct ZoneStore {
    /// The zones, in the order in which they were made.
    pub zones: Vec<StoredZone>,
}

impl ZoneStore {
    /// No zone has the id of the home.
    pub open spec fn wf(&self) -> bool {
        without_home(self.zones@)
    }

    /// A store without zones.
    pub fn new() -> (r: Self)
        ensures
            r.wf(),
            r.zones@ == Seq::<StoredZone>::empty(),
    {
        ZoneStore { zones: Vec::new() }
    }

    /// All zones.
    pub fn list(&self) -> (r: Vec<StoredZone>)
        ensures
            r@ == self.zones@,
    {
        copy_all(&self.zones)
    }

    /// Makes a zone, with a random text to draw on where the slug of the name is taken.
    pub fn create_with(
        &mut self,
        name: String,
        latitude: Option<Real>,
        longitude: Option<Real>,
        radius: Option<Real>,
        passive: Option<bool>,
        icon: Option<String>,
        random: &str,
    ) -> (r: Result<StoredZone, ZoneError>)
        requires
            random@.len() >= 8,
        ensures
            r is Err <==> blank_slug(text::slug_of(text::lowercased(name@))),
            match r {
                Ok(z) => z.zone_id@ == zone_id_of(
                    old(self).zones@,
                    text::slug_of(text::lowercased(name@)),
                    random@,
                ) && is_new_zone(z, name, latitude, longitude, radius, passive, icon)
                    && final(self).zones@ == old(self).zones@.push(z),
                Err(e) => e == ZoneError::EmptyZoneId && *final(self) == *old(self),
            },
            old(self).wf() ==> final(self).wf(),
    {
        let slug: String = slugify(name.as_str());
        if is_blank_slug(slug.as_str()) {
            return Err(ZoneError::EmptyZoneId);
        }
        let zone_id: String = if str_eq(slug.as_str(), HOME_ID) {
            extend_slug(slug.as_str(), random)
        } else {
            new_registry_id(&self.zones, slug.as_str(), random)
        };
        proof {
            lemma_zone_id(self.zones@, slug@, random@);
        }
        let zone: StoredZone = StoredZone {
            zone_id,
            name,
            latitude,
            longitude,
            radius: match radius {
                Some(v) => v,
                None => DEFAULT_RADIUS.to_owned(),
            },
            passive: match passive {
                Some(v) => v,
                None => false,
            },
            icon,
        };
        self.zones.push(zone.clone());
        Ok(zone)
    }

    /// Makes a zone. Its id is the slug of the name, extended by a random text where that slug is
    /// taken.
    pub fn create(
        &mut self,
        name: String,
        latitude: Option<Real>,
        longitude: Option<Real>,
        radius: Option<Real>,
        passive: Option<bool>,
        icon: Option<String>,
    ) -> (r: Result<StoredZone, ZoneError>)
        ensures
            r is Err <==> blank_slug(text::slug_of(text::lowercased(name@))),
            match r {
                Ok(z) => is_zone_id(
                    old(self).zones@,
                    text::slug_of(text::lowercased(name@)),
                    z.zone_id@,
                ) && is_new_zone(z, name, latitude, longitude, radius, passive, icon)
                    && final(self).zones@ == old(self).zones@.push(z),
                Err(e) => e == ZoneError::EmptyZoneId && *final(self) == *old(self),
            },
            old(self).wf() ==> final(self).wf(),
    {
        let random: String = new_simple_uuid();
        self.create_with(name, latitude, longitude, radius, passive, icon, random.as_str())
    }

    /// Changes the zone with an id: what is not given stays, and what is given as `None` is
    /// cleared. Gives the changed zone, if there is one.
    pub fn update(
        &mut self,
        zone_id: &str,
        name: Option<String>,
        latitude: Option<Option<Real>>,
        longitude: Option<Option<Real>>,
        radius: Option<Real>,
        passive: Option<bool>,
        icon: Option<Option<String>>,
    ) -> (r: Option<StoredZone>)
        ensures
            match keyed::key_pos(old(self).zones@, zone_id@) {
                Some(i) => r == Some(
                    updated_zone(
                        old(self).zones@[i],
                        name,
                        latitude,
                        longitude,
                        radius,
                        passive,
                        icon,
                    ),
                ) && final(self).zones@ == old(self).zones@.update(i, r->0),
                None => r is None && *final(self) == *old(self),
            },
            old(self).wf() ==> final(self).wf(),
    {
        let i: usize = match position(&self.zones, zone_id) {
            Some(i) => i,
            None => {
                return None;
            },
        };
        let mut zone: StoredZone = self.zones[i].clone();
        if let Some(v) = name {
            zone.name = v;
        }
        if let Some(v) = latitude {
            zone.latitude = v;
        }
        if let Some(v) = longitude {
            zone.longitude = v;
        }
        if let Some(v) = radius {
            zone.radius = v;
        }
        if let Some(v) = passive {
            zone.passive = v;
        }
        if let Some(v) = icon {
            zone.icon = v;
        }
        self.zones[i] = zone.clone();
        Some(zone)
    }

    /// Removes the zone with an id. Says whether there was one.
    pub fn delete(&mut self, zone_id: &str) -> (r: bool)
        ensures
            final(self).zones@ == keyed::without_key(old(self).zones@, zone_id@),
            r == (keyed::key_pos(old(self).zones@, zone_id@) is Some),
            old(self).wf() ==> final(self).wf(),
    {
        proof {
            keyed::lemma_without_key(self.zones@, zone_id@);
        }
        remove_key(&mut self.zones, zone_id)
    }
}

/// A new zone does not get the id of the home.
proof fn lemma_zone_id(s: Seq<StoredZone>, slug: Seq<char>, random: Seq<char>)
    requires
        random.len() >= 8,
    ensures
        zone_id_of(s, slug, random) != HOME_ID@,
{
    reveal_strlit("home");
    reveal_strlit("_");
    assert(HOME_ID@.len() == 4);
    assert(ids::extended_slug(slug, random).len() == slug.len() + 9);
}

/// The zone of the home does not come into the store: whatever is made, changed and removed, no
/// stored id is that of the home.
pub proof fn law_home_not_stored(
    s: Seq<StoredZone>,
    z: StoredZone,
    slug: Seq<char>,
    random: Seq<char>,
    changed: StoredZone,
    place: int,
    removed: Seq<char>,
)
    requires
        without_home(s),
        random.len() >= 8,
        z.zone_id@ == zone_id_of(s, slug, random),
        0 <= place < s.len() ==> changed.zone_id == s[place].zone_id,
    ensures
        without_home(s.push(z)),
        0 <= place < s.len() ==> without_home(s.update(place, changed)),
        without_home(keyed::without_key(s, removed)),
        keyed::key_pos(s, HOME_ID@) is None,
{
    lemma_zone_id(s, slug, random);
    keyed::lemma_without_key(s, removed);
    keyed::lemma_key_pos(s, HOME_ID@);
    if keyed::key_pos(s, HOME_ID@) is Some {
        assert(s[keyed::key_pos(s, HOME_ID@)->0].key() == HOME_ID@);
    }
}

/// An optional number as JSON.
pub open spec fn opt_real_json(r: Option<Seq<char>>) -> JsonView {
    match r {
        Some(v) => JsonView::Float(v),
        None => JsonView::Null,
    }
}

/// An optional number as JSON.
pub fn opt_real(r: &Option<Real>) -> (j: Json)
    ensures
        j@ == opt_real_json(r.deep_view()),
{
    match r {
        Some(v) => Json::Float(v.clone()),
        None => Json::Null,
    }
}

/// The context of a state that nobody has caused.
pub open spec fn no_context_json() -> JsonView {
    JsonView::Object(
        json::no_members().push(("id"@, JsonView::Str("00000000000000000000000000000000"@))).push(
            ("parent_id"@, JsonView::Null),
        ).push(("user_id"@, JsonView::Null)),
    )
}

/// The context of a state that nobody has caused.
fn no_context() -> (r: Json)
    ensures
        r@ == no_context_json(),
{
    ObjectBuilder::new().text("id", "00000000000000000000000000000000").field(
        "parent_id",
        Json::Null,
    ).field("user_id", Json::Null).done()
}

/// When the states of zones last changed: never.
pub const NEVER: &'static str = "1970-01-01T00:00:00.000000+00:00";

/// The state of a zone, with the persons in it left out.
pub open spec fn zone_state_json(
    entity_id: Seq<char>,
    name: Seq<char>,
    latitude: Option<Seq<char>>,
    longitude: Option<Seq<char>>,
    radius: Seq<char>,
    passive: bool,
    icon: Option<Seq<char>>,
) -> JsonView {
    JsonView::Object(
        json::no_members().push(("entity_id"@, JsonView::Str(entity_id))).push(
            ("state"@, JsonView::Str("0"@)),
        ).push(
            (
                "attributes"@,
                JsonView::Object(
                    json::no_members().push(("friendly_name"@, JsonView::Str(name))).push(
                        ("latitude"@, opt_real_json(latitude)),
                    ).push(("longitude"@, opt_real_json(longitude))).push(
                        ("radius"@, JsonView::Float(radius)),
                    ).push(("passive"@, JsonView::Bool(passive))).push(
                        ("persons"@, JsonView::Array(Seq::empty())),
                    ).push(("editable"@, JsonView::Bool(true))).push(
                        ("icon"@, json::opt_str_json(icon)),
                    ),
                ),
            ),
        ).push(("context"@, no_context_json())).push(("last_changed"@, JsonView::Str(NEVER@))).push(
            ("last_updated"@, JsonView::Str(NEVER@)),
        ),
    )
}

/// The state of a zone, with the persons in it left out.
fn zone_state(
    entity_id: &str,
    name: &str,
    latitude: &Option<Real>,
    longitude: &Option<Real>,
    radius: &Real,
    passive: bool,
    icon: &Option<String>,
) -> (r: Json)
    ensures
        r@ == zone_state_json(
            entity_id@,
            name@,
            latitude.deep_view(),
            longitude.deep_view(),
            radius@,
            passive,
            icon.deep_view(),
        ),
{
    let nobody: Json = Json::Array(Vec::new());
    assert(nobody@ == JsonView::Array(Seq::empty()));
    let metres: Json = Json::Float(radius.clone());
    assert(metres@ == JsonView::Float(radius@));
    let attributes: Json = ObjectBuilder::new().text("friendly_name", name).field(
        "latitude",
        opt_real(latitude),
    ).field("longitude", opt_real(longitude)).field("radius", metres).field(
        "passive",
        Json::Bool(passive),
    ).field("persons", nobody).field("editable", Json::Bool(true)).field(
        "icon",
        Json::opt_str(icon),
    ).done();
    ObjectBuilder::new().text("entity_id", entity_id).text("state", "0").field(
        "attributes",
        attributes,
    ).field("context", no_context()).text("last_changed", NEVER).text("last_updated", NEVER).done()
}

/// The state of a zone that the user has defined.
pub fn zone_to_state(zone: &StoredZone) -> (r: Json)
    ensures
        r@ == zone_state_json(
            "zone."@ + zone.zone_id@,
            zone.name@,
            zone.latitude.deep_view(),
            zone.longitude.deep_view(),
            zone.radius@,
            zone.passive,
            zone.icon.deep_view(),
        ),
{
    let entity_id: String = concat("zone.", zone.zone_id.as_str());
    zone_state(
        entity_id.as_str(),
        zone.name.as_str(),
        &zone.latitude,
        &zone.longitude,
        &zone.radius,
        zone.passive,
        &zone.icon,
    )
}

/// The state of the zone of the home, which onboarding describes.
pub open spec fn home_zone_json(o: OnboardingModel) -> JsonView {
    zone_state_json(
        "zone.home"@,
        match o.location_name {
            Some(n) => n,
            None => "Home"@,
        },
        o.latitude,
        o.longitude,
        o.radius,
        false,
        Some("mdi:home"@),
    )
}

/// The state of the zone of the home.
pub fn home_zone_state(onboarding: &OnboardingState) -> (r: Json)
    ensures
        r@ == home_zone_json(onboarding@),
{
    let name: &str = match &onboarding.location_name {
        Some(n) => n.as_str(),
        None => "Home",
    };
    let icon: Option<String> = Some("mdi:home".to_owned());
    assert(icon.deep_view() == Some("mdi:home"@));
    zone_state(
        "zone.home",
        name,
        &onboarding.latitude,
        &onboarding.longitude,
        &onboarding.radius,
        false,
        &icon,
    )
}

} // verus!
