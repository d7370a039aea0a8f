//! What the pages show of an entity, whatever it comes from.

use vstd::prelude::*;

use crate::json;
use crate::json::{copy_json, get_member, Json, JsonView, Members};
use crate::text;

verus! {

/// An entity as the pages show it.
pub struct EntityView {
    pub entity_id: String,
    /// The registration of the app that provides the entity, if one does.
    pub webhook_id: Option<String>,
    pub display_name: String,
    /// The domain of the entity.
    pub entity_type: String,
    /// The name of the icon.
    pub icon_name: String,
    /// The state, or `unavailable`.
    pub value: String,
    pub unit: String,
    pub device_class: String,
    pub user_area_id: String,
    pub unit_of_measurement: Option<String>,
    pub disabled: bool,
    /// The service that a tap calls; empty where there is none.
    pub service_action: String,
    pub current_temperature: Option<Json>,
    pub target_temperature: Option<Json>,
    pub hvac_modes: Vec<String>,
    /// The brightness of a light, from 0 to 255.
    pub brightness: Option<u8>,
    pub color_temp_kelvin: Option<u16>,
    pub min_color_temp_kelvin: u16,
    pub max_color_temp_kelvin: u16,
    pub color_mode: Option<String>,
    /// Hue and saturation.
    pub hs_color: Option<(Json, Json)>,
    pub rgb_color: Option<(u8, u8, u8)>,
    /// The colour as `#rrggbb`.
    pub rgb_hex: Option<String>,
    pub supported_color_modes: Vec<String>,
    /// What a selection offers.
    pub options: Vec<String>,
    /// The position of a cover, from 0 to 100.
    pub current_position: Option<u8>,
    /// The speed of a fan, from 0 to 100.
    pub fan_percentage: Option<u8>,
    pub device_name: Option<String>,
    pub is_unavailable: bool,
}

/// The entities of an area.
pub struct AreaCard {
    pub area_name: String,
    pub entities: Vec<EntityView>,
}

/// Whether a JSON value is a number.
pub open spec fn is_number(j: JsonView) -> bool {
    j is PosInt || j is NegInt || j is Float
}

/// An attribute that is a number.
pub open spec fn number_attr(attrs: Members, name: Seq<char>) -> Option<JsonView> {
    match json::member(attrs, name) {
        Some(j) => if is_number(j) {
            Some(j)
        } else {
            None
        },
        None => None,
    }
}

/// An attribute that is a whole number and not negative.
pub open spec fn count_attr(attrs: Members, name: Seq<char>) -> Option<u64> {
    match json::member(attrs, name) {
        Some(JsonView::PosInt(n)) => Some(n),
        _ => None,
    }
}

/// An attribute on a scale that ends at `max`.
pub open spec fn level_attr(attrs: Members, name: Seq<char>, max: u8) -> Option<u8> {
    match count_attr(attrs, name) {
        Some(n) => Some(
            if n <= max {
                n as u8
            } else {
                max
            },
        ),
        None => None,
    }
}

/// An attribute in kelvin, of which the lower 16 bits count.
pub open spec fn kelvin_attr(attrs: Members, name: Seq<char>) -> Option<u16> {
    match count_attr(attrs, name) {
        Some(n) => Some((n % 65536) as u16),
        None => None,
    }
}

/// An attribute that is a text.
pub open spec fn str_attr(attrs: Members, name: Seq<char>) -> Option<Seq<char>> {
    match json::member(attrs, name) {
        Some(JsonView::Str(s)) => Some(s),
        _ => None,
    }
}

/// The texts among some JSON values.
pub open spec fn texts_of(s: Seq<JsonView>) -> Seq<Seq<char>>
    decreases s.len(),
{
    if s.len() == 0 {
        Seq::empty()
    } else {
        match s.last() {
            JsonView::Str(t) => texts_of(s.drop_last()).push(t),
            _ => texts_of(s.drop_last()),
        }
    }
}

/// An attribute that is a list of texts; what is no text in it is left out.
pub open spec fn texts_attr(attrs: Members, name: Seq<char>) -> Seq<Seq<char>> {
    match json::member(attrs, name) {
        Some(JsonView::Array(items)) => texts_of(items),
        _ => Seq::empty(),
    }
}

/// An attribute that is a number.
pub fn get_number(attrs: &Vec<(String, Json)>, name: &str) -> (r: Option<Json>)
    ensures
        match r {
            Some(j) => number_attr(json::members_view(attrs@), name@) == Some(j@),
            None => number_attr(json::members_view(attrs@), name@) is None,
        },
{
    match get_member(attrs, name) {
        Some(j) => match j {
            Json::PosInt(_) | Json::NegInt(_) | Json::Float(_) => Some(copy_json(j)),
            _ => None,
        },
        None => None,
    }
}

/// An attribute that is a whole number and not negative.
pub fn get_count(attrs: &Vec<(String, Json)>, name: &str) -> (r: Option<u64>)
    ensures
        r == count_attr(json::members_view(attrs@), name@),
{
    match get_member(attrs, name) {
        Some(j) => j.as_u64(),
        None => None,
    }
}

/// An attribute on a scale that ends at `max`.
pub fn get_level(attrs: &Vec<(String, Json)>, name: &str, max: u8) -> (r: Option<u8>)
    ensures
        r == level_attr(json::members_view(attrs@), name@, max),
{
    match get_count(attrs, name) {
        Some(n) => if n <= max as u64 {
            Some(n as u8)
        } else {
            Some(max)
        },
        None => None,
    }
}

/// An attribute in kelvin.
pub fn get_kelvin(attrs: &Vec<(String, Json)>, name: &str) -> (r: Option<u16>)
    ensures
        r == kelvin_attr(json::members_view(attrs@), name@),
{
    match get_count(attrs, name) {
        Some(n) => Some((n % 65536) as u16),
        None => None,
    }
}

/// An attribute that is a text.
pub fn get_text(attrs: &Vec<(String, Json)>, name: &str) -> (r: Option<String>)
    ensures
        r.deep_view() == str_attr(json::members_view(attrs@), name@),
{
    match get_member(attrs, name) {
        Some(j) => match j.as_str() {
            Some(s) => Some(s.to_owned()),
            None => None,
        },
        None => None,
    }
}

/// The texts among some JSON values.
pub fn collect_texts(items: &Vec<Json>) -> (r: Vec<String>)
    ensures
        r.deep_view() == texts_of(json::items_view(items@)),
{
    let ghost all = json::items_view(items@);
    let mut out: Vec<String> = Vec::new();
    let mut i: usize = 0;
    proof {
        json::lemma_items_view(items@);
        assert(out.deep_view() =~= Seq::<Seq<char>>::empty());
        assert(all.take(0) =~= Seq::empty());
    }
    while i < items.len()
        invariant
            i <= items.len(),
            all.len() == items.len(),
            forall|k: int| #![trigger all[k]] 0 <= k < items.len() ==> all[k] == items@[k]@,
            out.deep_view() == texts_of(all.take(i as int)),
        decreases items.len() - i,
    {
        proof {
            assert(all.take(i + 1).drop_last() =~= all.take(i as int));
            assert(all.take(i + 1).last() == all[i as int]);
        }
        let ghost before = out.deep_view();
        if let Some(s) = items[i].as_str() {
            out.push(s.to_owned());
            assert(out.deep_view() =~= before.push(s@));
        }
        i += 1;
    }
    assert(all.take(i as int) =~= all);
    out
}

/// An attribute that is a list of texts.
pub fn get_texts(attrs: &Vec<(String, Json)>, name: &str) -> (r: Vec<String>)
    ensures
        r.deep_view() == texts_attr(json::members_view(attrs@), name@),
{
    match get_member(attrs, name) {
        Some(j) => match j {
            Json::Array(items) => collect_texts(items),
            _ => {
                let out: Vec<String> = Vec::new();
                assert(out.deep_view() =~= Seq::<Seq<char>>::empty());
                out
            },
        },
        None => {
            let out: Vec<String> = Vec::new();
            assert(out.deep_view() =~= Seq::<Seq<char>>::empty());
            out
        },
    }
}

/// An optional text, or an empty one.
pub fn text_or_empty(s: &Option<String>) -> (r: String)
    ensures
        r@ == text::or_empty(s.deep_view()),
{
    match s {
        Some(v) => v.clone(),
        None => String::new(),
    }
}

} // verus!
