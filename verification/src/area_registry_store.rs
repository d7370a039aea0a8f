//! The areas of the house.

use vstd::prelude::*;

use crate::ids;
use crate::ids::{new_registry_id, new_simple_uuid};
use crate::keyed;
use crate::keyed::{position, remove_key, Keyed};
use crate::text;
use crate::text::{copy_strings, slugify};

verus! {

/// An area of the house.
pub struct StoredArea {
    pub area_id: String,
    pub name: String,
    pub aliases: Vec<String>,
    pub floor_id: Option<String>,
    pub icon: Option<String>,
    pub picture: Option<String>,
}

/// The mathematical value of a [`StoredArea`].
pub struct AreaModel {
    pub area_id: Seq<char>,
    pub name: Seq<char>,
    pub aliases: Seq<Seq<char>>,
    pub floor_id: Option<Seq<char>>,
    pub icon: Option<Seq<char>>,
    pub picture: Option<Seq<char>>,
}

impl View for StoredArea {
    type V = AreaModel;

    open spec fn view(&self) -> AreaModel {
        AreaModel {
            area_id: self.area_id@,
            name: self.name@,
            aliases: self.aliases.deep_view(),
            floor_id: self.floor_id.deep_view(),
            icon: self.icon.deep_view(),
            picture: self.picture.deep_view(),
        }
    }
}

impl Keyed for StoredArea {
    open spec fn key(&self) -> Seq<char> {
        self.area_id@
    }

    fn key_str(&self) -> (r: &str) {
        self.area_id.as_str()
    }
}

impl Clone for StoredArea {
    fn clone(&self) -> (r: Self)
        ensures
            r@ == self@,
    {
        StoredArea {
            area_id: self.area_id.clone(),
            name: self.name.clone(),
            aliases: copy_strings(&self.aliases),
            floor_id: self.floor_id.clone(),
            icon: self.icon.clone(),
            picture: self.picture.clone(),
        }
    }
}

/// An area with nothing but an id and a name.
pub open spec fn bare_area(area_id: Seq<char>, name: Seq<char>) -> AreaModel {
    AreaModel {
        area_id,
        name,
        aliases: Seq::empty(),
        floor_id: None,
        icon: None,
        picture: None,
    }
}

/// An area with nothing but an id and a name.
fn new_area(area_id: String, name: String) -> (r: StoredArea)
    ensures
        r@ == bare_area(area_id@, name@),
{
    let r = StoredArea {
        area_id,
        name,
        aliases: Vec::new(),
        floor_id: None,
        icon: None,
        picture: None,
    };
    assert(r@.aliases =~= Seq::<Seq<char>>::empty());
    r
}

/// An area after a change. What is not given stays.
pub open spec fn updated_area(
    area: AreaModel,
    name: Option<Seq<char>>,
    aliases: Option<Seq<Seq<char>>>,
    floor_id: Option<Option<Seq<char>>>,
    icon: Option<Option<Seq<char>>>,
    picture: Option<Option<Seq<char>>>,
) -> AreaModel {
    AreaModel {
        area_id: area.area_id,
        name: match name {
            Some(v) => v,
            None => area.name,
        },
        aliases: match aliases {
            Some(v) => v,
            None => area.aliases,
        },
        floor_id: match floor_id {
            Some(v) => v,
            None => area.floor_id,
        },
        icon: match icon {
            Some(v) => v,
            None => area.icon,
        },
        picture: match picture {
            Some(v) => v,
            None => area.picture,
        },
    }
}

/// The areas that a list of names gives, each with the slug of its name.
pub open spec fn seeded(names: Seq<Seq<char>>) -> Seq<AreaModel> {
    Seq::new(names.len(), |i: int| bare_area(text::slug_of(text::lowercased(names[i])), names[i]))
}

/// The areas of the house.
pub struct AreaRegistryStore {
    pub areas: Vec<StoredArea>,
}

impl AreaRegistryStore {
    /// The areas, in the order in which they were made.
    pub open spec fn models(&self) -> Seq<AreaModel> {
        keyed::views(self.areas@)
    }

    /// A registry without areas.
    pub fn new() -> (r: Self)
        ensures
            r.models() == Seq::<AreaModel>::empty(),
    {
        let r = AreaRegistryStore { areas: Vec::new() };
        assert(r.models() =~= Seq::<AreaModel>::empty());
        r
    }

    /// All areas.
    pub fn list(&self) -> (r: Vec<StoredArea>)
        ensures
            keyed::views(r@) == self.models(),
    {
        let mut out: Vec<StoredArea> = Vec::new();
        let mut i: usize = 0;
        while i < self.areas.len()
            invariant
                i <= self.areas.len(),
                keyed::views(out@) == self.models().take(i as int),
            decreases self.areas.len() - i,
        {
            let ghost before = out@;
            out.push(self.areas[i].clone());
            i += 1;
            assert(keyed::views(out@) =~= keyed::views(before).push(self.areas@[i - 1]@));
            assert(self.models().take(i as int) =~= self.models().take(i - 1).push(
                self.models()[i - 1],
            ));
        }
        assert(self.models().take(i as int) =~= self.models());
        out
    }

    /// Makes an area of each name on first boot: nothing where a registry has been stored, or where
    /// there is an area already. Says whether any was made.
    pub fn seed_if_empty(&mut self, names: &Vec<String>, stored: bool) -> (r: bool)
        ensures
            final(self).models() == if !stored && old(self).models().len() == 0 {
                seeded(names.deep_view())
            } else {
                old(self).models()
            },
            r == (!stored && old(self).models().len() == 0 && names@.len() > 0),
    {
        if names.len() == 0 {
            assert(self.areas@.len() == 0 ==> self.models() =~= seeded(names.deep_view()));
            return false;
        }
        if stored || self.areas.len() != 0 {
            return false;
        }
        assert(self.models() =~= seeded(names.deep_view()).take(0));
        let mut i: usize = 0;
        while i < names.len()
            invariant
                i <= names.len(),
                self.models() == seeded(names.deep_view()).take(i as int),
            decreases names.len() - i,
        {
            let ghost before = self.areas@;
            let area: StoredArea = new_area(slugify(names[i].as_str()), names[i].clone());
            let ghost model = area@;
            self.areas.push(area);
            i += 1;
            assert(self.models() =~= keyed::views(before).push(model));
            assert(self.models() =~= seeded(names.deep_view()).take(i as int));
        }
        assert(self.models() =~= seeded(names.deep_view()));
        true
    }

    /// Makes an area, with a random text to draw on where the slug of the name is taken.
    pub fn create_with(&mut self, name: String, random: &str) -> (r: StoredArea)
        requires
            random@.len() >= 8,
        ensures
            r@ == bare_area(
                ids::registry_id(
                    old(self).areas@,
                    text::slug_of(text::lowercased(name@)),
                    random@,
                ),
                name@,
            ),
            final(self).models() == old(self).models().push(r@),
    {
        let slug: String = slugify(name.as_str());
        let area_id: String = new_registry_id(&self.areas, slug.as_str(), random);
        let area: StoredArea = new_area(area_id, name);
        self.areas.push(area.clone());
        assert(self.models() =~= old(self).models().push(area@));
        area
    }

    /// Makes an area. Its id is the slug of the name, extended by a random text where that slug is
    /// taken.
    pub fn create(&mut self, name: String) -> (r: StoredArea)
        ensures
            ids::is_registry_id(
                old(self).areas@,
                text::slug_of(text::lowercased(name@)),
                r@.area_id,
            ),
            r@ == bare_area(r@.area_id, name@),
            final(self).models() == old(self).models().push(r@),
    {
        let random: String = new_simple_uuid();
        self.create_with(name, random.as_str())
    }

    /// Changes the area with an id: what is not given stays, and what is given as `None` is
    /// cleared. Gives the changed area, if there is one.
    pub fn update(
        &mut self,
        area_id: &str,
        name: Option<String>,
        aliases: Option<Vec<String>>,
        floor_id: Option<Option<String>>,
        icon: Option<Option<String>>,
        picture: Option<Option<String>>,
    ) -> (r: Option<StoredArea>)
        ensures
            match keyed::key_pos(old(self).areas@, area_id@) {
                Some(i) => r matches Some(area) && area@ == updated_area(
                    old(self).models()[i],
                    name.deep_view(),
                    aliases.deep_view(),
                    floor_id.deep_view(),
                    icon.deep_view(),
                    picture.deep_view(),
                ) && final(self).models() == old(self).models().update(i, area@),
                None => r is None && *final(self) == *old(self),
            },
    {
        let i: usize = match position(&self.areas, area_id) {
            Some(i) => i,
            None => {
                return None;
            },
        };
        let mut area: StoredArea = self.areas[i].clone();
        if let Some(v) = name {
            area.name = v;
        }
        if let Some(v) = aliases {
            area.aliases = v;
        }
        if let Some(v) = floor_id {
            area.floor_id = v;
        }
        if let Some(v) = icon {
            area.icon = v;
        }
        if let Some(v) = picture {
            area.picture = v;
        }
        self.areas[i] = area.clone();
        assert(self.models() =~= old(self).models().update(i as int, area@));
        Some(area)
    }

    /// Removes the area with an id. Says whether there was one.
    pub fn delete(&mut self, area_id: &str) -> (r: bool)
        ensures
            final(self).areas@ == keyed::without_key(old(self).areas@, area_id@),
            r == (keyed::key_pos(old(self).areas@, area_id@) is Some),
    {
        remove_key(&mut self.areas, area_id)
    }
}

} // verus!
