//! The labels that entities can carry.

use vstd::prelude::*;

use crate::ids;
use crate::ids::{new_registry_id, new_simple_uuid};
use crate::keyed;
use crate::keyed::{copy_all, position, remove_key, Keyed, Record};
use crate::text;
use crate::text::slugify;

verus! {

/// A label.
pub struct LabelEntry {
    pub label_id: String,
    pub name: String,
    pub description: Option<String>,
    pub icon: Option<String>,
    pub color: Option<String>,
}

impl Keyed for LabelEntry {
    open spec fn key(&self) -> Seq<char> {
        self.label_id@
    }

    fn key_str(&self) -> (r: &str) {
        self.label_id.as_str()
    }
}

impl Clone for LabelEntry {
    fn clone(&self) -> (r: Self)
        ensures
            r == *self,
    {
        LabelEntry {
            label_id: self.label_id.clone(),
            name: self.name.clone(),
            description: self.description.clone(),
            icon: self.icon.clone(),
            color: self.color.clone(),
        }
    }
}

impl Record for LabelEntry {
    fn dup(&self) -> (r: Self) {
        self.clone()
    }
}

/// A label after a change. What is not given stays.
pub open spec fn updated_label(
    label: LabelEntry,
    name: Option<String>,
    description: Option<Option<String>>,
    icon: Option<Option<String>>,
    color: Option<Option<String>>,
) -> LabelEntry {
    LabelEntry {
        label_id: label.label_id,
        name: match name {
            Some(v) => v,
            None => label.name,
        },
        description: match description {
            Some(v) => v,
            None => label.description,
        },
        icon: match icon {
            Some(v) => v,
            None => label.icon,
        },
        color: match color {
            Some(v) => v,
            None => label.color,
        },
    }
}

/// The labels that entities can carry.
pub struct LabelRegistryStore {
    /// The labels, in the order in which they were made.
    pub labels: Vec<LabelEntry>,
}

impl LabelRegistryStore {
    /// A registry without labels.
    pub fn new() -> (r: Self)
        ensures
            r.labels@ == Seq::<LabelEntry>::empty(),
    {
        LabelRegistryStore { labels: Vec::new() }
    }

    /// All labels.
    pub fn list(&self) -> (r: Vec<LabelEntry>)
        ensures
            r@ == self.labels@,
    {
        copy_all(&self.labels)
    }

    /// Makes a label, with a random text to draw on where the slug of the name is taken.
    pub fn create_with(
        &mut self,
        name: String,
        description: Option<String>,
        icon: Option<String>,
        color: Option<String>,
        random: &str,
    ) -> (r: LabelEntry)
        requires
            random@.len() >= 8,
        ensures
            r.label_id@ == ids::registry_id(
                old(self).labels@,
                text::slug_of(text::lowercased(name@)),
                random@,
            ),
            r == (LabelEntry { label_id: r.label_id, name, description, icon, color }),
            final(self).labels@ == old(self).labels@.push(r),
    {
        let slug: String = slugify(name.as_str());
        let label_id: String = new_registry_id(&self.labels, slug.as_str(), random);
        let label: LabelEntry = LabelEntry { label_id, name, description, icon, color };
        self.labels.push(label.clone());
        label
    }

    /// Makes a label. Its id is the slug of the name, extended by a random text where that slug is
    /// taken.
    pub fn create(
        &mut self,
        name: String,
        description: Option<String>,
        icon: Option<String>,
        color: Option<String>,
    ) -> (r: LabelEntry)
        ensures
            ids::is_registry_id(
                old(self).labels@,
                text::slug_of(text::lowercased(name@)),
                r.label_id@,
            ),
            r == (LabelEntry { label_id: r.label_id, name, description, icon, color }),
            final(self).labels@ == old(self).labels@.push(r),
    {
        let random: String = new_simple_uuid();
        self.create_with(name, description, icon, color, random.as_str())
    }

    /// Changes the label with an id: what is not given stays, and what is given as `None` is
    /// cleared. Gives the changed label, if there is one.
    pub fn update(
        &mut self,
        label_id: &str,
        name: Option<String>,
        description: Option<Option<String>>,
        icon: Option<Option<String>>,
        color: Option<Option<String>>,
    ) -> (r: Option<LabelEntry>)
        ensures
            match keyed::key_pos(old(self).labels@, label_id@) {
                Some(i) => r == Some(
                    updated_label(old(self).labels@[i], name, description, icon, color),
                ) && final(self).labels@ == old(self).labels@.update(i, r->0),
                None => r is None && *final(self) == *old(self),
            },
    {
        let i: usize = match position(&self.labels, label_id) {
            Some(i) => i,
            None => {
                return None;
            },
        };
        let mut label: LabelEntry = self.labels[i].clone();
        if let Some(v) = name {
            label.name = v;
        }
        if let Some(v) = description {
            label.description = v;
        }
        if let Some(v) = icon {
            label.icon = v;
        }
        if let Some(v) = color {
            label.color = v;
        }
        self.labels[i] = label.clone();
        Some(label)
    }

    /// Removes the label with an id. Says whether there was one.
    pub fn delete(&mut self, label_id: &str) -> (r: bool)
        ensures
            final(self).labels@ == keyed::without_key(old(self).labels@, label_id@),
            r == (keyed::key_pos(old(self).labels@, label_id@) is Some),
    {
        remove_key(&mut self.labels, label_id)
    }
}

} // verus!
