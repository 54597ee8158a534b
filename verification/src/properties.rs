//! The record that marks an entity as inspectable.

use crate::math::Vec3;
use vstd::prelude::*;
use vstd::string::StringExecFns;

verus! {

/// What a [`ShowInUIProperties`] holds, as mathematical values.
pub struct PropertiesView {
    /// The display name.
    pub name: Seq<char>,
    /// The Euler angles (in degrees) of the rotation edit in progress, if any.
    pub euler_angles_cache: Option<Vec3>,
}

/// The record that makes an entity visible to the inspector: its display
/// name, and the angles of the rotation edit that is in progress on it.
///
/// The cache is empty unless an edit session is active on the entity.
#[derive(Debug)]
pub struct ShowInUIProperties {
    name: String,
    euler_angles_cache: Option<Vec3>,
}

/// The suffix that marks the name of a duplicate.
pub open spec fn copy_suffix() -> Seq<char> {
    " Copy"@
}

impl View for ShowInUIProperties {
    type V = PropertiesView;

    closed spec fn view(&self) -> PropertiesView {
        PropertiesView { name: self.name@, euler_angles_cache: self.euler_angles_cache }
    }
}

impl PropertiesView {
    /// The record of a duplicate: the name gets the copy suffix, and no edit
    /// session is carried over.
    pub open spec fn duplicated(self) -> PropertiesView {
        PropertiesView { name: self.name + copy_suffix(), euler_angles_cache: None }
    }

    /// The same record under another name.
    pub open spec fn renamed(self, name: Seq<char>) -> PropertiesView {
        PropertiesView { name, euler_angles_cache: self.euler_angles_cache }
    }

    /// The same record with another cache.
    pub open spec fn with_cache(self, cache: Option<Vec3>) -> PropertiesView {
        PropertiesView { name: self.name, euler_angles_cache: cache }
    }
}

impl ShowInUIProperties {
    /// A record with the given name and no edit in progress.
    pub fn new(name: String) -> (properties: Self)
        ensures
            properties@.name == name@,
            properties@.euler_angles_cache is None,
    {
        Self { name, euler_angles_cache: None }
    }

    /// The display name.
    pub fn name(&self) -> (name: &String)
        ensures
            name@ == self@.name,
    {
        &self.name
    }

    /// Replaces the display name and leaves the cache as it is.
    pub fn set_name(&mut self, name: String)
        ensures
            final(self)@ == old(self)@.renamed(name@),
    {
        self.name = name;
    }

    /// The cached angles of the edit in progress, if there is one.
    pub fn euler_angles_cache(&self) -> (cache: Option<Vec3>)
        ensures
            cache == self@.euler_angles_cache,
    {
        self.euler_angles_cache
    }

    /// Replaces the cache and leaves the name as it is.
    pub fn set_euler_angles_cache(&mut self, cache: Option<Vec3>)
        ensures
            final(self)@ == old(self)@.with_cache(cache),
    {
        self.euler_angles_cache = cache;
    }
}

impl Clone for ShowInUIProperties {
    /// The record for a duplicate of the entity: the name is suffixed to mark
    /// it as a copy, and the duplicate starts with no edit in progress.
    fn clone(&self) -> (copy: Self)
        ensures
            copy@ == self@.duplicated(),
    {
        let name = self.name.clone().concat(" Copy");
        Self { name, euler_angles_cache: None }
    }
}

} // verus!
