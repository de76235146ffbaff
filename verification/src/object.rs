use vstd::prelude::*;
use vstd::string::StringExecFns;

use crate::error::Error;
use crate::location::Location;
use crate::location::location_render_spec;
use crate::storage::{counts_positive, keys_unique, storage_render_spec, Item, Storage};

verus! {

/// The abstract state of one entity: what every contract of the lock
/// protocol and of the commands speaks about.
pub ghost struct ObjectModel {
    pub id: Seq<char>,
    pub location: Location,
    pub locked: bool,
    pub storage: Seq<(Item, u32)>,
    /// The staging ledger; empty unless the entity is a Site.
    pub pick_storage: Seq<(Item, u32)>,
    pub is_site: bool,
}

/// The display projection of an entity; a Site shows its staging ledger
/// too.
pub open spec fn obj_render_spec(m: ObjectModel) -> Seq<char> {
    if m.is_site {
        "{ \"id\": \""@ + m.id + "\", \"storage\": "@ + storage_render_spec(m.storage)
            + ", \"pick_storage\": "@ + storage_render_spec(m.pick_storage) + ", \"location\": "@
            + location_render_spec(m.location) + " }"@
    } else {
        "{ \"id\": \""@ + m.id + "\", \"storage\": "@ + storage_render_spec(m.storage)
            + ", \"location\": "@ + location_render_spec(m.location) + " }"@
    }
}

/// Both ledgers of the entity are well-formed.
pub open spec fn obj_wf(m: ObjectModel) -> bool {
    keys_unique(m.storage) && counts_positive(m.storage) && keys_unique(m.pick_storage)
        && counts_positive(m.pick_storage)
}

/// What `lock` does: fails on an already-locked entity, otherwise sets the
/// flag. Returns the new state and the result.
pub open spec fn obj_lock(m: ObjectModel) -> (ObjectModel, Result<(), Error>) {
    if m.locked {
        (m, Err(Error::AlreadyLocked))
    } else {
        (ObjectModel { locked: true, ..m }, Ok(()))
    }
}

/// What `unlock` does: fails on an already-unlocked entity, otherwise
/// clears the flag.
pub open spec fn obj_unlock(m: ObjectModel) -> (ObjectModel, Result<(), Error>) {
    if !m.locked {
        (m, Err(Error::AlreadyUnlocked))
    } else {
        (ObjectModel { locked: false, ..m }, Ok(()))
    }
}

/// The non-reentrant advisory lock shared by every entity variant.
fn lock_flag(locked: &mut bool) -> (r: Result<(), Error>)
    ensures
        *old(locked) ==> r == Err::<(), Error>(Error::AlreadyLocked) && *final(locked),
        !*old(locked) ==> r == Ok::<(), Error>(()) && *final(locked),
{
    if *locked {
        Err(Error::AlreadyLocked)
    } else {
        *locked = true;
        Ok(())
    }
}

fn unlock_flag(locked: &mut bool) -> (r: Result<(), Error>)
    ensures
        !*old(locked) ==> r == Err::<(), Error>(Error::AlreadyUnlocked) && !*final(locked),
        *old(locked) ==> r == Ok::<(), Error>(()) && !*final(locked),
{
    if !*locked {
        Err(Error::AlreadyUnlocked)
    } else {
        *locked = false;
        Ok(())
    }
}

/// A located, lockable, inventory-holding thing on the warehouse floor.
pub trait Object: Sized {
    /// The abstract state this entity currently has.
    spec fn model(&self) -> ObjectModel;

    fn id(&self) -> (r: &str)
        ensures
            r@ == self.model().id,
    ;

    fn storage(&self) -> (r: &Storage)
        ensures
            r.items@ == self.model().storage,
    ;

    fn location(&self) -> (r: &Location)
        ensures
            *r == self.model().location,
    ;

    fn get_storage(&mut self) -> (r: &mut Storage)
        ensures
            r.items@ == old(self).model().storage,
            final(self).model() == (ObjectModel {
                storage: final(r).items@,
                ..old(self).model()
            }),
    ;

    fn get_location(&mut self) -> (r: &mut Location)
        ensures
            *r == old(self).model().location,
            final(self).model() == (ObjectModel {
                location: *final(r),
                ..old(self).model()
            }),
    ;

    fn get_lock(&mut self) -> (r: &mut bool)
        ensures
            *r == old(self).model().locked,
            final(self).model() == (ObjectModel { locked: *final(r), ..old(self).model() }),
    ;

    /// Fails with `AlreadyLocked` when the flag is already set, otherwise
    /// sets it; nothing else changes either way.
    fn lock(&mut self) -> (r: Result<(), Error>)
        ensures
            (final(self).model(), r) == obj_lock(old(self).model()),
    ;

    /// Fails with `AlreadyUnlocked` when the flag is already clear,
    /// otherwise clears it; nothing else changes either way.
    fn unlock(&mut self) -> (r: Result<(), Error>)
        ensures
            (final(self).model(), r) == obj_unlock(old(self).model()),
    ;

    /// Renders the entity; never fails and never mutates state.
    fn render(&self) -> (r: Result<String, Error>)
        ensures
            match r {
                Ok(s) => s@ == obj_render_spec(self.model()),
                Err(_) => false,
            },
    ;
}

/// Builds the display projection shared by the entity variants that own a
/// single ledger.
fn render_parts(id: &str, storage: &Storage, location: &Location) -> (r: String)
    ensures
        r@ == "{ \"id\": \""@ + id@ + "\", \"storage\": "@ + storage_render_spec(storage.items@)
            + ", \"location\": "@ + location_render_spec(*location) + " }"@,
{
    let mut s = String::new();
    s.append("{ \"id\": \"");
    s.append(id);
    s.append("\", \"storage\": ");
    let st = match storage.render() {
        Ok(st) => st,
        Err(_) => String::new(),
    };
    s.append(st.as_str());
    s.append(", \"location\": ");
    let lo = location.render();
    s.append(lo.as_str());
    s.append(" }");
    proof {
        assert(s@ =~= "{ \"id\": \""@ + id@ + "\", \"storage\": "@ + storage_render_spec(
            storage.items@,
        ) + ", \"location\": "@ + location_render_spec(*location) + " }"@);
    }
    s
}

/// Conversion of a concrete entity into the closed sum that the world
/// stores; the abstract state is kept exactly.
pub trait IntoAny: Object {
    fn into_any(self) -> (r: AnyObject)
        ensures
            r.model() == self.model(),
    ;
}

/// Relies on `uuid::Uuid::new_v4` and its `Display` impl: a fresh random
/// identifier, rendered in the hyphenated form, which is 36 characters.
#[verifier::external_body]
fn fresh_uuid() -> (r: String)
    ensures
        r@.len() == 36,
{
    uuid::Uuid::new_v4().to_string()
}

/// A globally unique identifier: `prefix` followed by a fresh UUID.
fn fresh_id(prefix: &str) -> (r: String)
    ensures
        r@.len() == prefix@.len() + 36,
        r@.take(prefix@.len() as int) == prefix@,
{
    let mut id = String::new();
    id.append(prefix);
    let tail = fresh_uuid();
    id.append(tail.as_str());
    proof {
        assert(id@.take(prefix@.len() as int) =~= prefix@);
    }
    id
}

/// A mobile robot.
pub struct Bot {
    pub id: String,
    pub location: Location,
    pub locked: bool,
    pub storage: Storage,
}

impl Bot {
    pub fn new() -> (r: Self)
        ensures
            r.model().location == (Location { x: 0, y: 0, z: 0 }),
            !r.model().locked,
            r.model().storage =~= Seq::<(Item, u32)>::empty(),
            r.model().pick_storage =~= Seq::<(Item, u32)>::empty(),
            !r.model().is_site,
            obj_wf(r.model()),
            r.model().id.len() == 40,
    {
        proof {
            reveal_strlit("bot-");
        }
        Self {
            id: fresh_id("bot-"),
            location: Location { x: 0, y: 0, z: 0 },
            locked: false,
            storage: Storage::new(),
        }
    }
}

impl Object for Bot {
    open spec fn model(&self) -> ObjectModel {
        ObjectModel {
            id: self.id@,
            location: self.location,
            locked: self.locked,
            storage: self.storage.items@,
            pick_storage: Seq::empty(),
            is_site: false,
        }
    }

    fn id(&self) -> &str {
        self.id.as_str()
    }

    fn storage(&self) -> &Storage {
        &self.storage
    }

    fn location(&self) -> &Location {
        &self.location
    }

    fn get_storage(&mut self) -> &mut Storage {
        &mut self.storage
    }

    fn get_location(&mut self) -> &mut Location {
        &mut self.location
    }

    fn get_lock(&mut self) -> &mut bool {
        &mut self.locked
    }

    fn lock(&mut self) -> Result<(), Error> {
        lock_flag(&mut self.locked)
    }

    fn unlock(&mut self) -> Result<(), Error> {
        unlock_flag(&mut self.locked)
    }

    fn render(&self) -> Result<String, Error> {
        let s = render_parts(self.id.as_str(), &self.storage, &self.location);
        proof {
            assert(s@ =~= obj_render_spec(self.model()));
        }
        Ok(s)
    }
}

impl IntoAny for Bot {
    fn into_any(self) -> AnyObject {
        AnyObject::Bot(self)
    }
}

/// A static storage shelf.
pub struct Shelf {
    pub id: String,
    pub location: Location,
    pub locked: bool,
    pub storage: Storage,
}

impl Shelf {
    pub fn new() -> (r: Self)
        ensures
            r.model().location == (Location { x: 0, y: 0, z: 0 }),
            !r.model().locked,
            r.model().storage =~= Seq::<(Item, u32)>::empty(),
            r.model().pick_storage =~= Seq::<(Item, u32)>::empty(),
            !r.model().is_site,
            obj_wf(r.model()),
            r.model().id.len() == 40,
    {
        proof {
            reveal_strlit("slf-");
        }
        Self {
            id: fresh_id("slf-"),
            location: Location { x: 0, y: 0, z: 0 },
            locked: false,
            storage: Storage::new(),
        }
    }
}

impl Object for Shelf {
    open spec fn model(&self) -> ObjectModel {
        ObjectModel {
            id: self.id@,
            location: self.location,
            locked: self.locked,
            storage: self.storage.items@,
            pick_storage: Seq::empty(),
            is_site: false,
        }
    }

    fn id(&self) -> &str {
        self.id.as_str()
    }

    fn storage(&self) -> &Storage {
        &self.storage
    }

    fn location(&self) -> &Location {
        &self.location
    }

    fn get_storage(&mut self) -> &mut Storage {
        &mut self.storage
    }

    fn get_location(&mut self) -> &mut Location {
        &mut self.location
    }

    fn get_lock(&mut self) -> &mut bool {
        &mut self.locked
    }

    fn lock(&mut self) -> Result<(), Error> {
        lock_flag(&mut self.locked)
    }

    fn unlock(&mut self) -> Result<(), Error> {
        unlock_flag(&mut self.locked)
    }

    fn render(&self) -> Result<String, Error> {
        let s = render_parts(self.id.as_str(), &self.storage, &self.location);
        proof {
            assert(s@ =~= obj_render_spec(self.model()));
        }
        Ok(s)
    }
}

impl IntoAny for Shelf {
    fn into_any(self) -> AnyObject {
        AnyObject::Shelf(self)
    }
}

/// A pick/put site: besides its primary ledger it owns a staging ledger
/// that holds inventory picked but not yet placed.
pub struct Site {
    pub id: String,
    pub location: Location,
    pub locked: bool,
    pub storage: Storage,
    pub pick_storage: Storage,
}

impl Site {
    pub fn new() -> (r: Self)
        ensures
            r.model().location == (Location { x: 0, y: 0, z: 0 }),
            !r.model().locked,
            r.model().storage =~= Seq::<(Item, u32)>::empty(),
            r.model().pick_storage =~= Seq::<(Item, u32)>::empty(),
            r.model().is_site,
            obj_wf(r.model()),
            r.model().id.len() == 40,
    {
        proof {
            reveal_strlit("ste-");
        }
        Self {
            id: fresh_id("ste-"),
            location: Location { x: 0, y: 0, z: 0 },
            locked: false,
            storage: Storage::new(),
            pick_storage: Storage::new(),
        }
    }
}

impl Object for Site {
    open spec fn model(&self) -> ObjectModel {
        ObjectModel {
            id: self.id@,
            location: self.location,
            locked: self.locked,
            storage: self.storage.items@,
            pick_storage: self.pick_storage.items@,
            is_site: true,
        }
    }

    fn id(&self) -> &str {
        self.id.as_str()
    }

    fn storage(&self) -> &Storage {
        &self.storage
    }

    fn location(&self) -> &Location {
        &self.location
    }

    fn get_storage(&mut self) -> &mut Storage {
        &mut self.storage
    }

    fn get_location(&mut self) -> &mut Location {
        &mut self.location
    }

    fn get_lock(&mut self) -> &mut bool {
        &mut self.locked
    }

    fn lock(&mut self) -> Result<(), Error> {
        lock_flag(&mut self.locked)
    }

    fn unlock(&mut self) -> Result<(), Error> {
        unlock_flag(&mut self.locked)
    }

    fn render(&self) -> Result<String, Error> {
        let mut s = String::new();
        s.append("{ \"id\": \"");
        s.append(self.id.as_str());
        s.append("\", \"storage\": ");
        let st = match self.storage.render() {
            Ok(st) => st,
            Err(_) => String::new(),
        };
        s.append(st.as_str());
        s.append(", \"pick_storage\": ");
        let sp = match self.pick_storage.render() {
            Ok(sp) => sp,
            Err(_) => String::new(),
        };
        s.append(sp.as_str());
        s.append(", \"location\": ");
        let lo = self.location.render();
        s.append(lo.as_str());
        s.append(" }");
        proof {
            assert(s@ =~= obj_render_spec(self.model()));
        }
        Ok(s)
    }
}

impl IntoAny for Site {
    fn into_any(self) -> AnyObject {
        AnyObject::Site(self)
    }
}

/// A plain entity with a fixed identifier, used to exercise the lock
/// protocol and the transfer command.
pub struct TestObject {
    pub location: Location,
    pub locked: bool,
    pub storage: Storage,
}

impl TestObject {
    pub fn new() -> (r: Self)
        ensures
            r.model().location == (Location { x: 0, y: 0, z: 0 }),
            !r.model().locked,
            r.model().storage =~= Seq::<(Item, u32)>::empty(),
            r.model().pick_storage =~= Seq::<(Item, u32)>::empty(),
            !r.model().is_site,
            obj_wf(r.model()),
            r.model().id == "test-0"@,
    {
        Self {
            location: Location { x: 0, y: 0, z: 0 },
            locked: false,
            storage: Storage::new(),
        }
    }
}

impl Object for TestObject {
    open spec fn model(&self) -> ObjectModel {
        ObjectModel {
            id: "test-0"@,
            location: self.location,
            locked: self.locked,
            storage: self.storage.items@,
            pick_storage: Seq::empty(),
            is_site: false,
        }
    }

    fn id(&self) -> &str {
        "test-0"
    }

    fn storage(&self) -> &Storage {
        &self.storage
    }

    fn location(&self) -> &Location {
        &self.location
    }

    fn get_storage(&mut self) -> &mut Storage {
        &mut self.storage
    }

    fn get_location(&mut self) -> &mut Location {
        &mut self.location
    }

    fn get_lock(&mut self) -> &mut bool {
        &mut self.locked
    }

    fn lock(&mut self) -> Result<(), Error> {
        lock_flag(&mut self.locked)
    }

    fn unlock(&mut self) -> Result<(), Error> {
        unlock_flag(&mut self.locked)
    }

    fn render(&self) -> Result<String, Error> {
        let s = render_parts("test-0", &self.storage, &self.location);
        proof {
            assert(s@ =~= obj_render_spec(self.model()));
        }
        Ok(s)
    }
}

impl IntoAny for TestObject {
    fn into_any(self) -> AnyObject {
        AnyObject::Test(self)
    }
}

/// The closed sum of entity variants that the world owns.
pub enum AnyObject {
    Bot(Bot),
    Shelf(Shelf),
    Site(Site),
    Test(TestObject),
}

impl Object for AnyObject {
    open spec fn model(&self) -> ObjectModel {
        match self {
            AnyObject::Bot(o) => o.model(),
            AnyObject::Shelf(o) => o.model(),
            AnyObject::Site(o) => o.model(),
            AnyObject::Test(o) => o.model(),
        }
    }

    fn id(&self) -> &str {
        match self {
            AnyObject::Bot(o) => o.id(),
            AnyObject::Shelf(o) => o.id(),
            AnyObject::Site(o) => o.id(),
            AnyObject::Test(o) => o.id(),
        }
    }

    fn storage(&self) -> &Storage {
        match self {
            AnyObject::Bot(o) => o.storage(),
            AnyObject::Shelf(o) => o.storage(),
            AnyObject::Site(o) => o.storage(),
            AnyObject::Test(o) => o.storage(),
        }
    }

    fn location(&self) -> &Location {
        match self {
            AnyObject::Bot(o) => o.location(),
            AnyObject::Shelf(o) => o.location(),
            AnyObject::Site(o) => o.location(),
            AnyObject::Test(o) => o.location(),
        }
    }

    fn get_storage(&mut self) -> &mut Storage {
        match self {
            AnyObject::Bot(o) => o.get_storage(),
            AnyObject::Shelf(o) => o.get_storage(),
            AnyObject::Site(o) => o.get_storage(),
            AnyObject::Test(o) => o.get_storage(),
        }
    }

    fn get_location(&mut self) -> &mut Location {
        match self {
            AnyObject::Bot(o) => o.get_location(),
            AnyObject::Shelf(o) => o.get_location(),
            AnyObject::Site(o) => o.get_location(),
            AnyObject::Test(o) => o.get_location(),
        }
    }

    fn get_lock(&mut self) -> &mut bool {
        match self {
            AnyObject::Bot(o) => o.get_lock(),
            AnyObject::Shelf(o) => o.get_lock(),
            AnyObject::Site(o) => o.get_lock(),
            AnyObject::Test(o) => o.get_lock(),
        }
    }

    fn lock(&mut self) -> Result<(), Error> {
        match self {
            AnyObject::Bot(o) => o.lock(),
            AnyObject::Shelf(o) => o.lock(),
            AnyObject::Site(o) => o.lock(),
            AnyObject::Test(o) => o.lock(),
        }
    }

    fn unlock(&mut self) -> Result<(), Error> {
        match self {
            AnyObject::Bot(o) => o.unlock(),
            AnyObject::Shelf(o) => o.unlock(),
            AnyObject::Site(o) => o.unlock(),
            AnyObject::Test(o) => o.unlock(),
        }
    }

    fn render(&self) -> Result<String, Error> {
        match self {
            AnyObject::Bot(o) => o.render(),
            AnyObject::Shelf(o) => o.render(),
            AnyObject::Site(o) => o.render(),
            AnyObject::Test(o) => o.render(),
        }
    }
}

} // verus!
