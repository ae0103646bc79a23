//! Devices by name.
use vstd::prelude::*;

verus! {

/// A device driver that can be found by name.
pub trait Device: Sized {
    /// The device after its start.
    spec fn started(self) -> Self;

    /// The name the driver goes by.
    fn name(&self) -> &'static str;

    /// What the driver is, for people.
    fn kind(&self) -> &'static str;

    /// Start the device; called once, when it can already be found.
    fn init(&mut self)
        ensures
            *final(self) == old(self).started(),
    ;
}

/// A device that may be of a certain type.
pub trait Narrow<T> {
    /// The device as that type, where it is of it.
    spec fn narrowed(self) -> Option<T>;

    fn downcast(&self) -> (narrow: Option<&T>)
        ensures
            match narrow {
                Some(device) => self.narrowed() == Some(*device),
                None => self.narrowed() is None,
            },
    ;
}

impl<D: Device> Narrow<D> for D {
    open spec fn narrowed(self) -> Option<D> {
        Some(self)
    }

    fn downcast(&self) -> (narrow: Option<&D>) {
        Some(self)
    }
}

/// A device under its name.
pub struct Entry<D> {
    pub name: String,
    pub device: D,
}

/// The place of the first entry with a name, or the number of entries.
pub open spec fn place_of<D>(entries: Seq<(Seq<char>, D)>, name: Seq<char>) -> int
    decreases entries.len(),
{
    if entries.len() == 0 || entries[0].0 == name {
        0
    } else {
        1 + place_of(entries.drop_first(), name)
    }
}

/// The entries with a device under a name: in its old place where the name is
/// known, else at the end.
pub open spec fn entered<D>(entries: Seq<(Seq<char>, D)>, name: Seq<char>, device: D) -> Seq<
    (Seq<char>, D),
> {
    let place = place_of(entries, name);
    if place < entries.len() {
        entries.update(place, (name, device))
    } else {
        entries.push((name, device))
    }
}

/// The device under a name.
pub open spec fn found<D>(entries: Seq<(Seq<char>, D)>, name: Seq<char>) -> Option<D> {
    let place = place_of(entries, name);
    if place < entries.len() {
        Some(entries[place].1)
    } else {
        None
    }
}

/// No name stands for two devices.
pub open spec fn names_differ<D>(entries: Seq<(Seq<char>, D)>) -> bool {
    forall|i: int, j: int|
        0 <= i < j < entries.len() ==> (#[trigger] entries[i]).0 != (#[trigger] entries[j]).0
}

proof fn lemma_place<D>(entries: Seq<(Seq<char>, D)>, name: Seq<char>)
    ensures
        0 <= place_of(entries, name) <= entries.len(),
        place_of(entries, name) < entries.len() ==> entries[place_of(entries, name)].0 == name,
        forall|i: int| 0 <= i < place_of(entries, name) ==> (#[trigger] entries[i]).0 != name,
    decreases entries.len(),
{
    if entries.len() > 0 && entries[0].0 != name {
        let rest = entries.drop_first();
        lemma_place(rest, name);
        assert forall|i: int| 0 <= i < place_of(entries, name) implies (
        #[trigger] entries[i]).0 != name by {
            if i > 0 {
                assert(entries[i] == rest[i - 1]);
            }
        }
    }
}

proof fn lemma_place_is<D>(entries: Seq<(Seq<char>, D)>, name: Seq<char>, place: int)
    requires
        0 <= place <= entries.len(),
        place < entries.len() ==> entries[place].0 == name,
        forall|i: int| 0 <= i < place ==> (#[trigger] entries[i]).0 != name,
    ensures
        place_of(entries, name) == place,
{
    lemma_place(entries, name);
    let first = place_of(entries, name);
    if first < place {
        assert(entries[first].0 != name);
    } else if place < first {
        assert(entries[place].0 != name);
    }
}

/// What is registered is what is found under its name.
pub proof fn lemma_registered_is_found<D>(
    entries: Seq<(Seq<char>, D)>,
    name: Seq<char>,
    device: D,
)
    ensures
        found(entered(entries, name, device), name) == Some(device),
{
    lemma_place(entries, name);
    lemma_place_is(entered(entries, name, device), name, place_of(entries, name));
}

/// A registration leaves every other name alone.
pub proof fn lemma_others_are_kept<D>(
    entries: Seq<(Seq<char>, D)>,
    name: Seq<char>,
    device: D,
    other: Seq<char>,
)
    requires
        other != name,
    ensures
        found(entered(entries, name, device), other) == found(entries, other),
{
    lemma_place(entries, name);
    lemma_place(entries, other);
    let after = entered(entries, name, device);
    let place = place_of(entries, other);
    if place < entries.len() {
        lemma_place_is(after, other, place);
    } else {
        lemma_place_is(after, other, after.len() as int);
    }
}

/// Names stay different, and names that are known stay in their order: a
/// registration adds its name at the end or not at all.
pub proof fn lemma_names_stay_different<D>(
    entries: Seq<(Seq<char>, D)>,
    name: Seq<char>,
    device: D,
)
    requires
        names_differ(entries),
    ensures
        names_differ(entered(entries, name, device)),
        forall|i: int|
            0 <= i < entries.len() ==> (#[trigger] entered(entries, name, device)[i]).0
                == entries[i].0,
        entered(entries, name, device).len() <= entries.len() + 1,
{
    lemma_place(entries, name);
}

/// Devices by name, in the order in which they came up.
pub struct DeviceRegistry<D> {
    pub entries: Vec<Entry<D>>,
}

impl<D> View for DeviceRegistry<D> {
    type V = Seq<(Seq<char>, D)>;

    open spec fn view(&self) -> Seq<(Seq<char>, D)> {
        self.entries@.map_values(|entry: Entry<D>| (entry.name@, entry.device))
    }
}

/// A device that was found.
pub struct DeviceRef<'a, D> {
    pub device: &'a D,
}

impl<'a, D: Device> DeviceRef<'a, D> {
    pub fn device(&self) -> (device: &'a D)
        ensures
            device == self.device,
    {
        self.device
    }

    /// The device as a certain type, where it is of it.
    pub fn downcast_ref<T>(&self) -> (narrow: Option<&'a T>) where D: Narrow<T>
        ensures
            match narrow {
                Some(device) => self.device.narrowed() == Some(*device),
                None => Narrow::<T>::narrowed(*self.device) is None,
            },
    {
        self.device.downcast()
    }
}

impl<D: Device> DeviceRegistry<D> {
    pub fn new() -> (registry: Self)
        ensures
            registry@ == Seq::<(Seq<char>, D)>::empty(),
            names_differ(registry@),
    {
        let registry = DeviceRegistry { entries: Vec::new() };
        assert(registry@ =~= Seq::<(Seq<char>, D)>::empty());
        registry
    }

    fn position(&self, name: &str) -> (place: usize)
        ensures
            place == place_of(self@, name@),
            place <= self.entries@.len(),
    {
        let wanted: String = name.to_owned();
        let mut i: usize = 0;
        while i < self.entries.len()
            invariant
                i <= self.entries@.len(),
                wanted@ == name@,
                forall|j: int| 0 <= j < i ==> (#[trigger] self@[j]).0 != name@,
            decreases self.entries@.len() - i,
        {
            assert(self@[i as int].0 == self.entries@[i as int].name@);
            if self.entries[i].name == wanted {
                proof {
                    lemma_place_is(self@, name@, i as int);
                }
                return i;
            }
            i = i + 1;
        }
        proof {
            lemma_place_is(self@, name@, i as int);
        }
        i
    }

    /// Enter a device under a name, then start it.  A device that had the name
    /// before gives its place up.
    pub fn register(&mut self, name: &str, device: D)
        ensures
            final(self)@ == entered(old(self)@, name@, device.started()),
            names_differ(old(self)@) ==> names_differ(final(self)@),
    {
        let place: usize = self.position(name);
        let entry = Entry { name: name.to_owned(), device };
        if place < self.entries.len() {
            self.entries.set(place, entry);
        } else {
            self.entries.push(entry);
        }
        self.entries[place].device.init();
        assert(self@ =~= entered(old(self)@, name@, device.started()));
        proof {
            if names_differ(old(self)@) {
                lemma_names_stay_different(old(self)@, name@, device.started());
            }
        }
    }

    /// The device under a name.
    pub fn lookup(&self, name: &str) -> (device: Option<DeviceRef<'_, D>>)
        ensures
            match device {
                Some(reference) => found(self@, name@) == Some(*reference.device),
                None => found(self@, name@) is None,
            },
    {
        let place: usize = self.position(name);
        if place < self.entries.len() {
            Some(DeviceRef { device: &self.entries[place].device })
        } else {
            None
        }
    }

    /// The device under a name, where it is of a certain type.
    pub fn lookup_as<T>(&self, name: &str) -> (narrow: Option<&T>) where D: Narrow<T>
        ensures
            match narrow {
                Some(device) => found(self@, name@) is Some && found(self@, name@)->0.narrowed()
                    == Some(*device),
                None => found(self@, name@) is None || Narrow::<T>::narrowed(
                    found(self@, name@)->0,
                ) is None,
            },
    {
        match self.lookup(name) {
            Some(reference) => reference.downcast_ref(),
            None => None,
        }
    }

    pub fn len(&self) -> (count: usize)
        ensures
            count == self@.len(),
    {
        self.entries.len()
    }

    pub fn is_empty(&self) -> (empty: bool)
        ensures
            empty == (self@.len() == 0),
    {
        self.entries.len() == 0
    }

    /// Whether a name is known.
    pub fn contains(&self, name: &str) -> (known: bool)
        ensures
            known == (found(self@, name@) is Some),
    {
        self.position(name) < self.entries.len()
    }

    /// All names, in the order in which they came up.
    pub fn names(&self) -> (names: Vec<String>)
        ensures
            names@.map_values(|name: String| name@) == self@.map_values(
                |entry: (Seq<char>, D)| entry.0,
            ),
    {
        let mut names: Vec<String> = Vec::new();
        let mut i: usize = 0;
        while i < self.entries.len()
            invariant
                i <= self.entries@.len(),
                names@.len() == i,
                forall|j: int| 0 <= j < i ==> (#[trigger] names@[j])@ == self.entries@[j].name@,
            decreases self.entries@.len() - i,
        {
            names.push(self.entries[i].name.clone());
            i = i + 1;
        }
        assert(names@.map_values(|name: String| name@) =~= self@.map_values(
            |entry: (Seq<char>, D)| entry.0,
        ));
        names
    }
}

impl<D: Device> Default for DeviceRegistry<D> {
    fn default() -> (registry: Self)
        ensures
            registry@ == Seq::<(Seq<char>, D)>::empty(),
            names_differ(registry@),
    {
        DeviceRegistry::new()
    }
}

/// Enter a device under a name, then start it.
pub fn register<D: Device>(registry: &mut DeviceRegistry<D>, name: &str, device: D)
    ensures
        final(registry)@ == entered(old(registry)@, name@, device.started()),
        names_differ(old(registry)@) ==> names_differ(final(registry)@),
{
    registry.register(name, device);
}

/// The device under a name.
pub fn lookup<'a, D: Device>(registry: &'a DeviceRegistry<D>, name: &str) -> (device: Option<
    DeviceRef<'a, D>,
>)
    ensures
        match device {
            Some(reference) => found(registry@, name@) == Some(*reference.device),
            None => found(registry@, name@) is None,
        },
{
    registry.lookup(name)
}

/// The device under a name, where it is of a certain type.
pub fn lookup_as<'a, T, D: Device + Narrow<T>>(
    registry: &'a DeviceRegistry<D>,
    name: &str,
) -> (narrow: Option<&'a T>)
    ensures
        match narrow {
            Some(device) => found(registry@, name@) is Some && found(
                registry@,
                name@,
            )->0.narrowed() == Some(*device),
            None => found(registry@, name@) is None || Narrow::<T>::narrowed(
                found(registry@, name@)->0,
            ) is None,
        },
{
    registry.lookup_as(name)
}

/// Whether a name is known.
pub fn contains<D: Device>(registry: &DeviceRegistry<D>, name: &str) -> (known: bool)
    ensures
        known == (found(registry@, name@) is Some),
{
    registry.contains(name)
}

/// All names, in the order in which they came up.
pub fn iter_names<D: Device>(registry: &DeviceRegistry<D>) -> (names: Vec<String>)
    ensures
        names@.map_values(|name: String| name@) == registry@.map_values(
            |entry: (Seq<char>, D)| entry.0,
        ),
{
    registry.names()
}

} // verus!
