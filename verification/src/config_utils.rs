//! The configuration: the known strip controllers by name, and the macros
//! that drive them.
use vstd::prelude::*;

verus! {

/// Where a strip controller is found and how its channels are ordered.
#[derive(Debug)]
pub struct StripConfig {
    pub ip: String,
    pub port: u16,
    pub friendly_name: String,
    pub is_rgbw: bool,
}

impl Clone for StripConfig {
    fn clone(&self) -> (copy: Self)
        ensures
            copy == *self,
    {
        StripConfig {
            ip: self.ip.clone(),
            port: self.port,
            friendly_name: self.friendly_name.clone(),
            is_rgbw: self.is_rgbw,
        }
    }
}

/// A named list of actions, each a controller name and a command text.
#[derive(Debug)]
pub struct MacroConfig {
    pub name: String,
    pub actions: Vec<(String, String)>,
}

/// Two macro configurations hold the same name and the same actions.
pub open spec fn same_macro(a: MacroConfig, b: MacroConfig) -> bool {
    a.name == b.name && a.actions@ == b.actions@
}

/// Copies a list of pairs of strings.
fn clone_pairs(pairs: &Vec<(String, String)>) -> (copy: Vec<(String, String)>)
    ensures
        copy@ == pairs@,
{
    let mut copy: Vec<(String, String)> = Vec::new();
    let mut i: usize = 0;
    while i < pairs.len()
        invariant
            i <= pairs@.len(),
            copy@ == pairs@.take(i as int),
        decreases pairs@.len() - i,
    {
        let a = pairs[i].0.clone();
        let b = pairs[i].1.clone();
        copy.push((a, b));
        assert(copy@ =~= pairs@.take(i + 1));
        i = i + 1;
    }
    assert(pairs@.take(pairs@.len() as int) =~= pairs@);
    copy
}

impl MacroConfig {
    /// A copy of this macro configuration.
    pub fn duplicate(&self) -> (copy: MacroConfig)
        ensures
            same_macro(copy, *self),
    {
        MacroConfig { name: self.name.clone(), actions: clone_pairs(&self.actions) }
    }
}

/// No two entries carry the same name.
pub open spec fn keys_unique(entries: Seq<(String, StripConfig)>) -> bool {
    forall|i: int, j: int|
        0 <= i < entries.len() && 0 <= j < entries.len() && i != j ==> #[trigger] entries[i].0@
            != #[trigger] entries[j].0@
}

/// The map from names to configurations that a list of entries with
/// distinct names stands for.
pub open spec fn table_map(entries: Seq<(String, StripConfig)>) -> Map<Seq<char>, StripConfig> {
    Map::new(
        |k: Seq<char>| exists|i: int| 0 <= i < entries.len() && #[trigger] entries[i].0@ == k,
        |k: Seq<char>|
            entries[choose|i: int| 0 <= i < entries.len() && #[trigger] entries[i].0@ == k].1,
    )
}

/// An entry of a list with distinct names is what the map holds for its
/// name.
pub proof fn lemma_table_entry(entries: Seq<(String, StripConfig)>, i: int)
    requires
        keys_unique(entries),
        0 <= i < entries.len(),
    ensures
        table_map(entries).contains_key(entries[i].0@),
        table_map(entries)[entries[i].0@] == entries[i].1,
{
    let k = entries[i].0@;
    assert(exists|j: int| 0 <= j < entries.len() && #[trigger] entries[j].0@ == k);
    let j = choose|j: int| 0 <= j < entries.len() && #[trigger] entries[j].0@ == k;
    assert(j == i);
}

/// The controllers known by name. Names are distinct, as the keys of a map.
#[derive(Debug)]
pub struct ControllerTable {
    entries: Vec<(String, StripConfig)>,
}

impl ControllerTable {
    #[verifier::type_invariant]
    spec fn names_distinct(&self) -> bool {
        keys_unique(self.entries@)
    }

    /// The entries, in the order in which their names were first inserted.
    pub closed spec fn entries_view(&self) -> Seq<(String, StripConfig)> {
        self.entries@
    }
}

impl View for ControllerTable {
    type V = Map<Seq<char>, StripConfig>;

    closed spec fn view(&self) -> Map<Seq<char>, StripConfig> {
        table_map(self.entries@)
    }
}

impl ControllerTable {
    /// A table with no controllers.
    pub fn new() -> (table: ControllerTable)
        ensures
            table@ == Map::<Seq<char>, StripConfig>::empty(),
    {
        let table = ControllerTable { entries: Vec::new() };
        assert(table@ =~= Map::<Seq<char>, StripConfig>::empty());
        table
    }

    /// The position of the entry named `name`, if there is one.
    fn position(&self, name: &String) -> (pos: Option<usize>)
        ensures
            match pos {
                Some(i) => i < self.entries@.len() && self.entries@[i as int].0@ == name@,
                None => forall|i: int|
                    0 <= i < self.entries@.len() ==> #[trigger] self.entries@[i].0@ != name@,
            },
    {
        let mut i: usize = 0;
        while i < self.entries.len()
            invariant
                i <= self.entries@.len(),
                forall|j: int| 0 <= j < i ==> #[trigger] self.entries@[j].0@ != name@,
            decreases self.entries@.len() - i,
        {
            if self.entries[i].0 == *name {
                return Some(i);
            }
            i = i + 1;
        }
        None
    }

    /// The configuration of the controller named `name`.
    pub fn get(&self, name: &String) -> (found: Option<&StripConfig>)
        ensures
            match found {
                Some(config) => self@.contains_key(name@) && *config == self@[name@],
                None => !self@.contains_key(name@),
            },
    {
        proof {
            use_type_invariant(self);
        }
        match self.position(name) {
            Some(i) => {
                proof {
                    lemma_table_entry(self.entries@, i as int);
                }
                Some(&self.entries[i].1)
            },
            None => None,
        }
    }

    /// How many controllers the table holds.
    pub fn len(&self) -> (n: usize)
        ensures
            n == self.entries_view().len(),
            keys_unique(self.entries_view()),
            self@ == table_map(self.entries_view()),
    {
        proof {
            use_type_invariant(self);
        }
        self.entries.len()
    }

    /// The entry at position `i`, in the order of `entries_view`.
    pub fn entry(&self, i: usize) -> (entry: &(String, StripConfig))
        requires
            i < self.entries_view().len(),
        ensures
            *entry == self.entries_view()[i as int],
            self@.contains_key(entry.0@),
            self@[entry.0@] == entry.1,
    {
        proof {
            use_type_invariant(self);
            lemma_table_entry(self.entries@, i as int);
        }
        &self.entries[i]
    }

    /// Sets the configuration of the controller named `name`, replacing the
    /// one it had.
    pub fn insert(&mut self, name: String, config: StripConfig)
        ensures
            final(self)@ == old(self)@.insert(name@, config),
    {
        proof {
            use_type_invariant(&*self);
        }
        let ghost old_entries = self.entries@;
        let ghost key = name@;
        let found = self.position(&name);
        let mut entries: Vec<(String, StripConfig)> = Vec::new();
        std::mem::swap(&mut entries, &mut self.entries);
        match found {
            Some(i) => {
                entries.set(i, (name, config));
                proof {
                    assert(keys_unique(entries@));
                    lemma_update_view(old_entries, entries@, i as int, key, config);
                }
            },
            None => {
                entries.push((name, config));
                proof {
                    assert(keys_unique(entries@));
                    lemma_push_view(old_entries, entries@, key, config);
                }
            },
        }
        self.entries = entries;
    }



    /// Forgets the controller named `name`; a table without it is unchanged.
    pub fn remove(&mut self, name: &String)
        ensures
            final(self)@ == old(self)@.remove(name@),
    {
        proof {
            use_type_invariant(&*self);
        }
        let ghost old_entries = self.entries@;
        let found = self.position(name);
        let mut entries: Vec<(String, StripConfig)> = Vec::new();
        std::mem::swap(&mut entries, &mut self.entries);
        match found {
            Some(i) => {
                entries.remove(i);
                proof {
                    let s = entries@;
                    assert(s == old_entries.remove(i as int));
                    assert(keys_unique(s)) by {
                        assert forall|a: int, b: int|
                            0 <= a < s.len() && 0 <= b < s.len() && a != b implies #[trigger] s[a].0@
                            != #[trigger] s[b].0@ by {
                            let oa = if a < i { a } else { a + 1 };
                            let ob = if b < i { b } else { b + 1 };
                            assert(s[a] == old_entries[oa]);
                            assert(s[b] == old_entries[ob]);
                        }
                    }
                    lemma_remove_view(old_entries, s, i as int, name@);
                }
            },
            None => {
                proof {
                    assert(!table_map(old_entries).contains_key(name@));
                    assert(table_map(old_entries).remove(name@) =~= table_map(old_entries));
                }
            },
        }
        self.entries = entries;
    }

    /// A copy of the table.
    pub fn duplicate(&self) -> (copy: ControllerTable)
        ensures
            copy@ == self@,
            copy.entries_view() == self.entries_view(),
    {
        proof {
            use_type_invariant(self);
        }
        let mut entries: Vec<(String, StripConfig)> = Vec::new();
        let mut i: usize = 0;
        while i < self.entries.len()
            invariant
                i <= self.entries@.len(),
                entries@ == self.entries@.take(i as int),
            decreases self.entries@.len() - i,
        {
            let name = self.entries[i].0.clone();
            let config = self.entries[i].1.clone();
            entries.push((name, config));
            assert(entries@ =~= self.entries@.take(i + 1));
            i = i + 1;
        }
        assert(self.entries@.take(self.entries@.len() as int) =~= self.entries@);
        ControllerTable { entries }
    }
}

proof fn lemma_update_view(
    old_entries: Seq<(String, StripConfig)>,
    s: Seq<(String, StripConfig)>,
    i: int,
    key: Seq<char>,
    config: StripConfig,
)
    requires
        keys_unique(old_entries),
        keys_unique(s),
        0 <= i < old_entries.len(),
        old_entries[i].0@ == key,
        s.len() == old_entries.len(),
        s[i].0@ == key,
        s[i].1 == config,
        forall|j: int| 0 <= j < old_entries.len() && j != i ==> s[j] == old_entries[j],
    ensures
        table_map(s) == table_map(old_entries).insert(key, config),
{
    let m = table_map(s);
    let expected = table_map(old_entries).insert(key, config);
    assert forall|k: Seq<char>| m.contains_key(k) <==> expected.contains_key(k) by {
        if m.contains_key(k) {
            let j = choose|j: int| 0 <= j < s.len() && #[trigger] s[j].0@ == k;
            if j != i {
                lemma_table_entry(old_entries, j);
            }
        }
        if expected.contains_key(k) && k != key {
            let j = choose|j: int| 0 <= j < old_entries.len() && #[trigger] old_entries[j].0@ == k;
            assert(s[j].0@ == k);
        }
        if k == key {
            lemma_table_entry(s, i);
        }
    }
    assert forall|k: Seq<char>| m.contains_key(k) implies m[k] == expected[k] by {
        let j = choose|j: int| 0 <= j < s.len() && #[trigger] s[j].0@ == k;
        lemma_table_entry(s, j);
        if j != i {
            lemma_table_entry(old_entries, j);
        }
    }
    assert(m =~= expected);
}

proof fn lemma_push_view(
    old_entries: Seq<(String, StripConfig)>,
    s: Seq<(String, StripConfig)>,
    key: Seq<char>,
    config: StripConfig,
)
    requires
        keys_unique(old_entries),
        keys_unique(s),
        s.len() == old_entries.len() + 1,
        s.last().0@ == key,
        s.last().1 == config,
        forall|j: int| 0 <= j < old_entries.len() ==> s[j] == old_entries[j],
    ensures
        table_map(s) == table_map(old_entries).insert(key, config),
{
    let n = old_entries.len() as int;
    let m = table_map(s);
    let expected = table_map(old_entries).insert(key, config);
    assert forall|k: Seq<char>| m.contains_key(k) <==> expected.contains_key(k) by {
        if m.contains_key(k) {
            let j = choose|j: int| 0 <= j < s.len() && #[trigger] s[j].0@ == k;
            if j != n {
                lemma_table_entry(old_entries, j);
            }
        }
        if expected.contains_key(k) && k != key {
            let j = choose|j: int| 0 <= j < old_entries.len() && #[trigger] old_entries[j].0@ == k;
            assert(s[j].0@ == k);
        }
        if k == key {
            lemma_table_entry(s, n);
        }
    }
    assert forall|k: Seq<char>| m.contains_key(k) implies m[k] == expected[k] by {
        let j = choose|j: int| 0 <= j < s.len() && #[trigger] s[j].0@ == k;
        lemma_table_entry(s, j);
        if j != n {
            lemma_table_entry(old_entries, j);
        }
    }
    assert(m =~= expected);
}

/// Removing the entry at `i` from a list with distinct names removes its
/// name from the map.
proof fn lemma_remove_view(
    old_entries: Seq<(String, StripConfig)>,
    s: Seq<(String, StripConfig)>,
    i: int,
    key: Seq<char>,
)
    requires
        keys_unique(old_entries),
        keys_unique(s),
        0 <= i < old_entries.len(),
        old_entries[i].0@ == key,
        s == old_entries.remove(i),
    ensures
        table_map(s) == table_map(old_entries).remove(key),
{
    let m = table_map(s);
    let expected = table_map(old_entries).remove(key);
    assert forall|k: Seq<char>| m.contains_key(k) <==> expected.contains_key(k) by {
        if m.contains_key(k) {
            let j = choose|j: int| 0 <= j < s.len() && #[trigger] s[j].0@ == k;
            let oj = if j < i { j } else { j + 1 };
            assert(s[j] == old_entries[oj]);
            lemma_table_entry(old_entries, oj);
        }
        if expected.contains_key(k) {
            let j = choose|j: int| 0 <= j < old_entries.len() && #[trigger] old_entries[j].0@ == k;
            assert(j != i);
            let sj = if j < i { j } else { j - 1 };
            assert(s[sj] == old_entries[j]);
        }
    }
    assert forall|k: Seq<char>| m.contains_key(k) implies m[k] == expected[k] by {
        let j = choose|j: int| 0 <= j < s.len() && #[trigger] s[j].0@ == k;
        lemma_table_entry(s, j);
        let oj = if j < i { j } else { j + 1 };
        assert(s[j] == old_entries[oj]);
        lemma_table_entry(old_entries, oj);
    }
    assert(m =~= expected);
}

/// The whole configuration of the program.
#[derive(Debug)]
pub struct Config {
    pub controllers: ControllerTable,
    pub macros: Vec<MacroConfig>,
}

impl Config {
    /// Registers the controller `name`, replacing any of that name.
    pub fn add_controller(
        &mut self,
        name: &String,
        friendly_name: &String,
        ip: &String,
        port: &u16,
        is_rgbw: &bool,
    )
        ensures
            final(self).controllers@ == old(self).controllers@.insert(
                name@,
                StripConfig {
                    ip: *ip,
                    port: *port,
                    friendly_name: *friendly_name,
                    is_rgbw: *is_rgbw,
                },
            ),
            final(self).macros == old(self).macros,
    {
        self.controllers.insert(
            name.clone(),
            StripConfig {
                friendly_name: friendly_name.clone(),
                ip: ip.clone(),
                port: *port,
                is_rgbw: *is_rgbw,
            },
        );
    }

    /// Forgets the controller `name`.
    pub fn remove_controller(&mut self, name: String)
        ensures
            final(self).controllers@ == old(self).controllers@.remove(name@),
            final(self).macros == old(self).macros,
    {
        self.controllers.remove(&name);
    }
}

/// Copies a list of macro configurations.
fn duplicate_macros(macros: &Vec<MacroConfig>) -> (copy: Vec<MacroConfig>)
    ensures
        copy@.len() == macros@.len(),
        forall|i: int| 0 <= i < macros@.len() ==> same_macro(#[trigger] copy@[i], macros@[i]),
{
    let mut copy: Vec<MacroConfig> = Vec::new();
    let mut i: usize = 0;
    while i < macros.len()
        invariant
            i <= macros@.len(),
            copy@.len() == i,
            forall|j: int| 0 <= j < i ==> same_macro(#[trigger] copy@[j], macros@[j]),
        decreases macros@.len() - i,
    {
        copy.push(macros[i].duplicate());
        i = i + 1;
    }
    copy
}

/// Read access to a configuration: a copy of the whole of it, of its
/// macros or of its controllers.
pub trait Read {
    fn read(&self) -> Config;

    fn read_macros(&self) -> Vec<MacroConfig>;

    fn read_controllers(&self) -> ControllerTable;
}

impl Read for Config {
    fn read(&self) -> (copy: Config)
        ensures
            copy.controllers@ == self.controllers@,
            copy.controllers.entries_view() == self.controllers.entries_view(),
            copy.macros@.len() == self.macros@.len(),
            forall|i: int|
                0 <= i < self.macros@.len() ==> same_macro(#[trigger] copy.macros@[i], self.macros@[i]),
    {
        Config { controllers: self.controllers.duplicate(), macros: duplicate_macros(&self.macros) }
    }

    fn read_macros(&self) -> (copy: Vec<MacroConfig>)
        ensures
            copy@.len() == self.macros@.len(),
            forall|i: int|
                0 <= i < self.macros@.len() ==> same_macro(#[trigger] copy@[i], self.macros@[i]),
    {
        duplicate_macros(&self.macros)
    }

    fn read_controllers(&self) -> (copy: ControllerTable)
        ensures
            copy@ == self.controllers@,
            copy.entries_view() == self.controllers.entries_view(),
    {
        self.controllers.duplicate()
    }
}


/// Reading a controller after registering it gives what was registered,
/// and registering it leaves every other controller as it was.
pub proof fn law_read_after_add(
    controllers: Map<Seq<char>, StripConfig>,
    name: Seq<char>,
    config: StripConfig,
    other: Seq<char>,
)
    ensures
        controllers.insert(name, config).contains_key(name),
        controllers.insert(name, config)[name] == config,
        other != name ==> (controllers.insert(name, config).contains_key(other)
            == controllers.contains_key(other)),
        other != name && controllers.contains_key(other) ==> controllers.insert(name, config)[other]
            == controllers[other],
{
}

/// Removing a controller right after registering it leaves the table as
/// removing it alone would: no trace of the registration remains.
pub proof fn law_remove_undoes_add(
    controllers: Map<Seq<char>, StripConfig>,
    name: Seq<char>,
    config: StripConfig,
)
    ensures
        controllers.insert(name, config).remove(name) == controllers.remove(name),
        !controllers.contains_key(name) ==> controllers.insert(name, config).remove(name)
            == controllers,
{
    assert(controllers.insert(name, config).remove(name) =~= controllers.remove(name));
    if !controllers.contains_key(name) {
        assert(controllers.remove(name) =~= controllers);
    }
}

/// A removed controller is no longer found, and removing one that is not
/// there changes nothing.
pub proof fn law_remove_forgets(controllers: Map<Seq<char>, StripConfig>, name: Seq<char>)
    ensures
        !controllers.remove(name).contains_key(name),
        !controllers.contains_key(name) ==> controllers.remove(name) == controllers,
{
    if !controllers.contains_key(name) {
        assert(controllers.remove(name) =~= controllers);
    }
}

/// Registering the same controller twice is the same as registering it
/// once; of two registrations under one name the later wins.
pub proof fn law_add_overwrites(
    controllers: Map<Seq<char>, StripConfig>,
    name: Seq<char>,
    first: StripConfig,
    second: StripConfig,
)
    ensures
        controllers.insert(name, first).insert(name, second) == controllers.insert(name, second),
{
    assert(controllers.insert(name, first).insert(name, second) =~= controllers.insert(
        name,
        second,
    ));
}

} // verus!
