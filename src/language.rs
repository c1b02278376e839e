//! Language packs: the heading texts of the report, looked up by key in the
//! active pack with a fallback to the default pack.
use vstd::prelude::*;
use vstd::string::StringExecFns;

verus! {

/// The entries of a JSON text whose top level is an object, in order, each
/// value in its display form; nothing for any other text.
pub uninterp spec fn json_object_entries(text: Seq<char>) -> Option<Seq<(Seq<char>, Seq<char>)>>;

/// The key and value texts of a list of entries.
pub open spec fn entry_views(v: Seq<(String, String)>) -> Seq<(Seq<char>, Seq<char>)> {
    v.map_values(|p: (String, String)| (p.0@, p.1@))
}

/// Relies on `json::parse` and on iterating a `json::object::Object`: an
/// object text gives its entries in order, with values shown as
/// `JsonValue`'s `Display` shows them; a text that does not parse, or parses
/// to something other than an object, gives none.
#[verifier::external_body]
fn parse_object_entries(text: &str) -> (r: Option<Vec<(String, String)>>)
    ensures
        match r {
            Some(v) => json_object_entries(text@) == Some(entry_views(v@)),
            None => json_object_entries(text@) is None,
        },
{
    match json::parse(text) {
        Ok(json::JsonValue::Object(object)) => Some(
            object.iter().map(|(k, v)| (k.to_string(), v.to_string())).collect(),
        ),
        _ => None,
    }
}

/// The value of the first entry under `key`.
pub open spec fn first_value(entries: Seq<(Seq<char>, Seq<char>)>, key: Seq<char>) -> Option<Seq<char>>
    decreases entries.len(),
{
    if entries.len() == 0 {
        None
    } else if entries[0].0 == key {
        Some(entries[0].1)
    } else {
        first_value(entries.drop_first(), key)
    }
}

/// One language pack: heading texts by key.
#[derive(Clone, Debug)]
pub struct LanguagePack {
    pub entries: Vec<(String, String)>,
}

impl LanguagePack {
    pub open spec fn value_of(self, key: Seq<char>) -> Option<Seq<char>> {
        first_value(entry_views(self.entries@), key)
    }

    pub fn new() -> (r: Self)
        ensures
            r.entries@.len() == 0,
    {
        LanguagePack { entries: Vec::new() }
    }

    /// Takes the entries of a pack's JSON text. A text that is not a JSON
    /// object leaves the pack empty and is reported by `false`.
    pub fn load_language_pack(&mut self, content: &str) -> (ok: bool)
        ensures
            ok == json_object_entries(content@) is Some,
            ok ==> json_object_entries(content@) == Some(entry_views(final(self).entries@)),
            !ok ==> final(self).entries@.len() == 0,
    {
        match parse_object_entries(content) {
            Some(entries) => {
                self.entries = entries;
                true
            },
            None => {
                self.entries = Vec::new();
                false
            },
        }
    }

    /// The text under `key`, if the pack has one.
    pub fn get_value(&self, key: &str) -> (r: Option<String>)
        ensures
            match r {
                Some(s) => self.value_of(key@) == Some(s@),
                None => self.value_of(key@) is None,
            },
    {
        let ghost all = entry_views(self.entries@);
        let wanted = String::from_str(key);
        let mut i: usize = 0;
        assert(all.skip(0) =~= all);
        while i < self.entries.len()
            invariant
                i <= self.entries.len(),
                wanted@ == key@,
                all == entry_views(self.entries@),
                first_value(all, key@) == first_value(all.skip(i as int), key@),
            decreases self.entries.len() - i,
        {
            let ghost rest = all.skip(i as int);
            assert(rest[0] == (self.entries@[i as int].0@, self.entries@[i as int].1@));
            assert(rest.drop_first() =~= all.skip(i + 1));
            if self.entries[i].0 == wanted {
                return Some(self.entries[i].1.clone());
            }
            i = i + 1;
        }
        assert(all.skip(i as int).len() == 0);
        None
    }
}

/// The name of the pack that every lookup falls back to.
pub open spec fn default_pack_name() -> Seq<char> {
    seq!['D', 'E', 'F', 'A', 'U', 'L', 'T']
}

/// The first pack named `name`.
pub open spec fn pack_named(packs: Seq<(String, LanguagePack)>, name: Seq<char>) -> Option<LanguagePack>
    decreases packs.len(),
{
    if packs.len() == 0 {
        None
    } else if packs[0].0@ == name {
        Some(packs[0].1)
    } else {
        pack_named(packs.drop_first(), name)
    }
}

/// The text under `key` in the pack named `name`, if there are both.
pub open spec fn value_in(packs: Seq<(String, LanguagePack)>, name: Seq<char>, key: Seq<char>) -> Option<Seq<char>> {
    match pack_named(packs, name) {
        Some(p) => p.value_of(key),
        None => None,
    }
}

/// The loaded packs and the name of the active one.
#[derive(Clone, Debug)]
pub struct Config {
    pub active_language_pack: String,
    pub languages_pack: Vec<(String, LanguagePack)>,
}

impl Config {
    /// No two packs share a name.
    pub open spec fn wf(self) -> bool {
        forall|i: int, j: int|
            0 <= i < j < self.languages_pack.len() ==> #[trigger] self.languages_pack@[i].0@
                != #[trigger] self.languages_pack@[j].0@
    }

    /// The text of `key`: from the active pack, else from the default pack,
    /// else `null`.
    pub open spec fn field(self, key: Seq<char>) -> Seq<char> {
        let active = value_in(self.languages_pack@, self.active_language_pack@, key);
        let chosen = if active is None && self.active_language_pack@ != default_pack_name() {
            value_in(self.languages_pack@, default_pack_name(), key)
        } else {
            active
        };
        match chosen {
            Some(t) => t,
            None => seq!['n', 'u', 'l', 'l'],
        }
    }

    /// A configuration with the default pack alone, active.
    pub fn new(default: LanguagePack) -> (r: Self)
        ensures
            r.active_language_pack@ == default_pack_name(),
            r.languages_pack@.len() == 1,
            r.languages_pack@[0].0@ == default_pack_name(),
            r.languages_pack@[0].1 == default,
            r.wf(),
    {
        proof {
            reveal_strlit("DEFAULT");
        }
        let mut languages_pack: Vec<(String, LanguagePack)> = Vec::new();
        languages_pack.push((String::from_str("DEFAULT"), default));
        Config { active_language_pack: String::from_str("DEFAULT"), languages_pack }
    }

    /// Adds a pack under a name that no pack bears yet; a name already in use
    /// leaves the packs as they are and is reported by `false`.
    pub fn add_language_pack(&mut self, name: String, pack: LanguagePack) -> (added: bool)
        requires
            old(self).wf(),
        ensures
            final(self).wf(),
            final(self).active_language_pack == old(self).active_language_pack,
            added == forall|k: int| 0 <= k < old(self).languages_pack.len()
                ==> #[trigger] old(self).languages_pack@[k].0@ != name@,
            added ==> final(self).languages_pack@ == old(self).languages_pack@.push((name, pack)),
            !added ==> final(self).languages_pack@ == old(self).languages_pack@,
    {
        let mut i: usize = 0;
        while i < self.languages_pack.len()
            invariant
                i <= self.languages_pack.len(),
                self.languages_pack@ == old(self).languages_pack@,
                self.active_language_pack == old(self).active_language_pack,
                old(self).wf(),
                forall|k: int| 0 <= k < i ==> #[trigger] self.languages_pack@[k].0@ != name@,
            decreases self.languages_pack.len() - i,
        {
            if self.languages_pack[i].0 == name {
                return false;
            }
            i = i + 1;
        }
        self.languages_pack.push((name, pack));
        true
    }

    fn find_value(&self, name: &String, key: &str) -> (r: Option<String>)
        ensures
            match r {
                Some(s) => value_in(self.languages_pack@, name@, key@) == Some(s@),
                None => value_in(self.languages_pack@, name@, key@) is None,
            },
    {
        let ghost all = self.languages_pack@;
        let mut i: usize = 0;
        assert(all.skip(0) =~= all);
        while i < self.languages_pack.len()
            invariant
                i <= self.languages_pack.len(),
                all == self.languages_pack@,
                pack_named(all, name@) == pack_named(all.skip(i as int), name@),
            decreases self.languages_pack.len() - i,
        {
            let ghost rest = all.skip(i as int);
            assert(rest[0] == all[i as int]);
            assert(rest.drop_first() =~= all.skip(i + 1));
            if self.languages_pack[i].0 == *name {
                return self.languages_pack[i].1.get_value(key);
            }
            i = i + 1;
        }
        assert(all.skip(i as int).len() == 0);
        None
    }

    /// The text of `key` in the active pack, falling back to the default pack.
    pub fn get_field(&self, key: &str) -> (r: String)
        ensures
            r@ == self.field(key@),
    {
        proof {
            reveal_strlit("DEFAULT");
            reveal_strlit("null");
        }
        let default_name = String::from_str("DEFAULT");
        assert(default_name@ =~= default_pack_name());
        let mut value = self.find_value(&self.active_language_pack, key);
        if value.is_none() && !(self.active_language_pack == default_name) {
            value = self.find_value(&default_name, key);
        }
        match value {
            Some(t) => t,
            None => {
                let null = String::from_str("null");
                assert(null@ =~= seq!['n', 'u', 'l', 'l']);
                null
            },
        }
    }
}

} // verus!
