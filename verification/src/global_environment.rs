//! The table of global variables: a string-keyed store seeded with the
//! runtime library, viewed in contracts as a `Map` from key bytes to
//! value models.

use vstd::prelude::*;
use vstd::map::*;

use vstd::utf8::encode_utf8;

use crate::object::{bytes_eq, clone_bytes, RuntimeFunction, Value, ValueModel};
use crate::text::{push_bytes, push_slice};

verus! {

#[derive(Debug)]
pub enum EnvironmentError {
    GlobalNotFound { sym: Vec<u8> },
}

/// The key a missing-global error reports.
pub open spec fn env_err_key(e: &EnvironmentError) -> Seq<u8> {
    match e {
        EnvironmentError::GlobalNotFound { sym } => sym@,
    }
}

/// The diagnostic text of an environment error.
pub open spec fn environment_error_text(e: &EnvironmentError) -> Seq<u8> {
    encode_utf8("Symbol "@) + env_err_key(e) + encode_utf8(" not found"@)
}

impl EnvironmentError {
    /// The diagnostic text of this error.
    pub fn message(&self) -> (r: Vec<u8>)
        ensures
            r@ == environment_error_text(self),
    {
        let mut out: Vec<u8> = Vec::new();
        push_slice(&mut out, "Symbol ".as_bytes());
        match self {
            EnvironmentError::GlobalNotFound { sym } => {
                push_bytes(&mut out, sym);
            },
        }
        push_slice(&mut out, " not found".as_bytes());
        proof {
            assert(out@ =~= environment_error_text(self));
        }
        out
    }
}

/// The global round trip: after a global is bound to a value, reading
/// the same name back yields exactly that value, whatever the
/// environment held before.  Binding is what a SetGlobal instruction
/// does to the environment's map, and reading is what a GetGlobal
/// instruction loads from it.
pub proof fn lemma_global_roundtrip(env: Map<Seq<u8>, ValueModel>, name: Seq<u8>, v: ValueModel)
    ensures
        env.insert(name, v).contains_key(name),
        env.insert(name, v)[name] == v,
{
}

/// The key under which the runtime library's output function is seeded.
pub open spec fn print_key() -> Seq<u8> {
    seq![0x70u8, 0x72u8, 0x69u8, 0x6eu8, 0x74u8]
}

pub struct GlobalEnvironment {
    entries: Vec<(Vec<u8>, Value)>,
}

/// The mapping an entry list denotes; a later entry would shadow an
/// earlier one, though the store keeps keys unique.
pub closed spec fn entries_map(s: Seq<(Vec<u8>, Value)>) -> Map<Seq<u8>, ValueModel>
    decreases s.len(),
{
    if s.len() == 0 {
        Map::empty()
    } else {
        entries_map(s.drop_last()).insert(s.last().0@, s.last().1@)
    }
}

proof fn lemma_entries_map_index(s: Seq<(Vec<u8>, Value)>, i: int)
    requires
        0 <= i < s.len(),
        forall|j: int| i < j < s.len() ==> s[j].0@ != s[i].0@,
    ensures
        entries_map(s).contains_key(s[i].0@),
        entries_map(s)[s[i].0@] == s[i].1@,
    decreases s.len(),
{
    if i == s.len() - 1 {
    } else {
        lemma_entries_map_index(s.drop_last(), i);
    }
}

proof fn lemma_entries_map_absent(s: Seq<(Vec<u8>, Value)>, k: Seq<u8>)
    requires
        forall|j: int| 0 <= j < s.len() ==> s[j].0@ != k,
    ensures
        !entries_map(s).contains_key(k),
    decreases s.len(),
{
    if s.len() > 0 {
        lemma_entries_map_absent(s.drop_last(), k);
    }
}

proof fn lemma_entries_map_update(s: Seq<(Vec<u8>, Value)>, i: int, t: (Vec<u8>, Value))
    requires
        0 <= i < s.len(),
        t.0@ == s[i].0@,
        forall|p: int, q: int| 0 <= p < q < s.len() ==> s[p].0@ != s[q].0@,
    ensures
        entries_map(s.update(i, t)) == entries_map(s).insert(t.0@, t.1@),
    decreases s.len(),
{
    if i == s.len() - 1 {
        assert(s.update(i, t).drop_last() =~= s.drop_last());
        assert(entries_map(s.update(i, t)) =~= entries_map(s).insert(t.0@, t.1@));
    } else {
        lemma_entries_map_update(s.drop_last(), i, t);
        assert(s.update(i, t).drop_last() =~= s.drop_last().update(i, t));
        assert(s.update(i, t).last() == s.last());
        assert(s.last().0@ != t.0@);
        assert(entries_map(s.update(i, t)) =~= entries_map(s).insert(t.0@, t.1@));
    }
}

impl View for GlobalEnvironment {
    type V = Map<Seq<u8>, ValueModel>;

    closed spec fn view(&self) -> Map<Seq<u8>, ValueModel> {
        entries_map(self.entries@)
    }
}

impl GlobalEnvironment {
    /// Keys are pairwise distinct.
    pub closed spec fn wf(&self) -> bool {
        forall|p: int, q: int|
            0 <= p < q < self.entries@.len() ==> self.entries@[p].0@ != self.entries@[q].0@
    }

    /// A fresh environment holding exactly the runtime library: the output
    /// function under the key `print`.
    pub fn new() -> (r: GlobalEnvironment)
        ensures
            r@ == Map::<Seq<u8>, ValueModel>::empty().insert(
                print_key(),
                ValueModel::RuntimeFunction(RuntimeFunction::Print),
            ),
            r.wf(),
    {
        let mut key: Vec<u8> = Vec::new();
        key.push(0x70u8);
        key.push(0x72u8);
        key.push(0x69u8);
        key.push(0x6eu8);
        key.push(0x74u8);
        proof {
            assert(key@ =~= print_key());
        }
        let mut entries: Vec<(Vec<u8>, Value)> = Vec::new();
        entries.push((key, Value::RuntimeFunction(RuntimeFunction::Print)));
        let r = GlobalEnvironment { entries };
        proof {
            assert(r.entries@.len() == 1);
            assert(r.entries@[0].0@ =~= print_key());
            assert(r.entries@.drop_last() =~= Seq::<(Vec<u8>, Value)>::empty());
            assert(entries_map(Seq::<(Vec<u8>, Value)>::empty()) == Map::<
                Seq<u8>,
                ValueModel,
            >::empty());
            assert(r.entries@.last().0@ == print_key());
            assert(r.entries@.last().1@ == ValueModel::RuntimeFunction(RuntimeFunction::Print));
            assert(entries_map(r.entries@) == entries_map(r.entries@.drop_last()).insert(
                r.entries@.last().0@,
                r.entries@.last().1@,
            ));
            assert(r@ =~= Map::<Seq<u8>, ValueModel>::empty().insert(
                print_key(),
                ValueModel::RuntimeFunction(RuntimeFunction::Print),
            ));
        }
        r
    }

    /// Binds `key` to `val`, replacing any existing binding.
    pub fn insert_global(&mut self, key: &Vec<u8>, val: Value)
        requires
            old(self).wf(),
        ensures
            final(self)@ == old(self)@.insert(key@, val@),
            final(self).wf(),
    {
        let n = self.entries.len();
        let mut i: usize = 0;
        while i < n
            invariant
                n == self.entries@.len(),
                i <= n,
                self.entries@ == old(self).entries@,
                old(self).wf(),
                forall|j: int| 0 <= j < i ==> self.entries@[j].0@ != key@,
            decreases n - i,
        {
            if bytes_eq(&self.entries[i].0, key) {
                let t = (clone_bytes(key), val);
                proof {
                    lemma_entries_map_update(self.entries@, i as int, t);
                }
                self.entries.set(i, t);
                proof {
                    assert(forall|p: int|
                        0 <= p < self.entries@.len() ==> self.entries@[p].0@ == old(
                            self,
                        ).entries@[p].0@);
                }
                return ;
            }
            i = i + 1;
        }
        proof {
            lemma_entries_map_absent(self.entries@, key@);
        }
        self.entries.push((clone_bytes(key), val));
        proof {
            assert(self.entries@.drop_last() =~= old(self).entries@);
            assert(forall|p: int|
                0 <= p < old(self).entries@.len() ==> self.entries@[p] == old(self).entries@[p]);
        }
    }

    /// Looks `key` up; a missing key is reported in the error.
    pub fn get_global(&self, key: &Vec<u8>) -> (r: Result<Value, EnvironmentError>)
        requires
            self.wf(),
        ensures
            match r {
                Ok(v) => self@.contains_key(key@) && v@ == self@[key@],
                Err(e) => !self@.contains_key(key@) && env_err_key(&e) == key@,
            },
    {
        let n = self.entries.len();
        let mut i: usize = 0;
        while i < n
            invariant
                n == self.entries@.len(),
                i <= n,
                self.wf(),
                forall|j: int| 0 <= j < i ==> self.entries@[j].0@ != key@,
            decreases n - i,
        {
            if bytes_eq(&self.entries[i].0, key) {
                proof {
                    lemma_entries_map_index(self.entries@, i as int);
                }
                return Ok(self.entries[i].1.clone());
            }
            i = i + 1;
        }
        proof {
            lemma_entries_map_absent(self.entries@, key@);
        }
        Err(EnvironmentError::GlobalNotFound { sym: clone_bytes(key) })
    }
}

} // verus!
