//! The variables of a plugin.
use dashmap::DashMap;
use vstd::prelude::*;

verus! {

/// A concurrent hash map.
#[verifier::external_type_specification]
#[verifier::external_body]
#[verifier::reject_recursive_types(K)]
#[verifier::reject_recursive_types(V)]
#[verifier::reject_recursive_types(S)]
pub struct ExDashMap<K, V, S>(dashmap::DashMap<K, V, S>);

/// What a map of variables holds.
pub uninterp spec fn held_vars(vars: DashMap<String, Vec<u8>>) -> Map<Seq<char>, Seq<u8>>;

/// What is held when no variable is set.
pub open spec fn no_vars() -> Map<Seq<char>, Seq<u8>> {
    Map::empty()
}

/// No variables.
///
/// Calls `DashMap::new`, which makes an empty map.
#[verifier::external_body]
fn empty_vars() -> (result: DashMap<String, Vec<u8>>)
    ensures
        held_vars(result) == no_vars(),
{
    DashMap::new()
}

/// The value of a variable.
///
/// Calls `DashMap::get`, a look-up by key.
#[verifier::external_body]
fn look_up(vars: &DashMap<String, Vec<u8>>, key: &str) -> (result: Option<Vec<u8>>)
    ensures
        match held_vars(*vars).get(key@) {
            Some(value) => result matches Some(bytes) && bytes@ == value,
            None => result is None,
        },
{
    vars.get(key).map(|entry| entry.to_vec())
}

/// Sets a variable, in place of its former value.
///
/// Calls `DashMap::insert`.
#[verifier::external_body]
fn store_var(vars: &mut DashMap<String, Vec<u8>>, key: String, value: Vec<u8>)
    ensures
        held_vars(*final(vars)) == held_vars(*old(vars)).insert(key@, value@),
{
    vars.insert(key, value);
}

/// Removes a variable, if it is there.
///
/// Calls `DashMap::remove`.
#[verifier::external_body]
fn drop_var(vars: &mut DashMap<String, Vec<u8>>, key: &str)
    ensures
        held_vars(*final(vars)) == held_vars(*old(vars)).remove(key@),
{
    vars.remove(key);
}

/// Where the variables of a plugin are kept.
pub trait PluginVars: Send + Sync + 'static {
    fn get_var(&self, key: &str) -> Option<Vec<u8>>;

    fn set_var(&mut self, key: String, value: Vec<u8>);
}

/// Example implementation of the PluginVars trait.
/// It is empty by default and stores all variables in memory.
#[derive(Debug)]
pub struct InMemoryVars {
    vars: DashMap<String, Vec<u8>>,
}

impl View for InMemoryVars {
    type V = Map<Seq<char>, Seq<u8>>;

    closed spec fn view(&self) -> Map<Seq<char>, Seq<u8>> {
        held_vars(self.vars)
    }
}

impl Default for InMemoryVars {
    fn default() -> (result: Self)
        ensures
            result@ == no_vars(),
    {
        InMemoryVars { vars: empty_vars() }
    }
}

impl PluginVars for InMemoryVars {
    fn get_var(&self, key: &str) -> (result: Option<Vec<u8>>)
        ensures
            match self@.get(key@) {
                Some(value) => result matches Some(bytes) && bytes@ == value,
                None => result is None,
            },
    {
        look_up(&self.vars, key)
    }

    fn set_var(&mut self, key: String, value: Vec<u8>)
        ensures
            final(self)@ == old(self)@.insert(key@, value@),
    {
        store_var(&mut self.vars, key, value);
    }
}

impl InMemoryVars {
    /// Removes a variable, if it is there.
    pub fn remove_var(&mut self, key: &str)
        ensures
            final(self)@ == old(self)@.remove(key@),
    {
        drop_var(&mut self.vars, key);
    }
}

} // verus!
