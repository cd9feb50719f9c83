//! The credential store.
//!
//! Profiles are named by an identifier and kept as two environment-variable
//! assignments per profile, `LPU_USERNAME_<id>` and `LPU_PASSWORD_<id>`.
//! The store holds those assignments explicitly as a list of name/value
//! pairs; its mathematical view is the map from variable names to values
//! that the list induces, with a later assignment to the same name winning.

use vstd::prelude::*;
use vstd::string::StrSliceExecFns;
use vstd::string::StringExecFns;
use crate::strutil::is_prefix_of;
use crate::strutil::str_eq;
use crate::strutil::str_starts_with;

verus! {

/// One environment-variable assignment: a name and its value.
pub struct EnvVar {
    pub name: String,
    pub value: String,
}

/// A username/password pair resolved from the store.
pub struct Credential {
    pub username: String,
    pub password: String,
}

/// The condition `store` reports instead of overwriting a profile.
#[derive(Debug)]
pub enum StoreError {
    AlreadyExists,
}

/// The two shell `export` lines that persist one stored profile.
pub struct ExportLines {
    pub username_line: String,
    pub password_line: String,
}

/// Prefix of the variable that holds a profile's username.
pub open spec fn username_prefix() -> Seq<char> {
    "LPU_USERNAME_"@
}

/// Prefix of the variable that holds a profile's password.
pub open spec fn password_prefix() -> Seq<char> {
    "LPU_PASSWORD_"@
}

/// Name of the username variable for `id`.
pub open spec fn user_var(id: Seq<char>) -> Seq<char> {
    username_prefix() + id
}

/// Name of the password variable for `id`.
pub open spec fn pass_var(id: Seq<char>) -> Seq<char> {
    password_prefix() + id
}

/// Both variables of the profile `id` are set, whatever their values.
pub open spec fn registered(m: Map<Seq<char>, Seq<char>>, id: Seq<char>) -> bool {
    m.contains_key(user_var(id)) && m.contains_key(pass_var(id))
}

/// Both variables of the profile `id` are set and non-empty: a lookup of
/// `id` succeeds exactly here.
pub open spec fn has_credentials(m: Map<Seq<char>, Seq<char>>, id: Seq<char>) -> bool {
    &&& m.contains_key(user_var(id))
    &&& m.contains_key(pass_var(id))
    &&& m[user_var(id)].len() > 0
    &&& m[pass_var(id)].len() > 0
}

/// The environment map induced by a list of assignments; a later
/// assignment to the same name wins.
pub open spec fn env_map(vars: Seq<EnvVar>) -> Map<Seq<char>, Seq<char>>
    decreases vars.len(),
{
    if vars.len() == 0 {
        Map::empty()
    } else {
        env_map(vars.drop_last()).insert(vars.last().name@, vars.last().value@)
    }
}

/// A name is in the induced map exactly when some assignment bears it.
pub proof fn lemma_env_map_dom(vars: Seq<EnvVar>, n: Seq<char>)
    ensures
        env_map(vars).contains_key(n) <==> exists|i: int|
            0 <= i < vars.len() && #[trigger] vars[i].name@ == n,
    decreases vars.len(),
{
    if vars.len() > 0 {
        lemma_env_map_dom(vars.drop_last(), n);
        if vars.last().name@ == n {
            assert(vars[vars.len() - 1].name@ == n);
        } else {
            if env_map(vars).contains_key(n) {
                let i = choose|i: int| 0 <= i < vars.drop_last().len() && #[trigger] vars.drop_last()[i].name@ == n;
                assert(vars[i].name@ == n);
            }
            if exists|i: int| 0 <= i < vars.len() && #[trigger] vars[i].name@ == n {
                let i = choose|i: int| 0 <= i < vars.len() && #[trigger] vars[i].name@ == n;
                assert(vars.drop_last()[i].name@ == n);
            }
        }
    }
}

/// With pairwise-distinct names, the assignment that bears a name gives
/// its value in the induced map.
pub proof fn lemma_env_map_value(vars: Seq<EnvVar>, i: int)
    requires
        forall|a: int, b: int|
            0 <= a < b < vars.len() ==> vars[a].name@ != vars[b].name@,
        0 <= i < vars.len(),
    ensures
        env_map(vars).contains_key(vars[i].name@),
        env_map(vars)[vars[i].name@] == vars[i].value@,
    decreases vars.len(),
{
    if i == vars.len() - 1 {
    } else {
        lemma_env_map_value(vars.drop_last(), i);
        assert(vars.drop_last()[i] == vars[i]);
        assert(vars.last().name@ != vars[i].name@);
    }
}

/// The shell line that persists the assignment of `value` to `name`.
pub open spec fn export_line(name: Seq<char>, value: Seq<char>) -> Seq<char> {
    "export "@ + name + "=\""@ + value + "\""@
}

/// The username variable and the password variable of one identifier
/// never collide: their prefixes differ.
pub proof fn lemma_user_pass_var_distinct(id: Seq<char>)
    ensures
        user_var(id) != pass_var(id),
{
    reveal_strlit("LPU_USERNAME_");
    reveal_strlit("LPU_PASSWORD_");
    assert(user_var(id)[4] == 'U');
    assert(pass_var(id)[4] == 'P');
}

/// Appending distinct suffixes to one prefix gives distinct names.
pub proof fn lemma_var_name_injective(p: Seq<char>, id1: Seq<char>, id2: Seq<char>)
    requires
        p + id1 == p + id2,
    ensures
        id1 == id2,
{
    assert((p + id1).subrange(p.len() as int, (p + id1).len() as int) =~= id1);
    assert((p + id2).subrange(p.len() as int, (p + id2).len() as int) =~= id2);
}

/// A string is its prefix followed by the rest.
pub proof fn lemma_prefix_suffix(p: Seq<char>, s: Seq<char>)
    requires
        is_prefix_of(p, s),
    ensures
        p + s.subrange(p.len() as int, s.len() as int) =~= s,
{
    assert(forall|i: int| 0 <= i < p.len() ==> p[i] == #[trigger] s.subrange(0, p.len() as int)[i]);
}

/// Every username variable starts with the username prefix.
pub proof fn lemma_user_var_prefixed(id: Seq<char>)
    ensures
        is_prefix_of(username_prefix(), user_var(id)),
{
    assert(user_var(id).subrange(0, username_prefix().len() as int) =~= username_prefix());
}

/// Builds the name `LPU_USERNAME_<id>`.
pub fn username_var_name(id: &str) -> (r: String)
    ensures
        r@ == user_var(id@),
{
    let mut n = String::from_str("LPU_USERNAME_");
    n.append(id);
    n
}

/// Builds the name `LPU_PASSWORD_<id>`.
pub fn password_var_name(id: &str) -> (r: String)
    ensures
        r@ == pass_var(id@),
{
    let mut n = String::from_str("LPU_PASSWORD_");
    n.append(id);
    n
}

/// Builds the shell line `export <name>="<value>"`.
pub fn make_export_line(name: &str, value: &str) -> (r: String)
    ensures
        r@ == export_line(name@, value@),
{
    let mut l = String::from_str("export ");
    l.append(name);
    l.append("=\"");
    l.append(value);
    l.append("\"");
    l
}

/// The store: a list of assignments with pairwise-distinct names.
pub struct CredStore {
    vars: Vec<EnvVar>,
}

impl View for CredStore {
    type V = Map<Seq<char>, Seq<char>>;

    closed spec fn view(&self) -> Map<Seq<char>, Seq<char>> {
        env_map(self.vars@)
    }
}

impl CredStore {
    /// Variable names are pairwise distinct.
    pub closed spec fn wf(&self) -> bool {
        forall|a: int, b: int|
            0 <= a < b < self.vars@.len() ==> self.vars@[a].name@ != self.vars@[b].name@
    }

    /// An empty store.
    pub fn new() -> (s: CredStore)
        ensures
            s.wf(),
            s@ == Map::<Seq<char>, Seq<char>>::empty(),
    {
        CredStore { vars: Vec::new() }
    }

    /// Index of the assignment bearing `name`, if any.
    fn find_var(&self, name: &str) -> (r: Option<usize>)
        ensures
            match r {
                Some(i) => i < self.vars@.len() && self.vars@[i as int].name@ == name@,
                None => forall|i: int|
                    0 <= i < self.vars@.len() ==> self.vars@[i].name@ != name@,
            },
    {
        let n = self.vars.len();
        let mut i: usize = 0;
        while i < n
            invariant
                n == self.vars@.len(),
                i <= n,
                forall|k: int| 0 <= k < i ==> self.vars@[k].name@ != name@,
            decreases n - i,
        {
            if str_eq(self.vars[i].name.as_str(), name) {
                return Some(i);
            }
            i += 1;
        }
        None
    }

    /// The value bound to `name`, if the variable is set.
    pub fn get_var(&self, name: &str) -> (r: Option<&String>)
        requires
            self.wf(),
        ensures
            match r {
                Some(v) => self@.contains_key(name@) && v@ == self@[name@],
                None => !self@.contains_key(name@),
            },
    {
        proof {
            lemma_env_map_dom(self.vars@, name@);
        }
        match self.find_var(name) {
            Some(i) => {
                proof {
                    lemma_env_map_value(self.vars@, i as int);
                }
                Some(&self.vars[i].value)
            },
            None => None,
        }
    }

    /// Whether the variable `name` is set.
    pub fn has_var(&self, name: &str) -> (r: bool)
        requires
            self.wf(),
        ensures
            r == self@.contains_key(name@),
    {
        self.get_var(name).is_some()
    }

    /// Set `name` only if it is not yet set; reports whether it was added.
    pub fn add_var(&mut self, name: String, value: String) -> (r: bool)
        requires
            old(self).wf(),
        ensures
            final(self).wf(),
            r == !old(self)@.contains_key(name@),
            r ==> final(self)@ == old(self)@.insert(name@, value@),
            !r ==> *final(self) == *old(self),
    {
        proof {
            lemma_env_map_dom(self.vars@, name@);
        }
        match self.find_var(name.as_str()) {
            Some(_) => false,
            None => {
                let ghost oldvars = self.vars@;
                self.vars.push(EnvVar { name, value });
                proof {
                    assert(self.vars@.drop_last() =~= oldvars);
                }
                true
            },
        }
    }

    /// Stores a new profile: refuses the identifier if either of its
    /// variables is already set; otherwise sets both variables and hands
    /// back the two `export` lines that persist the profile.
    pub fn store(&mut self, id: &str, username: &str, password: &str) -> (r: Result<
        ExportLines,
        StoreError,
    >)
        requires
            old(self).wf(),
            id@.len() > 0,
        ensures
            final(self).wf(),
            match r {
                Ok(lines) => {
                    &&& !old(self)@.contains_key(user_var(id@))
                    &&& !old(self)@.contains_key(pass_var(id@))
                    &&& final(self)@ == old(self)@.insert(user_var(id@), username@).insert(
                        pass_var(id@),
                        password@,
                    )
                    &&& lines.username_line@ == export_line(user_var(id@), username@)
                    &&& lines.password_line@ == export_line(pass_var(id@), password@)
                },
                Err(e) => {
                    &&& old(self)@.contains_key(user_var(id@)) || old(self)@.contains_key(
                        pass_var(id@),
                    )
                    &&& *final(self) == *old(self)
                    &&& e is AlreadyExists
                },
            },
    {
        let uv = username_var_name(id);
        let pv = password_var_name(id);
        if self.has_var(uv.as_str()) || self.has_var(pv.as_str()) {
            return Err(StoreError::AlreadyExists);
        }
        let username_line = make_export_line(uv.as_str(), username);
        let password_line = make_export_line(pv.as_str(), password);
        proof {
            lemma_user_pass_var_distinct(id@);
        }
        self.add_var(uv, String::from_str(username));
        self.add_var(pv, String::from_str(password));
        Ok(ExportLines { username_line, password_line })
    }

    /// Resolves a profile: the pair is returned exactly when both of the
    /// identifier's variables are set and non-empty.
    pub fn lookup(&self, id: &str) -> (r: Option<Credential>)
        requires
            self.wf(),
        ensures
            match r {
                Some(c) => {
                    &&& has_credentials(self@, id@)
                    &&& c.username@ == self@[user_var(id@)]
                    &&& c.password@ == self@[pass_var(id@)]
                },
                None => !has_credentials(self@, id@),
            },
    {
        let uv = username_var_name(id);
        let pv = password_var_name(id);
        match self.get_var(uv.as_str()) {
            Some(u) => match self.get_var(pv.as_str()) {
                Some(p) => {
                    if u.as_str().is_empty() || p.as_str().is_empty() {
                        None
                    } else {
                        Some(Credential { username: u.clone(), password: p.clone() })
                    }
                },
                None => None,
            },
            None => None,
        }
    }

    /// Lists, without duplicates, exactly the identifiers whose username
    /// and password variables are both set, in the order in which the
    /// store enumerates its variables.
    pub fn list_identifiers(&self) -> (r: Vec<String>)
        requires
            self.wf(),
        ensures
            forall|k: int| 0 <= k < r@.len() ==> registered(self@, #[trigger] r@[k]@),
            forall|id: Seq<char>| #[trigger]
                registered(self@, id) ==> exists|k: int| 0 <= k < r@.len() && r@[k]@ == id,
            forall|k1: int, k2: int| 0 <= k1 < k2 < r@.len() ==> r@[k1]@ != r@[k2]@,
    {
        let prefix = "LPU_USERNAME_";
        let plen = prefix.unicode_len();
        let n = self.vars.len();
        let mut out: Vec<String> = Vec::new();
        let mut i: usize = 0;
        while i < n
            invariant
                self.wf(),
                prefix@ == username_prefix(),
                plen == username_prefix().len(),
                n == self.vars@.len(),
                i <= n,
                forall|k: int| 0 <= k < out@.len() ==> registered(self@, #[trigger] out@[k]@),
                forall|k: int|
                    0 <= k < out@.len() ==> exists|j: int|
                        0 <= j < i && self.vars@[j].name@ == user_var(#[trigger] out@[k]@),
                forall|id: Seq<char>, j: int|
                    #![trigger user_var(id), self.vars@[j]]
                    0 <= j < i && self.vars@[j].name@ == user_var(id)
                        && self@.contains_key(pass_var(id)) ==> exists|k: int|
                        0 <= k < out@.len() && out@[k]@ == id,
                forall|k1: int, k2: int| 0 <= k1 < k2 < out@.len() ==> out@[k1]@ != out@[k2]@,
            decreases n - i,
        {
            let name: &String = &self.vars[i].name;
            if str_starts_with(name.as_str(), prefix) {
                let nlen = name.as_str().unicode_len();
                let id: &str = name.as_str().substring_char(plen, nlen);
                proof {
                    lemma_prefix_suffix(username_prefix(), name@);
                    assert(user_var(id@) == name@);
                }
                let pv = password_var_name(id);
                if self.has_var(pv.as_str()) {
                    proof {
                        lemma_env_map_dom(self.vars@, name@);
                        assert(self@.contains_key(user_var(id@)));
                        assert forall|k: int| 0 <= k < out@.len() implies out@[k]@ != id@ by {
                            if out@[k]@ == id@ {
                                let j = choose|j: int|
                                    0 <= j < i && self.vars@[j].name@ == user_var(out@[k]@);
                                assert(self.vars@[j].name@ == self.vars@[i as int].name@);
                            }
                        };
                    }
                    let ghost out0 = out@;
                    out.push(String::from_str(id));
                    proof {
                        assert(self.vars@[i as int].name@ == user_var(out@[out@.len() - 1]@));
                        assert forall|id2: Seq<char>, j: int|
                            #![trigger user_var(id2), self.vars@[j]]
                            0 <= j < i + 1 && self.vars@[j].name@ == user_var(id2)
                                && self@.contains_key(pass_var(id2)) implies exists|k: int|
                            0 <= k < out@.len() && out@[k]@ == id2 by {
                            if j == i {
                                lemma_var_name_injective(username_prefix(), id2, id@);
                                assert(out@[out@.len() - 1]@ == id2);
                            } else {
                                let k = choose|k: int| 0 <= k < out0.len() && out0[k]@ == id2;
                                assert(out@[k]@ == id2);
                            }
                        };
                    }
                } else {
                    proof {
                        assert forall|id2: Seq<char>, j: int|
                            #![trigger user_var(id2), self.vars@[j]]
                            0 <= j < i + 1 && self.vars@[j].name@ == user_var(id2)
                                && self@.contains_key(pass_var(id2)) implies exists|k: int|
                            0 <= k < out@.len() && out@[k]@ == id2 by {
                            if j == i {
                                lemma_var_name_injective(username_prefix(), id2, id@);
                            }
                        };
                    }
                }
            } else {
                proof {
                    assert forall|id2: Seq<char>, j: int|
                        #![trigger user_var(id2), self.vars@[j]]
                        0 <= j < i + 1 && self.vars@[j].name@ == user_var(id2)
                            && self@.contains_key(pass_var(id2)) implies exists|k: int|
                        0 <= k < out@.len() && out@[k]@ == id2 by {
                        if j == i {
                            lemma_user_var_prefixed(id2);
                        }
                    };
                }
            }
            i += 1;
        }
        proof {
            assert forall|id: Seq<char>| #[trigger] registered(self@, id) implies exists|k: int|
                0 <= k < out@.len() && out@[k]@ == id by {
                lemma_env_map_dom(self.vars@, user_var(id));
                let j = choose|j: int|
                    0 <= j < self.vars@.len() && #[trigger] self.vars@[j].name@ == user_var(id);
                assert(self.vars@[j].name@ == user_var(id));
            };
        }
        out
    }
}

/// Law: storing a fresh identifier and then looking up the same
/// identifier yields exactly the username and password that were
/// supplied (provided neither is empty; a stored empty string does not
/// resolve).
pub proof fn lemma_store_then_lookup(
    m: Map<Seq<char>, Seq<char>>,
    id: Seq<char>,
    u: Seq<char>,
    p: Seq<char>,
)
    requires
        !m.contains_key(user_var(id)),
        !m.contains_key(pass_var(id)),
        u.len() > 0,
        p.len() > 0,
    ensures
        ({
            let m2 = m.insert(user_var(id), u).insert(pass_var(id), p);
            &&& has_credentials(m2, id)
            &&& m2[user_var(id)] == u
            &&& m2[pass_var(id)] == p
        }),
{
    lemma_user_pass_var_distinct(id);
}

} // verus!
