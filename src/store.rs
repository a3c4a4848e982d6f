use vstd::prelude::*;

use crate::envelope::params_in_bounds;
use crate::error::PasswordError;

verus! {

/// The case-folded form of a text, as `str::to_lowercase` gives it.
pub uninterp spec fn lower_of(s: Seq<char>) -> Seq<char>;

/// Relies on `str::to_lowercase`: its result depends on the characters alone.
#[verifier::external_body]
pub(crate) fn lowercase(s: &str) -> (r: String)
    ensures
        r@ == lower_of(s@),
{
    s.to_lowercase()
}

/// Whether two names are the same when case is ignored.
pub open spec fn same_name(a: Seq<char>, b: Seq<char>) -> bool {
    lower_of(a) == lower_of(b)
}

/// One stored credential, as plain values.
pub struct PasswordView {
    pub name: Seq<char>,
    pub username: Seq<char>,
    pub password: Seq<char>,
    pub created_at: u64,
    pub updated_at: u64,
}

/// One stored credential: an app name, a username and a password, with the
/// times (seconds since the epoch) of creation and of the last change.
pub struct Password {
    pub name: String,
    pub username: String,
    pub password: String,
    pub created_at: u64,
    pub updated_at: u64,
}

impl View for Password {
    type V = PasswordView;

    open spec fn view(&self) -> PasswordView {
        PasswordView {
            name: self.name@,
            username: self.username@,
            password: self.password@,
            created_at: self.created_at,
            updated_at: self.updated_at,
        }
    }
}

impl Password {
    /// A new credential created and updated at `now`.
    pub fn new(name: &str, username: &str, password: String, now: u64) -> (p: Password)
        ensures
            p@ == (PasswordView {
                name: name@,
                username: username@,
                password: password@,
                created_at: now,
                updated_at: now,
            }),
    {
        Password {
            name: name.to_owned(),
            username: username.to_owned(),
            password,
            created_at: now,
            updated_at: now,
        }
    }
}

/// The index of the entry of `entries` whose name is `name` ignoring case, if any.
pub open spec fn index_of(entries: Seq<PasswordView>, name: Seq<char>) -> Option<int> {
    if exists|i: int| 0 <= i < entries.len() && same_name(#[trigger] entries[i].name, name) {
        Some(choose|i: int| 0 <= i < entries.len() && same_name(#[trigger] entries[i].name, name))
    } else {
        None
    }
}

/// No two entries share a name ignoring case.
pub open spec fn names_unique(entries: Seq<PasswordView>) -> bool {
    forall|i: int, j: int|
        0 <= i < entries.len() && 0 <= j < entries.len() && i != j ==> !same_name(
            #[trigger] entries[i].name,
            #[trigger] entries[j].name,
        )
}

/// Every entry was updated no earlier than it was created.
pub open spec fn times_ordered(entries: Seq<PasswordView>) -> bool {
    forall|i: int| 0 <= i < entries.len() ==> #[trigger] entries[i].created_at <= entries[i].updated_at
}

/// The store as plain values: key derivation parameters and entries in insertion order.
pub struct StoreView {
    pub log2_n: u32,
    pub r: u32,
    pub p: u32,
    pub entries: Seq<PasswordView>,
}

impl StoreView {
    /// Names unique ignoring case, times ordered, parameters in bounds.
    pub open spec fn wf(self) -> bool {
        &&& names_unique(self.entries)
        &&& times_ordered(self.entries)
        &&& params_in_bounds(self.log2_n, self.r, self.p)
    }
}

/// The plaintext password store: credentials in insertion order and the key
/// derivation parameters that the file is written with.
pub struct PasswordStore {
    log2_n: u32,
    r: u32,
    p: u32,
    passwords: Vec<Password>,
}

impl View for PasswordStore {
    type V = StoreView;

    closed spec fn view(&self) -> StoreView {
        StoreView {
            log2_n: self.log2_n,
            r: self.r,
            p: self.p,
            entries: self.passwords@.map_values(|p: Password| p@),
        }
    }
}

/// Parameters below the defaults, which only a forced change may set.
pub open spec fn is_weak(log2_n: u32, r: u32) -> bool {
    log2_n < DEFAULT_LOG2_N || r < DEFAULT_R
}

/// Default key derivation parameters: `log2_n` 12, `r` 8, `p` 1.
pub const DEFAULT_LOG2_N: u32 = 12;
pub const DEFAULT_R: u32 = 8;
pub const DEFAULT_P: u32 = 1;

impl PasswordStore {
    /// An empty store with the default key derivation parameters.
    pub fn new() -> (s: PasswordStore)
        ensures
            s@.wf(),
            s@.entries.len() == 0,
            s@.log2_n == DEFAULT_LOG2_N && s@.r == DEFAULT_R && s@.p == DEFAULT_P,
    {
        let s = PasswordStore { log2_n: DEFAULT_LOG2_N, r: DEFAULT_R, p: DEFAULT_P, passwords: Vec::new() };
        assert(s@.entries =~= Seq::<PasswordView>::empty());
        s
    }

    /// The key derivation parameters `(log2_n, r, p)`.
    pub fn scrypt_params(&self) -> (r: (u32, u32, u32))
        ensures
            r == (self@.log2_n, self@.r, self@.p),
    {
        (self.log2_n, self.r, self.p)
    }

    /// Sets the key derivation parameters. Parameters out of bounds are refused
    /// with `WeakParams` in any case; parameters below the defaults (`log2_n`
    /// under 12 or `r` under 8) are refused with `WeakParams` unless `force`.
    /// On failure the store is left as it was.
    pub fn set_scrypt_params(&mut self, log2_n: u32, r: u32, p: u32, force: bool) -> (res: Result<(), PasswordError>)
        requires
            old(self)@.wf(),
        ensures
            final(self)@.wf(),
            res is Ok <==> params_in_bounds(log2_n, r, p) && (force || !is_weak(log2_n, r)),
            res is Err ==> res == Err::<(), PasswordError>(PasswordError::WeakParams) && final(self)@ == old(self)@,
            res is Ok ==> final(self)@ == (StoreView { log2_n, r, p, ..old(self)@ }),
    {
        if !(1 <= log2_n && log2_n <= 20 && 1 <= r && r <= 255 && 1 <= p && p <= 255 && log2_n < 16 * r) {
            return Err(PasswordError::WeakParams);
        }
        if !force && (log2_n < DEFAULT_LOG2_N || r < DEFAULT_R) {
            return Err(PasswordError::WeakParams);
        }
        self.log2_n = log2_n;
        self.r = r;
        self.p = p;
        Ok(())
    }

    /// Number of entries.
    pub fn len(&self) -> (n: usize)
        ensures
            n == self@.entries.len(),
    {
        self.passwords.len()
    }

    /// The entry at position `i` in insertion order.
    pub fn entry(&self, i: usize) -> (e: &Password)
        requires
            i < self@.entries.len(),
        ensures
            e@ == self@.entries[i as int],
    {
        &self.passwords[i]
    }

    /// The position of the entry named `name` ignoring case.
    pub fn find(&self, name: &str) -> (r: Option<usize>)
        ensures
            match r {
                Some(i) => i < self@.entries.len() && same_name(self@.entries[i as int].name, name@),
                None => index_of(self@.entries, name@) is None,
            },
    {
        let key = lowercase(name);
        let mut i: usize = 0;
        while i < self.passwords.len()
            invariant
                i <= self.passwords@.len(),
                key@ == lower_of(name@),
                self@.entries == self.passwords@.map_values(|p: Password| p@),
                forall|k: int| 0 <= k < i ==> !same_name(#[trigger] self@.entries[k].name, name@),
            decreases self.passwords@.len() - i,
        {
            let l = lowercase(&self.passwords[i].name);
            if l == key {
                return Some(i);
            }
            i = i + 1;
        }
        assert(index_of(self@.entries, name@) is None);
        None
    }

    /// Whether an entry is named `name` ignoring case.
    pub fn has_password(&self, name: &str) -> (b: bool)
        ensures
            b == index_of(self@.entries, name@) is Some,
    {
        match self.find(name) {
            Some(i) => {
                assert(same_name(self@.entries[i as int].name, name@));
                true
            },
            None => false,
        }
    }

    /// Replaces the entry at position `i`.
    fn replace_entry(&mut self, i: usize, p: Password)
        requires
            i < old(self)@.entries.len(),
        ensures
            final(self)@ == (StoreView { entries: old(self)@.entries.update(i as int, p@), ..old(self)@ }),
    {
        let ghost pv = p@;
        self.passwords.remove(i);
        self.passwords.insert(i, p);
        assert(self@.entries =~= old(self)@.entries.update(i as int, pv));
    }

    /// Adds a credential at the end. Fails with `AppExists`, leaving the store
    /// as it was, when an entry already has its name ignoring case.
    pub fn add_password(&mut self, p: Password) -> (r: Result<(), PasswordError>)
        requires
            old(self)@.wf(),
            p.created_at <= p.updated_at,
        ensures
            final(self)@.wf(),
            index_of(old(self)@.entries, p.name@) is Some ==> r == Err::<(), PasswordError>(
                PasswordError::AppExists,
            ) && final(self)@ == old(self)@,
            index_of(old(self)@.entries, p.name@) is None ==> r is Ok && final(self)@ == (StoreView {
                entries: old(self)@.entries.push(p@),
                ..old(self)@
            }),
    {
        if self.has_password(p.name.as_str()) {
            return Err(PasswordError::AppExists);
        }
        let ghost pv = p@;
        self.passwords.push(p);
        assert(self@.entries =~= old(self)@.entries.push(pv));
        proof {
            let e = self@.entries;
            assert forall|i: int, j: int|
                0 <= i < e.len() && 0 <= j < e.len() && i != j implies !same_name(
                #[trigger] e[i].name,
                #[trigger] e[j].name,
            ) by {
                if i == e.len() - 1 {
                    assert(!same_name(old(self)@.entries[j].name, pv.name));
                } else if j == e.len() - 1 {
                    assert(!same_name(old(self)@.entries[i].name, pv.name));
                } else {
                    assert(e[i] == old(self)@.entries[i] && e[j] == old(self)@.entries[j]);
                }
            }
            assert forall|i: int| 0 <= i < e.len() implies #[trigger] e[i].created_at
                <= e[i].updated_at by {
                if i < e.len() - 1 {
                    assert(e[i] == old(self)@.entries[i]);
                }
            }
        }
        Ok(())
    }

    /// The credential named `name` ignoring case; `AppNotFound` if none is.
    pub fn get_password(&self, name: &str) -> (r: Result<&Password, PasswordError>)
        requires
            self@.wf(),
        ensures
            index_of(self@.entries, name@) is None <==> r == Err::<&Password, PasswordError>(
                PasswordError::AppNotFound,
            ),
            r matches Ok(p) ==> p@ == self@.entries[index_of(self@.entries, name@)->Some_0],
    {
        match self.find(name) {
            Some(i) => {
                proof {
                    self.lemma_index_unique(name@, i as int);
                }
                Ok(&self.passwords[i])
            },
            None => Err(PasswordError::AppNotFound),
        }
    }

    /// In a well-formed store at most one entry matches a name, so the match
    /// found is the one that `index_of` designates.
    proof fn lemma_index_unique(&self, name: Seq<char>, i: int)
        requires
            self@.wf(),
            0 <= i < self@.entries.len(),
            same_name(self@.entries[i].name, name),
        ensures
            index_of(self@.entries, name) == Some(i),
    {
        let e = self@.entries;
        assert(exists|k: int| 0 <= k < e.len() && same_name(#[trigger] e[k].name, name));
        let c = choose|k: int| 0 <= k < e.len() && same_name(#[trigger] e[k].name, name);
        if c != i {
            assert(!same_name(e[c].name, e[i].name));
        }
    }

    /// Removes and returns the credential named `name` ignoring case;
    /// `AppNotFound`, leaving the store as it was, if none is.
    pub fn delete_password(&mut self, name: &str) -> (r: Result<Password, PasswordError>)
        requires
            old(self)@.wf(),
        ensures
            final(self)@.wf(),
            index_of(old(self)@.entries, name@) is None ==> r == Err::<Password, PasswordError>(
                PasswordError::AppNotFound,
            ) && final(self)@ == old(self)@,
            index_of(old(self)@.entries, name@) matches Some(i) ==> r matches Ok(p) && p@
                == old(self)@.entries[i] && final(self)@ == (StoreView {
                entries: old(self)@.entries.remove(i),
                ..old(self)@
            }),
    {
        match self.find(name) {
            Some(i) => {
                proof {
                    self.lemma_index_unique(name@, i as int);
                }
                let p = self.passwords.remove(i);
                assert(self@.entries =~= old(self)@.entries.remove(i as int));
                proof {
                    let e = self@.entries;
                    let o = old(self)@.entries;
                    assert forall|a: int, b: int|
                        0 <= a < e.len() && 0 <= b < e.len() && a != b implies !same_name(
                        #[trigger] e[a].name,
                        #[trigger] e[b].name,
                    ) by {
                        let a2 = if a < i { a } else { a + 1 };
                        let b2 = if b < i { b } else { b + 1 };
                        assert(e[a] == o[a2] && e[b] == o[b2]);
                    }
                    assert forall|a: int| 0 <= a < e.len() implies #[trigger] e[a].created_at
                        <= e[a].updated_at by {
                        let a2 = if a < i { a } else { a + 1 };
                        assert(e[a] == o[a2]);
                    }
                }
                Ok(p)
            },
            None => Err(PasswordError::AppNotFound),
        }
    }

    /// Replaces, in the entry at position `i`, the fields given as `Some`, and
    /// stamps it with `now`.
    fn update_entry(&mut self, i: usize, new_name: Option<&str>, new_username: Option<&str>, new_password: Option<String>, now: u64)
        requires
            old(self)@.wf(),
            i < old(self)@.entries.len(),
            new_name matches Some(n) ==> forall|k: int|
                0 <= k < old(self)@.entries.len() && k != i ==> !same_name(
                    #[trigger] old(self)@.entries[k].name,
                    n@,
                ),
        ensures
            final(self)@.wf(),
            final(self)@ == (StoreView {
                entries: old(self)@.entries.update(
                    i as int,
                    updated(old(self)@.entries[i as int], opt_view(new_name), opt_string_view(new_password), opt_view(new_username), now),
                ),
                ..old(self)@
            }),
    {
        let ghost ov = old(self)@.entries[i as int];
        let cur = &self.passwords[i];
        let name = match new_name {
            Some(n) => n.to_owned(),
            None => cur.name.clone(),
        };
        let username = match new_username {
            Some(u) => u.to_owned(),
            None => cur.username.clone(),
        };
        let password = match new_password {
            Some(p) => p,
            None => cur.password.clone(),
        };
        let created_at = cur.created_at;
        let updated_at = if now < created_at { created_at } else { now };
        let p = Password { name, username, password, created_at, updated_at };
        self.replace_entry(i, p);
        proof {
            let e = self@.entries;
            let o = old(self)@.entries;
            assert(e[i as int].name == ov.name || new_name is Some);
            assert forall|a: int, b: int|
                0 <= a < e.len() && 0 <= b < e.len() && a != b implies !same_name(
                #[trigger] e[a].name,
                #[trigger] e[b].name,
            ) by {
                if a == i {
                    assert(e[b] == o[b]);
                    if new_name is None {
                        assert(e[a].name == o[a].name);
                    }
                } else if b == i {
                    assert(e[a] == o[a]);
                    if new_name is None {
                        assert(e[b].name == o[b].name);
                    }
                } else {
                    assert(e[a] == o[a] && e[b] == o[b]);
                }
            }
            assert forall|a: int| 0 <= a < e.len() implies #[trigger] e[a].created_at
                <= e[a].updated_at by {
                if a != i {
                    assert(e[a] == o[a]);
                }
            }
        }
    }

    /// Sets the password of the entry named `name` ignoring case and stamps it
    /// with `now`; `AppNotFound`, leaving the store as it was, if none is.
    pub fn change_password(&mut self, name: &str, password: String, now: u64) -> (r: Result<(), PasswordError>)
        requires
            old(self)@.wf(),
        ensures
            final(self)@.wf(),
            index_of(old(self)@.entries, name@) is None ==> r == Err::<(), PasswordError>(
                PasswordError::AppNotFound,
            ) && final(self)@ == old(self)@,
            index_of(old(self)@.entries, name@) matches Some(i) ==> r is Ok && final(self)@ == (StoreView {
                entries: old(self)@.entries.update(
                    i,
                    updated(old(self)@.entries[i], None, Some(password@), None, now),
                ),
                ..old(self)@
            }),
    {
        match self.find(name) {
            Some(i) => {
                proof {
                    self.lemma_index_unique(name@, i as int);
                }
                self.update_entry(i, None, None, Some(password), now);
                Ok(())
            },
            None => Err(PasswordError::AppNotFound),
        }
    }

    /// Sets the username of the entry named `name` ignoring case and stamps it
    /// with `now`; `AppNotFound`, leaving the store as it was, if none is.
    pub fn change_username(&mut self, name: &str, username: &str, now: u64) -> (r: Result<(), PasswordError>)
        requires
            old(self)@.wf(),
        ensures
            final(self)@.wf(),
            index_of(old(self)@.entries, name@) is None ==> r == Err::<(), PasswordError>(
                PasswordError::AppNotFound,
            ) && final(self)@ == old(self)@,
            index_of(old(self)@.entries, name@) matches Some(i) ==> r is Ok && final(self)@ == (StoreView {
                entries: old(self)@.entries.update(
                    i,
                    updated(old(self)@.entries[i], None, None, Some(username@), now),
                ),
                ..old(self)@
            }),
    {
        match self.find(name) {
            Some(i) => {
                proof {
                    self.lemma_index_unique(name@, i as int);
                }
                self.update_entry(i, None, Some(username), None, now);
                Ok(())
            },
            None => Err(PasswordError::AppNotFound),
        }
    }

    /// Renames the entry named `name` ignoring case to `new_name` and stamps it
    /// with `now`. Fails with `AppNotFound` if no entry is named `name`, and with
    /// `AppExists` if another entry is named `new_name`; a change of case only
    /// is allowed. On failure the store is left as it was.
    pub fn rename(&mut self, name: &str, new_name: &str, now: u64) -> (r: Result<(), PasswordError>)
        requires
            old(self)@.wf(),
        ensures
            final(self)@.wf(),
            r is Err ==> final(self)@ == old(self)@,
            index_of(old(self)@.entries, name@) is None ==> r == Err::<(), PasswordError>(
                PasswordError::AppNotFound,
            ),
            index_of(old(self)@.entries, name@) matches Some(i) ==> {
                if index_of(old(self)@.entries, new_name@) is Some && index_of(old(self)@.entries, new_name@) != Some(i) {
                    r == Err::<(), PasswordError>(PasswordError::AppExists)
                } else {
                    r is Ok && final(self)@ == (StoreView {
                        entries: old(self)@.entries.update(
                            i,
                            updated(old(self)@.entries[i], Some(new_name@), None, None, now),
                        ),
                        ..old(self)@
                    })
                }
            },
    {
        match self.find(name) {
            Some(i) => {
                proof {
                    self.lemma_index_unique(name@, i as int);
                }
                match self.find(new_name) {
                    Some(j) => {
                        proof {
                            self.lemma_index_unique(new_name@, j as int);
                        }
                        if j != i {
                            return Err(PasswordError::AppExists);
                        }
                        proof {
                            let o = old(self)@.entries;
                            assert forall|k: int| 0 <= k < o.len() && k != i implies !same_name(
                                #[trigger] o[k].name,
                                new_name@,
                            ) by {
                                assert(!same_name(o[k].name, o[i as int].name));
                            }
                        }
                    },
                    None => {},
                }
                self.update_entry(i, Some(new_name), None, None, now);
                Ok(())
            },
            None => Err(PasswordError::AppNotFound),
        }
    }
}

/// The view of an optional text.
pub open spec fn opt_view(s: Option<&str>) -> Option<Seq<char>> {
    match s {
        Some(t) => Some(t@),
        None => None,
    }
}

/// The view of an optional owned text.
pub open spec fn opt_string_view(s: Option<String>) -> Option<Seq<char>> {
    match s {
        Some(t) => Some(t@),
        None => None,
    }
}

/// The entry `p` with the given fields replaced and its update time set to
/// `now`, or to its creation time where `now` lies before it.
pub open spec fn updated(
    p: PasswordView,
    name: Option<Seq<char>>,
    password: Option<Seq<char>>,
    username: Option<Seq<char>>,
    now: u64,
) -> PasswordView {
    PasswordView {
        name: match name {
            Some(n) => n,
            None => p.name,
        },
        username: match username {
            Some(u) => u,
            None => p.username,
        },
        password: match password {
            Some(w) => w,
            None => p.password,
        },
        created_at: p.created_at,
        updated_at: if now < p.created_at {
            p.created_at
        } else {
            now
        },
    }
}

} // verus!
