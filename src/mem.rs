use vstd::prelude::*;
use crate::ids::HammerfestUserId;
use crate::link::{HammerfestUserIdRef, LinkError, RawLink, ShortUser, UserId, VersionedLink, bind_spec, empty_link, unbind_spec};
use crate::model::{GetHammerfestUserOptions, Instant, ShortHammerfestUser};
use crate::server::HammerfestServer;
use crate::service::{HammerfestStore, LinkStore, StoreError, UserStore};
use crate::text::str_eq;

verus! {

pub open spec fn is_account(u: ShortHammerfestUser, server: HammerfestServer, id: Seq<char>) -> bool {
    u.server == server && u.id@ == id
}

/// The first record of the account `(server, id)`.
pub fn find_short_user(users: &Vec<ShortHammerfestUser>, server: HammerfestServer, id: &HammerfestUserId) -> (r:
    Option<usize>)
    ensures
        r matches Some(i) ==> i < users@.len() && is_account(users@[i as int], server, id@) && forall|
            j: int,
        | 0 <= j < i ==> !is_account(#[trigger] users@[j], server, id@),
        r is None ==> forall|j: int| 0 <= j < users@.len() ==> !is_account(#[trigger] users@[j], server, id@),
{
    let mut k: usize = 0;
    while k < users.len()
        invariant
            k <= users@.len(),
            forall|j: int| 0 <= j < k ==> !is_account(#[trigger] users@[j], server, id@),
        decreases users@.len() - k,
    {
        if users[k].server == server && str_eq(users[k].id.as_str(), id.as_str()) {
            return Some(k);
        }
        k = k + 1;
    }
    None
}

fn copy_users(users: &Vec<ShortHammerfestUser>) -> (r: Vec<ShortHammerfestUser>)
    ensures
        r@ == users@,
{
    let mut out: Vec<ShortHammerfestUser> = Vec::new();
    let mut k: usize = 0;
    while k < users.len()
        invariant
            k <= users@.len(),
            out@ == users@.subrange(0, k as int),
        decreases users@.len() - k,
    {
        out.push(users[k].clone());
        k = k + 1;
    }
    assert(users@.subrange(0, k as int) == users@);
    out
}

/// Hammerfest account records held in memory, one per account.
pub struct MemHammerfestStore {
    users: Vec<ShortHammerfestUser>,
}

impl View for MemHammerfestStore {
    type V = Seq<ShortHammerfestUser>;

    closed spec fn view(&self) -> Seq<ShortHammerfestUser> {
        self.users@
    }
}

pub open spec fn one_record_per_account(users: Seq<ShortHammerfestUser>) -> bool {
    forall|i: int, j: int|
        0 <= i < j < users.len() ==> !is_account(users[j], users[i].server, users[i].id@)
}

impl MemHammerfestStore {
    pub fn new() -> (r: Self)
        ensures
            r@ == Seq::<ShortHammerfestUser>::empty(),
    {
        MemHammerfestStore { users: Vec::new() }
    }

    #[verifier::type_invariant]
    closed spec fn inv(&self) -> bool {
        one_record_per_account(self.users@)
    }

    /// The store holds one record per account.
    pub fn check_one_record_per_account(&self) -> (r: bool)
        ensures
            r,
            one_record_per_account(self@),
    {
        proof {
            use_type_invariant(self);
        }
        true
    }

    pub fn get(&self, server: HammerfestServer, id: &HammerfestUserId) -> (r: Option<ShortHammerfestUser>)
        ensures
            r matches Some(u) ==> self@.contains(u) && is_account(u, server, id@),
            r is None ==> forall|j: int| 0 <= j < self@.len() ==> !is_account(#[trigger] self@[j], server, id@),
    {
        match find_short_user(&self.users, server, id) {
            Some(i) => Some(self.users[i].clone()),
            None => None,
        }
    }

    /// Records `user`: a record of the same account gets its username
    /// replaced, its id kept; an unknown account is added.
    pub fn touch(&mut self, user: &ShortHammerfestUser) -> (r: ShortHammerfestUser)
        ensures
            one_record_per_account(final(self)@),
            r == *user,
            (exists|i: int| 0 <= i < old(self)@.len() && is_account(#[trigger] old(self)@[i], user.server, user.id@))
                ==> exists|i: int|
                0 <= i < old(self)@.len() && is_account(#[trigger] old(self)@[i], user.server, user.id@)
                    && final(self)@ == old(self)@.update(i, *user),
            (forall|i: int| 0 <= i < old(self)@.len() ==> !is_account(#[trigger] old(self)@[i], user.server, user.id@))
                ==> final(self)@ == old(self)@.push(*user),
    {
        proof {
            use_type_invariant(&*self);
        }
        let mut users = copy_users(&self.users);
        match find_short_user(&self.users, user.server, &user.id) {
            Some(i) => {
                users.set(i, user.clone());
                proof {
                    assert(users@ == old(self)@.update(i as int, *user));
                    assert forall|a: int, b: int|
                        0 <= a < b < users@.len() implies !is_account(
                        users@[b],
                        users@[a].server,
                        users@[a].id@,
                    ) by {
                        assert(!is_account(old(self)@[b], old(self)@[a].server, old(self)@[a].id@));
                    }
                }
            },
            None => {
                users.push(user.clone());
            },
        }
        *self = MemHammerfestStore { users };
        user.clone()
    }
}

impl HammerfestStore for MemHammerfestStore {
    fn get_short_user(&mut self, options: &GetHammerfestUserOptions) -> Result<Option<ShortHammerfestUser>, StoreError> {
        Ok(self.get(options.server, &options.id))
    }

    fn touch_short_user(&mut self, user: &ShortHammerfestUser) -> Result<ShortHammerfestUser, StoreError> {
        Ok(self.touch(user))
    }
}

/// Internal users held in memory.
pub struct MemUserStore {
    pub users: Vec<ShortUser>,
}

impl MemUserStore {
    pub fn get(&self, id: &UserId) -> (r: Option<ShortUser>)
        ensures
            r matches Some(u) ==> self.users@.contains(u) && u.id.uuid@ == id.uuid@,
            r is None ==> forall|j: int| 0 <= j < self.users@.len() ==> (#[trigger] self.users@[j]).id.uuid@ != id.uuid@,
    {
        let mut k: usize = 0;
        while k < self.users.len()
            invariant
                k <= self.users@.len(),
                forall|j: int| 0 <= j < k ==> (#[trigger] self.users@[j]).id.uuid@ != id.uuid@,
            decreases self.users@.len() - k,
        {
            if str_eq(self.users[k].id.uuid.as_str(), id.uuid.as_str()) {
                return Some(self.users[k].clone());
            }
            k = k + 1;
        }
        None
    }
}

impl UserStore for MemUserStore {
    fn get_short_user(&mut self, id: &UserId, time: Option<Instant>) -> Result<Option<ShortUser>, StoreError> {
        Ok(self.get(id))
    }
}

pub open spec fn is_ref(r: HammerfestUserIdRef, server: HammerfestServer, id: Seq<char>) -> bool {
    r.server == server && r.id@ == id
}

/// Link histories held in memory, keyed by account.
pub struct MemLinkStore {
    links: Vec<(HammerfestUserIdRef, VersionedLink)>,
}

impl MemLinkStore {
    pub fn new() -> (r: Self)
        ensures
            r.links()@.len() == 0,
    {
        MemLinkStore { links: Vec::new() }
    }

    pub closed spec fn links(&self) -> Vec<(HammerfestUserIdRef, VersionedLink)> {
        self.links
    }

    /// The history of `(server, id)` as this store holds it.
    pub open spec fn history_of(&self, server: HammerfestServer, id: Seq<char>) -> (Option<RawLink>, Seq<RawLink>) {
        if exists|i: int| 0 <= i < self.links()@.len() && is_ref(#[trigger] self.links()@[i].0, server, id) {
            let i = choose|i: int| 0 <= i < self.links()@.len() && is_ref(#[trigger] self.links()@[i].0, server, id)
                && forall|j: int| 0 <= j < i ==> !is_ref(#[trigger] self.links()@[j].0, server, id);
            self.links()@[i].1@
        } else {
            empty_link()
        }
    }

    fn find(&self, server: HammerfestServer, id: &HammerfestUserId) -> (r: Option<usize>)
        ensures
            r matches Some(i) ==> i < self.links()@.len() && is_ref(self.links()@[i as int].0, server, id@)
                && forall|j: int| 0 <= j < i ==> !is_ref(#[trigger] self.links()@[j].0, server, id@),
            r is None ==> forall|j: int| 0 <= j < self.links()@.len() ==> !is_ref(#[trigger] self.links()@[j].0, server, id@),
    {
        let mut k: usize = 0;
        while k < self.links.len()
            invariant
                k <= self.links@.len(),
                forall|j: int| 0 <= j < k ==> !is_ref(#[trigger] self.links@[j].0, server, id@),
            decreases self.links@.len() - k,
        {
            if self.links[k].0.server == server && str_eq(self.links[k].0.id.as_str(), id.as_str()) {
                return Some(k);
            }
            k = k + 1;
        }
        None
    }

    /// Stores `link` as the history of `remote`, in place of the one it had.
    pub fn set(&mut self, remote: HammerfestUserIdRef, link: VersionedLink) -> (r: ())
        ensures
            (exists|i: int| 0 <= i < old(self).links()@.len() && is_ref(#[trigger] old(self).links()@[i].0, remote.server, remote.id@))
                ==> exists|i: int|
                0 <= i < old(self).links()@.len() && is_ref(#[trigger] old(self).links()@[i].0, remote.server, remote.id@)
                    && final(self).links()@ == old(self).links()@.update(i, (remote, link)),
            (forall|i: int| 0 <= i < old(self).links()@.len() ==> !is_ref(#[trigger] old(self).links()@[i].0, remote.server, remote.id@))
                ==> final(self).links()@ == old(self).links()@.push((remote, link)),
    {
        match self.find(remote.server, &remote.id) {
            Some(i) => {
                self.links.set(i, (remote, link));
            },
            None => {
                self.links.push((remote, link));
            },
        }
    }

    /// The history of `remote`; an account never linked has an empty one.
    pub fn get(&self, remote: &HammerfestUserIdRef) -> (r: VersionedLink)
        ensures
            r@ == self.history_of(remote.server, remote.id@),
    {
        match self.find(remote.server, &remote.id) {
            Some(i) => {
                proof {
                    let w = choose|w: int| 0 <= w < self.links()@.len() && is_ref(#[trigger] self.links()@[w].0, remote.server, remote.id@)
                        && forall|j: int| 0 <= j < w ==> !is_ref(#[trigger] self.links()@[j].0, remote.server, remote.id@);
                    assert(w == i as int) by {
                        if w < i {
                            assert(!is_ref(self.links()@[w].0, remote.server, remote.id@));
                        } else if w > i {
                            assert(!is_ref(self.links()@[i as int].0, remote.server, remote.id@));
                        }
                    }
                }
                self.links[i].1.clone()
            },
            None => VersionedLink::empty(),
        }
    }
}

impl LinkStore for MemLinkStore {
    fn get_link_from_hammerfest(&mut self, remote: &HammerfestUserIdRef, time: Option<Instant>) -> Result<
        VersionedLink,
        StoreError,
    > {
        Ok(self.get(remote))
    }
}

} // verus!
