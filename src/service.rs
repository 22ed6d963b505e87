use vstd::prelude::*;
use crate::errors::ScraperError;
use crate::ids::{
    HammerfestForumThemeId, HammerfestForumThreadId, HammerfestItemId, HammerfestSessionKey,
    HammerfestUserId, HammerfestUsername,
};
use crate::link::{
    expand_link, expand_spec, HammerfestUserIdRef, LinkError, ShortUser, UserId, VersionedEtwinLink,
    VersionedLink,
};
use crate::model::{
    GetHammerfestUserOptions, HammerfestCredentials, HammerfestForumTheme, HammerfestForumThemePage,
    HammerfestForumThreadPage, HammerfestGetProfileByIdOptions,
    HammerfestGodChild, HammerfestProfile, HammerfestSession, HammerfestShop, Instant,
    ShortHammerfestUser,
};
use crate::server::HammerfestServer;

verus! {

/// A failure of a platform client: the page could not be read, or the request
/// did not complete (network failure, timeout, error status).
#[derive(Clone, Debug, PartialEq, Eq)]
pub enum ClientError {
    Scraper(ScraperError),
    Transport(String),
}

/// A failure of a store.
#[derive(Clone, Debug, PartialEq, Eq)]
pub enum StoreError {
    Backend(String),
}

#[derive(Clone, Debug, PartialEq, Eq)]
pub enum HammerfestServiceError {
    Client(ClientError),
    Store(StoreError),
    Link(LinkError),
}

/// Access to the Hammerfest mirrors, live or in memory.
pub trait HammerfestClient {
    fn create_session(&mut self, options: &HammerfestCredentials) -> Result<HammerfestSession, ClientError>;

    fn test_session(&mut self, server: HammerfestServer, key: &HammerfestSessionKey) -> Result<
        Option<HammerfestSession>,
        ClientError,
    >;

    fn get_profile_by_id(
        &mut self,
        session: Option<&HammerfestSession>,
        options: &HammerfestGetProfileByIdOptions,
    ) -> Result<Option<HammerfestProfile>, ClientError>;

    /// The viewer's items, each once, with its count.
    fn get_own_items(&mut self, session: &HammerfestSession) -> Result<Vec<(HammerfestItemId, u32)>, ClientError>;

    fn get_own_god_children(&mut self, session: &HammerfestSession) -> Result<Vec<HammerfestGodChild>, ClientError>;

    fn get_own_shop(&mut self, session: &HammerfestSession) -> Result<HammerfestShop, ClientError>;

    fn get_forum_themes(&mut self, session: Option<&HammerfestSession>, server: HammerfestServer) -> Result<
        Vec<HammerfestForumTheme>,
        ClientError,
    >;

    /// Page `page1`, counted from one, of a forum theme.
    fn get_forum_theme_page(
        &mut self,
        session: Option<&HammerfestSession>,
        server: HammerfestServer,
        theme_id: &HammerfestForumThemeId,
        page1: u32,
    ) -> Result<HammerfestForumThemePage, ClientError>;

    /// Page `page1`, counted from one, of a forum thread.
    fn get_forum_thread_page(
        &mut self,
        session: Option<&HammerfestSession>,
        server: HammerfestServer,
        thread_id: &HammerfestForumThreadId,
        page1: u32,
    ) -> Result<HammerfestForumThreadPage, ClientError>;
}

/// The result of reading a page of the viewer's own: no viewer on the page
/// means that the session is not valid.
pub fn own_page<T>(read: Result<Option<T>, ScraperError>) -> (r: Result<T, ClientError>)
    ensures
        read matches Ok(Some(v)) ==> r == Ok::<T, ClientError>(v),
        read matches Ok(None) ==> r == Err::<T, ClientError>(ClientError::Scraper(ScraperError::InvalidSessionCookie)),
        read matches Err(e) ==> r == Err::<T, ClientError>(ClientError::Scraper(e)),
{
    match read {
        Ok(Some(v)) => Ok(v),
        Ok(None) => Err(ClientError::Scraper(ScraperError::InvalidSessionCookie)),
        Err(e) => Err(ClientError::Scraper(e)),
    }
}

/// The local record of Hammerfest accounts already seen.
pub trait HammerfestStore {
    fn get_short_user(&mut self, options: &GetHammerfestUserOptions) -> Result<
        Option<ShortHammerfestUser>,
        StoreError,
    >;

    /// Records `user`, or refreshes the username of the record with its id.
    fn touch_short_user(&mut self, user: &ShortHammerfestUser) -> Result<ShortHammerfestUser, StoreError>;
}

/// The link histories of Hammerfest accounts.
pub trait LinkStore {
    fn get_link_from_hammerfest(&mut self, remote: &HammerfestUserIdRef, time: Option<Instant>) -> Result<
        VersionedLink,
        StoreError,
    >;
}

/// The internal users.
pub trait UserStore {
    fn get_short_user(&mut self, id: &UserId, time: Option<Instant>) -> Result<Option<ShortUser>, StoreError>;
}

/// A Hammerfest account as callers see it: its record and its resolved link.
#[derive(Debug, PartialEq, Eq)]
pub struct HammerfestUser {
    pub server: HammerfestServer,
    pub id: HammerfestUserId,
    pub username: HammerfestUsername,
    pub etwin: VersionedEtwinLink,
}

/// Where a lookup of one account stands. Each state but `Done` names the one
/// call to make next.
#[derive(Debug, PartialEq, Eq)]
pub enum GetUserStep {
    /// Read the local record.
    LookupStore,
    /// Not known locally: fetch the profile from the mirror.
    FetchProfile,
    /// Seen on the mirror: record it locally.
    Touch(ShortHammerfestUser),
    /// Read the link history of this account.
    FetchLink(ShortHammerfestUser),
    /// Look up both users of the binding in force, if any.
    ResolveUsers(ShortHammerfestUser, VersionedLink),
    Done(Option<HammerfestUser>),
}

/// What the call named by a step returned.
#[derive(Debug, PartialEq, Eq)]
pub enum GetUserEvent {
    Stored(Option<ShortHammerfestUser>),
    Profile(Option<HammerfestProfile>),
    Touched(ShortHammerfestUser),
    Link(VersionedLink),
    Users(Option<ShortUser>, Option<ShortUser>),
}

/// The event answers the call that the step names.
pub open spec fn event_fits(step: GetUserStep, event: GetUserEvent) -> bool {
    match step {
        GetUserStep::LookupStore => event is Stored,
        GetUserStep::FetchProfile => event is Profile,
        GetUserStep::Touch(_) => event is Touched,
        GetUserStep::FetchLink(_) => event is Link,
        GetUserStep::ResolveUsers(_, _) => event is Users,
        GetUserStep::Done(_) => false,
    }
}

pub open spec fn merged_user(u: ShortHammerfestUser, etwin: VersionedEtwinLink) -> HammerfestUser {
    HammerfestUser { server: u.server, id: u.id, username: u.username, etwin }
}

pub open spec fn next_spec(step: GetUserStep, event: GetUserEvent) -> Result<GetUserStep, LinkError> {
    match (step, event) {
        (GetUserStep::LookupStore, GetUserEvent::Stored(Some(u))) => Ok(GetUserStep::FetchLink(u)),
        (GetUserStep::LookupStore, GetUserEvent::Stored(None)) => Ok(GetUserStep::FetchProfile),
        (GetUserStep::FetchProfile, GetUserEvent::Profile(None)) => Ok(GetUserStep::Done(None)),
        (GetUserStep::FetchProfile, GetUserEvent::Profile(Some(p))) => Ok(GetUserStep::Touch(p.user)),
        (GetUserStep::Touch(_), GetUserEvent::Touched(u)) => Ok(GetUserStep::FetchLink(u)),
        (GetUserStep::FetchLink(u), GetUserEvent::Link(l)) => Ok(GetUserStep::ResolveUsers(u, l)),
        (GetUserStep::ResolveUsers(u, l), GetUserEvent::Users(b, t)) => match expand_spec(l, b, t) {
            Ok(e) => Ok(GetUserStep::Done(Some(merged_user(u, e)))),
            Err(e) => Err(e),
        },
        _ => Err(LinkError::NotLinked),
    }
}

/// How many calls a step may still lead to.
pub open spec fn step_rank(step: GetUserStep) -> nat {
    match step {
        GetUserStep::LookupStore => 5,
        GetUserStep::FetchProfile => 4,
        GetUserStep::Touch(_) => 3,
        GetUserStep::FetchLink(_) => 2,
        GetUserStep::ResolveUsers(_, _) => 1,
        GetUserStep::Done(_) => 0,
    }
}

/// The step after `step`, given what its call returned.
pub fn get_user_next(step: GetUserStep, event: GetUserEvent) -> (r: Result<GetUserStep, LinkError>)
    requires
        event_fits(step, event),
    ensures
        r == next_spec(step, event),
        r matches Ok(s) ==> step_rank(s) < step_rank(step),
{
    match step {
        GetUserStep::LookupStore => match event {
            GetUserEvent::Stored(Some(u)) => Ok(GetUserStep::FetchLink(u)),
            _ => Ok(GetUserStep::FetchProfile),
        },
        GetUserStep::FetchProfile => match event {
            GetUserEvent::Profile(Some(p)) => Ok(GetUserStep::Touch(p.user)),
            _ => Ok(GetUserStep::Done(None)),
        },
        GetUserStep::Touch(_) => match event {
            GetUserEvent::Touched(u) => Ok(GetUserStep::FetchLink(u)),
            _ => Err(LinkError::NotLinked),
        },
        GetUserStep::FetchLink(u) => match event {
            GetUserEvent::Link(l) => Ok(GetUserStep::ResolveUsers(u, l)),
            _ => Err(LinkError::NotLinked),
        },
        GetUserStep::ResolveUsers(u, l) => match event {
            GetUserEvent::Users(b, t) => match expand_link(l, b, t) {
                Ok(e) => Ok(
                    GetUserStep::Done(
                        Some(HammerfestUser { server: u.server, id: u.id, username: u.username, etwin: e }),
                    ),
                ),
                Err(e) => Err(e),
            },
            _ => Err(LinkError::NotLinked),
        },
        GetUserStep::Done(_) => Err(LinkError::NotLinked),
    }
}

/// The profile request for the account that `options` names, without a session.
pub fn profile_request(options: &GetHammerfestUserOptions) -> (r: HammerfestGetProfileByIdOptions)
    ensures
        r.server == options.server,
        r.user_id == options.id,
{
    HammerfestGetProfileByIdOptions { server: options.server, user_id: options.id.clone() }
}

pub fn link_ref(user: &ShortHammerfestUser) -> (r: HammerfestUserIdRef)
    ensures
        r.server == user.server,
        r.id == user.id,
{
    HammerfestUserIdRef { server: user.server, id: user.id.clone() }
}

/// Looks up Hammerfest accounts: the local record first, the mirror only when
/// the account is not known locally, then its link.
pub struct HammerfestService<C, S, L, U> {
    pub hammerfest_client: C,
    pub hammerfest_store: S,
    pub link_store: L,
    pub user_store: U,
}

impl<C: HammerfestClient, S: HammerfestStore, L: LinkStore, U: UserStore> HammerfestService<C, S, L, U> {
    pub fn new(hammerfest_client: C, hammerfest_store: S, link_store: L, user_store: U) -> (r: Self)
        ensures
            r.hammerfest_client == hammerfest_client,
            r.hammerfest_store == hammerfest_store,
            r.link_store == link_store,
            r.user_store == user_store,
    {
        HammerfestService { hammerfest_client, hammerfest_store, link_store, user_store }
    }

    /// Makes one call, handing it exactly what `call` holds. An error of the
    /// client or a store comes back wrapped, unchanged.
    fn perform(&mut self, options: &GetHammerfestUserOptions, call: GetUserCall) -> (r: Result<
        GetUserEvent,
        HammerfestServiceError,
    >)
        requires
            !(call is Finished),
        ensures
            r matches Ok(ev) ==> answers(call, ev),
            r matches Err(e) ==> e is Client || e is Store,
    {
        match call {
            GetUserCall::LookupStore => match self.hammerfest_store.get_short_user(options) {
                Ok(s) => Ok(GetUserEvent::Stored(s)),
                Err(e) => Err(HammerfestServiceError::Store(e)),
            },
            GetUserCall::FetchProfile(request) => match self.hammerfest_client.get_profile_by_id(None, &request) {
                Ok(p) => Ok(GetUserEvent::Profile(p)),
                Err(e) => Err(HammerfestServiceError::Client(e)),
            },
            GetUserCall::Touch(u) => match self.hammerfest_store.touch_short_user(&u) {
                Ok(t) => Ok(GetUserEvent::Touched(t)),
                Err(e) => Err(HammerfestServiceError::Store(e)),
            },
            GetUserCall::FetchLink(remote, time) => match self.link_store.get_link_from_hammerfest(&remote, time) {
                Ok(l) => Ok(GetUserEvent::Link(l)),
                Err(e) => Err(HammerfestServiceError::Store(e)),
            },
            GetUserCall::ResolveUsers(None, _) => Ok(GetUserEvent::Users(None, None)),
            GetUserCall::ResolveUsers(Some((bound_by, etwin)), time) => {
                let b = match self.user_store.get_short_user(&bound_by, time) {
                    Ok(b) => b,
                    Err(e) => {
                        return Err(HammerfestServiceError::Store(e));
                    },
                };
                match self.user_store.get_short_user(&etwin, time) {
                    Ok(t) => Ok(GetUserEvent::Users(b, t)),
                    Err(e) => Err(HammerfestServiceError::Store(e)),
                }
            },
            GetUserCall::Finished => Ok(GetUserEvent::Users(None, None)),
        }
    }

    /// Runs the lookup steps: `get_user_call` names each call and what it is
    /// handed, `get_user_advance` takes what came back. An error of the client
    /// or a store ends the lookup and is returned unchanged; a user missing
    /// from the user store is an error, not an absent link.
    pub fn get_user(&mut self, options: &GetHammerfestUserOptions) -> (r: Result<
        Option<HammerfestUser>,
        HammerfestServiceError,
    >)
        ensures
            r matches Ok(found) ==> exists|steps: Seq<GetUserStep>, events: Seq<GetUserEvent>|
                #[trigger] is_run(steps, events) && steps.last() == GetUserStep::Done(found),
            r matches Err(HammerfestServiceError::Link(e)) ==> e is MissingUser && exists|
                steps: Seq<GetUserStep>,
                events: Seq<GetUserEvent>,
                ev: GetUserEvent,
            |
                #[trigger] is_run(steps, events) && event_fits(steps.last(), ev) && #[trigger] next_spec(steps.last(), ev)
                    == Err::<GetUserStep, LinkError>(e),
            r matches Err(e) ==> (e is Link || e is Client || e is Store),
            r matches Err(e) && !(e is Link) ==> exists|steps: Seq<GetUserStep>, events: Seq<GetUserEvent>|
                #[trigger] is_run(steps, events) && !(steps.last() is Done),
    {
        let mut step = GetUserStep::LookupStore;
        let ghost mut steps: Seq<GetUserStep> = seq![GetUserStep::LookupStore];
        let ghost mut events: Seq<GetUserEvent> = Seq::empty();
        loop
            invariant
                !(step is Done),
                is_run(steps, events),
                steps.last() == step,
            decreases step_rank(step),
        {
            let call = get_user_call(options, &step);
            let outcome = self.perform(options, call);
            let ghost before = step;
            let ghost answered = outcome;
            let next = match get_user_advance(step, outcome) {
                Ok(s) => s,
                Err(e) => {
                    proof {
                        if answered is Ok {
                            lemma_next_errors_are_missing_users(before, answered->Ok_0);
                        }
                    }
                    return Err(e);
                },
            };
            proof {
                let ev = answered->Ok_0;
                let old_steps = steps;
                let old_events = events;
                steps = steps.push(next);
                events = events.push(ev);
                assert forall|k: int| 0 <= k < events.len() implies event_fits(steps[k], #[trigger] events[k])
                    && next_spec(steps[k], events[k]) == Ok::<GetUserStep, LinkError>(steps[k + 1]) by {
                    if k < old_events.len() {
                        assert(steps[k] == old_steps[k] && steps[k + 1] == old_steps[k + 1] && events[k] == old_events[k]);
                    }
                }
                assert(steps[0] == old_steps[0]);
                assert(is_run(steps, events));
                assert(steps.last() == next);
            }
            let ghost reached = next;
            match next {
                GetUserStep::Done(found) => {
                    assert(reached == GetUserStep::Done(found));
                    assert(is_run(steps, events) && steps.last() == GetUserStep::Done(found));
                    return Ok(found);
                },
                other => {
                    step = other;
                },
            }
        }
    }
}

/// A call that a lookup step names, with what is handed to it.
#[derive(Debug, PartialEq, Eq)]
pub enum GetUserCall {
    /// `HammerfestStore::get_short_user` with the lookup's options.
    LookupStore,
    /// `HammerfestClient::get_profile_by_id`, without a session.
    FetchProfile(HammerfestGetProfileByIdOptions),
    /// `HammerfestStore::touch_short_user`.
    Touch(ShortHammerfestUser),
    /// `LinkStore::get_link_from_hammerfest` at a time.
    FetchLink(HammerfestUserIdRef, Option<Instant>),
    /// `UserStore::get_short_user` for both users of a binding, at a time; no
    /// call when there is no binding in force.
    ResolveUsers(Option<(UserId, UserId)>, Option<Instant>),
    Finished,
}

/// The event kind that answers a call.
pub open spec fn answers(call: GetUserCall, event: GetUserEvent) -> bool {
    match call {
        GetUserCall::LookupStore => event is Stored,
        GetUserCall::FetchProfile(_) => event is Profile,
        GetUserCall::Touch(_) => event is Touched,
        GetUserCall::FetchLink(_, _) => event is Link,
        GetUserCall::ResolveUsers(_, _) => event is Users,
        GetUserCall::Finished => false,
    }
}

/// The call that `step` names. The link and both user lookups are made at the
/// time of `options`, so that both ends of a binding are seen as of the same
/// time.
pub fn get_user_call(options: &GetHammerfestUserOptions, step: &GetUserStep) -> (r: GetUserCall)
    ensures
        *step is LookupStore ==> r == GetUserCall::LookupStore,
        *step is FetchProfile ==> (r matches GetUserCall::FetchProfile(o) && o.server == options.server
            && o.user_id == options.id),
        *step matches GetUserStep::Touch(u) ==> r == GetUserCall::Touch(u),
        *step matches GetUserStep::FetchLink(u) ==> (r matches GetUserCall::FetchLink(remote, time)
            && remote.server == u.server && remote.id == u.id && time == options.time),
        *step matches GetUserStep::ResolveUsers(_, l) ==> (r matches GetUserCall::ResolveUsers(ids, time)
            && time == options.time && match l.current {
            Some(c) => ids == Some((c.bound_by, c.etwin)),
            None => ids is None,
        }),
        *step is Done ==> r == GetUserCall::Finished,
        forall|ev: GetUserEvent| answers(r, ev) ==> event_fits(*step, ev),
{
    match step {
        GetUserStep::LookupStore => GetUserCall::LookupStore,
        GetUserStep::FetchProfile => GetUserCall::FetchProfile(profile_request(options)),
        GetUserStep::Touch(u) => GetUserCall::Touch(u.clone()),
        GetUserStep::FetchLink(u) => GetUserCall::FetchLink(link_ref(u), options.time),
        GetUserStep::ResolveUsers(_, l) => match &l.current {
            Some(c) => GetUserCall::ResolveUsers(Some((c.bound_by.clone(), c.etwin.clone())), options.time),
            None => GetUserCall::ResolveUsers(None, options.time),
        },
        GetUserStep::Done(_) => GetUserCall::Finished,
    }
}

/// The step after `step`, given what its call came back with: an error of the
/// call is returned unchanged and ends the lookup; an answer moves to the step
/// that `next_spec` gives.
pub fn get_user_advance(step: GetUserStep, outcome: Result<GetUserEvent, HammerfestServiceError>) -> (r: Result<
    GetUserStep,
    HammerfestServiceError,
>)
    requires
        outcome matches Ok(ev) ==> event_fits(step, ev),
    ensures
        outcome matches Err(e) ==> r == Err::<GetUserStep, HammerfestServiceError>(e),
        outcome matches Ok(ev) ==> match next_spec(step, ev) {
            Ok(s) => r == Ok::<GetUserStep, HammerfestServiceError>(s),
            Err(e) => r == Err::<GetUserStep, HammerfestServiceError>(HammerfestServiceError::Link(e)),
        },
        r matches Ok(s) ==> step_rank(s) < step_rank(step),
{
    match outcome {
        Err(e) => Err(e),
        Ok(ev) => match get_user_next(step, ev) {
            Ok(s) => Ok(s),
            Err(e) => {
                proof {
                    lemma_next_errors_are_missing_users(step, ev);
                }
                Err(HammerfestServiceError::Link(e))
            },
        },
    }
}

/// `steps` is a run of the lookup over what its calls returned: it starts at
/// `LookupStore`, and each step follows from the one before and `events[k]`,
/// the answer to that step's call.
pub open spec fn is_run(steps: Seq<GetUserStep>, events: Seq<GetUserEvent>) -> bool {
    &&& steps.len() == events.len() + 1
    &&& steps[0] == GetUserStep::LookupStore
    &&& forall|k: int|
        0 <= k < events.len() ==> event_fits(steps[k], #[trigger] events[k]) && next_spec(steps[k], events[k])
            == Ok::<GetUserStep, LinkError>(steps[k + 1])
}

proof fn lemma_run_settled_from(steps: Seq<GetUserStep>, events: Seq<GetUserEvent>, k: int)
    requires
        is_run(steps, events),
        1 <= k < steps.len(),
        settled(steps[1]),
    ensures
        settled(steps[k]),
    decreases k,
{
    if k > 1 {
        lemma_run_settled_from(steps, events, k - 1);
        lemma_settled_stays_settled(steps[k - 1], events[k - 1]);
    }
}

/// A lookup that finds the account in the store never calls the mirror and
/// never writes to the store.
pub proof fn lemma_cached_run(steps: Seq<GetUserStep>, events: Seq<GetUserEvent>)
    requires
        is_run(steps, events),
        events.len() > 0,
        events[0] matches GetUserEvent::Stored(Some(_)),
    ensures
        forall|k: int| 0 <= k < steps.len() ==> !calls_mirror(#[trigger] steps[k]) && !writes_store(steps[k]),
{
    assert(steps[1] is FetchLink);
    assert forall|k: int| 0 <= k < steps.len() implies !calls_mirror(#[trigger] steps[k]) && !writes_store(steps[k]) by {
        if k >= 1 {
            lemma_run_settled_from(steps, events, k);
        }
    }
}

/// A lookup of an account absent from the store and present on the mirror
/// writes to the store exactly once, at its third step, and calls the mirror
/// exactly once, at its second.
pub proof fn lemma_remote_only_run(steps: Seq<GetUserStep>, events: Seq<GetUserEvent>)
    requires
        is_run(steps, events),
        events.len() > 1,
        events[0] == GetUserEvent::Stored(None),
        events[1] matches GetUserEvent::Profile(Some(_)),
    ensures
        forall|k: int| 0 <= k < steps.len() ==> (writes_store(#[trigger] steps[k]) <==> k == 2),
        forall|k: int| 0 <= k < steps.len() ==> (calls_mirror(#[trigger] steps[k]) <==> k == 1),
{
    assert(steps[1] == GetUserStep::FetchProfile);
    assert(steps[2] is Touch);
    assert forall|k: int| 0 <= k < steps.len() implies (writes_store(#[trigger] steps[k]) <==> k == 2) && (calls_mirror(
        steps[k],
    ) <==> k == 1) by {
        if k >= 3 {
            assert(event_fits(steps[2], events[2]));
            assert(settled(steps[3]));
            lemma_run_from(steps, events, k);
        }
    }
}

proof fn lemma_run_from(steps: Seq<GetUserStep>, events: Seq<GetUserEvent>, k: int)
    requires
        is_run(steps, events),
        3 <= k < steps.len(),
        settled(steps[3]),
    ensures
        settled(steps[k]),
    decreases k,
{
    if k > 3 {
        lemma_run_from(steps, events, k - 1);
        lemma_settled_stays_settled(steps[k - 1], events[k - 1]);
    }
}

/// A lookup of an account absent from the store and from the mirror ends
/// with `None` after two calls and no write.
pub proof fn lemma_absent_run(steps: Seq<GetUserStep>, events: Seq<GetUserEvent>)
    requires
        is_run(steps, events),
        events.len() > 1,
        events[0] == GetUserEvent::Stored(None),
        events[1] == GetUserEvent::Profile(None),
    ensures
        steps[2] == GetUserStep::Done(None),
        events.len() == 2,
        forall|k: int| 0 <= k < steps.len() ==> !writes_store(#[trigger] steps[k]),
{
    assert(steps[1] == GetUserStep::FetchProfile);
    assert(steps[2] == GetUserStep::Done(None));
    if events.len() > 2 {
        assert(event_fits(steps[2], events[2]));
    }
}

proof fn lemma_next_errors_are_missing_users(step: GetUserStep, event: GetUserEvent)
    requires
        event_fits(step, event),
    ensures
        next_spec(step, event) matches Err(e) ==> e is MissingUser,
{
}

/// Only `FetchProfile` calls the mirror, and only `Touch` writes to the store.
pub open spec fn calls_mirror(step: GetUserStep) -> bool {
    step is FetchProfile
}

pub open spec fn writes_store(step: GetUserStep) -> bool {
    step is Touch
}

/// Steps after the account record is settled: none of them calls the mirror
/// or writes to the store.
pub open spec fn settled(step: GetUserStep) -> bool {
    step is FetchLink || step is ResolveUsers || step is Done
}

/// An account that is neither stored nor on the mirror: one call to the
/// mirror, no write, and the lookup ends with `None`.
pub proof fn lemma_get_user_absent()
    ensures
        next_spec(GetUserStep::LookupStore, GetUserEvent::Stored(None)) == Ok::<
            GetUserStep,
            LinkError,
        >(GetUserStep::FetchProfile),
        next_spec(GetUserStep::FetchProfile, GetUserEvent::Profile(None)) == Ok::<
            GetUserStep,
            LinkError,
        >(GetUserStep::Done(None)),
{
}

/// An account found on the mirror only: the lookup writes it to the store
/// exactly once, then settles, and no later step calls the mirror or writes.
pub proof fn lemma_get_user_remote_only(p: HammerfestProfile, touched: ShortHammerfestUser)
    ensures
        next_spec(GetUserStep::LookupStore, GetUserEvent::Stored(None)) == Ok::<
            GetUserStep,
            LinkError,
        >(GetUserStep::FetchProfile),
        next_spec(GetUserStep::FetchProfile, GetUserEvent::Profile(Some(p))) == Ok::<
            GetUserStep,
            LinkError,
        >(GetUserStep::Touch(p.user)),
        next_spec(GetUserStep::Touch(p.user), GetUserEvent::Touched(touched)) == Ok::<
            GetUserStep,
            LinkError,
        >(GetUserStep::FetchLink(touched)),
        settled(GetUserStep::FetchLink(touched)),
{
}

/// An account found in the store: the lookup settles at once, so the mirror
/// is never called and nothing is written.
pub proof fn lemma_get_user_cached(u: ShortHammerfestUser)
    ensures
        next_spec(GetUserStep::LookupStore, GetUserEvent::Stored(Some(u))) == Ok::<
            GetUserStep,
            LinkError,
        >(GetUserStep::FetchLink(u)),
        settled(GetUserStep::FetchLink(u)),
{
}

/// Once settled, a lookup stays settled: no later step calls the mirror or
/// writes to the store.
pub proof fn lemma_settled_stays_settled(step: GetUserStep, event: GetUserEvent)
    requires
        settled(step),
        event_fits(step, event),
    ensures
        next_spec(step, event) matches Ok(s) ==> settled(s) && !calls_mirror(s) && !writes_store(s),
{
}

} // verus!
