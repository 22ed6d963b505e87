use vstd::prelude::*;
use crate::ids::HammerfestUserId;
use crate::model::Instant;
use crate::server::HammerfestServer;

verus! {

/// An internal (etwin) user id.
#[derive(Debug, PartialEq, Eq, PartialOrd, Ord, Hash)]
pub struct UserId {
    pub uuid: String,
}

impl Clone for UserId {
    fn clone(&self) -> (r: Self)
        ensures
            r == *self,
    {
        UserId { uuid: self.uuid.clone() }
    }
}

/// The display record of an internal user.
#[derive(Debug, PartialEq, Eq, PartialOrd, Ord, Hash)]
pub struct ShortUser {
    pub id: UserId,
    pub display_name: String,
}

impl Clone for ShortUser {
    fn clone(&self) -> (r: Self)
        ensures
            r == *self,
    {
        ShortUser { id: self.id.clone(), display_name: self.display_name.clone() }
    }
}

/// A reference to a Hammerfest account: mirror and id.
#[derive(Debug, PartialEq, Eq, PartialOrd, Ord, Hash)]
pub struct HammerfestUserIdRef {
    pub server: HammerfestServer,
    pub id: HammerfestUserId,
}

impl Clone for HammerfestUserIdRef {
    fn clone(&self) -> (r: Self)
        ensures
            r == *self,
    {
        HammerfestUserIdRef { server: self.server, id: self.id.clone() }
    }
}

/// One binding of a Hammerfest account to an internal user, made by `bound_by`
/// at `bound_time`.
#[derive(Debug, PartialEq, Eq, PartialOrd, Ord, Hash)]
pub struct RawLink {
    pub remote: HammerfestUserIdRef,
    pub etwin: UserId,
    pub bound_by: UserId,
    pub bound_time: Instant,
}

impl Clone for RawLink {
    fn clone(&self) -> (r: Self)
        ensures
            r == *self,
    {
        RawLink {
            remote: self.remote.clone(),
            etwin: self.etwin.clone(),
            bound_by: self.bound_by.clone(),
            bound_time: self.bound_time,
        }
    }
}

/// The link history of one Hammerfest account: the binding in force, if any,
/// and the bindings that ended, oldest first.
#[derive(Debug, PartialEq, Eq)]
pub struct VersionedLink {
    pub current: Option<RawLink>,
    pub history: Vec<RawLink>,
}

/// What a link operation refused.
#[derive(Clone, Debug, PartialEq, Eq)]
pub enum LinkError {
    /// `bind` while a binding is in force.
    AlreadyLinked,
    /// `bind` with a time earlier than a binding already recorded.
    OutOfOrder,
    /// `unbind` with no binding in force.
    NotLinked,
    /// A user that a binding names is missing from the user store.
    MissingUser(UserId),
}

pub type LinkView = (Option<RawLink>, Seq<RawLink>);

impl View for VersionedLink {
    type V = LinkView;

    open spec fn view(&self) -> LinkView {
        (self.current, self.history@)
    }
}

pub open spec fn empty_link() -> LinkView {
    (None, Seq::empty())
}

/// Bindings are recorded in time order, and the binding in force is the latest.
pub open spec fn link_wf(v: LinkView) -> bool {
    &&& forall|i: int, j: int|
        0 <= i < j < v.1.len() ==> v.1[i].bound_time.millis <= v.1[j].bound_time.millis
    &&& (v.0 is Some && v.1.len() > 0 ==> v.1.last().bound_time.millis
        <= v.0->Some_0.bound_time.millis)
}

pub open spec fn bind_spec(v: LinkView, l: RawLink) -> Result<LinkView, LinkError> {
    if v.0 is Some {
        Err(LinkError::AlreadyLinked)
    } else if v.1.len() > 0 && l.bound_time.millis < v.1.last().bound_time.millis {
        Err(LinkError::OutOfOrder)
    } else {
        Ok((Some(l), v.1))
    }
}

pub open spec fn unbind_spec(v: LinkView) -> Result<LinkView, LinkError> {
    match v.0 {
        Some(c) => Ok((None, v.1.push(c))),
        None => Err(LinkError::NotLinked),
    }
}

impl Clone for VersionedLink {
    fn clone(&self) -> (r: Self)
        ensures
            r@ == self@,
    {
        let current = match &self.current {
            Some(c) => Some(c.clone()),
            None => None,
        };
        let mut history: Vec<RawLink> = Vec::new();
        let mut k: usize = 0;
        while k < self.history.len()
            invariant
                k <= self.history@.len(),
                history@ == self.history@.subrange(0, k as int),
            decreases self.history@.len() - k,
        {
            history.push(self.history[k].clone());
            k = k + 1;
        }
        assert(self.history@.subrange(0, k as int) == self.history@);
        VersionedLink { current, history }
    }
}

impl VersionedLink {
    /// No binding, ever.
    pub fn empty() -> (r: VersionedLink)
        ensures
            r@ == empty_link(),
            r.current is None,
            r.history@.len() == 0,
    {
        VersionedLink { current: None, history: Vec::new() }
    }

    pub open spec fn wf(&self) -> bool {
        link_wf(self@)
    }

    /// Puts `l` in force. On an error nothing changes.
    pub fn bind(&mut self, l: RawLink) -> (r: Result<(), LinkError>)
        ensures
            match bind_spec(old(self)@, l) {
                Ok(w) => r is Ok && final(self)@ == w,
                Err(e) => r == Err::<(), LinkError>(e) && final(self)@ == old(self)@,
            },
    {
        if self.current.is_some() {
            return Err(LinkError::AlreadyLinked);
        }
        let n = self.history.len();
        if n > 0 && l.bound_time.millis < self.history[n - 1].bound_time.millis {
            return Err(LinkError::OutOfOrder);
        }
        self.current = Some(l);
        Ok(())
    }

    /// Ends the binding in force; it stays in the history. On an error nothing
    /// changes.
    pub fn unbind(&mut self) -> (r: Result<(), LinkError>)
        ensures
            match unbind_spec(old(self)@) {
                Ok(w) => r is Ok && final(self)@ == w,
                Err(e) => r == Err::<(), LinkError>(e) && final(self)@ == old(self)@,
            },
    {
        match self.current.take() {
            Some(c) => {
                self.history.push(c);
                Ok(())
            },
            None => Err(LinkError::NotLinked),
        }
    }
}

/// Binding and unbinding keep the history in time order.
pub proof fn lemma_link_ops_keep_order(v: LinkView, l: RawLink)
    requires
        link_wf(v),
    ensures
        bind_spec(v, l) matches Ok(w) ==> link_wf(w),
        unbind_spec(v) matches Ok(w) ==> link_wf(w),
{
    if let Some(c) = v.0 {
        let w = v.1.push(c);
        assert forall|i: int, j: int| 0 <= i < j < w.len() implies w[i].bound_time.millis
            <= w[j].bound_time.millis by {
            if j == w.len() - 1 && i < v.1.len() {
                assert(v.1[i].bound_time.millis <= v.1.last().bound_time.millis);
            }
        }
    }
}

/// An account with no link history has no binding in force and an empty history.
pub proof fn lemma_empty_link()
    ensures
        empty_link().0 is None,
        empty_link().1 == Seq::<RawLink>::empty(),
        link_wf(empty_link()),
{
}

/// Binding an account with no history, then unbinding it, leaves no binding in
/// force and one entry in the history: the binding, with its time.
pub proof fn lemma_bind_then_unbind(l: RawLink)
    ensures
        bind_spec(empty_link(), l) == Ok::<LinkView, LinkError>((Some(l), Seq::<RawLink>::empty())),
        unbind_spec((Some(l), Seq::<RawLink>::empty())) matches Ok(w) && w.0 is None && w.1.len()
            == 1 && w.1[0] == l && w.1[0].bound_time == l.bound_time,
{
    assert(Seq::<RawLink>::empty().push(l)[0] == l);
}

/// A binding in force, with both of its users looked up.
#[derive(Clone, Debug, PartialEq, Eq)]
pub struct EtwinLink {
    pub bound_time: Instant,
    pub bound_by: ShortUser,
    pub etwin: ShortUser,
}

/// A link history whose binding in force has been resolved against the user store.
#[derive(Clone, Debug, PartialEq, Eq)]
pub struct VersionedEtwinLink {
    pub current: Option<EtwinLink>,
    pub history: Vec<RawLink>,
}

pub open spec fn expand_spec(link: VersionedLink, bound_by: Option<ShortUser>, etwin: Option<ShortUser>) -> Result<VersionedEtwinLink, LinkError> {
    match link.current {
        None => Ok(VersionedEtwinLink { current: None, history: link.history }),
        Some(c) => match (bound_by, etwin) {
            (Some(b), Some(t)) => Ok(
                VersionedEtwinLink {
                    current: Some(EtwinLink { bound_time: c.bound_time, bound_by: b, etwin: t }),
                    history: link.history,
                },
            ),
            (None, _) => Err(LinkError::MissingUser(c.bound_by)),
            (Some(_), None) => Err(LinkError::MissingUser(c.etwin)),
        },
    }
}

/// Resolves the binding in force of `link` with the users that the store
/// returned for its two ends (`bound_by` and `etwin`, looked up at the same
/// time). A missing user is an inconsistency of the store, reported as an
/// error naming that user, never as "no link".
pub fn expand_link(link: VersionedLink, bound_by: Option<ShortUser>, etwin: Option<ShortUser>) -> (r:
    Result<VersionedEtwinLink, LinkError>)
    ensures
        r == expand_spec(link, bound_by, etwin),
        link.current is None ==> (r matches Ok(e) && e.current is None && e.history@
            == link.history@),
        link.current matches Some(c) ==> match (bound_by, etwin) {
            (Some(b), Some(t)) => r matches Ok(e) && e.current == Some(
                EtwinLink { bound_time: c.bound_time, bound_by: b, etwin: t },
            ) && e.history@ == link.history@,
            (None, _) => r == Err::<VersionedEtwinLink, LinkError>(LinkError::MissingUser(c.bound_by)),
            (Some(_), None) => r == Err::<VersionedEtwinLink, LinkError>(LinkError::MissingUser(c.etwin)),
        },
{
    match link.current {
        None => Ok(VersionedEtwinLink { current: None, history: link.history }),
        Some(c) => match bound_by {
            None => Err(LinkError::MissingUser(c.bound_by)),
            Some(b) => match etwin {
                None => Err(LinkError::MissingUser(c.etwin)),
                Some(t) => Ok(
                    VersionedEtwinLink {
                        current: Some(EtwinLink { bound_time: c.bound_time, bound_by: b, etwin: t }),
                        history: link.history,
                    },
                ),
            },
        },
    }
}

} // verus!
