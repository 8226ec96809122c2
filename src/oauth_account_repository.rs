use vstd::prelude::*;

use crate::errors::ServiceError;
use crate::model::{LinkRow, OAuthLink, Provider};
use crate::seq_facts::{
    find_first, key_is, lemma_filter_all, lemma_filter_unique_by, lemma_find_by_key,
    lemma_push_unique_by, unique_by,
};

verus! {

/// The abstract contents of the OAuth link table.
pub struct LinkTable {
    pub links: Seq<LinkRow>,
    pub next_id: i32,
}

pub open spec fn link_id_key() -> spec_fn(LinkRow) -> i32 {
    |l: LinkRow| l.id
}

pub open spec fn identity_key() -> spec_fn(LinkRow) -> (Provider, Seq<char>) {
    |l: LinkRow| (l.provider, l.provider_user_id)
}

/// Ids and (provider, provider user id) pairs are unique; ids lie below `next_id`.
pub open spec fn link_table_wf(t: LinkTable) -> bool {
    &&& unique_by(t.links, link_id_key())
    &&& unique_by(t.links, identity_key())
    &&& 1 <= t.next_id
    &&& forall|i: int| 0 <= i < t.links.len() ==> 1 <= #[trigger] t.links[i].id < t.next_id
}

/// The link of a provider identity, if any.
pub open spec fn link_for(links: Seq<LinkRow>, provider: Provider, provider_user_id: Seq<char>) -> Option<LinkRow> {
    find_first(links, key_is(identity_key(), (provider, provider_user_id)))
}

/// Inserting a link: refused when the identity is linked already, or ids are exhausted.
pub open spec fn spec_create_link(
    t: LinkTable,
    user_id: i32,
    provider: Provider,
    provider_user_id: Seq<char>,
    now: i64,
) -> (LinkTable, Result<LinkRow, ServiceError>) {
    if link_for(t.links, provider, provider_user_id) is Some {
        (t, Err(ServiceError::Conflict))
    } else if t.next_id == i32::MAX {
        (t, Err(ServiceError::Persistence))
    } else {
        let row = LinkRow { id: t.next_id, user_id, provider, provider_user_id, created_at: now, updated_at: now };
        (LinkTable { links: t.links.push(row), next_id: (t.next_id + 1) as i32 }, Ok(row))
    }
}

/// Creating a link keeps the table well formed and keeps earlier rows in place; the new
/// link is found by its identity, and no other identity's lookup changes.
pub proof fn lemma_create_link(t: LinkTable, user_id: i32, provider: Provider, provider_user_id: Seq<char>, now: i64)
    requires
        link_table_wf(t),
    ensures
        ({
            let (t2, r) = spec_create_link(t, user_id, provider, provider_user_id, now);
            &&& link_table_wf(t2)
            &&& r is Err ==> t2 == t
            &&& r is Ok ==> {
                &&& t2.links == t.links.push(r->Ok_0)
                &&& r->Ok_0.user_id == user_id
                &&& link_for(t2.links, provider, provider_user_id) == Some(r->Ok_0)
            }
            &&& forall|p: Provider, q: Seq<char>| (p, q) != (provider, provider_user_id)
                ==> #[trigger] link_for(t2.links, p, q) == link_for(t.links, p, q)
        }),
{
    let (t2, r) = spec_create_link(t, user_id, provider, provider_user_id, now);
    if r is Ok {
        let row = r->Ok_0;
        let os = t.links;
        let ss = t2.links;
        assert(find_first(os, key_is(link_id_key(), row.id)) is None) by {
            if exists|i: int| 0 <= i < os.len() && #[trigger] key_is(link_id_key(), row.id)(os[i]) {
                let i = choose|i: int| 0 <= i < os.len() && #[trigger] key_is(link_id_key(), row.id)(os[i]);
                assert(os[i].id < row.id);
            }
        }
        lemma_push_unique_by(os, link_id_key(), row);
        lemma_push_unique_by(os, identity_key(), row);
        assert forall|i: int| 0 <= i < ss.len() implies 1 <= #[trigger] ss[i].id < t2.next_id by {
            if i < ss.len() - 1 {
                assert(ss[i] == os[i]);
            }
        }
        lemma_find_by_key(ss, identity_key(), ss.len() - 1);
        assert forall|p: Provider, q: Seq<char>| (p, q) != (provider, provider_user_id)
            implies #[trigger] link_for(ss, p, q) == link_for(os, p, q) by {
            let k = key_is(identity_key(), (p, q));
            if exists|i: int| 0 <= i < os.len() && #[trigger] k(os[i]) {
                let i = choose|i: int| 0 <= i < os.len() && #[trigger] k(os[i]);
                assert(ss[i] == os[i]);
                lemma_find_by_key(os, identity_key(), i);
                lemma_find_by_key(ss, identity_key(), i);
            } else {
                assert forall|i: int| 0 <= i < ss.len() implies !#[trigger] k(ss[i]) by {
                    if i < os.len() {
                        assert(ss[i] == os[i]);
                    }
                }
            }
        }
    }
}

pub open spec fn link_rows(v: Seq<OAuthLink>) -> Seq<LinkRow> {
    v.map_values(|l: OAuthLink| l@)
}

pub open spec fn links_of(links: Seq<LinkRow>, user_id: i32) -> Seq<LinkRow> {
    links.filter(|l: LinkRow| l.user_id == user_id)
}

pub open spec fn links_not_of(links: Seq<LinkRow>, user_id: i32) -> Seq<LinkRow> {
    links.filter(|l: LinkRow| l.user_id != user_id)
}

pub open spec fn links_without_id(links: Seq<LinkRow>, id: i32) -> Seq<LinkRow> {
    links.filter(|l: LinkRow| l.id != id)
}

enum LinkKeep {
    IdOtherThan(i32),
    OwnerOtherThan(i32),
    OwnedBy(i32),
}

spec fn link_keeps(k: LinkKeep, l: LinkRow) -> bool {
    match k {
        LinkKeep::IdOtherThan(id) => l.id != id,
        LinkKeep::OwnerOtherThan(u) => l.user_id != u,
        LinkKeep::OwnedBy(u) => l.user_id == u,
    }
}

fn link_filtered(ls: &Vec<OAuthLink>, k: LinkKeep) -> (out: Vec<OAuthLink>)
    ensures
        link_rows(out@) == link_rows(ls@).filter(|l: LinkRow| link_keeps(k, l)),
{
    let ghost f = |l: LinkRow| link_keeps(k, l);
    let mut out: Vec<OAuthLink> = Vec::new();
    let mut i: usize = 0;
    while i < ls.len()
        invariant
            0 <= i <= ls@.len(),
            f == (|l: LinkRow| link_keeps(k, l)),
            link_rows(out@) == link_rows(ls@).take(i as int).filter(f),
        decreases ls@.len() - i,
    {
        let l = &ls[i];
        let kept = match k {
            LinkKeep::IdOtherThan(id) => l.id != id,
            LinkKeep::OwnerOtherThan(u) => l.user_id != u,
            LinkKeep::OwnedBy(u) => l.user_id == u,
        };
        let ghost before = out@;
        if kept {
            out.push(l.copy());
            assert(link_rows(out@) =~= link_rows(before).push(l@));
        }
        proof {
            let t = link_rows(ls@).take(i + 1);
            assert(t.drop_last() =~= link_rows(ls@).take(i as int));
            assert(t.last() == l@);
            reveal(Seq::filter);
            assert(f(l@) == kept);
        }
        i = i + 1;
    }
    assert(link_rows(ls@).take(ls@.len() as int) =~= link_rows(ls@));
    out
}

proof fn lemma_link_filter_keeps_wf(t: LinkTable, p: spec_fn(LinkRow) -> bool)
    requires
        link_table_wf(t),
    ensures
        link_table_wf(LinkTable { links: t.links.filter(p), next_id: t.next_id }),
        t.links.filter(p).len() <= t.links.len(),
{
    t.links.lemma_filter_len(p);
    lemma_filter_unique_by(t.links, p, link_id_key());
    lemma_filter_unique_by(t.links, p, identity_key());
    let q = |l: LinkRow| 1 <= l.id < t.next_id;
    lemma_filter_all(t.links, p, q);
    let g = t.links.filter(p);
    assert forall|k: int| 0 <= k < g.len() implies 1 <= #[trigger] g[k].id < t.next_id by {
        assert(q(g[k]));
    }
}

/// Links from provider identities to local users.
pub struct OAuthAccountRepository {
    links: Vec<OAuthLink>,
    next_id: i32,
}

impl View for OAuthAccountRepository {
    type V = LinkTable;

    closed spec fn view(&self) -> LinkTable {
        LinkTable { links: link_rows(self.links@), next_id: self.next_id }
    }
}

impl OAuthAccountRepository {
    pub open spec fn wf(&self) -> bool {
        link_table_wf(self@)
    }

    /// How many rows the table holds.
    pub fn count(&self) -> (r: usize)
        ensures
            r == self@.links.len(),
    {
        self.links.len()
    }

    pub fn new() -> (r: Self)
        ensures
            r.wf(),
            r@.links.len() == 0,
            r@.next_id == 1,
    {
        let r = OAuthAccountRepository { links: Vec::new(), next_id: 1 };
        assert(r@.links =~= Seq::<LinkRow>::empty());
        r
    }

    fn position(&self, provider: Provider, provider_user_id: &String) -> (r: Option<usize>)
        requires
            self.wf(),
        ensures
            match r {
                Some(i) => i < self@.links.len() && link_for(self@.links, provider, provider_user_id@)
                    == Some(self@.links[i as int]),
                None => link_for(self@.links, provider, provider_user_id@) is None,
            },
    {
        let ghost p = key_is(identity_key(), (provider, provider_user_id@));
        let mut i: usize = 0;
        while i < self.links.len()
            invariant
                0 <= i <= self.links@.len(),
                self.wf(),
                p == key_is(identity_key(), (provider, provider_user_id@)),
                forall|j: int| 0 <= j < i ==> !#[trigger] p(self@.links[j]),
            decreases self.links@.len() - i,
        {
            let l = &self.links[i];
            assert(l@ == self@.links[i as int]);
            if l.provider == provider && l.provider_user_id == *provider_user_id {
                proof {
                    lemma_find_by_key(self@.links, identity_key(), i as int);
                }
                return Some(i);
            }
            i = i + 1;
        }
        None
    }

    pub fn find_by_provider_and_id(&self, provider: Provider, provider_user_id: &String) -> (r: Option<OAuthLink>)
        requires
            self.wf(),
        ensures
            match r {
                Some(l) => link_for(self@.links, provider, provider_user_id@) == Some(l@),
                None => link_for(self@.links, provider, provider_user_id@) is None,
            },
    {
        match self.position(provider, provider_user_id) {
            Some(i) => Some(self.links[i].copy()),
            None => None,
        }
    }

    /// Every link of `user_id`, in insertion order.
    pub fn find_by_user_id(&self, user_id: i32) -> (r: Vec<OAuthLink>)
        ensures
            link_rows(r@) == links_of(self@.links, user_id),
    {
        let r = link_filtered(&self.links, LinkKeep::OwnedBy(user_id));
        assert((|l: LinkRow| link_keeps(LinkKeep::OwnedBy(user_id), l)) =~= (|l: LinkRow| l.user_id == user_id));
        r
    }

    /// Stores a new link.
    pub fn create(&mut self, user_id: i32, provider: Provider, provider_user_id: String, now: i64) -> (r: Result<OAuthLink, ServiceError>)
        requires
            old(self).wf(),
        ensures
            final(self).wf(),
            (final(self)@, match r {
                Ok(l) => Ok(l@),
                Err(e) => Err(e),
            }) == spec_create_link(old(self)@, user_id, provider, provider_user_id@, now),
    {
        if self.position(provider, &provider_user_id).is_some() {
            return Err(ServiceError::Conflict);
        }
        if self.next_id == i32::MAX {
            return Err(ServiceError::Persistence);
        }
        let link = OAuthLink {
            id: self.next_id,
            user_id,
            provider,
            provider_user_id,
            created_at: now,
            updated_at: now,
        };
        let out = link.copy();
        let ghost os = self@;
        proof {
            lemma_create_link(os, user_id, provider, out@.provider_user_id, now);
        }
        self.links.push(link);
        self.next_id = self.next_id + 1;
        assert(self@.links =~= os.links.push(out@));
        Ok(out)
    }

    /// Deletes the link `id`; returns how many rows went.
    pub fn delete(&mut self, id: i32) -> (r: usize)
        requires
            old(self).wf(),
        ensures
            final(self).wf(),
            final(self)@.links == links_without_id(old(self)@.links, id),
            final(self)@.next_id == old(self)@.next_id,
            r == old(self)@.links.len() - final(self)@.links.len(),
    {
        let kept = link_filtered(&self.links, LinkKeep::IdOtherThan(id));
        assert((|l: LinkRow| link_keeps(LinkKeep::IdOtherThan(id), l)) =~= (|l: LinkRow| l.id != id));
        proof {
            lemma_link_filter_keeps_wf(old(self)@, |l: LinkRow| l.id != id);
        }
        let r = self.links.len() - kept.len();
        self.links = kept;
        r
    }

    /// Deletes every link of `user_id`; returns how many rows went.
    pub fn delete_by_user_id(&mut self, user_id: i32) -> (r: usize)
        requires
            old(self).wf(),
        ensures
            final(self).wf(),
            final(self)@.links == links_not_of(old(self)@.links, user_id),
            final(self)@.next_id == old(self)@.next_id,
            r == old(self)@.links.len() - final(self)@.links.len(),
    {
        let kept = link_filtered(&self.links, LinkKeep::OwnerOtherThan(user_id));
        assert((|l: LinkRow| link_keeps(LinkKeep::OwnerOtherThan(user_id), l)) =~= (|l: LinkRow| l.user_id != user_id));
        proof {
            lemma_link_filter_keeps_wf(old(self)@, |l: LinkRow| l.user_id != user_id);
        }
        let r = self.links.len() - kept.len();
        self.links = kept;
        r
    }
}

} // verus!
