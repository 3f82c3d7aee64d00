//! Campaigns and the registry that resolves their names and ids.

use crate::text::{same_text, starts_with};
use vstd::prelude::*;

verus! {

/// A named game that sessions belong to, run by one game master.
#[derive(Debug, PartialEq, Eq)]
pub struct Campaign {
    pub id: i64,
    pub dm_id: String,
    pub name: String,
    pub description: String,
}

/// What a campaign holds, with its texts as sequences of characters.
pub struct CampaignView {
    pub id: i64,
    pub dm_id: Seq<char>,
    pub name: Seq<char>,
    pub description: Seq<char>,
}

impl View for Campaign {
    type V = CampaignView;

    open spec fn view(&self) -> CampaignView {
        CampaignView {
            id: self.id,
            dm_id: self.dm_id@,
            name: self.name@,
            description: self.description@,
        }
    }
}

impl Clone for Campaign {
    fn clone(&self) -> (copy: Campaign)
        ensures
            copy == *self,
    {
        Campaign {
            id: self.id,
            dm_id: self.dm_id.clone(),
            name: self.name.clone(),
            description: self.description.clone(),
        }
    }
}

/// Why the registry refused a request.
#[derive(Clone, Copy, Debug, PartialEq, Eq, Structural)]
pub enum RegistryError {
    /// No campaign has the name or id that was asked for.
    NotFound,
    /// A campaign with this id is registered already.
    DuplicateId,
    /// A campaign with this name is registered already: a second one would
    /// make the name ambiguous.
    DuplicateName,
}

/// No two campaigns share an id, and no two share a name.
pub open spec fn distinct_campaigns(cs: Seq<CampaignView>) -> bool {
    forall|i: int, j: int|
        0 <= i < j < cs.len() ==> (#[trigger] cs[i]).id != (#[trigger] cs[j]).id && cs[i].name
            != cs[j].name
}

/// Some campaign of `cs` is called `name`.
pub open spec fn has_name(cs: Seq<CampaignView>, name: Seq<char>) -> bool {
    exists|i: int| 0 <= i < cs.len() && (#[trigger] cs[i]).name == name
}

/// Some campaign of `cs` has the id `id`.
pub open spec fn has_id(cs: Seq<CampaignView>, id: i64) -> bool {
    exists|i: int| 0 <= i < cs.len() && (#[trigger] cs[i]).id == id
}

/// The campaign of `cs` that is called `name`, where there is one.
pub open spec fn campaign_named(cs: Seq<CampaignView>, name: Seq<char>) -> CampaignView {
    cs[choose|i: int| 0 <= i < cs.len() && (#[trigger] cs[i]).name == name]
}

/// The campaign of `cs` with the id `id`, where there is one.
pub open spec fn campaign_with_id(cs: Seq<CampaignView>, id: i64) -> CampaignView {
    cs[choose|i: int| 0 <= i < cs.len() && (#[trigger] cs[i]).id == id]
}

/// The id that `name` resolves to.
pub open spec fn id_of_name(cs: Seq<CampaignView>, name: Seq<char>) -> Option<i64> {
    if has_name(cs, name) {
        Some(campaign_named(cs, name).id)
    } else {
        None
    }
}

/// The names of the campaigns, in their order.
pub open spec fn names_of(cs: Seq<CampaignView>) -> Seq<Seq<char>> {
    cs.map_values(|c: CampaignView| c.name)
}

/// The texts of a list of strings.
pub open spec fn texts_of(v: Seq<String>) -> Seq<Seq<char>> {
    v.map_values(|s: String| s@)
}

/// Among distinct campaigns a name belongs to one campaign only.
pub proof fn lemma_name_is_unique(cs: Seq<CampaignView>, i: int)
    requires
        distinct_campaigns(cs),
        0 <= i < cs.len(),
    ensures
        has_name(cs, cs[i].name),
        campaign_named(cs, cs[i].name) == cs[i],
        id_of_name(cs, cs[i].name) == Some(cs[i].id),
{
    let name = cs[i].name;
    let j = choose|j: int| 0 <= j < cs.len() && (#[trigger] cs[j]).name == name;
    assert(i == j) by {
        if i < j {
            assert(cs[i].name != cs[j].name);
        } else if j < i {
            assert(cs[j].name != cs[i].name);
        }
    }
}

/// Among distinct campaigns an id belongs to one campaign only.
pub proof fn lemma_id_is_unique(cs: Seq<CampaignView>, i: int)
    requires
        distinct_campaigns(cs),
        0 <= i < cs.len(),
    ensures
        has_id(cs, cs[i].id),
        campaign_with_id(cs, cs[i].id) == cs[i],
{
    let id = cs[i].id;
    let j = choose|j: int| 0 <= j < cs.len() && (#[trigger] cs[j]).id == id;
    assert(i == j) by {
        if i < j {
            assert(cs[i].id != cs[j].id);
        } else if j < i {
            assert(cs[j].id != cs[i].id);
        }
    }
}

/// Leaving entries out of a list without duplicates makes no duplicates.
pub proof fn lemma_filter_keeps_distinct<A>(s: Seq<A>, pred: spec_fn(A) -> bool)
    requires
        s.no_duplicates(),
    ensures
        s.filter(pred).no_duplicates(),
    decreases s.len(),
{
    reveal(Seq::filter);
    if s.len() > 0 {
        let front = s.drop_last();
        let last = s.last();
        assert(front.no_duplicates()) by {
            assert forall|i: int, j: int|
                0 <= i < front.len() && 0 <= j < front.len() && i != j implies front[i]
                != front[j] by {
                assert(front[i] == s[i] && front[j] == s[j]);
            }
        }
        lemma_filter_keeps_distinct(front, pred);
        let kept = front.filter(pred);
        if pred(last) {
            assert forall|i: int, j: int|
                0 <= i < kept.push(last).len() && 0 <= j < kept.push(last).len() && i
                != j implies kept.push(last)[i] != kept.push(last)[j] by {
                if i < kept.len() && j < kept.len() {
                } else {
                    let k = if i < kept.len() {
                        i
                    } else {
                        j
                    };
                    assert(kept.contains(kept[k]));
                    front.lemma_filter_contains_rev(pred, kept[k]);
                    let m = choose|m: int| 0 <= m < front.len() && front[m] == kept[k];
                    assert(s[m] != s[s.len() - 1]);
                }
            }
        }
    }
}

/// The names of distinct campaigns are different from each other.
pub proof fn lemma_names_are_distinct(cs: Seq<CampaignView>)
    requires
        distinct_campaigns(cs),
    ensures
        names_of(cs).no_duplicates(),
{
    let names = names_of(cs);
    assert forall|i: int, j: int|
        0 <= i < names.len() && 0 <= j < names.len() && i != j implies names[i] != names[j] by {
        if i < j {
            assert(cs[i].name != cs[j].name);
        } else {
            assert(cs[j].name != cs[i].name);
        }
    }
}

/// The names that are suggested for `partial` among `names`.
pub open spec fn suggestions(names: Seq<Seq<char>>, partial: Seq<char>) -> Seq<Seq<char>> {
    names.filter(|n: Seq<char>| partial.is_prefix_of(n))
}

/// A name is suggested exactly if it is one of the names and begins with
/// what was typed.
pub proof fn lemma_suggested_names(names: Seq<Seq<char>>, partial: Seq<char>, name: Seq<char>)
    ensures
        suggestions(names, partial).contains(name) <==> names.contains(name)
            && partial.is_prefix_of(name),
{
    let pred = |n: Seq<char>| partial.is_prefix_of(n);
    let kept = names.filter(pred);
    if kept.contains(name) {
        names.lemma_filter_contains_rev(pred, name);
        let i = choose|i: int| 0 <= i < kept.len() && kept[i] == name;
        names.lemma_filter_pred(pred, i);
    }
    if names.contains(name) && partial.is_prefix_of(name) {
        let i = choose|i: int| 0 <= i < names.len() && names[i] == name;
        names.lemma_filter_contains(pred, i);
    }
}

/// Where nothing was typed, every name is suggested, in the same order.
pub proof fn lemma_empty_prefix_suggests_every_name(names: Seq<Seq<char>>, partial: Seq<char>)
    requires
        partial.len() == 0,
    ensures
        suggestions(names, partial) == names,
    decreases names.len(),
{
    reveal(Seq::filter);
    let pred = |n: Seq<char>| partial.is_prefix_of(n);
    if names.len() > 0 {
        lemma_empty_prefix_suggests_every_name(names.drop_last(), partial);
        assert(partial =~= names.last().subrange(0, 0));
        assert(pred(names.last()));
        assert(names =~= names.drop_last().push(names.last()));
    } else {
        assert(names.filter(pred) =~= names);
    }
}

/// The campaigns that are known, each with an id and a name of its own.
#[derive(Debug)]
pub struct CampaignRegistry {
    pub campaigns: Vec<Campaign>,
}

impl View for CampaignRegistry {
    type V = Seq<CampaignView>;

    open spec fn view(&self) -> Seq<CampaignView> {
        self.campaigns@.map_values(|c: Campaign| c@)
    }
}

impl CampaignRegistry {
    /// Ids and names are distinct.
    pub open spec fn wf(&self) -> bool {
        distinct_campaigns(self@)
    }

    /// A registry without campaigns.
    pub fn new() -> (registry: CampaignRegistry)
        ensures
            registry.wf(),
            registry@ == Seq::<CampaignView>::empty(),
    {
        let registry = CampaignRegistry { campaigns: Vec::new() };
        assert(registry@ =~= Seq::<CampaignView>::empty());
        registry
    }

    /// The number of campaigns.
    pub fn len(&self) -> (n: usize)
        ensures
            n == self@.len(),
    {
        self.campaigns.len()
    }

    /// Whether ids and names are distinct: the test of [`Self::wf`] for a
    /// registry that was put together by hand.
    pub fn is_valid(&self) -> (valid: bool)
        ensures
            valid == self.wf(),
    {
        let n = self.campaigns.len();
        let mut j: usize = 0;
        while j < n
            invariant
                j <= n,
                n == self.campaigns.len(),
                forall|a: int, b: int|
                    0 <= a < b < j ==> (#[trigger] self@[a]).id != (#[trigger] self@[b]).id
                        && self@[a].name != self@[b].name,
            decreases n - j,
        {
            let mut i: usize = 0;
            while i < j
                invariant
                    i <= j,
                    j < n,
                    n == self.campaigns.len(),
                    forall|a: int|
                        0 <= a < i ==> (#[trigger] self@[a]).id != self@[j as int].id
                            && self@[a].name != self@[j as int].name,
                decreases j - i,
            {
                let one = &self.campaigns[i];
                let other = &self.campaigns[j];
                if one.id == other.id || same_text(one.name.as_str(), other.name.as_str()) {
                    assert(self@[i as int].id == self@[j as int].id || self@[i as int].name
                        == self@[j as int].name);
                    return false;
                }
                i += 1;
            }
            j += 1;
        }
        true
    }

    /// The position of the campaign called `name`.
    fn position_of_name(&self, name: &str) -> (at: Option<usize>)
        ensures
            at is Some <==> has_name(self@, name@),
            at matches Some(i) ==> i < self@.len() && self@[i as int].name == name@,
    {
        let mut i: usize = 0;
        while i < self.campaigns.len()
            invariant
                i <= self.campaigns.len(),
                forall|k: int| 0 <= k < i ==> (#[trigger] self@[k]).name != name@,
            decreases self.campaigns.len() - i,
        {
            if same_text(self.campaigns[i].name.as_str(), name) {
                assert(self@[i as int].name == name@);
                return Some(i);
            }
            i += 1;
        }
        None
    }

    /// The position of the campaign with the id `id`.
    fn position_of_id(&self, id: i64) -> (at: Option<usize>)
        ensures
            at is Some <==> has_id(self@, id),
            at matches Some(i) ==> i < self@.len() && self@[i as int].id == id,
    {
        let mut i: usize = 0;
        while i < self.campaigns.len()
            invariant
                i <= self.campaigns.len(),
                forall|k: int| 0 <= k < i ==> (#[trigger] self@[k]).id != id,
            decreases self.campaigns.len() - i,
        {
            if self.campaigns[i].id == id {
                assert(self@[i as int].id == id);
                return Some(i);
            }
            i += 1;
        }
        None
    }

    /// Registers `campaign`, unless its id or its name is taken.
    pub fn add(&mut self, campaign: Campaign) -> (r: Result<(), RegistryError>)
        requires
            old(self).wf(),
        ensures
            final(self).wf(),
            has_id(old(self)@, campaign.id) ==> r == Err::<(), _>(RegistryError::DuplicateId),
            !has_id(old(self)@, campaign.id) && has_name(old(self)@, campaign.name@) ==> r == Err::<
                (),
                _,
            >(RegistryError::DuplicateName),
            !has_id(old(self)@, campaign.id) && !has_name(old(self)@, campaign.name@) ==> r is Ok,
            r is Ok ==> final(self)@ == old(self)@.push(campaign@),
            r is Err ==> final(self)@ == old(self)@,
    {
        if self.position_of_id(campaign.id).is_some() {
            return Err(RegistryError::DuplicateId);
        }
        if self.position_of_name(campaign.name.as_str()).is_some() {
            return Err(RegistryError::DuplicateName);
        }
        let ghost before = self@;
        let ghost added = campaign@;
        self.campaigns.push(campaign);
        assert(self@ =~= before.push(added));
        assert(distinct_campaigns(self@)) by {
            assert forall|i: int, j: int| 0 <= i < j < self@.len() implies (#[trigger] self@[i]).id
                != (#[trigger] self@[j]).id && self@[i].name != self@[j].name by {
                if j < before.len() {
                    assert(self@[i] == before[i] && self@[j] == before[j]);
                } else {
                    assert(self@[i] == before[i]);
                }
            }
        }
        Ok(())
    }

    /// The campaign with the id `id`.
    pub fn campaign_by_id(&self, id: i64) -> (r: Option<&Campaign>)
        ensures
            r is Some <==> has_id(self@, id),
            r matches Some(c) ==> c@.id == id && self@.contains(c@),
            self.wf() ==> (r matches Some(c) ==> c@ == campaign_with_id(self@, id)),
    {
        match self.position_of_id(id) {
            Some(i) => {
                proof {
                    assert(self@[i as int] == self.campaigns@[i as int]@);
                    if self.wf() {
                        lemma_id_is_unique(self@, i as int);
                    }
                }
                Some(&self.campaigns[i])
            },
            None => None,
        }
    }
}

/// Resolves a campaign's name to its id. The name must match exactly.
pub fn get_id_from_name(registry: &CampaignRegistry, name: &str) -> (r: Result<i64, RegistryError>)
    requires
        registry.wf(),
    ensures
        r is Ok <==> has_name(registry@, name@),
        r matches Ok(id) ==> Some(id) == id_of_name(registry@, name@),
        r matches Err(e) ==> e == RegistryError::NotFound,
{
    match registry.position_of_name(name) {
        Some(i) => {
            proof {
                lemma_name_is_unique(registry@, i as int);
            }
            Ok(registry.campaigns[i].id)
        },
        None => Err(RegistryError::NotFound),
    }
}

/// Resolves a campaign's id to its name.
pub fn get_name_from_id(registry: &CampaignRegistry, id: i64) -> (r: Result<String, RegistryError>)
    requires
        registry.wf(),
    ensures
        r is Ok <==> has_id(registry@, id),
        r matches Ok(name) ==> name@ == campaign_with_id(registry@, id).name,
        r matches Err(e) ==> e == RegistryError::NotFound,
{
    match registry.position_of_id(id) {
        Some(i) => {
            proof {
                lemma_id_is_unique(registry@, i as int);
            }
            Ok(registry.campaigns[i].name.clone())
        },
        None => Err(RegistryError::NotFound),
    }
}

/// Whether a campaign with the id `id` is registered.
pub fn does_campaign_exist(registry: &CampaignRegistry, id: i64) -> (exists_: bool)
    ensures
        exists_ == has_id(registry@, id),
{
    registry.position_of_id(id).is_some()
}

/// The names that begin with `partial`, in the registry's order: what a user
/// who has typed `partial` may mean. The empty `partial` gives every name.
pub fn autocomplete_campaign(registry: &CampaignRegistry, partial: &str) -> (names: Vec<String>)
    ensures
        texts_of(names@) == suggestions(names_of(registry@), partial@),
        registry.wf() ==> texts_of(names@).no_duplicates(),
{
    let ghost pred = |n: Seq<char>| partial@.is_prefix_of(n);
    let ghost all = names_of(registry@);
    let mut names: Vec<String> = Vec::new();
    let mut i: usize = 0;
    proof {
        reveal(Seq::filter);
        assert(all.take(0) =~= Seq::<Seq<char>>::empty());
        assert(texts_of(names@) =~= all.take(0).filter(pred));
    }
    while i < registry.campaigns.len()
        invariant
            i <= registry.campaigns.len(),
            all == names_of(registry@),
            pred == (|n: Seq<char>| partial@.is_prefix_of(n)),
            texts_of(names@) == all.take(i as int).filter(pred),
        decreases registry.campaigns.len() - i,
    {
        let ghost before = texts_of(names@);
        let name = &registry.campaigns[i].name;
        proof {
            assert(all[i as int] == name@);
            assert(all.take(i + 1) =~= all.take(i as int).push(name@));
            all.take(i as int).lemma_filter_push(name@, pred);
        }
        if starts_with(name.as_str(), partial) {
            names.push(name.clone());
            assert(texts_of(names@) =~= before.push(name@));
        }
        i += 1;
    }
    proof {
        assert(all.take(i as int) =~= all);
        if registry.wf() {
            lemma_names_are_distinct(registry@);
            lemma_filter_keeps_distinct(all, pred);
        }
    }
    names
}

} // verus!
