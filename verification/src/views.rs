//! The list views: sessions, extensions, and the provider picker with its
//! search.

use vstd::prelude::*;
use crate::acp::{ExtensionInfo, ProviderInfo, SessionInfo};

verus! {

/// Moving up: one row up, stopping at the first row.
pub open spec fn moved_up(idx: usize) -> usize {
    if idx > 0 {
        (idx - 1) as usize
    } else {
        idx
    }
}

/// Moving down in a list of `len` rows: one row down, stopping at the last
/// row; an empty list keeps the selection.
pub open spec fn moved_down(idx: usize, len: nat) -> usize {
    if len > 0 && idx < len - 1 {
        (idx + 1) as usize
    } else {
        idx
    }
}

/// State of the sessions view.
pub struct SessionsState {
    pub sessions: Vec<SessionInfo>,
    pub selected_idx: usize,
}

impl SessionsState {
    pub fn new() -> (s: Self)
        ensures
            s.sessions@.len() == 0,
            s.selected_idx == 0,
    {
        Self { sessions: Vec::new(), selected_idx: 0 }
    }

    pub fn move_up(&mut self)
        ensures
            *final(self) == (SessionsState { selected_idx: moved_up(old(self).selected_idx), ..*old(self) }),
    {
        if self.selected_idx > 0 {
            self.selected_idx -= 1;
        }
    }

    pub fn move_down(&mut self)
        ensures
            *final(self) == (SessionsState {
                selected_idx: moved_down(old(self).selected_idx, old(self).sessions@.len()),
                ..*old(self)
            }),
    {
        if self.sessions.len() > 0 && self.selected_idx < self.sessions.len() - 1 {
            self.selected_idx += 1;
        }
    }
}

/// State of the extensions view.
pub struct ExtensionsState {
    pub extensions: Vec<ExtensionInfo>,
    pub selected_idx: usize,
}

impl ExtensionsState {
    pub fn new() -> (s: Self)
        ensures
            s.extensions@.len() == 0,
            s.selected_idx == 0,
    {
        Self { extensions: Vec::new(), selected_idx: 0 }
    }

    pub fn move_up(&mut self)
        ensures
            *final(self) == (ExtensionsState { selected_idx: moved_up(old(self).selected_idx), ..*old(self) }),
    {
        if self.selected_idx > 0 {
            self.selected_idx -= 1;
        }
    }

    pub fn move_down(&mut self)
        ensures
            *final(self) == (ExtensionsState {
                selected_idx: moved_down(old(self).selected_idx, old(self).extensions@.len()),
                ..*old(self)
            }),
    {
        if self.extensions.len() > 0 && self.selected_idx < self.extensions.len() - 1 {
            self.selected_idx += 1;
        }
    }
}

/// Moving never takes a selection that is on a row of the list off it.
pub proof fn law_moves_stay_in_list(idx: usize, len: nat)
    requires
        idx < len,
    ensures
        moved_up(idx) < len,
        moved_down(idx, len) < len,
{
}

/// Moving down then up returns to the row one started from, unless it was
/// the last row; moving up then down likewise, unless it was the first.
pub proof fn law_moves_undo(idx: usize, len: nat)
    requires
        idx < len <= usize::MAX,
    ensures
        idx + 1 < len ==> moved_up(moved_down(idx, len)) == idx,
        idx > 0 ==> moved_down(moved_up(idx), len) == idx,
{
}

/// The lower case of a string, as `str::to_lowercase` computes it (Unicode
/// case mapping, in which one character may become several).
pub uninterp spec fn lowercase(s: Seq<char>) -> Seq<char>;

/// `str::to_lowercase`.
#[verifier::external_body]
pub(crate) fn to_lowercase(s: &str) -> (r: String)
    ensures
        r@ == lowercase(s@),
{
    s.to_lowercase()
}

/// `needle` occurs in `hay` as a contiguous run.
pub open spec fn contains_seq(hay: Seq<char>, needle: Seq<char>) -> bool {
    exists|i: int| 0 <= i <= hay.len() - needle.len() && #[trigger] hay.subrange(i, i + needle.len()) == needle
}

/// Whether `needle` occurs in `hay`, as `str::contains` answers it.
pub fn contains_str(hay: &str, needle: &str) -> (b: bool)
    ensures
        b == contains_seq(hay@, needle@),
{
    let h = crate::text::chars_of(hay);
    let nd = crate::text::chars_of(needle);
    let hn = h.len();
    let nn = nd.len();
    if nn > hn {
        return false;
    }
    let mut i: usize = 0;
    while i <= hn - nn
        invariant
            nn <= hn,
            hn == h@.len(),
            nn == nd@.len(),
            h@ == hay@,
            nd@ == needle@,
            forall|p: int| 0 <= p < i ==> #[trigger] h@.subrange(p, p + nn) != nd@,
        decreases hn - nn + 1 - i,
    {
        let mut j: usize = 0;
        while j < nn && h[i + j] == nd[j]
            invariant
                j <= nn,
                i + nn <= hn,
                hn == h@.len(),
                nn == nd@.len(),
                forall|q: int| 0 <= q < j ==> h@[i + q] == nd@[q],
            decreases nn - j,
        {
            j = j + 1;
        }
        if j == nn {
            assert(h@.subrange(i as int, i + nn) =~= nd@);
            return true;
        }
        assert(h@.subrange(i as int, i + nn)[j as int] != nd@[j as int]);
        i = i + 1;
    }
    assert forall|p: int| 0 <= p <= hay@.len() - needle@.len() implies #[trigger] hay@.subrange(
        p,
        p + needle@.len(),
    ) != needle@ by {
        assert(p < i);
    }
    false
}

/// A provider is kept by the search when the lowered query occurs in its
/// lowered name or id.
pub open spec fn provider_matches(name_lower: Seq<char>, id_lower: Seq<char>, query_lower: Seq<char>) -> bool {
    contains_seq(name_lower, query_lower) || contains_seq(id_lower, query_lower)
}

/// The search test on already lowered text.
pub fn matches_lowered(name_lower: &str, id_lower: &str, query_lower: &str) -> (b: bool)
    ensures
        b == provider_matches(name_lower@, id_lower@, query_lower@),
{
    contains_str(name_lower, query_lower) || contains_str(id_lower, query_lower)
}

/// The providers the search keeps, in their order.
pub open spec fn filter_providers(ps: Seq<ProviderInfo>, q: Seq<char>) -> Seq<ProviderInfo>
    decreases ps.len(),
{
    if ps.len() == 0 {
        seq![]
    } else {
        let rest = filter_providers(ps.drop_last(), q);
        let p = ps.last();
        if provider_matches(lowercase(p.name@), lowercase(p.id@), lowercase(q)) {
            rest.push(p)
        } else {
            rest
        }
    }
}

/// State of the provider picker.
pub struct OnboardingState {
    pub providers: Vec<ProviderInfo>,
    pub selected_idx: usize,
    pub search_query: String,
}

impl OnboardingState {
    pub fn new() -> (s: Self)
        ensures
            s.providers@.len() == 0,
            s.selected_idx == 0,
            s.search_query@.len() == 0,
    {
        Self { providers: Vec::new(), selected_idx: 0, search_query: String::new() }
    }

    /// The providers listed under the current search: all of them for an
    /// empty search.
    pub open spec fn filtered(&self) -> Seq<ProviderInfo> {
        if self.search_query@.len() == 0 {
            self.providers@
        } else {
            filter_providers(self.providers@, self.search_query@)
        }
    }

    pub fn filtered_providers(&self) -> (ps: Vec<&ProviderInfo>)
        ensures
            ps@.map_values(|p: &ProviderInfo| *p) == self.filtered(),
    {
        let mut ps: Vec<&ProviderInfo> = Vec::new();
        let n = self.providers.len();
        let empty = self.search_query.as_str().is_empty();
        let q = to_lowercase(self.search_query.as_str());
        let mut i: usize = 0;
        while i < n
            invariant
                i <= n,
                n == self.providers@.len(),
                empty == (self.search_query@.len() == 0),
                q@ == lowercase(self.search_query@),
                empty ==> ps@.map_values(|p: &ProviderInfo| *p) == self.providers@.take(i as int),
                !empty ==> ps@.map_values(|p: &ProviderInfo| *p) == filter_providers(
                    self.providers@.take(i as int),
                    self.search_query@,
                ),
            decreases n - i,
        {
            let p = &self.providers[i];
            let ghost before = ps@.map_values(|p: &ProviderInfo| *p);
            proof {
                assert(self.providers@.take(i + 1).drop_last() =~= self.providers@.take(i as int));
                assert(self.providers@.take(i + 1).last() == self.providers@[i as int]);
            }
            if empty {
                ps.push(p);
                assert(ps@.map_values(|p: &ProviderInfo| *p) =~= self.providers@.take(i + 1));
            } else {
                let name = to_lowercase(p.name.as_str());
                let id = to_lowercase(p.id.as_str());
                if matches_lowered(name.as_str(), id.as_str(), q.as_str()) {
                    ps.push(p);
                    assert(ps@.map_values(|p: &ProviderInfo| *p) =~= before.push(*p));
                }
            }
            i = i + 1;
        }
        assert(self.providers@.take(n as int) =~= self.providers@);
        ps
    }

    /// Moves the selection up among the listed providers.
    pub fn move_up(&mut self)
        ensures
            *final(self) == (OnboardingState {
                selected_idx: if old(self).filtered().len() > 0 {
                    moved_up(old(self).selected_idx)
                } else {
                    old(self).selected_idx
                },
                ..*old(self)
            }),
    {
        let count = self.filtered_providers().len();
        if count > 0 && self.selected_idx > 0 {
            self.selected_idx -= 1;
        }
    }

    /// Moves the selection down among the listed providers.
    pub fn move_down(&mut self)
        ensures
            *final(self) == (OnboardingState {
                selected_idx: moved_down(old(self).selected_idx, old(self).filtered().len()),
                ..*old(self)
            }),
    {
        let count = self.filtered_providers().len();
        if count > 0 && self.selected_idx < count - 1 {
            self.selected_idx += 1;
        }
    }
}

} // verus!
