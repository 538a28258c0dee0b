use crate::types::SessionId;
use vstd::prelude::*;

verus! {

/// Errors of the client-side cache.
#[derive(Clone, Debug, PartialEq, Eq)]
pub enum CacheError {
    NotLoggedIn,
    NoHostSet,
    NoMatchingId,
    AmbiguousId,
}

pub open spec fn views(v: Seq<String>) -> Seq<Seq<char>> {
    v.map_values(|s: String| s@)
}

/// The identifiers among `ids` that begin with `prefix`, in order.
pub open spec fn matching(ids: Seq<Seq<char>>, prefix: Seq<char>) -> Seq<Seq<char>>
    decreases ids.len(),
{
    if ids.len() == 0 {
        Seq::empty()
    } else if prefix.is_prefix_of(ids.last()) {
        matching(ids.drop_last(), prefix).push(ids.last())
    } else {
        matching(ids.drop_last(), prefix)
    }
}

/// What the command-line client remembers between runs: its session, its
/// server, and the identifiers it has shown, each at most once.
pub struct Cache {
    pub session_id: Option<SessionId>,
    pub host: Option<String>,
    pub ids: Option<Vec<String>>,
}

/// Whether `p` begins `s`.
pub fn has_prefix(s: &str, p: &str) -> (r: bool)
    ensures
        r == p@.is_prefix_of(s@),
{
    let n = s.unicode_len();
    let m = p.unicode_len();
    if m > n {
        return false;
    }
    let mut k: usize = 0;
    while k < m
        invariant
            m <= n,
            n == s@.len(),
            m == p@.len(),
            k <= m,
            forall|j: int| 0 <= j < k ==> p@[j] == s@[j],
        decreases m - k,
    {
        if s.get_char(k) != p.get_char(k) {
            return false;
        }
        k = k + 1;
    }
    assert(p@ =~= s@.subrange(0, m as int));
    true
}

/// A copy of the string.
fn copy(s: &String) -> (r: String)
    ensures
        r@ == s@,
{
    s.clone()
}

impl Cache {
    /// No identifier is held twice.
    pub open spec fn wf(&self) -> bool {
        match self.ids {
            Some(v) => views(v@).no_duplicates(),
            None => true,
        }
    }

    pub open spec fn id_views(&self) -> Seq<Seq<char>> {
        match self.ids {
            Some(v) => views(v@),
            None => Seq::empty(),
        }
    }

    /// A cache with no session, no server and no identifiers.
    pub fn empty() -> (r: Cache)
        ensures
            r.session_id is None,
            r.host is None,
            r.ids is None,
            r.wf(),
    {
        Cache { session_id: None, host: None, ids: None }
    }

    /// The session, where the user is logged in.
    pub fn get_session_id(&self) -> (r: Result<SessionId, CacheError>)
        ensures
            r matches Ok(s) ==> self.session_id matches Some(t) && s.0@ == t.0@,
            r matches Err(e) ==> self.session_id is None && e == CacheError::NotLoggedIn,
    {
        match &self.session_id {
            Some(s) => Ok(SessionId(copy(&s.0))),
            None => Err(CacheError::NotLoggedIn),
        }
    }

    /// The server, where one is set.
    pub fn get_host(&self) -> (r: Result<String, CacheError>)
        ensures
            r matches Ok(h) ==> self.host matches Some(t) && h@ == t@,
            r matches Err(e) ==> self.host is None && e == CacheError::NoHostSet,
    {
        match &self.host {
            Some(h) => Ok(copy(h)),
            None => Err(CacheError::NoHostSet),
        }
    }

    /// Remembers `new_ids` besides the identifiers already held.
    pub fn add_ids(&mut self, new_ids: Vec<String>)
        requires
            old(self).wf(),
        ensures
            final(self).wf(),
            final(self).ids is Some,
            final(self).session_id == old(self).session_id,
            final(self).host == old(self).host,
            forall|x: Seq<char>|
                #[trigger] final(self).id_views().contains(x) <==> old(self).id_views().contains(x)
                    || views(new_ids@).contains(x),
    {
        let mut ids: Vec<String> = match self.ids.take() {
            Some(v) => v,
            None => Vec::new(),
        };
        let ghost start = views(ids@);
        let mut k: usize = 0;
        while k < new_ids.len()
            invariant
                k <= new_ids@.len(),
                views(ids@).no_duplicates(),
                forall|x: Seq<char>|
                    #[trigger] views(ids@).contains(x) <==> start.contains(x) || views(new_ids@.take(k as int)).contains(x),
            decreases new_ids@.len() - k,
        {
            let ghost before = views(ids@);
            let mut found = false;
            let mut j: usize = 0;
            while j < ids.len()
                invariant
                    j <= ids@.len(),
                    k < new_ids@.len(),
                    before == views(ids@),
                    found ==> before.contains(new_ids@[k as int]@),
                    !found ==> forall|i: int| 0 <= i < j ==> before[i] != new_ids@[k as int]@,
                decreases ids@.len() - j,
            {
                if ids[j] == new_ids[k] {
                    found = true;
                    assert(before[j as int] == new_ids@[k as int]@);
                }
                j = j + 1;
            }
            proof {
                assert(views(new_ids@.take(k + 1)) =~= views(new_ids@.take(k as int)).push(new_ids@[k as int]@));
            }
            let ghost item = new_ids@[k as int]@;
            if !found {
                ids.push(copy(&new_ids[k]));
                assert(views(ids@) =~= before.push(item));
                assert forall|x: Seq<char>| #[trigger] views(ids@).contains(x) <==> before.contains(x) || x == item by {
                    if views(ids@).contains(x) {
                        let i = choose|i: int| 0 <= i < views(ids@).len() && views(ids@)[i] == x;
                        if i < before.len() {
                            assert(before[i] == x);
                        }
                    }
                    if before.contains(x) {
                        let i = choose|i: int| 0 <= i < before.len() && before[i] == x;
                        assert(views(ids@)[i] == x);
                    }
                    if x == item {
                        assert(views(ids@)[before.len() as int] == x);
                    }
                }
            }
            proof {
                let t = views(new_ids@.take(k + 1));
                let t0 = views(new_ids@.take(k as int));
                assert forall|x: Seq<char>| #[trigger] t.contains(x) <==> t0.contains(x) || x == item by {
                    if t.contains(x) {
                        let i = choose|i: int| 0 <= i < t.len() && t[i] == x;
                        if i < t0.len() {
                            assert(t0[i] == x);
                        }
                    }
                    if t0.contains(x) {
                        let i = choose|i: int| 0 <= i < t0.len() && t0[i] == x;
                        assert(t[i] == x);
                    }
                    if x == item {
                        assert(t[k as int] == x);
                    }
                }
            }
            k = k + 1;
        }
        assert(new_ids@.take(new_ids@.len() as int) =~= new_ids@);
        self.ids = Some(ids);
    }

    /// The one held identifier that begins with `id_part`.
    pub fn get_matching_id(&self, id_part: &str) -> (r: Result<String, CacheError>)
        ensures
            r matches Ok(s) ==> matching(self.id_views(), id_part@).len() == 1 && s@ == matching(
                self.id_views(),
                id_part@,
            )[0],
            r matches Err(e) ==> (e == CacheError::NoMatchingId && matching(self.id_views(), id_part@).len()
                == 0) || (e == CacheError::AmbiguousId && matching(self.id_views(), id_part@).len() >= 2),
    {
        let ids = match &self.ids {
            Some(v) => v,
            None => return Err(CacheError::NoMatchingId),
        };
        let mut count: usize = 0;
        let mut first: Option<usize> = None;
        let mut k: usize = 0;
        while k < ids.len()
            invariant
                k <= ids@.len(),
                self.ids == Some(*ids),
                count == matching(views(ids@.take(k as int)), id_part@).len(),
                count <= k,
                count == 0 <==> first is None,
                first matches Some(f) ==> f < ids@.len() && ids@[f as int]@ == matching(
                    views(ids@.take(k as int)),
                    id_part@,
                )[0],
            decreases ids@.len() - k,
        {
            let ghost prev = views(ids@.take(k as int));
            proof {
                assert(views(ids@.take(k + 1)).drop_last() =~= prev);
                assert(views(ids@.take(k + 1)).last() == ids@[k as int]@);
            }
            if has_prefix(ids[k].as_str(), id_part) {
                if first.is_none() {
                    first = Some(k);
                }
                count = count + 1;
            }
            k = k + 1;
        }
        assert(ids@.take(ids@.len() as int) =~= ids@);
        if count == 1 {
            match first {
                Some(f) => Ok(copy(&ids[f])),
                None => Err(CacheError::NoMatchingId),
            }
        } else if count == 0 {
            Err(CacheError::NoMatchingId)
        } else {
            Err(CacheError::AmbiguousId)
        }
    }
}

/// The first `len` characters of `value` (all of it where it is shorter).
pub fn substr(value: &str, len: usize) -> (r: String)
    ensures
        r@ == value@.take(if len < value@.len() { len as int } else { value@.len() as int }),
{
    let n = value.unicode_len();
    let end = if len < n { len } else { n };
    String::from_str(value.substring_char(0, end))
}

} // verus!
