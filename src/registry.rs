//! Keeps the handle of each live notification reachable, keyed by tag, so that
//! an interaction with it can still be delivered. A new handle for a tag takes
//! the place of the old one.

use vstd::prelude::*;

verus! {

/// How many entries carry tag `t`.
pub open spec fn count_tag<H>(s: Seq<(Seq<char>, H)>, t: Seq<char>) -> nat
    decreases s.len(),
{
    if s.len() == 0 {
        0
    } else {
        count_tag(s.drop_last(), t) + if s.last().0 == t { 1nat } else { 0nat }
    }
}

pub open spec fn has_tag<H>(s: Seq<(Seq<char>, H)>, t: Seq<char>) -> bool {
    exists|i: int| 0 <= i < s.len() && #[trigger] s[i].0 == t
}

pub open spec fn tags_unique<H>(s: Seq<(Seq<char>, H)>) -> bool {
    forall|i: int, j: int| 0 <= i < j < s.len() ==> #[trigger] s[i].0 != #[trigger] s[j].0
}

/// The entries after storing `h` under `t`: the entry for `t` is replaced in
/// place if there is one, otherwise a new one is appended.
pub open spec fn inserted<H>(s: Seq<(Seq<char>, H)>, t: Seq<char>, h: H) -> Seq<(Seq<char>, H)> {
    if has_tag(s, t) {
        s.update(choose|i: int| 0 <= i < s.len() && #[trigger] s[i].0 == t, (t, h))
    } else {
        s.push((t, h))
    }
}

/// The handle stored under `t`, if any.
pub open spec fn handle_for<H>(s: Seq<(Seq<char>, H)>, t: Seq<char>) -> Option<H> {
    if has_tag(s, t) {
        Some(s[choose|i: int| 0 <= i < s.len() && #[trigger] s[i].0 == t].1)
    } else {
        None
    }
}

proof fn lemma_count_tag<H>(s: Seq<(Seq<char>, H)>, t: Seq<char>)
    requires
        tags_unique(s),
    ensures
        count_tag(s, t) == if has_tag(s, t) { 1nat } else { 0nat },
    decreases s.len(),
{
    if s.len() > 0 {
        let p = s.drop_last();
        assert(tags_unique(p)) by {
            assert forall|i: int, j: int| 0 <= i < j < p.len() implies #[trigger] p[i].0 != #[trigger] p[j].0 by {
                assert(p[i] == s[i] && p[j] == s[j]);
            }
        }
        lemma_count_tag(p, t);
        if s.last().0 == t {
            assert(!has_tag(p, t)) by {
                if has_tag(p, t) {
                    let i = choose|i: int| 0 <= i < p.len() && #[trigger] p[i].0 == t;
                    assert(s[i].0 == s[s.len() - 1].0);
                }
            }
            assert(has_tag(s, t)) by {
                assert(s[s.len() - 1].0 == t);
            }
        } else {
            if has_tag(s, t) {
                let i = choose|i: int| 0 <= i < s.len() && #[trigger] s[i].0 == t;
                assert(p[i].0 == t);
            }
            if has_tag(p, t) {
                let i = choose|i: int| 0 <= i < p.len() && #[trigger] p[i].0 == t;
                assert(s[i].0 == t);
            }
        }
    }
}

proof fn lemma_inserted<H>(s: Seq<(Seq<char>, H)>, t: Seq<char>, h: H)
    requires
        tags_unique(s),
    ensures
        tags_unique(inserted(s, t, h)),
        has_tag(inserted(s, t, h), t),
        handle_for(inserted(s, t, h), t) == Some(h),
        count_tag(inserted(s, t, h), t) == 1,
{
    let r = inserted(s, t, h);
    if has_tag(s, t) {
        let i = choose|i: int| 0 <= i < s.len() && #[trigger] s[i].0 == t;
        assert(r[i].0 == t);
        assert forall|a: int, b: int| 0 <= a < b < r.len() implies #[trigger] r[a].0 != #[trigger] r[b].0 by {
            if a == i {
                assert(s[b].0 != s[i].0);
            } else if b == i {
                assert(s[a].0 != s[i].0);
            }
        }
    } else {
        let n = s.len() as int;
        assert(r[n].0 == t);
        assert forall|a: int, b: int| 0 <= a < b < r.len() implies #[trigger] r[a].0 != #[trigger] r[b].0 by {
            if b == n {
                assert(r[a] == s[a]);
            } else {
                assert(r[a] == s[a] && r[b] == s[b]);
            }
        }
    }
    let k = choose|k: int| 0 <= k < r.len() && #[trigger] r[k].0 == t;
    if has_tag(s, t) {
        let i = choose|i: int| 0 <= i < s.len() && #[trigger] s[i].0 == t;
        if k != i {
            assert(r[k].0 == r[i].0);
        }
    } else {
        let n = s.len() as int;
        if k != n {
            assert(r[k].0 == r[n].0);
        }
    }
    lemma_count_tag(r, t);
}

/// Posting twice under one tag leaves exactly one entry for it, holding the
/// later handle, and as many entries as posting once.
pub proof fn lemma_same_tag_replaces<H>(s: Seq<(Seq<char>, H)>, t: Seq<char>, h1: H, h2: H)
    requires
        tags_unique(s),
    ensures
        count_tag(inserted(inserted(s, t, h1), t, h2), t) == 1,
        handle_for(inserted(inserted(s, t, h1), t, h2), t) == Some(h2),
        inserted(inserted(s, t, h1), t, h2).len() == inserted(s, t, h1).len(),
{
    lemma_inserted(s, t, h1);
    lemma_inserted(inserted(s, t, h1), t, h2);
}

/// The live notifications, one per tag.
pub struct NotificationRegistry<H> {
    entries: Vec<(String, H)>,
}

impl<H> View for NotificationRegistry<H> {
    type V = Seq<(Seq<char>, H)>;

    closed spec fn view(&self) -> Seq<(Seq<char>, H)> {
        self.entries@.map_values(|e: (String, H)| (e.0@, e.1))
    }
}

impl<H> NotificationRegistry<H> {
    pub open spec fn wf(&self) -> bool {
        tags_unique(self@)
    }

    /// An empty registry.
    pub fn new() -> (r: Self)
        ensures
            r.wf(),
            r@ == Seq::<(Seq<char>, H)>::empty(),
    {
        let r = NotificationRegistry { entries: Vec::new() };
        proof {
            assert(r@ =~= Seq::<(Seq<char>, H)>::empty());
        }
        r
    }

    /// Number of tags with a live notification.
    pub fn len(&self) -> (r: usize)
        ensures
            r == self@.len(),
    {
        self.entries.len()
    }

    /// Keeps `handle` alive under `tag`, in place of any earlier one.
    pub fn insert(&mut self, tag: &str, handle: H)
        requires
            old(self).wf(),
        ensures
            final(self).wf(),
            final(self)@ == inserted(old(self)@, tag@, handle),
    {
        let ghost before = self@;
        let mut i: usize = 0;
        while i < self.entries.len()
            invariant
                self@ == before,
                before == old(self)@,
                tags_unique(before),
                i <= self.entries.len(),
                forall|k: int| 0 <= k < i ==> before[k].0 != tag@,
            decreases self.entries.len() - i,
        {
            proof {
                assert(self@[i as int].0 == self.entries@[i as int].0@);
            }
            if self.entries[i].0 == String::from_str(tag) {
                let ghost idx = i as int;
                proof {
                    assert(before[idx].0 == tag@);
                    assert(has_tag(before, tag@));
                    let c = choose|c: int| 0 <= c < before.len() && #[trigger] before[c].0 == tag@;
                    if c != idx {
                        assert(before[c].0 == before[idx].0);
                    }
                    assert(inserted(before, tag@, handle) == before.update(idx, (tag@, handle)));
                }
                self.entries.set(i, (String::from_str(tag), handle));
                proof {
                    assert(self@ =~= before.update(idx, (tag@, handle)));
                    lemma_inserted(before, tag@, handle);
                }
                return;
            }
            i = i + 1;
        }
        proof {
            assert(!has_tag(before, tag@));
        }
        self.entries.push((String::from_str(tag), handle));
        proof {
            assert(self@ =~= before.push((tag@, handle)));
            lemma_inserted(before, tag@, handle);
        }
    }

    /// Whether a notification is kept under `tag`.
    pub fn contains(&self, tag: &str) -> (r: bool)
        requires
            self.wf(),
        ensures
            r == has_tag(self@, tag@),
    {
        let mut i: usize = 0;
        while i < self.entries.len()
            invariant
                i <= self.entries.len(),
                forall|k: int| 0 <= k < i ==> self@[k].0 != tag@,
            decreases self.entries.len() - i,
        {
            proof {
                assert(self@[i as int].0 == self.entries@[i as int].0@);
            }
            if self.entries[i].0 == String::from_str(tag) {
                proof {
                    assert(self@[i as int].0 == tag@);
                }
                return true;
            }
            i = i + 1;
        }
        false
    }
}

/// Keeps `notification` reachable under `tag` for as long as the registry lives,
/// replacing the one posted earlier under the same tag.
pub fn store_notification<H>(registry: &mut NotificationRegistry<H>, tag: &str, notification: H)
    requires
        old(registry).wf(),
    ensures
        final(registry).wf(),
        final(registry)@ == inserted(old(registry)@, tag@, notification),
{
    registry.insert(tag, notification);
}

} // verus!
