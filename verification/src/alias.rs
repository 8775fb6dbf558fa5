//! The topic alias registry: a connection-scoped mapping between a short
//! numeric alias and a topic name, bounded by the negotiated maximum,
//! last-writer-wins on re-registration.

use vstd::prelude::*;

use crate::error::ProtocolError;

verus! {

/// Bidirectional alias/topic bookkeeping for one connection.
pub struct TopicAliasRegistry {
    entries: Vec<(u16, String)>,
    max_topic_alias: u16,
}

impl TopicAliasRegistry {
    /// The registered aliases, oldest first.
    pub closed spec fn alias_keys(&self) -> Seq<u16> {
        self.entries@.map_values(|p: (u16, String)| p.0)
    }

    /// Whether `alias` has been registered on this connection.
    pub open spec fn has_alias(&self, alias: u16) -> bool {
        self.alias_keys().contains(alias)
    }

    /// Index of `alias` among the entries.
    pub closed spec fn index_of(&self, alias: u16) -> int {
        choose|k: int| 0 <= k < self.entries@.len() && self.entries@[k].0 == alias
    }

    /// The topic name `alias` stands for.
    pub closed spec fn topic_of(&self, alias: u16) -> Seq<char> {
        self.entries@[self.index_of(alias)].1@
    }

    /// The negotiated maximum alias value; zero is never a valid alias.
    pub closed spec fn max_alias(&self) -> u16 {
        self.max_topic_alias
    }

    /// The registry's internal invariant: aliases are unique, non-zero,
    /// and never exceed the negotiated maximum.
    pub closed spec fn wf(&self) -> bool {
        &&& self.alias_keys().no_duplicates()
        &&& forall|k: int|
            0 <= k < self.entries@.len() ==> 1 <= (#[trigger] self.entries@[k]).0
                <= self.max_topic_alias
    }

    /// Where `alias` sits among the entries; under `wf` the index is
    /// unique.
    proof fn lemma_index(&self, alias: u16)
        requires
            self.wf(),
            self.has_alias(alias),
        ensures
            0 <= self.index_of(alias) < self.entries@.len(),
            self.entries@[self.index_of(alias)].0 == alias,
            forall|k: int|
                0 <= k < self.entries@.len() && (#[trigger] self.entries@[k]).0 == alias ==> k
                    == self.index_of(alias),
    {
        let j = choose|j: int| 0 <= j < self.alias_keys().len() && self.alias_keys()[j] == alias;
        assert(self.entries@[j].0 == alias);
        let c = self.index_of(alias);
        assert(self.alias_keys()[c] == alias);
        assert forall|k: int|
            0 <= k < self.entries@.len() && (#[trigger] self.entries@[k]).0 == alias implies k
            == c by {
            assert(self.alias_keys()[k] == alias);
            if k != c {
                assert(self.alias_keys()[k] != self.alias_keys()[c]);
            }
        }
    }

    /// A fresh registry with the given maximum and no entries.
    pub fn new(max_topic_alias: u16) -> (r: TopicAliasRegistry)
        ensures
            r.wf(),
            r.max_alias() == max_topic_alias,
            forall|a: u16| !r.has_alias(a),
    {
        let r = TopicAliasRegistry { entries: Vec::new(), max_topic_alias };
        proof {
            assert(r.alias_keys() =~= Seq::<u16>::empty());
        }
        r
    }

    /// Registers (or, last-writer-wins, overwrites) the topic an alias
    /// stands for; an alias of zero or above the negotiated maximum is
    /// always the max-topic-alias protocol violation.
    pub fn register(&mut self, alias: u16, topic: String) -> (r: Result<(), ProtocolError>)
        requires
            old(self).wf(),
        ensures
            final(self).wf(),
            final(self).max_alias() == old(self).max_alias(),
            match r {
                Result::Ok(()) => {
                    &&& alias != 0
                    &&& alias <= old(self).max_alias()
                    &&& final(self).has_alias(alias)
                    &&& final(self).topic_of(alias) == topic@
                    &&& forall|x: u16|
                        x != alias ==> (final(self).has_alias(x) <==> old(self).has_alias(x))
                    &&& forall|x: u16|
                        x != alias && old(self).has_alias(x) ==> final(self).topic_of(x) == old(
                            self,
                        ).topic_of(x)
                },
                Result::Err(e) => {
                    &&& e is MaxTopicAlias
                    &&& (alias == 0 || alias > old(self).max_alias())
                    &&& *final(self) == *old(self)
                },
            },
    {
        if alias == 0 || alias > self.max_topic_alias {
            return Result::Err(ProtocolError::MaxTopicAlias);
        }
        let ghost mid: TopicAliasRegistry;
        match self.find_entry(alias) {
            Option::None => {
                proof {
                    mid = *self;
                }
            },
            Option::Some(k) => {
                let ghost pre = *self;
                self.entries.remove(k);
                proof {
                    mid = *self;
                    assert(mid.alias_keys() =~= pre.alias_keys().remove(k as int));
                    crate::inflight::lemma_remove_keeps_no_duplicates(pre.alias_keys(), k as int);
                    assert(!mid.has_alias(alias)) by {
                        if mid.alias_keys().contains(alias) {
                            let j = choose|j: int|
                                0 <= j < mid.alias_keys().len() && mid.alias_keys()[j] == alias;
                            let sj = if j < k as int {
                                j
                            } else {
                                j + 1
                            };
                            assert(pre.alias_keys()[sj] == alias);
                            assert(pre.alias_keys()[k as int] == alias);
                            assert(sj != k as int);
                            assert(false);
                        }
                    }
                    assert forall|x: u16| x != alias implies (mid.has_alias(x) <==> pre.has_alias(
                        x,
                    )) by {
                        if mid.alias_keys().contains(x) {
                            let j = choose|j: int|
                                0 <= j < mid.alias_keys().len() && mid.alias_keys()[j] == x;
                            let sj = if j < k as int {
                                j
                            } else {
                                j + 1
                            };
                            assert(pre.alias_keys()[sj] == x);
                        }
                        if pre.alias_keys().contains(x) {
                            let j = choose|j: int|
                                0 <= j < pre.alias_keys().len() && pre.alias_keys()[j] == x;
                            if j < k as int {
                                assert(mid.alias_keys()[j] == x);
                            } else if j > k as int {
                                assert(mid.alias_keys()[j - 1] == x);
                            } else {
                                assert(pre.alias_keys()[k as int] == alias);
                            }
                        }
                    }
                    assert forall|x: u16| x != alias && pre.has_alias(x) implies mid.topic_of(x)
                        == pre.topic_of(x) by {
                        pre.lemma_index(x);
                        let c1 = pre.index_of(x);
                        mid.lemma_index(x);
                        let c2 = mid.index_of(x);
                        let s2 = if c2 < k as int {
                            c2
                        } else {
                            c2 + 1
                        };
                        assert(mid.entries@[c2] == pre.entries@[s2]);
                        assert(pre.entries@[s2].0 == x);
                        assert(s2 == c1);
                    }
                }
            },
        }
        let ghost before_push = *self;
        self.entries.push((alias, topic));
        proof {
            let post = *self;
            let n = mid.entries@.len() as int;
            assert(before_push == mid);
            assert(post.alias_keys() =~= mid.alias_keys().push(alias));
            assert forall|i: int, j: int|
                0 <= i < post.alias_keys().len() && 0 <= j < post.alias_keys().len() && i
                    != j implies post.alias_keys()[i] != post.alias_keys()[j] by {
                if i < n && j < n {
                    assert(post.alias_keys()[i] == mid.alias_keys()[i]);
                    assert(post.alias_keys()[j] == mid.alias_keys()[j]);
                } else if i == n {
                    if post.alias_keys()[j] == alias {
                        assert(mid.alias_keys()[j] == alias);
                        assert(mid.alias_keys().contains(alias));
                        assert(false);
                    }
                } else {
                    if post.alias_keys()[i] == alias {
                        assert(mid.alias_keys()[i] == alias);
                        assert(mid.alias_keys().contains(alias));
                        assert(false);
                    }
                }
            }
            assert(post.alias_keys().no_duplicates());
            assert(post.entries@[n].0 == alias);
            assert(post.has_alias(alias)) by {
                assert(post.alias_keys()[n] == alias);
            }
            assert(post.wf());
            post.lemma_index(alias);
            assert(post.index_of(alias) == n);
            assert(post.topic_of(alias) == topic@);
            assert forall|x: u16| x != alias && mid.has_alias(x) implies post.topic_of(x)
                == mid.topic_of(x) by {
                mid.lemma_index(x);
                let k = mid.index_of(x);
                assert(post.entries@[k].0 == x);
                assert(post.has_alias(x)) by {
                    assert(post.alias_keys()[k] == x);
                }
                post.lemma_index(x);
                assert(post.index_of(x) == k);
            }
            assert forall|x: u16| x != alias && post.has_alias(x) implies mid.has_alias(x) by {
                let m = choose|m: int|
                    0 <= m < post.alias_keys().len() && post.alias_keys()[m] == x;
                assert(m < n);
                assert(mid.alias_keys()[m] == x);
            }
            assert forall|x: u16| x != alias && mid.has_alias(x) implies post.has_alias(x) by {
                let m = choose|m: int|
                    0 <= m < mid.alias_keys().len() && mid.alias_keys()[m] == x;
                assert(post.alias_keys()[m] == x);
            }
        }
        Result::Ok(())
    }

    /// Resolves an alias to the topic it stands for; an alias never
    /// registered on this connection is the unknown-topic-alias
    /// protocol violation.
    pub fn resolve(&self, alias: u16) -> (r: Result<String, ProtocolError>)
        requires
            self.wf(),
        ensures
            match r {
                Result::Ok(t) => self.has_alias(alias) && t@ == self.topic_of(alias),
                Result::Err(e) => e is UnknownTopicAlias && !self.has_alias(alias),
            },
    {
        match self.find_entry(alias) {
            Option::None => Result::Err(ProtocolError::UnknownTopicAlias),
            Option::Some(k) => {
                proof {
                    assert(self.alias_keys()[k as int] == alias);
                    assert(self.has_alias(alias));
                    self.lemma_index(alias);
                    assert(self.index_of(alias) == k as int);
                }
                Result::Ok(self.entries[k].1.clone())
            },
        }
    }

    /// Index of `alias` among the entries, if registered.
    fn find_entry(&self, alias: u16) -> (r: Option<usize>)
        ensures
            match r {
                Option::Some(k) => k < self.entries@.len() && self.entries@[k as int].0 == alias,
                Option::None => !self.has_alias(alias),
            },
    {
        let mut k: usize = 0;
        while k < self.entries.len()
            invariant
                k <= self.entries@.len(),
                forall|j: int| 0 <= j < k ==> (#[trigger] self.entries@[j]).0 != alias,
            decreases self.entries@.len() - k,
        {
            if self.entries[k].0 == alias {
                return Option::Some(k);
            }
            k = k + 1;
        }
        proof {
            if self.has_alias(alias) {
                let j = choose|j: int|
                    0 <= j < self.alias_keys().len() && self.alias_keys()[j] == alias;
                assert(self.entries@[j].0 == alias);
                assert(false);
            }
        }
        Option::None
    }
}

} // verus!
